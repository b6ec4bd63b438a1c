use crate::digits::{all_digits, digits_value, read_digits};
use crate::text::chars_of;
use vstd::prelude::*;

verus! {

/// A date and a time of day on the wall clock of some zone that is not named here.
#[derive(Clone, Copy, Debug, PartialEq, Eq, Structural)]
pub struct LocalDateTime {
    pub year: u16,
    pub month: u8,
    pub day: u8,
    pub hour: u8,
    pub minute: u8,
    pub second: u8,
}

/// Whether `year` is a leap year of the Gregorian calendar.
pub open spec fn is_leap_year(year: int) -> bool {
    year % 4 == 0 && (year % 100 != 0 || year % 400 == 0)
}

/// How many days `month` has in `year`; 0 where `month` is no month.
pub open spec fn days_in_month(year: int, month: int) -> int {
    if month == 4 || month == 6 || month == 9 || month == 11 {
        30
    } else if month == 2 {
        if is_leap_year(year) {
            29
        } else {
            28
        }
    } else if 1 <= month <= 12 {
        31
    } else {
        0
    }
}

/// Whether the six numbers name a day of the Gregorian calendar in the years 0
/// to 9999 and a second of that day. The second may be 60, for a leap second
/// behind the 59th.
pub open spec fn is_reading(
    year: int,
    month: int,
    day: int,
    hour: int,
    minute: int,
    second: int,
) -> bool {
    &&& 0 <= year <= 9999
    &&& 1 <= month <= 12
    &&& 1 <= day <= days_in_month(year, month)
    &&& 0 <= hour <= 23
    &&& 0 <= minute <= 59
    &&& 0 <= second <= 60
}

impl LocalDateTime {
    /// Whether the fields name a day of the Gregorian calendar in the years 0
    /// to 9999 and a second of that day, the leap second 60 included.
    pub open spec fn is_valid(self) -> bool {
        is_reading(
            self.year as int,
            self.month as int,
            self.day as int,
            self.hour as int,
            self.minute as int,
            self.second as int,
        )
    }
}

/// The number that the `count` characters of `text` from `at` on spell, where
/// all of them are digits.
pub open spec fn number_at(text: Seq<char>, at: int, count: int) -> Option<int> {
    if all_digits(text.subrange(at, at + count)) {
        Some(digits_value(text.subrange(at, at + count)) as int)
    } else {
        None
    }
}

/// Whether `text` has the length and the punctuation of `YYYY-MM-DD HH:MM:SS`.
pub open spec fn has_layout(text: Seq<char>) -> bool {
    &&& text.len() == 19
    &&& text[4] == '-'
    &&& text[7] == '-'
    &&& text[10] == ' '
    &&& text[13] == ':'
    &&& text[16] == ':'
}

/// The local date and time that `text` spells in the layout
/// `YYYY-MM-DD HH:MM:SS`: every field zero-padded to its full width, the hour
/// counted from 00 to 23, the second from 00 to 60, and the whole a valid
/// [`LocalDateTime`].
pub open spec fn local_time_of(text: Seq<char>) -> Option<LocalDateTime> {
    if has_layout(text) {
        match (
            number_at(text, 0, 4),
            number_at(text, 5, 2),
            number_at(text, 8, 2),
            number_at(text, 11, 2),
            number_at(text, 14, 2),
            number_at(text, 17, 2),
        ) {
            (Some(year), Some(month), Some(day), Some(hour), Some(minute), Some(second)) => {
                if is_reading(year, month, day, hour, minute, second) {
                    Some(
                        LocalDateTime {
                            year: year as u16,
                            month: month as u8,
                            day: day as u8,
                            hour: hour as u8,
                            minute: minute as u8,
                            second: second as u8,
                        },
                    )
                } else {
                    None
                }
            },
            _ => None,
        }
    } else {
        None
    }
}

/// How many days `month` has in `year`.
pub fn month_length(year: u16, month: u8) -> (days: u8)
    ensures
        days == days_in_month(year as int, month as int),
{
    if month == 4 || month == 6 || month == 9 || month == 11 {
        30
    } else if month == 2 {
        if year % 4 == 0 && (year % 100 != 0 || year % 400 == 0) {
            29
        } else {
            28
        }
    } else if 1 <= month && month <= 12 {
        31
    } else {
        0
    }
}

/// Reads `count` digits at `at`, for a field of at most four digits.
fn read_field(chars: &Vec<char>, at: usize, count: usize) -> (value: Option<u16>)
    requires
        at + count <= chars.len(),
        count <= 4,
    ensures
        match value {
            Some(v) => number_at(chars@, at as int, count as int) == Some(v as int),
            None => number_at(chars@, at as int, count as int) is None,
        },
{
    match read_digits(chars, at, at + count) {
        Some(v) if v <= 0xffffu128 => Some(v as u16),
        Some(_) => {
            proof {
                lemma_digits_bound(chars@.subrange(at as int, at + count));
            }
            None
        },
        None => {
            proof {
                lemma_digits_bound(chars@.subrange(at as int, at + count));
            }
            None
        },
    }
}

/// A run of at most four digits spells less than ten thousand.
proof fn lemma_digits_bound(s: Seq<char>)
    requires
        s.len() <= 4,
    ensures
        digits_value(s) <= 9999,
{
    reveal_with_fuel(digits_value, 5);
}

impl LocalDateTime {
    /// Tests the fields for naming a day of the calendar and a second of that day.
    pub fn check(&self) -> (valid: bool)
        ensures
            valid == self.is_valid(),
    {
        self.year <= 9999 && 1 <= self.month && self.month <= 12 && 1 <= self.day && self.day
            <= month_length(self.year, self.month) && self.hour <= 23 && self.minute <= 59
            && self.second <= 60
    }

    /// Reads a local date and time in the layout `YYYY-MM-DD HH:MM:SS`.
    pub fn parse(text: &str) -> (local: Option<LocalDateTime>)
        ensures
            local == local_time_of(text@),
            local matches Some(l) ==> l.is_valid(),
    {
        let chars = chars_of(text);
        if chars.len() != 19 {
            return None;
        }
        if chars[4] != '-' || chars[7] != '-' || chars[10] != ' ' || chars[13] != ':' || chars[16]
            != ':' {
            return None;
        }
        let year = match read_field(&chars, 0, 4) {
            Some(v) => v,
            None => {
                return None;
            },
        };
        let month = match read_field(&chars, 5, 2) {
            Some(v) => v,
            None => {
                return None;
            },
        };
        let day = match read_field(&chars, 8, 2) {
            Some(v) => v,
            None => {
                return None;
            },
        };
        let hour = match read_field(&chars, 11, 2) {
            Some(v) => v,
            None => {
                return None;
            },
        };
        let minute = match read_field(&chars, 14, 2) {
            Some(v) => v,
            None => {
                return None;
            },
        };
        let second = match read_field(&chars, 17, 2) {
            Some(v) => v,
            None => {
                return None;
            },
        };
        if year > 9999 || month > 99 || day > 99 || hour > 99 || minute > 99 || second > 99 {
            return None;
        }
        let local = LocalDateTime {
            year,
            month: month as u8,
            day: day as u8,
            hour: hour as u8,
            minute: minute as u8,
            second: second as u8,
        };
        if !local.check() {
            return None;
        }
        Some(local)
    }
}

} // verus!
