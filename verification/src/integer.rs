use crate::digits::{
    all_digits, digits_of, digits_value, is_digit, lemma_digits_of, read_digits,
};
use crate::text::chars_of;
use vstd::prelude::*;

verus! {

/// Whether `text` opens with a plus or a minus sign.
pub open spec fn has_sign(text: Seq<char>) -> bool {
    text.len() > 0 && (text[0] == '+' || text[0] == '-')
}

/// Whether `text` opens with a minus sign.
pub open spec fn is_negative(text: Seq<char>) -> bool {
    text.len() > 0 && text[0] == '-'
}

/// What follows the sign of `text`, or all of it where it has no sign.
pub open spec fn unsigned_part(text: Seq<char>) -> Seq<char> {
    if has_sign(text) {
        text.subrange(1, text.len() as int)
    } else {
        text
    }
}

/// The integer that `text` spells, however large.
///
/// An integer is spelled as an optional `+` or `-` and then one or more decimal
/// digits, with nothing before, between or after them.
pub open spec fn signed_value(text: Seq<char>) -> Option<int> {
    let digits = unsigned_part(text);
    if digits.len() > 0 && all_digits(digits) {
        if is_negative(text) {
            Some(-(digits_value(digits) as int))
        } else {
            Some(digits_value(digits) as int)
        }
    } else {
        None
    }
}

/// The integer that `text` spells, if it spells one that fits 64 signed bits.
pub open spec fn integer_of(text: Seq<char>) -> Option<int> {
    match signed_value(text) {
        Some(value) if i64::MIN <= value <= i64::MAX => Some(value),
        _ => None,
    }
}

/// Reads `text` as a decimal integer of 64 signed bits.
pub fn parse_integer(text: &str) -> (value: Option<i64>)
    ensures
        match value {
            Some(v) => integer_of(text@) == Some(v as int),
            None => integer_of(text@) is None,
        },
{
    let chars = chars_of(text);
    let n = chars.len();
    if n == 0 {
        return None;
    }
    let negative = chars[0] == '-';
    let start: usize = if negative || chars[0] == '+' {
        1
    } else {
        0
    };
    if start == n {
        return None;
    }
    assert(chars@.subrange(0, n as int) =~= chars@);
    match read_digits(&chars, start, n) {
        None => None,
        Some(magnitude) => {
            if negative {
                if magnitude > 0x8000_0000_0000_0000u128 {
                    None
                } else if magnitude == 0x8000_0000_0000_0000u128 {
                    Some(i64::MIN)
                } else {
                    Some(-(magnitude as i64))
                }
            } else if magnitude > 0x7fff_ffff_ffff_ffffu128 {
                None
            } else {
                Some(magnitude as i64)
            }
        },
    }
}

/// How `value` is written: a minus sign where it is below zero, then the digits
/// of its magnitude.
pub open spec fn integer_text(value: int) -> Seq<char> {
    if value < 0 {
        seq!['-'] + digits_of((-value) as nat)
    } else {
        digits_of(value as nat)
    }
}

/// An integer that is written out spells itself.
pub proof fn lemma_integer_text(value: int)
    ensures
        signed_value(integer_text(value)) == Some(value),
{
    let text = integer_text(value);
    if value < 0 {
        lemma_digits_of((-value) as nat);
        assert(text[0] == '-');
        assert(unsigned_part(text) =~= digits_of((-value) as nat));
    } else {
        lemma_digits_of(value as nat);
        assert(is_digit(text[0]));
    }
}

} // verus!
