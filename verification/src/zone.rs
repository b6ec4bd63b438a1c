use chrono::{DateTime, LocalResult, NaiveDate, NaiveTime, Offset, TimeZone};
use chrono_tz::Tz;
use crate::local_time::LocalDateTime;
use vstd::prelude::*;

verus! {

/// A point on the time line, with the offset that the zone's wall clock had at
/// it. A leap second counts as the second before it.
#[derive(Clone, Copy, Debug, PartialEq, Eq, Structural)]
pub struct Instant {
    /// Seconds since 1970-01-01 00:00:00 UTC, leap seconds not counted.
    pub utc_seconds: i64,
    /// Seconds that the wall clock was ahead of UTC.
    pub offset_seconds: i32,
}

/// What a reading of a zone's wall clock says about the time line.
#[derive(Clone, Copy, Debug, PartialEq, Eq, Structural)]
pub enum Resolution {
    /// The clock never showed the reading: it was skipped when the clock was set forward.
    Missing,
    /// The clock showed the reading at exactly one instant.
    Single(Instant),
    /// The clock showed the reading twice, as it was set back in between: the
    /// earlier and the later instant.
    Ambiguous(Instant, Instant),
}

/// Whether the time zone database knows a zone by the identifier `name`.
/// This is whether `chrono_tz::Tz` parses from `name`.
pub uninterp spec fn zone_exists(name: Seq<char>) -> bool;

/// What the reading `local` of the wall clock of the zone `name` resolves to.
/// This is what `chrono::TimeZone::from_local_datetime` returns for that zone
/// of `chrono_tz`, with the second 60 read as a leap second behind the 59th;
/// it means something only where the zone exists and `local` is valid.
pub uninterp spec fn resolution_of(name: Seq<char>, local: LocalDateTime) -> Resolution;

/// Asks `chrono_tz` whether `name` parses as a `Tz`. The contract only gives
/// the answer its name.
#[verifier::external_body]
fn lookup_zone(name: &str) -> (known: bool)
    ensures
        known == zone_exists(name@),
{
    name.parse::<Tz>().is_ok()
}

/// The second and the nanosecond by which `chrono` knows the second of a
/// reading: a leap second is the 59th second with a thousand million
/// nanoseconds.
pub open spec fn clock_second(second: u8) -> (u32, u32) {
    if second == 60 {
        (59, 1_000_000_000)
    } else {
        (second as u32, 0)
    }
}

/// Builds the `chrono::NaiveDateTime` of `local`, with `NaiveDate::from_ymd_opt`
/// and `NaiveTime::from_hms_nano_opt`, taking `second` and `nanosecond` for
/// the second, and calls `chrono::TimeZone::from_local_datetime` on the
/// `chrono_tz::Tz` that `name` parses as. Each instant that comes back is kept
/// as its `timestamp()` and the `local_minus_utc()` of its offset. The
/// contract only gives the outcome its name; `requires` keeps away the inputs
/// on which the zone or the date could not be built.
#[verifier::external_body]
fn map_local_time(name: &str, local: &LocalDateTime, second: u32, nanosecond: u32) -> (outcome:
    Resolution)
    requires
        zone_exists(name@),
        local.is_valid(),
        (second, nanosecond) == clock_second(local.second),
    ensures
        outcome == resolution_of(name@, *local),
{
    let zone: Tz = name.parse().unwrap();
    let day = NaiveDate::from_ymd_opt(local.year.into(), local.month.into(), local.day.into());
    let time = NaiveTime::from_hms_nano_opt(local.hour.into(), local.minute.into(), second, nanosecond);
    let found = zone.from_local_datetime(&day.unwrap().and_time(time.unwrap()));
    let instant = |t: DateTime<Tz>| {
        Instant { utc_seconds: t.timestamp(), offset_seconds: t.offset().fix().local_minus_utc() }
    };
    match found.map(instant) {
        LocalResult::None => Resolution::Missing,
        LocalResult::Single(at) => Resolution::Single(at),
        LocalResult::Ambiguous(first, second) => Resolution::Ambiguous(first, second),
    }
}

/// A time zone that the time zone database knows, held by its identifier.
pub struct Zone {
    name: String,
}

impl View for Zone {
    type V = Seq<char>;

    /// The zone's identifier.
    closed spec fn view(&self) -> Seq<char> {
        self.name@
    }
}

impl Zone {
    #[verifier::type_invariant]
    spec fn known(self) -> bool {
        zone_exists(self.name@)
    }

    /// Looks a zone up by its identifier, such as `US/Eastern`.
    pub fn named(name: &str) -> (zone: Option<Zone>)
        ensures
            zone is Some <==> zone_exists(name@),
            zone matches Some(z) ==> z@ == name@,
    {
        if lookup_zone(name) {
            Some(Zone { name: String::from_str(name) })
        } else {
            None
        }
    }

    /// The zone's identifier.
    pub fn name(&self) -> (name: &String)
        ensures
            name@ == self@,
    {
        &self.name
    }

    /// A second handle on the same zone.
    pub fn duplicate(&self) -> (zone: Zone)
        ensures
            zone == *self,
    {
        proof {
            use_type_invariant(self);
        }
        Zone { name: self.name.clone() }
    }

    /// Resolves a reading of this zone's wall clock.
    pub fn resolve(&self, local: &LocalDateTime) -> (outcome: Resolution)
        requires
            local.is_valid(),
        ensures
            outcome == resolution_of(self@, *local),
    {
        proof {
            use_type_invariant(self);
        }
        let (second, nanosecond): (u32, u32) = if local.second == 60 {
            (59, 1_000_000_000)
        } else {
            (local.second as u32, 0)
        };
        map_local_time(self.name.as_str(), local, second, nanosecond)
    }
}

} // verus!
