use crate::decimal::{Decimal, DecimalValue};
use crate::zone::{Instant, Zone};
use vstd::prelude::*;

verus! {

/// An instant on the time line, together with the zone in whose local time it was given.
pub struct Timestamp {
    pub instant: Instant,
    pub zone: Zone,
}

/// A [`Timestamp`] with its zone as the zone's identifier.
pub struct TimestampView {
    pub instant: Instant,
    pub zone: Seq<char>,
}

impl View for Timestamp {
    type V = TimestampView;

    open spec fn view(&self) -> TimestampView {
        TimestampView { instant: self.instant, zone: self.zone@ }
    }
}

/// The prices and the volume of one sampling interval, and the instant it stands for.
pub struct PricePoint {
    pub open: Decimal,
    pub high: Decimal,
    pub low: Decimal,
    pub close: Decimal,
    pub volume: i64,
    pub timestamp: Timestamp,
}

/// A [`PricePoint`] as mathematical values.
pub struct PricePointView {
    pub open: DecimalValue,
    pub high: DecimalValue,
    pub low: DecimalValue,
    pub close: DecimalValue,
    pub volume: i64,
    pub timestamp: TimestampView,
}

impl View for PricePoint {
    type V = PricePointView;

    open spec fn view(&self) -> PricePointView {
        PricePointView {
            open: self.open@,
            high: self.high@,
            low: self.low@,
            close: self.close@,
            volume: self.volume,
            timestamp: self.timestamp@,
        }
    }
}

} // verus!
