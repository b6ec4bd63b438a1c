use crate::error::{FeedError, FeedErrorView};
use crate::local_time::{local_time_of, LocalDateTime};
use crate::price_point::{PricePoint, PricePointView, Timestamp, TimestampView};
use crate::response::{RawRecord, RawRecordView};
use crate::zone::{resolution_of, Instant, Resolution, Zone};
use vstd::prelude::*;

verus! {

/// A record that was left out because its local time does not name one instant.
pub struct Dropped {
    /// The record's key, as it was sent.
    pub timestamp: String,
    /// What the key resolves to: nothing, or two instants.
    pub resolution: Resolution,
}

/// A [`Dropped`] with its key as a sequence of characters.
pub struct DroppedView {
    pub timestamp: Seq<char>,
    pub resolution: Resolution,
}

impl View for Dropped {
    type V = DroppedView;

    open spec fn view(&self) -> DroppedView {
        DroppedView { timestamp: self.timestamp@, resolution: self.resolution }
    }
}

/// What one response comes to: a price point for each record whose local time
/// names one instant, and a note of each record that was left out.
pub struct Update {
    pub prices: Vec<PricePoint>,
    pub dropped: Vec<Dropped>,
}

/// An [`Update`] as mathematical values.
pub struct UpdateView {
    pub prices: Seq<PricePointView>,
    pub dropped: Seq<DroppedView>,
}

impl View for Update {
    type V = UpdateView;

    open spec fn view(&self) -> UpdateView {
        UpdateView {
            prices: self.prices@.map_values(|point: PricePoint| point@),
            dropped: self.dropped@.map_values(|dropped: Dropped| dropped@),
        }
    }
}

/// The price point of `record`, for the instant `at` in `zone`.
pub open spec fn point_of(zone: Seq<char>, record: RawRecordView, at: Instant) -> PricePointView {
    PricePointView {
        open: record.open,
        high: record.high,
        low: record.low,
        close: record.close,
        volume: record.volume,
        timestamp: TimestampView { instant: at, zone },
    }
}

/// What the key of a record resolves to in `zone`, or nothing where the key
/// does not spell a local date and time.
pub open spec fn outcome_of(zone: Seq<char>, timestamp: Seq<char>) -> Option<Resolution> {
    match local_time_of(timestamp) {
        Some(local) => Some(resolution_of(zone, local)),
        None => None,
    }
}

/// What the records of a response come to in `zone`.
///
/// The records are taken in order. One whose key resolves to a single instant
/// gives a price point; one whose key resolves to no instant or to two is
/// noted as dropped. The first key that does not spell a local date and time
/// fails the whole.
pub open spec fn update_of(zone: Seq<char>, records: Seq<RawRecordView>) -> Result<
    UpdateView,
    FeedErrorView,
>
    decreases records.len(),
{
    if records.len() == 0 {
        Ok(UpdateView { prices: Seq::empty(), dropped: Seq::empty() })
    } else {
        match update_of(zone, records.drop_last()) {
            Err(error) => Err(error),
            Ok(before) => {
                let record = records.last();
                match outcome_of(zone, record.timestamp) {
                    None => Err(
                        FeedErrorView::MalformedTimestamp { timestamp: record.timestamp },
                    ),
                    Some(Resolution::Single(at)) => Ok(
                        UpdateView {
                            prices: before.prices.push(point_of(zone, record, at)),
                            dropped: before.dropped,
                        },
                    ),
                    Some(other) => Ok(
                        UpdateView {
                            prices: before.prices,
                            dropped: before.dropped.push(
                                DroppedView { timestamp: record.timestamp, resolution: other },
                            ),
                        },
                    ),
                }
            },
        }
    }
}

/// Once a part of the records that starts at their front fails, the whole fails alike.
pub proof fn lemma_first_failure(zone: Seq<char>, records: Seq<RawRecordView>, count: int)
    requires
        0 <= count <= records.len(),
        update_of(zone, records.take(count)) is Err,
    ensures
        update_of(zone, records) == update_of(zone, records.take(count)),
    decreases records.len() - count,
{
    if count == records.len() {
        assert(records.take(count) =~= records);
    } else {
        assert(records.take(count + 1).drop_last() =~= records.take(count));
        lemma_first_failure(zone, records, count + 1);
    }
}

/// Resolves the key of every record in `zone` and collects the price points.
pub fn assemble(zone: &Zone, records: &Vec<RawRecord>) -> (update: Result<Update, FeedError>)
    ensures
        match update {
            Ok(u) => update_of(zone@, records@.map_values(|record: RawRecord| record@)) == Ok::<
                UpdateView,
                FeedErrorView,
            >(u@),
            Err(e) => update_of(zone@, records@.map_values(|record: RawRecord| record@)) == Err::<
                UpdateView,
                FeedErrorView,
            >(e@),
        },
{
    let ghost all = records@.map_values(|record: RawRecord| record@);
    let mut prices: Vec<PricePoint> = Vec::new();
    let mut dropped: Vec<Dropped> = Vec::new();
    let mut i: usize = 0;
    proof {
        assert(all.take(0) =~= Seq::<RawRecordView>::empty());
        assert(prices@.map_values(|point: PricePoint| point@) =~= Seq::<PricePointView>::empty());
        assert(dropped@.map_values(|dropped: Dropped| dropped@) =~= Seq::<DroppedView>::empty());
    }
    while i < records.len()
        invariant
            i <= records.len(),
            all == records@.map_values(|record: RawRecord| record@),
            update_of(zone@, all.take(i as int)) == Ok::<UpdateView, FeedErrorView>(
                UpdateView {
                    prices: prices@.map_values(|point: PricePoint| point@),
                    dropped: dropped@.map_values(|dropped: Dropped| dropped@),
                },
            ),
        decreases records.len() - i,
    {
        let record = &records[i];
        proof {
            assert(all.take(i + 1).drop_last() =~= all.take(i as int));
            assert(all.take(i + 1).last() == record@);
        }
        let local = match LocalDateTime::parse(record.timestamp.as_str()) {
            Some(local) => local,
            None => {
                let error = FeedError::MalformedTimestamp { timestamp: record.timestamp.clone() };
                proof {
                    assert(update_of(zone@, all.take(i + 1)) == Err::<UpdateView, FeedErrorView>(
                        error@,
                    ));
                    lemma_first_failure(zone@, all, i + 1);
                }
                return Err(error);
            },
        };
        match zone.resolve(&local) {
            Resolution::Single(at) => {
                let point = PricePoint {
                    open: record.open.duplicate(),
                    high: record.high.duplicate(),
                    low: record.low.duplicate(),
                    close: record.close.duplicate(),
                    volume: record.volume,
                    timestamp: Timestamp { instant: at, zone: zone.duplicate() },
                };
                proof {
                    assert(point@ == point_of(zone@, record@, at));
                    assert(prices@.push(point).map_values(|point: PricePoint| point@)
                        =~= prices@.map_values(|point: PricePoint| point@).push(point@));
                }
                prices.push(point);
            },
            other => {
                let note = Dropped { timestamp: record.timestamp.clone(), resolution: other };
                proof {
                    assert(dropped@.push(note).map_values(|dropped: Dropped| dropped@)
                        =~= dropped@.map_values(|dropped: Dropped| dropped@).push(note@));
                }
                dropped.push(note);
            },
        }
        i = i + 1;
    }
    proof {
        assert(all.take(i as int) =~= all);
    }
    Ok(Update { prices, dropped })
}

} // verus!
