use crate::coerce::{coerce_decimal, coerce_integer, decimal_in, integer_in};
use crate::decimal::{Decimal, DecimalValue};
use crate::error::{FeedError, FeedErrorView, Field};
use crate::json::{find_member, member, Json};
use vstd::prelude::*;

verus! {

/// One record of a response: the key it stands under, as it was sent, and its
/// five figures as numbers.
pub struct RawRecord {
    pub timestamp: String,
    pub open: Decimal,
    pub high: Decimal,
    pub low: Decimal,
    pub close: Decimal,
    pub volume: i64,
}

/// A [`RawRecord`] with its key as a sequence of characters.
pub struct RawRecordView {
    pub timestamp: Seq<char>,
    pub open: DecimalValue,
    pub high: DecimalValue,
    pub low: DecimalValue,
    pub close: DecimalValue,
    pub volume: i64,
}

impl View for RawRecord {
    type V = RawRecordView;

    open spec fn view(&self) -> RawRecordView {
        RawRecordView {
            timestamp: self.timestamp@,
            open: self.open@,
            high: self.high@,
            low: self.low@,
            close: self.close@,
            volume: self.volume,
        }
    }
}

/// A response taken apart: the time zone it declares for all its records, and
/// the records in the order in which the document reader hands them out, which
/// is the order of their keys.
pub struct RawResponse {
    pub time_zone: String,
    pub records: Vec<RawRecord>,
}

/// A [`RawResponse`] as mathematical values.
pub struct RawResponseView {
    pub time_zone: Seq<char>,
    pub records: Seq<RawRecordView>,
}

impl View for RawResponse {
    type V = RawResponseView;

    open spec fn view(&self) -> RawResponseView {
        RawResponseView {
            time_zone: self.time_zone@,
            records: self.records@.map_values(|record: RawRecord| record@),
        }
    }
}

/// The name of `field` on the wire.
pub open spec fn wire_name(field: Field) -> Seq<char> {
    match field {
        Field::Open => "1. open"@,
        Field::High => "2. high"@,
        Field::Low => "3. low"@,
        Field::Close => "4. close"@,
        Field::Volume => "5. volume"@,
    }
}

/// The name of `field` without its number, which a record may use instead.
pub open spec fn plain_name(field: Field) -> Seq<char> {
    match field {
        Field::Open => "open"@,
        Field::High => "high"@,
        Field::Low => "low"@,
        Field::Close => "close"@,
        Field::Volume => "volume"@,
    }
}

/// The value that a record's members give to `field`: the member under one of
/// the field's two names. A record that has both, or neither, gives none.
pub open spec fn field_value(members: Seq<(String, Json)>, field: Field) -> Option<Json> {
    match (member(members, wire_name(field)), member(members, plain_name(field))) {
        (Some(value), None) => Some(value),
        (None, Some(value)) => Some(value),
        _ => None,
    }
}

/// What the member `value` under the key `timestamp` decodes to.
///
/// It must be an object that gives each of the five fields a value, or the
/// response has an unrecognized shape. Then each value must stand for a number:
/// the first in the order open, high, low, close, volume that does not is
/// reported as malformed.
pub open spec fn record_of(timestamp: Seq<char>, value: Json) -> Result<
    RawRecordView,
    FeedErrorView,
> {
    match value {
        Json::Object(members) => match (
            field_value(members@, Field::Open),
            field_value(members@, Field::High),
            field_value(members@, Field::Low),
            field_value(members@, Field::Close),
            field_value(members@, Field::Volume),
        ) {
            (Some(open), Some(high), Some(low), Some(close), Some(volume)) => match (
                decimal_in(open),
                decimal_in(high),
                decimal_in(low),
                decimal_in(close),
                integer_in(volume),
            ) {
                (Some(open), Some(high), Some(low), Some(close), Some(volume)) => Ok(
                    RawRecordView { timestamp, open, high, low, close, volume },
                ),
                (None, _, _, _, _) => Err(
                    FeedErrorView::MalformedNumber { timestamp, field: Field::Open },
                ),
                (_, None, _, _, _) => Err(
                    FeedErrorView::MalformedNumber { timestamp, field: Field::High },
                ),
                (_, _, None, _, _) => Err(
                    FeedErrorView::MalformedNumber { timestamp, field: Field::Low },
                ),
                (_, _, _, None, _) => Err(
                    FeedErrorView::MalformedNumber { timestamp, field: Field::Close },
                ),
                (_, _, _, _, None) => Err(
                    FeedErrorView::MalformedNumber { timestamp, field: Field::Volume },
                ),
            },
            _ => Err(FeedErrorView::UnrecognizedResponseShape),
        },
        _ => Err(FeedErrorView::UnrecognizedResponseShape),
    }
}

/// What the members of a time series decode to: the record of each member, in
/// order, or the error of the first member that has one.
pub open spec fn records_of(series: Seq<(String, Json)>) -> Result<
    Seq<RawRecordView>,
    FeedErrorView,
>
    decreases series.len(),
{
    if series.len() == 0 {
        Ok(Seq::empty())
    } else {
        match records_of(series.drop_last()) {
            Err(error) => Err(error),
            Ok(records) => match record_of(series.last().0@, series.last().1) {
                Err(error) => Err(error),
                Ok(record) => Ok(records.push(record)),
            },
        }
    }
}

/// What a document decodes to.
///
/// It must be an object with an object under `Meta Data` that has a string
/// under `6. Time Zone`, and with an object under `Time Series (5min)`, or the
/// response has an unrecognized shape. Members that are not named here are
/// passed over. The members of the time series are its records.
pub open spec fn response_of(document: Json) -> Result<RawResponseView, FeedErrorView> {
    match document {
        Json::Object(top) => match (
            member(top@, "Meta Data"@),
            member(top@, "Time Series (5min)"@),
        ) {
            (Some(Json::Object(meta)), Some(Json::Object(series))) => match member(
                meta@,
                "6. Time Zone"@,
            ) {
                Some(Json::Text(zone)) => match records_of(series@) {
                    Ok(records) => Ok(RawResponseView { time_zone: zone@, records }),
                    Err(error) => Err(error),
                },
                _ => Err(FeedErrorView::UnrecognizedResponseShape),
            },
            _ => Err(FeedErrorView::UnrecognizedResponseShape),
        },
        _ => Err(FeedErrorView::UnrecognizedResponseShape),
    }
}

/// The two names of `field`: the one on the wire, then the plain one.
fn field_names(field: Field) -> (names: (&'static str, &'static str))
    ensures
        names.0@ == wire_name(field),
        names.1@ == plain_name(field),
{
    match field {
        Field::Open => ("1. open", "open"),
        Field::High => ("2. high", "high"),
        Field::Low => ("3. low", "low"),
        Field::Close => ("4. close", "close"),
        Field::Volume => ("5. volume", "volume"),
    }
}

/// Looks up the value that a record's members give to `field`.
pub fn find_field<'a>(members: &'a Vec<(String, Json)>, field: Field) -> (found: Option<&'a Json>)
    ensures
        match found {
            Some(value) => field_value(members@, field) == Some(*value),
            None => field_value(members@, field) is None,
        },
{
    let names = field_names(field);
    match (find_member(members, names.0), find_member(members, names.1)) {
        (Some(value), None) => Some(value),
        (None, Some(value)) => Some(value),
        _ => None,
    }
}

/// Decodes one member of a time series into a record.
pub fn decode_record(timestamp: &String, value: &Json) -> (record: Result<RawRecord, FeedError>)
    ensures
        match record {
            Ok(r) => record_of(timestamp@, *value) == Ok::<RawRecordView, FeedErrorView>(r@),
            Err(e) => record_of(timestamp@, *value) == Err::<RawRecordView, FeedErrorView>(e@),
        },
{
    let members = match value {
        Json::Object(members) => members,
        _ => {
            return Err(FeedError::UnrecognizedResponseShape);
        },
    };
    let found = (
        find_field(members, Field::Open),
        find_field(members, Field::High),
        find_field(members, Field::Low),
        find_field(members, Field::Close),
        find_field(members, Field::Volume),
    );
    let (open, high, low, close, volume) = match found {
        (Some(open), Some(high), Some(low), Some(close), Some(volume)) => (
            open,
            high,
            low,
            close,
            volume,
        ),
        _ => {
            return Err(FeedError::UnrecognizedResponseShape);
        },
    };
    let open = match coerce_decimal(open) {
        Some(number) => number,
        None => {
            return Err(
                FeedError::MalformedNumber { timestamp: timestamp.clone(), field: Field::Open },
            );
        },
    };
    let high = match coerce_decimal(high) {
        Some(number) => number,
        None => {
            return Err(
                FeedError::MalformedNumber { timestamp: timestamp.clone(), field: Field::High },
            );
        },
    };
    let low = match coerce_decimal(low) {
        Some(number) => number,
        None => {
            return Err(
                FeedError::MalformedNumber { timestamp: timestamp.clone(), field: Field::Low },
            );
        },
    };
    let close = match coerce_decimal(close) {
        Some(number) => number,
        None => {
            return Err(
                FeedError::MalformedNumber { timestamp: timestamp.clone(), field: Field::Close },
            );
        },
    };
    let volume = match coerce_integer(volume) {
        Some(number) => number,
        None => {
            return Err(
                FeedError::MalformedNumber { timestamp: timestamp.clone(), field: Field::Volume },
            );
        },
    };
    Ok(RawRecord { timestamp: timestamp.clone(), open, high, low, close, volume })
}

/// Decodes a document into the time zone it declares and its records. Either
/// every record is decoded, or none is returned.
pub fn decode_response(document: &Json) -> (response: Result<RawResponse, FeedError>)
    ensures
        match response {
            Ok(r) => response_of(*document) == Ok::<RawResponseView, FeedErrorView>(r@),
            Err(e) => response_of(*document) == Err::<RawResponseView, FeedErrorView>(e@),
        },
{
    let top = match document {
        Json::Object(top) => top,
        _ => {
            return Err(FeedError::UnrecognizedResponseShape);
        },
    };
    let (meta, series) = match (
        find_member(top, "Meta Data"),
        find_member(top, "Time Series (5min)"),
    ) {
        (Some(Json::Object(meta)), Some(Json::Object(series))) => (meta, series),
        _ => {
            return Err(FeedError::UnrecognizedResponseShape);
        },
    };
    let time_zone = match find_member(meta, "6. Time Zone") {
        Some(Json::Text(zone)) => zone.clone(),
        _ => {
            return Err(FeedError::UnrecognizedResponseShape);
        },
    };
    let mut records: Vec<RawRecord> = Vec::new();
    let mut i: usize = 0;
    proof {
        assert(series@.take(0) =~= Seq::<(String, Json)>::empty());
        assert(records@.map_values(|record: RawRecord| record@) =~= Seq::<
            RawRecordView,
        >::empty());
    }
    while i < series.len()
        invariant
            i <= series.len(),
            response_of(*document) == match records_of(series@) {
                Ok(records) => Ok::<RawResponseView, FeedErrorView>(
                    RawResponseView { time_zone: time_zone@, records },
                ),
                Err(error) => Err(error),
            },
            records_of(series@.take(i as int)) == Ok::<Seq<RawRecordView>, FeedErrorView>(
                records@.map_values(|record: RawRecord| record@),
            ),
        decreases series.len() - i,
    {
        proof {
            assert(series@.take(i + 1).drop_last() =~= series@.take(i as int));
        }
        match decode_record(&series[i].0, &series[i].1) {
            Ok(record) => {
                proof {
                    assert(records@.push(record).map_values(|record: RawRecord| record@)
                        =~= records@.map_values(|record: RawRecord| record@).push(record@));
                }
                records.push(record);
            },
            Err(error) => {
                proof {
                    assert(records_of(series@.take(i + 1)) == Err::<
                        Seq<RawRecordView>,
                        FeedErrorView,
                    >(error@));
                    lemma_first_error(series@, i + 1);
                }
                return Err(error);
            },
        }
        i = i + 1;
    }
    proof {
        assert(series@.take(i as int) =~= series@);
    }
    Ok(RawResponse { time_zone, records })
}

/// Once a part of a time series that starts at its front has an error, the
/// whole series has that error.
pub proof fn lemma_first_error(series: Seq<(String, Json)>, count: int)
    requires
        0 <= count <= series.len(),
        records_of(series.take(count)) is Err,
    ensures
        records_of(series) == records_of(series.take(count)),
    decreases series.len() - count,
{
    if count == series.len() {
        assert(series.take(count) =~= series);
    } else {
        assert(series.take(count + 1).drop_last() =~= series.take(count));
        lemma_first_error(series, count + 1);
    }
}

} // verus!
