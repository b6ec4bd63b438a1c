use crate::alpha_vantage::update_from;
use crate::coerce::{decimal_in, integer_in};
use crate::decimal::{
    below_boundary, decimal_text, fraction_end, fraction_start, lemma_decimal_text,
    mantissa_digits, normal_form, written_exponent, DecimalValue,
};
use crate::digits::digits_value;
use crate::error::Field;
use crate::integer::{integer_text, lemma_integer_text, signed_value};
use crate::error::FeedErrorView;
use crate::json::{member, Json};
use crate::local_time::local_time_of;
use crate::response::{
    field_value, record_of, records_of, response_of, RawRecordView, RawResponseView,
};
use crate::series::{outcome_of, point_of, update_of, DroppedView, UpdateView};
use crate::zone::{resolution_of, Resolution};
use vstd::prelude::*;

verus! {

/// Whether the key `timestamp` spells a local time that names no single
/// instant in `zone`: one that the zone's clock skipped, or one that it showed twice.
pub open spec fn is_unresolved(zone: Seq<char>, timestamp: Seq<char>) -> bool {
    match outcome_of(zone, timestamp) {
        Some(Resolution::Missing) => true,
        Some(Resolution::Ambiguous(_, _)) => true,
        _ => false,
    }
}

/// How many of `records` have a key that names no single instant in `zone`.
pub open spec fn unresolved_count(zone: Seq<char>, records: Seq<RawRecordView>) -> nat
    decreases records.len(),
{
    if records.len() == 0 {
        0
    } else if is_unresolved(zone, records.last().timestamp) {
        unresolved_count(zone, records.drop_last()) + 1
    } else {
        unresolved_count(zone, records.drop_last())
    }
}

/// Where the records of a response come to an update, there are as many price
/// points as records, less the records whose local time is missing or
/// ambiguous in the zone; and each of those is noted as dropped.
pub proof fn lemma_point_count(zone: Seq<char>, records: Seq<RawRecordView>)
    requires
        update_of(zone, records) is Ok,
    ensures
        update_of(zone, records)->Ok_0.prices.len() == records.len() - unresolved_count(
            zone,
            records,
        ),
        update_of(zone, records)->Ok_0.dropped.len() == unresolved_count(zone, records),
    decreases records.len(),
{
    if records.len() > 0 {
        lemma_point_count(zone, records.drop_last());
    }
}

/// The same of a whole document: where it comes to an update, it decodes to a
/// response, and the update has as many price points as the response has
/// records, less those whose local time is missing or ambiguous in the zone
/// that the response declares.
pub proof fn lemma_document_point_count(document: Json)
    requires
        update_from(document) is Ok,
    ensures
        response_of(document) is Ok,
        update_from(document)->Ok_0.prices.len() == response_of(document)->Ok_0.records.len()
            - unresolved_count(
            response_of(document)->Ok_0.time_zone,
            response_of(document)->Ok_0.records,
        ),
{
    let response = response_of(document)->Ok_0;
    lemma_point_count(response.time_zone, response.records);
}

/// A record whose local time is missing or ambiguous in the zone changes
/// nothing for the others: with it or without it, the same price points come
/// out in the same order, or the same failure.
pub proof fn lemma_unresolved_record_is_left_out(
    zone: Seq<char>,
    records: Seq<RawRecordView>,
    at: int,
)
    requires
        0 <= at < records.len(),
        is_unresolved(zone, records[at].timestamp),
    ensures
        match (update_of(zone, records), update_of(zone, records.remove(at))) {
            (Ok(with), Ok(without)) => with.prices == without.prices,
            (Err(with), Err(without)) => with == without,
            _ => false,
        },
    decreases records.len(),
{
    if at == records.len() - 1 {
        assert(records.remove(at) =~= records.drop_last());
    } else {
        assert(records.remove(at).drop_last() =~= records.drop_last().remove(at));
        assert(records.remove(at).last() == records.last());
        lemma_unresolved_record_is_left_out(zone, records.drop_last(), at);
    }
}

/// A record whose local time is missing or ambiguous in the zone is noted as
/// dropped, with what its key resolves to: no instant is made up for it.
pub proof fn lemma_unresolved_record_is_noted(
    zone: Seq<char>,
    records: Seq<RawRecordView>,
    at: int,
)
    requires
        0 <= at < records.len(),
        is_unresolved(zone, records[at].timestamp),
        update_of(zone, records) is Ok,
    ensures
        update_of(zone, records)->Ok_0.dropped.contains(
            DroppedView {
                timestamp: records[at].timestamp,
                resolution: outcome_of(zone, records[at].timestamp)->Some_0,
            },
        ),
    decreases records.len(),
{
    let update = update_of(zone, records)->Ok_0;
    let before = update_of(zone, records.drop_last())->Ok_0;
    if at == records.len() - 1 {
        assert(update.dropped.last() == DroppedView {
            timestamp: records[at].timestamp,
            resolution: outcome_of(zone, records[at].timestamp)->Some_0,
        });
    } else {
        lemma_unresolved_record_is_noted(zone, records.drop_last(), at);
        let note = DroppedView {
            timestamp: records[at].timestamp,
            resolution: outcome_of(zone, records[at].timestamp)->Some_0,
        };
        let k = choose|k: int| 0 <= k < before.dropped.len() && before.dropped[k] == note;
        assert(update.dropped[k] == note);
    }
}

/// Every price point of an update stands for one record whose key spells a
/// local time that the zone's clock showed at exactly one instant, and carries
/// that instant.
pub proof fn lemma_points_are_single(zone: Seq<char>, records: Seq<RawRecordView>, k: int)
    requires
        update_of(zone, records) is Ok,
        0 <= k < update_of(zone, records)->Ok_0.prices.len(),
    ensures
        exists|j: int|
            0 <= j < records.len() && (#[trigger] local_time_of(records[j].timestamp)) is Some
                && resolution_of(zone, local_time_of(records[j].timestamp)->Some_0)
                == Resolution::Single(update_of(zone, records)->Ok_0.prices[k].timestamp.instant)
                && update_of(zone, records)->Ok_0.prices[k] == point_of(
                zone,
                records[j],
                update_of(zone, records)->Ok_0.prices[k].timestamp.instant,
            ),
    decreases records.len(),
{
    let update = update_of(zone, records)->Ok_0;
    let before = update_of(zone, records.drop_last())->Ok_0;
    if k < before.prices.len() {
        lemma_points_are_single(zone, records.drop_last(), k);
        let j = choose|j: int|
            0 <= j < records.drop_last().len() && (#[trigger] local_time_of(
                records.drop_last()[j].timestamp,
            )) is Some && resolution_of(
                zone,
                local_time_of(records.drop_last()[j].timestamp)->Some_0,
            ) == Resolution::Single(before.prices[k].timestamp.instant) && before.prices[k]
                == point_of(zone, records.drop_last()[j], before.prices[k].timestamp.instant);
        assert(records[j] == records.drop_last()[j]);
        assert(update.prices[k] == before.prices[k]);
    } else {
        let j = records.len() - 1;
        assert(local_time_of(records[j].timestamp) is Some);
    }
}

/// A document without a time series, or without the block that declares the
/// time zone, comes to no update: the response has an unrecognized shape.
pub proof fn lemma_missing_block(top: Vec<(String, Json)>)
    requires
        member(top@, "Time Series (5min)"@) is None || member(top@, "Meta Data"@) is None,
    ensures
        update_from(Json::Object(top)) == Err::<UpdateView, FeedErrorView>(
            FeedErrorView::UnrecognizedResponseShape,
        ),
{
}

/// Whether `number` is a price: a number in normal form that a binary
/// floating-point number of 64 bits can stand for.
pub open spec fn is_price(number: DecimalValue) -> bool {
    normal_form(number.negative, number.coefficient, number.exponent) == number
        && below_boundary(number.coefficient, number.exponent)
}

/// Whether the scalar `value` writes out the price `number`, as a string or as
/// a number.
pub open spec fn writes_decimal(value: Json, number: DecimalValue) -> bool {
    match value {
        Json::Text(text) => text@ == decimal_text(number),
        Json::Number(written) => written.literal@ == decimal_text(number),
        _ => false,
    }
}

/// Whether the scalar `value` writes out the volume `number`, as a string or as
/// a number.
pub open spec fn writes_integer(value: Json, number: i64) -> bool {
    match value {
        Json::Text(text) => text@ == integer_text(number as int),
        Json::Number(written) => written.integer == Some(number),
        _ => false,
    }
}

/// A scalar that writes out a price or a volume stands for just that number.
pub proof fn lemma_scalar_round_trip(value: Json, price: DecimalValue, volume: i64)
    requires
        is_price(price),
    ensures
        writes_decimal(value, price) ==> decimal_in(value) == Some(price),
        writes_integer(value, volume) ==> integer_in(value) == Some(volume),
{
    lemma_decimal_text(price);
    lemma_integer_text(volume as int);
}

/// Whether `value` is `record` in the shape of the wire: the record's prices
/// are prices, and `value` is an object that gives each of the five fields a
/// scalar that writes out the record's figure.
pub open spec fn is_wire_record(value: Json, record: RawRecordView) -> bool {
    &&& is_price(record.open)
    &&& is_price(record.high)
    &&& is_price(record.low)
    &&& is_price(record.close)
    &&& value matches Json::Object(members)
    &&& field_value(members@, Field::Open) matches Some(open)
    &&& writes_decimal(open, record.open)
    &&& field_value(members@, Field::High) matches Some(high)
    &&& writes_decimal(high, record.high)
    &&& field_value(members@, Field::Low) matches Some(low)
    &&& writes_decimal(low, record.low)
    &&& field_value(members@, Field::Close) matches Some(close)
    &&& writes_decimal(close, record.close)
    &&& field_value(members@, Field::Volume) matches Some(volume)
    &&& writes_integer(volume, record.volume)
}

/// Whether `series` holds `records` in the shape of the wire: member for
/// record, each under the record's key.
pub open spec fn is_wire_series(series: Seq<(String, Json)>, records: Seq<RawRecordView>) -> bool {
    &&& series.len() == records.len()
    &&& forall|i: int|
        0 <= i < series.len() ==> (#[trigger] series[i]).0@ == records[i].timestamp
            && is_wire_record(series[i].1, records[i])
}

/// Whether `document` is `response` in the shape of the wire.
pub open spec fn is_wire_response(document: Json, response: RawResponseView) -> bool {
    &&& document matches Json::Object(top)
    &&& member(top@, "Meta Data"@) matches Some(Json::Object(meta))
    &&& member(meta@, "6. Time Zone"@) matches Some(Json::Text(zone))
    &&& zone@ == response.time_zone
    &&& member(top@, "Time Series (5min)"@) matches Some(Json::Object(series))
    &&& is_wire_series(series@, response.records)
}

/// A record that is put in the shape of the wire decodes to itself, figure
/// for figure.
pub proof fn lemma_record_round_trip(value: Json, record: RawRecordView)
    requires
        is_wire_record(value, record),
    ensures
        record_of(record.timestamp, value) == Ok::<RawRecordView, FeedErrorView>(record),
{
    let members = value->Object_0;
    lemma_scalar_round_trip(field_value(members@, Field::Open)->Some_0, record.open, 0);
    lemma_scalar_round_trip(field_value(members@, Field::High)->Some_0, record.high, 0);
    lemma_scalar_round_trip(field_value(members@, Field::Low)->Some_0, record.low, 0);
    lemma_scalar_round_trip(field_value(members@, Field::Close)->Some_0, record.close, 0);
    lemma_scalar_round_trip(
        field_value(members@, Field::Volume)->Some_0,
        record.open,
        record.volume,
    );
}

/// Records that are put in the shape of the wire decode to themselves, in order.
pub proof fn lemma_series_round_trip(series: Seq<(String, Json)>, records: Seq<RawRecordView>)
    requires
        is_wire_series(series, records),
    ensures
        records_of(series) == Ok::<Seq<RawRecordView>, FeedErrorView>(records),
    decreases series.len(),
{
    if series.len() == 0 {
        assert(records =~= Seq::<RawRecordView>::empty());
    } else {
        assert forall|i: int| 0 <= i < series.drop_last().len() implies (
        #[trigger] series.drop_last()[i]).0@ == records.drop_last()[i].timestamp && is_wire_record(
            series.drop_last()[i].1,
            records.drop_last()[i],
        ) by {
            assert(series.drop_last()[i] == series[i]);
        }
        lemma_series_round_trip(series.drop_last(), records.drop_last());
        let at = series.len() - 1;
        assert(series[at].0@ == records[at].timestamp);
        lemma_record_round_trip(series.last().1, records.last());
        assert(records.drop_last().push(records.last()) =~= records);
    }
}

/// A response that is put in the shape of the wire decodes to itself: the same
/// zone, and the same records with the same figures in the same order.
pub proof fn lemma_response_round_trip(document: Json, response: RawResponseView)
    requires
        is_wire_response(document, response),
    ensures
        response_of(document) == Ok::<RawResponseView, FeedErrorView>(response),
{
    let top = document->Object_0;
    let series = member(top@, "Time Series (5min)"@)->Some_0->Object_0;
    lemma_series_round_trip(series@, response.records);
}

/// The text by which a JSON scalar gives a price: a string gives itself, a
/// number its decimal notation, and nothing else gives any.
pub open spec fn price_text(value: Json) -> Option<Seq<char>> {
    match value {
        Json::Text(text) => Some(text@),
        Json::Number(number) => Some(number.literal@),
        _ => None,
    }
}

/// A JSON scalar stands for a volume exactly where it is a number that is an
/// integer of 64 signed bits, or a string that spells such an integer; and
/// then it stands for that integer. Every other scalar is malformed.
pub proof fn lemma_integer_coercion(value: Json)
    ensures
        integer_in(value) is Some <==> (value matches Json::Number(number) && number.integer
            is Some) || (value matches Json::Text(text) && signed_value(text@) matches Some(v)
            && i64::MIN <= v <= i64::MAX),
        value matches Json::Number(number) ==> integer_in(value) == number.integer,
        value matches Json::Text(text) ==> (integer_in(value) matches Some(v) ==> signed_value(
            text@,
        ) == Some(v as int)),
{
}

/// A JSON scalar stands for a price exactly where it is a number or a string
/// whose text spells a decimal number below the boundary of what a binary
/// floating-point number of 64 bits holds: digits with at most one point among
/// them, however many, and an exponent or none. Then it stands for just the
/// number that the text spells. Every other scalar is malformed.
pub proof fn lemma_decimal_coercion(value: Json)
    ensures
        decimal_in(value) is Some <==> (price_text(value) matches Some(text) && mantissa_digits(
            text,
        ).len() > 0 && (written_exponent(text) matches Some(written) && below_boundary(
            digits_value(mantissa_digits(text)),
            written - (fraction_end(text) - fraction_start(text)),
        ))),
        decimal_in(value) matches Some(number) ==> (price_text(value) matches Some(text)
            && number == normal_form(
            text.len() > 0 && text[0] == '-',
            digits_value(mantissa_digits(text)),
            written_exponent(text)->Some_0 - (fraction_end(text) - fraction_start(text)),
        )),
{
}

/// Whether the members of a record give `field` a value that stands for a
/// number of the field's kind: an integer for the volume, a price for the others.
pub open spec fn has_figure(members: Seq<(String, Json)>, field: Field) -> bool {
    match field_value(members, field) {
        Some(value) => if field == Field::Volume {
            integer_in(value) is Some
        } else {
            decimal_in(value) is Some
        },
        None => false,
    }
}

/// Whether the members of a record give every one of the five fields a value.
pub open spec fn has_all_fields(members: Seq<(String, Json)>) -> bool {
    &&& field_value(members, Field::Open) is Some
    &&& field_value(members, Field::High) is Some
    &&& field_value(members, Field::Low) is Some
    &&& field_value(members, Field::Close) is Some
    &&& field_value(members, Field::Volume) is Some
}

/// A record decodes exactly where each of its five fields has a value that
/// stands for a number. Where all five have a value and one of them stands for
/// no number, the record fails with a malformed number, which names the key and
/// a field that stands for none; no figure is ever filled in.
pub proof fn lemma_malformed_number(timestamp: Seq<char>, members: Vec<(String, Json)>)
    ensures
        record_of(timestamp, Json::Object(members)) is Ok <==> has_figure(members@, Field::Open)
            && has_figure(members@, Field::High) && has_figure(members@, Field::Low)
            && has_figure(members@, Field::Close) && has_figure(members@, Field::Volume),
        record_of(timestamp, Json::Object(members)) is Err && has_all_fields(members@) ==> (
        record_of(timestamp, Json::Object(members)) matches Err(
            FeedErrorView::MalformedNumber { timestamp: key, field },
        ) && key == timestamp && !has_figure(members@, field)),
        !has_all_fields(members@) ==> record_of(timestamp, Json::Object(members)) == Err::<
            RawRecordView,
            FeedErrorView,
        >(FeedErrorView::UnrecognizedResponseShape),
{
}

} // verus!
