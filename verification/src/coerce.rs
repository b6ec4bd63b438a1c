use crate::decimal::{decimal_of, parse_decimal, Decimal, DecimalValue};
use crate::integer::{integer_of, parse_integer};
use crate::json::Json;
use vstd::prelude::*;

verus! {

/// The integer that a JSON scalar stands for.
///
/// A number stands for itself where it is an integer of 64 signed bits; a
/// string stands for the integer it spells. Nothing else stands for one: no
/// number with a fraction, no other shape of value.
pub open spec fn integer_in(value: Json) -> Option<i64> {
    match value {
        Json::Number(number) => number.integer,
        Json::Text(text) => match integer_of(text@) {
            Some(v) => Some(v as i64),
            None => None,
        },
        _ => None,
    }
}

/// The decimal number that a JSON scalar stands for.
///
/// A number stands for what its decimal notation spells, a string for what it
/// spells itself, and both only for a number that a binary floating-point
/// number of 64 bits can stand for. Nothing else stands for one. The same
/// figure stands for the same number, whichever way it is written.
pub open spec fn decimal_in(value: Json) -> Option<DecimalValue> {
    match value {
        Json::Number(number) => decimal_of(number.literal@),
        Json::Text(text) => decimal_of(text@),
        _ => None,
    }
}

/// Takes a volume out of a JSON scalar, be it written as a number or as a string.
/// `None` marks a malformed number.
pub fn coerce_integer(value: &Json) -> (number: Option<i64>)
    ensures
        number == integer_in(*value),
{
    match value {
        Json::Number(n) => n.integer,
        Json::Text(text) => parse_integer(text.as_str()),
        _ => None,
    }
}

/// Takes a price out of a JSON scalar, be it written as a number or as a string.
/// `None` marks a malformed number.
pub fn coerce_decimal(value: &Json) -> (number: Option<Decimal>)
    ensures
        match number {
            Some(price) => decimal_in(*value) == Some(price@),
            None => decimal_in(*value) is None,
        },
{
    match value {
        Json::Number(n) => parse_decimal(n.literal.as_str()),
        Json::Text(text) => parse_decimal(text.as_str()),
        _ => None,
    }
}

} // verus!
