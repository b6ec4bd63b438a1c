use vstd::prelude::*;

verus! {

/// A JSON number, by what the document reader tells of it.
pub struct JsonNumber {
    /// The number itself, where it was written as an integer and fits 64 signed bits.
    pub integer: Option<i64>,
    /// The number written out in decimal notation. Where the document wrote it
    /// with a fraction or an exponent, this is the shortest notation of the
    /// binary floating-point number of 64 bits that lies nearest to it.
    pub literal: String,
}

/// A JSON document. The members of an object stand in the order in which the
/// document reader hands them out, which is the order of their names.
pub enum Json {
    Null,
    Bool(bool),
    Number(JsonNumber),
    Text(String),
    Array(Vec<Json>),
    Object(Vec<(String, Json)>),
}

#[verifier::external_type_specification]
#[verifier::external_body]
pub struct ExValue(serde_json::Value);

/// The document that `text` holds, or nothing where `text` is no JSON document.
/// This is what `serde_json::from_str` makes of `text`; the library takes it as given.
pub uninterp spec fn document_of(text: Seq<char>) -> Option<Json>;

/// Turns a `serde_json::Value` into a [`Json`], variant by variant. A number
/// keeps what `Number::as_i64` returns and what its `Display` writes; an
/// object's members come in the order of `Map::into_iter`. Nothing is claimed
/// of the result here.
#[verifier::external_body]
fn json_from_value(value: serde_json::Value) -> Json {
    match value {
        serde_json::Value::Null => Json::Null,
        serde_json::Value::Bool(b) => Json::Bool(b),
        serde_json::Value::Number(n) => Json::Number(
            JsonNumber { integer: n.as_i64(), literal: n.to_string() },
        ),
        serde_json::Value::String(s) => Json::Text(s),
        serde_json::Value::Array(items) => Json::Array(
            items.into_iter().map(json_from_value).collect(),
        ),
        serde_json::Value::Object(members) => Json::Object(
            members.into_iter().map(|(k, v)| (k, json_from_value(v))).collect(),
        ),
    }
}

/// Calls `serde_json::from_str` for a `serde_json::Value`. The contract only
/// gives the outcome its name: the same text always reads as the same document.
#[verifier::external_body]
fn read_document(text: &str) -> (document: Option<Json>)
    ensures
        document == document_of(text@),
{
    serde_json::from_str::<serde_json::Value>(text).ok().map(json_from_value)
}

/// Where the first member called `name` stands among `members`, looking from `from` on.
pub open spec fn position_from(members: Seq<(String, Json)>, name: Seq<char>, from: int) -> Option<
    int,
>
    decreases members.len() - from,
{
    if from < 0 || from >= members.len() {
        None
    } else if members[from].0@ == name {
        Some(from)
    } else {
        position_from(members, name, from + 1)
    }
}

/// The value of the first member called `name`, if there is one.
pub open spec fn member(members: Seq<(String, Json)>, name: Seq<char>) -> Option<Json> {
    match position_from(members, name, 0) {
        Some(at) => Some(members[at].1),
        None => None,
    }
}

impl Json {
    /// Reads a JSON document from its text.
    pub fn parse(text: &str) -> (document: Option<Json>)
        ensures
            document == document_of(text@),
    {
        read_document(text)
    }
}

/// Looks up the first member called `name`.
pub fn find_member<'a>(members: &'a Vec<(String, Json)>, name: &str) -> (found: Option<&'a Json>)
    ensures
        match found {
            Some(value) => member(members@, name@) == Some(*value),
            None => member(members@, name@) is None,
        },
{
    let wanted = String::from_str(name);
    let mut i: usize = 0;
    while i < members.len()
        invariant
            i <= members.len(),
            wanted@ == name@,
            position_from(members@, name@, 0) == position_from(members@, name@, i as int),
        decreases members.len() - i,
    {
        if members[i].0 == wanted {
            return Some(&members[i].1);
        }
        i = i + 1;
    }
    None
}

} // verus!
