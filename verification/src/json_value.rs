//! The calls into `serde_json`. What they do is believed here, not proved.
use vstd::prelude::*;

use crate::json::JsonView;

verus! {

/// A JSON value as `serde_json` holds it.
#[verifier::external_type_specification]
#[verifier::external_body]
pub struct ExJsonValue(serde_json::Value);

/// A JSON number as `serde_json` holds it.
#[verifier::external_type_specification]
#[verifier::external_body]
pub struct ExJsonNumber(serde_json::Number);

/// The members of a JSON object as `serde_json` holds them.
#[verifier::external_type_specification]
#[verifier::external_body]
#[verifier::reject_recursive_types(K)]
#[verifier::reject_recursive_types(V)]
pub struct ExJsonMap<K, V>(serde_json::Map<K, V>);

/// What a `serde_json::Value` holds.
pub uninterp spec fn value_json(value: serde_json::Value) -> JsonView;

/// What a `serde_json::Map` holds under each of its keys.
pub uninterp spec fn members_json(
    members: serde_json::Map<String, serde_json::Value>,
) -> Map<Seq<char>, JsonView>;

/// What `serde_json::Number::as_u64` returns.
pub uninterp spec fn number_u64(number: serde_json::Number) -> Option<u64>;

/// What `serde_json::Number::as_i64` returns.
pub uninterp spec fn number_i64(number: serde_json::Number) -> Option<i64>;

/// What `serde_json::from_str` reads from a text, `None` where it reports an error.
pub uninterp spec fn json_parsed(text: Seq<char>) -> Option<JsonView>;

/// The text that `serde_json::Value` displays as.
pub uninterp spec fn json_printed(json: JsonView) -> Seq<char>;

/// A `serde_json::Value` with its outermost layer laid open: one variant for each of its own.
pub enum ValueParts {
    Null,
    Bool(bool),
    Number(serde_json::Number),
    Text(String),
    Array(Vec<serde_json::Value>),
    Object(serde_json::Map<String, serde_json::Value>),
}

/// What a laid open value holds.
pub open spec fn parts_json(parts: ValueParts) -> JsonView {
    match parts {
        ValueParts::Null => JsonView::Null,
        ValueParts::Bool(b) => JsonView::Bool(b),
        ValueParts::Number(n) => match number_u64(n) {
            Some(u) => JsonView::Unsigned(u),
            None => JsonView::OtherNumber(n),
        },
        ValueParts::Text(s) => JsonView::Text(s@),
        ValueParts::Array(items) => JsonView::Array(
            items@.map_values(|v: serde_json::Value| value_json(v)),
        ),
        ValueParts::Object(members) => JsonView::Object(members_json(members)),
    }
}

/// A number as an `i64`, where it fits.
pub open spec fn as_signed(n: u64) -> Option<i64> {
    if n <= i64::MAX {
        Some(n as i64)
    } else {
        None
    }
}

/// The map that arises when `pairs` are put into an empty one in order.
pub open spec fn pairs_json(pairs: Seq<(String, serde_json::Value)>) -> Map<Seq<char>, JsonView>
    decreases pairs.len(),
{
    if pairs.len() == 0 {
        Map::empty()
    } else {
        pairs_json(pairs.drop_last()).insert(pairs.last().0@, value_json(pairs.last().1))
    }
}

/// Lays a value open. The six variants of `serde_json::Value` hold what the variants here hold.
#[verifier::external_body]
pub(crate) fn open_value(value: serde_json::Value) -> (parts: ValueParts)
    ensures
        parts_json(parts) == value_json(value),
{
    match value {
        serde_json::Value::Null => ValueParts::Null,
        serde_json::Value::Bool(b) => ValueParts::Bool(b),
        serde_json::Value::Number(n) => ValueParts::Number(n),
        serde_json::Value::String(s) => ValueParts::Text(s),
        serde_json::Value::Array(items) => ValueParts::Array(items),
        serde_json::Value::Object(members) => ValueParts::Object(members),
    }
}

/// Puts a value together, by the variant of `serde_json::Value` that `parts` stands for.
#[verifier::external_body]
pub(crate) fn seal_value(parts: ValueParts) -> (value: serde_json::Value)
    ensures
        value_json(value) == parts_json(parts),
{
    match parts {
        ValueParts::Null => serde_json::Value::Null,
        ValueParts::Bool(b) => serde_json::Value::Bool(b),
        ValueParts::Number(n) => serde_json::Value::Number(n),
        ValueParts::Text(s) => serde_json::Value::String(s),
        ValueParts::Array(items) => serde_json::Value::Array(items),
        ValueParts::Object(members) => serde_json::Value::Object(members),
    }
}

/// `serde_json::Map::new` makes a map without members.
#[verifier::external_body]
pub(crate) fn new_members() -> (members: serde_json::Map<String, serde_json::Value>)
    ensures
        members_json(members) == pairs_json(Seq::empty()),
{
    serde_json::Map::new()
}

/// `serde_json::Map::insert` puts the value under the key, in place of what was there.
#[verifier::external_body]
pub(crate) fn insert_member(
    members: &mut serde_json::Map<String, serde_json::Value>,
    key: String,
    value: serde_json::Value,
)
    ensures
        members_json(*final(members)) == members_json(*old(members)).insert(
            key@,
            value_json(value),
        ),
{
    members.insert(key, value);
}

/// `serde_json::Map::into_iter` hands out every member once.
#[verifier::external_body]
pub(crate) fn into_pairs(members: serde_json::Map<String, serde_json::Value>) -> (pairs: Vec<
    (String, serde_json::Value),
>)
    ensures
        pairs_json(pairs@) == members_json(members),
        forall|i: int, j: int|
            0 <= i < j < pairs@.len() ==> (#[trigger] pairs@[i]).0@ != (#[trigger] pairs@[j]).0@,
{
    members.into_iter().collect()
}

/// `serde_json::Number::as_u64` gives the number where it is an integer that fits.
#[verifier::external_body]
pub(crate) fn number_as_u64(number: &serde_json::Number) -> (result: Option<u64>)
    ensures
        result == number_u64(*number),
{
    number.as_u64()
}

/// `serde_json::Number::as_i64` gives the number where it is an integer that fits. It is the one that
/// `as_u64` gives, where that gives one.
#[verifier::external_body]
pub(crate) fn number_as_i64(number: &serde_json::Number) -> (result: Option<i64>)
    ensures
        result == number_i64(*number),
        number_u64(*number) matches Some(n) ==> result == as_signed(n),
{
    number.as_i64()
}

/// `serde_json::Number::from` makes the number that `as_u64` gives back.
#[verifier::external_body]
pub(crate) fn number_from_u64(n: u64) -> (number: serde_json::Number)
    ensures
        number_u64(number) == Some(n),
{
    serde_json::Number::from(n)
}

/// A clone of a `serde_json::Number` is the same number.
pub assume_specification[ <serde_json::Number as Clone>::clone ](
    number: &serde_json::Number,
) -> (result: serde_json::Number)
    ensures
        result == *number,
;

/// `serde_json::from_str` reads a JSON text, or reports that it is none.
#[verifier::external_body]
pub(crate) fn parse_value(text: &str) -> (result: Option<serde_json::Value>)
    ensures
        match result {
            Some(value) => json_parsed(text@) == Some(value_json(value)),
            None => json_parsed(text@) is None,
        },
{
    serde_json::from_str(text).ok()
}

/// How deep arrays and objects may stand in one another for `serde_json::from_str` to read them.
pub const READABLE_DEPTH: u64 = 127;

/// `serde_json::Value` displays as its compact JSON text. `serde_json::from_str` reads the value from
/// that text again, unless it is nested too deep or has numbers in it that are not integers of 64 bits:
/// of those nothing is said.
#[verifier::external_body]
pub(crate) fn print_value(value: &serde_json::Value) -> (text: String)
    ensures
        text@ == json_printed(value_json(*value)),
        value_json(*value).is_plain(READABLE_DEPTH as nat) ==> json_parsed(text@) == Some(
            value_json(*value),
        ),
{
    value.to_string()
}

} // verus!
