//! JSON values: what they are, how they are read, and how they become text.
use vstd::prelude::*;

use crate::json_value::{
    insert_member, into_pairs, new_members, number_as_i64, number_as_u64, number_from_u64,
    open_value, parse_value, print_value, seal_value, ValueParts,
};
#[allow(unused_imports)]
use crate::json_value::{
    as_signed, json_parsed, json_printed, members_json, number_i64, number_u64, pairs_json,
    value_json, READABLE_DEPTH,
};

verus! {

/// A JSON value.
///
/// `Unsigned` is an integer from 0 to `u64::MAX`. Negative numbers and fractions are held as
/// `serde_json` holds them. The members of an object stand in a list: where a key occurs in it more
/// than once, the last occurrence counts.
#[derive(Debug)]
pub enum Json {
    Null,
    Bool(bool),
    Unsigned(u64),
    OtherNumber(serde_json::Number),
    Text(String),
    Array(Vec<Json>),
    Object(Vec<(String, Json)>),
}

/// What a JSON value says. Two values with the same `JsonView` are the same JSON.
#[verifier::ext_equal]
pub enum JsonView {
    Null,
    Bool(bool),
    Unsigned(u64),
    OtherNumber(serde_json::Number),
    Text(Seq<char>),
    Array(Seq<JsonView>),
    Object(Map<Seq<char>, JsonView>),
}

impl JsonView {
    /// The member of an object under `key`, null where there is none.
    pub open spec fn at(self, key: Seq<char>) -> JsonView {
        match self {
            JsonView::Object(members) => if members.contains_key(key) {
                members[key]
            } else {
                JsonView::Null
            },
            _ => JsonView::Null,
        }
    }

    /// The characters of a string.
    pub open spec fn text(self) -> Option<Seq<char>> {
        match self {
            JsonView::Text(s) => Some(s),
            _ => None,
        }
    }

    /// The number, where it is an integer from 0 to `u64::MAX`.
    pub open spec fn unsigned(self) -> Option<u64> {
        match self {
            JsonView::Unsigned(n) => Some(n),
            _ => None,
        }
    }

    /// The number, where it is an integer from `i64::MIN` to `i64::MAX`.
    pub open spec fn signed(self) -> Option<i64> {
        match self {
            JsonView::Unsigned(n) => as_signed(n),
            JsonView::OtherNumber(n) => number_i64(n),
            _ => None,
        }
    }

    /// The elements of an array.
    pub open spec fn items(self) -> Option<Seq<JsonView>> {
        match self {
            JsonView::Array(items) => Some(items),
            _ => None,
        }
    }

    /// Whether arrays and objects stand at most `depth` deep in one another, and every number is an
    /// integer that fits into a `u64` or an `i64`.
    pub open spec fn is_plain(self, depth: nat) -> bool
        decreases depth, 0int,
    {
        match self {
            JsonView::OtherNumber(n) => number_i64(n) is Some,
            JsonView::Array(items) => depth > 0 && items_plain(items, (depth - 1) as nat),
            JsonView::Object(members) => depth > 0 && members_plain(members, (depth - 1) as nat),
            _ => true,
        }
    }
}

/// Whether each of the `items` is plain.
pub open spec fn items_plain(items: Seq<JsonView>, depth: nat) -> bool
    decreases depth, 1int,
{
    forall|i: int| 0 <= i < items.len() ==> (#[trigger] items[i]).is_plain(depth)
}

/// Whether each of the `members` is plain.
pub open spec fn members_plain(members: Map<Seq<char>, JsonView>, depth: nat) -> bool
    decreases depth, 1int,
{
    forall|key: Seq<char>| members.contains_key(key) ==> (#[trigger] members[key]).is_plain(depth)
}

/// What `json` says.
pub open spec fn json_view(json: Json) -> JsonView
    decreases json,
{
    match json {
        Json::Null => JsonView::Null,
        Json::Bool(b) => JsonView::Bool(b),
        Json::Unsigned(n) => JsonView::Unsigned(n),
        Json::OtherNumber(n) => match number_u64(n) {
            Some(u) => JsonView::Unsigned(u),
            None => JsonView::OtherNumber(n),
        },
        Json::Text(s) => JsonView::Text(s@),
        Json::Array(items) => JsonView::Array(items_view(items@)),
        Json::Object(entries) => JsonView::Object(entries_view(entries@)),
    }
}

/// What each of the `items` says.
pub open spec fn items_view(items: Seq<Json>) -> Seq<JsonView>
    decreases items,
{
    if items.len() == 0 {
        Seq::empty()
    } else {
        items_view(items.drop_last()).push(json_view(items.last()))
    }
}

/// What stands under each key of a list of members: the last one with that key.
pub open spec fn entries_view(entries: Seq<(String, Json)>) -> Map<Seq<char>, JsonView>
    decreases entries,
{
    if entries.len() == 0 {
        Map::empty()
    } else {
        entries_view(entries.drop_last()).insert(entries.last().0@, json_view(entries.last().1))
    }
}

impl View for Json {
    type V = JsonView;

    open spec fn view(&self) -> JsonView {
        json_view(*self)
    }
}

/// The view of a list says of each place what the element there says.
pub proof fn lemma_items_view(items: Seq<Json>)
    ensures
        items_view(items).len() == items.len(),
        forall|i: int|
            0 <= i < items.len() ==> #[trigger] items_view(items)[i] == json_view(items[i]),
    decreases items.len(),
{
    if items.len() > 0 {
        lemma_items_view(items.drop_last());
    }
}

/// A pair of a laid open object holds what the object holds under its key.
proof fn lemma_pairs_json(pairs: Seq<(String, serde_json::Value)>, i: int)
    requires
        0 <= i < pairs.len(),
        forall|i: int, j: int|
            0 <= i < j < pairs.len() ==> (#[trigger] pairs[i]).0@ != (#[trigger] pairs[j]).0@,
    ensures
        pairs_json(pairs).dom().finite(),
        pairs_json(pairs).contains_key(pairs[i].0@),
        pairs_json(pairs)[pairs[i].0@] == value_json(pairs[i].1),
    decreases pairs.len(),
{
    reveal_with_fuel(pairs_json, 2);
    let front = pairs.drop_last();
    if i < front.len() {
        assert(front[i] == pairs[i]);
        assert(pairs[i].0@ != pairs.last().0@);
        lemma_pairs_json(front, i);
    } else if front.len() > 0 {
        lemma_pairs_json(front, 0);
    }
}

/// The same JSON, out of the form that `serde_json` holds it in.
fn from_value(value: serde_json::Value) -> (json: Json)
    ensures
        json@ == value_json(value),
    decreases value_json(value),
{
    match open_value(value) {
        ValueParts::Null => Json::Null,
        ValueParts::Bool(b) => Json::Bool(b),
        ValueParts::Number(n) => match number_as_u64(&n) {
            Some(u) => Json::Unsigned(u),
            None => Json::OtherNumber(n),
        },
        ValueParts::Text(s) => Json::Text(s),
        ValueParts::Array(values) => {
            let mut items: Vec<Json> = Vec::new();
            let ghost seen = values@;
            let ghost held = seen.map_values(|v: serde_json::Value| value_json(v));
            for v in it: values
                invariant
                    it.seq() == seen,
                    held == seen.map_values(|v: serde_json::Value| value_json(v)),
                    value_json(value) == JsonView::Array(held),
                    items_view(items@) == held.take(it.index() as int),
            {
                let ghost i = it.index() as int;
                assert(held[i] == value_json(v));
                assert(decreases_to!(value_json(value) => value_json(value)->Array_0));
                assert(decreases_to!(held => held[i]));
                let item = from_value(v);
                let ghost before = items@;
                items.push(item);
                assert(items@.drop_last() == before);
                assert(held.take(i + 1) == held.take(i).push(held[i]));
            }
            assert(held.take(held.len() as int) == held);
            Json::Array(items)
        },
        ValueParts::Object(members) => {
            let ghost held = members_json(members);
            let pairs = into_pairs(members);
            let ghost seen = pairs@;
            let mut entries: Vec<(String, Json)> = Vec::new();
            for pair in it: pairs
                invariant
                    it.seq() == seen,
                    held == pairs_json(seen),
                    value_json(value) == JsonView::Object(held),
                    forall|i: int, j: int|
                        0 <= i < j < seen.len() ==> (#[trigger] seen[i]).0@ != (
                        #[trigger] seen[j]).0@,
                    entries_view(entries@) == pairs_json(seen.take(it.index() as int)),
            {
                let ghost i = it.index() as int;
                proof {
                    lemma_pairs_json(seen, i);
                    assert(decreases_to!(value_json(value) => value_json(value)->Object_0));
                    assert(decreases_to!(held => held[pair.0@]));
                }
                let (key, v) = pair;
                let json = from_value(v);
                let ghost before = entries@;
                entries.push((key, json));
                assert(entries@.drop_last() == before);
                assert(seen.take(i + 1).drop_last() == seen.take(i));
            }
            assert(seen.take(seen.len() as int) == seen);
            Json::Object(entries)
        },
    }
}

/// The same JSON, in the form that `serde_json` holds it in.
fn to_value(json: &Json) -> (value: serde_json::Value)
    ensures
        value_json(value) == json@,
    decreases json,
{
    let parts = match json {
        Json::Null => ValueParts::Null,
        Json::Bool(b) => ValueParts::Bool(*b),
        Json::Unsigned(n) => ValueParts::Number(number_from_u64(*n)),
        Json::OtherNumber(n) => ValueParts::Number(n.clone()),
        Json::Text(s) => ValueParts::Text(s.clone()),
        Json::Array(items) => {
            let mut values: Vec<serde_json::Value> = Vec::new();
            let mut i: usize = 0;
            while i < items.len()
                invariant
                    i <= items.len(),
                    json == Json::Array(*items),
                    values@.map_values(|v: serde_json::Value| value_json(v)) == items_view(
                        items@.take(i as int),
                    ),
                decreases items.len() - i,
            {
                assert(decreases_to!(*json => json->Array_0));
                assert(decreases_to!(*items => items@));
                assert(decreases_to!(items@ => items@[i as int]));
                let value = to_value(&items[i]);
                let ghost before = values@;
                values.push(value);
                assert(items@.take(i + 1).drop_last() == items@.take(i as int));
                assert(values@.map_values(|v: serde_json::Value| value_json(v))
                    == before.map_values(|v: serde_json::Value| value_json(v)).push(
                    value_json(value),
                ));
                i += 1;
            }
            assert(items@.take(i as int) == items@);
            ValueParts::Array(values)
        },
        Json::Object(entries) => {
            let mut members = new_members();
            let mut i: usize = 0;
            while i < entries.len()
                invariant
                    i <= entries.len(),
                    json == Json::Object(*entries),
                    members_json(members) == entries_view(entries@.take(i as int)),
                decreases entries.len() - i,
            {
                assert(decreases_to!(*json => json->Object_0));
                assert(decreases_to!(*entries => entries@));
                assert(decreases_to!(entries@ => entries@[i as int]));
                assert(decreases_to!(entries@[i as int] => entries@[i as int].1));
                let value = to_value(&entries[i].1);
                insert_member(&mut members, entries[i].0.clone(), value);
                assert(entries@.take(i + 1).drop_last() == entries@.take(i as int));
                i += 1;
            }
            assert(entries@.take(i as int) == entries@);
            ValueParts::Object(members)
        },
    };
    seal_value(parts)
}

/// Adds a member to a list of members.
pub fn push_member(entries: &mut Vec<(String, Json)>, key: &str, value: Json)
    ensures
        entries_view(final(entries)@) == entries_view(old(entries)@).insert(key@, value@),
{
    let ghost before = entries@;
    entries.push((String::from_str(key), value));
    assert(entries@.drop_last() == before);
}

/// A copy of a JSON value.
fn copy_json(json: &Json) -> (copy: Json)
    ensures
        copy@ == json@,
    decreases json,
{
    match json {
        Json::Null => Json::Null,
        Json::Bool(b) => Json::Bool(*b),
        Json::Unsigned(n) => Json::Unsigned(*n),
        Json::OtherNumber(n) => Json::OtherNumber(n.clone()),
        Json::Text(s) => Json::Text(s.clone()),
        Json::Array(items) => {
            let mut copies: Vec<Json> = Vec::new();
            let mut i: usize = 0;
            while i < items.len()
                invariant
                    i <= items.len(),
                    json == Json::Array(*items),
                    items_view(copies@) == items_view(items@.take(i as int)),
                decreases items.len() - i,
            {
                assert(decreases_to!(*json => json->Array_0));
                assert(decreases_to!(*items => items@));
                assert(decreases_to!(items@ => items@[i as int]));
                let copy = copy_json(&items[i]);
                let ghost before = copies@;
                copies.push(copy);
                assert(copies@.drop_last() == before);
                assert(items@.take(i + 1).drop_last() == items@.take(i as int));
                i += 1;
            }
            assert(items@.take(i as int) == items@);
            Json::Array(copies)
        },
        Json::Object(entries) => {
            let mut copies: Vec<(String, Json)> = Vec::new();
            let mut i: usize = 0;
            while i < entries.len()
                invariant
                    i <= entries.len(),
                    json == Json::Object(*entries),
                    entries_view(copies@) == entries_view(entries@.take(i as int)),
                decreases entries.len() - i,
            {
                assert(decreases_to!(*json => json->Object_0));
                assert(decreases_to!(*entries => entries@));
                assert(decreases_to!(entries@ => entries@[i as int]));
                assert(decreases_to!(entries@[i as int] => entries@[i as int].1));
                let copy = copy_json(&entries[i].1);
                let ghost before = copies@;
                copies.push((entries[i].0.clone(), copy));
                assert(copies@.drop_last() == before);
                assert(entries@.take(i + 1).drop_last() == entries@.take(i as int));
                i += 1;
            }
            assert(entries@.take(i as int) == entries@);
            Json::Object(copies)
        },
    }
}

impl Clone for Json {
    fn clone(&self) -> (copy: Json)
        ensures
            copy@ == self@,
    {
        copy_json(self)
    }
}

impl Json {
    /// Reads a JSON text. `None` where the text is not JSON.
    pub fn parse(text: &str) -> (result: Option<Json>)
        ensures
            match result {
                Some(json) => json_parsed(text@) == Some(json@),
                None => json_parsed(text@) is None,
            },
    {
        match parse_value(text) {
            Some(value) => Some(from_value(value)),
            None => None,
        }
    }

    /// The compact JSON text of this value. Where the value is plain, it can be read from that text
    /// again.
    pub fn to_text(&self) -> (text: String)
        ensures
            text@ == json_printed(self@),
            self@.is_plain(READABLE_DEPTH as nat) ==> json_parsed(text@) == Some(self@),
    {
        print_value(&to_value(self))
    }

    /// The same JSON, in the form that `serde_json` holds it in.
    pub fn to_value(&self) -> (value: serde_json::Value)
        ensures
            value_json(value) == self@,
    {
        to_value(self)
    }

    /// The member of an object under `key`. `None` where this is no object or has no such member.
    pub fn get(&self, key: &str) -> (member: Option<&Json>)
        ensures
            match member {
                Some(json) => self@ is Object && self@->Object_0.contains_key(key@)
                    && self@->Object_0[key@] == json@,
                None => self@ is Object ==> !self@->Object_0.contains_key(key@),
            },
            match member {
                Some(json) => json@ == self@.at(key@),
                None => self@.at(key@) == JsonView::Null,
            },
    {
        match self {
            Json::Object(entries) => {
                let wanted = String::from_str(key);
                let ghost members = entries_view(entries@);
                let mut i: usize = entries.len();
                assert(entries@.take(i as int) == entries@);
                while i > 0
                    invariant
                        i <= entries.len(),
                        wanted@ == key@,
                        *self == Json::Object(*entries),
                        members == entries_view(entries@),
                        members.contains_key(key@) == entries_view(
                            entries@.take(i as int),
                        ).contains_key(key@),
                        members.contains_key(key@) ==> members[key@] == entries_view(
                            entries@.take(i as int),
                        )[key@],
                    decreases i,
                {
                    assert(entries@.take(i as int).drop_last() == entries@.take(i - 1));
                    i -= 1;
                    if entries[i].0 == wanted {
                        return Some(&entries[i].1);
                    }
                }
                None
            },
            _ => None,
        }
    }

    /// The characters of a string.
    pub fn as_text(&self) -> (result: Option<&String>)
        ensures
            match result {
                Some(s) => self@.text() == Some(s@),
                None => self@.text() is None,
            },
    {
        match self {
            Json::Text(s) => Some(s),
            _ => None,
        }
    }

    /// The number, where it is an integer from 0 to `u64::MAX`.
    pub fn as_u64(&self) -> (result: Option<u64>)
        ensures
            result == self@.unsigned(),
    {
        match self {
            Json::Unsigned(n) => Some(*n),
            Json::OtherNumber(n) => number_as_u64(n),
            _ => None,
        }
    }

    /// The number, where it is an integer from `i64::MIN` to `i64::MAX`.
    pub fn as_i64(&self) -> (result: Option<i64>)
        ensures
            result == self@.signed(),
    {
        match self {
            Json::Unsigned(n) => if *n <= i64::MAX as u64 {
                Some(*n as i64)
            } else {
                None
            },
            Json::OtherNumber(n) => number_as_i64(n),
            _ => None,
        }
    }

    /// The elements of an array.
    pub fn as_items(&self) -> (result: Option<&Vec<Json>>)
        ensures
            match result {
                Some(items) => self@.items() == Some(items_view(items@)),
                None => self@.items() is None,
            },
    {
        match self {
            Json::Array(items) => Some(items),
            _ => None,
        }
    }
}

/// What was put under a key of an object is found there, other keys are not touched by it, and nothing
/// is found under a key that was taken out.
pub proof fn law_members_are_found_by_their_keys(
    members: Map<Seq<char>, JsonView>,
    key: Seq<char>,
    value: JsonView,
    other: Seq<char>,
)
    ensures
        JsonView::Object(members.insert(key, value)).at(key) == value,
        other != key ==> JsonView::Object(members.insert(key, value)).at(other)
            == JsonView::Object(members).at(other),
        JsonView::Object(members.remove(key)).at(key) is Null,
        JsonView::Object(Map::empty()).at(key) is Null,
{
}

/// Nothing is found in what is no object.
pub proof fn law_only_objects_have_members(json: JsonView, key: Seq<char>)
    requires
        !(json is Object),
    ensures
        json.at(key) is Null,
{
}

/// Each kind of value is read as what it is, and as nothing else.
pub proof fn law_values_are_read_by_kind(
    json: JsonView,
    s: Seq<char>,
    n: u64,
    items: Seq<JsonView>,
)
    ensures
        json.text() == Some(s) <==> json == JsonView::Text(s),
        json.unsigned() == Some(n) <==> json == JsonView::Unsigned(n),
        json.items() == Some(items) <==> json == JsonView::Array(items),
        json.signed() matches Some(n) ==> {
            ||| json matches JsonView::Unsigned(u) && u == n
            ||| json matches JsonView::OtherNumber(number) && number_i64(number) == Some(n)
        },
        json matches JsonView::Unsigned(u) ==> (json.signed() is Some <==> u <= i64::MAX),
        json matches JsonView::OtherNumber(number) ==> json.signed() == number_i64(number),
{
}

/// A value says what it holds: the same text, the same number, the same items in the same order.
pub proof fn law_values_say_what_they_hold(s: String, n: u64, b: bool, items: Vec<Json>)
    ensures
        Json::Null@ is Null,
        Json::Bool(b)@ == JsonView::Bool(b),
        Json::Unsigned(n)@ == JsonView::Unsigned(n),
        Json::Text(s)@ == JsonView::Text(s@),
        Json::Array(items)@ matches JsonView::Array(views) && views.len() == items@.len() && forall|
            i: int,
        |
            0 <= i < views.len() ==> #[trigger] views[i] == items@[i]@,
{
    lemma_items_view(items@);
}

/// An object holds a key exactly where one of its members has it.
pub proof fn law_object_holds_the_keys_of_its_members(entries: Vec<(String, Json)>, key: Seq<char>)
    ensures
        Json::Object(entries)@ matches JsonView::Object(members) && (members.contains_key(key)
            <==> exists|k: int| 0 <= k < entries@.len() && (#[trigger] entries@[k]).0@ == key),
{
    lemma_entries(entries@, key);
}

proof fn lemma_entries(entries: Seq<(String, Json)>, key: Seq<char>)
    ensures
        entries_view(entries).contains_key(key) <==> exists|k: int|
            0 <= k < entries.len() && (#[trigger] entries[k]).0@ == key,
    decreases entries.len(),
{
    if entries.len() > 0 {
        let front = entries.drop_last();
        lemma_entries(front, key);
        if entries.last().0@ == key {
            assert(entries[entries.len() - 1].0@ == key);
        } else if exists|k: int| 0 <= k < entries.len() && (#[trigger] entries[k]).0@ == key {
            let k = choose|k: int| 0 <= k < entries.len() && (#[trigger] entries[k]).0@ == key;
            assert(front[k].0@ == key);
        }
        if entries_view(front).contains_key(key) {
            let k = choose|k: int| 0 <= k < front.len() && (#[trigger] front[k]).0@ == key;
            assert(entries[k].0@ == key);
        }
    }
}

/// The last of the members with a key decides what an object holds under it.
pub proof fn law_last_member_with_a_key_counts(entries: Vec<(String, Json)>, k: int)
    requires
        0 <= k < entries@.len(),
        forall|l: int| k < l < entries@.len() ==> (#[trigger] entries@[l]).0@ != entries@[k].0@,
    ensures
        Json::Object(entries)@.at(entries@[k].0@) == entries@[k].1@,
{
    lemma_last_entry(entries@, k);
}

proof fn lemma_last_entry(entries: Seq<(String, Json)>, k: int)
    requires
        0 <= k < entries.len(),
        forall|l: int| k < l < entries.len() ==> (#[trigger] entries[l]).0@ != entries[k].0@,
    ensures
        entries_view(entries).contains_key(entries[k].0@),
        entries_view(entries)[entries[k].0@] == entries[k].1@,
    decreases entries.len(),
{
    if k < entries.len() - 1 {
        let front = entries.drop_last();
        assert forall|l: int| k < l < front.len() implies (#[trigger] front[l]).0@
            != front[k].0@ by {
            assert(entries[l].0@ != entries[k].0@);
        }
        lemma_last_entry(front, k);
        assert(entries[entries.len() - 1].0@ != entries[k].0@);
    }
}

/// A number that is no `u64` is kept as it is, and one that is counts as that `u64`.
pub proof fn law_numbers_say_what_they_hold(number: serde_json::Number, n: u64)
    ensures
        Json::OtherNumber(number)@ == JsonView::Unsigned(n) <==> number_u64(number) == Some(n),
        Json::OtherNumber(number)@ == JsonView::OtherNumber(number) <==> number_u64(number) is None,
{
}

/// What is plain: truth values, texts and nothing always, numbers where they are integers that fit, and
/// arrays and objects where there is depth left and all that they hold is plain in what remains of it.
pub proof fn law_what_is_plain(
    depth: nat,
    b: bool,
    n: u64,
    number: serde_json::Number,
    s: Seq<char>,
    items: Seq<JsonView>,
    members: Map<Seq<char>, JsonView>,
)
    ensures
        JsonView::Null.is_plain(depth),
        JsonView::Bool(b).is_plain(depth),
        JsonView::Unsigned(n).is_plain(depth),
        JsonView::Text(s).is_plain(depth),
        JsonView::OtherNumber(number).is_plain(depth) <==> number_i64(number) is Some,
        !JsonView::Array(items).is_plain(0),
        !JsonView::Object(members).is_plain(0),
        JsonView::Array(items).is_plain(depth + 1) <==> forall|i: int|
            0 <= i < items.len() ==> (#[trigger] items[i]).is_plain(depth),
        JsonView::Object(members).is_plain(depth + 1) <==> forall|key: Seq<char>|
            members.contains_key(key) ==> (#[trigger] members[key]).is_plain(depth),
{
    assert(JsonView::Array(items).is_plain(depth + 1) == items_plain(items, depth));
    assert(JsonView::Object(members).is_plain(depth + 1) == members_plain(members, depth));
}

} // verus!
