use vstd::prelude::*;

verus! {

use crate::utils::{str_eq, string_views};

/// The library's own JSON tree.
///
/// A parsed document is held in this type, so that all of the format logic
/// works on plain values. Numbers the format cares about are unsigned
/// integers; any other number (negative or fractional) is kept only as the
/// fact that it was some other kind of number, which every consumer in this
/// library rejects.
#[derive(Debug)]
pub enum JsonValue {
    Null,
    Bool(bool),
    UInt(u64),
    NumOther,
    Str(String),
    Arr(Vec<JsonValue>),
    Obj(Vec<(String, JsonValue)>),
}

/// The first value bound to `key` in an object's entries, if any.
pub open spec fn spec_obj_get(entries: Seq<(String, JsonValue)>, key: Seq<char>) -> Option<
    JsonValue,
>
    decreases entries.len(),
{
    if entries.len() == 0 {
        None
    } else if entries[0].0@ == key {
        Some(entries[0].1)
    } else {
        spec_obj_get(entries.drop_first(), key)
    }
}

/// A lookup skips over every entry whose key does not match.
proof fn lemma_obj_get_skip(entries: Seq<(String, JsonValue)>, key: Seq<char>, i: int)
    requires
        0 <= i <= entries.len(),
        forall|k: int| 0 <= k < i ==> entries[k].0@ != key,
    ensures
        spec_obj_get(entries, key) == spec_obj_get(entries.skip(i), key),
    decreases i,
{
    if i == 0 {
        assert(entries.skip(0) =~= entries);
    } else {
        lemma_obj_get_skip(entries.drop_first(), key, i - 1);
        assert(entries.drop_first().skip(i - 1) =~= entries.skip(i));
    }
}

/// Looks up `key` in an object's entries, returning the first match.
pub fn obj_get<'a>(entries: &'a Vec<(String, JsonValue)>, key: &str) -> (r: Option<
    &'a JsonValue,
>)
    ensures
        match r {
            Some(v) => spec_obj_get(entries@, key@) == Some(*v),
            None => spec_obj_get(entries@, key@) is None,
        },
{
    let mut i: usize = 0;
    while i < entries.len()
        invariant
            0 <= i <= entries@.len(),
            forall|k: int| 0 <= k < i ==> entries@[k].0@ != key@,
        decreases entries@.len() - i,
    {
        if str_eq(entries[i].0.as_str(), key) {
            proof {
                lemma_obj_get_skip(entries@, key@, i as int);
                assert(entries@.skip(i as int)[0] == entries@[i as int]);
            }
            return Some(&entries[i].1);
        }
        i += 1;
    }
    proof {
        lemma_obj_get_skip(entries@, key@, entries@.len() as int);
        assert(entries@.skip(entries@.len() as int) =~= Seq::<(String, JsonValue)>::empty());
    }
    None
}

/// Whether every element of a JSON array is a string.
pub open spec fn all_strings(items: Seq<JsonValue>) -> bool {
    forall|i: int| 0 <= i < items.len() ==> items[i] is Str
}

/// The character sequences held by an array of JSON strings.
pub open spec fn json_string_views(items: Seq<JsonValue>) -> Seq<Seq<char>> {
    items.map_values(|j: JsonValue| j->Str_0@)
}

/// Extracts the strings of a JSON array, or reports that some element is
/// not a string.
pub fn json_strings(items: &Vec<JsonValue>) -> (r: Option<Vec<String>>)
    ensures
        match r {
            Some(v) => all_strings(items@) && string_views(v@) == json_string_views(items@),
            None => !all_strings(items@),
        },
{
    let mut out: Vec<String> = Vec::new();
    let mut i: usize = 0;
    while i < items.len()
        invariant
            0 <= i <= items@.len(),
            out@.len() == i,
            forall|k: int| 0 <= k < i ==> items@[k] is Str,
            forall|k: int| 0 <= k < i ==> out@[k]@ == items@[k]->Str_0@,
        decreases items@.len() - i,
    {
        match &items[i] {
            JsonValue::Str(s) => {
                out.push(s.clone());
            },
            _ => {
                return None;
            },
        }
        i += 1;
    }
    proof {
        assert(string_views(out@) =~= json_string_views(items@));
    }
    Some(out)
}

#[verifier::external_type_specification]
#[verifier::external_body]
pub struct ExSerdeValue(serde_json::Value);

/// The JSON tree that a given text parses to, or `None` where the text is
/// not valid JSON. `serde_json::from_str` computes this from the text
/// alone, so the result can be given a name.
pub uninterp spec fn json_of(text: Seq<char>) -> Option<JsonValue>;

/// Relies on serde_json::Value: each arm moves one variant's data into the
/// library's own JSON tree. Numbers go through `Number::as_u64`, which
/// returns the value exactly when it is an unsigned integer; every other
/// number becomes `NumOther`. Object entries come out of
/// `Map::iter` (a map ordered by key, each key once).
#[verifier::external_body]
fn json_tree_of(v: &serde_json::Value) -> JsonValue {
    match v {
        serde_json::Value::Null => JsonValue::Null,
        serde_json::Value::Bool(b) => JsonValue::Bool(*b),
        serde_json::Value::Number(n) => match n.as_u64() {
            Some(u) => JsonValue::UInt(u),
            None => JsonValue::NumOther,
        },
        serde_json::Value::String(s) => JsonValue::Str(s.clone()),
        serde_json::Value::Array(a) => JsonValue::Arr(a.iter().map(json_tree_of).collect()),
        serde_json::Value::Object(o) => JsonValue::Obj(
            o.iter().map(|(k, x)| (k.clone(), json_tree_of(x))).collect(),
        ),
    }
}

/// Relies on serde_json::from_str: parsing is a pure function of the text,
/// returning `Ok` exactly on valid JSON; `json_tree_of` converts the parsed
/// value. The whole composition depends on the text alone, which `json_of`
/// names.
#[verifier::external_body]
pub(crate) fn parse_json_text(text: &str) -> (r: Option<JsonValue>)
    ensures
        r == json_of(text@),
{
    match serde_json::from_str::<serde_json::Value>(text) {
        Ok(v) => Some(json_tree_of(&v)),
        Err(_) => None,
    }
}

} // verus!
