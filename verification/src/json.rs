//! JSON documents as plain values, and the typed reads that the file
//! formats of the host make of them.
use vstd::prelude::*;

verus! {

/// A JSON value. Numbers keep what the importers read of them: their value
/// as an unsigned and as a signed 64-bit integer, when they are one (a
/// fraction or an exponent makes neither). The entries of an object come in
/// the order in which the parser hands them out, each key once.
#[derive(Debug)]
pub enum JsonValue {
    Null,
    Bool(bool),
    Number { unsigned: Option<u64>, signed: Option<i64> },
    Str(String),
    Array(Vec<JsonValue>),
    Object(Vec<(String, JsonValue)>),
}

#[verifier::external_type_specification]
#[verifier::external_body]
pub struct ExSerdeJsonValue(serde_json::Value);

/// What `serde_json::from_str::<serde_json::Value>` makes of a text, read as
/// a `JsonValue`: `None` when the text is not one JSON document.
pub uninterp spec fn json_parse(input: Seq<char>) -> Option<JsonValue>;

/// The `JsonValue` that a parsed `serde_json::Value` stands for, one node
/// for one node.
#[verifier::external_body]
fn json_from_serde(v: &serde_json::Value) -> JsonValue {
    match v {
        serde_json::Value::Null => JsonValue::Null,
        serde_json::Value::Bool(b) => JsonValue::Bool(*b),
        serde_json::Value::Number(n) => JsonValue::Number { unsigned: n.as_u64(), signed: n.as_i64() },
        serde_json::Value::String(s) => JsonValue::Str(s.clone()),
        serde_json::Value::Array(a) => JsonValue::Array(a.iter().map(json_from_serde).collect()),
        serde_json::Value::Object(m) => JsonValue::Object(
            m.iter().map(|(k, x)| (k.clone(), json_from_serde(x))).collect(),
        ),
    }
}

/// `serde_json::from_str::<serde_json::Value>`: parses one JSON document.
/// The result is claimed to depend on the text alone; the JSON grammar that
/// the crate implements is not restated.
#[verifier::external_body]
pub(crate) fn parse_json(input: &str) -> (r: Option<JsonValue>)
    ensures
        r == json_parse(input@),
{
    match serde_json::from_str::<serde_json::Value>(input) {
        Ok(v) => Some(json_from_serde(&v)),
        Err(_) => None,
    }
}

/// The value of the first entry with the key `key`.
pub open spec fn obj_get(es: Seq<(String, JsonValue)>, key: Seq<char>) -> Option<JsonValue>
    decreases es.len(),
{
    if es.len() == 0 {
        None
    } else if es[0].0@ == key {
        Some(es[0].1)
    } else {
        obj_get(es.drop_first(), key)
    }
}

/// The member `key` of an object; nothing for any other value.
pub open spec fn field(v: JsonValue, key: Seq<char>) -> Option<JsonValue> {
    match v {
        JsonValue::Object(es) => obj_get(es@, key),
        _ => None,
    }
}

/// Looks a key up among the entries of an object.
pub fn obj_get_exec<'a>(es: &'a Vec<(String, JsonValue)>, key: &str) -> (r: Option<&'a JsonValue>)
    ensures
        match r {
            Some(v) => obj_get(es@, key@) == Some(*v),
            None => obj_get(es@, key@) is None,
        },
{
    let mut i: usize = 0;
    assert(es@.skip(0) =~= es@);
    while i < es.len()
        invariant
            i <= es.len(),
            obj_get(es@, key@) == obj_get(es@.skip(i as int), key@),
        decreases es.len() - i,
    {
        assert(es@.skip(i as int)[0] == es@[i as int]);
        if crate::text::same_text(es[i].0.as_str(), key) {
            return Some(&es[i].1);
        }
        assert(es@.skip(i as int).drop_first() =~= es@.skip(i + 1));
        i = i + 1;
    }
    None
}

/// The member `key` of a value, when it is an object that has one.
pub fn field_exec<'a>(v: &'a JsonValue, key: &str) -> (r: Option<&'a JsonValue>)
    ensures
        match r {
            Some(x) => field(*v, key@) == Some(*x),
            None => field(*v, key@) is None,
        },
{
    match v {
        JsonValue::Object(es) => obj_get_exec(es, key),
        _ => None,
    }
}

/// A member of a record, which serde's derived readers take in two forms:
/// an object, read by key, or a list, read by position (`i` is the place
/// of the member among the record's fields).
pub open spec fn member(v: JsonValue, key: Seq<char>, i: int) -> Option<JsonValue> {
    match v {
        JsonValue::Array(items) => if 0 <= i < items@.len() {
            Some(items@[i])
        } else {
            None
        },
        _ => field(v, key),
    }
}

/// A record with `n` fields: an object, or a list of at most `n` items
/// (a longer list is refused).
pub open spec fn is_record(v: JsonValue, n: int) -> bool {
    match v {
        JsonValue::Object(_) => true,
        JsonValue::Array(items) => items@.len() <= n,
        _ => false,
    }
}

/// The member `key`, at place `i`, of a record.
pub fn member_exec<'a>(v: &'a JsonValue, key: &str, i: usize) -> (r: Option<&'a JsonValue>)
    ensures
        match r {
            Some(x) => member(*v, key@, i as int) == Some(*x),
            None => member(*v, key@, i as int) is None,
        },
{
    match v {
        JsonValue::Array(items) => if i < items.len() {
            Some(&items[i])
        } else {
            None
        },
        _ => field_exec(v, key),
    }
}

/// Whether a value is a record with `n` fields.
pub fn is_record_exec(v: &JsonValue, n: usize) -> (r: bool)
    ensures
        r == is_record(*v, n as int),
{
    match v {
        JsonValue::Object(_) => true,
        JsonValue::Array(items) => items.len() <= n,
        _ => false,
    }
}

/// A required string: present and a string.
pub open spec fn req_string(v: Option<JsonValue>) -> Option<Seq<char>> {
    match v {
        Some(JsonValue::Str(s)) => Some(s@),
        _ => None,
    }
}

/// A string with a default: absent gives the empty string.
pub open spec fn default_string(v: Option<JsonValue>) -> Option<Seq<char>> {
    match v {
        None => Some(Seq::empty()),
        Some(JsonValue::Str(s)) => Some(s@),
        _ => None,
    }
}

/// An optional string: absent or `null` give `None`.
pub open spec fn opt_string(v: Option<JsonValue>) -> Option<Option<Seq<char>>> {
    match v {
        None => Some(None),
        Some(JsonValue::Null) => Some(None),
        Some(JsonValue::Str(s)) => Some(Some(s@)),
        _ => None,
    }
}

/// A required `u32`: a non-negative integer that fits.
pub open spec fn req_u32(v: Option<JsonValue>) -> Option<u32> {
    match v {
        Some(JsonValue::Number { unsigned: Some(n), .. }) => if n <= u32::MAX {
            Some(n as u32)
        } else {
            None
        },
        _ => None,
    }
}

/// A `u32` with a default: absent gives `0`.
pub open spec fn default_u32(v: Option<JsonValue>) -> Option<u32> {
    match v {
        None => Some(0),
        _ => req_u32(v),
    }
}

/// An optional `u32`: absent or `null` give `None`.
pub open spec fn opt_u32(v: Option<JsonValue>) -> Option<Option<u32>> {
    match v {
        None => Some(None),
        Some(JsonValue::Null) => Some(None),
        _ => match req_u32(v) {
            Some(n) => Some(Some(n)),
            None => None,
        },
    }
}

/// An `i64` with a default: absent gives `0`.
pub open spec fn default_i64(v: Option<JsonValue>) -> Option<i64> {
    match v {
        None => Some(0),
        Some(JsonValue::Number { signed: Some(n), .. }) => Some(n),
        _ => None,
    }
}

/// The strings of a list that holds strings only.
pub open spec fn string_items(items: Seq<JsonValue>) -> Option<Seq<Seq<char>>>
    decreases items.len(),
{
    if items.len() == 0 {
        Some(Seq::empty())
    } else {
        match (string_items(items.drop_last()), items.last()) {
            (Some(prev), JsonValue::Str(s)) => Some(prev.push(s@)),
            _ => None,
        }
    }
}

/// A required list of strings.
pub open spec fn req_strings(v: Option<JsonValue>) -> Option<Seq<Seq<char>>> {
    match v {
        Some(JsonValue::Array(items)) => string_items(items@),
        _ => None,
    }
}

/// Reads a required string.
pub fn read_req_string(v: Option<&JsonValue>) -> (r: Option<String>)
    ensures
        match r {
            Some(s) => req_string(opt_deref(v)) == Some(s@),
            None => req_string(opt_deref(v)) is None,
        },
{
    match v {
        Some(JsonValue::Str(s)) => Some(s.clone()),
        _ => None,
    }
}

/// The value behind an optional reference.
pub open spec fn opt_deref(v: Option<&JsonValue>) -> Option<JsonValue> {
    match v {
        Some(x) => Some(*x),
        None => None,
    }
}

/// Reads a string with a default.
pub fn read_default_string(v: Option<&JsonValue>) -> (r: Option<String>)
    ensures
        match r {
            Some(s) => default_string(opt_deref(v)) == Some(s@),
            None => default_string(opt_deref(v)) is None,
        },
{
    match v {
        None => Some(String::new()),
        Some(JsonValue::Str(s)) => Some(s.clone()),
        _ => None,
    }
}

/// Reads an optional string.
pub fn read_opt_string(v: Option<&JsonValue>) -> (r: Option<Option<String>>)
    ensures
        match r {
            Some(Some(s)) => opt_string(opt_deref(v)) == Some(Some(s@)),
            Some(None) => opt_string(opt_deref(v)) == Some(None::<Seq<char>>),
            None => opt_string(opt_deref(v)) is None,
        },
{
    match v {
        None => Some(None),
        Some(JsonValue::Null) => Some(None),
        Some(JsonValue::Str(s)) => Some(Some(s.clone())),
        _ => None,
    }
}

/// Reads a required `u32`.
pub fn read_req_u32(v: Option<&JsonValue>) -> (r: Option<u32>)
    ensures
        r == req_u32(opt_deref(v)),
{
    match v {
        Some(JsonValue::Number { unsigned: Some(n), .. }) => if *n <= 4294967295u64 {
            Some(*n as u32)
        } else {
            None
        },
        _ => None,
    }
}

/// Reads a `u32` with a default.
pub fn read_default_u32(v: Option<&JsonValue>) -> (r: Option<u32>)
    ensures
        r == default_u32(opt_deref(v)),
{
    match v {
        None => Some(0),
        _ => read_req_u32(v),
    }
}

/// Reads an optional `u32`.
pub fn read_opt_u32(v: Option<&JsonValue>) -> (r: Option<Option<u32>>)
    ensures
        r == opt_u32(opt_deref(v)),
{
    match v {
        None => Some(None),
        Some(JsonValue::Null) => Some(None),
        _ => match read_req_u32(v) {
            Some(n) => Some(Some(n)),
            None => None,
        },
    }
}

/// Reads an `i64` with a default.
pub fn read_default_i64(v: Option<&JsonValue>) -> (r: Option<i64>)
    ensures
        r == default_i64(opt_deref(v)),
{
    match v {
        None => Some(0),
        Some(JsonValue::Number { signed: Some(n), .. }) => Some(*n),
        _ => None,
    }
}

/// The views of a list of strings.
pub open spec fn views_of(v: Seq<String>) -> Seq<Seq<char>> {
    v.map_values(|s: String| s@)
}

/// Reads a required list of strings.
pub fn read_req_strings(v: Option<&JsonValue>) -> (r: Option<Vec<String>>)
    ensures
        match r {
            Some(xs) => req_strings(opt_deref(v)) == Some(views_of(xs@)),
            None => req_strings(opt_deref(v)) is None,
        },
{
    let items = match v {
        Some(JsonValue::Array(items)) => items,
        _ => {
            return None;
        },
    };
    assert(req_strings(opt_deref(v)) == string_items(items@));
    let mut out: Vec<String> = Vec::new();
    let mut i: usize = 0;
    while i < items.len()
        invariant
            i <= items.len(),
            string_items(items@.take(i as int)) == Some(views_of(out@)),
            req_strings(opt_deref(v)) == string_items(items@),
        decreases items.len() - i,
    {
        proof {
            assert(items@.take(i + 1).drop_last() =~= items@.take(i as int));
            assert(items@.take(i + 1).last() == items@[i as int]);
        }
        match &items[i] {
            JsonValue::Str(s) => {
                let ghost before = out@;
                out.push(s.clone());
                assert(views_of(out@) =~= views_of(before).push(s@));
            },
            _ => {
                proof {
                    lemma_string_items_prefix(items@, i as int + 1);
                }
                return None;
            },
        }
        i = i + 1;
    }
    assert(items@.take(i as int) =~= items@);
    Some(out)
}

/// When a prefix of a list is not all strings, neither is the list.
pub proof fn lemma_string_items_prefix(items: Seq<JsonValue>, n: int)
    requires
        0 <= n <= items.len(),
        string_items(items.take(n)) is None,
    ensures
        string_items(items) is None,
    decreases items.len() - n,
{
    if n < items.len() {
        assert(items.take(n + 1).drop_last() =~= items.take(n));
        lemma_string_items_prefix(items, n + 1);
    } else {
        assert(items.take(n) =~= items);
    }
}

} // verus!
