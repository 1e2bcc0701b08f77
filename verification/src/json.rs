//! JSON values: what they hold, and the calls into `serde_json` that make, print and read them.
use serde_json::Value;
use vstd::prelude::*;

use crate::text::{concat3, opt_text};

verus! {

/// A JSON value.
#[verifier::external_type_specification]
#[verifier::external_body]
pub struct ExValue(serde_json::Value);

/// What a JSON value holds. A number that is no integer is held by the text that it prints as.
#[verifier::ext_equal]
pub enum Json {
    Null,
    Bool(bool),
    Integer(int),
    Real(Seq<char>),
    Text(Seq<char>),
    Array(Seq<Json>),
    Object(Map<Seq<char>, Json>),
}

/// What the given value holds.
pub uninterp spec fn json_of(value: Value) -> Json;

/// What `serde_json::to_string_pretty` makes of a value that holds `json`.
pub uninterp spec fn pretty(json: Json) -> Seq<char>;

/// The string that `serde_json::from_str` reads from `text`, where it holds one JSON string and
/// nothing else but white space around it.
pub uninterp spec fn json_string(text: Seq<char>) -> Option<Seq<char>>;

/// What a sequence of values holds.
pub open spec fn jsons(values: Seq<Value>) -> Seq<Json> {
    Seq::new(values.len(), |i: int| json_of(values[i]))
}

/// `object` with `json` under `key`, in place of what may have been there.
pub open spec fn with_entry(object: Json, key: Seq<char>, json: Json) -> Json {
    Json::Object(object->Object_0.insert(key, json))
}

/// `s` between double quotes.
pub open spec fn quoted(s: Seq<char>) -> Seq<char> {
    "\""@ + s + "\""@
}

/// Whether a character stands for itself between the quotes of a JSON string.
pub open spec fn is_plain(c: char) -> bool {
    c != '"' && c != '\\' && c as u32 >= 0x20
}

/// Whether `text` is a JSON string without escapes.
pub open spec fn is_plain_string(text: Seq<char>) -> bool {
    &&& text.len() >= 2
    &&& text[0] == '"'
    &&& text.last() == '"'
    &&& forall|i: int| 0 < i < text.len() - 1 ==> is_plain(#[trigger] text[i])
}

/// The string that `s` is between the quotes of a JSON string. Without a backslash it is read as
/// it stands, or not at all.
pub open spec fn unescaped(s: Seq<char>) -> Option<Seq<char>> {
    if s.contains('\\') {
        json_string(quoted(s))
    } else if forall|i: int| 0 <= i < s.len() ==> is_plain(#[trigger] s[i]) {
        Some(s)
    } else {
        None
    }
}

/// `Value::from` on a string slice: a JSON string that holds it.
#[verifier::external_body]
pub(crate) fn string_value(s: &str) -> (r: Value)
    ensures
        json_of(r) == Json::Text(s@),
{
    Value::from(s)
}

/// `Value::from` on a `bool`: that JSON literal.
#[verifier::external_body]
pub(crate) fn bool_value(b: bool) -> (r: Value)
    ensures
        json_of(r) == Json::Bool(b),
{
    Value::from(b)
}

/// `Value::from` on a `u64`: that JSON number.
#[verifier::external_body]
pub(crate) fn number_value(n: u64) -> (r: Value)
    ensures
        json_of(r) == Json::Integer(n as int),
{
    Value::from(n)
}

/// `Value::from` on a vector of values: the JSON array of them, in their order.
#[verifier::external_body]
pub(crate) fn array_value(items: Vec<Value>) -> (r: Value)
    ensures
        json_of(r) == Json::Array(jsons(items@)),
{
    Value::from(items)
}

/// `Value::from` on a new `serde_json::Map`: the JSON object without entries.
#[verifier::external_body]
pub(crate) fn object_value() -> (r: Value)
    ensures
        json_of(r) == Json::Object(Map::empty()),
{
    Value::from(serde_json::Map::new())
}

/// `serde_json::Map::insert` on the entries of an object: the entry is there afterwards, in place
/// of one under the same key, and the others are as they were.
#[verifier::external_body]
pub(crate) fn insert_entry(object: &mut Value, key: &str, item: Value)
    requires
        json_of(*old(object)) is Object,
    ensures
        json_of(*final(object)) == with_entry(json_of(*old(object)), key@, json_of(item)),
{
    object.as_object_mut().unwrap().insert(key.to_string(), item);
}

/// `serde_json::to_string_pretty` on a value: it always succeeds, as a value has only strings for
/// keys and a string takes all that is written to it, and what it prints depends on what the
/// value holds alone, as the entries of an object are kept in the order of their keys. An error
/// would be handed on as the text that it prints as.
#[verifier::external_body]
pub(crate) fn to_string_pretty(value: &Value) -> (r: Result<String, String>)
    ensures
        r is Ok,
        r->Ok_0@ == pretty(json_of(*value)),
{
    serde_json::to_string_pretty(value).map_err(|e| e.to_string())
}

/// `serde_json::from_str` for a string: the result depends on the text alone. A text between
/// quotes that has no backslash is read as it stands, unless it holds a quote or a control
/// character, where it is refused.
#[verifier::external_body]
fn read_string(text: &str) -> (r: Option<String>)
    ensures
        opt_text(r) == json_string(text@),
        is_plain_string(text@) ==> r is Some && r->0@ == text@.subrange(1, text@.len() - 1),
        text@.len() >= 2 && text@[0] == '"' && text@.last() == '"' && !text@.contains('\\')
            && !is_plain_string(text@) ==> r is None,
{
    serde_json::from_str::<String>(text).ok()
}

/// Reads `s` as if it stood between the quotes of a JSON string.
pub fn unescape(s: &str) -> (r: Option<String>)
    ensures
        opt_text(r) == unescaped(s@),
{
    let text: String = concat3("\"", s, "\"");
    proof {
        reveal_strlit("\"");
        let t = text@;
        assert(t.len() == s@.len() + 2);
        assert(t[0] == '"' && t.last() == '"');
        assert forall|i: int| 0 < i < t.len() - 1 implies t[i] == s@[i - 1] by {}
        assert(t.subrange(1, t.len() - 1) =~= s@);
        if t.contains('\\') {
            let i = choose|i: int| 0 <= i < t.len() && t[i] == '\\';
            assert(s@[i - 1] == '\\');
        }
        if is_plain_string(t) {
            assert forall|i: int| 0 <= i < s@.len() implies is_plain(#[trigger] s@[i]) by {
                assert(t[i + 1] == s@[i]);
            }
            if s@.contains('\\') {
                let i = choose|i: int| 0 <= i < s@.len() && s@[i] == '\\';
                assert(is_plain(s@[i]));
            }
        }
    }
    read_string(text.as_str())
}

/// A text in which every character stands for itself is read as it stands. One with a quote or a
/// control character, and no backslash, is not read at all; one with a backslash is read by the
/// rules for JSON strings.
pub proof fn law_unescaped(s: Seq<char>)
    ensures
        s.contains('\\') ==> unescaped(s) == json_string(seq!['"'] + s + seq!['"']),
        !s.contains('\\') && !s.contains('"') && (forall|i: int|
            0 <= i < s.len() ==> (#[trigger] s[i]) as u32 >= 0x20) ==> unescaped(s) == Some(s),
        !s.contains('\\') && (s.contains('"') || exists|i: int|
            0 <= i < s.len() && ((#[trigger] s[i]) as u32) < 0x20) ==> unescaped(s) is None,
{
    reveal_strlit("\"");
    assert("\""@ =~= seq!['"']);
    if !s.contains('\\') && s.contains('"') {
        let i = choose|i: int| 0 <= i < s.len() && s[i] == '"';
        assert(!is_plain(s[i]));
    }
    if exists|i: int| 0 <= i < s.len() && ((#[trigger] s[i]) as u32) < 0x20 {
        let i = choose|i: int| 0 <= i < s.len() && ((#[trigger] s[i]) as u32) < 0x20;
        assert(!is_plain(s[i]));
    }
}

/// An object with an entry more has that entry, in place of one under the same key, and its other
/// entries as they were.
pub proof fn law_with_entry(
    entries: Map<Seq<char>, Json>,
    key: Seq<char>,
    other: Seq<char>,
    json: Json,
)
    ensures
        with_entry(Json::Object(entries), key, json) matches Json::Object(after) && {
            &&& after.dom().contains(key) && after[key] == json
            &&& other != key ==> (after.dom().contains(other) <==> entries.dom().contains(other))
            &&& other != key && entries.dom().contains(other) ==> after[other] == entries[other]
        },
{
}

/// A list of values holds what they hold, in the same order.
pub proof fn law_jsons(values: Seq<Value>)
    ensures
        jsons(values).len() == values.len(),
        forall|i: int| 0 <= i < values.len() ==> #[trigger] jsons(values)[i] == json_of(values[i]),
{
}

} // verus!
