//! JSON encoding of plain values, and JSON documents read, through `serde_json`.
use serde_json::Value as SerdeValue;
use vstd::prelude::*;
use crate::text::texts;

verus! {

/// A lower-case hexadecimal digit.
pub open spec fn hex_digit_lower(n: u32) -> char {
    if n < 10 {
        (48 + n) as char
    } else {
        (87 + n) as char
    }
}

/// How `serde_json` writes one character inside a string literal: a quote
/// and a backslash escaped with a backslash; backspace, tab, line feed,
/// form feed and carriage return as `\b`, `\t`, `\n`, `\f`, `\r`; any other
/// character below `0x20` as `\u00` and two lower-case hex digits; every
/// other character as it is.
pub open spec fn json_char(c: char) -> Seq<char> {
    if c == '"' {
        seq!['\\', '"']
    } else if c == '\\' {
        seq!['\\', '\\']
    } else if c == '\u{8}' {
        seq!['\\', 'b']
    } else if c == '\t' {
        seq!['\\', 't']
    } else if c == '\n' {
        seq!['\\', 'n']
    } else if c == '\u{c}' {
        seq!['\\', 'f']
    } else if c == '\r' {
        seq!['\\', 'r']
    } else if (c as u32) < 0x20 {
        seq!['\\', 'u', '0', '0', hex_digit_lower((c as u32) / 16), hex_digit_lower((c as u32) % 16)]
    } else {
        seq![c]
    }
}

/// The characters of a text escaped as `serde_json` escapes them.
pub open spec fn json_escaped(s: Seq<char>) -> Seq<char>
    decreases s.len(),
{
    if s.len() == 0 {
        seq![]
    } else {
        json_escaped(s.drop_last()) + json_char(s.last())
    }
}

/// A JSON string literal: the escaped text between double quotes.
pub open spec fn json_quoted(s: Seq<char>) -> Seq<char> {
    seq!['"'] + json_escaped(s) + seq!['"']
}

/// Texts separated by commas.
pub open spec fn comma_joined(parts: Seq<Seq<char>>) -> Seq<char>
    decreases parts.len(),
{
    if parts.len() == 0 {
        seq![]
    } else if parts.len() == 1 {
        parts[0]
    } else {
        comma_joined(parts.drop_last()) + seq![','] + parts.last()
    }
}

/// What `serde_json::to_string` returns for a list of strings: a JSON
/// array of string literals, without spaces.
pub open spec fn json_string_list(items: Seq<Seq<char>>) -> Seq<char> {
    seq!['['] + comma_joined(items.map_values(|s: Seq<char>| json_quoted(s))) + seq![']']
}

/// Calls `serde_json::to_string` on a list of strings. Serialising a
/// `Vec<String>` cannot fail; the compact formatter writes the array as
/// `json_string_list` spells it out.
#[verifier::external_body]
pub(crate) fn to_json_string_list(items: &Vec<String>) -> (r: String)
    ensures
        r@ == json_string_list(texts(items@)),
{
    serde_json::to_string(items).unwrap_or_default()
}

/// What `serde_json::to_string` returns for a string-to-string map with
/// these entries (a JSON object).
pub uninterp spec fn json_string_map(entries: Seq<(Seq<char>, Seq<char>)>) -> Seq<char>;

/// Calls `serde_json::to_string` on a `serde_json::Map` holding the entries
/// as strings. Serialising such a map cannot fail; the text is named
/// `json_string_map`.
#[verifier::external_body]
pub(crate) fn to_json_string_map(entries: &Vec<(String, String)>) -> (r: String)
    ensures
        r@ == json_string_map(crate::observation::meta_texts(entries@)),
{
    let mut map = serde_json::Map::new();
    for (k, v) in entries {
        map.insert(k.clone(), SerdeValue::String(v.clone()));
    }
    serde_json::to_string(&map).unwrap_or_default()
}

/// The texts of a list of string triples.
pub open spec fn triple_texts(v: Seq<(String, String, String)>) -> Seq<(Seq<char>, Seq<char>, Seq<char>)> {
    v.map_values(|t: (String, String, String)| (t.0@, t.1@, t.2@))
}

/// What `serde_json::to_string` returns for a list of JSON objects, each
/// with the string members `source`, `target` and `name` of one triple.
pub uninterp spec fn json_arrow_list(items: Seq<(Seq<char>, Seq<char>, Seq<char>)>) -> Seq<char>;

/// Calls `serde_json::to_string` on the list of objects
/// `{"source", "target", "name"}` built from the triples. Serialising string
/// members cannot fail; the text is named `json_arrow_list`.
#[verifier::external_body]
pub(crate) fn to_json_arrows(items: &Vec<(String, String, String)>) -> (r: String)
    ensures
        r@ == json_arrow_list(triple_texts(items@)),
{
    let mut list: Vec<SerdeValue> = Vec::new();
    for (s, t, n) in items {
        let mut m = serde_json::Map::new();
        m.insert("source".to_string(), SerdeValue::String(s.clone()));
        m.insert("target".to_string(), SerdeValue::String(t.clone()));
        m.insert("name".to_string(), SerdeValue::String(n.clone()));
        list.push(SerdeValue::Object(m));
    }
    serde_json::to_string(&list).unwrap_or_default()
}

/// What `serde_json::to_string` returns for a list of string pairs: a JSON
/// array of two-element arrays of string literals, without spaces.
pub open spec fn json_pair_list(items: Seq<(Seq<char>, Seq<char>)>) -> Seq<char> {
    seq!['['] + comma_joined(
        items.map_values(|p: (Seq<char>, Seq<char>)| seq!['['] + json_quoted(p.0) + seq![','] + json_quoted(p.1) + seq![']']),
    ) + seq![']']
}

/// Calls `serde_json::to_string` on a list of string pairs. Serialising
/// strings cannot fail; the compact formatter writes the array as
/// `json_pair_list` spells it out.
#[verifier::external_body]
pub(crate) fn to_json_pairs(items: &Vec<(String, String)>) -> (r: String)
    ensures
        r@ == json_pair_list(crate::observation::meta_texts(items@)),
{
    serde_json::to_string(items).unwrap_or_default()
}

/// Events as numbers and texts: position, kind, label.
pub open spec fn event_texts(v: Seq<(usize, String, String)>) -> Seq<(nat, Seq<char>, Seq<char>)> {
    v.map_values(|t: (usize, String, String)| (t.0 as nat, t.1@, t.2@))
}

/// What `serde_json::to_string` returns for a list of JSON objects, each
/// with the number member `position` and the string members `kind` and
/// `label` of one event.
pub uninterp spec fn json_event_list(items: Seq<(nat, Seq<char>, Seq<char>)>) -> Seq<char>;

/// Calls `serde_json::to_string` on the list of objects
/// `{"position", "kind", "label"}` built from the events. Serialising
/// numbers and strings cannot fail; the text is named `json_event_list`.
#[verifier::external_body]
pub(crate) fn to_json_events(items: &Vec<(usize, String, String)>) -> (r: String)
    ensures
        r@ == json_event_list(event_texts(items@)),
{
    let mut list: Vec<SerdeValue> = Vec::new();
    for (p, k, l) in items {
        let mut m = serde_json::Map::new();
        m.insert("position".to_string(), SerdeValue::from(*p));
        m.insert("kind".to_string(), SerdeValue::String(k.clone()));
        m.insert("label".to_string(), SerdeValue::String(l.clone()));
        list.push(SerdeValue::Object(m));
    }
    serde_json::to_string(&list).unwrap_or_default()
}

/// Spans as a text and numbers: byte, first position, last position, span.
pub open spec fn span_texts(v: Seq<(String, usize, usize, usize)>) -> Seq<(Seq<char>, nat, nat, nat)> {
    v.map_values(|t: (String, usize, usize, usize)| (t.0@, t.1 as nat, t.2 as nat, t.3 as nat))
}

/// What `serde_json::to_string` returns for a list of JSON objects, each
/// with the string member `byte` and the number members `first_at`,
/// `last_at` and `span` of one entry.
pub uninterp spec fn json_span_list(items: Seq<(Seq<char>, nat, nat, nat)>) -> Seq<char>;

/// Calls `serde_json::to_string` on the list of objects
/// `{"byte", "first_at", "last_at", "span"}` built from the entries.
/// Serialising numbers and strings cannot fail; the text is named
/// `json_span_list`.
#[verifier::external_body]
pub(crate) fn to_json_spans(items: &Vec<(String, usize, usize, usize)>) -> (r: String)
    ensures
        r@ == json_span_list(span_texts(items@)),
{
    let mut list: Vec<SerdeValue> = Vec::new();
    for (b, f, l, s) in items {
        let mut m = serde_json::Map::new();
        m.insert("byte".to_string(), SerdeValue::String(b.clone()));
        m.insert("first_at".to_string(), SerdeValue::from(*f));
        m.insert("last_at".to_string(), SerdeValue::from(*l));
        m.insert("span".to_string(), SerdeValue::from(*s));
        list.push(SerdeValue::Object(m));
    }
    serde_json::to_string(&list).unwrap_or_default()
}

/// `serde_json::Value`, the document type that `serde_json::from_str` builds.
#[verifier::external_type_specification]
#[verifier::external_body]
pub struct ExJsonValue(SerdeValue);

/// A JSON document as the library reads it: a number is held by its `u64`
/// value where it has one (`Number::as_u64`), an object by its entries in
/// the order `serde_json::Map` keeps them.
#[derive(Debug)]
pub enum JsonValue {
    Null,
    Bool(bool),
    Number(Option<u64>),
    Text(String),
    Array(Vec<JsonValue>),
    Object(Vec<(String, JsonValue)>),
}

/// What `serde_json::from_str` makes of a text, converted to [`JsonValue`]:
/// `None` where the text is not one JSON document.
pub uninterp spec fn json_parse(text: Seq<char>) -> Option<JsonValue>;

/// Calls `serde_json::from_str::<serde_json::Value>` and converts the
/// document; a parse error gives `None`. The result is named `json_parse`.
#[verifier::external_body]
pub(crate) fn parse_json(text: &str) -> (r: Option<JsonValue>)
    ensures
        r == json_parse(text@),
{
    match serde_json::from_str::<SerdeValue>(text) {
        Ok(v) => Some(json_value_from(v)),
        Err(_) => None,
    }
}

/// What `serde_json::from_slice::<serde_json::Value>` makes of bytes: the
/// document, converted to [`JsonValue`], or the message of the error.
pub uninterp spec fn json_read(data: Seq<u8>) -> Result<JsonValue, Seq<char>>;

/// Calls `serde_json::from_slice::<serde_json::Value>` and converts the
/// document; an error gives its message (`Display`). The outcome is named
/// `json_read`.
#[verifier::external_body]
pub(crate) fn read_json(data: &[u8]) -> (r: Result<JsonValue, String>)
    ensures
        match r {
            Ok(v) => json_read(data@) == Ok::<JsonValue, Seq<char>>(v),
            Err(m) => json_read(data@) == Err::<JsonValue, Seq<char>>(m@),
        },
{
    match serde_json::from_slice::<SerdeValue>(data) {
        Ok(v) => Ok(json_value_from(v)),
        Err(e) => Err(e.to_string()),
    }
}

/// A JSON scalar that a one-member object can hold.
#[derive(Debug, Clone, Copy, PartialEq, Eq, Structural)]
pub enum JsonScalar {
    Bool(bool),
    Unsigned(u64),
}

/// What `serde_json::to_vec` returns for an object with the one member
/// `key` holding `value`.
pub uninterp spec fn json_member_object(key: Seq<char>, value: JsonScalar) -> Seq<u8>;

/// Calls `serde_json::to_vec` on the object `{key: value}`. Serialising a
/// boolean or an unsigned number cannot fail; the bytes are named
/// `json_member_object`.
#[verifier::external_body]
pub(crate) fn to_json_member_object(key: &str, value: JsonScalar) -> (r: Vec<u8>)
    ensures
        r@ == json_member_object(key@, value),
{
    let v = match value {
        JsonScalar::Bool(b) => SerdeValue::Bool(b),
        JsonScalar::Unsigned(n) => SerdeValue::from(n),
    };
    let mut m = serde_json::Map::new();
    m.insert(key.to_string(), v);
    serde_json::to_vec(&SerdeValue::Object(m)).unwrap_or_default()
}

/// Converts a `serde_json::Value` variant by variant (one arm each), keeping
/// a number's `Number::as_u64`.
#[verifier::external_body]
fn json_value_from(v: SerdeValue) -> JsonValue {
    match v {
        SerdeValue::Null => JsonValue::Null,
        SerdeValue::Bool(b) => JsonValue::Bool(b),
        SerdeValue::Number(n) => JsonValue::Number(n.as_u64()),
        SerdeValue::String(s) => JsonValue::Text(s),
        SerdeValue::Array(a) => JsonValue::Array(a.into_iter().map(json_value_from).collect()),
        SerdeValue::Object(o) => JsonValue::Object(o.into_iter().map(|(k, e)| (k, json_value_from(e))).collect()),
    }
}

/// Index of the first entry with key `k`.
pub open spec fn entry_index(es: Seq<(String, JsonValue)>, k: Seq<char>) -> Option<int>
    decreases es.len(),
{
    if es.len() == 0 {
        None
    } else {
        match entry_index(es.drop_last(), k) {
            Some(i) => Some(i),
            None => if es.last().0@ == k {
                Some(es.len() - 1)
            } else {
                None
            },
        }
    }
}

/// `Value::get` with a key: the member `k` of an object.
pub open spec fn member(v: JsonValue, k: Seq<char>) -> Option<JsonValue> {
    match v {
        JsonValue::Object(es) => match entry_index(es@, k) {
            Some(i) => Some(es@[i].1),
            None => None,
        },
        _ => None,
    }
}

/// `Value::as_str`: the text of a string.
pub open spec fn text_of(v: Option<JsonValue>) -> Option<Seq<char>> {
    match v {
        Some(JsonValue::Text(s)) => Some(s@),
        _ => None,
    }
}

/// `Value::as_u64`: the value of a non-negative integer.
pub open spec fn u64_of(v: Option<JsonValue>) -> Option<u64> {
    match v {
        Some(JsonValue::Number(n)) => n,
        _ => None,
    }
}

proof fn lemma_entry_index_bounds(es: Seq<(String, JsonValue)>, k: Seq<char>)
    ensures
        entry_index(es, k) matches Some(i) ==> 0 <= i < es.len() && es[i].0@ == k,
    decreases es.len(),
{
    if es.len() > 0 {
        lemma_entry_index_bounds(es.drop_last(), k);
    }
}

/// `Value::get` with a key.
pub fn get_member<'a>(v: &'a JsonValue, k: &str) -> (r: Option<&'a JsonValue>)
    ensures
        match member(*v, k@) {
            Some(m) => r matches Some(x) && *x == m,
            None => r is None,
        },
{
    match v {
        JsonValue::Object(es) => {
            assert(*v == JsonValue::Object(*es));
            let mut i: usize = 0;
            while i < es.len()
                invariant
                    i <= es@.len(),
                    *v == JsonValue::Object(*es),
                    entry_index(es@.subrange(0, i as int), k@) is None,
                decreases es@.len() - i,
            {
                assert(es@.subrange(0, i + 1).drop_last() == es@.subrange(0, i as int));
                if crate::text::same_text(es[i].0.as_str(), k) {
                    proof {
                        lemma_entry_index_first(es@, k@, i + 1);
                        assert(member(*v, k@) == Some(es@[i as int].1));
                    }
                    return Some(&es[i].1);
                }
                i += 1;
            }
            assert(es@.subrange(0, es@.len() as int) == es@);
            None
        },
        _ => None,
    }
}

proof fn lemma_entry_index_first(es: Seq<(String, JsonValue)>, k: Seq<char>, n: int)
    requires
        0 < n <= es.len(),
        entry_index(es.subrange(0, n - 1), k) is None,
        es[n - 1].0@ == k,
    ensures
        entry_index(es, k) == Some(n - 1),
    decreases es.len() - n,
{
    assert(es.subrange(0, n).drop_last() == es.subrange(0, n - 1));
    if n < es.len() {
        lemma_entry_index_keep(es, k, n);
    } else {
        assert(es.subrange(0, n) == es);
    }
}

proof fn lemma_entry_index_keep(es: Seq<(String, JsonValue)>, k: Seq<char>, n: int)
    requires
        0 < n <= es.len(),
        entry_index(es.subrange(0, n), k) is Some,
    ensures
        entry_index(es, k) == entry_index(es.subrange(0, n), k),
    decreases es.len() - n,
{
    if n < es.len() {
        assert(es.subrange(0, n + 1).drop_last() == es.subrange(0, n));
        lemma_entry_index_keep(es, k, n + 1);
    } else {
        assert(es.subrange(0, n) == es);
    }
}

/// `Value::as_str`.
pub fn as_text(v: Option<&JsonValue>) -> (r: Option<&str>)
    ensures
        (match r {
            Some(s) => Some(s@),
            None => None,
        }) == text_of(match v {
            Some(x) => Some(*x),
            None => None,
        }),
{
    match v {
        Some(JsonValue::Text(s)) => Some(s.as_str()),
        _ => None,
    }
}

/// `Value::as_u64`.
pub fn as_u64(v: Option<&JsonValue>) -> (r: Option<u64>)
    ensures
        r == u64_of(match v {
            Some(x) => Some(*x),
            None => None,
        }),
{
    match v {
        Some(JsonValue::Number(n)) => *n,
        _ => None,
    }
}

} // verus!
