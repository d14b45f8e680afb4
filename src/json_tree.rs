//! JSON values of the `json` crate, seen through a mathematical tree.

use vstd::prelude::*;
use vstd::utf8::encode_utf8;

verus! {

#[verifier::external_type_specification]
#[verifier::external_body]
pub struct ExJsonValue(json::JsonValue);

#[verifier::external_type_specification]
#[verifier::external_body]
pub struct ExJsonError(json::Error);

/// What a JSON value holds, as far as this library reads it.
pub enum JsonTree {
    Null,
    Boolean(bool),
    /// A number, with the value that `as_u32` reads from it: a non-negative
    /// whole number without exponent that fits in 32 bits.
    Number(Option<u32>),
    Text(Seq<char>),
    Array(Seq<JsonTree>),
    /// An object, by key; a key occurs once.
    Object(Map<Seq<char>, JsonTree>),
}

/// What a `json::JsonValue` holds.
pub uninterp spec fn json_tree(v: json::JsonValue) -> JsonTree;

/// What `json::parse` reads from a text.
pub uninterp spec fn parsed_json(s: Seq<char>) -> Option<JsonTree>;

/// A leaf that is written and read back unchanged: a text, or a number that
/// `as_u32` reads.
pub open spec fn is_plain_leaf(t: JsonTree) -> bool {
    ||| t is Text
    ||| (t is Number && t->Number_0 is Some)
}

/// An array of objects whose entries are plain leaves.
pub open spec fn is_record_list(t: JsonTree) -> bool {
    t matches JsonTree::Array(items) && forall|i: int|
        0 <= i < items.len() ==> (#[trigger] items[i] matches JsonTree::Object(m)
            && forall|k: Seq<char>| #[trigger] m.contains_key(k) ==> is_plain_leaf(m[k]))
}

/// The longest run of digits that the number reader of `json::parse` takes
/// without its decimal exponent, an `i16`, overflowing.
pub const MAX_DIGIT_RUN: u64 = 32_767;

/// Whether a byte is an ASCII digit.
pub open spec fn is_digit_byte(c: u8) -> bool {
    48 <= c <= 57
}

/// Reading `b` from its start: whether it ends inside a string literal,
/// whether just after a backslash in one, and how many digits outside string
/// literals end it.
pub open spec fn lex_state(b: Seq<u8>) -> (bool, bool, nat)
    decreases b.len(),
{
    if b.len() == 0 {
        (false, false, 0)
    } else {
        let prev = lex_state(b.drop_last());
        let c = b.last();
        if prev.0 {
            if prev.1 {
                (true, false, 0)
            } else if c == 92 {
                (true, true, 0)
            } else if c == 34 {
                (false, false, 0)
            } else {
                (true, false, 0)
            }
        } else if c == 34 {
            (true, false, 0)
        } else if is_digit_byte(c) {
            (false, false, prev.2 + 1)
        } else {
            (false, false, 0)
        }
    }
}

/// Whether the text holds, outside string literals, a run of more digits
/// than `MAX_DIGIT_RUN`.
pub open spec fn has_long_digit_run(b: Seq<u8>) -> bool {
    exists|i: int| 0 < i <= b.len() && #[trigger] lex_state(b.take(i)).2 > MAX_DIGIT_RUN
}

/// Whether the UTF-8 text of `s` holds, outside string literals, a run of
/// more digits than `MAX_DIGIT_RUN`.
pub fn scan_long_digit_run(s: &str) -> (r: bool)
    ensures
        r == has_long_digit_run(encode_utf8(s@)),
{
    let b = s.as_bytes();
    let ghost bytes = encode_utf8(s@);
    let mut in_string = false;
    let mut escaped = false;
    let mut run: u64 = 0;
    let mut i: usize = 0;
    while i < b.len()
        invariant
            b@ == bytes,
            bytes == encode_utf8(s@),
            i <= bytes.len(),
            run <= MAX_DIGIT_RUN,
            (in_string, escaped, run as nat) == lex_state(bytes.take(i as int)),
            forall|k: int| 0 < k <= i ==> #[trigger] lex_state(bytes.take(k)).2 <= MAX_DIGIT_RUN,
        decreases bytes.len() - i,
    {
        assert(bytes.take(i + 1).drop_last() == bytes.take(i as int));
        let c = b[i];
        assert(bytes.take(i + 1).last() == c);
        if in_string {
            if escaped {
                escaped = false;
            } else if c == 92 {
                escaped = true;
            } else if c == 34 {
                in_string = false;
            }
        } else if c == 34 {
            in_string = true;
            run = 0;
        } else if 48 <= c && c <= 57 {
            run = run + 1;
        } else {
            run = 0;
        }
        assert((in_string, escaped, run as nat) == lex_state(bytes.take(i + 1)));
        i = i + 1;
        if run > MAX_DIGIT_RUN {
            assert(0 < i <= bytes.len() && lex_state(bytes.take(i as int)).2 > MAX_DIGIT_RUN);
            assert(has_long_digit_run(bytes));
            return true;
        }
    }
    assert(bytes.take(bytes.len() as int) == bytes);
    false
}

/// Relies on `json::parse`: the value that a JSON text denotes, or an error.
/// Its number reader lowers an `i16` exponent by one for each digit after a
/// decimal point while the digits read so far are zero, without an overflow
/// check, so a text with a longer run of digits is left out.
#[verifier::external_body]
pub fn parse(s: &str) -> (r: Result<json::JsonValue, json::Error>)
    requires
        !has_long_digit_run(encode_utf8(s@)),
    ensures
        match r {
            Ok(v) => parsed_json(s@) == Some(json_tree(v)),
            Err(_) => parsed_json(s@) is None,
        },
{
    json::parse(s)
}

/// Relies on `json::JsonValue::dump`: compact JSON text, with keys and strings
/// escaped, which `json::parse` reads back; a whole number that `as_u32` reads
/// is written in decimal, ten digits at most, and read back as the same
/// number; digits elsewhere stand inside string literals.
#[verifier::external_body]
pub fn dump(v: &json::JsonValue) -> (r: String)
    ensures
        is_record_list(json_tree(*v)) ==> parsed_json(r@) == Some(json_tree(*v)),
        is_record_list(json_tree(*v)) ==> !has_long_digit_run(encode_utf8(r@)),
{
    v.dump()
}

/// Relies on `json::JsonValue::new_array`: an empty array.
#[verifier::external_body]
pub fn new_array() -> (r: json::JsonValue)
    ensures
        json_tree(r) == JsonTree::Array(Seq::empty()),
{
    json::JsonValue::new_array()
}

/// Relies on `json::JsonValue::new_object`: an empty object.
#[verifier::external_body]
pub fn new_object() -> (r: json::JsonValue)
    ensures
        json_tree(r) == JsonTree::Object(Map::empty()),
{
    json::JsonValue::new_object()
}

/// Relies on `json::JsonValue::push`: appends to an array; on anything else it
/// fails and changes nothing.
#[verifier::external_body]
pub fn push(a: &mut json::JsonValue, v: json::JsonValue) -> (r: Result<(), json::Error>)
    ensures
        match json_tree(*old(a)) {
            JsonTree::Array(s) => r is Ok && json_tree(*final(a)) == JsonTree::Array(s.push(json_tree(v))),
            _ => r is Err && *final(a) == *old(a),
        },
{
    a.push(v)
}

/// Relies on `json::JsonValue::insert`: adds or overrides an entry of an
/// object; on anything else it fails and changes nothing.
#[verifier::external_body]
pub fn insert(o: &mut json::JsonValue, key: &str, v: json::JsonValue) -> (r: Result<(), json::Error>)
    ensures
        match json_tree(*old(o)) {
            JsonTree::Object(m) => r is Ok && json_tree(*final(o)) == JsonTree::Object(m.insert(key@, json_tree(v))),
            _ => r is Err && *final(o) == *old(o),
        },
{
    o.insert(key, v)
}

/// Relies on `From<u32> for json::JsonValue`: the number `n`.
#[verifier::external_body]
pub fn from_u32(n: u32) -> (r: json::JsonValue)
    ensures
        json_tree(r) == JsonTree::Number(Some(n)),
{
    json::JsonValue::from(n)
}

/// Relies on `From<String> for json::JsonValue`: the string `s`.
#[verifier::external_body]
pub fn from_string(s: String) -> (r: json::JsonValue)
    ensures
        json_tree(r) == JsonTree::Text(s@),
{
    json::JsonValue::from(s)
}

/// Relies on `Index<&str> for json::JsonValue`: the entry of an object under
/// `key`, and null where there is none or the value is no object.
#[verifier::external_body]
pub fn field<'a>(v: &'a json::JsonValue, key: &str) -> (r: &'a json::JsonValue)
    ensures
        json_tree(*r) == (match json_tree(*v) {
            JsonTree::Object(m) => if m.contains_key(key@) { m[key@] } else { JsonTree::Null },
            _ => JsonTree::Null,
        }),
{
    &v[key]
}

/// Relies on `Index<usize> for json::JsonValue`: the element of an array at
/// `i`, and null where there is none or the value is no array.
#[verifier::external_body]
pub fn at(v: &json::JsonValue, i: usize) -> (r: &json::JsonValue)
    ensures
        json_tree(*r) == (match json_tree(*v) {
            JsonTree::Array(s) => if i < s.len() { s[i as int] } else { JsonTree::Null },
            _ => JsonTree::Null,
        }),
{
    &v[i]
}

/// Relies on `json::JsonValue::is_array`: whether the value is an array.
#[verifier::external_body]
pub fn is_array(v: &json::JsonValue) -> (r: bool)
    ensures
        r == (json_tree(*v) is Array),
{
    v.is_array()
}

/// Relies on `json::JsonValue::len`: the length of an array, the number of
/// keys of an object, and 0 for anything else.
#[verifier::external_body]
pub fn len(v: &json::JsonValue) -> (r: usize)
    ensures
        match json_tree(*v) {
            JsonTree::Array(s) => r == s.len(),
            JsonTree::Object(m) => r == m.dom().len(),
            _ => r == 0,
        },
{
    v.len()
}

/// Relies on `json::JsonValue::as_u32`.
#[verifier::external_body]
pub fn as_u32(v: &json::JsonValue) -> (r: Option<u32>)
    ensures
        r == (match json_tree(*v) {
            JsonTree::Number(n) => n,
            _ => None,
        }),
{
    v.as_u32()
}

/// Relies on `json::JsonValue::as_str`: the characters of a string value.
#[verifier::external_body]
pub fn as_str(v: &json::JsonValue) -> (r: Option<&str>)
    ensures
        match json_tree(*v) {
            JsonTree::Text(t) => r is Some && r->Some_0@ == t,
            _ => r is None,
        },
{
    v.as_str()
}

} // verus!
