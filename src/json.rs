//! Pretty-printing of JSON text, and reading a field out of a JSON response.
//!
//! Values are compared as JSON values: two values are equal when they hold
//! the same data, in the same order.
use serde_json::{Error, Value};
use vstd::prelude::*;

use crate::text::{blank, is_blank};

verus! {

#[verifier::external_type_specification]
#[verifier::external_body]
pub struct ExJsonValue(Value);

#[verifier::external_type_specification]
#[verifier::external_body]
pub struct ExJsonError(Error);

/// What `serde_json::from_str::<Value>` returns for `s`: the value, or `None` on an error.
pub uninterp spec fn json_parsed(s: Seq<char>) -> Option<Value>;

/// What `serde_json::to_string_pretty` returns for `v`: the text, or `None` on an error.
pub uninterp spec fn json_pretty(v: Value) -> Option<Seq<char>>;

/// Relies on `serde_json::from_str::<Value>`. Whitespace alone is no JSON
/// value. With the `float_roundtrip` and `preserve_order` features, the
/// pretty text of a value that was read from some text reads back as that
/// value (numbers exactly, object keys in their order).
#[verifier::external_body]
fn parse_value(s: &str) -> (r: Result<Value, Error>)
    ensures
        r is Ok <==> json_parsed(s@) is Some,
        r is Ok ==> json_parsed(s@) == Some(r->Ok_0),
        is_blank(s@) ==> r is Err,
        forall|x: Seq<char>, v: Value|
            json_parsed(x) == Some(v) && json_pretty(v) == Some(s@) ==> r is Ok && r->Ok_0 == v,
{
    serde_json::from_str::<Value>(s)
}

/// Relies on `serde_json::to_string_pretty`, which indents by two spaces and
/// keeps the order of object keys. It fails only on a failing `Serialize`
/// impl or a map with non-string keys, and a `Value` has neither. Every JSON
/// text holds a non-whitespace character. With the `float_roundtrip` and
/// `preserve_order` features, the text of a value that was read from some
/// text reads back as that value.
#[verifier::external_body]
fn pretty_text(v: &Value) -> (r: Result<String, Error>)
    ensures
        r is Ok,
        json_pretty(*v) == Some(r->Ok_0@),
        !is_blank(r->Ok_0@),
        forall|x: Seq<char>|
            #![trigger json_parsed(x)]
            json_parsed(x) == Some(*v) ==> json_parsed(r->Ok_0@) == Some(*v),
{
    serde_json::to_string_pretty(v)
}

/// A failure of `format`.
#[derive(Debug)]
pub enum JsonError {
    /// The input is not JSON; the error tells where.
    Parse(Error),
    /// The value could not be written back.
    Formatting(Error),
}

/// The outcome of `format` on `s`: empty for a blank `s`, else the pretty
/// text of the value that `s` holds; `None` when either step fails.
pub open spec fn formatted(s: Seq<char>) -> Option<Seq<char>> {
    if is_blank(s) {
        Some(seq![])
    } else {
        match json_parsed(s) {
            Some(v) => json_pretty(v),
            None => None,
        }
    }
}

/// A non-blank text that `format` returned for `x` is the pretty text of
/// the value read from `x`.
proof fn lemma_formatted_from(x: Seq<char>, t: Seq<char>)
    requires
        formatted(x) == Some(t),
        !is_blank(t),
    ensures
        json_parsed(x) is Some,
        json_pretty(json_parsed(x)->0) == Some(t),
{
    if is_blank(x) {
        assert(t.len() == 0);
    }
}

/// Reads `text` as JSON and writes it back pretty-printed, object keys in
/// their order. A blank text gives an empty result. The result reads back
/// as the value that `text` holds, and a text that `format` returned for
/// some input is returned unchanged.
pub fn format(text: &str) -> (r: Result<String, JsonError>)
    ensures
        r is Ok <==> formatted(text@) is Some,
        r is Ok ==> formatted(text@) == Some(r->Ok_0@),
        r matches Err(JsonError::Parse(_)) <==> (!is_blank(text@) && json_parsed(text@) is None),
        json_parsed(text@) is Some ==> r is Ok,
        r is Ok && !is_blank(text@) ==> !is_blank(r->Ok_0@),
        r is Ok && !is_blank(text@) ==> json_parsed(r->Ok_0@) == json_parsed(text@),
        forall|x: Seq<char>|
            formatted(x) == Some(text@) && !is_blank(text@) ==> r is Ok && r->Ok_0@ == text@,
{
    if blank(text) {
        return Ok(String::new());
    }
    let parsed = parse_value(text);
    proof {
        assert forall|x: Seq<char>| formatted(x) == Some(text@) implies (parsed is Ok
            && json_pretty(parsed->Ok_0) == Some(text@)) by {
            lemma_formatted_from(x, text@);
            let w = json_parsed(x)->0;
            assert(json_parsed(x) == Some(w) && json_pretty(w) == Some(text@));
        }
    }
    match parsed {
        Ok(v) => match pretty_text(&v) {
            Ok(t) => {
                assert(json_parsed(text@) == Some(v));
                Ok(t)
            },
            Err(e) => Err(JsonError::Formatting(e)),
        },
        Err(e) => Err(JsonError::Parse(e)),
    }
}

/// What `Value::get` with an index returns for `v`: the item of an array, if any.
pub uninterp spec fn json_item(v: Value, i: nat) -> Option<Value>;

/// What `Value::get` with a key returns for `v`: the field of an object, if any.
pub uninterp spec fn json_field(v: Value, key: Seq<char>) -> Option<Value>;

/// What `Value::as_str` returns for `v`: the text of a JSON string, if it is one.
pub uninterp spec fn json_str(v: Value) -> Option<Seq<char>>;

/// Relies on `Value::get` with a `usize`.
#[verifier::external_body]
fn item_at<'a>(v: &'a Value, i: usize) -> (r: Option<&'a Value>)
    ensures
        r is Some <==> json_item(*v, i as nat) is Some,
        r is Some ==> json_item(*v, i as nat) == Some(*r->0),
{
    v.get(i)
}

/// Relies on `Value::get` with a `&str`.
#[verifier::external_body]
fn field_of<'a>(v: &'a Value, key: &str) -> (r: Option<&'a Value>)
    ensures
        r is Some <==> json_field(*v, key@) is Some,
        r is Some ==> json_field(*v, key@) == Some(*r->0),
{
    v.get(key)
}

/// Relies on `Value::as_str`.
#[verifier::external_body]
fn str_of(v: &Value) -> (r: Option<String>)
    ensures
        r is Some <==> json_str(*v) is Some,
        r is Some ==> json_str(*v) == Some(r->0@),
{
    v.as_str().map(String::from)
}

/// A failure to find an image address in a response.
#[derive(Debug)]
pub enum CatError {
    /// The request did not complete; the reason, as the transport gave it.
    Network(String),
    /// The response is not JSON.
    Parse(Error),
    /// The response holds no `url` text in its first item.
    NotFound,
}

/// The `url` text of the first item of the array `v`, if there is one.
pub open spec fn first_url(v: Value) -> Option<Seq<char>> {
    match json_item(v, 0) {
        Some(first) => match json_field(first, "url"@) {
            Some(u) => json_str(u),
            None => None,
        },
        None => None,
    }
}

/// The image address in the JSON body of a reply of the cat image service:
/// the `url` text of the first item of the array it holds.
pub fn cat_url_from_response(body: &str) -> (r: Result<String, CatError>)
    ensures
        r matches Err(CatError::Parse(_)) <==> json_parsed(body@) is None,
        r is Ok <==> (json_parsed(body@) matches Some(v) && first_url(v) is Some),
        r is Ok ==> first_url(json_parsed(body@)->0) == Some(r->Ok_0@),
        !(r matches Err(CatError::Network(_))),
{
    let v = match parse_value(body) {
        Ok(v) => v,
        Err(e) => return Err(CatError::Parse(e)),
    };
    let first = match item_at(&v, 0) {
        Some(first) => first,
        None => return Err(CatError::NotFound),
    };
    let url = match field_of(first, "url") {
        Some(u) => u,
        None => return Err(CatError::NotFound),
    };
    match str_of(url) {
        Some(s) => Ok(s),
        None => Err(CatError::NotFound),
    }
}

} // verus!
