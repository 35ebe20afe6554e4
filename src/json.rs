use vstd::prelude::*;

use crate::error::LibError;
use crate::response::{Body, HttpResponse, HttpResponseBuilder};

verus! {

#[verifier::external_type_specification]
#[verifier::external_body]
pub struct ExJsonValue(serde_json::Value);

/// The JSON text that serde_json writes for a value.
pub uninterp spec fn json_text_of(v: serde_json::Value) -> Seq<u8>;

/// The value that serde_json reads from a text, or `None` when the bytes are
/// no JSON text.
pub uninterp spec fn json_decode_of(b: Seq<u8>) -> Option<serde_json::Value>;

/// The member `key` of a JSON value, if it is an object that has one.
pub uninterp spec fn member_of(v: serde_json::Value, key: Seq<char>) -> Option<serde_json::Value>;

/// The text of a JSON value, if it is a string.
pub uninterp spec fn text_of(v: serde_json::Value) -> Option<Seq<char>>;

/// The text of the string member `key` of a JSON value; `None` when the
/// value is no object, has no such member, or the member is no string.
pub open spec fn string_member_of(v: serde_json::Value, key: Seq<char>) -> Option<Seq<char>> {
    match member_of(v, key) {
        Some(m) => text_of(m),
        None => None,
    }
}

/// Relies on `serde_json::to_vec`: the JSON text of a value. It writes into
/// a `Vec`, and a `Value` has string keys only, so it does not fail.
#[verifier::external_body]
pub(crate) fn encode_json(value: &serde_json::Value) -> (r: Result<Vec<u8>, serde_json::Error>)
    ensures
        r is Ok,
        r->Ok_0@ == json_text_of(*value),
{
    serde_json::to_vec(value)
}

/// Relies on `serde_json::from_slice`: the value that a JSON text denotes,
/// or the decoder's error when the bytes are no JSON text.
#[verifier::external_body]
fn decode_json_value(bytes: &[u8]) -> (r: Result<serde_json::Value, serde_json::Error>)
    ensures
        r is Ok <==> json_decode_of(bytes@) is Some,
        r is Ok ==> r->Ok_0 == json_decode_of(bytes@)->0,
{
    serde_json::from_slice::<serde_json::Value>(bytes)
}

/// Relies on `serde_json::Value::get`: the member `key` of an object, if the
/// value is an object that has one.
#[verifier::external_body]
fn object_member<'a>(value: &'a serde_json::Value, key: &str) -> (r: Option<&'a serde_json::Value>)
    ensures
        r is Some <==> member_of(*value, key@) is Some,
        r is Some ==> *r->0 == member_of(*value, key@)->0,
{
    value.get(key)
}

/// Relies on `serde_json::Value::as_str`: the text of a string value.
#[verifier::external_body]
fn string_text(value: &serde_json::Value) -> (r: Option<&str>)
    ensures
        r is Some <==> text_of(*value) is Some,
        r is Some ==> r->0@ == text_of(*value)->0,
{
    value.as_str()
}

/// Decodes a request payload as JSON; bytes that are no JSON text give a
/// `JsonParseError`.
pub fn decode_json(bytes: &[u8]) -> (r: Result<serde_json::Value, LibError>)
    ensures
        r is Ok <==> json_decode_of(bytes@) is Some,
        r is Ok ==> r->Ok_0 == json_decode_of(bytes@)->0,
        r is Err ==> r->Err_0 is JsonParseError,
{
    match decode_json_value(bytes) {
        Ok(v) => Ok(v),
        Err(e) => Err(LibError::JsonParseError(e)),
    }
}

/// The text of the string member `key` of a JSON object; `None` when the
/// value is no object, has no such member, or the member is no string.
pub fn string_member(value: &serde_json::Value, key: &str) -> (r: Option<String>)
    ensures
        r is Some <==> string_member_of(*value, key@) is Some,
        r is Some ==> r->0@ == string_member_of(*value, key@)->0,
{
    match object_member(value, key) {
        Some(m) => match string_text(m) {
            Some(s) => Some(s.to_owned()),
            None => None,
        },
        None => None,
    }
}

impl HttpResponseBuilder {
    /// Finishes the response with the JSON encoding of `value` as its body;
    /// the content-type header is set to `application/json`, whatever it was.
    pub fn json(self, value: &serde_json::Value) -> (r: Result<HttpResponse, LibError>)
        ensures
            r is Ok,
            ({
                let resp = r->Ok_0;
                &&& resp.status == self.spec_status()
                &&& resp.spec_headers() == crate::response::with_header(
                    self.spec_headers(),
                    crate::response::content_type_name(),
                    crate::response::json_media_type(),
                )
                &&& (resp.body matches Body::Full(b) && b@ == json_text_of(*value))
            }),
    {
        let encoded = encode_json(value);
        self.json_encoded(encoded)
    }
}

/// A response with status 200 whose body is the JSON encoding of `value`.
pub fn json_response(value: &serde_json::Value) -> (r: Result<HttpResponse, LibError>)
    ensures
        r is Ok,
        ({
            let resp = r->Ok_0;
            &&& resp.status == 200
            &&& resp.spec_headers() == seq![
                (crate::response::content_type_name(), crate::response::json_media_type()),
            ]
            &&& (resp.body matches Body::Full(b) && b@ == json_text_of(*value))
        }),
{
    let r = HttpResponse::builder().json(value);
    proof {
        let e = Seq::<(Seq<u8>, Seq<u8>)>::empty();
        assert(crate::response::without_name(e, crate::response::content_type_name()) == e);
        assert(e.push((crate::response::content_type_name(), crate::response::json_media_type()))
            =~= seq![(crate::response::content_type_name(), crate::response::json_media_type())]);
    }
    r
}

} // verus!
