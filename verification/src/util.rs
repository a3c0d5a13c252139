//! What the library calls but does not implement: three decoders, the
//! upper case of a text, and the clock.
//!
//! Each decoder hands its argument to another crate and says of the result
//! only that it is a function of the argument: that function has a name, and
//! the contracts of the library speak of the name. Of the clock nothing is
//! said at all. Nothing else in the library is taken on trust for these.

use base64::Engine;
use std::io::Read;
use std::time::{SystemTime, UNIX_EPOCH};
use vstd::prelude::*;

verus! {

/// The view of an optional byte vector.
pub open spec fn bytes_view(bytes: Option<Vec<u8>>) -> Option<Seq<u8>> {
    match bytes {
        Some(v) => Some(v@),
        None => None,
    }
}

/// The view of an optional text.
pub open spec fn text_view(text: Option<String>) -> Option<Seq<char>> {
    match text {
        Some(s) => Some(s@),
        None => None,
    }
}

/// The bytes that `text` stands for in base64 (standard alphabet, with
/// padding), or `None` where it is not such a text.
pub uninterp spec fn base64_decoded(text: Seq<char>) -> Option<Seq<u8>>;

/// The content of the gzip member that `bytes` holds, or `None` where they
/// hold none that is whole and sound.
pub uninterp spec fn gzip_inflated(bytes: Seq<u8>) -> Option<Seq<u8>>;

#[verifier::external_type_specification]
#[verifier::external_body]
pub struct ExJsonValue(serde_json::Value);

/// The JSON document that `text` spells, or `None` where it spells none.
pub uninterp spec fn json_document(text: Seq<char>) -> Option<serde_json::Value>;

/// The member `name` of a JSON object, or `None` where the value is no
/// object or has no such member.
pub uninterp spec fn json_member(value: serde_json::Value, name: Seq<char>) -> Option<
    serde_json::Value,
>;

/// The text of a JSON string, or `None` where the value is no string.
pub uninterp spec fn json_text(value: serde_json::Value) -> Option<Seq<char>>;

/// The text of the member `name` of the JSON object that `text` spells, or
/// `None` where `text` spells no document, the document is no object, it
/// has no such member, or the member is no string.
pub open spec fn json_member_text(text: Seq<char>, name: Seq<char>) -> Option<Seq<char>> {
    match json_document(text) {
        Some(document) => match json_member(document, name) {
            Some(member) => json_text(member),
            None => None,
        },
        None => None,
    }
}

/// `text` in upper case, by the Unicode rules.
pub uninterp spec fn uppercased(text: Seq<char>) -> Seq<char>;

/// Decodes base64 with `base64::engine::general_purpose::STANDARD`
/// (`Engine::decode`). An error of the decoder becomes `None`. The contract
/// claims only that equal texts decode alike.
#[verifier::external_body]
pub fn decode_base64(b64: &str) -> (r: Option<Vec<u8>>)
    ensures
        bytes_view(r) == base64_decoded(b64@),
{
    base64::engine::general_purpose::STANDARD.decode(b64).ok()
}

/// Inflates one gzip member with `flate2::bufread::GzDecoder`, read to its
/// end. An error of the decoder becomes `None`. The contract claims only
/// that equal bytes inflate alike.
#[verifier::external_body]
pub fn decode_gzip(bytes: &[u8]) -> (r: Option<Vec<u8>>)
    ensures
        bytes_view(r) == gzip_inflated(bytes@),
{
    let mut output: Vec<u8> = Vec::new();
    let read = flate2::bufread::GzDecoder::new(bytes).read_to_end(&mut output);
    read.ok().map(|_| output)
}

/// Parses with `serde_json::from_str`. An error of the parser becomes
/// `None`. The contract claims only that equal texts parse alike.
#[verifier::external_body]
pub fn parse_json_str(json_str: &str) -> (r: Option<serde_json::Value>)
    ensures
        r == json_document(json_str@),
{
    serde_json::from_str(json_str).ok()
}

/// The member of an object, by `serde_json::Value::get` with a text as the
/// index. The contract claims only that equal arguments give equal results.
#[verifier::external_body]
pub(crate) fn json_get<'a>(value: &'a serde_json::Value, name: &str) -> (r: Option<
    &'a serde_json::Value,
>)
    ensures
        r is Some <==> json_member(*value, name@) is Some,
        r matches Some(member) ==> json_member(*value, name@) == Some(*member),
{
    value.get(name)
}

/// The text of a string, by `serde_json::Value::as_str`, copied. The
/// contract claims only that equal values give equal results.
#[verifier::external_body]
pub(crate) fn json_as_str(value: &serde_json::Value) -> (r: Option<String>)
    ensures
        text_view(r) == json_text(*value),
{
    value.as_str().map(|text| text.to_owned())
}

/// The text of the member `name` of a JSON object.
pub fn member_text(document: &serde_json::Value, name: &str) -> (r: Option<String>)
    ensures
        text_view(r) == match json_member(*document, name@) {
            Some(member) => json_text(member),
            None => None,
        },
{
    match json_get(document, name) {
        Some(member) => json_as_str(member),
        None => None,
    }
}

/// `str::to_uppercase` of the standard library. The contract claims only
/// that equal texts give equal results.
#[verifier::external_body]
pub(crate) fn to_uppercase(text: &str) -> (r: String)
    ensures
        r@ == uppercased(text@),
{
    text.to_uppercase()
}

/// The clock: `SystemTime::now` of the standard library, as the
/// milliseconds since the Unix epoch (0 for a clock set before it). Nothing
/// is claimed of the result: two readings may differ in either direction.
#[verifier::external_body]
pub(crate) fn get_timestamp() -> u128 {
    SystemTime::now().duration_since(UNIX_EPOCH).map(|since| since.as_millis()).unwrap_or(0)
}

} // verus!
