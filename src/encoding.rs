use vstd::prelude::*;

verus! {

#[verifier::external_type_specification]
#[verifier::external_body]
pub struct ExJsonValue(serde_json::Value);

#[verifier::external_type_specification]
#[verifier::external_body]
pub struct ExJsonError(serde_json::Error);

#[verifier::external_type_specification]
#[verifier::external_body]
pub struct ExMsgpackDecodeError(rmp_serde::decode::Error);

#[verifier::external_type_specification]
#[verifier::external_body]
pub struct ExMsgpackEncodeError(rmp_serde::encode::Error);

/// Whether `serde_json::from_slice` reads `b` as one JSON document.
pub uninterp spec fn json_parses(b: Seq<u8>) -> bool;

/// Whether `rmp_serde::from_slice` reads a MessagePack value from the front
/// of `b` (bytes after that value are ignored).
pub uninterp spec fn msgpack_decodes(b: Seq<u8>) -> bool;

/// Relies on `serde_json::from_slice`: whether the bytes parse depends on the bytes alone.
#[verifier::external_body]
pub fn parse_json(b: &[u8]) -> (r: Result<serde_json::Value, serde_json::Error>)
    ensures
        r is Ok <==> json_parses(b@),
{
    serde_json::from_slice(b)
}

/// Relies on `rmp_serde::from_slice`: whether the bytes decode depends on the bytes alone.
#[verifier::external_body]
pub fn decode_msgpack(b: &[u8]) -> (r: Result<serde_json::Value, rmp_serde::decode::Error>)
    ensures
        r is Ok <==> msgpack_decodes(b@),
{
    rmp_serde::from_slice(b)
}

/// Relies on `serde_json::to_vec`: the minified JSON text of a value. A
/// `Value` always serializes (its map keys are strings) and a `Vec` writer
/// never fails.
#[verifier::external_body]
pub fn json_to_vec(v: &serde_json::Value) -> (r: Result<Vec<u8>, serde_json::Error>)
    ensures
        r is Ok,
{
    serde_json::to_vec(v)
}

/// Relies on `serde_json::to_string_pretty`: the indented JSON text of a
/// value, which always serializes into its in-memory buffer.
#[verifier::external_body]
pub fn json_to_string_pretty(v: &serde_json::Value) -> (r: Result<String, serde_json::Error>)
    ensures
        r is Ok,
{
    serde_json::to_string_pretty(v)
}

/// Relies on `rmp_serde::to_vec`: the MessagePack encoding of a value. Its
/// only errors come from the writer, and writing into a `Vec` never fails.
#[verifier::external_body]
pub fn msgpack_to_vec(v: &serde_json::Value) -> (r: Result<Vec<u8>, rmp_serde::encode::Error>)
    ensures
        r is Ok,
{
    rmp_serde::to_vec(v)
}

/// Relies on the `Display` of `serde_json::Error`: its message.
#[verifier::external_body]
pub fn json_error_text(e: &serde_json::Error) -> (r: String) {
    e.to_string()
}

/// Relies on the `Display` of `rmp_serde::decode::Error`: its message.
#[verifier::external_body]
pub fn msgpack_decode_error_text(e: &rmp_serde::decode::Error) -> (r: String) {
    e.to_string()
}

/// Relies on `std::str::from_utf8`: valid UTF-8 decodes as such; anything else
/// is refused, and then the result is empty.
#[verifier::external_body]
pub fn utf8_or_empty(b: &[u8]) -> (r: String)
    ensures
        vstd::utf8::valid_utf8(b@) ==> r@ == vstd::utf8::decode_utf8(b@),
        !vstd::utf8::valid_utf8(b@) ==> r@ == Seq::<char>::empty(),
{
    std::str::from_utf8(b).map(str::to_owned).unwrap_or_default()
}

} // verus!
