use vstd::prelude::*;

use crate::encoding::{
    decode_msgpack, json_error_text, json_parses, msgpack_decode_error_text, msgpack_decodes,
    msgpack_to_vec, parse_json, utf8_or_empty,
};
use crate::run_result::{FunctionOutput, InvalidOutput};
use crate::text::{from_utf8_lossy, lossy_utf8, push_text, text};

verus! {

/// Wire encoding of the bytes exchanged with a guest.
#[derive(Clone, Copy, Debug, PartialEq, Eq, Structural)]
pub enum Codec {
    /// JSON text.
    Json,
    /// Raw bytes, passed as-is and shown as a hex dump.
    Raw,
    /// JSON values encoded as MessagePack.
    Messagepack,
}

impl Default for Codec {
    /// JSON.
    fn default() -> (r: Codec)
        ensures
            r == Codec::Json,
    {
        Codec::Json
    }
}

impl Codec {
    /// The codec of a guest's I/O format: MessagePack when asked for, JSON otherwise.
    pub fn for_io_format(use_msgpack: bool) -> (r: Codec)
        ensures
            r == (if use_msgpack { Codec::Messagepack } else { Codec::Json }),
    {
        if use_msgpack {
            Codec::Messagepack
        } else {
            Codec::Json
        }
    }

    /// Bytes of JSON text in the form a guest of this codec reads: unchanged
    /// for JSON and raw, encoded as MessagePack for MessagePack.
    pub fn transcode_from_json_bytes(&self, bytes: Vec<u8>) -> (r: Result<Vec<u8>, TranscodeError>)
        ensures
            *self != Codec::Messagepack ==> (r matches Ok(b) && b@ == bytes@),
            *self == Codec::Messagepack && !json_parses(bytes@) ==> (r matches Err(
                TranscodeError::InvalidJson(_),
            )),
            *self == Codec::Messagepack && json_parses(bytes@) ==> r is Ok,
    {
        match self {
            Codec::Messagepack => {
                let value = match parse_json(bytes.as_slice()) {
                    Ok(v) => v,
                    Err(e) => {
                        return Err(TranscodeError::InvalidJson(json_error_text(&e)));
                    },
                };
                match msgpack_to_vec(&value) {
                    Ok(b) => Ok(b),
                    Err(_) => vstd::pervasive::unreached(),
                }
            },
            _ => Ok(bytes),
        }
    }

    /// A guest's output decoded under this codec, or kept as invalid output
    /// with the reason. JSON output that is not UTF-8 is kept as empty text;
    /// raw output is not decoded and is kept with no reason.
    pub fn parse_output(&self, output: &[u8]) -> (r: FunctionOutput)
        ensures
            *self == Codec::Json ==> (json_parses(output@) <==> r is JsonOutput),
            *self == Codec::Messagepack ==> (msgpack_decodes(output@) <==> r is JsonOutput),
            *self == Codec::Messagepack && !msgpack_decodes(output@) ==> (r matches FunctionOutput::InvalidJsonOutput(i)
                && i.stdout@ == lossy_utf8(output@)),
            *self == Codec::Json && !json_parses(output@) && vstd::utf8::valid_utf8(output@) ==> (r matches FunctionOutput::InvalidJsonOutput(i)
                && i.stdout@ == vstd::utf8::decode_utf8(output@)),
            *self == Codec::Json && !json_parses(output@) && !vstd::utf8::valid_utf8(output@) ==> (r matches FunctionOutput::InvalidJsonOutput(i)
                && i.stdout@.len() == 0),
            *self == Codec::Raw ==> (r matches FunctionOutput::InvalidJsonOutput(i) && i.stdout@
                == lossy_utf8(output@) && i.error@.len() == 0),
    {
        match self {
            Codec::Json => match parse_json(output) {
                Ok(v) => FunctionOutput::JsonOutput(v),
                Err(e) => FunctionOutput::InvalidJsonOutput(
                    InvalidOutput { stdout: utf8_or_empty(output), error: json_error_text(&e) },
                ),
            },
            Codec::Messagepack => match decode_msgpack(output) {
                Ok(v) => FunctionOutput::JsonOutput(v),
                Err(e) => {
                    let mut error = text("Invalid MessagePack output: ");
                    push_text(&mut error, msgpack_decode_error_text(&e).as_str());
                    FunctionOutput::InvalidJsonOutput(
                        InvalidOutput { stdout: from_utf8_lossy(output), error },
                    )
                },
            },
            Codec::Raw => FunctionOutput::InvalidJsonOutput(
                InvalidOutput { stdout: from_utf8_lossy(output), error: String::new() },
            ),
        }
    }
}

/// Why JSON bytes could not be made ready for a guest.
#[derive(Debug)]
pub enum TranscodeError {
    /// The bytes are not JSON; with the parser's message.
    InvalidJson(String),
}

impl TranscodeError {
    /// The message shown to the user.
    pub fn message(&self) -> (r: String)
        ensures
            match self {
                TranscodeError::InvalidJson(e) => r@ == "Invalid input JSON for Wasm API function: "@
                    + e@,
            },
    {
        match self {
            TranscodeError::InvalidJson(e) => {
                let mut m = text("Invalid input JSON for Wasm API function: ");
                push_text(&mut m, e.as_str());
                m
            },
        }
    }
}

} // verus!
