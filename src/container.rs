use vstd::prelude::*;

use crate::codec::Codec;
use crate::encoding::{
    decode_msgpack, json_error_text, json_parses, json_to_string_pretty, json_to_vec,
    msgpack_decode_error_text, msgpack_decodes, msgpack_to_vec, parse_json,
};
use crate::text::{from_utf8_lossy, hex_dump, hex_dump_text, lossy_utf8, push_text, text};

verus! {

/// The role of a container: input, whose decoding must succeed, or output,
/// whose decoding failure is recorded.
#[derive(Clone, Copy, Debug, PartialEq, Eq, Structural)]
pub enum BytesContainerType {
    Input,
    Output,
}

/// Why input bytes were refused.
#[derive(Debug)]
pub enum ContainerError {
    /// The input is not JSON; with the parser's message.
    InvalidInputJson(String),
}

impl ContainerError {
    /// The message shown to the user.
    pub fn message(&self) -> (r: String)
        ensures
            match self {
                ContainerError::InvalidInputJson(e) => r@ == "Invalid input JSON: "@ + e@,
            },
    {
        match self {
            ContainerError::InvalidInputJson(e) => {
                let mut m = text("Invalid input JSON: ");
                push_text(&mut m, e.as_str());
                m
            },
        }
    }
}

/// What `BytesContainer::output` promises of the container it makes from `raw`:
/// the bytes are kept; they are decoded when the codec reads them, and
/// otherwise the reason is recorded and the bytes are shown as UTF-8.
pub open spec fn is_output_of(c: BytesContainer, codec: Codec, raw: Seq<u8>) -> bool {
    &&& c.codec == codec
    &&& c.raw@ == raw
    &&& codec == Codec::Raw ==> c.json_value is None && c.encoding_error is None && c.humanized@
        == hex_dump(raw)
    &&& codec == Codec::Json ==> if json_parses(raw) {
        c.json_value is Some && c.encoding_error is None
    } else {
        c.json_value is None && c.encoding_error is Some && c.humanized@ == lossy_utf8(raw)
    }
    &&& codec == Codec::Messagepack ==> if msgpack_decodes(raw) {
        c.json_value is Some && c.encoding_error is None
    } else {
        c.json_value is None && c.encoding_error is Some && c.humanized@ == lossy_utf8(raw)
    }
}

/// What `BytesContainer::input` promises for input bytes `raw`: raw bytes
/// are kept as a hex dump; other codecs need JSON text, which is decoded, and
/// anything else is refused as invalid input JSON.
pub open spec fn is_input_of(r: Result<BytesContainer, ContainerError>, codec: Codec, raw: Seq<u8>) -> bool {
    if codec == Codec::Raw {
        r matches Ok(c) && c.codec == Codec::Raw && c.raw@ == raw && c.json_value is None
            && c.encoding_error is None && c.humanized@ == hex_dump(raw)
    } else if json_parses(raw) {
        r matches Ok(c) && c.codec == codec && c.json_value is Some && c.encoding_error is None
    } else {
        r matches Err(ContainerError::InvalidInputJson(_))
    }
}

/// Bytes exchanged with a guest, with their decoded value and a human-readable form.
#[derive(Debug)]
pub struct BytesContainer {
    /// The bytes, in the codec's encoding.
    pub raw: Vec<u8>,
    pub codec: Codec,
    /// The decoded value, when there is one.
    pub json_value: Option<serde_json::Value>,
    /// Indented JSON, a hex dump, or the bytes read as UTF-8.
    pub humanized: String,
    /// Why the bytes could not be decoded, for output.
    pub encoding_error: Option<String>,
}

impl Default for BytesContainerType {
    /// Input.
    fn default() -> (r: BytesContainerType)
        ensures
            r == BytesContainerType::Input,
    {
        BytesContainerType::Input
    }
}

impl Default for BytesContainer {
    /// An empty raw container.
    fn default() -> (r: BytesContainer)
        ensures
            r.codec == Codec::Raw,
            r.raw@.len() == 0,
            r.json_value is None,
            r.encoding_error is None,
            r.humanized@ == "<raw codec>"@,
    {
        BytesContainer::empty()
    }
}

impl BytesContainer {
    /// An empty raw container.
    pub fn empty() -> (r: BytesContainer)
        ensures
            r.codec == Codec::Raw,
            r.raw@.len() == 0,
            r.json_value is None,
            r.encoding_error is None,
            r.humanized@ == "<raw codec>"@,
    {
        BytesContainer {
            raw: Vec::new(),
            codec: Codec::Raw,
            json_value: None,
            humanized: text("<raw codec>"),
            encoding_error: None,
        }
    }

    /// Raw bytes, kept as they are and shown as a hex dump.
    pub fn raw(raw: Vec<u8>) -> (r: BytesContainer)
        ensures
            r.codec == Codec::Raw,
            r.raw@ == raw@,
            r.json_value is None,
            r.encoding_error is None,
            r.humanized@ == hex_dump(raw@),
    {
        let humanized = hex_dump_text(raw.as_slice());
        BytesContainer { raw, codec: Codec::Raw, json_value: None, humanized, encoding_error: None }
    }

    /// Input bytes: JSON text, kept as minified JSON for the JSON codec or
    /// encoded as MessagePack for the MessagePack codec; raw bytes as they are.
    /// Input that is not JSON is refused.
    pub fn input(codec: Codec, raw: Vec<u8>) -> (r: Result<BytesContainer, ContainerError>)
        ensures
            is_input_of(r, codec, raw@),
    {
        match codec {
            Codec::Raw => Ok(BytesContainer::raw(raw)),
            _ => {
                let json = match parse_json(raw.as_slice()) {
                    Ok(v) => v,
                    Err(e) => {
                        return Err(ContainerError::InvalidInputJson(json_error_text(&e)));
                    },
                };
                let encoded = if codec == Codec::Json {
                    match json_to_vec(&json) {
                        Ok(b) => b,
                        Err(_) => vstd::pervasive::unreached(),
                    }
                } else {
                    match msgpack_to_vec(&json) {
                        Ok(b) => b,
                        Err(_) => vstd::pervasive::unreached(),
                    }
                };
                let humanized = match json_to_string_pretty(&json) {
                    Ok(s) => s,
                    Err(_) => vstd::pervasive::unreached(),
                };
                Ok(
                    BytesContainer {
                        raw: encoded,
                        codec,
                        json_value: Some(json),
                        humanized,
                        encoding_error: None,
                    },
                )
            },
        }
    }

    /// Output bytes: decoded under the codec when they can be, otherwise kept
    /// with the reason and shown as UTF-8 with invalid sequences replaced.
    /// This never fails, and the raw bytes are always kept.
    pub fn output(codec: Codec, raw: Vec<u8>) -> (r: BytesContainer)
        ensures
            is_output_of(r, codec, raw@),
    {
        let decoded = match codec {
            Codec::Raw => {
                return BytesContainer::raw(raw);
            },
            Codec::Json => match parse_json(raw.as_slice()) {
                Ok(v) => Ok(v),
                Err(e) => Err(json_error_text(&e)),
            },
            Codec::Messagepack => match decode_msgpack(raw.as_slice()) {
                Ok(v) => Ok(v),
                Err(e) => Err(msgpack_decode_error_text(&e)),
            },
        };
        match decoded {
            Ok(json) => {
                let humanized = match json_to_string_pretty(&json) {
                    Ok(h) => h,
                    Err(_) => vstd::pervasive::unreached(),
                };
                BytesContainer { raw, codec, json_value: Some(json), humanized, encoding_error: None }
            },
            Err(failure) => {
                let humanized = from_utf8_lossy(raw.as_slice());
                BytesContainer {
                    raw,
                    codec,
                    json_value: None,
                    humanized,
                    encoding_error: Some(failure),
                }
            },
        }
    }

    /// A container in the given role (see `input` and `output`).
    pub fn new(ty: BytesContainerType, codec: Codec, raw: Vec<u8>) -> (r: Result<
        BytesContainer,
        ContainerError,
    >)
        ensures
            ty == BytesContainerType::Input ==> is_input_of(r, codec, raw@),
            ty == BytesContainerType::Output ==> (r matches Ok(c) && is_output_of(c, codec, raw@)),
    {
        match ty {
            BytesContainerType::Input => BytesContainer::input(codec, raw),
            BytesContainerType::Output => Ok(BytesContainer::output(codec, raw)),
        }
    }
}

} // verus!
