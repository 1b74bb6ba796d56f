use function_runner::codec::TranscodeError;
use function_runner::{BytesContainer, BytesContainerType, Codec, FunctionOutput};

#[test]
fn json_input_is_minified_and_decoded() {
    let raw = b"{ \"a\" : [1, 2,  3], \"b\": \"x\" }".to_vec();
    let c = BytesContainer::new(BytesContainerType::Input, Codec::Json, raw).unwrap();
    assert_eq!(c.raw, b"{\"a\":[1,2,3],\"b\":\"x\"}".to_vec());
    let expected: serde_json::Value = serde_json::from_str("{\"a\":[1,2,3],\"b\":\"x\"}").unwrap();
    assert_eq!(c.json_value, Some(expected.clone()));
    assert_eq!(c.humanized, serde_json::to_string_pretty(&expected).unwrap());
    assert!(c.encoding_error.is_none());
    // Decoding the minified bytes again gives the same value.
    let again: serde_json::Value = serde_json::from_slice(&c.raw).unwrap();
    assert_eq!(again, expected);
}

#[test]
fn messagepack_input_is_encoded_from_json() {
    let raw = b"{\"foo\":\"echo\",\"bar\":\"test\"}".to_vec();
    let c = BytesContainer::new(BytesContainerType::Input, Codec::Messagepack, raw.clone()).unwrap();
    let value: serde_json::Value = serde_json::from_slice(&raw).unwrap();
    assert_eq!(c.raw, rmp_serde::to_vec(&value).unwrap());
    assert_eq!(c.json_value, Some(value));
    assert_eq!(c.codec, Codec::Messagepack);
}

#[test]
fn invalid_json_input_is_refused() {
    let raw = b"{\n".to_vec();
    let e = BytesContainer::new(BytesContainerType::Input, Codec::Json, raw).unwrap_err();
    assert_eq!(e.message(), "Invalid input JSON: EOF while parsing an object at line 2 column 0");
    let e = BytesContainer::new(BytesContainerType::Input, Codec::Messagepack, b"nope".to_vec());
    assert!(e.is_err());
}

#[test]
fn invalid_json_output_keeps_raw_bytes() {
    let raw = b"not json \xff".to_vec();
    let c = BytesContainer::new(BytesContainerType::Output, Codec::Json, raw.clone()).unwrap();
    assert!(c.json_value.is_none());
    assert!(c.encoding_error.is_some());
    assert_eq!(c.humanized, String::from_utf8_lossy(&raw).into_owned());
    assert_eq!(c.raw, raw);
}

#[test]
fn invalid_messagepack_output_keeps_raw_bytes() {
    let raw = vec![0xc1];
    let c = BytesContainer::output(Codec::Messagepack, raw.clone());
    assert!(c.json_value.is_none());
    assert!(c.encoding_error.is_some());
    assert_eq!(c.raw, raw);
}

#[test]
fn valid_messagepack_output_is_decoded() {
    let value: serde_json::Value = serde_json::from_str("{\"ok\":true}").unwrap();
    let raw = rmp_serde::to_vec(&value).unwrap();
    let c = BytesContainer::output(Codec::Messagepack, raw.clone());
    assert_eq!(c.json_value, Some(value));
    assert!(c.encoding_error.is_none());
    assert_eq!(c.raw, raw);
}

#[test]
fn raw_container_is_a_hex_dump() {
    let c = BytesContainer::new(BytesContainerType::Input, Codec::Raw, vec![0x00, 0xab, 0x10]).unwrap();
    assert_eq!(c.humanized, "00 ab 10");
    assert_eq!(c.raw, vec![0x00, 0xab, 0x10]);
    assert!(c.json_value.is_none());
    let empty = BytesContainer::output(Codec::Raw, vec![]);
    assert_eq!(empty.humanized, "");
    let d = BytesContainer::default();
    assert_eq!(d.humanized, "<raw codec>");
}

#[test]
fn codec_for_io_format() {
    assert_eq!(Codec::for_io_format(true), Codec::Messagepack);
    assert_eq!(Codec::for_io_format(false), Codec::Json);
}

#[test]
fn transcode_to_messagepack() {
    let bytes = b"[1,\"a\"]".to_vec();
    assert_eq!(Codec::Json.transcode_from_json_bytes(bytes.clone()).unwrap(), bytes);
    let value: serde_json::Value = serde_json::from_slice(&bytes).unwrap();
    assert_eq!(
        Codec::Messagepack.transcode_from_json_bytes(bytes).unwrap(),
        rmp_serde::to_vec(&value).unwrap()
    );
    match Codec::Messagepack.transcode_from_json_bytes(b"[".to_vec()) {
        Err(e @ TranscodeError::InvalidJson(_)) => {
            assert!(e.message().starts_with("Invalid input JSON for Wasm API function: "))
        }
        other => panic!("unexpected {:?}", other),
    }
}

#[test]
fn parse_output_by_codec() {
    match Codec::Json.parse_output(b"{\"a\":1}") {
        FunctionOutput::JsonOutput(v) => assert_eq!(v["a"], 1),
        other => panic!("unexpected {:?}", other),
    }
    match Codec::Json.parse_output(b"oops") {
        FunctionOutput::InvalidJsonOutput(i) => {
            assert_eq!(i.stdout, "oops");
            assert!(!i.error.is_empty());
        }
        other => panic!("unexpected {:?}", other),
    }
    match Codec::Messagepack.parse_output(&[0xc1]) {
        FunctionOutput::InvalidJsonOutput(i) => {
            assert!(i.error.starts_with("Invalid MessagePack output: "))
        }
        other => panic!("unexpected {:?}", other),
    }
}

#[test]
fn decodable_output_has_a_value_and_no_error() {
    let c = BytesContainer::new(BytesContainerType::Output, Codec::Json, b"{\"x\": [1]}".to_vec())
        .unwrap();
    let expected: serde_json::Value = serde_json::from_str("{\"x\":[1]}").unwrap();
    assert_eq!(c.json_value, Some(expected.clone()));
    assert!(c.encoding_error.is_none());
    assert_eq!(c.humanized, serde_json::to_string_pretty(&expected).unwrap());
    assert_eq!(c.raw, b"{\"x\": [1]}".to_vec());
}

#[test]
fn invalid_utf8_json_output_has_empty_stdout() {
    match Codec::Json.parse_output(&[0xff, 0xfe]) {
        FunctionOutput::InvalidJsonOutput(i) => {
            assert_eq!(i.stdout, "");
            assert!(!i.error.is_empty());
        }
        other => panic!("unexpected {:?}", other),
    }
}
