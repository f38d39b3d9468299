use colorunit::codec::{
    command_bytes, decode, encode_device_message, CURequest, CUResponse,
};
use colorunit::color::Rgbw;

fn decode_str(s: &str) -> Result<CURequest, colorunit::codec::ProtocolError> {
    decode(&s.as_bytes().to_vec())
}

#[test]
fn decodes_canonical_request() {
    let req = decode_str("{\"method\":\"led\",\"led\":0,\"r\":255,\"g\":0,\"b\":0}").unwrap();
    assert_eq!(req, CURequest::Led { led: 0, r: 255, g: 0, b: 0 });
}

#[test]
fn decodes_reordered_members_and_blanks() {
    let req = decode_str(
        " { \"b\" : 3 ,\n\t\"g\": 2, \"led\": 7, \"method\": \"led\", \"r\": 1 } ",
    )
    .unwrap();
    assert_eq!(req, CURequest::Led { led: 7, r: 1, g: 2, b: 3 });
}

#[test]
fn decodes_largest_values() {
    let req =
        decode_str("{\"method\":\"led\",\"led\":255,\"r\":255,\"g\":255,\"b\":255}").unwrap();
    assert_eq!(req, CURequest::Led { led: 255, r: 255, g: 255, b: 255 });
}

#[test]
fn rejects_malformed_text() {
    assert!(decode_str("").is_err());
    assert!(decode_str("not json").is_err());
    assert!(decode_str("{\"method\":\"led\",").is_err());
    assert!(decode_str("[1,2,3]").is_err());
}

#[test]
fn rejects_unknown_method() {
    assert!(decode_str("{\"method\":\"off\",\"led\":0,\"r\":0,\"g\":0,\"b\":0}").is_err());
}

#[test]
fn rejects_unknown_member() {
    assert!(decode_str("{\"method\":\"led\",\"led\":0,\"r\":0,\"g\":0,\"x\":0}").is_err());
}

#[test]
fn rejects_value_out_of_range() {
    assert!(decode_str("{\"method\":\"led\",\"led\":0,\"r\":256,\"g\":0,\"b\":0}").is_err());
    assert!(decode_str("{\"method\":\"led\",\"led\":99999,\"r\":0,\"g\":0,\"b\":0}").is_err());
}

#[test]
fn rejects_duplicate_member() {
    assert!(decode_str("{\"method\":\"led\",\"led\":0,\"r\":1,\"r\":2,\"b\":0}").is_err());
}

#[test]
fn rejects_missing_member() {
    assert!(decode_str("{\"method\":\"led\",\"led\":0,\"r\":0,\"g\":0}").is_err());
}

#[test]
fn rejects_trailing_text() {
    assert!(decode_str("{\"method\":\"led\",\"led\":0,\"r\":0,\"g\":0,\"b\":0}x").is_err());
}

#[test]
fn rejects_leading_zero_numbers() {
    assert!(decode_str("{\"method\":\"led\",\"led\":007,\"r\":0,\"g\":0,\"b\":0}").is_err());
}

#[test]
fn success_encodes_canonically() {
    let out = CUResponse::success().encode();
    assert_eq!(out, b"{\"success\":true}".to_vec());
}

#[test]
fn failure_encodes_flag_and_text() {
    let out = CUResponse::error(b"boom".to_vec()).encode();
    assert_eq!(out, b"{\"success\":false,\"error\":\"boom\"}".to_vec());
}

#[test]
fn failure_text_is_escaped() {
    let out = CUResponse::error(b"a\"b\\c\nd".to_vec()).encode();
    assert_eq!(out, b"{\"success\":false,\"error\":\"a\\\"b\\\\c\\nd\"}".to_vec());
}

#[test]
fn control_bytes_escape_as_hex() {
    let out = CUResponse::error(vec![0x01u8]).encode();
    assert_eq!(out, b"{\"success\":false,\"error\":\"\\u0001\"}".to_vec());
}

#[test]
fn device_message_is_canonical() {
    let out = encode_device_message(0, &Rgbw { r: 255, g: 0, b: 0, w: 0 });
    assert_eq!(out, b"{\"led\":0,\"r\":255,\"g\":0,\"b\":0,\"w\":0}".to_vec());
}

#[test]
fn device_message_multi_digit_values() {
    let out = encode_device_message(12, &Rgbw { r: 3, g: 45, b: 255, w: 100 });
    assert_eq!(out, b"{\"led\":12,\"r\":3,\"g\":45,\"b\":255,\"w\":100}".to_vec());
}

#[test]
fn command_bytes_convert_then_encode() {
    let out = command_bytes(&CURequest::Led { led: 0, r: 255, g: 0, b: 0 });
    assert_eq!(out, b"{\"led\":0,\"r\":255,\"g\":0,\"b\":0,\"w\":0}".to_vec());
}

#[test]
fn protocol_error_description_is_prefixed() {
    let e = decode_str("nope").unwrap_err();
    let text = e.describe();
    assert!(text.starts_with(b"protocol error: "));
    assert!(text.len() > b"protocol error: ".len());
}
