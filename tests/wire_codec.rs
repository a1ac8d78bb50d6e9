use fortuna::wire::{DecodeError, JsRequest, JsResponse};

fn request(action: i32, script: &str, args: &[&str], timeout: i32) -> JsRequest {
    JsRequest {
        action,
        script: script.to_string(),
        args: args.iter().map(|a| a.to_string()).collect(),
        timeout,
    }
}

fn same(a: &JsRequest, b: &JsRequest) -> bool {
    a.action == b.action && a.script == b.script && a.args == b.args && a.timeout == b.timeout
}

#[test]
fn encodes_map_doc_request() {
    let doc = "{\"_id\":\"foo\",\"value\":1}";
    let r = request(2, "mapDoc", &[doc], 5000);
    let mut expected: Vec<u8> = vec![8, 2, 18, 6];
    expected.extend_from_slice(b"mapDoc");
    expected.push(26);
    expected.push(23);
    expected.extend_from_slice(doc.as_bytes());
    expected.extend_from_slice(&[32, 0x88, 0x27]);
    assert_eq!(r.encode(), expected);
}

#[test]
fn default_fields_are_left_out() {
    let r = request(0, "", &[], 0);
    assert_eq!(r.encode(), Vec::<u8>::new());
    let d = JsRequest::decode(&[]).ok().unwrap();
    assert!(same(&d, &r));
}

#[test]
fn empty_argument_is_kept() {
    let r = request(0, "", &[""], 0);
    assert_eq!(r.encode(), vec![26, 0]);
    let d = JsRequest::decode(&r.encode()).ok().unwrap();
    assert_eq!(d.args, vec![String::new()]);
}

#[test]
fn negative_action_takes_ten_bytes() {
    let r = request(-1, "", &[], 0);
    let bytes = r.encode();
    assert_eq!(bytes, vec![8, 0xff, 0xff, 0xff, 0xff, 0xff, 0xff, 0xff, 0xff, 0xff, 0x01]);
    let d = JsRequest::decode(&bytes).ok().unwrap();
    assert_eq!(d.action, -1);
}

#[test]
fn round_trip_is_byte_identical() {
    let r = request(1, "var x = \"h\u{e9}llo \u{1f600}\"; x", &["a", "", "{\"k\":[1,2]}"], 250);
    let first = r.encode();
    let decoded = JsRequest::decode(&first).ok().unwrap();
    assert!(same(&decoded, &r));
    assert_eq!(decoded.encode(), first);
}

#[test]
fn round_trip_of_extreme_numbers() {
    let r = request(i32::MIN, "1+1", &[], i32::MAX);
    let first = r.encode();
    let decoded = JsRequest::decode(&first).ok().unwrap();
    assert_eq!(decoded.action, i32::MIN);
    assert_eq!(decoded.timeout, i32::MAX);
    assert_eq!(decoded.encode(), first);
}

#[test]
fn later_field_replaces_earlier() {
    let bytes: Vec<u8> = vec![8, 1, 18, 1, b'a', 8, 2, 18, 1, b'b', 26, 1, b'x', 26, 1, b'y'];
    let d = JsRequest::decode(&bytes).ok().unwrap();
    assert_eq!(d.action, 2);
    assert_eq!(d.script, "b");
    assert_eq!(d.args, vec!["x".to_string(), "y".to_string()]);
    assert_eq!(d.timeout, 0);
}

#[test]
fn truncated_string_is_rejected() {
    let bytes: Vec<u8> = vec![18, 5, b'a', b'b'];
    assert_eq!(JsRequest::decode(&bytes).err(), Some(DecodeError::Malformed));
}

#[test]
fn truncated_varint_is_rejected() {
    let bytes: Vec<u8> = vec![8, 0x80];
    assert_eq!(JsRequest::decode(&bytes).err(), Some(DecodeError::Malformed));
}

#[test]
fn unknown_field_is_rejected() {
    let bytes: Vec<u8> = vec![40, 1];
    assert_eq!(JsRequest::decode(&bytes).err(), Some(DecodeError::Malformed));
}

#[test]
fn invalid_utf8_is_rejected() {
    let bytes: Vec<u8> = vec![18, 2, 0xff, 0xfe];
    assert_eq!(JsRequest::decode(&bytes).err(), Some(DecodeError::Malformed));
}

#[test]
fn overlong_varint_is_rejected() {
    let bytes: Vec<u8> = vec![8, 0x80, 0x80, 0x80, 0x80, 0x80, 0x80, 0x80, 0x80, 0x80, 0x80, 0x01];
    assert_eq!(JsRequest::decode(&bytes).err(), Some(DecodeError::Malformed));
}

#[test]
fn varint_past_64_bits_is_rejected() {
    let bytes: Vec<u8> = vec![8, 0xff, 0xff, 0xff, 0xff, 0xff, 0xff, 0xff, 0xff, 0xff, 0x02];
    assert_eq!(JsRequest::decode(&bytes).err(), Some(DecodeError::Malformed));
}

#[test]
fn encodes_error_response() {
    let r = JsResponse { status: 1, result: "boom".to_string() };
    assert_eq!(r.encode(), vec![8, 1, 18, 4, b'b', b'o', b'o', b'm']);
    let ok = JsResponse { status: 0, result: "2".to_string() };
    assert_eq!(ok.encode(), vec![18, 1, b'2']);
}
