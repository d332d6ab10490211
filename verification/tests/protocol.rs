use qorvex_core::protocol::{
    decode_request, decode_response, encode_frame, encode_request, encode_response,
    read_frame_length, OpCode, ProtocolError, Request, Response,
};

fn round_trip_request(req: &Request) {
    let wire = encode_request(req);
    let len = read_frame_length(wire[..4].try_into().unwrap()) as usize;
    assert_eq!(len, wire.len() - 4);
    let decoded = decode_request(&wire[4..]).expect("decode_request failed");
    assert_eq!(&decoded, req);
}

fn round_trip_response(resp: &Response) {
    let wire = encode_response(resp);
    let len = read_frame_length(wire[..4].try_into().unwrap()) as usize;
    assert_eq!(len, wire.len() - 4);
    let decoded = decode_response(&wire[4..]).expect("decode_response failed");
    assert_eq!(&decoded, resp);
}

#[test]
fn request_heartbeat() {
    round_trip_request(&Request::Heartbeat);
}

#[test]
fn request_tap_coord() {
    round_trip_request(&Request::TapCoord { x: 100, y: -42 });
}

#[test]
fn request_tap_coord_zero() {
    round_trip_request(&Request::TapCoord { x: 0, y: 0 });
}

#[test]
fn request_tap_element() {
    round_trip_request(&Request::TapElement { selector: "login-button".into() });
}

#[test]
fn request_tap_element_empty_selector() {
    round_trip_request(&Request::TapElement { selector: String::new() });
}

#[test]
fn request_tap_by_label() {
    round_trip_request(&Request::TapByLabel { label: "Sign In".into() });
}

#[test]
fn request_tap_with_type_by_id() {
    round_trip_request(&Request::TapWithType {
        selector: "submit-btn".into(),
        by_label: false,
        element_type: "Button".into(),
    });
}

#[test]
fn request_tap_with_type_by_label() {
    round_trip_request(&Request::TapWithType {
        selector: "Next".into(),
        by_label: true,
        element_type: "Button".into(),
    });
}

#[test]
fn request_type_text() {
    round_trip_request(&Request::TypeText { text: "hello world".into() });
}

#[test]
fn request_type_text_unicode() {
    round_trip_request(&Request::TypeText { text: "cafe\u{0301} \u{1F600}".into() });
}

#[test]
fn request_swipe_no_duration() {
    round_trip_request(&Request::Swipe {
        start_x: 0,
        start_y: 100,
        end_x: 0,
        end_y: 500,
        duration: None,
    });
}

#[test]
fn request_swipe_with_duration() {
    round_trip_request(&Request::Swipe {
        start_x: 50,
        start_y: 800,
        end_x: 50,
        end_y: 200,
        duration: Some(0.5f64.to_bits()),
    });
}

#[test]
fn request_get_value_no_type() {
    round_trip_request(&Request::GetValue {
        selector: "email-field".into(),
        by_label: false,
        element_type: None,
    });
}

#[test]
fn request_get_value_with_type() {
    round_trip_request(&Request::GetValue {
        selector: "Email".into(),
        by_label: true,
        element_type: Some("TextField".into()),
    });
}

#[test]
fn request_long_press() {
    round_trip_request(&Request::LongPress { x: 150, y: 300, duration: 1.5f64.to_bits() });
}

#[test]
fn request_long_press_zero_duration() {
    round_trip_request(&Request::LongPress { x: 0, y: 0, duration: 0.0f64.to_bits() });
}

#[test]
fn request_dump_tree() {
    round_trip_request(&Request::DumpTree);
}

#[test]
fn request_screenshot() {
    round_trip_request(&Request::Screenshot);
}

#[test]
fn request_set_target() {
    round_trip_request(&Request::SetTarget { bundle_id: "com.example.myapp".into() });
}

#[test]
fn request_find_element_round_trip() {
    round_trip_request(&Request::FindElement {
        selector: "Log*".into(),
        by_label: true,
        element_type: Some("Button".into()),
    });
}

#[test]
fn response_ok() {
    round_trip_response(&Response::Success);
}

#[test]
fn response_error() {
    round_trip_response(&Response::Error { message: "element not found".into() });
}

#[test]
fn response_tree() {
    round_trip_response(&Response::Tree { json: r#"{"type":"View","children":[]}"#.into() });
}

#[test]
fn response_screenshot() {
    round_trip_response(&Response::Screenshot {
        data: vec![0x89, 0x50, 0x4E, 0x47, 0x0D, 0x0A, 0x1A, 0x0A],
    });
}

#[test]
fn response_screenshot_empty() {
    round_trip_response(&Response::Screenshot { data: vec![] });
}

#[test]
fn response_value_some() {
    round_trip_response(&Response::Value { value: Some("hello@example.com".into()) });
}

#[test]
fn response_value_none() {
    round_trip_response(&Response::Value { value: None });
}

#[test]
fn response_element_round_trip() {
    round_trip_response(&Response::Element { json: r#"{"AXUniqueId":"x"}"#.into() });
}

#[test]
fn decode_request_empty_input() {
    let result = decode_request(&[]);
    assert_eq!(result, Err(ProtocolError::InsufficientData));
}

#[test]
fn decode_request_invalid_opcode() {
    let result = decode_request(&[0xFF]);
    assert_eq!(result, Err(ProtocolError::InvalidOpCode(0xFF)));
}

#[test]
fn decode_request_truncated_payload() {
    let result = decode_request(&[OpCode::TapCoord.to_u8(), 0, 0, 0, 0]);
    assert_eq!(result, Err(ProtocolError::InsufficientData));
}

#[test]
fn decode_request_response_opcode_is_invalid_payload() {
    let result = decode_request(&[0xA0]);
    assert_eq!(
        result,
        Err(ProtocolError::InvalidPayload("opcode 0xA0 is not a valid request opcode".into()))
    );
}

#[test]
fn decode_request_invalid_utf8() {
    let result = decode_request(&[0x03, 2, 0, 0, 0, 0xC3, 0x28]);
    assert_eq!(result, Err(ProtocolError::Utf8Error));
}

#[test]
fn decode_request_nonzero_flag_reads_true() {
    let wire = [0x05, 1, 0, 0, 0, b'a', 7, 1, 0, 0, 0, b'B'];
    let decoded = decode_request(&wire).unwrap();
    assert_eq!(
        decoded,
        Request::TapWithType { selector: "a".into(), by_label: true, element_type: "B".into() }
    );
}

#[test]
fn decode_response_invalid_opcode() {
    let result = decode_response(&[OpCode::TapCoord.to_u8()]);
    assert!(result.is_err());
}

#[test]
fn decode_response_invalid_response_type() {
    let result = decode_response(&[OpCode::Response.to_u8(), 0xFF]);
    assert!(result.is_err());
    assert_eq!(
        result,
        Err(ProtocolError::InvalidPayload("unknown response type: 0xFF".into()))
    );
}

#[test]
fn decode_response_bare_error_opcode() {
    let mut wire = vec![OpCode::Error.to_u8()];
    let msg = "something broke";
    wire.extend_from_slice(&(msg.len() as u32).to_le_bytes());
    wire.extend_from_slice(msg.as_bytes());
    let decoded = decode_response(&wire).expect("should decode bare Error");
    assert_eq!(decoded, Response::Error { message: "something broke".into() });
}

#[test]
fn frame_encode_and_read_length() {
    let payload = b"hello";
    let frame = encode_frame(payload);
    assert_eq!(frame.len(), 4 + 5);
    let len = read_frame_length(frame[..4].try_into().unwrap());
    assert_eq!(len, 5);
    assert_eq!(&frame[4..], b"hello");
}

#[test]
fn frame_empty_payload() {
    let frame = encode_frame(&[]);
    assert_eq!(frame.len(), 4);
    let len = read_frame_length(frame[..4].try_into().unwrap());
    assert_eq!(len, 0);
}

#[test]
fn opcode_round_trip() {
    let codes: Vec<u8> = vec![
        0x01, 0x02, 0x03, 0x04, 0x05, 0x06, 0x07, 0x08, 0x09, 0x10, 0x11, 0x12, 0x13, 0x99, 0xA0,
    ];
    for &code in &codes {
        let op = OpCode::from_u8(code).unwrap();
        assert_eq!(op.to_u8(), code);
    }
}

#[test]
fn heartbeat_wire_format() {
    let wire = encode_request(&Request::Heartbeat);
    assert_eq!(wire, vec![1, 0, 0, 0, 0x01]);
}

#[test]
fn tap_coord_wire_format() {
    let wire = encode_request(&Request::TapCoord { x: 1, y: 2 });
    assert_eq!(&wire[..4], &9u32.to_le_bytes());
    assert_eq!(wire[4], OpCode::TapCoord.to_u8());
    assert_eq!(&wire[5..9], &1i32.to_le_bytes());
    assert_eq!(&wire[9..13], &2i32.to_le_bytes());
}

#[test]
fn swipe_duration_wire_bytes_are_f64_le() {
    let wire = encode_request(&Request::Swipe {
        start_x: 0,
        start_y: 0,
        end_x: 0,
        end_y: 0,
        duration: Some(0.3f64.to_bits()),
    });
    assert_eq!(wire[21], 1);
    assert_eq!(&wire[22..30], &0.3f64.to_le_bytes());
}

#[test]
fn response_ok_wire_format() {
    let wire = encode_response(&Response::Success);
    assert_eq!(&wire[..4], &2u32.to_le_bytes());
    assert_eq!(wire[4], OpCode::Response.to_u8());
    assert_eq!(wire[5], 0x00);
}

#[test]
fn opcode_names() {
    assert_eq!(Request::Heartbeat.opcode_name(), "heartbeat");
    assert_eq!(Request::TapCoord { x: 1, y: 2 }.opcode_name(), "tap_coord");
    assert_eq!(Request::FindElement { selector: "a".into(), by_label: false, element_type: None }.opcode_name(), "find_element");
}

#[test]
fn protocol_error_messages() {
    assert_eq!(ProtocolError::InvalidOpCode(0x0A).message(), "invalid opcode: 0x0A");
    assert_eq!(ProtocolError::InsufficientData.message(), "insufficient data in buffer");
    assert_eq!(ProtocolError::Utf8Error.message(), "invalid UTF-8 in string field");
    assert_eq!(ProtocolError::InvalidPayload("x".into()).message(), "invalid payload: x");
}
