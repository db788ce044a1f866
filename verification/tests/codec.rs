use endpoint_validator::codec::{
    encode_request, parse_text_frame, DecodeError, WsResponseGeneric,
};
use endpoint_validator::json::{JsonMember, JsonValue};
use endpoint_validator::log::LogLevel;

fn s(x: &str) -> String {
    x.to_string()
}

fn member(key: &str, value: JsonValue) -> JsonMember {
    JsonMember { key: s(key), value }
}

fn obj(members: Vec<JsonMember>) -> JsonValue {
    JsonValue::Object(members)
}

fn decode_ok(v: JsonValue) -> WsResponseGeneric<JsonValue> {
    match WsResponseGeneric::decode(v) {
        Ok(m) => m,
        Err(_) => panic!("decode failed where it should succeed"),
    }
}

fn decode_err(v: JsonValue) -> DecodeError {
    match WsResponseGeneric::decode(v) {
        Ok(_) => panic!("decode succeeded where it should fail"),
        Err(e) => e,
    }
}

#[test]
fn stream_payload_populates_all_five_fields() {
    let doc = obj(vec![
        member("type", JsonValue::Str(s("Stream"))),
        member("original_seq", JsonValue::Int(7)),
        member("method", JsonValue::Int(10)),
        member("stream_seq", JsonValue::Int(3)),
        member("stream_code", JsonValue::Int(200)),
        member("data", JsonValue::Str(s("chunk"))),
    ]);
    match decode_ok(doc) {
        WsResponseGeneric::Stream(m) => {
            assert_eq!(m.original_seq, 7);
            assert_eq!(m.method, 10);
            assert_eq!(m.stream_seq, 3);
            assert_eq!(m.stream_code, 200);
            assert_eq!(m.data.render_compact(), "\"chunk\"");
        },
        _ => panic!("expected a stream response"),
    }
}

#[test]
fn unknown_tag_fails_decode_and_is_named() {
    let doc = obj(vec![member("type", JsonValue::Str(s("Surprise")))]);
    match decode_err(doc) {
        DecodeError::UnknownTag { tag } => assert_eq!(tag, "Surprise"),
        _ => panic!("expected an unknown-tag error"),
    }
}

#[test]
fn immediate_and_forwarded_and_close_decode() {
    let doc = obj(vec![
        member("type", JsonValue::Str(s("Immediate"))),
        member("method", JsonValue::Int(10)),
        member("seq", JsonValue::Int(1)),
        member("params", JsonValue::Int(42)),
    ]);
    match decode_ok(doc) {
        WsResponseGeneric::Immediate(m) => {
            assert_eq!(m.method, 10);
            assert_eq!(m.seq, 1);
            assert_eq!(m.params.render_compact(), "42");
        },
        _ => panic!("expected an immediate response"),
    }
    let doc = obj(vec![
        member("type", JsonValue::Str(s("Forwarded"))),
        member("method", JsonValue::Int(4)),
        member("seq", JsonValue::Int(9)),
    ]);
    match decode_ok(doc) {
        WsResponseGeneric::Forwarded(m) => {
            assert_eq!(m.method, 4);
            assert_eq!(m.seq, 9);
        },
        _ => panic!("expected a forwarded response"),
    }
    let doc = obj(vec![member("type", JsonValue::Str(s("Close")))]);
    assert!(matches!(decode_ok(doc), WsResponseGeneric::Close));
}

#[test]
fn error_and_log_decode_with_their_payloads() {
    let doc = obj(vec![
        member("type", JsonValue::Str(s("Error"))),
        member("method", JsonValue::Int(10)),
        member("code", JsonValue::Int(500)),
        member("seq", JsonValue::Int(2)),
        member("log_id", JsonValue::Str(s("abc123"))),
        member("params", JsonValue::Null),
    ]);
    match decode_ok(doc) {
        WsResponseGeneric::Error(m) => {
            assert_eq!(m.method, 10);
            assert_eq!(m.code, 500);
            assert_eq!(m.seq, 2);
            assert_eq!(m.log_id, "abc123");
        },
        _ => panic!("expected an error response"),
    }
    let doc = obj(vec![
        member("type", JsonValue::Str(s("Log"))),
        member("seq", JsonValue::Int(0)),
        member("log_id", JsonValue::Int(77)),
        member("level", JsonValue::Str(s("warn"))),
        member("message", JsonValue::Str(s("careful"))),
    ]);
    match decode_ok(doc) {
        WsResponseGeneric::Log(m) => {
            assert_eq!(m.seq, 0);
            assert_eq!(m.log_id, 77);
            assert_eq!(m.level, LogLevel::Warn);
            assert_eq!(m.message, "careful");
        },
        _ => panic!("expected a log response"),
    }
}

#[test]
fn malformed_payloads_fail_closed() {
    // A missing field of a recognized tag is an error, never a default.
    let doc = obj(vec![
        member("type", JsonValue::Str(s("Immediate"))),
        member("method", JsonValue::Int(10)),
    ]);
    match decode_err(doc) {
        DecodeError::BadPayload { field } => assert_eq!(field, "seq"),
        _ => panic!("expected a bad-payload error"),
    }
    // A field of the wrong shape fails too.
    let doc = obj(vec![
        member("type", JsonValue::Str(s("Forwarded"))),
        member("method", JsonValue::Str(s("ten"))),
        member("seq", JsonValue::Int(1)),
    ]);
    assert!(matches!(decode_err(doc), DecodeError::BadPayload { .. }));
    // A sequence number out of the 32-bit range fails.
    let doc = obj(vec![
        member("type", JsonValue::Str(s("Forwarded"))),
        member("method", JsonValue::Int(1)),
        member("seq", JsonValue::Int(4294967296)),
    ]);
    assert!(matches!(decode_err(doc), DecodeError::BadPayload { .. }));
    // Non-objects and untagged objects fail.
    assert!(matches!(decode_err(JsonValue::Int(3)), DecodeError::NotAnObject));
    assert!(matches!(decode_err(obj(vec![])), DecodeError::MissingTag));
    assert!(matches!(
        decode_err(obj(vec![member("type", JsonValue::Int(1))])),
        DecodeError::MissingTag
    ));
}

#[test]
fn inbound_frames_parse_and_decode_end_to_end() {
    let text = "{\"type\":\"Immediate\",\"method\":10,\"seq\":1,\"params\":{\"ok\":true}}";
    let v = match parse_text_frame(text) {
        Ok(v) => v,
        Err(_) => panic!("frame should parse"),
    };
    match decode_ok(v) {
        WsResponseGeneric::Immediate(m) => {
            assert_eq!(m.params.render_compact(), "{\"ok\":true}");
        },
        _ => panic!("expected an immediate response"),
    }
}

#[test]
fn frames_that_are_not_json_are_rejected() {
    assert!(matches!(parse_text_frame("{nope"), Err(DecodeError::NotJson)));
    assert!(parse_text_frame("[1, 2, 3]").is_ok());
    assert!(parse_text_frame("null").is_ok());
}

#[test]
fn parsed_numbers_keep_integer_and_decimal_shapes() {
    let v = match parse_text_frame("[1, 2.5, -3]") {
        Ok(v) => v,
        Err(_) => panic!("frame should parse"),
    };
    assert_eq!(v.render_compact(), "[1,2.5,-3]");
}

#[test]
fn request_envelope_carries_method_seq_and_params() {
    let text = encode_request(10, 1, JsonValue::Int(42));
    assert_eq!(text, "{\"method\":10,\"seq\":1,\"params\":42}");
    let text = encode_request(3, 2, JsonValue::Array(vec![JsonValue::Bool(true)]));
    assert_eq!(text, "{\"method\":3,\"seq\":2,\"params\":[true]}");
}

#[test]
fn log_levels_parse_their_wire_names_exactly() {
    assert_eq!(LogLevel::from_text("error"), Some(LogLevel::Error));
    assert_eq!(LogLevel::from_text("detail"), Some(LogLevel::Detail));
    assert_eq!(LogLevel::from_text("ERROR"), None);
    assert_eq!(LogLevel::from_text(""), None);
    assert_eq!(LogLevel::Info.as_text(), "info");
}

#[test]
fn pretty_rendering_indents_like_the_display_does() {
    let v = JsonValue::Object(vec![
        member("a", JsonValue::Int(1)),
        member("b", JsonValue::Array(vec![JsonValue::Int(2), JsonValue::Int(3)])),
    ]);
    assert_eq!(v.render_pretty(), "{\n  \"a\": 1,\n  \"b\": [\n    2,\n    3\n  ]\n}");
    assert_eq!(JsonValue::Array(vec![]).render_pretty(), "[]");
    assert_eq!(JsonValue::Object(vec![]).render_pretty(), "{}");
}

#[test]
fn log_identifiers_cover_the_full_unsigned_range() {
    // Above the signed 64-bit range the wire number arrives as decimal
    // text; it must still decode.
    let doc = obj(vec![
        member("type", JsonValue::Str(s("Log"))),
        member("seq", JsonValue::Int(1)),
        member("log_id", JsonValue::NumText(s("18446744073709551615"))),
        member("level", JsonValue::Str(s("info"))),
        member("message", JsonValue::Str(s("hi"))),
    ]);
    match decode_ok(doc) {
        WsResponseGeneric::Log(m) => assert_eq!(m.log_id, 18446744073709551615),
        _ => panic!("expected a log response"),
    }
    // End to end through the frame parser, which carries such a number over
    // as decimal text.
    let text = "{\"type\":\"Log\",\"seq\":1,\"log_id\":9223372036854775808,\"level\":\"warn\",\"message\":\"m\"}";
    let v = match parse_text_frame(text) {
        Ok(v) => v,
        Err(_) => panic!("frame should parse"),
    };
    match decode_ok(v) {
        WsResponseGeneric::Log(m) => assert_eq!(m.log_id, 9223372036854775808),
        _ => panic!("expected a log response"),
    }
    // A fractional or negative identifier still fails closed.
    let doc = obj(vec![
        member("type", JsonValue::Str(s("Log"))),
        member("seq", JsonValue::Int(1)),
        member("log_id", JsonValue::NumText(s("1.5"))),
        member("level", JsonValue::Str(s("info"))),
        member("message", JsonValue::Str(s("hi"))),
    ]);
    assert!(matches!(decode_err(doc), DecodeError::BadPayload { .. }));
    let doc = obj(vec![
        member("type", JsonValue::Str(s("Log"))),
        member("seq", JsonValue::Int(1)),
        member("log_id", JsonValue::Int(-3)),
        member("level", JsonValue::Str(s("info"))),
        member("message", JsonValue::Str(s("hi"))),
    ]);
    assert!(matches!(decode_err(doc), DecodeError::BadPayload { .. }));
}
