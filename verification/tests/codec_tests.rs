//! The wire codec: envelopes, frames, and the round-trip behaviour the
//! protocol depends on.

use tab_cli::codec::{
    decode_command_response, deserialize_message, encode_command_frame, encode_ping_frame,
    extract_frame, frame_on_eof, reply_is_pong, serialize_message,
};
use tab_cli::error::CliError;
use tab_cli::json::{JsonValue, parse_json_text, to_json_text};
use tab_cli::types::{Command, CommandType, IpcMessage, IpcMessageType};

fn obj(members: Vec<(&str, JsonValue)>) -> JsonValue {
    let mut out: Vec<(String, JsonValue)> = Vec::new();
    for (k, v) in members {
        out.push((k.to_string(), v));
    }
    JsonValue::Obj(out)
}

#[test]
fn serialize_message_appends_newline_delimiter() {
    let message = IpcMessage {
        message_type: IpcMessageType::Command,
        payload: Some(obj(vec![("id", JsonValue::Str("cmd-1".to_string()))])),
    };

    let text = serialize_message(message);

    assert!(!text.is_empty());
    assert_eq!(text.chars().last(), Some('\n'));

    let parsed: serde_json::Value = serde_json::from_str(text.trim_end()).expect("parse json");
    let expected: serde_json::Value =
        serde_json::from_str("{\"type\":\"command\",\"payload\":{\"id\":\"cmd-1\"}}")
            .expect("parse expected");
    assert_eq!(parsed, expected);
}

#[test]
fn deserialize_message_round_trips_json() {
    let raw = "{\"type\":\"pong\",\"payload\":null}";
    let message = deserialize_message(raw).expect("deserialize message");

    assert!(matches!(message.message_type, IpcMessageType::Pong));
    assert!(message.payload.is_none());

    let text = serialize_message(message);
    assert_eq!(text, "{\"type\":\"pong\",\"payload\":null}\n");
}

#[test]
fn ping_frame_is_the_wire_ping_line() {
    assert_eq!(encode_ping_frame(), "{\"type\":\"ping\",\"payload\":null}\n");
}

#[test]
fn pong_reply_reads_as_alive() {
    assert!(reply_is_pong("{\"type\":\"pong\",\"payload\":null}"));
    assert!(!reply_is_pong("{\"type\":\"ping\",\"payload\":null}"));
    assert!(!reply_is_pong("{\"type\":\"response\",\"payload\":null}"));
    assert!(!reply_is_pong("not json at all"));
}

#[test]
fn command_frame_has_the_documented_wire_form() {
    let command = Command {
        id: "cmd-1".to_string(),
        session_id: "session-1".to_string(),
        profile: None,
        command_type: CommandType::Navigate,
        params: Some(obj(vec![("url", JsonValue::Str("https://example.com".to_string()))])),
        timestamp: "2026-01-01T00:00:00Z".to_string(),
    };
    let frame = encode_command_frame(command);
    assert_eq!(
        frame,
        "{\"type\":\"command\",\"payload\":{\"id\":\"cmd-1\",\"sessionId\":\"session-1\",\
         \"type\":\"navigate\",\"params\":{\"url\":\"https://example.com\"},\
         \"timestamp\":\"2026-01-01T00:00:00Z\"}}\n"
    );
    // The frame is valid JSON to an independent parser.
    let parsed: Result<serde_json::Value, _> = serde_json::from_str(frame.trim_end());
    assert!(parsed.is_ok());
}

#[test]
fn command_frame_with_profile_carries_it() {
    let command = Command {
        id: "cmd-2".to_string(),
        session_id: "s".to_string(),
        profile: Some("/p/dir".to_string()),
        command_type: CommandType::TabList,
        params: None,
        timestamp: "2026-01-01T00:00:00Z".to_string(),
    };
    let frame = encode_command_frame(command);
    assert_eq!(
        frame,
        "{\"type\":\"command\",\"payload\":{\"id\":\"cmd-2\",\"sessionId\":\"s\",\
         \"profile\":\"/p/dir\",\"type\":\"tab_list\",\
         \"timestamp\":\"2026-01-01T00:00:00Z\"}}\n"
    );
}

#[test]
fn envelope_round_trips_for_every_kind() {
    let kinds = vec![
        IpcMessageType::Command,
        IpcMessageType::Response,
        IpcMessageType::Ping,
        IpcMessageType::Pong,
    ];
    for kind in kinds {
        let message = IpcMessage {
            message_type: kind,
            payload: Some(obj(vec![("n", JsonValue::Int(7))])),
        };
        let text = serialize_message(message);
        let back = deserialize_message(text.trim_end()).expect("decode");
        assert_eq!(back.message_type, kind);
        assert_eq!(back.payload, Some(obj(vec![("n", JsonValue::Int(7))])));
    }
}

#[test]
fn command_envelope_round_trips_for_every_command_kind() {
    let kinds = vec![
        CommandType::Navigate,
        CommandType::Open,
        CommandType::Back,
        CommandType::Forward,
        CommandType::Reload,
        CommandType::Close,
        CommandType::Snapshot,
        CommandType::Click,
        CommandType::Dblclick,
        CommandType::Fill,
        CommandType::Type,
        CommandType::Press,
        CommandType::Hover,
        CommandType::Focus,
        CommandType::Check,
        CommandType::Uncheck,
        CommandType::Select,
        CommandType::Scroll,
        CommandType::Scrollintoview,
        CommandType::Get,
        CommandType::Is,
        CommandType::Find,
        CommandType::Drag,
        CommandType::Upload,
        CommandType::Mouse,
        CommandType::Wait,
        CommandType::Tab,
        CommandType::TabNew,
        CommandType::TabClose,
        CommandType::TabSwitch,
        CommandType::TabList,
        CommandType::Screenshot,
        CommandType::Pdf,
        CommandType::Eval,
    ];
    for (i, kind) in kinds.into_iter().enumerate() {
        // Once with params and profile, once without either.
        let with_extras = i % 2 == 0;
        let build = |with_extras: bool| Command {
            id: "cmd-1".to_string(),
            session_id: "session-1".to_string(),
            profile: if with_extras { Some("/p".to_string()) } else { None },
            command_type: kind,
            params: if with_extras {
                Some(obj(vec![("k", JsonValue::Str("v".to_string()))]))
            } else {
                None
            },
            timestamp: "2026-01-01T00:00:00Z".to_string(),
        };
        let frame = encode_command_frame(build(with_extras));
        let back = deserialize_message(frame.trim_end()).expect("decode");
        assert_eq!(back.message_type, IpcMessageType::Command);
        let payload = back.payload.expect("payload");
        let expected = tab_cli::codec::command_to_json(build(with_extras));
        assert_eq!(payload, expected);
    }
}

#[test]
fn decode_rejects_missing_discriminant() {
    let r = deserialize_message("{\"payload\":null}");
    assert!(matches!(r, Err(CliError::SerializationError(_))));
}

#[test]
fn decode_rejects_unknown_discriminant() {
    let r = deserialize_message("{\"type\":\"nonsense\",\"payload\":null}");
    assert!(matches!(r, Err(CliError::SerializationError(_))));
}

#[test]
fn decode_rejects_text_that_is_not_json() {
    assert!(deserialize_message("").is_err());
    assert!(deserialize_message("garbage").is_err());
    assert!(deserialize_message("{\"type\":\"ping\"").is_err());
    assert!(deserialize_message("[1,2,3]").is_err());
}

#[test]
fn exchange_reply_of_wrong_kind_is_a_protocol_error() {
    let r = decode_command_response("{\"type\":\"ping\",\"payload\":null}");
    match r {
        Err(CliError::ProtocolError(msg)) => assert_eq!(msg, "unexpected response type"),
        other => panic!("expected a protocol error, got {:?}", other),
    }
}

#[test]
fn exchange_reply_without_payload_is_a_protocol_error() {
    let r = decode_command_response("{\"type\":\"response\",\"payload\":null}");
    match r {
        Err(CliError::ProtocolError(msg)) => assert_eq!(msg, "missing response payload"),
        other => panic!("expected a protocol error, got {:?}", other),
    }
}

#[test]
fn exchange_reply_round_trips_a_response() {
    let r = decode_command_response(
        "{\"type\":\"response\",\"payload\":{\"id\":\"cmd-1\",\"success\":true}}",
    );
    let resp = r.expect("response");
    assert_eq!(resp.id, "cmd-1");
    assert!(resp.success);
    assert!(resp.data.is_none());
    assert!(resp.error.is_none());
}

#[test]
fn exchange_reply_carries_error_text() {
    let r = decode_command_response(
        "{\"type\":\"response\",\"payload\":{\"id\":\"c\",\"success\":false,\
         \"error\":\"element not found\"}}",
    );
    let resp = r.expect("response");
    assert!(!resp.success);
    assert_eq!(resp.error, Some("element not found".to_string()));
}

#[test]
fn empty_stream_close_is_an_empty_response_error() {
    match frame_on_eof(0) {
        CliError::ProtocolError(msg) => assert_eq!(msg, "empty response"),
        other => panic!("expected a protocol error, got {:?}", other),
    }
}

#[test]
fn partial_frame_close_is_a_missing_delimiter_error() {
    match frame_on_eof(17) {
        CliError::ProtocolError(msg) => assert_eq!(msg, "missing message delimiter"),
        other => panic!("expected a protocol error, got {:?}", other),
    }
}

#[test]
fn extract_frame_splits_at_the_first_newline() {
    let buf: Vec<u8> = b"{\"type\":\"pong\",\"payload\":null}\nextra".to_vec();
    let frame = extract_frame(&buf).expect("complete frame");
    assert_eq!(frame, b"{\"type\":\"pong\",\"payload\":null}".to_vec());

    let partial: Vec<u8> = b"{\"type\":\"pong\"".to_vec();
    assert!(extract_frame(&partial).is_none());
}

#[test]
fn json_text_round_trips_nested_values() {
    let value = obj(vec![
        ("null", JsonValue::Null),
        ("flag", JsonValue::Bool(true)),
        ("off", JsonValue::Bool(false)),
        ("count", JsonValue::Int(-42)),
        ("big", JsonValue::Int(i64::MAX)),
        ("small", JsonValue::Int(i64::MIN)),
        ("text", JsonValue::Str("line\nquote\" slash\\ tab\tunicode \u{263A}".to_string())),
        (
            "list",
            JsonValue::Arr(vec![
                JsonValue::Int(1),
                JsonValue::Str("two".to_string()),
                JsonValue::Arr(vec![]),
                JsonValue::Obj(vec![]),
            ]),
        ),
    ]);
    let text = to_json_text(&value);
    // No raw newline appears, even though the string payload holds one.
    assert!(!text.contains('\n'));
    let back = parse_json_text(&text).expect("parse back");
    assert_eq!(back, value);
    // An independent parser accepts the encoding too.
    let independent: Result<serde_json::Value, _> = serde_json::from_str(&text);
    assert!(independent.is_ok());
}

#[test]
fn json_parser_accepts_an_independent_encoder() {
    let source = "{\"a\":[1,2,{\"b\":\"c\"}],\"d\":null,\"e\":false}";
    let value: serde_json::Value = serde_json::from_str(source).expect("serde parse");
    let re_encoded = serde_json::to_string(&value).expect("serde encode");
    let mine = parse_json_text(&re_encoded).expect("verified parser accepts serde's text");
    assert_eq!(to_json_text(&mine), re_encoded);
}

#[test]
fn json_parser_rejects_what_the_grammar_excludes() {
    assert!(parse_json_text("1.5").is_none());
    assert!(parse_json_text("1e9").is_none());
    assert!(parse_json_text("[1,]").is_none());
    assert!(parse_json_text("{\"a\":}").is_none());
    assert!(parse_json_text("\"unterminated").is_none());
    assert!(parse_json_text("nul").is_none());
    assert!(parse_json_text("92233720368547758080").is_none());
}
