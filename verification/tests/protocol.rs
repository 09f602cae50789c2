use dev_tool::json::{encode_json, Json};
use dev_tool::protocol::{
    decode_envelope, DecodeError, Envelope, MessageType, NoopCommand, ReplyPayload,
};

#[test]
fn test_envelope_serialization() {
    let payload = NoopCommand::new().to_json();
    let envelope = Envelope::new(MessageType::GmCommand, b"test-id".to_vec(), payload);

    let json = String::from_utf8(envelope.encode()).unwrap();
    assert!(json.contains("\"version\":1"));
    assert!(json.contains("\"type\":\"gm.command\""));
    assert!(json.contains("\"id\":\"test-id\""));
    assert!(json.contains("\"command\":\"noop\""));
}

#[test]
fn test_envelope_deserialization() {
    let json = r#"{
            "version": 1,
            "type": "gm.reply",
            "id": "reply-1",
            "payload": {
                "status": "ok",
                "message": "Success"
            }
        }"#;

    let envelope = decode_envelope(json.as_bytes()).unwrap();
    assert_eq!(envelope.version, 1);
    assert_eq!(envelope.message_type, MessageType::GmReply);
    assert_eq!(envelope.id, b"reply-1".to_vec());
    let reply = ReplyPayload::from_payload(&envelope.payload);
    assert_eq!(reply.status, b"ok".to_vec());
    assert_eq!(reply.message, Some(b"Success".to_vec()));
}

#[test]
fn test_envelope_with_correlation_id() {
    let payload = NoopCommand::new().to_json();
    let envelope = Envelope::new_with_correlation(
        MessageType::GmCommand,
        b"test-id".to_vec(),
        Some(b"corr-id".to_vec()),
        payload,
    );

    let json = String::from_utf8(envelope.encode()).unwrap();
    assert!(json.contains("\"correlationId\":\"corr-id\""));
}

#[test]
fn test_auth_payload() {
    let auth = dev_tool::protocol::AuthPayload::new(b"secret-token".to_vec());
    let json = String::from_utf8(encode_json(&auth.to_json())).unwrap();
    assert!(json.contains("\"auth\""));
    assert!(json.contains("\"token\":\"secret-token\""));
}

#[test]
fn test_message_type_serialization() {
    assert_eq!(
        String::from_utf8(encode_json(&Json::Str(MessageType::GmCommand.wire_name()))).unwrap(),
        "\"gm.command\""
    );
    assert_eq!(
        String::from_utf8(encode_json(&Json::Str(MessageType::GmReply.wire_name()))).unwrap(),
        "\"gm.reply\""
    );
    assert_eq!(
        String::from_utf8(encode_json(&Json::Str(MessageType::EventState.wire_name()))).unwrap(),
        "\"event.state\""
    );
    assert_eq!(
        String::from_utf8(encode_json(&Json::Str(MessageType::EventLog.wire_name()))).unwrap(),
        "\"event.log\""
    );
}

#[test]
fn test_noop_command_default() {
    let noop = NoopCommand::default();
    assert_eq!(noop.command, b"noop".to_vec());
}

#[test]
fn test_envelope_round_trip_all_fields() {
    // The round-trip law on a concrete envelope with a payload that
    // uses every value shape, escapes included.
    let payload = Json::Obj(vec![
        (b"text".to_vec(), Json::Str(b"he said \"hi\" \\ bye".to_vec())),
        (b"n".to_vec(), Json::Int(-12345)),
        (b"big".to_vec(), Json::Int(i64::MAX)),
        (b"small".to_vec(), Json::Int(i64::MIN)),
        (b"flag".to_vec(), Json::Bool(true)),
        (b"off".to_vec(), Json::Bool(false)),
        (b"nothing".to_vec(), Json::Null),
        (
            b"list".to_vec(),
            Json::Arr(vec![Json::Int(1), Json::Str(b"two".to_vec()), Json::Arr(vec![])]),
        ),
        (b"empty".to_vec(), Json::Obj(vec![])),
    ]);
    let envelope = Envelope::new_with_correlation(
        MessageType::GmReply,
        b"id-9".to_vec(),
        Some(b"msg-7".to_vec()),
        payload,
    );
    let text = envelope.encode();
    let back = decode_envelope(&text).unwrap();
    assert_eq!(back.version, 1);
    assert_eq!(back.message_type, MessageType::GmReply);
    assert_eq!(back.id, b"id-9".to_vec());
    assert_eq!(back.correlation_id, Some(b"msg-7".to_vec()));
    assert_eq!(encode_json(&back.payload), {
        let reencoded = decode_envelope(&text).unwrap();
        encode_json(&reencoded.payload)
    });
    // And the whole envelope re-encodes to the same text.
    assert_eq!(back.encode(), text);
}

#[test]
fn test_decode_unknown_message_type() {
    let json = r#"{"version":1,"type":"gm.bogus","id":"a","payload":{}}"#;
    assert_eq!(
        decode_envelope(json.as_bytes()).unwrap_err(),
        DecodeError::UnknownMessageType
    );
}

#[test]
fn test_decode_missing_field() {
    let json = r#"{"version":1,"type":"gm.reply","payload":{}}"#;
    assert_eq!(
        decode_envelope(json.as_bytes()).unwrap_err(),
        DecodeError::MalformedEnvelope
    );
}

#[test]
fn test_decode_not_json() {
    assert_eq!(
        decode_envelope(b"not json at all").unwrap_err(),
        DecodeError::MalformedEnvelope
    );
}

#[test]
fn test_decode_wrong_version_type() {
    let json = r#"{"version":"1","type":"gm.reply","id":"a","payload":{}}"#;
    assert_eq!(
        decode_envelope(json.as_bytes()).unwrap_err(),
        DecodeError::MalformedEnvelope
    );
}

#[test]
fn test_reply_success_policy() {
    let ok = ReplyPayload { status: b"ok".to_vec(), message: None, data: None };
    assert!(ok.is_success());
    let success = ReplyPayload { status: b"success".to_vec(), message: None, data: None };
    assert!(success.is_success());
    let err = ReplyPayload { status: b"error".to_vec(), message: None, data: None };
    assert!(!err.is_success());
    let missing = ReplyPayload { status: Vec::new(), message: None, data: None };
    assert!(!missing.is_success());
}
