use dev_tool::protocol::ReplyPayload;
use dev_tool::ws::{
    generate_id, handle_wait_event, ClientError, IdGen, RequestCtx, WaitEvent, WaitVerdict,
    WsClient,
};

#[test]
fn test_generate_id() {
    let id1 = generate_id();
    let id2 = generate_id();

    assert!(id1.starts_with(b"msg-"));
    assert!(id2.starts_with(b"msg-"));
    // IDs should be different (assuming test runs fast enough)
    // but we can't guarantee this in all cases, so just check format
}

#[test]
fn test_ws_client_creation() {
    let client = WsClient::new(b"ws://localhost:5007".to_vec(), None, 5000);
    assert_eq!(client.url, b"ws://localhost:5007".to_vec());
    assert!(client.token.is_none());
    assert_eq!(client.timeout_ms, 5000);

    let client_with_token = WsClient::new(
        b"ws://localhost:5007".to_vec(),
        Some(b"test-token".to_vec()),
        10000,
    );
    assert_eq!(client_with_token.token, Some(b"test-token".to_vec()));
    assert_eq!(client_with_token.timeout_ms, 10000);
}

#[test]
fn test_handle_reply_valid() {
    let client = WsClient::new(b"ws://localhost:5007".to_vec(), None, 5000);
    let reply_json = r#"{
            "version": 1,
            "type": "gm.reply",
            "id": "reply-123",
            "correlationId": "msg-123",
            "payload": {
                "status": "ok",
                "message": "Command executed successfully"
            }
        }"#;

    let result = client.handle_reply(reply_json.as_bytes(), b"msg-123");
    assert!(result.is_ok());
}

#[test]
fn test_handle_reply_version_mismatch() {
    let client = WsClient::new(b"ws://localhost:5007".to_vec(), None, 5000);
    let reply_json = r#"{
            "version": 2,
            "type": "gm.reply",
            "id": "reply-123",
            "payload": {
                "status": "ok"
            }
        }"#;

    let result = client.handle_reply(reply_json.as_bytes(), b"msg-123");
    // Now should fail due to version mismatch
    assert!(result.is_err());
}

#[test]
fn test_handle_reply_invalid_json() {
    let client = WsClient::new(b"ws://localhost:5007".to_vec(), None, 5000);
    let result = client.handle_reply(b"invalid json", b"msg-123");
    assert!(result.is_err());
}

#[test]
fn test_id_gen_monotonic() {
    let mut gen = IdGen::new();
    let a = gen.fresh();
    let b = gen.fresh();
    assert_eq!(a, b"msg-0".to_vec());
    assert_eq!(b, b"msg-1".to_vec());
    assert_ne!(a, b);
}

#[test]
fn test_begin_request_noop_frame() {
    // Request frame for a noop command, under the generator's first id.
    let mut gen = IdGen::new();
    let payload = dev_tool::dispatch::command_payload(dev_tool::dispatch::Command::Noop);
    let (ctx, frame) = dev_tool::ws::begin_request(&mut gen, payload, 5000);
    assert_eq!(ctx.id, b"msg-0".to_vec());
    assert_eq!(ctx.timeout_ms, 5000);
    assert_eq!(
        String::from_utf8(frame).unwrap(),
        r#"{"version":1,"type":"gm.command","id":"msg-0","payload":{"command":"noop"}}"#
    );
}

#[test]
fn test_auth_frame_shape() {
    let mut gen = IdGen::new();
    let frame = dev_tool::ws::auth_frame(&mut gen, b"secret".to_vec());
    assert_eq!(
        String::from_utf8(frame).unwrap(),
        r#"{"version":1,"type":"gm.command","id":"msg-0","payload":{"auth":{"token":"secret"}}}"#
    );
}

#[test]
fn test_noop_request_reply_success() {
    // A noop request under id msg-1 answered by a correlated gm.reply
    // with status ok is reported as success.
    let ctx = RequestCtx { id: b"msg-1".to_vec(), timeout_ms: 5000 };
    let reply =
        br#"{"version":1,"type":"gm.reply","id":"r-1","correlationId":"msg-1","payload":{"status":"ok"}}"#;
    match handle_wait_event(&ctx, WaitEvent::Text(reply.to_vec())) {
        WaitVerdict::Complete(r) => {
            assert!(r.is_success());
        },
        _ => panic!("expected the reply to complete the request"),
    }
}

#[test]
fn test_reply_correlation_mismatch() {
    // A reply correlated to msg-2 never completes a request sent as
    // msg-1: the client reports CorrelationMismatch and the payload is
    // not surfaced as a success.
    let ctx = RequestCtx { id: b"msg-1".to_vec(), timeout_ms: 5000 };
    let reply =
        br#"{"version":1,"type":"gm.reply","id":"r-1","correlationId":"msg-2","payload":{"status":"ok"}}"#;
    match handle_wait_event(&ctx, WaitEvent::Text(reply.to_vec())) {
        WaitVerdict::Fail(ClientError::CorrelationMismatch { expected, got }) => {
            assert_eq!(expected, b"msg-1".to_vec());
            assert_eq!(got, Some(b"msg-2".to_vec()));
        },
        _ => panic!("expected CorrelationMismatch"),
    }
}

#[test]
fn test_reply_missing_correlation() {
    let ctx = RequestCtx { id: b"msg-1".to_vec(), timeout_ms: 5000 };
    let reply = br#"{"version":1,"type":"gm.reply","id":"r-1","payload":{"status":"ok"}}"#;
    match handle_wait_event(&ctx, WaitEvent::Text(reply.to_vec())) {
        WaitVerdict::Fail(ClientError::CorrelationMismatch { expected, got }) => {
            assert_eq!(expected, b"msg-1".to_vec());
            assert_eq!(got, None);
        },
        _ => panic!("expected CorrelationMismatch"),
    }
}

#[test]
fn test_version_mismatch_reports_both() {
    let ctx = RequestCtx { id: b"msg-1".to_vec(), timeout_ms: 5000 };
    let reply =
        br#"{"version":2,"type":"gm.reply","id":"r-1","correlationId":"msg-1","payload":{"status":"ok"}}"#;
    match handle_wait_event(&ctx, WaitEvent::Text(reply.to_vec())) {
        WaitVerdict::Fail(ClientError::ProtocolVersionMismatch { server, client }) => {
            assert_eq!(server, 2);
            assert_eq!(client, 1);
        },
        _ => panic!("expected ProtocolVersionMismatch"),
    }
}

#[test]
fn test_timeout_carries_duration() {
    let ctx = RequestCtx { id: b"msg-1".to_vec(), timeout_ms: 750 };
    match handle_wait_event(&ctx, WaitEvent::TimedOut) {
        WaitVerdict::Fail(ClientError::Timeout(ms)) => assert_eq!(ms, 750),
        _ => panic!("expected Timeout"),
    }
}

#[test]
fn test_closed_before_reply() {
    let ctx = RequestCtx { id: b"msg-1".to_vec(), timeout_ms: 5000 };
    match handle_wait_event(&ctx, WaitEvent::Closed) {
        WaitVerdict::Fail(ClientError::ConnectionClosedEarly) => {},
        _ => panic!("expected ConnectionClosedEarly"),
    }
}

#[test]
fn test_push_events_are_drained() {
    let ctx = RequestCtx { id: b"msg-1".to_vec(), timeout_ms: 5000 };
    let state = br#"{"version":1,"type":"event.state","id":"e-1","payload":{}}"#;
    match handle_wait_event(&ctx, WaitEvent::Text(state.to_vec())) {
        WaitVerdict::KeepWaiting => {},
        _ => panic!("expected the push frame to be drained"),
    }
    let log = br#"{"version":1,"type":"event.log","id":"e-2","payload":{}}"#;
    match handle_wait_event(&ctx, WaitEvent::Text(log.to_vec())) {
        WaitVerdict::KeepWaiting => {},
        _ => panic!("expected the push frame to be drained"),
    }
}

#[test]
fn test_validate_url() {
    let good = WsClient::new(b"ws://127.0.0.1:5007/gm".to_vec(), None, 5000);
    assert!(good.validate_url().is_ok());
    let bad = WsClient::new(b"not a url".to_vec(), None, 5000);
    match bad.validate_url() {
        Err(ClientError::ConnectError(url)) => assert_eq!(url, b"not a url".to_vec()),
        _ => panic!("expected ConnectError"),
    }
}

#[test]
fn test_reply_payload_defaults() {
    let env = dev_tool::protocol::decode_envelope(
        br#"{"version":1,"type":"gm.reply","id":"r","correlationId":"m","payload":{"status":"error","message":"boom"}}"#,
    )
    .unwrap();
    let reply = ReplyPayload::from_payload(&env.payload);
    assert!(!reply.is_success());
    assert_eq!(reply.message, Some(b"boom".to_vec()));
    assert!(reply.data.is_none());
}

#[test]
fn test_unexpected_message_type_during_wait() {
    // A gm.command frame can never answer a request.
    let ctx = RequestCtx { id: b"msg-1".to_vec(), timeout_ms: 5000 };
    let echo = br#"{"version":1,"type":"gm.command","id":"c-1","payload":{}}"#;
    match handle_wait_event(&ctx, WaitEvent::Text(echo.to_vec())) {
        WaitVerdict::Fail(ClientError::UnexpectedMessageType(_)) => {},
        _ => panic!("expected UnexpectedMessageType"),
    }
}

#[test]
fn test_handle_reply_rejects_push_frame() {
    // The single-shot check is strict: even a push frame is an error
    // when one reply is expected.
    let client = WsClient::new(b"ws://localhost:5007".to_vec(), None, 5000);
    let push = br#"{"version":1,"type":"event.log","id":"e-1","payload":{}}"#;
    assert!(client.handle_reply(push, b"msg-1").is_err());
}

#[test]
fn test_non_text_frame_fails() {
    let ctx = RequestCtx { id: b"msg-1".to_vec(), timeout_ms: 5000 };
    match handle_wait_event(&ctx, WaitEvent::NonText) {
        WaitVerdict::Fail(ClientError::MalformedEnvelope) => {},
        _ => panic!("expected MalformedEnvelope"),
    }
}
