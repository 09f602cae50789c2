use dev_tool::dispatch::{
    command_payload, exit_code, parse_i32, parse_repl_command, recoverable_in_session,
    render_reply, tokenize, validate_command, Command, LocalError,
};
use dev_tool::json::encode_json;
use dev_tool::protocol::ReplyPayload;
use dev_tool::ws::ClientError;

#[test]
fn test_spawn_wire_payload() {
    // spawn goblin 10 5 -> {"entity":"goblin","x":10,"y":5}
    let cmd = parse_repl_command(b"spawn goblin 10 5").unwrap();
    let payload = command_payload(cmd);
    assert_eq!(
        String::from_utf8(encode_json(&payload)).unwrap(),
        r#"{"entity":"goblin","x":10,"y":5}"#
    );
}

#[test]
fn test_tp_wire_payload_negative() {
    // tp -5 -10 -> {"x":-5,"y":-10}: negative coordinates permitted.
    let cmd = parse_repl_command(b"tp -5 -10").unwrap();
    let payload = command_payload(cmd);
    assert_eq!(
        String::from_utf8(encode_json(&payload)).unwrap(),
        r#"{"x":-5,"y":-10}"#
    );
}

#[test]
fn test_repl_synonyms_and_defaults() {
    assert!(matches!(parse_repl_command(b"query"), Ok(Command::Query)));
    assert!(matches!(parse_repl_command(b"q"), Ok(Command::Query)));
    assert!(matches!(parse_repl_command(b"teleport 1 2"), Ok(Command::Teleport { x: 1, y: 2 })));
    assert!(matches!(parse_repl_command(b"heal"), Ok(Command::Heal { amount: 100 })));
    assert!(matches!(parse_repl_command(b"heal 42"), Ok(Command::Heal { amount: 42 })));
    match parse_repl_command(b"kill").unwrap() {
        Command::Kill { target } => assert_eq!(target, b"nearest".to_vec()),
        _ => panic!("expected kill"),
    }
    match parse_repl_command(b"kill all").unwrap() {
        Command::Kill { target } => assert_eq!(target, b"all".to_vec()),
        _ => panic!("expected kill"),
    }
    assert!(matches!(parse_repl_command(b"reload"), Ok(Command::Reload)));
    assert!(matches!(
        parse_repl_command(b"regen-map 7"),
        Ok(Command::RegenMap { seed: Some(7) })
    ));
    assert!(matches!(
        parse_repl_command(b"regen-map"),
        Ok(Command::RegenMap { seed: None })
    ));
    assert!(matches!(parse_repl_command(b"noop"), Ok(Command::Noop)));
}

#[test]
fn test_repl_usage_errors() {
    assert!(matches!(
        parse_repl_command(b""),
        Err(ClientError::LocalValidationError(LocalError::EmptyLine))
    ));
    assert!(matches!(
        parse_repl_command(b"   "),
        Err(ClientError::LocalValidationError(LocalError::EmptyLine))
    ));
    assert!(matches!(
        parse_repl_command(b"spawn goblin 10"),
        Err(ClientError::LocalValidationError(LocalError::SpawnUsage))
    ));
    assert!(matches!(
        parse_repl_command(b"spawn goblin ten five"),
        Err(ClientError::LocalValidationError(LocalError::SpawnUsage))
    ));
    assert!(matches!(
        parse_repl_command(b"tp 1"),
        Err(ClientError::LocalValidationError(LocalError::TpUsage))
    ));
    assert!(matches!(
        parse_repl_command(b"give"),
        Err(ClientError::LocalValidationError(LocalError::GiveUsage))
    ));
    assert!(matches!(
        parse_repl_command(b"heal lots"),
        Err(ClientError::LocalValidationError(LocalError::HealUsage))
    ));
    assert!(matches!(
        parse_repl_command(b"frobnicate"),
        Err(ClientError::LocalValidationError(LocalError::UnknownCommand))
    ));
}

#[test]
fn test_local_validation_blank_names() {
    // Blank names are rejected locally, before any network traffic.
    let blank_spawn = Command::Spawn { entity: b"  ".to_vec(), x: 0, y: 0 };
    assert!(matches!(
        validate_command(&blank_spawn),
        Err(ClientError::LocalValidationError(LocalError::BlankEntity))
    ));
    let blank_give = Command::Give { item: b"".to_vec() };
    assert!(matches!(
        validate_command(&blank_give),
        Err(ClientError::LocalValidationError(LocalError::BlankItem))
    ));
    let blank_kill = Command::Kill { target: b" \t".to_vec() };
    assert!(matches!(
        validate_command(&blank_kill),
        Err(ClientError::LocalValidationError(LocalError::BlankTarget))
    ));
    let fine = Command::Spawn { entity: b"goblin".to_vec(), x: 1, y: 2 };
    assert!(validate_command(&fine).is_ok());
}

#[test]
fn test_tokenize_whitespace() {
    let toks = tokenize(b"  spawn\tgoblin  10\n5 ");
    let words: Vec<Vec<u8>> = toks;
    assert_eq!(words.len(), 4);
    assert_eq!(words[0], b"spawn".to_vec());
    assert_eq!(words[1], b"goblin".to_vec());
    assert_eq!(words[2], b"10".to_vec());
    assert_eq!(words[3], b"5".to_vec());
}

#[test]
fn test_parse_i32_edges() {
    assert_eq!(parse_i32(b"0"), Some(0));
    assert_eq!(parse_i32(b"007"), Some(7));
    assert_eq!(parse_i32(b"+42"), Some(42));
    assert_eq!(parse_i32(b"-2147483648"), Some(i32::MIN));
    assert_eq!(parse_i32(b"2147483647"), Some(i32::MAX));
    assert_eq!(parse_i32(b"2147483648"), None);
    assert_eq!(parse_i32(b"-2147483649"), None);
    assert_eq!(parse_i32(b""), None);
    assert_eq!(parse_i32(b"-"), None);
    assert_eq!(parse_i32(b"12a"), None);
}

#[test]
fn test_render_reply_lines() {
    let ok = ReplyPayload {
        status: b"ok".to_vec(),
        message: Some(b"done".to_vec()),
        data: None,
    };
    assert_eq!(String::from_utf8(render_reply(&ok)).unwrap(), "\u{2713} done");
    let err = ReplyPayload {
        status: b"error".to_vec(),
        message: Some(b"no such mob".to_vec()),
        data: None,
    };
    assert_eq!(String::from_utf8(render_reply(&err)).unwrap(), "\u{2717} no such mob");
    let with_data = ReplyPayload {
        status: b"ok".to_vec(),
        message: Some(b"entities".to_vec()),
        data: Some(dev_tool::json::Json::Arr(vec![dev_tool::json::Json::Int(3)])),
    };
    assert_eq!(
        String::from_utf8(render_reply(&with_data)).unwrap(),
        "\u{2713} entities\n[3]"
    );
}

#[test]
fn test_exit_codes() {
    let ok = ReplyPayload { status: b"ok".to_vec(), message: None, data: None };
    assert_eq!(exit_code(&Ok(ok)), 0);
    let err_reply = ReplyPayload { status: b"error".to_vec(), message: None, data: None };
    assert_eq!(exit_code(&Ok(err_reply)), 1);
    assert_eq!(exit_code(&Err(ClientError::Timeout(5000))), 1);
}

#[test]
fn test_session_recovery_policy() {
    assert!(recoverable_in_session(&ClientError::LocalValidationError(
        LocalError::UnknownCommand
    )));
    assert!(!recoverable_in_session(&ClientError::ConnectionClosedEarly));
    assert!(!recoverable_in_session(&ClientError::Timeout(1)));
}
