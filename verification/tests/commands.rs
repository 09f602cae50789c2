use dev_tool::cli::{Cli, Commands, OutputFormat};
use dev_tool::commands::{regen_map, reload, spawn, tp};

#[test]
fn test_spawn_valid() {
    let result = spawn::execute(b"goblin", 10, 20, &OutputFormat::Text);
    assert!(result.is_ok());
}

#[test]
fn test_spawn_empty_mob() {
    let result = spawn::execute(b"", 10, 20, &OutputFormat::Text);
    assert!(result.is_err());
}

#[test]
fn test_spawn_whitespace_mob() {
    let result = spawn::execute(b"   ", 10, 20, &OutputFormat::Text);
    assert!(result.is_err());
}

#[test]
fn test_tp_valid() {
    let result = tp::execute(5, 15, &OutputFormat::Text);
    assert!(result.is_ok());
}

#[test]
fn test_tp_negative_coords() {
    let result = tp::execute(-5, -10, &OutputFormat::Text);
    assert!(result.is_ok());
}

#[test]
fn test_reload() {
    let result = reload::execute(&OutputFormat::Text);
    assert!(result.is_ok());
}

#[test]
fn test_regen_map_with_seed() {
    let result = regen_map::execute(Some(12345), &OutputFormat::Text);
    assert!(result.is_ok());
}

#[test]
fn test_regen_map_without_seed() {
    let result = regen_map::execute(None, &OutputFormat::Text);
    assert!(result.is_ok());
}

#[test]
fn test_spawn_text_line() {
    let out = spawn::execute(b"goblin", 10, 20, &OutputFormat::Text).unwrap();
    assert_eq!(
        String::from_utf8(out).unwrap(),
        "Spawning mob 'goblin' at coordinates (10, 20)"
    );
}

#[test]
fn test_tp_text_line_negative() {
    let out = tp::execute(-5, -10, &OutputFormat::Text).unwrap();
    assert_eq!(
        String::from_utf8(out).unwrap(),
        "Teleporting to coordinates (-5, -10)"
    );
}

#[test]
fn test_spawn_json_record() {
    let out = spawn::execute(b"goblin", 10, 20, &OutputFormat::Json).unwrap();
    assert_eq!(
        String::from_utf8(out).unwrap(),
        r#"{"cmd":"spawn","args":{"mob":"goblin","x":10,"y":20},"status":"success"}"#
    );
}

#[test]
fn test_reload_json_record() {
    let out = reload::execute(&OutputFormat::Json).unwrap();
    assert_eq!(
        String::from_utf8(out).unwrap(),
        r#"{"cmd":"reload","status":"success"}"#
    );
}

#[test]
fn test_regen_map_text_lines() {
    let with_seed = regen_map::execute(Some(7), &OutputFormat::Text).unwrap();
    assert_eq!(
        String::from_utf8(with_seed).unwrap(),
        "Regenerating map with seed: 7"
    );
    let without = regen_map::execute(None, &OutputFormat::Text).unwrap();
    assert_eq!(
        String::from_utf8(without).unwrap(),
        "Regenerating map with random seed"
    );
}

#[test]
fn test_cli_run_dispatch() {
    let cli = Cli {
        command: Commands::Spawn { mob: b"goblin".to_vec(), x: 3, y: 4 },
        output: OutputFormat::Text,
    };
    assert_eq!(
        String::from_utf8(cli.run().unwrap()).unwrap(),
        "Spawning mob 'goblin' at coordinates (3, 4)"
    );
    let blank = Cli {
        command: Commands::Spawn { mob: b" ".to_vec(), x: 3, y: 4 },
        output: OutputFormat::Text,
    };
    assert!(blank.run().is_err());
    let reload = Cli { command: Commands::Reload, output: OutputFormat::Json };
    assert_eq!(
        String::from_utf8(reload.run().unwrap()).unwrap(),
        r#"{"cmd":"reload","status":"success"}"#
    );
}
