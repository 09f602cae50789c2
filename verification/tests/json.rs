use dev_tool::json::{encode_json, Json};
use dev_tool::json_parser::parse_json;

fn round_trip(v: &Json) -> Json {
    parse_json(&encode_json(v)).expect("canonical text must parse")
}

#[test]
fn test_encode_values() {
    assert_eq!(encode_json(&Json::Null), b"null".to_vec());
    assert_eq!(encode_json(&Json::Bool(true)), b"true".to_vec());
    assert_eq!(encode_json(&Json::Bool(false)), b"false".to_vec());
    assert_eq!(encode_json(&Json::Int(0)), b"0".to_vec());
    assert_eq!(encode_json(&Json::Int(-907)), b"-907".to_vec());
    assert_eq!(
        encode_json(&Json::Int(i64::MIN)),
        b"-9223372036854775808".to_vec()
    );
    assert_eq!(
        encode_json(&Json::Str(b"a\"b\\c".to_vec())),
        b"\"a\\\"b\\\\c\"".to_vec()
    );
    assert_eq!(
        encode_json(&Json::Arr(vec![Json::Int(1), Json::Int(2)])),
        b"[1,2]".to_vec()
    );
    assert_eq!(encode_json(&Json::Obj(vec![])), b"{}".to_vec());
}

#[test]
fn test_parse_round_trip_nested() {
    let v = Json::Obj(vec![
        (b"a".to_vec(), Json::Arr(vec![Json::Null, Json::Bool(false), Json::Int(-1)])),
        (
            b"b".to_vec(),
            Json::Obj(vec![(b"inner".to_vec(), Json::Str(b"x \\ \" y".to_vec()))]),
        ),
    ]);
    let w = round_trip(&v);
    assert_eq!(encode_json(&w), encode_json(&v));
}

#[test]
fn test_parse_whitespace_tolerant() {
    let text = b" { \"a\" : [ 1 , 2 ] ,\n\t\"b\" : \"c\" } ";
    let v = parse_json(text).unwrap();
    assert_eq!(encode_json(&v), b"{\"a\":[1,2],\"b\":\"c\"}".to_vec());
}

#[test]
fn test_parse_rejects() {
    assert!(parse_json(b"").is_none());
    assert!(parse_json(b"nul").is_none());
    assert!(parse_json(b"01").is_none());
    assert!(parse_json(b"1.5").is_none());
    assert!(parse_json(b"1e3").is_none());
    assert!(parse_json(b"-").is_none());
    assert!(parse_json(b"[1,]").is_none());
    assert!(parse_json(b"{\"a\"}").is_none());
    assert!(parse_json(b"{1:2}").is_none());
    assert!(parse_json(b"\"\\u0041\"").is_none());
    assert!(parse_json(b"[1] trailing").is_none());
    assert!(parse_json(b"9223372036854775808").is_none());
    assert!(parse_json(b"-9223372036854775809").is_none());
}

#[test]
fn test_parse_int_bounds() {
    match parse_json(b"9223372036854775807").unwrap() {
        Json::Int(i) => assert_eq!(i, i64::MAX),
        _ => panic!("expected an integer"),
    }
    match parse_json(b"-9223372036854775808").unwrap() {
        Json::Int(i) => assert_eq!(i, i64::MIN),
        _ => panic!("expected an integer"),
    }
    match parse_json(b"-0").unwrap() {
        Json::Int(i) => assert_eq!(i, 0),
        _ => panic!("expected an integer"),
    }
}

#[test]
fn test_parse_string_escapes() {
    match parse_json(b"\"a\\\"b\\\\c\"").unwrap() {
        Json::Str(s) => assert_eq!(s, b"a\"b\\c".to_vec()),
        _ => panic!("expected a string"),
    }
}
