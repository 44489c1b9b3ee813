//! JSON values.

use bitcoincore_rpc::error::RpcError;
use bitcoincore_rpc::json::{Json, JsonNumber, Object};
use bitcoincore_rpc::wire::{import, read_string, read_u64, read_version};
use serde_json::Value;

fn parsed(text: &str) -> Value {
    serde_json::from_str(text).unwrap()
}

#[test]
fn members_are_put_in_and_taken_out() {
    let mut object = Object::new();
    assert_eq!(object.len(), 0);
    object.insert("a".to_string(), Json::Bool(true));
    object.insert("b".to_string(), Json::Null);
    object.insert("a".to_string(), Json::Bool(false));
    assert_eq!(object.len(), 2);
    assert_eq!(object.at(0), ("a", &Json::Bool(false)));
    assert_eq!(object.get("b"), Some(&Json::Null));
    assert_eq!(object.get("c"), None);
    assert_eq!(object.remove("c"), None);
    assert_eq!(object.remove("a"), Some(Json::Bool(false)));
    assert_eq!(object.get("a"), None);
    assert_eq!(object.get("b"), Some(&Json::Null));
    assert_eq!(object.len(), 1);
}

#[test]
fn values_are_told_apart() {
    let text = Json::String("x".to_string());
    assert!(Json::Null.is_null() && !text.is_null());
    assert_eq!(text.as_str(), Some("x"));
    assert_eq!(text.as_bool(), None);
    assert_eq!(Json::Bool(true).as_bool(), Some(true));
    assert_eq!(Json::Null.as_str(), None);
    let list = Json::Array(vec![text.clone()]);
    assert_eq!(list.as_array(), Some(&vec![text.clone()]));
    assert_eq!(text.as_array(), None);
    assert_eq!(list.as_object(), None);
    assert_eq!(Json::Object(Object::new()).as_object(), Some(&Object::new()));
    assert_eq!(Json::Object(Object::new()).into_object(), Some(Object::new()));
    assert_eq!(Json::Null.into_object(), None);
}

#[test]
fn a_value_is_taken_over_whole() {
    let value = parsed("{\"b\": [1, -2, 1.5, null, true], \"a\": {\"x\": \"y\"}, \"c\": []}");
    let mut inner = Object::new();
    inner.insert("x".to_string(), Json::String("y".to_string()));
    let items = vec![
        Json::Number(JsonNumber::PosInt(1)),
        Json::Number(JsonNumber::NegInt(-2)),
        Json::Number(JsonNumber::Float("1.5".to_string())),
        Json::Null,
        Json::Bool(true),
    ];
    let json = import(value);
    let object = json.as_object().unwrap();
    assert_eq!(object.len(), 3);
    assert_eq!(object.get("a"), Some(&Json::Object(inner)));
    assert_eq!(object.get("b"), Some(&Json::Array(items)));
    assert_eq!(object.get("c"), Some(&Json::Array(vec![])));
    assert_eq!(json.clone(), json);
}

#[test]
fn numbers_at_the_limits() {
    let pos = |text: &str| import(parsed(text));
    assert_eq!(pos("18446744073709551615"), Json::Number(JsonNumber::PosInt(u64::MAX)));
    assert_eq!(pos("-9223372036854775808"), Json::Number(JsonNumber::NegInt(i64::MIN)));
    assert_eq!(pos("9223372036854775808"), Json::Number(JsonNumber::PosInt(1 << 63)));
    assert_eq!(pos("0"), Json::Number(JsonNumber::PosInt(0)));
    assert_eq!(pos("0.0"), Json::Number(JsonNumber::Float("0.0".to_string())));
    assert_eq!(pos("-0"), Json::Number(JsonNumber::Float("-0.0".to_string())));
}

#[test]
fn strings_are_read() {
    assert_eq!(read_string(Value::from("ab")).unwrap(), "ab");
    for value in [Value::Null, Value::from(1), Value::from(vec!["ab"])] {
        assert!(matches!(read_string(value), Err(RpcError::Json(_))));
    }
}

#[test]
fn numbers_are_read() {
    assert_eq!(read_u64(parsed("18446744073709551615")).unwrap(), u64::MAX);
    for text in ["null", "-1", "1.0", "\"1\"", "[1]", "18446744073709551616"] {
        assert!(matches!(read_u64(parsed(text)), Err(RpcError::Json(_))));
    }
}

#[test]
fn versions_are_read() {
    let text = "{\"version\": 250000, \"subversion\": \"/Satoshi:25.0.0/\"}";
    assert_eq!(read_version(parsed(text)).unwrap(), 250000);
    let text = "{\"a\": 1, \"version\": 7, \"z\": {\"version\": 8}}";
    assert_eq!(read_version(parsed(text)).unwrap(), 7);
    assert_eq!(read_version(parsed("[180100]")).unwrap(), 180100);
}

#[test]
fn a_reply_without_a_version_is_refused_in_words() {
    for (text, wanted) in [
        ("{}", "missing field `version`"),
        ("{\"versions\": 1}", "missing field `version`"),
        ("{\"version\": -1}", "invalid value: integer `-1`, expected usize"),
        ("{\"version\": \"1\"}", "invalid type: string \"1\", expected usize"),
        ("{\"version\": null}", "invalid type: null, expected usize"),
        ("[]", "invalid length 0, expected struct Response with 1 element"),
        ("[1, 2, 3]", "invalid length 3, expected fewer elements in array"),
        ("[null, 2]", "invalid type: null, expected usize"),
        ("null", "invalid type: null, expected struct Response"),
        ("true", "invalid type: boolean `true`, expected struct Response"),
        ("false", "invalid type: boolean `false`, expected struct Response"),
        ("70", "invalid type: integer `70`, expected struct Response"),
        (
            "-9223372036854775808",
            "invalid type: integer `-9223372036854775808`, expected struct Response",
        ),
        ("1.50", "invalid type: floating point `1.5`, expected struct Response"),
        ("\"a\\\"b\"", "invalid type: string \"a\\\"b\", expected struct Response"),
    ] {
        match read_version(parsed(text)) {
            Err(RpcError::Json(e)) => assert_eq!(e.to_string(), wanted),
            other => panic!("unexpected: {:?}", other),
        }
    }
}

fn message<T: std::fmt::Debug>(r: Result<T, RpcError>) -> String {
    match r {
        Err(RpcError::Json(e)) => e.to_string(),
        other => panic!("unexpected: {:?}", other),
    }
}

#[test]
fn values_are_refused_in_words() {
    assert_eq!(message(read_string(Value::Null)), "invalid type: null, expected a string");
    assert_eq!(message(read_string(parsed("[1]"))), "invalid type: sequence, expected a string");
    assert_eq!(message(read_u64(parsed("-1"))), "invalid value: integer `-1`, expected u64");
    assert_eq!(
        message(read_u64(parsed("1.5"))),
        "invalid type: floating point `1.5`, expected u64"
    );
}
