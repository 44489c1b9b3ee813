//! Reports, settings and texts.

use bitcoincore_rpc::settings::{client_label, connection_settings};
use bitcoincore_rpc::text::{decimal_text, same_text};
use bitcoincore_rpc::tools::{add_tool_lines, schema_report, tool_names, ToolInfo};

fn tool(name: &str, description: Option<&str>, schema: &str) -> ToolInfo {
    ToolInfo {
        name: name.to_string(),
        description: description.map(|text| text.to_string()),
        input_schema: serde_json::from_str(schema).unwrap(),
    }
}

#[test]
fn names_keep_their_order() {
    let tools = vec![tool("getblock", None, "{}"), tool("getblockcount", Some("d"), "{}")];
    assert_eq!(tool_names(&tools), vec!["getblock", "getblockcount"]);
    assert_eq!(tool_names(&vec![]), Vec::<String>::new());
}

#[test]
fn every_tool_is_reported() {
    let tools = vec![
        tool("getblock", Some("Returns a block"), "{\"type\": \"object\"}"),
        tool("getblockcount", None, "{}"),
    ];
    let wanted = vec![
        "MCP server advertises 2 tool(s):",
        "- getblock",
        "  description: Returns a block",
        "  input_schema: {\n  \"type\": \"object\"\n}",
        "- getblockcount",
        "  input_schema: {}",
    ];
    assert_eq!(schema_report(&tools), wanted);
    assert_eq!(schema_report(&vec![]), vec!["MCP server advertises 0 tool(s):"]);
}

#[test]
fn a_schema_without_a_text_is_reported_too() {
    let mut lines = vec!["x".to_string()];
    add_tool_lines(&mut lines, &tool("stop", None, "{}"), None);
    assert_eq!(lines, vec!["x", "- stop", "  input_schema: <unserializable schema>"]);
}

#[test]
fn numbers_in_decimal() {
    assert_eq!(decimal_text(0), "0");
    assert_eq!(decimal_text(9), "9");
    assert_eq!(decimal_text(10), "10");
    assert_eq!(decimal_text(1234567890), "1234567890");
    assert_eq!(decimal_text(u64::MAX), "18446744073709551615");
}

#[test]
fn texts_are_compared() {
    assert!(same_text("", "") && same_text("getblock", "getblock"));
    assert!(!same_text("getblock", "getblocks") && !same_text("a", "A"));
}

#[test]
fn settings_come_from_arguments_first() {
    let args = vec!["npub1".to_string(), "wss://relay".to_string()];
    let settings =
        connection_settings(&args, Some("env".to_string()), Some("ws://env".to_string())).unwrap();
    assert_eq!(settings.server_pubkey, "npub1");
    assert_eq!(settings.relay_url, "wss://relay");
}

#[test]
fn settings_come_from_the_environment_next() {
    let settings =
        connection_settings(&vec![], Some("env".to_string()), Some("ws://env".to_string()))
            .unwrap();
    assert_eq!(settings.server_pubkey, "env");
    assert_eq!(settings.relay_url, "ws://env");
}

#[test]
fn the_relay_has_a_default_and_the_key_has_none() {
    let settings = connection_settings(&vec!["key".to_string()], None, None).unwrap();
    assert_eq!(settings.server_pubkey, "key");
    assert_eq!(settings.relay_url, "ws://localhost:10547");
    assert!(connection_settings(&vec![], None, Some("ws://env".to_string())).is_none());
}

#[test]
fn a_client_shows_its_server() {
    assert_eq!(client_label("abc"), "bitcoincore_rpc::Client(server_pubkey=abc)");
}
