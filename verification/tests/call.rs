//! Tool calls and their replies.

use std::cell::RefCell;

use bitcoincore_rpc::args::{into_json, null};
use bitcoincore_rpc::call::{call_tool, read_reply, reply_text, rpc_params, tool_request};
use bitcoincore_rpc::call::{Content, ToolReply, ToolRequest};
use bitcoincore_rpc::error::RpcError;
use bitcoincore_rpc::json::{Json, Object};

fn text_reply(text: &str, is_error: Option<bool>) -> ToolReply {
    ToolReply { content: vec![Content::Text(text.to_string())], is_error }
}

fn object(members: Vec<(&str, Json)>) -> Object {
    let mut object = Object::new();
    for (name, value) in members {
        object.insert(name.to_string(), value);
    }
    object
}

#[test]
fn parameters_of_every_command() {
    let none: &[&str] = &[];
    assert_eq!(rpc_params("getblockchaininfo"), Some(none));
    assert_eq!(rpc_params("getnetworkinfo"), Some(none));
    assert_eq!(rpc_params("getblockcount"), Some(none));
    assert_eq!(rpc_params("getblockhash"), Some(&["height"][..]));
    assert_eq!(rpc_params("getblock"), Some(&["blockhash", "verbosity"][..]));
    assert_eq!(rpc_params("getblock_verbose"), Some(&["blockhash", "verbosity"][..]));
    assert_eq!(rpc_params("getblockheader"), Some(&["blockhash", "verbose"][..]));
    assert_eq!(rpc_params("getblockfilter"), Some(&["blockhash", "filtertype"][..]));
    assert_eq!(rpc_params("getrawmempool"), Some(&["verbose"][..]));
    assert_eq!(rpc_params("getrawtransaction"), Some(&["txid", "verbosity", "blockhash"][..]));
    assert_eq!(rpc_params("sendrawtransaction"), None);
    assert_eq!(rpc_params("GetBlock"), None);
    assert_eq!(rpc_params(""), None);
}

#[test]
fn arguments_are_named_by_position() {
    let request = tool_request("getblock", &[into_json(true), into_json(1u64)]).unwrap();
    assert_eq!(request.tool, "getblock");
    let arguments = object(vec![("blockhash", into_json(true)), ("verbosity", into_json(1u64))]);
    assert_eq!(request.arguments, Some(arguments));
}

#[test]
fn null_arguments_are_not_sent() {
    let args = [into_json(1u64), null(), into_json(3u64)];
    let request = tool_request("getrawtransaction", &args).unwrap();
    let arguments = object(vec![("txid", into_json(1u64)), ("blockhash", into_json(3u64))]);
    assert_eq!(request.arguments, Some(arguments));
    let request = tool_request("getrawmempool", &[null()]).unwrap();
    assert_eq!(request.arguments, None);
}

#[test]
fn trailing_nulls_do_not_count() {
    let long = tool_request("getrawtransaction", &[into_json(1u64), into_json(false), null()]);
    let short = tool_request("getrawtransaction", &[into_json(1u64), into_json(false)]);
    assert_eq!(long.unwrap(), short.unwrap());
}

#[test]
fn arguments_without_a_name_are_not_sent() {
    let request = tool_request("getblockcount", &[into_json(1u64)]).unwrap();
    assert_eq!(request, ToolRequest { tool: "getblockcount".to_string(), arguments: None });
}

#[test]
fn an_unknown_command_is_refused() {
    match tool_request("stop", &[]) {
        Err(RpcError::ReturnedError(message)) => {
            assert_eq!(message, "unknown RPC command: stop");
        }
        other => panic!("unexpected: {:?}", other),
    }
}

#[test]
fn the_first_text_counts() {
    let reply = ToolReply {
        content: vec![
            Content::Other,
            Content::Text("1".to_string()),
            Content::Text("2".to_string()),
        ],
        is_error: Some(false),
    };
    assert_eq!(reply_text(&reply).unwrap(), "1");
    assert_eq!(read_reply(&reply).unwrap(), serde_json::Value::from(1));
}

#[test]
fn a_reply_without_text_is_null() {
    let reply = ToolReply { content: vec![Content::Other], is_error: None };
    assert_eq!(reply_text(&reply).unwrap(), "null");
    assert_eq!(read_reply(&reply).unwrap(), serde_json::Value::Null);
    let reply = ToolReply { content: vec![], is_error: None };
    assert_eq!(read_reply(&reply).unwrap(), serde_json::Value::Null);
}

#[test]
fn an_error_reply_is_an_error() {
    match read_reply(&text_reply("Block not found", Some(true))) {
        Err(RpcError::ReturnedError(text)) => assert_eq!(text, "Block not found"),
        other => panic!("unexpected: {:?}", other),
    }
    match read_reply(&ToolReply { content: vec![], is_error: Some(true) }) {
        Err(RpcError::ReturnedError(text)) => assert_eq!(text, "null"),
        other => panic!("unexpected: {:?}", other),
    }
}

#[test]
fn a_reply_that_is_not_json_is_an_error() {
    for (text, wanted) in [
        ("{", "EOF while parsing an object at line 1 column 1"),
        ("", "EOF while parsing a value at line 1 column 0"),
        ("nul", "EOF while parsing a value at line 1 column 3"),
    ] {
        match read_reply(&text_reply(text, None)) {
            Err(RpcError::Json(e)) => assert_eq!(e.to_string(), wanted),
            other => panic!("unexpected: {:?}", other),
        }
    }
}

#[test]
fn a_call_sends_its_request_and_reads_the_reply() {
    let seen: RefCell<Vec<ToolRequest>> = RefCell::new(vec![]);
    let send = |request: ToolRequest| {
        seen.borrow_mut().push(request);
        Ok(text_reply("{\"a\": [1, null]}", None))
    };
    let value = call_tool("getblockhash", &[into_json(9u64)], &send).unwrap();
    assert_eq!(value["a"][0], serde_json::Value::from(1));
    let arguments = object(vec![("height", into_json(9u64))]);
    let request =
        ToolRequest { tool: "getblockhash".to_string(), arguments: Some(arguments) };
    assert_eq!(seen.into_inner(), vec![request]);
}

#[test]
fn a_call_that_is_not_answered_fails() {
    let send = |_request: ToolRequest| Err("no relay".to_string());
    match call_tool("getblockcount", &[], &send) {
        Err(RpcError::Mcp(reason)) => assert_eq!(reason, "no relay"),
        other => panic!("unexpected: {:?}", other),
    }
}

#[test]
fn an_unknown_command_is_not_sent() {
    let count = RefCell::new(0);
    let send = |_request: ToolRequest| {
        *count.borrow_mut() += 1;
        Ok(text_reply("null", None))
    };
    assert!(matches!(call_tool("stop", &[], &send), Err(RpcError::ReturnedError(_))));
    assert_eq!(count.into_inner(), 0);
}
