//! The calls that the client offers, over a server with fixed replies.

use std::cell::RefCell;

use bitcoincore_rpc::api::RpcApi;
use bitcoincore_rpc::args::into_json;
use bitcoincore_rpc::blockchain_info::BlockchainInfo;
use bitcoincore_rpc::call::{Content, ToolReply, ToolRequest};
use bitcoincore_rpc::chain::{BlockHash, RawTx, Txid};
use bitcoincore_rpc::client::ToolClient;
use bitcoincore_rpc::error::RpcError;
use bitcoincore_rpc::json::{Json, Object};
use bitcoincore_rpc::softfork::{OldBip9SoftFork, SoftforkTable};
use serde_json::Value;

const GENESIS_HASH: &str = "000000000019d6689c085ae165831e934ff763ae46a2a6c172b3f1b60a8ce26f";

/// Answers one command after the other, and keeps what it was asked.
struct Server {
    replies: RefCell<Vec<Result<Value, RpcError>>>,
    calls: RefCell<Vec<(String, Vec<Json>)>>,
}

impl Server {
    fn new(mut replies: Vec<Result<Value, RpcError>>) -> Server {
        replies.reverse();
        Server { replies: RefCell::new(replies), calls: RefCell::new(vec![]) }
    }

    fn answering(text: &str) -> Server {
        Server::new(vec![Ok(serde_json::from_str(text).unwrap())])
    }

    fn failing() -> Server {
        Server::new(vec![Err(RpcError::Mcp("gone".to_string()))])
    }

    fn saw(&self, cmd: &str, args: Vec<Json>) {
        assert_eq!(self.calls.borrow_mut().remove(0), (cmd.to_string(), args));
    }

    fn saw_no_more(&self) {
        assert!(self.calls.borrow().is_empty());
    }
}

impl RpcApi for Server {
    fn call(&self, cmd: &str, args: &[Json]) -> Result<Value, RpcError> {
        self.calls.borrow_mut().push((cmd.to_string(), args.to_vec()));
        self.replies.borrow_mut().pop().unwrap()
    }
}

fn genesis() -> bitcoin::Block {
    bitcoin::constants::genesis_block(bitcoin::Network::Bitcoin)
}

fn genesis_hash() -> BlockHash {
    BlockHash { bytes: bitcoin::hashes::Hash::to_byte_array(genesis().block_hash()) }
}

fn coinbase_id() -> Txid {
    Txid { bytes: bitcoin::hashes::Hash::to_byte_array(genesis().txdata[0].compute_txid()) }
}

fn quoted(text: &str) -> String {
    format!("\"{}\"", text)
}

fn decode_info(json: Json) -> Result<BlockchainInfo<bool>, RpcError> {
    let old = json.as_object().unwrap().get("bip9_softforks").is_none();
    Ok(BlockchainInfo { softforks: SoftforkTable::new(), rest: old })
}

fn decode_bip9(_json: Json) -> Result<OldBip9SoftFork, RpcError> {
    Err(RpcError::ReturnedError("bip9".to_string()))
}

#[test]
fn the_version_is_asked_for() {
    let server = Server::answering("{\"version\": 270000}");
    assert_eq!(server.version().unwrap(), 270000);
    server.saw("getnetworkinfo", vec![]);
    assert!(matches!(Server::answering("{}").version(), Err(RpcError::Json(_))));
    assert!(matches!(Server::failing().version(), Err(RpcError::Mcp(_))));
}

#[test]
fn a_block_is_asked_for() {
    let hex = bitcoin::consensus::encode::serialize_hex(&genesis());
    let server = Server::answering(&quoted(&hex));
    assert_eq!(server.get_block(&genesis_hash()).unwrap(), genesis());
    let asked = vec![Json::String(GENESIS_HASH.to_string()), into_json(0u64)];
    server.saw("getblock", asked.clone());
    let server = Server::answering(&quoted(&hex));
    assert_eq!(server.get_block_hex(&genesis_hash()).unwrap(), hex);
    server.saw("getblock", asked.clone());
    let server = Server::answering(&quoted(&hex));
    let block: bitcoin::Block = server.get_by_id(&genesis_hash()).unwrap();
    assert_eq!(block, genesis());
    server.saw("getblock", asked);
}

#[test]
fn a_block_that_does_not_decode_is_refused() {
    let hash = genesis_hash();
    assert!(matches!(
        Server::answering("\"00\"").get_block(&hash),
        Err(RpcError::BitcoinSerialization(_))
    ));
    assert!(matches!(Server::answering("0").get_block(&hash), Err(RpcError::Json(_))));
    assert!(matches!(Server::answering("0").get_block_hex(&hash), Err(RpcError::Json(_))));
    assert!(matches!(Server::failing().get_block(&hash), Err(RpcError::Mcp(_))));
}

#[test]
fn information_is_passed_on() {
    let hash = Json::String(GENESIS_HASH.to_string());
    let server = Server::answering("{\"size\": 285}");
    assert_eq!(server.get_block_info(&genesis_hash()).unwrap()["size"], Value::from(285));
    server.saw("getblock_verbose", vec![hash.clone(), into_json(1u64)]);
    let server = Server::answering("{\"height\": 0}");
    assert_eq!(server.get_block_header_info(&genesis_hash()).unwrap()["height"], Value::from(0));
    server.saw("getblockheader", vec![hash.clone(), into_json(true)]);
    let server = Server::answering("{\"filter\": \"00\"}");
    assert_eq!(server.get_block_filter(&genesis_hash()).unwrap()["filter"], Value::from("00"));
    server.saw("getblockfilter", vec![hash]);
}

#[test]
fn the_block_count_is_asked_for() {
    let server = Server::answering("840000");
    assert_eq!(server.get_block_count().unwrap(), 840000);
    server.saw("getblockcount", vec![]);
    assert!(matches!(Server::answering("-1").get_block_count(), Err(RpcError::Json(_))));
}

#[test]
fn a_block_hash_is_asked_for() {
    let server = Server::answering(&quoted(GENESIS_HASH));
    assert_eq!(server.get_block_hash(0).unwrap(), genesis_hash());
    server.saw("getblockhash", vec![into_json(0u64)]);
    assert!(matches!(Server::answering("\"00\"").get_block_hash(0), Err(RpcError::Json(_))));
}

#[test]
fn a_transaction_is_asked_for() {
    let tx = genesis().txdata[0].clone();
    let hex = quoted(&bitcoin::consensus::encode::serialize_hex(&tx));
    let id = Json::String(tx.compute_txid().to_string());
    let server = Server::answering(&hex);
    assert_eq!(server.get_raw_transaction(&coinbase_id(), None).unwrap(), tx);
    server.saw("getrawtransaction", vec![id.clone(), Json::Bool(false)]);
    let server = Server::answering(&hex);
    assert_eq!(server.get_raw_transaction(&coinbase_id(), Some(&genesis_hash())).unwrap(), tx);
    let hash = Json::String(GENESIS_HASH.to_string());
    server.saw("getrawtransaction", vec![id.clone(), Json::Bool(false), hash]);
    let server = Server::answering(&hex);
    let found: bitcoin::Transaction = server.get_by_id(&coinbase_id()).unwrap();
    assert_eq!(found, tx);
    server.saw("getrawtransaction", vec![id, Json::Bool(false)]);
}

#[test]
fn the_mempool_is_asked_for() {
    let server = Server::answering(&format!("[{}]", quoted(GENESIS_HASH)));
    let list = server.get_raw_mempool().unwrap();
    assert_eq!(list, vec![Txid { bytes: genesis_hash().bytes }]);
    server.saw("getrawmempool", vec![]);
    assert!(matches!(Server::answering("{}").get_raw_mempool(), Err(RpcError::Json(_))));
}

#[test]
fn blockchain_information_needs_the_version() {
    let reply = serde_json::from_str("{\"softforks\": [], \"bip9_softforks\": {}}").unwrap();
    let version = serde_json::from_str("{\"version\": 180000}").unwrap();
    let server = Server::new(vec![Ok(reply), Ok(version)]);
    let info = server.get_blockchain_info(&decode_info, &decode_bip9).unwrap();
    assert!(info.rest);
    server.saw("getblockchaininfo", vec![]);
    server.saw("getnetworkinfo", vec![]);
    server.saw_no_more();
    let server = Server::new(vec![Ok(Value::Null), Err(RpcError::Mcp("gone".to_string()))]);
    let info = server.get_blockchain_info(&decode_info, &decode_bip9);
    assert!(matches!(info, Err(RpcError::Mcp(_))));
}

#[test]
fn blockchain_information_fails_with_its_call() {
    let server = Server::failing();
    let info = server.get_blockchain_info(&decode_info, &decode_bip9);
    assert!(matches!(info, Err(RpcError::Mcp(_))));
    server.saw("getblockchaininfo", vec![]);
    server.saw_no_more();
}

#[test]
fn every_call_sends_its_arguments_by_name() {
    let requests: RefCell<Vec<ToolRequest>> = RefCell::new(vec![]);
    let carrier = ToolClient::new(|request: ToolRequest| {
        requests.borrow_mut().push(request);
        Ok(ToolReply { content: vec![Content::Other], is_error: None })
    });
    let (hash, txid) = (genesis_hash(), coinbase_id());
    assert!(carrier.version().is_err());
    assert!(carrier.get_blockchain_info(&decode_info, &decode_bip9).is_err());
    assert!(carrier.get_block_count().is_err());
    assert!(carrier.get_raw_mempool().is_err());
    assert!(carrier.get_block_hash(7).is_err());
    assert!(carrier.get_block(&hash).is_err());
    assert_eq!(carrier.get_block_info(&hash).unwrap(), Value::Null);
    assert_eq!(carrier.get_block_header_info(&hash).unwrap(), Value::Null);
    assert_eq!(carrier.get_block_filter(&hash).unwrap(), Value::Null);
    assert!(carrier.get_raw_transaction(&txid, None).is_err());
    assert!(carrier.get_raw_transaction(&txid, Some(&hash)).is_err());

    let hash = into_json(&hash);
    let txid = into_json(&txid);
    let wanted: Vec<(&str, Vec<(&str, Json)>)> = vec![
        ("getnetworkinfo", vec![]),
        ("getblockchaininfo", vec![]),
        ("getnetworkinfo", vec![]),
        ("getblockcount", vec![]),
        ("getrawmempool", vec![]),
        ("getblockhash", vec![("height", into_json(7u64))]),
        ("getblock", vec![("blockhash", hash.clone()), ("verbosity", into_json(0u64))]),
        ("getblock_verbose", vec![("blockhash", hash.clone()), ("verbosity", into_json(1u64))]),
        ("getblockheader", vec![("blockhash", hash.clone()), ("verbose", into_json(true))]),
        ("getblockfilter", vec![("blockhash", hash.clone())]),
        ("getrawtransaction", vec![("txid", txid.clone()), ("verbosity", into_json(false))]),
        (
            "getrawtransaction",
            vec![("txid", txid), ("verbosity", into_json(false)), ("blockhash", hash)],
        ),
    ];
    let wanted: Vec<ToolRequest> = wanted
        .into_iter()
        .map(|(tool, members)| {
            let mut arguments = Object::new();
            for (name, value) in members {
                arguments.insert(name.to_string(), value);
            }
            let arguments = if arguments.len() > 0 { Some(arguments) } else { None };
            ToolRequest { tool: tool.to_string(), arguments }
        })
        .collect();
    assert!(carrier.call("stop", &[]).is_err());
    assert_eq!(*requests.borrow(), wanted);
}

#[test]
fn a_client_reads_what_its_server_answers() {
    let answering = |text: &str| {
        let text = text.to_string();
        ToolClient::new(move |_request: ToolRequest| {
            Ok(ToolReply { content: vec![Content::Text(text.clone())], is_error: None })
        })
    };
    assert_eq!(answering("840000").get_block_count().unwrap(), 840000);
    assert_eq!(answering(&quoted(GENESIS_HASH)).get_block_hash(0).unwrap(), genesis_hash());
    let tx = genesis().txdata[0].clone();
    let found = answering(&quoted(&(&tx).raw_hex())).get_raw_transaction(&coinbase_id(), None);
    assert_eq!(found.unwrap(), tx);
    let gone = ToolClient::new(|_request: ToolRequest| Err("gone".to_string()));
    assert!(matches!(gone.get_block_count(), Err(RpcError::Mcp(reason)) if reason == "gone"));
    let failing = ToolClient::new(|_request: ToolRequest| {
        Ok(ToolReply { content: vec![], is_error: Some(true) })
    });
    assert!(matches!(failing.get_block_count(), Err(RpcError::ReturnedError(_))));
}

#[test]
fn a_client_asks_for_information_and_version() {
    let tools: RefCell<Vec<String>> = RefCell::new(vec![]);
    let client = ToolClient::new(|request: ToolRequest| {
        let text = if request.tool == "getnetworkinfo" {
            "{\"version\": 180000}"
        } else {
            "{\"softforks\": [], \"bip9_softforks\": {}}"
        };
        tools.borrow_mut().push(request.tool);
        Ok(ToolReply { content: vec![Content::Text(text.to_string())], is_error: None })
    });
    assert!(client.blockchain_info(&decode_info, &decode_bip9).unwrap().rest);
    assert_eq!(*tools.borrow(), vec!["getblockchaininfo", "getnetworkinfo"]);
}
