//! The reply to `getblockchaininfo`.

use bitcoincore_rpc::blockchain_info::{add_buried, blockchain_info, split_softforks};
use bitcoincore_rpc::blockchain_info::{BlockchainInfo, SOFTFORK_MAP_VERSION};
use bitcoincore_rpc::error::RpcError;
use bitcoincore_rpc::json::{Json, JsonNumber, Object};
use bitcoincore_rpc::softfork::{Bip9SoftforkInfo, Bip9SoftforkStatus, OldBip9SoftFork};
use bitcoincore_rpc::softfork::{Softfork, SoftforkTable, SoftforkType};
use bitcoincore_rpc::wire::import;

const OLD: &str = "{\"chain\": \"main\", \
    \"softforks\": [\
        {\"id\": \"bip34\", \"version\": 2, \"reject\": {\"status\": true}}, \
        {\"id\": \"csv\", \"reject\": {\"status\": false}}], \
    \"bip9_softforks\": {\"csv\": 3, \"segwit\": 1}}";

fn json(text: &str) -> Json {
    import(serde_json::from_str(text).unwrap())
}

fn buried(active: bool) -> Softfork {
    Softfork { type_: SoftforkType::Buried, bip9: None, height: None, active }
}

fn old_bip9(since: u32, status: Bip9SoftforkStatus) -> OldBip9SoftFork {
    OldBip9SoftFork { status, bit: Some(1), start_time: -5, timeout: 9, since, statistics: None }
}

/// Accepts a reply with a "softforks" map, and passes its "chain" on.
fn decode_info(json: Json) -> Result<BlockchainInfo<String>, RpcError> {
    let object = json.as_object().unwrap();
    assert!(object.get("bip9_softforks").is_none());
    let mut softforks = SoftforkTable::new();
    let map = object.get("softforks").unwrap().as_object().unwrap();
    for i in 0..map.len() {
        let (id, active) = map.at(i);
        softforks.insert(id.to_string(), buried(active.as_bool().unwrap()));
    }
    match object.get("chain") {
        Some(chain) => Ok(BlockchainInfo { softforks, rest: chain.as_str().unwrap().to_string() }),
        None => Err(RpcError::ReturnedError("no chain".to_string())),
    }
}

/// Takes a number as that of the block since which the softfork is active.
fn decode_bip9(json: Json) -> Result<OldBip9SoftFork, RpcError> {
    match json {
        Json::Number(JsonNumber::PosInt(1)) => Ok(old_bip9(1, Bip9SoftforkStatus::Active)),
        Json::Number(JsonNumber::PosInt(n)) => Ok(old_bip9(n as u32, Bip9SoftforkStatus::Started)),
        _ => Err(RpcError::ReturnedError("no number".to_string())),
    }
}

fn decoded(text: &str, version: usize) -> Result<BlockchainInfo<String>, RpcError> {
    blockchain_info(json(text), version, &decode_info, &decode_bip9)
}

#[test]
fn softforks_of_an_old_server_are_converted() {
    let info = decoded(OLD, 180100).unwrap();
    assert_eq!(info.rest, "main");
    assert_eq!(info.softforks.len(), 3);
    assert_eq!(info.softforks.get("bip34"), Some(&buried(true)));
    let segwit = Softfork {
        type_: SoftforkType::Bip9,
        bip9: Some(Bip9SoftforkInfo {
            status: Bip9SoftforkStatus::Active,
            bit: Some(1),
            start_time: -5,
            timeout: 9,
            since: 1,
            statistics: None,
        }),
        height: None,
        active: true,
    };
    assert_eq!(info.softforks.get("segwit"), Some(&segwit));
    assert_eq!(info.softforks.get("taproot"), None);
}

#[test]
fn a_bip9_softfork_takes_the_place_of_a_buried_one() {
    let info = decoded(OLD, 0).unwrap();
    let csv = info.softforks.get("csv").unwrap();
    assert_eq!(csv.type_, SoftforkType::Bip9);
    assert_eq!(csv.bip9.unwrap().since, 3);
    assert!(!csv.active);
}

#[test]
fn a_new_server_is_taken_at_its_word() {
    let text = "{\"chain\": \"test\", \"softforks\": {\"csv\": true}}";
    let info = decoded(text, SOFTFORK_MAP_VERSION).unwrap();
    assert_eq!(SOFTFORK_MAP_VERSION, 190000);
    assert_eq!(info.rest, "test");
    assert_eq!(info.softforks.len(), 1);
    assert_eq!(info.softforks.at(0), ("csv", &buried(true)));
}

#[test]
fn the_version_decides() {
    let text = "{\"chain\": \"test\", \"softforks\": {\"csv\": true}}";
    assert!(matches!(decoded(text, 189999), Err(RpcError::UnexpectedStructure)));
    assert!(decoded(text, 190000).is_ok());
}

#[test]
fn an_old_reply_without_its_fields_is_refused() {
    for text in [
        "null",
        "[]",
        "{\"chain\": \"main\", \"softforks\": []}",
        "{\"chain\": \"main\", \"bip9_softforks\": {}}",
        "{\"chain\": \"main\", \"softforks\": {}, \"bip9_softforks\": {}}",
        "{\"chain\": \"main\", \"softforks\": [], \"bip9_softforks\": []}",
        "{\"chain\": \"main\", \"softforks\": [1], \"bip9_softforks\": {}}",
        "{\"chain\": \"main\", \"softforks\": [{\"id\": 1}], \"bip9_softforks\": {}}",
        "{\"chain\": \"main\", \"softforks\": [{\"id\": \"a\"}], \"bip9_softforks\": {}}",
        "{\"chain\": \"main\", \"softforks\": [{\"id\": \"a\", \"reject\": {}}], \
            \"bip9_softforks\": {}}",
        "{\"chain\": \"main\", \"softforks\": [{\"id\": \"a\", \"reject\": {\"status\": 1}}], \
            \"bip9_softforks\": {}}",
    ] {
        assert!(matches!(decoded(text, 180000), Err(RpcError::UnexpectedStructure)), "{}", text);
    }
}

#[test]
fn the_first_decoding_error_is_passed_on() {
    let text = "{\"softforks\": 1, \"bip9_softforks\": 1}";
    match decoded(text, 180000) {
        Err(RpcError::ReturnedError(message)) => assert_eq!(message, "no chain"),
        other => panic!("unexpected: {:?}", other),
    }
    let text = "{\"chain\": \"main\", \"softforks\": [], \"bip9_softforks\": {\"a\": null}}";
    match decoded(text, 180000) {
        Err(RpcError::ReturnedError(message)) => assert_eq!(message, "no number"),
        other => panic!("unexpected: {:?}", other),
    }
}

#[test]
fn the_rest_of_an_old_reply_stays() {
    let reply = split_softforks(json(OLD)).unwrap();
    let rest = reply.rest.as_object().unwrap();
    assert_eq!(rest.len(), 2);
    assert_eq!(rest.get("chain"), Some(&Json::String("main".to_string())));
    assert_eq!(rest.get("softforks"), Some(&Json::Object(Object::new())));
    assert_eq!(rest.get("bip9_softforks"), None);
    assert_eq!(reply.old_softforks.as_array().unwrap().len(), 2);
    assert_eq!(reply.bip9_softforks.as_object().unwrap().len(), 2);
}

#[test]
fn the_last_of_two_entries_counts() {
    let mut table = SoftforkTable::new();
    table.insert("b".to_string(), buried(true));
    let field = json(
        "[{\"id\": \"a\", \"reject\": {\"status\": true}}, \
          {\"id\": \"a\", \"reject\": {\"status\": false}}]",
    );
    let table = add_buried(table, &field).unwrap();
    assert_eq!(table.len(), 2);
    assert_eq!(table.get("a"), Some(&buried(false)));
    assert_eq!(table.get("b"), Some(&buried(true)));
}
