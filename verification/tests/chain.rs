//! Hashes, blocks and transactions.

use bitcoincore_rpc::chain::{decode_block, decode_transaction, read_block, read_transaction};
use bitcoincore_rpc::chain::{read_txids, BlockHash, RawTx, Txid, MAX_DECODED_LEN};
use bitcoincore_rpc::error::RpcError;
use bitcoincore_rpc::json::Json;
use serde_json::Value;

const GENESIS_HASH: &str = "000000000019d6689c085ae165831e934ff763ae46a2a6c172b3f1b60a8ce26f";
const COINBASE_TXID: &str = "4a5e1e4baab89f3a32518a88c31bc87f618f76673e2cc77ab2127b7afdeda33b";
const COINBASE_HEX: &str = "01000000010000000000000000000000000000000000000000000000000000000000\
000000ffffffff4d04ffff001d0104455468652054696d65732030332f4a616e2f32303039204368616e63656c6c6f\
72206f6e206272696e6b206f66207365636f6e64206261696c6f757420666f722062616e6b73ffffffff0100f2052a\
01000000434104678afdb0fe5548271967f1a67130b7105cd6a828e03909a67962e0ea1f61deb649f6bc3f4cef38c4\
f35504e51ec112de5c384df7ba0b8d578a4c702b6bf11d5fac00000000";

fn genesis() -> bitcoin::Block {
    bitcoin::constants::genesis_block(bitcoin::Network::Bitcoin)
}

fn string(text: &str) -> Value {
    Value::from(text)
}

fn bytes_of(text: &str) -> [u8; 32] {
    let hash: bitcoin::BlockHash = text.parse().unwrap();
    bitcoin::hashes::Hash::to_byte_array(hash)
}

#[test]
fn a_hash_is_written_back_to_front() {
    let hash = BlockHash::from_json(string(GENESIS_HASH)).unwrap();
    assert_eq!(hash.bytes[..4], [0x6f, 0xe2, 0x8c, 0x0a]);
    assert_eq!(hash.bytes[31], 0);
    assert_eq!(hash.to_json(), Json::String(GENESIS_HASH.to_string()));
    let txid = Txid { bytes: bytes_of(COINBASE_TXID) };
    assert_eq!(txid.to_json(), Json::String(COINBASE_TXID.to_string()));
}

#[test]
fn a_hash_reads_back() {
    let hash = BlockHash { bytes: [0x5a; 32] };
    match hash.to_json() {
        Json::String(text) => assert_eq!(BlockHash::from_json(string(&text)).unwrap(), hash),
        other => panic!("unexpected: {:?}", other),
    }
}

#[test]
fn a_hash_may_be_in_upper_case() {
    let upper = GENESIS_HASH.to_uppercase();
    let hash = BlockHash::from_json(string(&upper)).unwrap();
    assert_eq!(hash.bytes, bytes_of(GENESIS_HASH));
}

#[test]
fn what_is_no_hash_is_refused() {
    let short = "00".repeat(31);
    let long = "00".repeat(33);
    let odd = "0".repeat(63);
    let other = format!("{}zz", "00".repeat(31));
    for text in [short, long, odd, other, String::new()] {
        assert!(matches!(BlockHash::from_json(string(&text)), Err(RpcError::Json(_))));
    }
    for value in [Value::Null, Value::from(5), Value::from(true), Value::from(vec![GENESIS_HASH])] {
        assert!(matches!(BlockHash::from_json(value), Err(RpcError::Json(_))));
    }
}

#[test]
fn transaction_ids_keep_their_order() {
    let list = read_txids(Value::from(vec![GENESIS_HASH, COINBASE_TXID])).unwrap();
    let wanted =
        vec![Txid { bytes: bytes_of(GENESIS_HASH) }, Txid { bytes: bytes_of(COINBASE_TXID) }];
    assert_eq!(list, wanted);
    assert_eq!(read_txids(Value::Array(vec![])).unwrap(), vec![]);
}

#[test]
fn what_is_no_list_of_ids_is_refused() {
    for value in [
        Value::Null,
        string(COINBASE_TXID),
        Value::from(vec![COINBASE_TXID, "00"]),
        Value::from(vec![1, 2]),
    ] {
        assert!(matches!(read_txids(value), Err(RpcError::Json(_))));
    }
}

#[test]
fn raw_transactions_as_hex() {
    let tx = &genesis().txdata[0];
    assert_eq!(tx.raw_hex(), COINBASE_HEX);
    let bytes: Vec<u8> = vec![0x00, 0x9f, 0xff, 0xa0];
    assert_eq!((&bytes).raw_hex(), "009fffa0");
    assert_eq!((&bytes[1..3]).raw_hex(), "9fff");
    assert_eq!("00AB".raw_hex(), "00AB");
    assert_eq!("cafe".to_string().raw_hex(), "cafe");
}

#[test]
fn a_transaction_is_decoded() {
    let tx = decode_transaction(COINBASE_HEX).unwrap();
    assert_eq!(tx.compute_txid().to_string(), COINBASE_TXID);
    assert_eq!(read_transaction(string(COINBASE_HEX)).unwrap(), tx);
}

#[test]
fn a_block_is_decoded() {
    let hex = bitcoin::consensus::encode::serialize_hex(&genesis());
    let block = decode_block(&hex).unwrap();
    assert_eq!(block.block_hash().to_string(), GENESIS_HASH);
    assert_eq!(read_block(string(&hex)).unwrap(), block);
}

#[test]
fn what_does_not_decode_is_refused() {
    for hex in ["", "0", "zz", "00", &COINBASE_HEX[2..], &format!("{}00", COINBASE_HEX)] {
        assert!(matches!(decode_transaction(hex), Err(RpcError::BitcoinSerialization(_))));
        assert!(matches!(read_block(string(hex)), Err(RpcError::BitcoinSerialization(_))));
        assert!(matches!(decode_block(hex), Err(RpcError::BitcoinSerialization(_))));
    }
    assert!(matches!(read_block(Value::Null), Err(RpcError::Json(_))));
    assert!(matches!(read_transaction(Value::from(1)), Err(RpcError::Json(_))));
    assert!(matches!(
        read_transaction(string("00")),
        Err(RpcError::BitcoinSerialization(_))
    ));
}

#[test]
fn a_transaction_reads_back() {
    let legacy = genesis().txdata[0].clone();
    let mut segwit = legacy.clone();
    segwit.input[0].witness.push([1u8, 2, 3]);
    segwit.input[0].witness.push([0u8; 300]);
    let mut bare = legacy.clone();
    bare.input.clear();
    for tx in [legacy, segwit, bare] {
        let hex = (&tx).raw_hex();
        assert_eq!(decode_transaction(&hex).unwrap(), tx);
        let bytes = bitcoin::consensus::encode::serialize(&tx);
        assert_eq!((&bytes).raw_hex(), hex);
        assert_eq!(bytes.as_slice().raw_hex(), hex);
        assert_eq!(hex.as_str().raw_hex(), hex);
        assert_eq!(hex.clone().raw_hex(), hex);
    }
}

#[test]
fn the_longest_transaction_reads_back_and_a_longer_one_does_not() {
    let mut tx = genesis().txdata[0].clone();
    let other = bitcoin::consensus::encode::serialize(&tx).len();
    let script = tx.output[0].script_pubkey.len();
    // The length of a long script takes five bytes, that of a short one takes one.
    let longest = MAX_DECODED_LEN - (other - script) - 4;
    tx.output[0].script_pubkey = bitcoin::ScriptBuf::from_bytes(vec![0x6a; longest]);
    assert_eq!(bitcoin::consensus::encode::serialize(&tx).len(), MAX_DECODED_LEN);
    assert_eq!(decode_transaction(&(&tx).raw_hex()).unwrap(), tx);
    tx.output[0].script_pubkey = bitcoin::ScriptBuf::from_bytes(vec![0x6a; longest + 1]);
    assert!(decode_transaction(&(&tx).raw_hex()).is_err());
}

fn message<T: std::fmt::Debug>(r: Result<T, RpcError>) -> String {
    match r {
        Err(RpcError::Json(e)) => e.to_string(),
        Err(RpcError::BitcoinSerialization(e)) => format!("{:?}", e),
        other => panic!("unexpected: {:?}", other),
    }
}

#[test]
fn hashes_are_refused_in_words() {
    assert_eq!(
        message(BlockHash::from_json(Value::from(5))),
        "invalid type: integer `5`, expected an ASCII hex string"
    );
    assert_eq!(message(read_txids(Value::Null)), "invalid type: null, expected a sequence");
    assert_eq!(
        message(read_txids(Value::from(vec![1]))),
        "invalid type: integer `1`, expected an ASCII hex string"
    );
    assert_eq!(message(read_block(Value::Null)), "invalid type: null, expected a string");
}

#[test]
fn the_decoder_s_own_error_is_passed_on() {
    for hex in ["0", "zz", "00", &format!("{}00", COINBASE_HEX)] {
        let block: Result<bitcoin::Block, _> = bitcoin::consensus::encode::deserialize_hex(hex);
        assert_eq!(message(decode_block(hex)), format!("{:?}", block.unwrap_err()));
        let tx: Result<bitcoin::Transaction, _> = bitcoin::consensus::encode::deserialize_hex(hex);
        assert_eq!(message(decode_transaction(hex)), format!("{:?}", tx.unwrap_err()));
    }
}
