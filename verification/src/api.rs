//! The calls that the client offers.

use vstd::prelude::*;
use crate::args::{defaults_suffice, filled_args, handle_defaults, into_json, kept_len, null};
use crate::args::{opt_as_json, opt_into_json, IntoJson};
use crate::blockchain_info::{blockchain_info, info_outcome, BlockchainInfo};
use crate::call::{command_params, law_known_commands, law_parameters_are_distinct, named_args};
use crate::call::request_arguments;
use crate::chain::{block_hash_refusal, block_or_error, hash_of_json, is_hash_list};
use crate::chain::{hash_text, transaction_or_error, txids_refusal, BlockHash, Txid};
use crate::chain::{read_block, read_transaction, read_txids, transaction_encoding, RawTx};
use crate::chain::MAX_DECODED_LEN;
use crate::error::{is_refusal, RpcError};
use crate::json::{views, Json, JsonNumberView, JsonView};
use crate::softfork::OldBip9SoftFork;
use crate::wire::{import, read_string, read_u64, read_version, stated_version, string_refusal};
use crate::wire::{u64_refusal, value_json, version_refusal};

verus! {

/// `cmd` and `args` ask for the command `wanted` with the arguments `values`.
pub open spec fn asks_for(
    cmd: &str,
    args: &[Json],
    wanted: Seq<char>,
    values: Seq<JsonView>,
) -> bool {
    cmd@ == wanted && views(args@) == values
}

/// What becomes of a reply that should be a string.
pub open spec fn string_outcome(
    reply: Result<serde_json::Value, RpcError>,
    r: Result<String, RpcError>,
) -> bool {
    match reply {
        Ok(value) => match value_json(value) {
            JsonView::String(s) => r matches Ok(text) && text@ == s,
            _ => r matches Err(e) && is_refusal(e, string_refusal(value_json(value))),
        },
        Err(e) => r == Err::<String, RpcError>(e),
    }
}

/// What becomes of a reply that should be a block as hexadecimal text.
pub open spec fn block_outcome(
    reply: Result<serde_json::Value, RpcError>,
    r: Result<bitcoin::Block, RpcError>,
) -> bool {
    match reply {
        Ok(value) => match value_json(value) {
            JsonView::String(hex) => r == block_or_error(hex),
            _ => r matches Err(e) && is_refusal(e, string_refusal(value_json(value))),
        },
        Err(e) => r == Err::<bitcoin::Block, RpcError>(e),
    }
}

/// What becomes of a reply that should be a transaction as hexadecimal text.
pub open spec fn transaction_outcome(
    reply: Result<serde_json::Value, RpcError>,
    r: Result<bitcoin::Transaction, RpcError>,
) -> bool {
    match reply {
        Ok(value) => match value_json(value) {
            JsonView::String(hex) => r == transaction_or_error(hex),
            _ => r matches Err(e) && is_refusal(e, string_refusal(value_json(value))),
        },
        Err(e) => r == Err::<bitcoin::Transaction, RpcError>(e),
    }
}

/// What becomes of a reply that should be a number.
pub open spec fn count_outcome(
    reply: Result<serde_json::Value, RpcError>,
    r: Result<u64, RpcError>,
) -> bool {
    match reply {
        Ok(value) => match value_json(value) {
            JsonView::Number(JsonNumberView::PosInt(n)) => r == Ok::<u64, RpcError>(n),
            _ => r matches Err(e) && is_refusal(e, u64_refusal(value_json(value))),
        },
        Err(e) => r == Err::<u64, RpcError>(e),
    }
}

/// What becomes of a reply that should be a block hash.
pub open spec fn hash_outcome(
    reply: Result<serde_json::Value, RpcError>,
    r: Result<BlockHash, RpcError>,
) -> bool {
    match reply {
        Ok(value) => match hash_of_json(value_json(value)) {
            Some(bytes) => r matches Ok(hash) && hash@ == bytes,
            None => r matches Err(e) && is_refusal(e, block_hash_refusal(value_json(value))),
        },
        Err(e) => r == Err::<BlockHash, RpcError>(e),
    }
}

/// What becomes of a reply that should be a list of transaction IDs.
pub open spec fn txids_outcome(
    reply: Result<serde_json::Value, RpcError>,
    r: Result<Vec<Txid>, RpcError>,
) -> bool {
    match reply {
        Ok(value) => if is_hash_list(value_json(value)) {
            let items = value_json(value)->Array_0;
            r matches Ok(list) && list@.len() == items.len() && forall|i: int|
                0 <= i < items.len() ==> hash_of_json(items[i]) == Some(#[trigger] list@[i]@)
        } else {
            r matches Err(e) && is_refusal(e, txids_refusal(value_json(value)))
        },
        Err(e) => r == Err::<Vec<Txid>, RpcError>(e),
    }
}

/// What becomes of a reply that should state the server version.
pub open spec fn version_outcome(
    reply: Result<serde_json::Value, RpcError>,
    r: Result<usize, RpcError>,
) -> bool {
    match reply {
        Ok(value) => match stated_version(value_json(value)) {
            Some(version) => r == Ok::<usize, RpcError>(version),
            None => r matches Err(e) && is_refusal(e, version_refusal(value_json(value))),
        },
        Err(e) => r == Err::<usize, RpcError>(e),
    }
}

/// What becomes of a reply with blockchain information, given what asking for
/// the server version gave.
pub open spec fn versioned_outcome<
    I,
    F: Fn(Json) -> Result<BlockchainInfo<I>, RpcError>,
    G: Fn(Json) -> Result<OldBip9SoftFork, RpcError>,
>(
    value: serde_json::Value,
    version: Result<usize, RpcError>,
    decode_info: F,
    decode_bip9: G,
    r: Result<BlockchainInfo<I>, RpcError>,
) -> bool {
    match version {
        Ok(version) => exists|raw: Json|
            raw@ == value_json(value) && #[trigger] info_outcome(
                raw,
                version,
                decode_info,
                decode_bip9,
                r,
            ),
        Err(e) => r == Err::<BlockchainInfo<I>, RpcError>(e),
    }
}

/// The arguments of a call for a raw transaction: the block hash is left out
/// where none is given.
pub open spec fn raw_transaction_args(txid: &Txid, block_hash: Option<&BlockHash>) -> Seq<
    JsonView,
> {
    match block_hash {
        Some(hash) => seq![txid.as_json(), JsonView::Bool(false), hash.as_json()],
        None => seq![txid.as_json(), JsonView::Bool(false)],
    }
}

/// The named arguments of a call for a raw transaction.
pub open spec fn raw_transaction_members(txid: &Txid, block_hash: Option<&BlockHash>) -> Seq<
    (Seq<char>, JsonView),
> {
    match block_hash {
        Some(hash) => seq![
            ("txid"@, JsonView::String(hash_text(txid@))),
            ("verbosity"@, JsonView::Bool(false)),
            ("blockhash"@, JsonView::String(hash_text(hash@))),
        ],
        None => seq![("txid"@, JsonView::String(hash_text(txid@))), ("verbosity"@, JsonView::Bool(false))],
    }
}

/// A block hash that is the last optional argument is passed where it is given
/// and dropped where it is not.
proof fn lemma_raw_transaction_args(txid: &Txid, block_hash: Option<&BlockHash>)
    ensures
        ({
            let args = seq![txid.as_json(), JsonView::Bool(false), opt_as_json(block_hash)];
            let defaults = seq![JsonView::Null];
            defaults_suffice(args, defaults) && filled_args(args, defaults)
                == raw_transaction_args(txid, block_hash)
        }),
{
    let args = seq![txid.as_json(), JsonView::Bool(false), opt_as_json(block_hash)];
    let defaults = seq![JsonView::Null];
    reveal_with_fuel(kept_len, 2);
    assert(filled_args(args, defaults) =~= raw_transaction_args(txid, block_hash));
}

/// What can be looked up by an ID.
pub trait Queryable<C>: Sized {
    /// What the object is looked up by.
    type Id;

    /// Queries the object by its ID.
    fn query(rpc: &C, id: &Self::Id) -> (r: Result<Self, RpcError>);
}

/// What is sent to the server for a call: the named arguments, where the
/// command is known.
pub open spec fn sent(cmd: Seq<char>, args: Seq<JsonView>) -> Option<Seq<(Seq<char>, JsonView)>> {
    match command_params(cmd) {
        Some(params) => Some(request_arguments(params, args)),
        None => None,
    }
}

/// The calls of a Bitcoin Core RPC client.
pub trait RpcApi: Sized {
    /// Calls a command with a list of positional arguments and gives back the
    /// JSON value of the reply.
    fn call(&self, cmd: &str, args: &[Json]) -> (r: Result<serde_json::Value, RpcError>);

    /// Queries an object by its ID.
    fn get_by_id<T: Queryable<Self>>(&self, id: &T::Id) -> (r: Result<T, RpcError>)
        ensures
            call_ensures(T::query, (self, id), r),
    {
        T::query(self, id)
    }

    /// Returns the version of the server.
    fn version(&self) -> (r: Result<usize, RpcError>)
        ensures
            exists|cmd: &str, args: &[Json], reply: Result<serde_json::Value, RpcError>| #[trigger]
                call_ensures(Self::call, (self, cmd, args), reply) && asks_for(
                    cmd,
                    args,
                    "getnetworkinfo"@,
                    seq![],
                ) && version_outcome(reply, r),
    {
        let args: [Json; 0] = [];
        let reply = self.call("getnetworkinfo", &args);
        assert(views(args@) =~= seq![]);
        match reply {
            Ok(value) => read_version(value),
            Err(e) => Err(e),
        }
    }

    /// Returns a block.
    fn get_block(&self, hash: &BlockHash) -> (r: Result<bitcoin::Block, RpcError>)
        ensures
            exists|cmd: &str, args: &[Json], reply: Result<serde_json::Value, RpcError>| #[trigger]
                call_ensures(Self::call, (self, cmd, args), reply) && asks_for(
                    cmd,
                    args,
                    "getblock"@,
                    seq![hash.as_json(), 0u64.as_json()],
                ) && block_outcome(reply, r),
    {
        let args = [into_json(hash), into_json(0u64)];
        let reply = self.call("getblock", &args);
        assert(views(args@) =~= seq![hash.as_json(), 0u64.as_json()]);
        match reply {
            Ok(value) => read_block(value),
            Err(e) => Err(e),
        }
    }

    /// Returns a block as hexadecimal text.
    fn get_block_hex(&self, hash: &BlockHash) -> (r: Result<String, RpcError>)
        ensures
            exists|cmd: &str, args: &[Json], reply: Result<serde_json::Value, RpcError>| #[trigger]
                call_ensures(Self::call, (self, cmd, args), reply) && asks_for(
                    cmd,
                    args,
                    "getblock"@,
                    seq![hash.as_json(), 0u64.as_json()],
                ) && string_outcome(reply, r),
    {
        let args = [into_json(hash), into_json(0u64)];
        let reply = self.call("getblock", &args);
        assert(views(args@) =~= seq![hash.as_json(), 0u64.as_json()]);
        match reply {
            Ok(value) => read_string(value),
            Err(e) => Err(e),
        }
    }

    /// Returns what the server says of a block.
    fn get_block_info(&self, hash: &BlockHash) -> (r: Result<serde_json::Value, RpcError>)
        ensures
            exists|cmd: &str, args: &[Json]| #[trigger]
                call_ensures(Self::call, (self, cmd, args), r) && asks_for(
                    cmd,
                    args,
                    "getblock_verbose"@,
                    seq![hash.as_json(), 1u64.as_json()],
                ),
    {
        let args = [into_json(hash), into_json(1u64)];
        let reply = self.call("getblock_verbose", &args);
        assert(views(args@) =~= seq![hash.as_json(), 1u64.as_json()]);
        reply
    }

    /// Returns what the server says of a block header.
    fn get_block_header_info(&self, hash: &BlockHash) -> (r: Result<serde_json::Value, RpcError>)
        ensures
            exists|cmd: &str, args: &[Json]| #[trigger]
                call_ensures(Self::call, (self, cmd, args), r) && asks_for(
                    cmd,
                    args,
                    "getblockheader"@,
                    seq![hash.as_json(), true.as_json()],
                ),
    {
        let args = [into_json(hash), into_json(true)];
        let reply = self.call("getblockheader", &args);
        assert(views(args@) =~= seq![hash.as_json(), true.as_json()]);
        reply
    }

    /// Returns a data structure containing various state info regarding
    /// blockchain processing.
    ///
    /// `decode_info` decodes a reply that has a "softforks" map; `decode_bip9`
    /// decodes a member of an old "bip9_softforks" map.
    fn get_blockchain_info<
        I,
        F: Fn(Json) -> Result<BlockchainInfo<I>, RpcError>,
        G: Fn(Json) -> Result<OldBip9SoftFork, RpcError>,
    >(&self, decode_info: &F, decode_bip9: &G) -> (r: Result<BlockchainInfo<I>, RpcError>)
        requires
            forall|json: Json| call_requires(*decode_info, (json,)),
            forall|json: Json| call_requires(*decode_bip9, (json,)),
        ensures
            exists|cmd: &str, args: &[Json], reply: Result<serde_json::Value, RpcError>| #[trigger]
                call_ensures(Self::call, (self, cmd, args), reply) && asks_for(
                    cmd,
                    args,
                    "getblockchaininfo"@,
                    seq![],
                ) && match reply {
                    Err(e) => r == Err::<BlockchainInfo<I>, RpcError>(e),
                    Ok(value) => exists|version: Result<usize, RpcError>| #[trigger]
                        call_ensures(Self::version, (self,), version) && versioned_outcome(
                            value,
                            version,
                            *decode_info,
                            *decode_bip9,
                            r,
                        ),
                },
    {
        let args: [Json; 0] = [];
        let reply = self.call("getblockchaininfo", &args);
        assert(views(args@) =~= seq![]);
        let value = match reply {
            Ok(value) => value,
            Err(e) => {
                return Err(e);
            },
        };
        let version = match self.version() {
            Ok(version) => version,
            Err(e) => {
                return Err(e);
            },
        };
        blockchain_info(import(value), version, decode_info, decode_bip9)
    }

    /// Returns the numbers of block in the longest chain.
    fn get_block_count(&self) -> (r: Result<u64, RpcError>)
        ensures
            exists|cmd: &str, args: &[Json], reply: Result<serde_json::Value, RpcError>| #[trigger]
                call_ensures(Self::call, (self, cmd, args), reply) && asks_for(
                    cmd,
                    args,
                    "getblockcount"@,
                    seq![],
                ) && count_outcome(reply, r),
    {
        let args: [Json; 0] = [];
        let reply = self.call("getblockcount", &args);
        assert(views(args@) =~= seq![]);
        match reply {
            Ok(value) => read_u64(value),
            Err(e) => Err(e),
        }
    }

    /// Get block hash at a given height.
    fn get_block_hash(&self, height: u64) -> (r: Result<BlockHash, RpcError>)
        ensures
            exists|cmd: &str, args: &[Json], reply: Result<serde_json::Value, RpcError>| #[trigger]
                call_ensures(Self::call, (self, cmd, args), reply) && asks_for(
                    cmd,
                    args,
                    "getblockhash"@,
                    seq![height.as_json()],
                ) && hash_outcome(reply, r),
    {
        let args = [into_json(height)];
        let reply = self.call("getblockhash", &args);
        assert(views(args@) =~= seq![height.as_json()]);
        match reply {
            Ok(value) => BlockHash::from_json(value),
            Err(e) => Err(e),
        }
    }

    /// Returns a transaction.
    fn get_raw_transaction(&self, txid: &Txid, block_hash: Option<&BlockHash>) -> (r: Result<
        bitcoin::Transaction,
        RpcError,
    >)
        ensures
            exists|cmd: &str, args: &[Json], reply: Result<serde_json::Value, RpcError>| #[trigger]
                call_ensures(Self::call, (self, cmd, args), reply) && asks_for(
                    cmd,
                    args,
                    "getrawtransaction"@,
                    raw_transaction_args(txid, block_hash),
                ) && transaction_outcome(reply, r),
    {
        let mut args = [into_json(txid), into_json(false), opt_into_json(block_hash)];
        let defaults = [null()];
        proof {
            lemma_raw_transaction_args(txid, block_hash);
            assert(views(args@) =~= seq![
                txid.as_json(),
                JsonView::Bool(false),
                opt_as_json(block_hash),
            ]);
            assert(views(defaults@) =~= seq![JsonView::Null]);
        }
        let reply = self.call("getrawtransaction", handle_defaults(&mut args, &defaults));
        match reply {
            Ok(value) => read_transaction(value),
            Err(e) => Err(e),
        }
    }

    /// Returns the filter of a block.
    fn get_block_filter(&self, block_hash: &BlockHash) -> (r: Result<serde_json::Value, RpcError>)
        ensures
            exists|cmd: &str, args: &[Json]| #[trigger]
                call_ensures(Self::call, (self, cmd, args), r) && asks_for(
                    cmd,
                    args,
                    "getblockfilter"@,
                    seq![block_hash.as_json()],
                ),
    {
        let args = [into_json(block_hash)];
        let reply = self.call("getblockfilter", &args);
        assert(views(args@) =~= seq![block_hash.as_json()]);
        reply
    }

    /// Get txids of all transactions in a memory pool.
    fn get_raw_mempool(&self) -> (r: Result<Vec<Txid>, RpcError>)
        ensures
            exists|cmd: &str, args: &[Json], reply: Result<serde_json::Value, RpcError>| #[trigger]
                call_ensures(Self::call, (self, cmd, args), reply) && asks_for(
                    cmd,
                    args,
                    "getrawmempool"@,
                    seq![],
                ) && txids_outcome(reply, r),
    {
        let args: [Json; 0] = [];
        let reply = self.call("getrawmempool", &args);
        assert(views(args@) =~= seq![]);
        match reply {
            Ok(value) => read_txids(value),
            Err(e) => Err(e),
        }
    }
}

impl<C: RpcApi> Queryable<C> for bitcoin::Block {
    type Id = BlockHash;

    fn query(rpc: &C, id: &BlockHash) -> (r: Result<Self, RpcError>)
        ensures
            call_ensures(C::get_block, (rpc, id), r),
    {
        rpc.get_block(id)
    }
}

impl<C: RpcApi> Queryable<C> for bitcoin::Transaction {
    type Id = Txid;

    fn query(rpc: &C, id: &Txid) -> (r: Result<Self, RpcError>)
        ensures
            call_ensures(C::get_raw_transaction, (rpc, id, None::<&BlockHash>), r),
    {
        rpc.get_raw_transaction(id, None)
    }
}

/// The command of every call is a known one, and each argument that a call
/// passes is sent under the name that the command has for it.
pub proof fn law_calls_match_their_commands(
    hash: &BlockHash,
    height: u64,
    txid: &Txid,
    block_hash: Option<&BlockHash>,
)
    ensures
        sent("getnetworkinfo"@, seq![]) == Some(Seq::<(Seq<char>, JsonView)>::empty()),
        sent("getblockchaininfo"@, seq![]) == Some(Seq::<(Seq<char>, JsonView)>::empty()),
        sent("getblockcount"@, seq![]) == Some(Seq::<(Seq<char>, JsonView)>::empty()),
        sent("getrawmempool"@, seq![]) == Some(Seq::<(Seq<char>, JsonView)>::empty()),
        sent("getblockhash"@, seq![JsonView::Number(JsonNumberView::PosInt(height))]) == Some(
            seq![("height"@, JsonView::Number(JsonNumberView::PosInt(height)))],
        ),
        sent("getblock"@, seq![JsonView::String(hash_text(hash@)), JsonView::Number(JsonNumberView::PosInt(0))]) == Some(
            seq![("blockhash"@, JsonView::String(hash_text(hash@))), ("verbosity"@, JsonView::Number(JsonNumberView::PosInt(0)))],
        ),
        sent("getblock_verbose"@, seq![JsonView::String(hash_text(hash@)), JsonView::Number(JsonNumberView::PosInt(1))]) == Some(
            seq![("blockhash"@, JsonView::String(hash_text(hash@))), ("verbosity"@, JsonView::Number(JsonNumberView::PosInt(1)))],
        ),
        sent("getblockheader"@, seq![JsonView::String(hash_text(hash@)), JsonView::Bool(true)]) == Some(
            seq![("blockhash"@, JsonView::String(hash_text(hash@))), ("verbose"@, JsonView::Bool(true))],
        ),
        sent("getblockfilter"@, seq![JsonView::String(hash_text(hash@))]) == Some(
            seq![("blockhash"@, JsonView::String(hash_text(hash@)))],
        ),
        sent("getrawtransaction"@, raw_transaction_args(txid, block_hash)) == Some(
            raw_transaction_members(txid, block_hash),
        ),
{
    law_known_commands();
    law_parameters_are_distinct("getblock"@);
    law_parameters_are_distinct("getblockheader"@);
    law_parameters_are_distinct("getrawtransaction"@);
    reveal_with_fuel(named_args, 4);
    let empty = Seq::<(Seq<char>, JsonView)>::empty();
    assert(sent("getrawmempool"@, seq![])->0 =~= empty);
    assert(sent("getblockhash"@, seq![JsonView::Number(JsonNumberView::PosInt(height))])->0 =~= seq![
        ("height"@, JsonView::Number(JsonNumberView::PosInt(height))),
    ]);
}

/// A server that answers a call for a raw transaction with that transaction's
/// own hexadecimal text is understood: the call gives the transaction. Left out
/// are transactions whose encoding is longer than the decoder reads.
pub proof fn law_raw_transaction_comes_back<C: RpcApi>(
    rpc: &C,
    txid: &Txid,
    block_hash: Option<&BlockHash>,
    tx: &bitcoin::Transaction,
    hex: String,
    r: Result<bitcoin::Transaction, RpcError>,
)
    requires
        transaction_encoding(*tx).len() <= MAX_DECODED_LEN,
        call_ensures(<&bitcoin::Transaction as RawTx>::raw_hex, (tx,), hex),
        forall|cmd: &str, args: &[Json], reply: Result<serde_json::Value, RpcError>|
            asks_for(cmd, args, "getrawtransaction"@, raw_transaction_args(txid, block_hash))
                && #[trigger] call_ensures(C::call, (rpc, cmd, args), reply) ==> (
            reply matches Ok(value) && value_json(value) == JsonView::String(hex@)),
        call_ensures(C::get_raw_transaction, (rpc, txid, block_hash), r),
    ensures
        r == Ok::<bitcoin::Transaction, RpcError>(*tx),
{
}

} // verus!
