//! A client that carries its calls out as MCP tool calls.

use vstd::prelude::*;
use crate::api::{asks_for, block_outcome, count_outcome, hash_outcome, string_outcome};
use crate::api::{law_calls_match_their_commands, raw_transaction_args, raw_transaction_members};
use crate::api::{sent, transaction_outcome, txids_outcome, version_outcome, versioned_outcome};
use crate::api::RpcApi;
use crate::blockchain_info::{info_outcome, is_old_outcome, law_old_outcome, names_differ};
use crate::blockchain_info::BlockchainInfo;
use crate::call::{answer_outcome, call_tool, carried_out, command_params, is_answered};
use crate::call::{is_request, is_unknown_command, law_answer_decides, may_send};
use crate::call::{ToolReply, ToolRequest};
use crate::chain::{hash_text, BlockHash, Txid};
use crate::error::RpcError;
use crate::json::{views, Json, JsonNumberView, JsonView};
use crate::laws::{is_version_reply, law_version_reply};
use crate::softfork::OldBip9SoftFork;
use crate::wire::value_json;

verus! {

/// A client over something that sends tool calls to a server.
pub struct ToolClient<S: Fn(ToolRequest) -> Result<ToolReply, String>> {
    send: S,
}

/// `send` may be called with the request that carries a call, whatever call
/// that is.
pub open spec fn is_sender<S: Fn(ToolRequest) -> Result<ToolReply, String>>(send: S) -> bool {
    forall|cmd: Seq<char>, args: Seq<JsonView>| #[trigger] may_send(send, cmd, args)
}

impl<S: Fn(ToolRequest) -> Result<ToolReply, String>> ToolClient<S> {
    /// What sends the tool calls.
    pub closed spec fn sender(self) -> S {
        self.send
    }

    /// The sender may be called for every call.
    #[verifier::type_invariant]
    closed spec fn well_formed(self) -> bool {
        is_sender(self.send)
    }

    /// Makes a client that sends its tool calls with `send`.
    pub fn new(send: S) -> (r: Self)
        requires
            is_sender(send),
        ensures
            r.sender() == send,
    {
        ToolClient { send }
    }
}

impl<S: Fn(ToolRequest) -> Result<ToolReply, String>> RpcApi for ToolClient<S> {
    /// Calls a command as the MCP tool of the same name.
    fn call(&self, cmd: &str, args: &[Json]) -> (r: Result<serde_json::Value, RpcError>)
        ensures
            carried_out(self.sender(), cmd@, views(args@), r),
    {
        proof {
            use_type_invariant(self);
            assert(may_send(self.send, cmd@, views(args@)));
        }
        let send = &self.send;
        let carry = |request: ToolRequest| -> (answer: Result<ToolReply, String>)
            requires
                call_requires(*send, (request,)),
            ensures
                call_ensures(*send, (request,), answer),
            {
                send(request)
            };
        call_tool(cmd, args, carry)
    }
}

/// A call of `tool` with just these named arguments was sent with `send`, and
/// its answer gave `reply`.
pub open spec fn went_out<S: Fn(ToolRequest) -> Result<ToolReply, String>>(
    send: S,
    tool: Seq<char>,
    named: Seq<(Seq<char>, JsonView)>,
    reply: Result<serde_json::Value, RpcError>,
) -> bool {
    exists|request: ToolRequest, answer: Result<ToolReply, String>| #[trigger]
        call_ensures(send, (request,), answer) && request.tool@ == tool && (
        match request.arguments {
            Some(arguments) => arguments@ == named && named.len() > 0,
            None => named.len() == 0,
        }) && answer_outcome(answer, reply) && is_answered(answer, reply)
}

/// Every call of a known command goes out as a call of the tool of that name,
/// with the arguments under the names that the command has for them.
pub proof fn law_calls_go_out<S: Fn(ToolRequest) -> Result<ToolReply, String>>(
    client: &ToolClient<S>,
    cmd: &str,
    args: &[Json],
    reply: Result<serde_json::Value, RpcError>,
)
    requires
        call_ensures(ToolClient::<S>::call, (client, cmd, args), reply),
    ensures
        match sent(cmd@, views(args@)) {
            Some(named) => went_out(client.sender(), cmd@, named, reply),
            None => is_unknown_command(cmd@, reply),
        },
{
    if let Some(named) = sent(cmd@, views(args@)) {
        let params = command_params(cmd@)->0;
        let (request, answer) = choose|request: ToolRequest, answer: Result<ToolReply, String>| #[trigger]
            call_ensures(client.sender(), (request,), answer) && is_request(
                request,
                cmd@,
                params,
                views(args@),
            ) && answer_outcome(answer, reply);
        law_answer_decides(answer, reply);
        assert(call_ensures(client.sender(), (request,), answer));
    }
}

/// The block count is asked for with a call of `getblockcount` without
/// arguments, and is what the answer to it says.
pub proof fn law_block_count_goes_out<S: Fn(ToolRequest) -> Result<ToolReply, String>>(
    client: &ToolClient<S>,
    r: Result<u64, RpcError>,
)
    requires
        call_ensures(ToolClient::<S>::get_block_count, (client,), r),
    ensures
        exists|reply: Result<serde_json::Value, RpcError>| #[trigger]
            went_out(client.sender(), "getblockcount"@, seq![], reply) && count_outcome(reply, r),
{
    let (cmd, args, reply) = choose|
        cmd: &str,
        args: &[Json],
        reply: Result<serde_json::Value, RpcError>,
    | #[trigger]
        call_ensures(ToolClient::<S>::call, (client, cmd, args), reply) && asks_for(
            cmd,
            args,
            "getblockcount"@,
            seq![],
        ) && count_outcome(reply, r);
    law_calls_go_out(client, cmd, args, reply);
    law_calls_match_their_commands(arbitrary(), 0, arbitrary(), None);
}

/// The block hash at a height is asked for with a call of `getblockhash` with
/// that height, and is what the answer to it says.
pub proof fn law_block_hash_goes_out<S: Fn(ToolRequest) -> Result<ToolReply, String>>(
    client: &ToolClient<S>,
    height: u64,
    r: Result<BlockHash, RpcError>,
)
    requires
        call_ensures(ToolClient::<S>::get_block_hash, (client, height), r),
    ensures
        exists|reply: Result<serde_json::Value, RpcError>| #[trigger]
            went_out(
                client.sender(),
                "getblockhash"@,
                seq![("height"@, JsonView::Number(JsonNumberView::PosInt(height)))],
                reply,
            ) && hash_outcome(reply, r),
{
    let (cmd, args, reply) = choose|
        cmd: &str,
        args: &[Json],
        reply: Result<serde_json::Value, RpcError>,
    | #[trigger]
        call_ensures(ToolClient::<S>::call, (client, cmd, args), reply) && asks_for(
            cmd,
            args,
            "getblockhash"@,
            seq![JsonView::Number(JsonNumberView::PosInt(height))],
        ) && hash_outcome(reply, r);
    law_calls_go_out(client, cmd, args, reply);
    law_calls_match_their_commands(arbitrary(), height, arbitrary(), None);
}

/// A transaction is asked for with a call of `getrawtransaction`, with the block
/// hash only where one is given, and is what the answer to it says.
pub proof fn law_raw_transaction_goes_out<S: Fn(ToolRequest) -> Result<ToolReply, String>>(
    client: &ToolClient<S>,
    txid: &Txid,
    block_hash: Option<&BlockHash>,
    r: Result<bitcoin::Transaction, RpcError>,
)
    requires
        call_ensures(ToolClient::<S>::get_raw_transaction, (client, txid, block_hash), r),
    ensures
        exists|reply: Result<serde_json::Value, RpcError>| #[trigger]
            went_out(
                client.sender(),
                "getrawtransaction"@,
                raw_transaction_members(txid, block_hash),
                reply,
            ) && transaction_outcome(reply, r),
{
    let (cmd, args, reply) = choose|
        cmd: &str,
        args: &[Json],
        reply: Result<serde_json::Value, RpcError>,
    | #[trigger]
        call_ensures(ToolClient::<S>::call, (client, cmd, args), reply) && asks_for(
            cmd,
            args,
            "getrawtransaction"@,
            raw_transaction_args(txid, block_hash),
        ) && transaction_outcome(reply, r);
    law_calls_go_out(client, cmd, args, reply);
    law_calls_match_their_commands(arbitrary(), 0, txid, block_hash);
}

/// The named arguments of a call for a block.
pub open spec fn block_members(hash: &BlockHash, verbosity: u64) -> Seq<(Seq<char>, JsonView)> {
    seq![("blockhash"@, JsonView::String(hash_text(hash@))), ("verbosity"@, JsonView::Number(JsonNumberView::PosInt(verbosity)))]
}

/// A block is asked for with a call of `getblock` with its hash and verbosity 0,
/// and is what the answer to it says.
pub proof fn law_block_goes_out<S: Fn(ToolRequest) -> Result<ToolReply, String>>(
    client: &ToolClient<S>,
    hash: &BlockHash,
    r: Result<bitcoin::Block, RpcError>,
)
    requires
        call_ensures(ToolClient::<S>::get_block, (client, hash), r),
    ensures
        exists|reply: Result<serde_json::Value, RpcError>| #[trigger]
            went_out(client.sender(), "getblock"@, block_members(hash, 0), reply)
                && block_outcome(reply, r),
{
    let (cmd, args, reply) = choose|
        cmd: &str,
        args: &[Json],
        reply: Result<serde_json::Value, RpcError>,
    | #[trigger]
        call_ensures(ToolClient::<S>::call, (client, cmd, args), reply) && asks_for(
            cmd,
            args,
            "getblock"@,
            seq![JsonView::String(hash_text(hash@)), JsonView::Number(JsonNumberView::PosInt(0))],
        ) && block_outcome(reply, r);
    law_calls_go_out(client, cmd, args, reply);
    law_calls_match_their_commands(hash, 0, arbitrary(), None);
    assert(went_out(client.sender(), "getblock"@, block_members(hash, 0), reply));
}

/// A block as hexadecimal text is asked for in the same way, and is what the
/// answer says.
pub proof fn law_block_hex_goes_out<S: Fn(ToolRequest) -> Result<ToolReply, String>>(
    client: &ToolClient<S>,
    hash: &BlockHash,
    r: Result<String, RpcError>,
)
    requires
        call_ensures(ToolClient::<S>::get_block_hex, (client, hash), r),
    ensures
        exists|reply: Result<serde_json::Value, RpcError>| #[trigger]
            went_out(client.sender(), "getblock"@, block_members(hash, 0), reply)
                && string_outcome(reply, r),
{
    let (cmd, args, reply) = choose|
        cmd: &str,
        args: &[Json],
        reply: Result<serde_json::Value, RpcError>,
    | #[trigger]
        call_ensures(ToolClient::<S>::call, (client, cmd, args), reply) && asks_for(
            cmd,
            args,
            "getblock"@,
            seq![JsonView::String(hash_text(hash@)), JsonView::Number(JsonNumberView::PosInt(0))],
        ) && string_outcome(reply, r);
    law_calls_go_out(client, cmd, args, reply);
    law_calls_match_their_commands(hash, 0, arbitrary(), None);
    assert(went_out(client.sender(), "getblock"@, block_members(hash, 0), reply));
}

/// What the server says of a block is asked for with a call of
/// `getblock_verbose` with the block's hash and verbosity 1, and is the answer.
pub proof fn law_block_info_goes_out<S: Fn(ToolRequest) -> Result<ToolReply, String>>(
    client: &ToolClient<S>,
    hash: &BlockHash,
    r: Result<serde_json::Value, RpcError>,
)
    requires
        call_ensures(ToolClient::<S>::get_block_info, (client, hash), r),
    ensures
        went_out(client.sender(), "getblock_verbose"@, block_members(hash, 1), r),
{
    let (cmd, args) = choose|cmd: &str, args: &[Json]| #[trigger]
        call_ensures(ToolClient::<S>::call, (client, cmd, args), r) && asks_for(
            cmd,
            args,
            "getblock_verbose"@,
            seq![JsonView::String(hash_text(hash@)), JsonView::Number(JsonNumberView::PosInt(1))],
        );
    law_calls_go_out(client, cmd, args, r);
    law_calls_match_their_commands(hash, 0, arbitrary(), None);
}

/// What the server says of a block header is asked for with a call of
/// `getblockheader` with the block's hash, and is the answer.
pub proof fn law_block_header_info_goes_out<S: Fn(ToolRequest) -> Result<ToolReply, String>>(
    client: &ToolClient<S>,
    hash: &BlockHash,
    r: Result<serde_json::Value, RpcError>,
)
    requires
        call_ensures(ToolClient::<S>::get_block_header_info, (client, hash), r),
    ensures
        went_out(
            client.sender(),
            "getblockheader"@,
            seq![("blockhash"@, JsonView::String(hash_text(hash@))), ("verbose"@, JsonView::Bool(true))],
            r,
        ),
{
    let (cmd, args) = choose|cmd: &str, args: &[Json]| #[trigger]
        call_ensures(ToolClient::<S>::call, (client, cmd, args), r) && asks_for(
            cmd,
            args,
            "getblockheader"@,
            seq![JsonView::String(hash_text(hash@)), JsonView::Bool(true)],
        );
    law_calls_go_out(client, cmd, args, r);
    law_calls_match_their_commands(hash, 0, arbitrary(), None);
}

/// The filter of a block is asked for with a call of `getblockfilter` with the
/// block's hash, and is the answer.
pub proof fn law_block_filter_goes_out<S: Fn(ToolRequest) -> Result<ToolReply, String>>(
    client: &ToolClient<S>,
    hash: &BlockHash,
    r: Result<serde_json::Value, RpcError>,
)
    requires
        call_ensures(ToolClient::<S>::get_block_filter, (client, hash), r),
    ensures
        went_out(
            client.sender(),
            "getblockfilter"@,
            seq![("blockhash"@, JsonView::String(hash_text(hash@)))],
            r,
        ),
{
    let (cmd, args) = choose|cmd: &str, args: &[Json]| #[trigger]
        call_ensures(ToolClient::<S>::call, (client, cmd, args), r) && asks_for(
            cmd,
            args,
            "getblockfilter"@,
            seq![JsonView::String(hash_text(hash@))],
        );
    law_calls_go_out(client, cmd, args, r);
    law_calls_match_their_commands(hash, 0, arbitrary(), None);
}

/// The memory pool is asked for with a call of `getrawmempool` without
/// arguments, and is what the answer to it says.
pub proof fn law_raw_mempool_goes_out<S: Fn(ToolRequest) -> Result<ToolReply, String>>(
    client: &ToolClient<S>,
    r: Result<Vec<Txid>, RpcError>,
)
    requires
        call_ensures(ToolClient::<S>::get_raw_mempool, (client,), r),
    ensures
        exists|reply: Result<serde_json::Value, RpcError>| #[trigger]
            went_out(client.sender(), "getrawmempool"@, seq![], reply) && txids_outcome(reply, r),
{
    let (cmd, args, reply) = choose|
        cmd: &str,
        args: &[Json],
        reply: Result<serde_json::Value, RpcError>,
    | #[trigger]
        call_ensures(ToolClient::<S>::call, (client, cmd, args), reply) && asks_for(
            cmd,
            args,
            "getrawmempool"@,
            seq![],
        ) && txids_outcome(reply, r);
    law_calls_go_out(client, cmd, args, reply);
    law_calls_match_their_commands(arbitrary(), 0, arbitrary(), None);
}

/// The server version was asked for with a call of `getnetworkinfo` without
/// arguments, and is what the answer to it says.
pub open spec fn version_was_asked<S: Fn(ToolRequest) -> Result<ToolReply, String>>(
    send: S,
    r: Result<usize, RpcError>,
) -> bool {
    exists|reply: Result<serde_json::Value, RpcError>| #[trigger]
        went_out(send, "getnetworkinfo"@, seq![], reply) && version_outcome(reply, r)
}

/// The server version is asked for with a call of `getnetworkinfo` without
/// arguments, and is what the answer to it says.
pub proof fn law_version_goes_out<S: Fn(ToolRequest) -> Result<ToolReply, String>>(
    client: &ToolClient<S>,
    r: Result<usize, RpcError>,
)
    requires
        call_ensures(ToolClient::<S>::version, (client,), r),
    ensures
        version_was_asked(client.sender(), r),
{
    let (cmd, args, reply) = choose|
        cmd: &str,
        args: &[Json],
        reply: Result<serde_json::Value, RpcError>,
    | #[trigger]
        call_ensures(ToolClient::<S>::call, (client, cmd, args), reply) && asks_for(
            cmd,
            args,
            "getnetworkinfo"@,
            seq![],
        ) && version_outcome(reply, r);
    law_calls_go_out(client, cmd, args, reply);
    law_calls_match_their_commands(arbitrary(), 0, arbitrary(), None);
}

/// What `get_blockchain_info` promises of its result, for this client: the call
/// that it makes, the version that it asks for, and what becomes of both.
spec fn info_was_called<
    S: Fn(ToolRequest) -> Result<ToolReply, String>,
    I,
    F: Fn(Json) -> Result<BlockchainInfo<I>, RpcError>,
    G: Fn(Json) -> Result<OldBip9SoftFork, RpcError>,
>(
    client: &ToolClient<S>,
    decode_info: F,
    decode_bip9: G,
    r: Result<BlockchainInfo<I>, RpcError>,
) -> bool {
    exists|cmd: &str, args: &[Json], reply: Result<serde_json::Value, RpcError>| #[trigger]
        call_ensures(ToolClient::<S>::call, (client, cmd, args), reply) && asks_for(
            cmd,
            args,
            "getblockchaininfo"@,
            seq![],
        ) && match reply {
            Err(e) => r == Err::<BlockchainInfo<I>, RpcError>(e),
            Ok(value) => exists|version: Result<usize, RpcError>| #[trigger]
                call_ensures(ToolClient::<S>::version, (client,), version) && versioned_outcome(
                    value,
                    version,
                    decode_info,
                    decode_bip9,
                    r,
                ),
        }
}

/// Blockchain information was asked for with a call of `getblockchaininfo`
/// without arguments. Where that was answered the server version was asked for
/// too, and both answers decide.
pub open spec fn info_was_asked<
    S: Fn(ToolRequest) -> Result<ToolReply, String>,
    I,
    F: Fn(Json) -> Result<BlockchainInfo<I>, RpcError>,
    G: Fn(Json) -> Result<OldBip9SoftFork, RpcError>,
>(send: S, decode_info: F, decode_bip9: G, r: Result<BlockchainInfo<I>, RpcError>) -> bool {
    exists|reply: Result<serde_json::Value, RpcError>| #[trigger]
        went_out(send, "getblockchaininfo"@, seq![], reply) && match reply {
            Ok(value) => exists|version: Result<usize, RpcError>| #[trigger]
                version_was_asked(send, version) && versioned_outcome(
                    value,
                    version,
                    decode_info,
                    decode_bip9,
                    r,
                ),
            Err(e) => r == Err::<BlockchainInfo<I>, RpcError>(e),
        }
}

/// What `get_blockchain_info` calls goes out.
proof fn lemma_info_goes_out<
    S: Fn(ToolRequest) -> Result<ToolReply, String>,
    I,
    F: Fn(Json) -> Result<BlockchainInfo<I>, RpcError>,
    G: Fn(Json) -> Result<OldBip9SoftFork, RpcError>,
>(
    client: &ToolClient<S>,
    decode_info: F,
    decode_bip9: G,
    r: Result<BlockchainInfo<I>, RpcError>,
)
    requires
        info_was_called(client, decode_info, decode_bip9, r),
    ensures
        info_was_asked(client.sender(), decode_info, decode_bip9, r),
{
    let (cmd, args, reply) = choose|
        cmd: &str,
        args: &[Json],
        reply: Result<serde_json::Value, RpcError>,
    | #[trigger]
        call_ensures(ToolClient::<S>::call, (client, cmd, args), reply) && asks_for(
            cmd,
            args,
            "getblockchaininfo"@,
            seq![],
        ) && match reply {
            Err(e) => r == Err::<BlockchainInfo<I>, RpcError>(e),
            Ok(value) => exists|version: Result<usize, RpcError>| #[trigger]
                call_ensures(ToolClient::<S>::version, (client,), version) && versioned_outcome(
                    value,
                    version,
                    decode_info,
                    decode_bip9,
                    r,
                ),
        };
    law_calls_go_out(client, cmd, args, reply);
    law_calls_match_their_commands(arbitrary(), 0, arbitrary(), None);
    if let Ok(value) = reply {
        let version = choose|version: Result<usize, RpcError>| #[trigger]
            call_ensures(ToolClient::<S>::version, (client,), version) && versioned_outcome(
                value,
                version,
                decode_info,
                decode_bip9,
                r,
            );
        law_version_goes_out(client, version);
    }
}

impl<S: Fn(ToolRequest) -> Result<ToolReply, String>> ToolClient<S> {
    /// Returns what `get_blockchain_info` does. Blockchain information is asked
    /// for with a call of `getblockchaininfo` without arguments, and the server
    /// version with a call of `getnetworkinfo`; both answers decide.
    pub fn blockchain_info<
        I,
        F: Fn(Json) -> Result<BlockchainInfo<I>, RpcError>,
        G: Fn(Json) -> Result<OldBip9SoftFork, RpcError>,
    >(&self, decode_info: &F, decode_bip9: &G) -> (r: Result<BlockchainInfo<I>, RpcError>)
        requires
            forall|json: Json| call_requires(*decode_info, (json,)),
            forall|json: Json| call_requires(*decode_bip9, (json,)),
        ensures
            info_was_asked(self.sender(), *decode_info, *decode_bip9, r),
    {
        let r = self.get_blockchain_info(decode_info, decode_bip9);
        proof {
            lemma_info_goes_out(self, *decode_info, *decode_bip9, r);
        }
        r
    }
}

/// The server said that its version is that: in the answer to a call of
/// `getnetworkinfo` without arguments.
pub open spec fn version_was_said<S: Fn(ToolRequest) -> Result<ToolReply, String>>(
    send: S,
    version: Result<usize, RpcError>,
) -> bool {
    exists|reply: Result<serde_json::Value, RpcError>| #[trigger]
        went_out(send, "getnetworkinfo"@, seq![], reply) && is_version_reply(reply, version)
}

/// What becomes of a reply from a server of a known version: from 190000 on it
/// is decoded as it is, and before that it is converted.
pub open spec fn is_told<
    I,
    F: Fn(Json) -> Result<BlockchainInfo<I>, RpcError>,
    G: Fn(Json) -> Result<OldBip9SoftFork, RpcError>,
>(
    raw: Json,
    version: usize,
    decode_info: F,
    decode_bip9: G,
    r: Result<BlockchainInfo<I>, RpcError>,
) -> bool {
    if version >= 190000 {
        call_ensures(decode_info, (raw,), r)
    } else {
        (raw@ matches JsonView::Object(members) ==> names_differ(members)) ==> is_old_outcome(
            raw@,
            decode_info,
            decode_bip9,
            r,
        )
    }
}

/// Blockchain information is what the server says in the answer to a call of
/// `getblockchaininfo` without arguments: from version 190000 on as it is
/// decoded, and before that converted. Where the server does not answer, or does
/// not say its version, that is the error.
pub proof fn law_blockchain_info<
    S: Fn(ToolRequest) -> Result<ToolReply, String>,
    I,
    F: Fn(Json) -> Result<BlockchainInfo<I>, RpcError>,
    G: Fn(Json) -> Result<OldBip9SoftFork, RpcError>,
>(
    client: &ToolClient<S>,
    decode_info: &F,
    decode_bip9: &G,
    r: Result<BlockchainInfo<I>, RpcError>,
)
    requires
        call_ensures(
            ToolClient::<S>::blockchain_info::<I, F, G>,
            (client, decode_info, decode_bip9),
            r,
        ),
    ensures
        exists|reply: Result<serde_json::Value, RpcError>| #[trigger]
            went_out(client.sender(), "getblockchaininfo"@, seq![], reply) && match reply {
                Ok(value) => exists|version: Result<usize, RpcError>| #[trigger]
                    version_was_said(client.sender(), version) && match version {
                        Ok(version) => exists|raw: Json|
                            raw@ == value_json(value) && #[trigger] is_told(
                                raw,
                                version,
                                *decode_info,
                                *decode_bip9,
                                r,
                            ),
                        Err(e) => r == Err::<BlockchainInfo<I>, RpcError>(e),
                    },
                Err(e) => r == Err::<BlockchainInfo<I>, RpcError>(e),
            },
{
    let reply = choose|reply: Result<serde_json::Value, RpcError>| #[trigger]
        went_out(client.sender(), "getblockchaininfo"@, seq![], reply) && match reply {
            Ok(value) => exists|version: Result<usize, RpcError>| #[trigger]
                version_was_asked(client.sender(), version) && versioned_outcome(
                    value,
                    version,
                    *decode_info,
                    *decode_bip9,
                    r,
                ),
            Err(e) => r == Err::<BlockchainInfo<I>, RpcError>(e),
        };
    if let Ok(value) = reply {
        let version = choose|version: Result<usize, RpcError>| #[trigger]
            version_was_asked(client.sender(), version) && versioned_outcome(
                value,
                version,
                *decode_info,
                *decode_bip9,
                r,
            );
        let said = choose|said: Result<serde_json::Value, RpcError>| #[trigger]
            went_out(client.sender(), "getnetworkinfo"@, seq![], said) && version_outcome(
                said,
                version,
            );
        law_version_reply(said, version);
        assert(version_was_said(client.sender(), version));
        if let Ok(n) = version {
            let raw = choose|raw: Json|
                raw@ == value_json(value) && #[trigger] info_outcome(
                    raw,
                    n,
                    *decode_info,
                    *decode_bip9,
                    r,
                );
            if n < 190000 && (raw@ matches JsonView::Object(members) ==> names_differ(members)) {
                law_old_outcome(raw, n, *decode_info, *decode_bip9, r);
            }
            assert(is_told(raw, n, *decode_info, *decode_bip9, r));
        }
    }
}

} // verus!
