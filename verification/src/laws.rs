//! What each call of a client asks the server, and what it makes of the reply,
//! whatever the client is.

use vstd::prelude::*;
use crate::api::{asks_for, block_outcome, count_outcome, hash_outcome, string_outcome};
use crate::api::{raw_transaction_args, transaction_outcome, txids_outcome, version_outcome};
use crate::api::{Queryable, RpcApi};
use crate::chain::{block_hash_refusal, hash_of_json, hash_text, hex_block, hex_transaction};
use crate::chain::{is_spelled, law_hash_is_what_its_text_spells, law_hex_writes_out};
use crate::chain::spells_nothing;
use crate::chain::{txids_refusal, writes_out, BlockHash, Txid};
use crate::error::{error_text, RpcError};
use crate::json::{views, Json, JsonNumberView, JsonView};
use crate::wire::{string_refusal, u64_refusal, usize_refusal, value_json};
use crate::json::{member, member_index};

verus! {

/// The server was asked for `cmd` with just these arguments, and replied that.
pub open spec fn was_asked<C: RpcApi>(
    rpc: &C,
    cmd: Seq<char>,
    args: Seq<JsonView>,
    reply: Result<serde_json::Value, RpcError>,
) -> bool {
    exists|c: &str, a: &[Json]| #[trigger]
        call_ensures(C::call, (rpc, c, a), reply) && c@ == cmd && a@.len() == args.len() && forall|
            i: int,
        |
            0 <= i < args.len() ==> (#[trigger] a@[i])@ == args[i]
}

/// The JSON value is the text that writes out the bytes of a hash, the last byte
/// first.
pub open spec fn is_hash_argument(json: JsonView, bytes: Seq<u8>) -> bool {
    json matches JsonView::String(text) && writes_out(text, bytes.reverse())
}

/// What is asked with `views` is asked with each of its arguments.
proof fn lemma_was_asked<C: RpcApi>(
    rpc: &C,
    cmd: &str,
    args: &[Json],
    wanted: Seq<char>,
    values: Seq<JsonView>,
    reply: Result<serde_json::Value, RpcError>,
)
    requires
        call_ensures(C::call, (rpc, cmd, args), reply),
        asks_for(cmd, args, wanted, values),
    ensures
        was_asked(rpc, wanted, values, reply),
{
    assert(views(args@).len() == args@.len());
    assert forall|i: int| 0 <= i < values.len() implies (#[trigger] args@[i])@ == values[i] by {
        assert(views(args@)[i] == args@[i]@);
    }
}

/// The number of blocks is the number that the server replies to
/// `getblockcount`; a reply that is not a number is refused.
pub proof fn law_block_count<C: RpcApi>(rpc: &C, r: Result<u64, RpcError>)
    requires
        call_ensures(C::get_block_count, (rpc,), r),
    ensures
        exists|reply: Result<serde_json::Value, RpcError>| #[trigger]
            was_asked(rpc, "getblockcount"@, seq![], reply) && match reply {
                Ok(value) => match value_json(value) {
                    JsonView::Number(JsonNumberView::PosInt(n)) => r == Ok::<u64, RpcError>(n),
                    json => r matches Err(RpcError::Json(e)) && error_text(e) == u64_refusal(json),
                },
                Err(e) => r == Err::<u64, RpcError>(e),
            },
{
    let (cmd, args, reply) = choose|
        cmd: &str,
        args: &[Json],
        reply: Result<serde_json::Value, RpcError>,
    | #[trigger]
        call_ensures(C::call, (rpc, cmd, args), reply) && asks_for(
            cmd,
            args,
            "getblockcount"@,
            seq![],
        ) && count_outcome(reply, r);
    lemma_was_asked(rpc, cmd, args, "getblockcount"@, seq![], reply);
}

/// The block hash at a height is the one that the server's reply to
/// `getblockhash` with that very height spells; any other reply is refused.
pub proof fn law_block_hash<C: RpcApi>(rpc: &C, height: u64, r: Result<BlockHash, RpcError>)
    requires
        call_ensures(C::get_block_hash, (rpc, height), r),
    ensures
        exists|reply: Result<serde_json::Value, RpcError>| #[trigger]
            was_asked(
                rpc,
                "getblockhash"@,
                one(JsonView::Number(JsonNumberView::PosInt(height))),
                reply,
            ) && match reply {
                Ok(value) => {
                    &&& forall|bytes: Seq<u8>| #[trigger]
                        is_spelled(value_json(value), bytes) <==> (r matches Ok(hash)
                            && hash.bytes@ == bytes)
                    &&& r matches Err(e) ==> (e matches RpcError::Json(inner) && error_text(inner)
                        == block_hash_refusal(value_json(value)))
                },
                Err(e) => r == Err::<BlockHash, RpcError>(e),
            },
{
    let number = JsonView::Number(JsonNumberView::PosInt(height));
    let (cmd, args, reply) = choose|
        cmd: &str,
        args: &[Json],
        reply: Result<serde_json::Value, RpcError>,
    | #[trigger]
        call_ensures(C::call, (rpc, cmd, args), reply) && asks_for(
            cmd,
            args,
            "getblockhash"@,
            seq![number],
        ) && hash_outcome(reply, r);
    assert(one(number) =~= seq![number]);
    lemma_was_asked(rpc, cmd, args, "getblockhash"@, one(number), reply);
    if let Ok(value) = reply {
        assert forall|bytes: Seq<u8>| #[trigger]
            is_spelled(value_json(value), bytes) <==> (r matches Ok(hash) && hash.bytes@ == bytes) by {
            if let JsonView::String(text) = value_json(value) {
                law_hash_is_what_its_text_spells(text, bytes);
            }
        }
    }
}

/// A list of one value.
pub open spec fn one(a: JsonView) -> Seq<JsonView> {
    seq![a]
}

/// A list of two values.
pub open spec fn two(a: JsonView, b: JsonView) -> Seq<JsonView> {
    seq![a, b]
}

/// A list of three values.
pub open spec fn three(a: JsonView, b: JsonView, c: JsonView) -> Seq<JsonView> {
    seq![a, b, c]
}

/// A block is the one that `bitcoin` decodes the server's reply to `getblock` to,
/// asked with the block's hash and the number 0. What `bitcoin` does not decode
/// and what is not text is refused.
pub proof fn law_block<C: RpcApi>(rpc: &C, hash: &BlockHash, r: Result<bitcoin::Block, RpcError>)
    requires
        call_ensures(C::get_block, (rpc, hash), r),
    ensures
        exists|reply: Result<serde_json::Value, RpcError>, hashed: JsonView| #[trigger]
            was_asked(rpc, "getblock"@, two(hashed, JsonView::Number(JsonNumberView::PosInt(0))), reply) && is_hash_argument(
                hashed,
                hash.bytes@,
            ) && match reply {
                Ok(value) => match value_json(value) {
                    JsonView::String(hex) => match hex_block(hex) {
                        Ok(block) => r == Ok::<bitcoin::Block, RpcError>(block),
                        Err(e) => r == Err::<bitcoin::Block, RpcError>(
                            RpcError::BitcoinSerialization(e),
                        ),
                    },
                    json => r matches Err(RpcError::Json(e)) && error_text(e) == string_refusal(
                        json,
                    ),
                },
                Err(e) => r == Err::<bitcoin::Block, RpcError>(e),
            },
{
    let hashed = JsonView::String(hash_text(hash@));
    law_hex_writes_out(hash.bytes@.reverse());
    let (cmd, args, reply) = choose|
        cmd: &str,
        args: &[Json],
        reply: Result<serde_json::Value, RpcError>,
    | #[trigger]
        call_ensures(C::call, (rpc, cmd, args), reply) && asks_for(
            cmd,
            args,
            "getblock"@,
            seq![hashed, JsonView::Number(JsonNumberView::PosInt(0))],
        ) && block_outcome(reply, r);
    assert(two(hashed, JsonView::Number(JsonNumberView::PosInt(0))) =~= seq![hashed, JsonView::Number(JsonNumberView::PosInt(0))]);
    lemma_was_asked(rpc, cmd, args, "getblock"@, two(hashed, JsonView::Number(JsonNumberView::PosInt(0))), reply);
}

/// A block as text is the text that the server replies to `getblock`, asked with
/// the block's hash and the number 0.
pub proof fn law_block_hex<C: RpcApi>(rpc: &C, hash: &BlockHash, r: Result<String, RpcError>)
    requires
        call_ensures(C::get_block_hex, (rpc, hash), r),
    ensures
        exists|reply: Result<serde_json::Value, RpcError>, hashed: JsonView| #[trigger]
            was_asked(rpc, "getblock"@, two(hashed, JsonView::Number(JsonNumberView::PosInt(0))), reply) && is_hash_argument(
                hashed,
                hash.bytes@,
            ) && match reply {
                Ok(value) => match value_json(value) {
                    JsonView::String(hex) => r matches Ok(text) && text@ == hex,
                    json => r matches Err(RpcError::Json(e)) && error_text(e) == string_refusal(
                        json,
                    ),
                },
                Err(e) => r == Err::<String, RpcError>(e),
            },
{
    let hashed = JsonView::String(hash_text(hash@));
    law_hex_writes_out(hash.bytes@.reverse());
    let (cmd, args, reply) = choose|
        cmd: &str,
        args: &[Json],
        reply: Result<serde_json::Value, RpcError>,
    | #[trigger]
        call_ensures(C::call, (rpc, cmd, args), reply) && asks_for(
            cmd,
            args,
            "getblock"@,
            seq![hashed, JsonView::Number(JsonNumberView::PosInt(0))],
        ) && string_outcome(reply, r);
    assert(two(hashed, JsonView::Number(JsonNumberView::PosInt(0))) =~= seq![hashed, JsonView::Number(JsonNumberView::PosInt(0))]);
    lemma_was_asked(rpc, cmd, args, "getblock"@, two(hashed, JsonView::Number(JsonNumberView::PosInt(0))), reply);
}

/// What the server says of a block is its reply to `getblock_verbose`, asked with
/// the block's hash and the number 1.
pub proof fn law_block_info<C: RpcApi>(rpc: &C, hash: &BlockHash, r: Result<serde_json::Value, RpcError>)
    requires
        call_ensures(C::get_block_info, (rpc, hash), r),
    ensures
        exists|hashed: JsonView| #[trigger]
            was_asked(rpc, "getblock_verbose"@, two(hashed, JsonView::Number(JsonNumberView::PosInt(1))), r) && is_hash_argument(
                hashed,
                hash.bytes@,
            ),
{
    let hashed = JsonView::String(hash_text(hash@));
    law_hex_writes_out(hash.bytes@.reverse());
    let (cmd, args) = choose|cmd: &str, args: &[Json]| #[trigger]
        call_ensures(C::call, (rpc, cmd, args), r) && asks_for(
            cmd,
            args,
            "getblock_verbose"@,
            seq![hashed, JsonView::Number(JsonNumberView::PosInt(1))],
        );
    assert(two(hashed, JsonView::Number(JsonNumberView::PosInt(1))) =~= seq![hashed, JsonView::Number(JsonNumberView::PosInt(1))]);
    lemma_was_asked(rpc, cmd, args, "getblock_verbose"@, two(hashed, JsonView::Number(JsonNumberView::PosInt(1))), r);
}

/// What the server says of a block header is its reply to `getblockheader`, asked
/// with the block's hash and `true`.
pub proof fn law_block_header_info<C: RpcApi>(rpc: &C, hash: &BlockHash, r: Result<serde_json::Value, RpcError>)
    requires
        call_ensures(C::get_block_header_info, (rpc, hash), r),
    ensures
        exists|hashed: JsonView| #[trigger]
            was_asked(rpc, "getblockheader"@, two(hashed, JsonView::Bool(true)), r) && is_hash_argument(
                hashed,
                hash.bytes@,
            ),
{
    let hashed = JsonView::String(hash_text(hash@));
    law_hex_writes_out(hash.bytes@.reverse());
    let (cmd, args) = choose|cmd: &str, args: &[Json]| #[trigger]
        call_ensures(C::call, (rpc, cmd, args), r) && asks_for(
            cmd,
            args,
            "getblockheader"@,
            seq![hashed, JsonView::Bool(true)],
        );
    assert(two(hashed, JsonView::Bool(true)) =~= seq![hashed, JsonView::Bool(true)]);
    lemma_was_asked(rpc, cmd, args, "getblockheader"@, two(hashed, JsonView::Bool(true)), r);
}

/// The filter of a block is the server's reply to `getblockfilter`, asked with
/// the block's hash.
pub proof fn law_block_filter<C: RpcApi>(
    rpc: &C,
    hash: &BlockHash,
    r: Result<serde_json::Value, RpcError>,
)
    requires
        call_ensures(C::get_block_filter, (rpc, hash), r),
    ensures
        exists|hashed: JsonView| #[trigger]
            was_asked(rpc, "getblockfilter"@, one(hashed), r) && is_hash_argument(
                hashed,
                hash.bytes@,
            ),
{
    let hashed = JsonView::String(hash_text(hash@));
    law_hex_writes_out(hash.bytes@.reverse());
    let (cmd, args) = choose|cmd: &str, args: &[Json]| #[trigger]
        call_ensures(C::call, (rpc, cmd, args), r) && asks_for(
            cmd,
            args,
            "getblockfilter"@,
            seq![hashed],
        );
    assert(one(hashed) =~= seq![hashed]);
    lemma_was_asked(rpc, cmd, args, "getblockfilter"@, one(hashed), r);
}

/// A transaction is the one that `bitcoin` decodes the server's reply to
/// `getrawtransaction` to, asked with the transaction's ID, `false`, and the
/// block hash where one is given. What `bitcoin` does not decode and what is not
/// text is refused.
pub proof fn law_raw_transaction<C: RpcApi>(
    rpc: &C,
    txid: &Txid,
    block_hash: Option<&BlockHash>,
    r: Result<bitcoin::Transaction, RpcError>,
)
    requires
        call_ensures(C::get_raw_transaction, (rpc, txid, block_hash), r),
    ensures
        exists|
            reply: Result<serde_json::Value, RpcError>,
            id: JsonView,
            args: Seq<JsonView>,
        |
            #![trigger was_asked(rpc, "getrawtransaction"@, args, reply), is_hash_argument(
                id,
                txid.bytes@,
            )]
            was_asked(rpc, "getrawtransaction"@, args, reply) && is_hash_argument(id, txid.bytes@)
                && (match block_hash {
                Some(hash) => exists|hashed: JsonView| #[trigger]
                    is_hash_argument(hashed, hash.bytes@) && args == three(
                        id,
                        JsonView::Bool(false),
                        hashed,
                    ),
                None => args == two(id, JsonView::Bool(false)),
            }) && match reply {
                Ok(value) => match value_json(value) {
                    JsonView::String(hex) => match hex_transaction(hex) {
                        Ok(tx) => r == Ok::<bitcoin::Transaction, RpcError>(tx),
                        Err(e) => r == Err::<bitcoin::Transaction, RpcError>(
                            RpcError::BitcoinSerialization(e),
                        ),
                    },
                    json => r matches Err(RpcError::Json(e)) && error_text(e) == string_refusal(
                        json,
                    ),
                },
                Err(e) => r == Err::<bitcoin::Transaction, RpcError>(e),
            },
{
    let id = JsonView::String(hash_text(txid@));
    law_hex_writes_out(txid.bytes@.reverse());
    assert(is_hash_argument(id, txid.bytes@));
    let values = raw_transaction_args(txid, block_hash);
    if let Some(hash) = block_hash {
        let hashed = JsonView::String(hash_text(hash@));
        law_hex_writes_out(hash.bytes@.reverse());
        assert(is_hash_argument(hashed, hash.bytes@));
        assert(values =~= three(id, JsonView::Bool(false), hashed));
    } else {
        assert(values =~= two(id, JsonView::Bool(false)));
    }
    let (cmd, args, reply) = choose|
        cmd: &str,
        args: &[Json],
        reply: Result<serde_json::Value, RpcError>,
    | #[trigger]
        call_ensures(C::call, (rpc, cmd, args), reply) && asks_for(
            cmd,
            args,
            "getrawtransaction"@,
            values,
        ) && transaction_outcome(reply, r);
    lemma_was_asked(rpc, cmd, args, "getrawtransaction"@, values, reply);
}

/// The transaction IDs in the memory pool are those that the elements of the
/// server's reply to `getrawmempool` spell: one for each element, in the same
/// order. Any other reply is refused.
pub proof fn law_raw_mempool<C: RpcApi>(rpc: &C, r: Result<Vec<Txid>, RpcError>)
    requires
        call_ensures(C::get_raw_mempool, (rpc,), r),
    ensures
        exists|reply: Result<serde_json::Value, RpcError>| #[trigger]
            was_asked(rpc, "getrawmempool"@, seq![], reply) && match reply {
                Ok(value) => match r {
                    Ok(list) => value_json(value) matches JsonView::Array(items) && items.len()
                        == list@.len() && forall|i: int|
                        0 <= i < items.len() ==> is_spelled(#[trigger] items[i], list@[i].bytes@),
                    Err(e) => (e matches RpcError::Json(inner) && error_text(inner)
                        == txids_refusal(value_json(value))) && (
                    value_json(value) matches JsonView::Array(items) ==> exists|i: int|
                        0 <= i < items.len() && spells_nothing(#[trigger] items[i])),
                },
                Err(e) => r == Err::<Vec<Txid>, RpcError>(e),
            },
{
    let (cmd, args, reply) = choose|
        cmd: &str,
        args: &[Json],
        reply: Result<serde_json::Value, RpcError>,
    | #[trigger]
        call_ensures(C::call, (rpc, cmd, args), reply) && asks_for(
            cmd,
            args,
            "getrawmempool"@,
            seq![],
        ) && txids_outcome(reply, r);
    lemma_was_asked(rpc, cmd, args, "getrawmempool"@, seq![], reply);
    if let Ok(value) = reply {
        if let JsonView::Array(items) = value_json(value) {
            match r {
                Ok(list) => {
                    assert forall|i: int| 0 <= i < items.len() implies is_spelled(
                        #[trigger] items[i],
                        list@[i].bytes@,
                    ) by {
                        assert(hash_of_json(items[i]) == Some(list@[i]@));
                        law_hash_is_what_its_text_spells(items[i]->String_0, list@[i].bytes@);
                    }
                },
                Err(e) => {
                    let i = choose|i: int| 0 <= i < items.len() && hash_of_json(items[i]) is None;
                    assert forall|bytes: Seq<u8>| !is_spelled(items[i], bytes) by {
                        if let JsonView::String(text) = items[i] {
                            law_hash_is_what_its_text_spells(text, bytes);
                        }
                    }
                    assert(spells_nothing(items[i]));
                },
            }
        }
    }
}

/// A server that replies to `getrawmempool` with the texts of some transaction
/// IDs is understood: just those IDs come out, in the same order.
pub proof fn law_mempool_comes_back<C: RpcApi>(
    rpc: &C,
    ids: Seq<Seq<u8>>,
    texts: Seq<JsonView>,
    r: Result<Vec<Txid>, RpcError>,
)
    requires
        texts.len() == ids.len(),
        forall|i: int| 0 <= i < ids.len() ==> is_spelled(#[trigger] texts[i], ids[i]),
        forall|reply: Result<serde_json::Value, RpcError>| #[trigger]
            was_asked(rpc, "getrawmempool"@, seq![], reply) ==> (reply matches Ok(value)
                && value_json(value) == JsonView::Array(texts)),
        call_ensures(C::get_raw_mempool, (rpc,), r),
    ensures
        r matches Ok(list) && list@.len() == ids.len() && forall|i: int|
            0 <= i < ids.len() ==> (#[trigger] list@[i]).bytes@ == ids[i],
{
    law_raw_mempool(rpc, r);
    if let Ok(list) = r {
        assert forall|i: int| 0 <= i < ids.len() implies (#[trigger] list@[i]).bytes@ == ids[i] by {
            assert(is_spelled(texts[i], ids[i]));
            assert(is_spelled(texts[i], list@[i].bytes@));
            law_hash_is_what_its_text_spells(texts[i]->String_0, ids[i]);
            law_hash_is_what_its_text_spells(texts[i]->String_0, list@[i].bytes@);
        }
    } else {
        let i = choose|i: int| 0 <= i < texts.len() && spells_nothing(#[trigger] texts[i]);
        assert(is_spelled(texts[i], ids[i]));
    }
}

/// A server that replies to `getblock` with a text that `bitcoin` decodes to a
/// block is understood: that block comes out, however long the text is.
pub proof fn law_block_comes_back<C: RpcApi>(
    rpc: &C,
    hash: &BlockHash,
    hex: Seq<char>,
    block: bitcoin::Block,
    r: Result<bitcoin::Block, RpcError>,
    text: Result<String, RpcError>,
)
    requires
        hex_block(hex) matches Ok(decoded) && decoded == block,
        forall|reply: Result<serde_json::Value, RpcError>, hashed: JsonView| #[trigger]
            was_asked(
                rpc,
                "getblock"@,
                two(hashed, JsonView::Number(JsonNumberView::PosInt(0))),
                reply,
            ) && is_hash_argument(hashed, hash.bytes@) ==> (reply matches Ok(value) && value_json(
                value,
            ) == JsonView::String(hex)),
        call_ensures(C::get_block, (rpc, hash), r),
        call_ensures(C::get_block_hex, (rpc, hash), text),
    ensures
        r == Ok::<bitcoin::Block, RpcError>(block),
        text matches Ok(found) && found@ == hex,
{
    law_block(rpc, hash, r);
    law_block_hex(rpc, hash, text);
}

/// The server version is the number under `version` in the server's reply to
/// `getnetworkinfo`, whatever other members that has, or the only element of an
/// array. Any other reply is refused.
pub proof fn law_version<C: RpcApi>(rpc: &C, r: Result<usize, RpcError>)
    requires
        call_ensures(C::version, (rpc,), r),
    ensures
        exists|reply: Result<serde_json::Value, RpcError>| #[trigger]
            was_asked(rpc, "getnetworkinfo"@, seq![], reply) && is_version_reply(reply, r),
{
    let (cmd, args, reply) = choose|
        cmd: &str,
        args: &[Json],
        reply: Result<serde_json::Value, RpcError>,
    | #[trigger]
        call_ensures(C::call, (rpc, cmd, args), reply) && asks_for(
            cmd,
            args,
            "getnetworkinfo"@,
            seq![],
        ) && version_outcome(reply, r);
    lemma_was_asked(rpc, cmd, args, "getnetworkinfo"@, seq![], reply);
    law_version_reply(reply, r);
}

/// What becomes of a reply that should state the server version.
pub open spec fn is_version_reply(
    reply: Result<serde_json::Value, RpcError>,
    r: Result<usize, RpcError>,
) -> bool {
    match reply {
        Ok(value) => match value_json(value) {
            JsonView::Object(members) => {
                &&& forall|i: int|
                    is_only_version(members, i) ==> match (#[trigger] members[i]).1 {
                        JsonView::Number(JsonNumberView::PosInt(n)) if n <= usize::MAX => r == Ok::<
                            usize,
                            RpcError,
                        >(n as usize),
                        json => r matches Err(RpcError::Json(e)) && error_text(e)
                            == usize_refusal(json),
                    }
                &&& (forall|i: int|
                    0 <= i < members.len() ==> (#[trigger] members[i]).0 != "version"@) ==> (
                r matches Err(RpcError::Json(e)) && error_text(e) == "missing field `version`"@)
            },
            JsonView::Array(items) => match r {
                Ok(n) => items.len() == 1 && items[0] == JsonView::Number(
                    JsonNumberView::PosInt(n as u64),
                ),
                Err(e) => e is Json && forall|n: usize|
                    items != seq![#[trigger] version_number(n)],
            },
            _ => r matches Err(RpcError::Json(_)),
        },
        Err(e) => r == Err::<usize, RpcError>(e),
    }
}

/// A version as a JSON number.
pub open spec fn version_number(n: usize) -> JsonView {
    JsonView::Number(JsonNumberView::PosInt(n as u64))
}

/// The member at `i` is the only one of the name `version`.
pub open spec fn is_only_version(members: Seq<(Seq<char>, JsonView)>, i: int) -> bool {
    &&& 0 <= i < members.len()
    &&& members[i].0 == "version"@
    &&& forall|j: int| 0 <= j < members.len() && j != i ==> (#[trigger] members[j]).0 != "version"@
}

/// What the server version is read from.
pub proof fn law_version_reply(
    reply: Result<serde_json::Value, RpcError>,
    r: Result<usize, RpcError>,
)
    requires
        version_outcome(reply, r),
    ensures
        is_version_reply(reply, r),
{
    if let Ok(value) = reply {
        if let JsonView::Object(members) = value_json(value) {
            assert forall|i: int| is_only_version(members, i) implies match (
            #[trigger] members[i]).1 {
                JsonView::Number(JsonNumberView::PosInt(n)) if n <= usize::MAX => r == Ok::<
                    usize,
                    RpcError,
                >(n as usize),
                json => r matches Err(RpcError::Json(e)) && error_text(e) == usize_refusal(json),
            } by {
                assert(members[i].0 == "version"@);
                assert(member_index(members, "version"@) == i);
                assert(member(members, "version"@) == Some(members[i].1));
            }
        }
        if let JsonView::Array(items) = value_json(value) {
            if r is Err {
                assert forall|n: usize| items != seq![#[trigger] version_number(n)] by {
                    assert(seq![version_number(n)][0] == version_number(n));
                }
            }
        }
    }
}

/// A block is looked up by its hash as `get_block` does, and a transaction by its
/// ID as `get_raw_transaction` does without a block hash.
pub proof fn law_lookup_by_id<C: RpcApi>(
    rpc: &C,
    hash: &BlockHash,
    txid: &Txid,
    block: Result<bitcoin::Block, RpcError>,
    tx: Result<bitcoin::Transaction, RpcError>,
)
    requires
        call_ensures(<bitcoin::Block as Queryable<C>>::query, (rpc, hash), block),
        call_ensures(<bitcoin::Transaction as Queryable<C>>::query, (rpc, txid), tx),
    ensures
        call_ensures(C::get_block, (rpc, hash), block),
        call_ensures(C::get_raw_transaction, (rpc, txid, None::<&BlockHash>), tx),
{
}

} // verus!
