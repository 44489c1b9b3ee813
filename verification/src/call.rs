//! A call as an MCP tool call: the request that goes out and the reply that
//! comes back.

use vstd::prelude::*;
use vstd::string::StringExecFns;
use crate::args::{kept_len, law_kept_len};
use crate::error::{error_text, is_refusal, RpcError};
use crate::json::{distinct_names, has_member, law_with_member, member, views, with_member};
use crate::json::{Json, JsonView, Object};
use crate::text::same_text;
use crate::wire::{parse_text, text_json, value_json};

verus! {

/// What each of several pieces of text holds.
pub open spec fn texts(list: Seq<&str>) -> Seq<Seq<char>> {
    Seq::new(list.len(), |i: int| list[i]@)
}

/// The parameter names of a command, in the order of its positional arguments.
pub open spec fn command_params(cmd: Seq<char>) -> Option<Seq<Seq<char>>> {
    if cmd == "getblockchaininfo"@ {
        Some(seq![])
    } else if cmd == "getnetworkinfo"@ {
        Some(seq![])
    } else if cmd == "getblockcount"@ {
        Some(seq![])
    } else if cmd == "getblockhash"@ {
        Some(seq!["height"@])
    } else if cmd == "getblock"@ {
        Some(seq!["blockhash"@, "verbosity"@])
    } else if cmd == "getblock_verbose"@ {
        Some(seq!["blockhash"@, "verbosity"@])
    } else if cmd == "getblockheader"@ {
        Some(seq!["blockhash"@, "verbose"@])
    } else if cmd == "getblockfilter"@ {
        Some(seq!["blockhash"@, "filtertype"@])
    } else if cmd == "getrawmempool"@ {
        Some(seq!["verbose"@])
    } else if cmd == "getrawtransaction"@ {
        Some(seq!["txid"@, "verbosity"@, "blockhash"@])
    } else {
        None
    }
}

/// Return the ordered list of named parameters for a Bitcoin Core JSON-RPC
/// command.
///
/// The MCP tool name matches the JSON-RPC `cmd` name, so no name translation is
/// needed. The parameter names follow Bitcoin Core's canonical argument names.
pub fn rpc_params(cmd: &str) -> (r: Option<&'static [&'static str]>)
    ensures
        match r {
            Some(params) => command_params(cmd@) == Some(texts(params@)),
            None => command_params(cmd@) is None,
        },
{
    let params: &'static [&'static str] = if same_text(cmd, "getblockchaininfo") {
        &[]
    } else if same_text(cmd, "getnetworkinfo") {
        &[]
    } else if same_text(cmd, "getblockcount") {
        &[]
    } else if same_text(cmd, "getblockhash") {
        &["height"]
    } else if same_text(cmd, "getblock") {
        &["blockhash", "verbosity"]
    } else if same_text(cmd, "getblock_verbose") {
        &["blockhash", "verbosity"]
    } else if same_text(cmd, "getblockheader") {
        &["blockhash", "verbose"]
    } else if same_text(cmd, "getblockfilter") {
        &["blockhash", "filtertype"]
    } else if same_text(cmd, "getrawmempool") {
        &["verbose"]
    } else if same_text(cmd, "getrawtransaction") {
        &["txid", "verbosity", "blockhash"]
    } else {
        return None;
    };
    assert(texts(params@) =~= command_params(cmd@)->0);
    Some(params)
}

/// The length of two lists zipped together.
pub open spec fn zip_len(a: nat, b: nat) -> nat {
    if a <= b {
        a
    } else {
        b
    }
}

/// The first `n` positional arguments under the parameter names that stand at
/// their positions, without those that are `null`.
pub open spec fn named_args(params: Seq<Seq<char>>, args: Seq<JsonView>, n: nat) -> Seq<
    (Seq<char>, JsonView),
>
    decreases n,
{
    if n == 0 {
        Seq::empty()
    } else if args[n - 1] == JsonView::Null {
        named_args(params, args, (n - 1) as nat)
    } else {
        with_member(named_args(params, args, (n - 1) as nat), params[n - 1], args[n - 1])
    }
}

/// All positional arguments that have a parameter name, under their names.
pub open spec fn request_arguments(params: Seq<Seq<char>>, args: Seq<JsonView>) -> Seq<
    (Seq<char>, JsonView),
> {
    named_args(params, args, zip_len(params.len(), args.len()))
}

/// A call of an MCP tool.
#[derive(Debug, PartialEq, Eq)]
pub struct ToolRequest {
    /// The name of the tool.
    pub tool: String,
    /// The named arguments, where there are any.
    pub arguments: Option<Object>,
}

/// The request asks for the tool `cmd`, with the arguments under the names that
/// `params` has for them.
pub open spec fn is_request(
    request: ToolRequest,
    cmd: Seq<char>,
    params: Seq<Seq<char>>,
    args: Seq<JsonView>,
) -> bool {
    let named = request_arguments(params, args);
    &&& request.tool@ == cmd
    &&& match request.arguments {
        Some(arguments) => arguments@ == named && named.len() > 0,
        None => named.len() == 0,
    }
}

/// The call failed because no such command is known.
pub open spec fn is_unknown_command<T>(cmd: Seq<char>, r: Result<T, RpcError>) -> bool {
    r matches Err(RpcError::ReturnedError(message)) && message@ == "unknown RPC command: "@ + cmd
}

/// Translates a JSON-RPC call into the MCP tool call that carries it.
///
/// The tool has the name of the command. Positional arguments are zipped with
/// the parameter names of the command; those that are `null` are skipped, so
/// that the server applies its own defaults.
pub fn tool_request(cmd: &str, args: &[Json]) -> (r: Result<ToolRequest, RpcError>)
    ensures
        match command_params(cmd@) {
            Some(params) => r matches Ok(request) && is_request(
                request,
                cmd@,
                params,
                views(args@),
            ),
            None => is_unknown_command(cmd@, r),
        },
{
    let params = match rpc_params(cmd) {
        Some(params) => params,
        None => {
            return Err(
                RpcError::ReturnedError("unknown RPC command: ".to_owned().concat(cmd)),
            );
        },
    };
    let mut arguments = Object::new();
    let mut i: usize = 0;
    while i < params.len() && i < args.len()
        invariant
            i <= params@.len(),
            i <= args@.len(),
            arguments@ == named_args(texts(params@), views(args@), i as nat),
        decreases params@.len() - i,
    {
        if !args[i].is_null() {
            arguments.insert(params[i].to_owned(), args[i].clone());
        }
        i += 1;
    }
    let tool = cmd.to_owned();
    if arguments.len() > 0 {
        Ok(ToolRequest { tool, arguments: Some(arguments) })
    } else {
        Ok(ToolRequest { tool, arguments: None })
    }
}

/// No command has two parameters of one name.
pub proof fn law_parameters_are_distinct(cmd: Seq<char>)
    ensures
        command_params(cmd) matches Some(params) ==> params.no_duplicates(),
{
    reveal_strlit("height");
    reveal_strlit("blockhash");
    reveal_strlit("verbosity");
    reveal_strlit("verbose");
    reveal_strlit("filtertype");
    reveal_strlit("txid");
    assert("blockhash"@[0] != "verbosity"@[0]);
}

/// Each argument that is not `null` is sent under the name that stands at its
/// position, and one that is `null` is not sent.
pub proof fn law_argument_is_sent_under_its_name(
    params: Seq<Seq<char>>,
    args: Seq<JsonView>,
    i: int,
)
    requires
        params.no_duplicates(),
        0 <= i < zip_len(params.len(), args.len()),
    ensures
        member(request_arguments(params, args), params[i]) == (if args[i] == JsonView::Null {
            None
        } else {
            Some(args[i])
        }),
{
    lemma_named_args(params, args, zip_len(params.len(), args.len()), i);
}

/// Nothing is sent but arguments under the command's parameter names.
pub proof fn law_only_parameters_are_sent(
    params: Seq<Seq<char>>,
    args: Seq<JsonView>,
    name: Seq<char>,
)
    requires
        !params.contains(name),
    ensures
        member(request_arguments(params, args), name) is None,
{
    lemma_named_args_names(params, args, zip_len(params.len(), args.len()), name);
}

/// Arguments that are `null` at the end may be dropped before the call: the
/// request is the same.
pub proof fn law_trailing_nulls_do_not_count(
    params: Seq<Seq<char>>,
    args: Seq<JsonView>,
    required: nat,
)
    requires
        required <= args.len(),
    ensures
        request_arguments(params, args.take(kept_len(args, required) as int))
            == request_arguments(params, args),
{
    law_kept_len(args, required);
    let kept = kept_len(args, required);
    let n = zip_len(params.len(), args.len());
    let m = zip_len(params.len(), kept);
    lemma_named_args_prefix(params, args, args.take(kept as int), m);
    lemma_named_args_nulls(params, args, m, n);
}

/// The names under which the first `n` arguments are sent.
proof fn lemma_named_args_names(
    params: Seq<Seq<char>>,
    args: Seq<JsonView>,
    n: nat,
    name: Seq<char>,
)
    requires
        n <= params.len(),
        forall|k: int| 0 <= k < n ==> params[k] != name,
    ensures
        !has_member(named_args(params, args, n), name),
    decreases n,
{
    if n > 0 {
        lemma_named_args_names(params, args, (n - 1) as nat, name);
    }
}

/// What the first `n` arguments hold under the name of the one at `i`.
proof fn lemma_named_args(params: Seq<Seq<char>>, args: Seq<JsonView>, n: nat, i: int)
    requires
        params.no_duplicates(),
        0 <= i < n <= params.len(),
        n <= args.len(),
    ensures
        member(named_args(params, args, n), params[i]) == (if args[i] == JsonView::Null {
            None
        } else {
            Some(args[i])
        }),
    decreases n,
{
    let before = named_args(params, args, (n - 1) as nat);
    lemma_named_args_distinct(params, args, (n - 1) as nat);
    law_with_member(before, params[n - 1], args[n - 1], params[i]);
    if i == n - 1 {
        lemma_named_args_names(params, args, (n - 1) as nat, params[i]);
    } else {
        lemma_named_args(params, args, (n - 1) as nat, i);
        assert(params[i] != params[n - 1]);
    }
}

/// The arguments stand under distinct names.
proof fn lemma_named_args_distinct(params: Seq<Seq<char>>, args: Seq<JsonView>, n: nat)
    ensures
        distinct_names(named_args(params, args, n)),
    decreases n,
{
    if n > 0 {
        lemma_named_args_distinct(params, args, (n - 1) as nat);
        law_with_member(
            named_args(params, args, (n - 1) as nat),
            params[n - 1],
            args[n - 1],
            params[n - 1],
        );
    }
}

/// `named_args` reads no argument past the first `n`.
proof fn lemma_named_args_prefix(
    params: Seq<Seq<char>>,
    a: Seq<JsonView>,
    b: Seq<JsonView>,
    n: nat,
)
    requires
        forall|i: int| 0 <= i < n ==> a[i] == b[i],
    ensures
        named_args(params, a, n) == named_args(params, b, n),
    decreases n,
{
    if n > 0 {
        lemma_named_args_prefix(params, a, b, (n - 1) as nat);
    }
}

/// Arguments that are `null` add nothing.
proof fn lemma_named_args_nulls(params: Seq<Seq<char>>, args: Seq<JsonView>, m: nat, n: nat)
    requires
        m <= n,
        forall|i: int| m <= i < n ==> args[i] == JsonView::Null,
    ensures
        named_args(params, args, m) == named_args(params, args, n),
    decreases n,
{
    if m < n {
        lemma_named_args_nulls(params, args, m, (n - 1) as nat);
    }
}

/// A block of content in a tool's reply.
#[derive(Debug)]
pub enum Content {
    /// Text.
    Text(String),
    /// Anything else.
    Other,
}

/// The reply to a tool call.
#[derive(Debug)]
pub struct ToolReply {
    /// The blocks of content, in order.
    pub content: Vec<Content>,
    /// Whether the tool says that the call failed.
    pub is_error: Option<bool>,
}

/// The text of the first block that is text.
pub open spec fn first_text(content: Seq<Content>) -> Option<Seq<char>>
    decreases content.len(),
{
    if content.len() == 0 {
        None
    } else {
        match content[0] {
            Content::Text(text) => Some(text@),
            Content::Other => first_text(content.skip(1)),
        }
    }
}

/// The text that a reply carries: `null` where no block is text.
pub open spec fn carried_text(reply: ToolReply) -> Seq<char> {
    match first_text(reply.content@) {
        Some(text) => text,
        None => "null"@,
    }
}

/// Extracts the JSON text that a reply carries, or the error that it is.
pub fn reply_text(reply: &ToolReply) -> (r: Result<String, RpcError>)
    ensures
        match r {
            Ok(text) => reply.is_error != Some(true) && text@ == carried_text(*reply),
            Err(e) => reply.is_error == Some(true) && (e matches RpcError::ReturnedError(text)
                && text@ == carried_text(*reply)),
        },
{
    let mut text = "null".to_owned();
    let mut i: usize = 0;
    assert(reply.content@.skip(0) =~= reply.content@);
    while i < reply.content.len()
        invariant_except_break
            i <= reply.content@.len(),
            first_text(reply.content@) == first_text(reply.content@.skip(i as int)),
            text@ == "null"@,
        ensures
            text@ == carried_text(*reply),
        decreases reply.content@.len() - i,
    {
        match &reply.content[i] {
            Content::Text(found) => {
                text = found.clone();
                break;
            },
            Content::Other => {
                assert(reply.content@.skip(i as int).skip(1) =~= reply.content@.skip(i + 1));
            },
        }
        i += 1;
    }
    match reply.is_error {
        Some(true) => Err(RpcError::ReturnedError(text)),
        _ => Ok(text),
    }
}

/// What becomes of a reply: an error where it says that it is one, else the
/// JSON value of the text that it carries, which is `null` where there is none.
pub open spec fn reply_outcome(reply: ToolReply, r: Result<serde_json::Value, RpcError>) -> bool {
    if reply.is_error == Some(true) {
        r matches Err(RpcError::ReturnedError(text)) && text@ == carried_text(reply)
    } else {
        &&& match text_json(carried_text(reply)) {
            Ok(json) => r matches Ok(value) && value_json(value) == json,
            Err(message) => r matches Err(e) && is_refusal(e, message),
        }
        &&& first_text(reply.content@) is None ==> (r matches Ok(value) && value_json(value)
            == JsonView::Null)
    }
}

/// Reads the JSON value that a reply carries. A reply without text carries
/// `null`.
pub fn read_reply(reply: &ToolReply) -> (r: Result<serde_json::Value, RpcError>)
    ensures
        reply_outcome(*reply, r),
{
    match reply_text(reply) {
        Ok(text) => match parse_text(text.as_str()) {
            Ok(value) => Ok(value),
            Err(e) => Err(RpcError::Json(e)),
        },
        Err(e) => Err(e),
    }
}

/// `send` may be called with the request that carries the call, and need not
/// accept any other: where the command is unknown it may not be called at all.
pub open spec fn may_send<S: FnOnce(ToolRequest) -> Result<ToolReply, String>>(
    send: S,
    cmd: Seq<char>,
    args: Seq<JsonView>,
) -> bool {
    command_params(cmd) matches Some(params) ==> forall|request: ToolRequest|
        is_request(request, cmd, params, args) ==> #[trigger] call_requires(send, (request,))
}

/// What becomes of a call: an unknown command is refused, and for any other one
/// the request that carries the call was sent and its answer decides.
pub open spec fn carried_out<S: FnOnce(ToolRequest) -> Result<ToolReply, String>>(
    send: S,
    cmd: Seq<char>,
    args: Seq<JsonView>,
    r: Result<serde_json::Value, RpcError>,
) -> bool {
    match command_params(cmd) {
        Some(params) => exists|request: ToolRequest, answer: Result<ToolReply, String>| #[trigger]
            call_ensures(send, (request,), answer) && is_request(request, cmd, params, args)
                && answer_outcome(answer, r),
        None => is_unknown_command(cmd, r),
    }
}

/// What becomes of the answer to a request: a reply is read, and the reason why
/// there is none is an MCP error.
pub open spec fn answer_outcome(
    answer: Result<ToolReply, String>,
    r: Result<serde_json::Value, RpcError>,
) -> bool {
    match answer {
        Ok(reply) => reply_outcome(reply, r),
        Err(reason) => r == Err::<serde_json::Value, RpcError>(RpcError::Mcp(reason)),
    }
}

/// Carries out a JSON-RPC call as an MCP tool call. `send` sends the request to
/// the server and gives back the reply, or the reason why there is none.
///
/// An unknown command is refused, and nothing is sent. For any other one the
/// request that [`tool_request`] makes is sent, once, and the reply is read.
/// `send` is taken by value as an `FnOnce`, so it is not called twice.
pub fn call_tool<S: FnOnce(ToolRequest) -> Result<ToolReply, String>>(
    cmd: &str,
    args: &[Json],
    send: S,
) -> (r: Result<serde_json::Value, RpcError>)
    requires
        may_send(send, cmd@, views(args@)),
    ensures
        carried_out(send, cmd@, views(args@), r),
{
    let request = match tool_request(cmd, args) {
        Ok(request) => request,
        Err(e) => {
            return Err(e);
        },
    };
    match send(request) {
        Ok(reply) => read_reply(&reply),
        Err(reason) => Err(RpcError::Mcp(reason)),
    }
}

/// The parameters of each command, by its name.
pub proof fn law_known_commands()
    ensures
        command_params("getblockchaininfo"@) == Some(Seq::<Seq<char>>::empty()),
        command_params("getnetworkinfo"@) == Some(Seq::<Seq<char>>::empty()),
        command_params("getblockcount"@) == Some(Seq::<Seq<char>>::empty()),
        command_params("getblockhash"@) == Some(seq!["height"@]),
        command_params("getblock"@) == Some(seq!["blockhash"@, "verbosity"@]),
        command_params("getblock_verbose"@) == Some(seq!["blockhash"@, "verbosity"@]),
        command_params("getblockheader"@) == Some(seq!["blockhash"@, "verbose"@]),
        command_params("getblockfilter"@) == Some(seq!["blockhash"@, "filtertype"@]),
        command_params("getrawmempool"@) == Some(seq!["verbose"@]),
        command_params("getrawtransaction"@) == Some(seq!["txid"@, "verbosity"@, "blockhash"@]),
{
    reveal_strlit("getblockchaininfo");
    reveal_strlit("getnetworkinfo");
    reveal_strlit("getblockcount");
    reveal_strlit("getblockhash");
    reveal_strlit("getblock");
    reveal_strlit("getblock_verbose");
    reveal_strlit("getblockheader");
    reveal_strlit("getblockfilter");
    reveal_strlit("getrawmempool");
    reveal_strlit("getrawtransaction");
    assert("getblockchaininfo"@.len() == 17 && "getrawtransaction"@.len() == 17);
    assert("getblock_verbose"@.len() == 16);
    assert("getnetworkinfo"@.len() == 14 && "getblockheader"@.len() == 14
        && "getblockfilter"@.len() == 14);
    assert("getblockcount"@.len() == 13 && "getrawmempool"@.len() == 13);
    assert("getblockhash"@.len() == 12);
    assert("getblock"@.len() == 8);
    assert("getblockchaininfo"@[3] == 'b' && "getrawtransaction"@[3] == 'r');
    assert("getblockcount"@[3] == 'b' && "getrawmempool"@[3] == 'r');
    assert("getnetworkinfo"@[8] == 'r' && "getblockheader"@[8] == 'h' && "getblockfilter"@[8]
        == 'f');
}

/// Which commands there are, and which parameters each of them has, in which
/// order.
pub proof fn law_parameters_of_each_command(
    cmd: &str,
    r: Option<&'static [&'static str]>,
)
    requires
        call_ensures(rpc_params, (cmd,), r),
    ensures
        cmd@ == "getblockchaininfo"@ ==> (r matches Some(params) && params@.len() == 0),
        cmd@ == "getnetworkinfo"@ ==> (r matches Some(params) && params@.len() == 0),
        cmd@ == "getblockcount"@ ==> (r matches Some(params) && params@.len() == 0),
        cmd@ == "getblockhash"@ ==> (r matches Some(params) && params@.len() == 1 && params@[0]@ == "height"@),
        cmd@ == "getblock"@ ==> (r matches Some(params) && params@.len() == 2 && params@[0]@ == "blockhash"@ && params@[1]@ == "verbosity"@),
        cmd@ == "getblock_verbose"@ ==> (r matches Some(params) && params@.len() == 2 && params@[0]@ == "blockhash"@ && params@[1]@ == "verbosity"@),
        cmd@ == "getblockheader"@ ==> (r matches Some(params) && params@.len() == 2 && params@[0]@ == "blockhash"@ && params@[1]@ == "verbose"@),
        cmd@ == "getblockfilter"@ ==> (r matches Some(params) && params@.len() == 2 && params@[0]@ == "blockhash"@ && params@[1]@ == "filtertype"@),
        cmd@ == "getrawmempool"@ ==> (r matches Some(params) && params@.len() == 1 && params@[0]@ == "verbose"@),
        cmd@ == "getrawtransaction"@ ==> (r matches Some(params) && params@.len() == 3 && params@[0]@ == "txid"@ && params@[1]@ == "verbosity"@ && params@[2]@ == "blockhash"@),
        r is Some ==> {
            ||| cmd@ == "getblockchaininfo"@
            ||| cmd@ == "getnetworkinfo"@
            ||| cmd@ == "getblockcount"@
            ||| cmd@ == "getblockhash"@
            ||| cmd@ == "getblock"@
            ||| cmd@ == "getblock_verbose"@
            ||| cmd@ == "getblockheader"@
            ||| cmd@ == "getblockfilter"@
            ||| cmd@ == "getrawmempool"@
            ||| cmd@ == "getrawtransaction"@
        },
{
    law_known_commands();
    if let Some(params) = r {
        assert(forall|i: int| 0 <= i < params@.len() ==> texts(params@)[i] == (#[trigger] params@[i])@);
        assert(texts(params@) == command_params(cmd@)->0);
        assert(texts(params@).len() == params@.len());
    }
}

/// The arguments of a request are just the given ones that are not `null`, each
/// under the parameter name at its position. Where there are none the request
/// has no arguments at all.
pub open spec fn names_arguments(
    request: ToolRequest,
    params: Seq<&str>,
    args: Seq<Json>,
) -> bool {
    match request.arguments {
        Some(arguments) => {
            &&& arguments@.len() > 0
            &&& forall|i: int, j: int|
                0 <= i < j < arguments@.len() ==> arguments@[i].0 != arguments@[j].0
            &&& forall|i: int|
                0 <= i < params.len() && i < args.len() && (#[trigger] args[i])@ != JsonView::Null
                    ==> arguments@.contains((params[i]@, args[i]@))
            &&& forall|k: int|
                0 <= k < arguments@.len() ==> exists|i: int|
                    0 <= i < params.len() && i < args.len() && (#[trigger] args[i])@
                        != JsonView::Null && #[trigger] arguments@[k] == (params[i]@, args[i]@)
        },
        None => forall|i: int|
            0 <= i < params.len() && i < args.len() ==> (#[trigger] args[i])@ == JsonView::Null,
    }
}

/// The entry is one of the first `n` arguments, under the name at its position.
spec fn is_entry(
    params: Seq<Seq<char>>,
    args: Seq<JsonView>,
    n: int,
    entry: (Seq<char>, JsonView),
) -> bool {
    exists|i: int|
        0 <= i < n && #[trigger] args[i] != JsonView::Null && entry == (params[i], args[i])
}

/// What the first `n` arguments hold, entry by entry.
proof fn lemma_named_args_entries(params: Seq<Seq<char>>, args: Seq<JsonView>, n: nat)
    requires
        params.no_duplicates(),
        n <= params.len(),
        n <= args.len(),
    ensures
        forall|i: int|
            0 <= i < n && #[trigger] args[i] != JsonView::Null ==> named_args(
                params,
                args,
                n,
            ).contains((params[i], args[i])),
        forall|k: int|
            0 <= k < named_args(params, args, n).len() ==> is_entry(
                params,
                args,
                n as int,
                #[trigger] named_args(params, args, n)[k],
            ),
    decreases n,
{
    if n > 0 {
        let before = named_args(params, args, (n - 1) as nat);
        let named = named_args(params, args, n);
        let last = (params[n - 1], args[n - 1]);
        lemma_named_args_entries(params, args, (n - 1) as nat);
        lemma_named_args_names(params, args, (n - 1) as nat, params[n - 1]);
        assert forall|k: int| 0 <= k < before.len() implies is_entry(
            params,
            args,
            n as int,
            #[trigger] before[k],
        ) by {
            assert(is_entry(params, args, n - 1, before[k]));
        }
        if args[n - 1] != JsonView::Null {
            assert(named == before.push(last));
            assert(named[before.len() as int] == last);
            assert(is_entry(params, args, n as int, last));
            assert forall|i: int| 0 <= i < n && #[trigger] args[i] != JsonView::Null implies
                named.contains((params[i], args[i])) by {
                if i < n - 1 {
                    let k = choose|k: int| 0 <= k < before.len() && before[k] == (params[i], args[i]);
                    assert(named[k] == before[k]);
                }
            }
            assert forall|k: int| 0 <= k < named.len() implies is_entry(
                params,
                args,
                n as int,
                #[trigger] named[k],
            ) by {
                if k < before.len() {
                    assert(named[k] == before[k]);
                }
            }
        }
    }
}

/// A request names its arguments.
proof fn lemma_request_names_arguments(
    request: ToolRequest,
    cmd: Seq<char>,
    params: Seq<&str>,
    args: Seq<Json>,
)
    requires
        command_params(cmd) == Some(texts(params)),
        is_request(request, cmd, texts(params), views(args)),
    ensures
        names_arguments(request, params, args),
{
    law_parameters_are_distinct(cmd);
    let n = zip_len(params.len(), args.len());
    let named = named_args(texts(params), views(args), n);
    lemma_named_args_entries(texts(params), views(args), n);
    lemma_named_args_distinct(texts(params), views(args), n);
    assert forall|i: int|
        0 <= i < params.len() && i < args.len() && (#[trigger] args[i])@ != JsonView::Null implies
        named.contains((params[i]@, args[i]@)) by {
        assert(views(args)[i] == args[i]@);
    }
    assert forall|k: int| 0 <= k < named.len() implies exists|i: int|
        0 <= i < params.len() && i < args.len() && (#[trigger] args[i])@ != JsonView::Null
            && #[trigger] named[k] == (params[i]@, args[i]@) by {
        assert(is_entry(texts(params), views(args), n as int, named[k]));
        let i = choose|i: int|
            0 <= i < n && #[trigger] views(args)[i] != JsonView::Null && named[k] == (
                texts(params)[i],
                views(args)[i],
            );
        assert(args[i]@ != JsonView::Null && named[k] == (params[i]@, args[i]@));
    }
    if request.arguments is None {
        assert forall|i: int| 0 <= i < params.len() && i < args.len() implies (#[trigger] args[i])@
            == JsonView::Null by {
            if args[i]@ != JsonView::Null {
                assert(named.contains((params[i]@, args[i]@)));
            }
        }
    }
}

/// A call of a command that has parameters becomes a call of the tool of that
/// name, with the arguments under those parameters; any other is refused.
pub proof fn law_request_carries_the_call(
    cmd: &str,
    args: &[Json],
    params: Option<&'static [&'static str]>,
    r: Result<ToolRequest, RpcError>,
)
    requires
        call_ensures(rpc_params, (cmd,), params),
        call_ensures(tool_request, (cmd, args), r),
    ensures
        match params {
            Some(params) => r matches Ok(request) && request.tool@ == cmd@ && names_arguments(
                request,
                params@,
                args@,
            ),
            None => r matches Err(RpcError::ReturnedError(message)) && message@
                == "unknown RPC command: "@ + cmd@,
        },
{
    if let Some(params) = params {
        lemma_request_names_arguments(r->Ok_0, cmd@, params@, args@);
    }
}

/// The text is that of the first block that is text, or `null` where none is.
pub open spec fn says(reply: ToolReply, text: Seq<char>) -> bool {
    ||| exists|i: int|
        0 <= i < reply.content@.len() && (#[trigger] reply.content@[i] matches Content::Text(found)
            && found@ == text) && forall|j: int|
            0 <= j < i ==> #[trigger] reply.content@[j] is Other
    ||| text == "null"@ && forall|j: int|
        0 <= j < reply.content@.len() ==> #[trigger] reply.content@[j] is Other
}

/// What a reply says comes out: as an error where the reply is marked as one,
/// else as the JSON value that it is the text of.
pub open spec fn is_understood(
    reply: ToolReply,
    r: Result<serde_json::Value, RpcError>,
) -> bool {
    exists|text: Seq<char>| #[trigger]
        says(reply, text) && if reply.is_error == Some(true) {
            r matches Err(RpcError::ReturnedError(message)) && message@ == text
        } else {
            match text_json(text) {
                Ok(json) => r matches Ok(value) && value_json(value) == json,
                Err(message) => r matches Err(RpcError::Json(inner)) && error_text(inner)
                    == message,
            }
        }
}

/// The first text of a list of blocks, by position.
proof fn lemma_first_text(content: Seq<Content>)
    ensures
        match first_text(content) {
            Some(text) => exists|i: int|
                0 <= i < content.len() && (#[trigger] content[i] matches Content::Text(found)
                    && found@ == text) && forall|j: int|
                    0 <= j < i ==> #[trigger] content[j] is Other,
            None => forall|j: int| 0 <= j < content.len() ==> #[trigger] content[j] is Other,
        },
    decreases content.len(),
{
    if content.len() > 0 && content[0] is Other {
        let rest = content.skip(1);
        lemma_first_text(rest);
        assert forall|j: int| 0 <= j < rest.len() implies rest[j] == #[trigger] content[j + 1] by {}
        match first_text(rest) {
            Some(text) => {
                let i = choose|i: int|
                    0 <= i < rest.len() && (#[trigger] rest[i] matches Content::Text(found)
                        && found@ == text) && forall|j: int|
                        0 <= j < i ==> #[trigger] rest[j] is Other;
                assert forall|j: int| 0 <= j < i + 1 implies #[trigger] content[j] is Other by {
                    if j > 0 {
                        assert(rest[j - 1] is Other);
                    }
                }
                assert(content[i + 1] == rest[i]);
            },
            None => {
                assert forall|j: int| 0 <= j < content.len() implies #[trigger] content[j] is Other by {
                    if j > 0 {
                        assert(rest[j - 1] is Other);
                    }
                }
            },
        }
    } else if content.len() > 0 {
        assert(content[0] is Text);
    }
}

/// A reply says what it carries, and nothing else.
proof fn lemma_says(reply: ToolReply, text: Seq<char>)
    ensures
        says(reply, text) <==> text == carried_text(reply),
{
    let content = reply.content@;
    lemma_first_text(content);
    if says(reply, text) && first_text(content) is Some {
        let i = choose|i: int|
            0 <= i < content.len() && (#[trigger] content[i] matches Content::Text(found) && found@
                == first_text(content)->0) && forall|j: int|
                0 <= j < i ==> #[trigger] content[j] is Other;
        assert(content[i] is Text);
        let k = choose|k: int|
            0 <= k < content.len() && (#[trigger] content[k] matches Content::Text(found) && found@
                == text) && forall|j: int| 0 <= j < k ==> #[trigger] content[j] is Other;
        assert(content[k] is Text);
        assert(i == k);
    }
}

/// A reply says one thing only.
pub proof fn law_reply_says_one_thing(reply: ToolReply, a: Seq<char>, b: Seq<char>)
    requires
        says(reply, a),
        says(reply, b),
    ensures
        a == b,
{
    lemma_says(reply, a);
    lemma_says(reply, b);
}

/// The text of a reply is what it says, as an error where it is marked as one.
pub proof fn law_reply_gives_what_it_says(reply: &ToolReply, r: Result<String, RpcError>)
    requires
        call_ensures(reply_text, (reply,), r),
    ensures
        match r {
            Ok(text) => reply.is_error != Some(true) && says(*reply, text@),
            Err(e) => reply.is_error == Some(true) && (e matches RpcError::ReturnedError(text)
                && says(*reply, text@)),
        },
{
    lemma_says(*reply, carried_text(*reply));
}

/// A reply is understood.
pub proof fn law_reply_is_understood(
    reply: &ToolReply,
    r: Result<serde_json::Value, RpcError>,
)
    requires
        call_ensures(read_reply, (reply,), r),
    ensures
        is_understood(*reply, r),
        reply.is_error != Some(true) && (forall|j: int|
            0 <= j < reply.content@.len() ==> #[trigger] reply.content@[j] is Other) ==> (
        r matches Ok(value) && value_json(value) == JsonView::Null),
{
    lemma_says(*reply, carried_text(*reply));
    lemma_first_text(reply.content@);
    if first_text(reply.content@) is Some {
        let i = choose|i: int|
            0 <= i < reply.content@.len() && #[trigger] reply.content@[i] is Text;
        assert(!(reply.content@[i] is Other));
    }
}

/// The answer to a request comes out: a reply is understood, and the reason why
/// there is none is an MCP error.
pub open spec fn is_answered(
    answer: Result<ToolReply, String>,
    r: Result<serde_json::Value, RpcError>,
) -> bool {
    match answer {
        Ok(reply) => is_understood(reply, r),
        Err(reason) => r matches Err(RpcError::Mcp(message)) && message == reason,
    }
}

/// An answer decides what comes out.
pub proof fn law_answer_decides(
    answer: Result<ToolReply, String>,
    r: Result<serde_json::Value, RpcError>,
)
    requires
        answer_outcome(answer, r),
    ensures
        is_answered(answer, r),
{
    if let Ok(reply) = answer {
        lemma_says(reply, carried_text(reply));
    }
}

/// A call of a command that has parameters is sent as a call of the tool of that
/// name, with the arguments under those parameters, and the answer to it comes
/// out; any other call is refused.
pub proof fn law_call_is_sent_and_answered<S: FnOnce(ToolRequest) -> Result<ToolReply, String>>(
    cmd: &str,
    args: &[Json],
    send: S,
    params: Option<&'static [&'static str]>,
    r: Result<serde_json::Value, RpcError>,
)
    requires
        call_ensures(rpc_params, (cmd,), params),
        call_ensures(call_tool::<S>, (cmd, args, send), r),
    ensures
        match params {
            Some(params) => exists|request: ToolRequest, answer: Result<ToolReply, String>| #[trigger]
                call_ensures(send, (request,), answer) && request.tool@ == cmd@ && names_arguments(
                    request,
                    params@,
                    args@,
                ) && is_answered(answer, r),
            None => r matches Err(RpcError::ReturnedError(message)) && message@
                == "unknown RPC command: "@ + cmd@,
        },
{
    if let Some(params) = params {
        let (request, answer) = choose|request: ToolRequest, answer: Result<ToolReply, String>| #[trigger]
            call_ensures(send, (request,), answer) && is_request(
                request,
                cmd@,
                texts(params@),
                views(args@),
            ) && answer_outcome(answer, r);
        lemma_request_names_arguments(request, cmd@, params@, args@);
        law_answer_decides(answer, r);
    }
}

} // verus!
