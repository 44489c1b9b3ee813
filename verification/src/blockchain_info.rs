//! The reply to `getblockchaininfo`.
//!
//! The softfork fields are not backwards compatible:
//! - 0.18.x returns a "softforks" array and a "bip9_softforks" map.
//! - 0.19.x returns a "softforks" map.

use vstd::prelude::*;
use crate::error::RpcError;
use crate::json::{distinct_names, law_with_member, law_without_member, member, member_index};
use crate::json::{views, with_member, without_member, Json, JsonView, Object};
use crate::softfork::{bip9_softfork, buried_softfork, is_bip9_fork, is_buried_fork};
use crate::softfork::{OldBip9SoftFork, Softfork, SoftforkTable};

verus! {

/// The first server version that returns a "softforks" map.
pub const SOFTFORK_MAP_VERSION: usize = 190000;

/// An old reply, with its softfork fields taken out of it.
#[derive(Debug)]
pub struct OldReply {
    /// The reply with an empty "softforks" field and no "bip9_softforks" field.
    pub rest: Json,
    /// The "bip9_softforks" field.
    pub bip9_softforks: Json,
    /// The "softforks" field.
    pub old_softforks: Json,
}

/// The members of a reply without the two fields and with an empty "softforks"
/// field put back.
pub open spec fn rest_members(members: Seq<(Seq<char>, JsonView)>) -> Seq<(Seq<char>, JsonView)> {
    with_member(
        without_member(without_member(members, "bip9_softforks"@), "softforks"@),
        "softforks"@,
        JsonView::Object(Seq::empty()),
    )
}

/// The reply is an object that has both softfork fields.
pub open spec fn has_old_fields(raw: JsonView) -> bool {
    raw matches JsonView::Object(members) && member(members, "bip9_softforks"@) is Some && member(
        members,
        "softforks"@,
    ) is Some
}

/// Every member of a reply but the two softfork fields stays as it is.
pub proof fn law_rest_keeps_other_members(
    members: Seq<(Seq<char>, JsonView)>,
    name: Seq<char>,
)
    requires
        distinct_names(members),
    ensures
        member(rest_members(members), name) == (if name == "softforks"@ {
            Some(JsonView::Object(Seq::empty()))
        } else if name == "bip9_softforks"@ {
            None
        } else {
            member(members, name)
        }),
{
    let once = without_member(members, "bip9_softforks"@);
    let twice = without_member(once, "softforks"@);
    law_without_member(members, "bip9_softforks"@, name);
    law_without_member(once, "softforks"@, name);
    law_with_member(twice, "softforks"@, JsonView::Object(Seq::empty()), name);
}

/// Takes both softfork fields out of an old reply and puts back an empty
/// "softforks" field.
pub fn split_softforks(raw: Json) -> (r: Result<OldReply, RpcError>)
    ensures
        match r {
            Ok(reply) => has_old_fields(raw@) && reply.rest@ == JsonView::Object(
                rest_members(raw@->Object_0),
            ) && Some(reply.bip9_softforks@) == member(raw@->Object_0, "bip9_softforks"@) && Some(
                reply.old_softforks@,
            ) == member(raw@->Object_0, "softforks"@),
            Err(e) => !has_old_fields(raw@) && e is UnexpectedStructure,
        },
{
    let ghost members = raw@->Object_0;
    let mut map = match raw.into_object() {
        Some(map) => map,
        None => {
            return Err(RpcError::UnexpectedStructure);
        },
    };
    proof {
        reveal_strlit("bip9_softforks");
        reveal_strlit("softforks");
        assert("bip9_softforks"@.len() != "softforks"@.len());
        law_without_member(members, "bip9_softforks"@, "softforks"@);
    }
    let bip9_softforks = match map.remove("bip9_softforks") {
        Some(field) => field,
        None => {
            return Err(RpcError::UnexpectedStructure);
        },
    };
    let old_softforks = match map.remove("softforks") {
        Some(field) => field,
        None => {
            return Err(RpcError::UnexpectedStructure);
        },
    };
    map.insert("softforks".to_owned(), Json::Object(Object::new()));
    Ok(OldReply { rest: Json::Object(map), bip9_softforks, old_softforks })
}

/// The identifier and the activity that an entry of an old "softforks" array
/// states.
pub open spec fn buried_entry(entry: JsonView) -> Option<(Seq<char>, bool)> {
    match entry {
        JsonView::Object(members) => match (member(members, "id"@), member(members, "reject"@)) {
            (Some(JsonView::String(id)), Some(JsonView::Object(reject))) => match member(
                reject,
                "status"@,
            ) {
                Some(JsonView::Bool(active)) => Some((id, active)),
                _ => None,
            },
            _ => None,
        },
        _ => None,
    }
}

/// The identifier that an entry states.
pub open spec fn buried_id(entry: JsonView) -> Seq<char> {
    let (id, active) = buried_entry(entry)->0;
    id
}

/// The activity that an entry states.
pub open spec fn buried_active(entry: JsonView) -> bool {
    let (id, active) = buried_entry(entry)->0;
    active
}

/// An old "softforks" field is an array of such entries.
pub open spec fn is_buried_list(field: JsonView) -> bool {
    field matches JsonView::Array(items) && forall|i: int|
        0 <= i < items.len() ==> #[trigger] buried_entry(items[i]) is Some
}

/// Puts the softforks of the first `n` entries into a table, one after the
/// other.
pub open spec fn with_buried(
    table: Map<Seq<char>, Softfork>,
    items: Seq<JsonView>,
    n: nat,
) -> Map<Seq<char>, Softfork>
    decreases n,
{
    if n == 0 {
        table
    } else {
        with_buried(table, items, (n - 1) as nat).insert(
            buried_id(items[n - 1]),
            buried_softfork(buried_active(items[n - 1])),
        )
    }
}

/// Reads an entry of an old "softforks" array.
fn read_buried(entry: &Json) -> (r: Option<(&str, bool)>)
    ensures
        match r {
            Some(found) => buried_entry(entry@) == Some((found.0@, found.1)),
            None => buried_entry(entry@) is None,
        },
{
    let json = match entry.as_object() {
        Some(json) => json,
        None => {
            return None;
        },
    };
    let id = match json.get("id") {
        Some(id) => match id.as_str() {
            Some(id) => id,
            None => {
                return None;
            },
        },
        None => {
            return None;
        },
    };
    let reject = match json.get("reject") {
        Some(reject) => match reject.as_object() {
            Some(reject) => reject,
            None => {
                return None;
            },
        },
        None => {
            return None;
        },
    };
    match reject.get("status") {
        Some(status) => match status.as_bool() {
            Some(active) => Some((id, active)),
            None => None,
        },
        None => None,
    }
}

/// Puts the softforks of an old "softforks" field into a table.
pub fn add_buried(table: SoftforkTable, field: &Json) -> (r: Result<SoftforkTable, RpcError>)
    ensures
        match r {
            Ok(after) => is_buried_list(field@) && after@ == with_buried(
                table@,
                field@->Array_0,
                field@->Array_0.len(),
            ),
            Err(e) => !is_buried_list(field@) && e is UnexpectedStructure,
        },
{
    let items = match field.as_array() {
        Some(items) => items,
        None => {
            return Err(RpcError::UnexpectedStructure);
        },
    };
    let ghost before = table@;
    let mut table = table;
    let mut i: usize = 0;
    while i < items.len()
        invariant
            i <= items@.len(),
            field@ == JsonView::Array(views(items@)),
            table@ == with_buried(before, views(items@), i as nat),
            forall|j: int| 0 <= j < i ==> #[trigger] buried_entry(views(items@)[j]) is Some,
        decreases items@.len() - i,
    {
        assert(views(items@)[i as int] == items@[i as int]@);
        match read_buried(&items[i]) {
            Some((id, active)) => {
                table.insert(id.to_owned(), Softfork::buried(active));
            },
            None => {
                assert(buried_entry(field@->Array_0[i as int]) is None);
                return Err(RpcError::UnexpectedStructure);
            },
        }
        i += 1;
    }
    Ok(table)
}

/// What the reply says: the softforks, and all else, which is passed on as it
/// was decoded.
#[derive(Debug)]
pub struct BlockchainInfo<I> {
    /// The softforks by their identifiers.
    pub softforks: SoftforkTable,
    /// Everything else.
    pub rest: I,
}

/// `outputs` are what `decode` gave for the values of the first members, one
/// after the other. All but the last one succeeded, and where the last one did
/// too they are for all members.
pub open spec fn decoded_in_turn<G: Fn(Json) -> Result<OldBip9SoftFork, RpcError>>(
    decode: G,
    members: Seq<(Seq<char>, JsonView)>,
    inputs: Seq<Json>,
    outputs: Seq<Result<OldBip9SoftFork, RpcError>>,
) -> bool {
    &&& inputs.len() == outputs.len()
    &&& outputs.len() <= members.len()
    &&& forall|i: int| 0 <= i < inputs.len() ==> (#[trigger] inputs[i])@ == members[i].1
    &&& forall|i: int|
        0 <= i < outputs.len() ==> call_ensures(decode, (inputs[i],), #[trigger] outputs[i])
    &&& forall|i: int| 0 <= i < outputs.len() - 1 ==> (#[trigger] outputs[i]) is Ok
    &&& outputs.len() < members.len() ==> outputs.len() > 0 && outputs.last() is Err
}

/// Puts the decoded softforks of the first `n` members into a table, one after
/// the other.
pub open spec fn with_bip9(
    table: Map<Seq<char>, Softfork>,
    members: Seq<(Seq<char>, JsonView)>,
    outputs: Seq<Result<OldBip9SoftFork, RpcError>>,
    n: nat,
) -> Map<Seq<char>, Softfork>
    decreases n,
{
    if n == 0 {
        table
    } else {
        with_bip9(table, members, outputs, (n - 1) as nat).insert(
            members[n - 1].0,
            bip9_softfork(outputs[n - 1]->Ok_0),
        )
    }
}

/// What becomes of the members of an old "bip9_softforks" field, given what
/// decoding them gave.
pub open spec fn decoded_outcome<I>(
    table: Map<Seq<char>, Softfork>,
    rest: I,
    members: Seq<(Seq<char>, JsonView)>,
    outputs: Seq<Result<OldBip9SoftFork, RpcError>>,
    r: Result<BlockchainInfo<I>, RpcError>,
) -> bool {
    if outputs.len() > 0 && outputs.last() is Err {
        r == Err::<BlockchainInfo<I>, RpcError>(outputs.last()->Err_0)
    } else {
        r matches Ok(info) && info.rest == rest && info.softforks@ == with_bip9(
            table,
            members,
            outputs,
            members.len(),
        )
    }
}

/// What becomes of an old "bip9_softforks" field, whatever `decode` gives for
/// its members.
pub open spec fn bip9_outcome<I, G: Fn(Json) -> Result<OldBip9SoftFork, RpcError>>(
    table: Map<Seq<char>, Softfork>,
    rest: I,
    field: JsonView,
    decode: G,
    r: Result<BlockchainInfo<I>, RpcError>,
) -> bool {
    if field is Object {
        exists|inputs: Seq<Json>, outputs: Seq<Result<OldBip9SoftFork, RpcError>>| #[trigger]
            decoded_in_turn(decode, field->Object_0, inputs, outputs) && decoded_outcome(
                table,
                rest,
                field->Object_0,
                outputs,
                r,
            )
    } else {
        r matches Err(RpcError::UnexpectedStructure)
    }
}

/// Puts the softforks of an old "bip9_softforks" field into the information.
pub fn add_bip9<I, G: Fn(Json) -> Result<OldBip9SoftFork, RpcError>>(
    info: BlockchainInfo<I>,
    field: &Json,
    decode: &G,
) -> (r: Result<BlockchainInfo<I>, RpcError>)
    requires
        forall|json: Json| call_requires(*decode, (json,)),
    ensures
        bip9_outcome(info.softforks@, info.rest, field@, *decode, r),
{
    let object = match field.as_object() {
        Some(object) => object,
        None => {
            return Err(RpcError::UnexpectedStructure);
        },
    };
    let ghost members = object@;
    let ghost before = info.softforks@;
    let BlockchainInfo { softforks, rest } = info;
    let mut softforks = softforks;
    let ghost mut inputs: Seq<Json> = Seq::empty();
    let ghost mut outputs: Seq<Result<OldBip9SoftFork, RpcError>> = Seq::empty();
    let len = object.len();
    let mut i: usize = 0;
    while i < len
        invariant
            forall|json: Json| call_requires(*decode, (json,)),
            members == object@,
            field@ == JsonView::Object(members),
            before == info.softforks@,
            rest == info.rest,
            len == members.len(),
            i <= len,
            inputs.len() == i,
            outputs.len() == i,
            forall|j: int| 0 <= j < i ==> (#[trigger] inputs[j])@ == members[j].1,
            forall|j: int|
                0 <= j < i ==> call_ensures(*decode, (inputs[j],), #[trigger] outputs[j]),
            forall|j: int| 0 <= j < i ==> (#[trigger] outputs[j]) is Ok,
            softforks@ == with_bip9(before, members, outputs, i as nat),
        decreases len - i,
    {
        let (id, member) = object.at(i);
        let input = member.clone();
        let ghost ghost_input = input;
        let output = decode(input);
        let ghost earlier = outputs;
        proof {
            inputs = inputs.push(ghost_input);
            outputs = outputs.push(output);
            lemma_with_bip9_prefix(before, members, earlier, outputs, i as nat);
        }
        match output {
            Ok(old) => {
                softforks.insert(id.to_owned(), Softfork::from_old_bip9(old));
            },
            Err(e) => {
                assert(decoded_in_turn(*decode, field@->Object_0, inputs, outputs));
                return Err(e);
            },
        }
        i += 1;
    }
    assert(decoded_in_turn(*decode, field@->Object_0, inputs, outputs));
    Ok(BlockchainInfo { softforks, rest })
}

/// `with_bip9` reads no output past the first `n`.
proof fn lemma_with_bip9_prefix(
    table: Map<Seq<char>, Softfork>,
    members: Seq<(Seq<char>, JsonView)>,
    a: Seq<Result<OldBip9SoftFork, RpcError>>,
    b: Seq<Result<OldBip9SoftFork, RpcError>>,
    n: nat,
)
    requires
        forall|i: int| 0 <= i < n ==> a[i] == b[i],
    ensures
        with_bip9(table, members, a, n) == with_bip9(table, members, b, n),
    decreases n,
{
    if n > 0 {
        lemma_with_bip9_prefix(table, members, a, b, (n - 1) as nat);
    }
}

/// Every BIP 9 softfork of an old reply is found under its identifier, in place
/// of a buried one that had it.
pub proof fn law_bip9_softforks_are_found(
    table: Map<Seq<char>, Softfork>,
    members: Seq<(Seq<char>, JsonView)>,
    outputs: Seq<Result<OldBip9SoftFork, RpcError>>,
    i: int,
)
    requires
        distinct_names(members),
        0 <= i < members.len(),
        outputs.len() == members.len(),
        outputs[i] is Ok,
    ensures
        with_bip9(table, members, outputs, members.len()).contains_pair(
            members[i].0,
            bip9_softfork(outputs[i]->Ok_0),
        ),
{
    lemma_bip9_found(table, members, outputs, members.len(), i);
}

/// A softfork whose identifier no BIP 9 softfork has stays as it was.
pub proof fn law_bip9_softforks_keep_others(
    table: Map<Seq<char>, Softfork>,
    members: Seq<(Seq<char>, JsonView)>,
    outputs: Seq<Result<OldBip9SoftFork, RpcError>>,
    id: Seq<char>,
)
    requires
        member(members, id) is None,
    ensures
        with_bip9(table, members, outputs, members.len()).dom().contains(id)
            == table.dom().contains(id),
        table.dom().contains(id) ==> with_bip9(table, members, outputs, members.len())[id]
            == table[id],
{
    lemma_bip9_keeps(table, members, outputs, members.len(), id);
}

/// Every buried softfork of an old reply is found under its identifier. Where
/// several entries have one identifier the last of them counts.
pub proof fn law_buried_softforks_are_found(
    table: Map<Seq<char>, Softfork>,
    items: Seq<JsonView>,
    i: int,
)
    requires
        is_buried_list(JsonView::Array(items)),
        0 <= i < items.len(),
        forall|j: int|
            i < j < items.len() ==> #[trigger] buried_id(items[j]) != buried_id(items[i]),
    ensures
        with_buried(table, items, items.len()).contains_pair(
            buried_id(items[i]),
            buried_softfork(buried_active(items[i])),
        ),
{
    lemma_buried_found(table, items, items.len(), i);
}

/// A softfork whose identifier no entry of the old "softforks" array states
/// stays as it was.
pub proof fn law_buried_softforks_keep_others(
    table: Map<Seq<char>, Softfork>,
    items: Seq<JsonView>,
    id: Seq<char>,
)
    requires
        forall|i: int| 0 <= i < items.len() ==> #[trigger] buried_id(items[i]) != id,
    ensures
        with_buried(table, items, items.len()).dom().contains(id) == table.dom().contains(id),
        table.dom().contains(id) ==> with_buried(table, items, items.len())[id] == table[id],
{
    lemma_buried_keeps(table, items, items.len(), id);
}

proof fn lemma_bip9_found(
    table: Map<Seq<char>, Softfork>,
    members: Seq<(Seq<char>, JsonView)>,
    outputs: Seq<Result<OldBip9SoftFork, RpcError>>,
    n: nat,
    i: int,
)
    requires
        distinct_names(members),
        0 <= i < n <= members.len(),
    ensures
        with_bip9(table, members, outputs, n).contains_pair(
            members[i].0,
            bip9_softfork(outputs[i]->Ok_0),
        ),
    decreases n,
{
    if i < n - 1 {
        lemma_bip9_found(table, members, outputs, (n - 1) as nat, i);
        assert(members[i].0 != members[n - 1].0);
    }
}

proof fn lemma_bip9_keeps(
    table: Map<Seq<char>, Softfork>,
    members: Seq<(Seq<char>, JsonView)>,
    outputs: Seq<Result<OldBip9SoftFork, RpcError>>,
    n: nat,
    id: Seq<char>,
)
    requires
        n <= members.len(),
        member(members, id) is None,
    ensures
        with_bip9(table, members, outputs, n).dom().contains(id) == table.dom().contains(id),
        table.dom().contains(id) ==> with_bip9(table, members, outputs, n)[id] == table[id],
    decreases n,
{
    if n > 0 {
        lemma_bip9_keeps(table, members, outputs, (n - 1) as nat, id);
        assert(members[n - 1].0 != id);
    }
}

proof fn lemma_buried_found(
    table: Map<Seq<char>, Softfork>,
    items: Seq<JsonView>,
    n: nat,
    i: int,
)
    requires
        is_buried_list(JsonView::Array(items)),
        0 <= i < n <= items.len(),
        forall|j: int|
            i < j < n ==> #[trigger] buried_id(items[j]) != buried_id(items[i]),
    ensures
        with_buried(table, items, n).contains_pair(
            buried_id(items[i]),
            buried_softfork(buried_active(items[i])),
        ),
    decreases n,
{
    if i < n - 1 {
        lemma_buried_found(table, items, (n - 1) as nat, i);
        assert(buried_id(items[n - 1]) != buried_id(items[i]));
    }
}

proof fn lemma_buried_keeps(
    table: Map<Seq<char>, Softfork>,
    items: Seq<JsonView>,
    n: nat,
    id: Seq<char>,
)
    requires
        n <= items.len(),
        forall|i: int| 0 <= i < n ==> #[trigger] buried_id(items[i]) != id,
    ensures
        with_buried(table, items, n).dom().contains(id) == table.dom().contains(id),
        table.dom().contains(id) ==> with_buried(table, items, n)[id] == table[id],
    decreases n,
{
    if n > 0 {
        lemma_buried_keeps(table, items, (n - 1) as nat, id);
        assert(buried_id(items[n - 1]) != id);
    }
}

/// What becomes of a reply from a server of a given version, whatever the
/// decoders give.
pub open spec fn info_outcome<
    I,
    F: Fn(Json) -> Result<BlockchainInfo<I>, RpcError>,
    G: Fn(Json) -> Result<OldBip9SoftFork, RpcError>,
>(
    raw: Json,
    version: usize,
    decode_info: F,
    decode_bip9: G,
    r: Result<BlockchainInfo<I>, RpcError>,
) -> bool {
    if version >= SOFTFORK_MAP_VERSION {
        call_ensures(decode_info, (raw,), r)
    } else if !has_old_fields(raw@) {
        r matches Err(RpcError::UnexpectedStructure)
    } else {
        let members = raw@->Object_0;
        let old_softforks = member(members, "softforks"@)->0;
        let bip9_softforks = member(members, "bip9_softforks"@)->0;
        exists|rest: Json, decoded: Result<BlockchainInfo<I>, RpcError>| #[trigger]
            call_ensures(decode_info, (rest,), decoded) && rest@ == JsonView::Object(
                rest_members(members),
            ) && match decoded {
                Ok(info) => if is_buried_list(old_softforks) {
                    bip9_outcome(
                        with_buried(
                            info.softforks@,
                            old_softforks->Array_0,
                            old_softforks->Array_0.len(),
                        ),
                        info.rest,
                        bip9_softforks,
                        decode_bip9,
                        r,
                    )
                } else {
                    r matches Err(RpcError::UnexpectedStructure)
                },
                Err(e) => r == Err::<BlockchainInfo<I>, RpcError>(e),
            }
    }
}

/// Makes the blockchain information out of a reply and the server's version.
///
/// `decode_info` decodes a reply that has a "softforks" map; `decode_bip9`
/// decodes a member of an old "bip9_softforks" map.
pub fn blockchain_info<
    I,
    F: Fn(Json) -> Result<BlockchainInfo<I>, RpcError>,
    G: Fn(Json) -> Result<OldBip9SoftFork, RpcError>,
>(raw: Json, version: usize, decode_info: &F, decode_bip9: &G) -> (r: Result<
    BlockchainInfo<I>,
    RpcError,
>)
    requires
        forall|json: Json| call_requires(*decode_info, (json,)),
        forall|json: Json| call_requires(*decode_bip9, (json,)),
    ensures
        info_outcome(raw, version, *decode_info, *decode_bip9, r),
{
    if version >= SOFTFORK_MAP_VERSION {
        return decode_info(raw);
    }
    // First, remove both incompatible softfork fields.
    let OldReply { rest, bip9_softforks, old_softforks } = match split_softforks(raw) {
        Ok(reply) => reply,
        Err(e) => {
            return Err(e);
        },
    };
    let info = match decode_info(rest) {
        Ok(info) => info,
        Err(e) => {
            return Err(e);
        },
    };
    // Then convert both softfork types and add them.
    let BlockchainInfo { softforks, rest } = info;
    let softforks = match add_buried(softforks, &old_softforks) {
        Ok(softforks) => softforks,
        Err(e) => {
            return Err(e);
        },
    };
    add_bip9(BlockchainInfo { softforks, rest }, &bip9_softforks, decode_bip9)
}

/// The reply of a server from version 190000 on is decoded as it is: what comes
/// out is what `decode_info` gives for it.
pub proof fn law_new_servers_are_taken_at_their_word<
    I,
    F: Fn(Json) -> Result<BlockchainInfo<I>, RpcError>,
    G: Fn(Json) -> Result<OldBip9SoftFork, RpcError>,
>(
    raw: Json,
    version: usize,
    decode_info: &F,
    decode_bip9: &G,
    r: Result<BlockchainInfo<I>, RpcError>,
)
    requires
        version >= 190000,
        call_ensures(blockchain_info::<I, F, G>, (raw, version, decode_info, decode_bip9), r),
    ensures
        call_ensures(*decode_info, (raw,), r),
{
}

/// The reply of a server before version 190000 is converted.
pub proof fn law_old_servers_are_converted<
    I,
    F: Fn(Json) -> Result<BlockchainInfo<I>, RpcError>,
    G: Fn(Json) -> Result<OldBip9SoftFork, RpcError>,
>(
    raw: Json,
    version: usize,
    decode_info: &F,
    decode_bip9: &G,
    r: Result<BlockchainInfo<I>, RpcError>,
)
    requires
        version < 190000,
        raw@ matches JsonView::Object(members) ==> names_differ(members),
        call_ensures(blockchain_info::<I, F, G>, (raw, version, decode_info, decode_bip9), r),
    ensures
        is_old_outcome(raw@, *decode_info, *decode_bip9, r),
{
    law_old_outcome(raw, version, *decode_info, *decode_bip9, r);
}

/// No two members have one name.
pub open spec fn names_differ(members: Seq<(Seq<char>, JsonView)>) -> bool {
    forall|i: int, j: int| 0 <= i < j < members.len() ==> members[i].0 != members[j].0
}

/// Some member has that name.
pub open spec fn is_named(members: Seq<(Seq<char>, JsonView)>, name: Seq<char>) -> bool {
    exists|i: int| 0 <= i < members.len() && #[trigger] members[i].0 == name
}

/// `kept` has all members but the two softfork fields, and an empty "softforks"
/// field.
pub open spec fn is_emptied(
    members: Seq<(Seq<char>, JsonView)>,
    kept: Seq<(Seq<char>, JsonView)>,
) -> bool {
    forall|entry: (Seq<char>, JsonView)| #[trigger]
        kept.contains(entry) <==> entry == ("softforks"@, JsonView::Object(Seq::empty())) || (
        members.contains(entry) && entry.0 != "softforks"@ && entry.0 != "bip9_softforks"@)
}

/// The entry of an old "softforks" array states the identifier `id` under "id"
/// and whether it is active under "status" in "reject".
pub open spec fn states(entry: JsonView, id: Seq<char>, active: bool) -> bool {
    entry matches JsonView::Object(members) && members.contains(("id"@, JsonView::String(id)))
        && exists|reject: Seq<(Seq<char>, JsonView)>| #[trigger]
        members.contains(("reject"@, JsonView::Object(reject))) && reject.contains(
            ("status"@, JsonView::Bool(active)),
        )
}

/// The softfork under `id` after the conversion: the BIP 9 one of that name
/// where there is one, else the last buried one of that name, else what was
/// there before.
pub open spec fn is_converted(
    before: Map<Seq<char>, Softfork>,
    after: Map<Seq<char>, Softfork>,
    stated: Seq<(Seq<char>, bool)>,
    forks: Seq<(Seq<char>, JsonView)>,
    decoded: Seq<OldBip9SoftFork>,
    id: Seq<char>,
) -> bool {
    &&& forall|i: int|
        0 <= i < forks.len() && #[trigger] forks[i].0 == id ==> after.dom().contains(id)
            && is_bip9_fork(after[id], decoded[i])
    &&& forall|i: int|
        0 <= i < stated.len() && #[trigger] stated[i].0 == id && !is_named(forks, id) && (forall|
            j: int,
        |
            i < j < stated.len() ==> #[trigger] stated[j].0 != id) ==> after.dom().contains(id)
            && is_buried_fork(after[id], stated[i].1)
    &&& !is_named(forks, id) && (forall|i: int|
        0 <= i < stated.len() ==> #[trigger] stated[i].0 != id) ==> after.dom().contains(id)
        == before.dom().contains(id) && (before.dom().contains(id) ==> after[id] == before[id])
}

/// What the two softfork fields add to the information that was decoded without
/// them.
pub open spec fn is_conversion<I, G: Fn(Json) -> Result<OldBip9SoftFork, RpcError>>(
    info: BlockchainInfo<I>,
    buried: JsonView,
    bip9: JsonView,
    decode_bip9: G,
    r: Result<BlockchainInfo<I>, RpcError>,
) -> bool {
    match r {
        Ok(out) => {
            &&& out.rest == info.rest
            &&& buried matches JsonView::Array(items) && bip9 matches JsonView::Object(forks)
                && exists|stated: Seq<(Seq<char>, bool)>, decoded: Seq<OldBip9SoftFork>|
                #![trigger stated.len(), decoded.len()]
                stated.len() == items.len() && decoded.len() == forks.len() && (forall|i: int|
                    0 <= i < items.len() ==> states(
                        #[trigger] items[i],
                        stated[i].0,
                        stated[i].1,
                    )) && (forall|i: int|
                    0 <= i < forks.len() ==> is_decoded(
                        decode_bip9,
                        (#[trigger] forks[i]).1,
                        Ok(decoded[i]),
                    )) && (names_differ(forks) ==> forall|id: Seq<char>| #[trigger]
                    is_converted(info.softforks@, out.softforks@, stated, forks, decoded, id))
        },
        Err(e) => {
            ||| e is UnexpectedStructure
            ||| bip9 matches JsonView::Object(forks) && is_first_failure(decode_bip9, forks, e) && (
            buried matches JsonView::Array(items) && forall|i: int|
                0 <= i < items.len() ==> !states_nothing(#[trigger] items[i]))
        },
    }
}

/// The entry states no softfork.
pub open spec fn states_nothing(entry: JsonView) -> bool {
    forall|id: Seq<char>, active: bool| !states(entry, id, active)
}

/// `decode` failed with that error for the value of some member, and gave a
/// softfork for each one before it.
pub open spec fn is_first_failure<G: Fn(Json) -> Result<OldBip9SoftFork, RpcError>>(
    decode: G,
    forks: Seq<(Seq<char>, JsonView)>,
    error: RpcError,
) -> bool {
    exists|i: int|
        0 <= i < forks.len() && #[trigger] is_decoded(
            decode,
            forks[i].1,
            Err::<OldBip9SoftFork, RpcError>(error),
        ) && forall|j: int| 0 <= j < i ==> gives_softfork(decode, (#[trigger] forks[j]).1)
}

/// `decode` gave a softfork for a value that holds `json`.
pub open spec fn gives_softfork<G: Fn(Json) -> Result<OldBip9SoftFork, RpcError>>(
    decode: G,
    json: JsonView,
) -> bool {
    exists|old: OldBip9SoftFork| #[trigger]
        is_decoded(decode, json, Ok::<OldBip9SoftFork, RpcError>(old))
}

/// `decode` gave that for a value that holds `json`.
pub open spec fn is_decoded<G: Fn(Json) -> Result<OldBip9SoftFork, RpcError>>(
    decode: G,
    json: JsonView,
    r: Result<OldBip9SoftFork, RpcError>,
) -> bool {
    exists|input: Json| #[trigger] call_ensures(decode, (input,), r) && input@ == json
}

/// Both softfork fields have the form that an old server gives them: an array
/// of entries that each state an identifier and whether it is active, and an
/// object.
pub open spec fn is_well_made(buried: JsonView, bip9: JsonView) -> bool {
    &&& bip9 is Object
    &&& buried matches JsonView::Array(items) && forall|i: int|
        0 <= i < items.len() ==> is_entry_well_made(#[trigger] items[i])
}

/// The entry states an identifier and whether it is active, and each name occurs
/// once in it.
pub open spec fn is_entry_well_made(entry: JsonView) -> bool {
    entry matches JsonView::Object(members) && names_differ(members) && exists|
        id: Seq<char>,
        reject: Seq<(Seq<char>, JsonView)>,
        active: bool,
    |
        #![trigger members.contains(("id"@, JsonView::String(id))), members.contains(
            ("reject"@, JsonView::Object(reject)),
        ), reject.contains(("status"@, JsonView::Bool(active)))]
        members.contains(("id"@, JsonView::String(id))) && members.contains(
            ("reject"@, JsonView::Object(reject)),
        ) && names_differ(reject) && reject.contains(("status"@, JsonView::Bool(active)))
}

/// What becomes of the reply of an old server. One without the softfork fields
/// is refused. Of any other the rest is decoded with an empty "softforks" field,
/// and then both fields are converted. It is refused for its structure only
/// where the fields are not well made.
pub open spec fn is_old_outcome<
    I,
    F: Fn(Json) -> Result<BlockchainInfo<I>, RpcError>,
    G: Fn(Json) -> Result<OldBip9SoftFork, RpcError>,
>(raw: JsonView, decode_info: F, decode_bip9: G, r: Result<BlockchainInfo<I>, RpcError>) -> bool {
    match raw {
        JsonView::Object(members) => if is_named(members, "softforks"@) && is_named(
            members,
            "bip9_softforks"@,
        ) {
            exists|
                rest: Json,
                decoded: Result<BlockchainInfo<I>, RpcError>,
                buried: JsonView,
                bip9: JsonView,
            |
                #![trigger call_ensures(decode_info, (rest,), decoded), members.contains(
                    ("softforks"@, buried),
                ), members.contains(("bip9_softforks"@, bip9))]
                call_ensures(decode_info, (rest,), decoded) && members.contains(
                    ("softforks"@, buried),
                ) && members.contains(("bip9_softforks"@, bip9)) && (
                rest@ matches JsonView::Object(kept) && is_emptied(members, kept)) && match decoded {
                    Ok(info) => {
                        &&& is_conversion(info, buried, bip9, decode_bip9, r)
                        &&& is_well_made(buried, bip9) && r is Err ==> is_first_failure(
                            decode_bip9,
                            bip9->Object_0,
                            r->Err_0,
                        )
                    },
                    Err(e) => r == Err::<BlockchainInfo<I>, RpcError>(e),
                }
        } else {
            r matches Err(RpcError::UnexpectedStructure)
        },
        _ => r matches Err(RpcError::UnexpectedStructure),
    }
}

/// A member that is found is there.
proof fn lemma_member_is_there(members: Seq<(Seq<char>, JsonView)>, name: Seq<char>)
    ensures
        member(members, name) is Some <==> is_named(members, name),
        member(members, name) matches Some(value) ==> members.contains((name, value)),
{
    if member(members, name) is Some {
        let i = member_index(members, name);
        assert(members[i] == (name, member(members, name)->0));
        assert(members[i].0 == name);
    }
}

/// A member that is there is found.
proof fn lemma_member_is_found(
    members: Seq<(Seq<char>, JsonView)>,
    name: Seq<char>,
    value: JsonView,
)
    requires
        names_differ(members),
        members.contains((name, value)),
    ensures
        member(members, name) == Some(value),
{
    let i = choose|i: int| 0 <= i < members.len() && members[i] == (name, value);
    assert(members[i].0 == name);
    let k = member_index(members, name);
    assert(members[k].0 == name);
    assert(i == k);
}

/// An entry that is read states what is read from it.
proof fn lemma_buried_entry_states(entry: JsonView)
    ensures
        buried_entry(entry) is Some ==> states(entry, buried_id(entry), buried_active(entry)),
        is_entry_well_made(entry) ==> buried_entry(entry) is Some,
{
    if let JsonView::Object(members) = entry {
        lemma_member_is_there(members, "id"@);
        lemma_member_is_there(members, "reject"@);
        if buried_entry(entry) is Some {
            let reject = member(members, "reject"@)->0->Object_0;
            lemma_member_is_there(reject, "status"@);
            assert(members.contains(("reject"@, JsonView::Object(reject))));
        }
        if is_entry_well_made(entry) {
            let (id, reject, active) = choose|
                id: Seq<char>,
                reject: Seq<(Seq<char>, JsonView)>,
                active: bool,
            |
                #![trigger members.contains(("id"@, JsonView::String(id))), members.contains(
                    ("reject"@, JsonView::Object(reject)),
                ), reject.contains(("status"@, JsonView::Bool(active)))]
                members.contains(("id"@, JsonView::String(id))) && members.contains(
                    ("reject"@, JsonView::Object(reject)),
                ) && names_differ(reject) && reject.contains(("status"@, JsonView::Bool(active)));
            lemma_member_is_found(members, "id"@, JsonView::String(id));
            lemma_member_is_found(members, "reject"@, JsonView::Object(reject));
            lemma_member_is_found(reject, "status"@, JsonView::Bool(active));
        }
    }
}

/// The rest of an old reply is the reply emptied of its softfork fields.
proof fn lemma_rest_is_emptied(members: Seq<(Seq<char>, JsonView)>)
    requires
        names_differ(members),
    ensures
        is_emptied(members, rest_members(members)),
{
    let kept = rest_members(members);
    let once = without_member(members, "bip9_softforks"@);
    let twice = without_member(once, "softforks"@);
    law_without_member(members, "bip9_softforks"@, "softforks"@);
    law_without_member(once, "softforks"@, "softforks"@);
    law_with_member(twice, "softforks"@, JsonView::Object(Seq::empty()), "softforks"@);
    reveal_strlit("bip9_softforks");
    reveal_strlit("softforks");
    assert("bip9_softforks"@.len() != "softforks"@.len());
    assert forall|entry: (Seq<char>, JsonView)| #[trigger]
        kept.contains(entry) <==> entry == ("softforks"@, JsonView::Object(Seq::empty())) || (
        members.contains(entry) && entry.0 != "softforks"@ && entry.0 != "bip9_softforks"@) by {
        law_rest_keeps_other_members(members, entry.0);
        if kept.contains(entry) {
            lemma_member_is_found(kept, entry.0, entry.1);
            if entry.0 != "softforks"@ {
                lemma_member_is_there(members, entry.0);
            }
        }
        if members.contains(entry) && entry.0 != "softforks"@ && entry.0 != "bip9_softforks"@ {
            lemma_member_is_found(members, entry.0, entry.1);
            lemma_member_is_there(kept, entry.0);
        }
        lemma_member_is_there(kept, "softforks"@);
        law_rest_keeps_other_members(members, "softforks"@);
    }
}

/// What both fields leave under an identifier.
proof fn lemma_converted(
    before: Map<Seq<char>, Softfork>,
    items: Seq<JsonView>,
    stated: Seq<(Seq<char>, bool)>,
    forks: Seq<(Seq<char>, JsonView)>,
    outputs: Seq<Result<OldBip9SoftFork, RpcError>>,
    decoded: Seq<OldBip9SoftFork>,
    id: Seq<char>,
)
    requires
        is_buried_list(JsonView::Array(items)),
        stated.len() == items.len(),
        forall|i: int|
            0 <= i < items.len() ==> #[trigger] stated[i] == (
                buried_id(items[i]),
                buried_active(items[i]),
            ),
        names_differ(forks),
        outputs.len() == forks.len(),
        decoded.len() == forks.len(),
        forall|i: int| 0 <= i < forks.len() ==> #[trigger] outputs[i] is Ok,
        forall|i: int| 0 <= i < forks.len() ==> #[trigger] decoded[i] == outputs[i]->Ok_0,
    ensures
        is_converted(
            before,
            with_bip9(with_buried(before, items, items.len()), forks, outputs, forks.len()),
            stated,
            forks,
            decoded,
            id,
        ),
{
    let between = with_buried(before, items, items.len());
    let after = with_bip9(between, forks, outputs, forks.len());
    assert forall|i: int| 0 <= i < forks.len() && #[trigger] forks[i].0 == id implies
        after.dom().contains(id) && is_bip9_fork(after[id], decoded[i]) by {
        law_bip9_softforks_are_found(between, forks, outputs, i);
        assert(outputs[i] is Ok && decoded[i] == outputs[i]->Ok_0);
    }
    if !is_named(forks, id) {
        lemma_member_is_there(forks, id);
        law_bip9_softforks_keep_others(between, forks, outputs, id);
    }
    assert forall|i: int|
        0 <= i < stated.len() && #[trigger] stated[i].0 == id && !is_named(forks, id) && (forall|
            j: int,
        |
            i < j < stated.len() ==> #[trigger] stated[j].0 != id) implies after.dom().contains(id)
        && is_buried_fork(after[id], stated[i].1) by {
        assert(stated[i] == (buried_id(items[i]), buried_active(items[i])));
        assert forall|j: int| i < j < items.len() implies #[trigger] buried_id(items[j])
            != buried_id(items[i]) by {
            assert(stated[j].0 != id);
        }
        law_buried_softforks_are_found(before, items, i);
    }
    if !is_named(forks, id) && (forall|i: int|
        0 <= i < stated.len() ==> #[trigger] stated[i].0 != id) {
        assert forall|i: int| 0 <= i < items.len() implies #[trigger] buried_id(items[i]) != id by {
            assert(stated[i].0 != id);
        }
        law_buried_softforks_keep_others(before, items, id);
    }
}

/// What the conversion of both fields gives.
proof fn lemma_conversion<I, G: Fn(Json) -> Result<OldBip9SoftFork, RpcError>>(
    info: BlockchainInfo<I>,
    items: Seq<JsonView>,
    bip9: JsonView,
    decode_bip9: G,
    r: Result<BlockchainInfo<I>, RpcError>,
)
    requires
        is_buried_list(JsonView::Array(items)),
        bip9_outcome(
            with_buried(info.softforks@, items, items.len()),
            info.rest,
            bip9,
            decode_bip9,
            r,
        ),
    ensures
        is_conversion(info, JsonView::Array(items), bip9, decode_bip9, r),
        bip9 is Object && r is Err ==> is_first_failure(decode_bip9, bip9->Object_0, r->Err_0),
{
    assert forall|i: int| 0 <= i < items.len() implies !states_nothing(#[trigger] items[i]) by {
        assert(buried_entry(items[i]) is Some);
        lemma_buried_entry_states(items[i]);
        assert(states(items[i], buried_id(items[i]), buried_active(items[i])));
    }
    if bip9 is Object {
        let forks = bip9->Object_0;
        let between = with_buried(info.softforks@, items, items.len());
        let (inputs, outputs) = choose|
            inputs: Seq<Json>,
            outputs: Seq<Result<OldBip9SoftFork, RpcError>>,
        | #[trigger]
            decoded_in_turn(decode_bip9, forks, inputs, outputs) && decoded_outcome(
                between,
                info.rest,
                forks,
                outputs,
                r,
            );
        if outputs.len() > 0 && outputs.last() is Err {
            let i = outputs.len() - 1;
            assert(inputs[i]@ == forks[i].1);
            assert(call_ensures(decode_bip9, (inputs[i],), outputs[i]));
            assert(is_decoded(decode_bip9, forks[i].1, outputs[i]));
            assert(outputs[i] == Err::<OldBip9SoftFork, RpcError>(r->Err_0));
            assert forall|j: int| 0 <= j < i implies gives_softfork(
                decode_bip9,
                (#[trigger] forks[j]).1,
            ) by {
                assert(outputs[j] is Ok);
                assert(inputs[j]@ == forks[j].1);
                assert(call_ensures(decode_bip9, (inputs[j],), outputs[j]));
                assert(outputs[j] == Ok::<OldBip9SoftFork, RpcError>(outputs[j]->Ok_0));
                assert(is_decoded(
                    decode_bip9,
                    forks[j].1,
                    Ok::<OldBip9SoftFork, RpcError>(outputs[j]->Ok_0),
                ));
            }
            assert(is_first_failure(decode_bip9, forks, r->Err_0));
        } else {
            let stated = Seq::new(
                items.len(),
                |i: int| (buried_id(items[i]), buried_active(items[i])),
            );
            let decoded = Seq::new(forks.len(), |i: int| outputs[i]->Ok_0);
            assert forall|i: int| 0 <= i < outputs.len() implies #[trigger] outputs[i] is Ok by {
                if i == outputs.len() - 1 {
                    assert(outputs[i] == outputs.last());
                }
            }
            assert forall|i: int| 0 <= i < items.len() implies states(
                #[trigger] items[i],
                stated[i].0,
                stated[i].1,
            ) by {
                lemma_buried_entry_states(items[i]);
                assert(buried_entry(items[i]) is Some);
            }
            assert forall|i: int| 0 <= i < forks.len() implies is_decoded(
                decode_bip9,
                (#[trigger] forks[i]).1,
                Ok(decoded[i]),
            ) by {
                assert(inputs[i]@ == forks[i].1);
                assert(call_ensures(decode_bip9, (inputs[i],), outputs[i]));
                assert(outputs[i] == Ok::<OldBip9SoftFork, RpcError>(decoded[i]));
            }
            if names_differ(forks) {
                assert forall|id: Seq<char>| #[trigger]
                    is_converted(
                        info.softforks@,
                        r->Ok_0.softforks@,
                        stated,
                        forks,
                        decoded,
                        id,
                    ) by {
                    lemma_converted(info.softforks@, items, stated, forks, outputs, decoded, id);
                }
            }
            assert(stated.len() == items.len() && decoded.len() == forks.len());
        }
    }
}

/// What becomes of the reply of an old server, told from its outcome.
pub proof fn law_old_outcome<
    I,
    F: Fn(Json) -> Result<BlockchainInfo<I>, RpcError>,
    G: Fn(Json) -> Result<OldBip9SoftFork, RpcError>,
>(
    raw: Json,
    version: usize,
    decode_info: F,
    decode_bip9: G,
    r: Result<BlockchainInfo<I>, RpcError>,
)
    requires
        version < 190000,
        raw@ matches JsonView::Object(members) ==> names_differ(members),
        info_outcome(raw, version, decode_info, decode_bip9, r),
    ensures
        is_old_outcome(raw@, decode_info, decode_bip9, r),
{
    if let JsonView::Object(members) = raw@ {
        lemma_member_is_there(members, "softforks"@);
        lemma_member_is_there(members, "bip9_softforks"@);
        if has_old_fields(raw@) {
            let buried = member(members, "softforks"@)->0;
            let bip9 = member(members, "bip9_softforks"@)->0;
            let (rest, decoded) = choose|
                rest: Json,
                decoded: Result<BlockchainInfo<I>, RpcError>,
            | #[trigger]
                call_ensures(decode_info, (rest,), decoded) && rest@ == JsonView::Object(
                    rest_members(members),
                ) && match decoded {
                    Ok(info) => if is_buried_list(buried) {
                        bip9_outcome(
                            with_buried(info.softforks@, buried->Array_0, buried->Array_0.len()),
                            info.rest,
                            bip9,
                            decode_bip9,
                            r,
                        )
                    } else {
                        r matches Err(RpcError::UnexpectedStructure)
                    },
                    Err(e) => r == Err::<BlockchainInfo<I>, RpcError>(e),
                };
            lemma_rest_is_emptied(members);
            assert(members.contains(("softforks"@, buried)));
            assert(members.contains(("bip9_softforks"@, bip9)));
            if let Ok(info) = decoded {
                if is_buried_list(buried) {
                    lemma_conversion(info, buried->Array_0, bip9, decode_bip9, r);
                } else if let JsonView::Array(items) = buried {
                    let i = choose|i: int|
                        0 <= i < items.len() && !(#[trigger] buried_entry(items[i]) is Some);
                    lemma_buried_entry_states(items[i]);
                    assert(!is_entry_well_made(items[i]));
                }
            }
        }
    }
}

/// Both softfork fields are taken out of a reply, and an empty "softforks" field
/// is put back; a reply that lacks one of them is refused.
pub proof fn law_fields_are_split(
    raw: Json,
    members: Seq<(Seq<char>, JsonView)>,
    r: Result<OldReply, RpcError>,
)
    requires
        raw@ == JsonView::Object(members),
        names_differ(members),
        call_ensures(split_softforks, (raw,), r),
    ensures
        match r {
            Ok(reply) => {
                &&& members.contains(("softforks"@, reply.old_softforks@))
                &&& members.contains(("bip9_softforks"@, reply.bip9_softforks@))
                &&& reply.rest@ matches JsonView::Object(kept) && is_emptied(members, kept)
            },
            Err(e) => e is UnexpectedStructure && !(is_named(members, "softforks"@) && is_named(
                members,
                "bip9_softforks"@,
            )),
        },
{
    lemma_member_is_there(members, "softforks"@);
    lemma_member_is_there(members, "bip9_softforks"@);
    lemma_rest_is_emptied(members);
}

/// The softforks that an old "softforks" field states are put into a table: each
/// under its identifier, the last one where several have one identifier. All
/// others stay.
pub proof fn law_buried_softforks_are_added(
    table: SoftforkTable,
    field: &Json,
    r: Result<SoftforkTable, RpcError>,
)
    requires
        call_ensures(add_buried, (table, field), r),
    ensures
        match r {
            Ok(after) => field@ matches JsonView::Array(items) && exists|
                stated: Seq<(Seq<char>, bool)>,
            |
                #![trigger stated.len()]
                stated.len() == items.len() && (forall|i: int|
                    0 <= i < items.len() ==> states(
                        #[trigger] items[i],
                        stated[i].0,
                        stated[i].1,
                    )) && forall|id: Seq<char>| #[trigger]
                    is_converted(table@, after@, stated, Seq::empty(), Seq::empty(), id),
            Err(e) => e is UnexpectedStructure && (field@ matches JsonView::Array(items) ==> exists|
                i: int,
            |
                0 <= i < items.len() && !is_entry_well_made(#[trigger] items[i])),
        },
{
    if let JsonView::Array(items) = field@ {
        if let Ok(after) = r {
            let stated = Seq::new(
                items.len(),
                |i: int| (buried_id(items[i]), buried_active(items[i])),
            );
            assert forall|i: int| 0 <= i < items.len() implies states(
                #[trigger] items[i],
                stated[i].0,
                stated[i].1,
            ) by {
                assert(buried_entry(items[i]) is Some);
                lemma_buried_entry_states(items[i]);
            }
            assert forall|id: Seq<char>| #[trigger]
                is_converted(table@, after@, stated, Seq::empty(), Seq::empty(), id) by {
                lemma_converted(
                    table@,
                    items,
                    stated,
                    Seq::empty(),
                    Seq::empty(),
                    Seq::empty(),
                    id,
                );
            }
            assert(stated.len() == items.len());
        } else {
            let i = choose|i: int|
                0 <= i < items.len() && !(#[trigger] buried_entry(items[i]) is Some);
            lemma_buried_entry_states(items[i]);
            assert(!is_entry_well_made(items[i]));
        }
    }
}

/// The softforks of an old "bip9_softforks" field are put into the information:
/// each under its name. All else stays. The first one that does not decode is
/// the error.
pub proof fn law_bip9_softforks_are_added<I, G: Fn(Json) -> Result<OldBip9SoftFork, RpcError>>(
    info: BlockchainInfo<I>,
    field: &Json,
    decode: &G,
    r: Result<BlockchainInfo<I>, RpcError>,
)
    requires
        call_ensures(add_bip9::<I, G>, (info, field, decode), r),
    ensures
        is_conversion(info, JsonView::Array(Seq::empty()), field@, *decode, r),
        field@ is Object && r is Err ==> is_first_failure(*decode, field@->Object_0, r->Err_0),
{
    lemma_conversion(info, Seq::empty(), field@, *decode, r);
}

} // verus!
