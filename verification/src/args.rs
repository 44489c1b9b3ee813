//! Positional arguments of a call.

use vstd::prelude::*;
use crate::chain::{hash_text, law_hex_writes_out, writes_out, BlockHash, Txid};
use crate::json::{views, Json, JsonNumber, JsonNumberView, JsonView};

verus! {

/// What can be an argument of a call.
pub trait IntoJson: Sized {
    /// The JSON value that the argument is passed as.
    spec fn as_json(self) -> JsonView;

    /// Turns the argument into its JSON value.
    fn into_json(self) -> (r: Json)
        ensures
            r@ == self.as_json(),
    ;
}

impl IntoJson for bool {
    open spec fn as_json(self) -> JsonView {
        JsonView::Bool(self)
    }

    fn into_json(self) -> (r: Json) {
        Json::Bool(self)
    }
}

impl IntoJson for u64 {
    open spec fn as_json(self) -> JsonView {
        JsonView::Number(JsonNumberView::PosInt(self))
    }

    fn into_json(self) -> (r: Json) {
        Json::Number(JsonNumber::PosInt(self))
    }
}

impl<'a> IntoJson for &'a BlockHash {
    open spec fn as_json(self) -> JsonView {
        JsonView::String(hash_text(self@))
    }

    fn into_json(self) -> (r: Json) {
        self.to_json()
    }
}

impl<'a> IntoJson for &'a Txid {
    open spec fn as_json(self) -> JsonView {
        JsonView::String(hash_text(self@))
    }

    fn into_json(self) -> (r: Json) {
        self.to_json()
    }
}

/// Shorthand for converting an argument into its JSON value.
pub fn into_json<T: IntoJson>(val: T) -> (r: Json)
    ensures
        r@ == val.as_json(),
{
    val.into_json()
}

/// The JSON value of an argument that may be left out: `null` where it is.
pub open spec fn opt_as_json<T: IntoJson>(opt: Option<T>) -> JsonView {
    match opt {
        Some(val) => val.as_json(),
        None => JsonView::Null,
    }
}

/// Shorthand for converting an argument that may be left out.
pub fn opt_into_json<T: IntoJson>(opt: Option<T>) -> (r: Json)
    ensures
        r@ == opt_as_json(opt),
{
    match opt {
        Some(val) => into_json(val),
        None => null(),
    }
}

/// Shorthand for the JSON value `null`.
pub fn null() -> (r: Json)
    ensures
        r@ == JsonView::Null,
{
    Json::Null
}

/// How many arguments are left when those that are `null` at the end, and not
/// among the first `required`, are dropped.
pub open spec fn kept_len(args: Seq<JsonView>, required: nat) -> nat
    decreases args.len(),
{
    if args.len() <= required || args.last() != JsonView::Null {
        args.len()
    } else {
        kept_len(args.drop_last(), required)
    }
}

/// The argument at `i`, with the default for it where it is `null` and has one.
pub open spec fn filled_arg(args: Seq<JsonView>, defaults: Seq<JsonView>, i: int) -> JsonView {
    let required = args.len() - defaults.len();
    if i >= required && args[i] == JsonView::Null {
        defaults[i - required]
    } else {
        args[i]
    }
}

/// The arguments to pass: those that are kept, with the defaults filled in.
pub open spec fn filled_args(args: Seq<JsonView>, defaults: Seq<JsonView>) -> Seq<JsonView> {
    Seq::new(
        kept_len(args, (args.len() - defaults.len()) as nat),
        |i: int| filled_arg(args, defaults, i),
    )
}

/// The list of arguments after the defaults have been filled in: those that are
/// passed, and then those that were dropped, as they were.
pub open spec fn left_args(args: Seq<JsonView>, defaults: Seq<JsonView>) -> Seq<JsonView> {
    filled_args(args, defaults) + args.skip(filled_args(args, defaults).len() as int)
}

/// There are no more defaults than arguments, and each argument that is `null`
/// before the last one that is kept is required or has a default other than
/// `null`.
pub open spec fn defaults_suffice(args: Seq<JsonView>, defaults: Seq<JsonView>) -> bool {
    &&& defaults.len() <= args.len()
    &&& forall|i: int|
        args.len() - defaults.len() <= i < kept_len(args, (args.len() - defaults.len()) as nat)
            ==> filled_arg(args, defaults, i) != JsonView::Null
}

/// What is dropped is `null`, and the last optional argument that is kept is not.
pub proof fn law_kept_len(args: Seq<JsonView>, required: nat)
    requires
        required <= args.len(),
    ensures
        required <= kept_len(args, required) <= args.len(),
        forall|i: int| kept_len(args, required) <= i < args.len() ==> args[i] == JsonView::Null,
        kept_len(args, required) > required ==> args[kept_len(args, required) - 1]
            != JsonView::Null,
    decreases args.len(),
{
    if args.len() > required && args.last() == JsonView::Null {
        law_kept_len(args.drop_last(), required);
        assert forall|i: int| kept_len(args, required) <= i < args.len() implies args[i]
            == JsonView::Null by {
            if i < args.len() - 1 {
                assert(args.drop_last()[i] == args[i]);
            }
        }
    }
}

/// The arguments to pass begin with the required ones as they were given. Each
/// optional one that was given stays as it was. One that is `null` is passed as
/// its default where a later one was given; else it is dropped.
pub proof fn law_filled_args(args: Seq<JsonView>, defaults: Seq<JsonView>)
    requires
        defaults_suffice(args, defaults),
    ensures
        ({
            let required = args.len() - defaults.len();
            let passed = filled_args(args, defaults);
            &&& required <= passed.len() <= args.len()
            &&& forall|i: int| 0 <= i < required ==> passed[i] == args[i]
            &&& forall|i: int|
                required <= i < args.len() && args[i] != JsonView::Null ==> i < passed.len()
                    && passed[i] == args[i]
            &&& forall|i: int, j: int|
                required <= i < j < args.len() && args[i] == JsonView::Null && args[j]
                    != JsonView::Null ==> i < passed.len() && passed[i] == defaults[i - required]
            &&& passed.len() > required ==> args[passed.len() - 1] != JsonView::Null
            &&& forall|i: int| required <= i < passed.len() ==> passed[i] != JsonView::Null
        }),
{
    law_kept_len(args, (args.len() - defaults.len()) as nat);
}

/// Filling in the defaults a second time, with those of the arguments that are
/// left, changes nothing.
pub proof fn law_filling_twice_changes_nothing(args: Seq<JsonView>, defaults: Seq<JsonView>)
    requires
        defaults_suffice(args, defaults),
    ensures
        ({
            let required = args.len() - defaults.len();
            let passed = filled_args(args, defaults);
            let left = defaults.take(passed.len() - required);
            defaults_suffice(passed, left) && filled_args(passed, left) == passed
        }),
{
    let required = args.len() - defaults.len();
    let passed = filled_args(args, defaults);
    let left = defaults.take(passed.len() - required);
    law_filled_args(args, defaults);
    lemma_kept_len_unique(passed, required as nat, passed.len());
    assert(filled_args(passed, left) =~= passed);
}

/// Filling in the same defaults a second time, in the list as it was left,
/// passes the same arguments and leaves the list as it is.
pub proof fn law_refilling_the_list_changes_nothing(args: Seq<JsonView>, defaults: Seq<JsonView>)
    requires
        defaults_suffice(args, defaults),
    ensures
        ({
            let left = left_args(args, defaults);
            &&& defaults_suffice(left, defaults)
            &&& filled_args(left, defaults) == filled_args(args, defaults)
            &&& left_args(left, defaults) == left
        }),
{
    let required = (args.len() - defaults.len()) as nat;
    let passed = filled_args(args, defaults);
    let left = left_args(args, defaults);
    law_kept_len(args, required);
    law_filled_args(args, defaults);
    assert(left.len() == args.len());
    assert forall|i: int| passed.len() <= i < left.len() implies left[i] == JsonView::Null by {
        assert(left[i] == args[i]);
    }
    lemma_kept_len_unique(left, required, passed.len());
    assert(filled_args(left, defaults) =~= passed);
    assert(left_args(left, defaults) =~= left);
}

/// Only one length drops just the `null`s at the end of the optional arguments.
proof fn lemma_kept_len_unique(args: Seq<JsonView>, required: nat, len: nat)
    requires
        required <= len <= args.len(),
        forall|i: int| len <= i < args.len() ==> args[i] == JsonView::Null,
        len > required ==> args[len - 1] != JsonView::Null,
    ensures
        kept_len(args, required) == len,
{
    law_kept_len(args, required);
    let kept = kept_len(args, required);
    if kept > len {
        assert(args[kept - 1] == JsonView::Null);
    }
    if kept < len {
        assert(args[len - 1] == JsonView::Null);
    }
}

/// Handle default values in the argument list.
///
/// Substitutes `null`s with the corresponding values from `defaults`, except
/// where they are trailing: those are left out of the returned list.
///
/// `defaults` corresponds to the last elements of `args`:
///
/// ```text
/// arg1 arg2 arg3 arg4
///           def1 def2
/// ```
///
/// Elements of `args` without a corresponding default are required and stay as
/// they are.
pub fn handle_defaults<'a, 'b>(args: &'a mut [Json], defaults: &'b [Json]) -> (r: &'a [Json])
    requires
        defaults_suffice(views(old(args)@), views(defaults@)),
    ensures
        views(r@) == filled_args(views(old(args)@), views(defaults@)),
        views(final(args)@) == left_args(views(old(args)@), views(defaults@)),
        final(args)@.len() == old(args)@.len(),
        r@ == final(args)@.take(r@.len() as int),
        forall|i: int| r@.len() <= i < old(args)@.len() ==> final(args)@[i] == old(args)@[i],
{
    let required_num: usize = args.len() - defaults.len();
    let ghost before = views(args@);
    let ghost wanted = views(defaults@);
    let ghost start = args@;
    let mut kept: usize = required_num;
    let mut i: usize = args.len();
    // Pass over the optional arguments in backwards order, filling in defaults
    // after the first one that is not null has been observed.
    while i > required_num
        invariant
            before == views(start),
            wanted == views(defaults@),
            defaults_suffice(before, wanted),
            args@.len() == start.len(),
            required_num == start.len() - defaults@.len(),
            required_num <= i <= start.len(),
            required_num <= kept <= start.len(),
            kept == required_num || i < kept,
            forall|j: int| 0 <= j < i ==> args@[j] == start[j],
            kept > required_num ==> before[kept - 1] != JsonView::Null,
            forall|j: int| i <= j < start.len() && kept <= j ==> before[j] == JsonView::Null,
            forall|j: int| kept <= j < start.len() ==> args@[j] == start[j],
            forall|j: int| i <= j < kept ==> args@[j]@ == filled_arg(before, wanted, j),
        decreases i,
    {
        i -= 1;
        if args[i].is_null() {
            if kept > required_num {
                args[i] = defaults[i - required_num].clone();
            }
        } else if kept == required_num {
            kept = i + 1;
        }
        assert(before[i as int] == start[i as int]@);
    }
    proof {
        lemma_kept_len_unique(before, required_num as nat, kept as nat);
    }
    let r = vstd::slice::slice_subrange(&*args, 0, kept);
    assert forall|j: int| 0 <= j < kept implies r@[j]@ == filled_arg(before, wanted, j) by {
        assert(before[j] == start[j]@);
    }
    assert(views(r@) =~= filled_args(before, wanted));
    assert(views(args@) =~= left_args(before, wanted)) by {
        assert forall|j: int| 0 <= j < start.len() implies views(args@)[j] == left_args(
            before,
            wanted,
        )[j] by {
            if j < kept {
                assert(r@[j] == args@[j]);
            }
        }
    }
    r
}

/// An argument is passed as the JSON value of the same kind that holds it.
pub proof fn law_arguments_as_json(b: bool, n: u64, of_b: Json, of_n: Json)
    requires
        call_ensures(into_json::<bool>, (b,), of_b),
        call_ensures(into_json::<u64>, (n,), of_n),
    ensures
        of_b@ == JsonView::Bool(b),
        of_n@ == JsonView::Number(JsonNumberView::PosInt(n)),
{
}

/// A hash is passed as the text that writes out its bytes, the last byte first.
pub proof fn law_hashes_as_json(hash: &BlockHash, txid: &Txid, of_hash: Json, of_txid: Json)
    requires
        call_ensures(into_json::<&BlockHash>, (hash,), of_hash),
        call_ensures(into_json::<&Txid>, (txid,), of_txid),
    ensures
        of_hash@ matches JsonView::String(text) && writes_out(text, hash.bytes@.reverse()),
        of_txid@ matches JsonView::String(text) && writes_out(text, txid.bytes@.reverse()),
{
    law_hex_writes_out(hash.bytes@.reverse());
    law_hex_writes_out(txid.bytes@.reverse());
}

/// An argument that is left out is passed as `null`, and one that is given as
/// itself.
pub proof fn law_optional_argument_as_json(
    opt: Option<&BlockHash>,
    hash: &BlockHash,
    of_opt: Json,
    of_hash: Json,
    nothing: Json,
)
    requires
        call_ensures(null, (), nothing),
        call_ensures(opt_into_json::<&BlockHash>, (opt,), of_opt),
        call_ensures(into_json::<&BlockHash>, (hash,), of_hash),
    ensures
        opt is None ==> of_opt@ == JsonView::Null,
        opt == Some(hash) ==> of_opt@ == of_hash@,
        of_hash@ != JsonView::Null,
        nothing@ == JsonView::Null,
{
}

/// The defaults suffice just where there are not more of them than arguments and
/// each optional argument that is `null` before one that is given has a default
/// other than `null`.
pub proof fn law_when_defaults_suffice(args: Seq<JsonView>, defaults: Seq<JsonView>)
    ensures
        defaults_suffice(args, defaults) <==> defaults.len() <= args.len() && forall|i: int, j: int|
            args.len() - defaults.len() <= i < j < args.len() && #[trigger] args[i]
                == JsonView::Null && #[trigger] args[j] != JsonView::Null ==> defaults[i - (
            args.len() - defaults.len())] != JsonView::Null,
{
    if defaults.len() <= args.len() {
        let required = (args.len() - defaults.len()) as nat;
        law_kept_len(args, required);
        let kept = kept_len(args, required);
        if defaults_suffice(args, defaults) {
            assert forall|i: int, j: int|
                required <= i < j < args.len() && #[trigger] args[i] == JsonView::Null
                    && #[trigger] args[j] != JsonView::Null implies defaults[i - required]
                != JsonView::Null by {
                assert(j < kept);
                assert(filled_arg(args, defaults, i) != JsonView::Null);
            }
        } else {
            let i = choose|i: int|
                required <= i < kept && filled_arg(args, defaults, i) == JsonView::Null;
            assert(args[i] == JsonView::Null && args[kept - 1] != JsonView::Null);
        }
    }
}

/// What handling the defaults does to a list of arguments. The required ones
/// stay, and so does every optional one that is given. One that is `null` is
/// replaced by its default where a later one is given, and else it is left out
/// of what is passed and stays in the list.
pub proof fn law_defaults_are_handled(args: &mut [Json], defaults: &[Json], r: &[Json])
    requires
        defaults@.len() <= old(args)@.len(),
        call_ensures(handle_defaults, (args, defaults), r),
    ensures
        ({
            let required = old(args)@.len() - defaults@.len();
            let given = old(args)@;
            let after = final(args)@;
            &&& after.len() == given.len()
            &&& required <= r@.len() <= given.len()
            &&& forall|i: int| 0 <= i < r@.len() ==> (#[trigger] r@[i])@ == after[i]@
            &&& forall|i: int| 0 <= i < required ==> (#[trigger] after[i])@ == given[i]@
            &&& forall|i: int|
                required <= i < given.len() && given[i]@ != JsonView::Null ==> i < r@.len()
                    && (#[trigger] after[i])@ == given[i]@
            &&& forall|i: int, j: int|
                required <= i < j < given.len() && given[i]@ == JsonView::Null && (
                #[trigger] given[j])@ != JsonView::Null ==> (#[trigger] after[i])@ == defaults@[i
                    - required]@
            &&& r@.len() > required ==> given[r@.len() - 1]@ != JsonView::Null
            &&& forall|i: int| r@.len() <= i < given.len() ==> (#[trigger] after[i])@ == given[i]@
        }),
{
    let given = views(old(args)@);
    let wanted = views(defaults@);
    let after = final(args)@;
    let required = given.len() - wanted.len();
    law_kept_len(given, required as nat);
    assert forall|i: int| 0 <= i < r@.len() implies (#[trigger] r@[i])@ == after[i]@ by {
        assert(r@[i] == after.take(r@.len() as int)[i]);
    }
    assert forall|i: int| 0 <= i < after.len() implies (#[trigger] after[i])@ == left_args(
        given,
        wanted,
    )[i] by {
        assert(views(after)[i] == after[i]@);
    }
    assert forall|i: int| 0 <= i < given.len() implies #[trigger] given[i] == old(args)@[i]@ by {}
    assert forall|i: int, j: int|
        required <= i < j < given.len() && old(args)@[i]@ == JsonView::Null && (
        #[trigger] old(args)@[j])@ != JsonView::Null implies (#[trigger] after[i])@ == defaults@[i
        - required]@ by {
        assert(given[j] != JsonView::Null);
        assert(wanted[i - required] == defaults@[i - required]@);
    }
}

} // verus!
