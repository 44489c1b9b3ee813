//! Softforks and tables of them.

use vstd::prelude::*;
use crate::text::same_text;

verus! {

/// How a softfork is deployed.
#[derive(Clone, Copy, Debug, PartialEq, Eq, Structural)]
pub enum SoftforkType {
    Buried,
    Bip9,
    Other,
}

/// The status of a BIP 9 softfork.
#[derive(Clone, Copy, Debug, PartialEq, Eq, Structural)]
pub enum Bip9SoftforkStatus {
    Defined,
    Started,
    LockedIn,
    Active,
    Failed,
}

/// The signalling statistics of a BIP 9 softfork.
#[derive(Clone, Copy, Debug, PartialEq, Eq, Structural)]
pub struct Bip9SoftforkStatistics {
    pub period: u32,
    pub threshold: Option<u32>,
    pub elapsed: u32,
    pub count: u32,
    pub possible: Option<bool>,
}

/// What is known of a BIP 9 softfork.
#[derive(Clone, Copy, Debug, PartialEq, Eq, Structural)]
pub struct Bip9SoftforkInfo {
    pub status: Bip9SoftforkStatus,
    pub bit: Option<u8>,
    pub start_time: i64,
    pub timeout: u64,
    pub since: u32,
    pub statistics: Option<Bip9SoftforkStatistics>,
}

/// A softfork.
#[derive(Clone, Copy, Debug, PartialEq, Eq, Structural)]
pub struct Softfork {
    pub type_: SoftforkType,
    pub bip9: Option<Bip9SoftforkInfo>,
    pub height: Option<u32>,
    pub active: bool,
}

/// A BIP 9 softfork as servers before version 0.19 report it.
#[derive(Clone, Copy, Debug, PartialEq, Eq, Structural)]
pub struct OldBip9SoftFork {
    pub status: Bip9SoftforkStatus,
    pub bit: Option<u8>,
    pub start_time: i64,
    pub timeout: u64,
    pub since: u32,
    pub statistics: Option<Bip9SoftforkStatistics>,
}

/// A buried softfork.
pub open spec fn buried_softfork(active: bool) -> Softfork {
    Softfork { type_: SoftforkType::Buried, bip9: None, height: None, active }
}

/// A BIP 9 softfork with all that the old report says of it. It is active
/// exactly when its status is.
pub open spec fn bip9_softfork(old: OldBip9SoftFork) -> Softfork {
    Softfork {
        type_: SoftforkType::Bip9,
        bip9: Some(
            Bip9SoftforkInfo {
                status: old.status,
                bit: old.bit,
                start_time: old.start_time,
                timeout: old.timeout,
                since: old.since,
                statistics: old.statistics,
            },
        ),
        height: None,
        active: old.status == Bip9SoftforkStatus::Active,
    }
}

impl Softfork {
    /// A buried softfork.
    pub fn buried(active: bool) -> (r: Self)
        ensures
            r == buried_softfork(active),
    {
        Softfork { type_: SoftforkType::Buried, bip9: None, height: None, active }
    }

    /// A BIP 9 softfork from its old report.
    pub fn from_old_bip9(old: OldBip9SoftFork) -> (r: Self)
        ensures
            r == bip9_softfork(old),
    {
        Softfork {
            type_: SoftforkType::Bip9,
            bip9: Some(
                Bip9SoftforkInfo {
                    status: old.status,
                    bit: old.bit,
                    start_time: old.start_time,
                    timeout: old.timeout,
                    since: old.since,
                    statistics: old.statistics,
                },
            ),
            height: None,
            active: old.status == Bip9SoftforkStatus::Active,
        }
    }
}

/// Softforks by their identifiers, each identifier at most once.
#[derive(Debug)]
pub struct SoftforkTable {
    entries: Vec<(String, Softfork)>,
}

impl SoftforkTable {
    /// The identifiers and what stands under them.
    pub closed spec fn model(self) -> Map<Seq<char>, Softfork> {
        Map::new(
            |id: Seq<char>| exists|i: int| self.holds(i, id),
            |id: Seq<char>| self.entries@[choose|i: int| self.holds(i, id)].1,
        )
    }

    /// The entry at `i` is that of `id`.
    closed spec fn holds(self, i: int, id: Seq<char>) -> bool {
        0 <= i < self.entries@.len() && self.entries@[i].0@ == id
    }

    /// The identifiers, in the order in which the entries stand.
    pub closed spec fn ids(self) -> Seq<Seq<char>> {
        Seq::new(self.entries@.len(), |i: int| self.entries@[i].0@)
    }

    /// No identifier occurs twice.
    #[verifier::type_invariant]
    closed spec fn well_formed(self) -> bool {
        forall|i: int, j: int|
            0 <= i < j < self.entries@.len() ==> self.entries@[i].0@ != self.entries@[j].0@
    }
}

impl View for SoftforkTable {
    type V = Map<Seq<char>, Softfork>;

    open spec fn view(&self) -> Map<Seq<char>, Softfork> {
        self.model()
    }
}

impl SoftforkTable {
    /// A table without softforks.
    pub fn new() -> (r: Self)
        ensures
            r@ == Map::<Seq<char>, Softfork>::empty(),
    {
        let r = SoftforkTable { entries: Vec::new() };
        assert(r@ =~= Map::<Seq<char>, Softfork>::empty());
        r
    }

    /// The number of softforks.
    pub fn len(&self) -> (r: usize)
        ensures
            r == self.ids().len(),
            self.ids().no_duplicates(),
            self@.dom() == self.ids().to_set(),
    {
        proof {
            use_type_invariant(self);
            assert forall|id: Seq<char>|
                self@.dom().contains(id) <==> self.ids().to_set().contains(id) by {
                if self@.dom().contains(id) {
                    let i = choose|i: int| self.holds(i, id);
                    assert(self.ids()[i] == id);
                }
                if self.ids().contains(id) {
                    let i = choose|i: int| 0 <= i < self.ids().len() && self.ids()[i] == id;
                    assert(self.holds(i, id));
                }
            }
            assert(self@.dom() =~= self.ids().to_set());
        }
        self.entries.len()
    }

    /// The softfork at a position: its identifier and what stands under it.
    pub fn at(&self, i: usize) -> (r: (&str, &Softfork))
        requires
            i < self.ids().len(),
        ensures
            r.0@ == self.ids()[i as int],
            self@.contains_pair(r.0@, *r.1),
    {
        proof {
            use_type_invariant(self);
        }
        let entry = &self.entries[i];
        assert(self.holds(i as int, entry.0@));
        (entry.0.as_str(), &entry.1)
    }

    /// Where the softfork with that identifier stands.
    fn find(&self, id: &str) -> (r: Option<usize>)
        ensures
            match r {
                Some(i) => self.holds(i as int, id@),
                None => forall|i: int| !self.holds(i, id@),
            },
    {
        let mut i: usize = 0;
        while i < self.entries.len()
            invariant
                i <= self.entries@.len(),
                forall|j: int| 0 <= j < i ==> !self.holds(j, id@),
            decreases self.entries@.len() - i,
        {
            if same_text(self.entries[i].0.as_str(), id) {
                return Some(i);
            }
            i += 1;
        }
        None
    }

    /// The softfork with that identifier.
    pub fn get(&self, id: &str) -> (r: Option<&Softfork>)
        ensures
            match r {
                Some(softfork) => self@.contains_pair(id@, *softfork),
                None => !self@.dom().contains(id@),
            },
    {
        proof {
            use_type_invariant(self);
        }
        match self.find(id) {
            Some(i) => Some(&self.entries[i].1),
            None => None,
        }
    }

    /// Puts a softfork under an identifier, in place of the one that was there.
    pub fn insert(&mut self, id: String, softfork: Softfork)
        ensures
            final(self)@ == old(self)@.insert(id@, softfork),
    {
        proof {
            use_type_invariant(&*self);
        }
        let at = self.find(id.as_str());
        let mut entries: Vec<(String, Softfork)> = Vec::new();
        std::mem::swap(&mut entries, &mut self.entries);
        let ghost before = entries@;
        let ghost place = match at {
            Some(i) => i as int,
            None => before.len() as int,
        };
        match at {
            Some(i) => {
                entries[i] = (id, softfork);
            },
            None => {
                assert forall|j: int| 0 <= j < before.len() implies before[j].0@ != id@ by {
                    assert(!old(self).holds(j, id@));
                }
                entries.push((id, softfork));
            },
        }
        self.entries = entries;
        proof {
            use_type_invariant(&*self);
            assert(self.holds(place, id@));
            let found = choose|i: int| self.holds(i, id@);
            assert(found == place);
            assert(self@[id@] == softfork);
            let want = old(self)@.insert(id@, softfork);
            assert forall|k: Seq<char>| #[trigger]
                self@.dom().contains(k) == want.dom().contains(k) && (self@.dom().contains(k)
                    ==> self@[k] == want[k]) by {
                if k != id@ {
                    if self@.dom().contains(k) {
                        let i = choose|i: int| self.holds(i, k);
                        assert(old(self).holds(i, k));
                    }
                    if old(self)@.dom().contains(k) {
                        let i = choose|i: int| old(self).holds(i, k);
                        assert(self.holds(i, k));
                    }
                }
            }
            assert(self@ =~= want);
        }
    }
}

/// The softfork is a buried one that is as active as that, and nothing more is
/// known of it.
pub open spec fn is_buried_fork(softfork: Softfork, active: bool) -> bool {
    &&& softfork.type_ is Buried
    &&& softfork.bip9 is None
    &&& softfork.height is None
    &&& softfork.active == active
}

/// The softfork is a BIP 9 one of which all is known that the old report says,
/// and it is active just where its status is.
pub open spec fn is_bip9_fork(softfork: Softfork, old: OldBip9SoftFork) -> bool {
    &&& softfork.type_ is Bip9
    &&& softfork.height is None
    &&& softfork.active <==> old.status is Active
    &&& softfork.bip9 matches Some(info) && {
        &&& info.status == old.status
        &&& info.bit == old.bit
        &&& info.start_time == old.start_time
        &&& info.timeout == old.timeout
        &&& info.since == old.since
        &&& info.statistics == old.statistics
    }
}

/// What the two kinds of old softforks are made into.
pub proof fn law_old_softforks(active: bool, old: OldBip9SoftFork, a: Softfork, b: Softfork)
    requires
        call_ensures(Softfork::buried, (active,), a),
        call_ensures(Softfork::from_old_bip9, (old,), b),
    ensures
        is_buried_fork(a, active),
        is_bip9_fork(b, old),
{
}

/// A softfork that is put into a table is found there, and every other one is
/// found as it was.
pub proof fn law_table_gives_what_was_put_in(
    table: &mut SoftforkTable,
    id: String,
    softfork: Softfork,
    before: &SoftforkTable,
    after: &SoftforkTable,
    name: &str,
    a: Option<&Softfork>,
    b: Option<&Softfork>,
)
    requires
        call_ensures(SoftforkTable::insert, (table, id, softfork), ()),
        *before == *old(table),
        *after == *final(table),
        call_ensures(SoftforkTable::get, (before, name), a),
        call_ensures(SoftforkTable::get, (after, name), b),
    ensures
        name@ == id@ ==> (b matches Some(found) && *found == softfork),
        name@ != id@ ==> (a is None <==> b is None),
        name@ != id@ ==> (a matches Some(x) ==> (b matches Some(y) && *x == *y)),
{
}

/// A table counts its softforks, each identifier once.
pub proof fn law_table_counts_its_softforks(table: &SoftforkTable, r: usize)
    requires
        call_ensures(SoftforkTable::len, (table,), r),
    ensures
        table@.dom().finite(),
        table@.dom().len() == r,
{
    table.ids().unique_seq_to_set();
}

/// A table gives a softfork of its own at each position, under its identifier.
pub proof fn law_table_by_position(
    table: &SoftforkTable,
    len: usize,
    i: usize,
    j: usize,
    a: (&str, &Softfork),
    b: (&str, &Softfork),
)
    requires
        call_ensures(SoftforkTable::len, (table,), len),
        i < j < len,
        call_ensures(SoftforkTable::at, (table, i), a),
        call_ensures(SoftforkTable::at, (table, j), b),
    ensures
        table@.contains_pair(a.0@, *a.1),
        table@.contains_pair(b.0@, *b.1),
        a.0@ != b.0@,
{
}

} // verus!
