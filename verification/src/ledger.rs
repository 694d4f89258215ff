//! The version ledger: the global reload counter and, for each function, the
//! version its slot was last brought to.

use vstd::prelude::*;
use crate::text::same_text;

verus! {

/// The version a function's slot was last synced to.
struct LedgerEntry {
    name: String,
    version: u64,
}

/// The global reload version and the last-synced version of each function.
pub struct VersionLedger {
    global: u64,
    entries: Vec<LedgerEntry>,
}

impl VersionLedger {
    /// Whether the entry at `i` is the one of `name`.
    spec fn names(&self, i: int, name: Seq<char>) -> bool {
        0 <= i < self.entries@.len() && self.entries@[i].name@ == name
    }

    /// The global reload version.
    pub closed spec fn global(&self) -> u64 {
        self.global
    }

    /// The last-synced version of each function that has one.
    pub closed spec fn view(&self) -> Map<Seq<char>, u64> {
        Map::new(
            |name: Seq<char>| exists|i: int| self.names(i, name),
            |name: Seq<char>| self.entries@[choose|i: int| self.names(i, name)].version,
        )
    }

    /// No function is entered twice.
    spec fn distinct(&self) -> bool {
        forall|i: int, j: int|
            0 <= i < j < self.entries@.len() ==> self.entries@[i].name@ != self.entries@[j].name@
    }

    /// The ledger's invariant: each function is entered once at most, and no
    /// recorded version exceeds the global one.
    pub closed spec fn wf(&self) -> bool {
        self.distinct() && forall|i: int|
            0 <= i < self.entries@.len() ==> self.entries@[i].version <= self.global
    }

    /// Whether the slot of `name` lags behind the global version: it has no
    /// recorded version, or an older one.
    pub open spec fn stale(&self, name: Seq<char>) -> bool {
        !self@.contains_key(name) || self@[name] < self.global()
    }

    /// No recorded version exceeds the global version.
    pub proof fn lemma_recorded_bounded(&self, name: Seq<char>)
        requires
            self.wf(),
            self@.contains_key(name),
        ensures
            self@[name] <= self.global(),
    {
    }

    /// A ledger at version 0 with no entry.
    pub fn new() -> (ledger: VersionLedger)
        ensures
            ledger.wf(),
            ledger.global() == 0,
            ledger@ == Map::<Seq<char>, u64>::empty(),
    {
        let ledger = VersionLedger { global: 0, entries: Vec::new() };
        assert(ledger@ =~= Map::<Seq<char>, u64>::empty());
        ledger
    }

    /// The global reload version.
    pub fn current(&self) -> (version: u64)
        ensures
            version == self.global(),
    {
        self.global
    }

    /// The place of `name` among the entries.
    fn position(&self, name: &str) -> (place: Option<usize>)
        requires
            self.wf(),
        ensures
            match place {
                Some(i) => self.names(i as int, name@),
                None => !self@.contains_key(name@) && forall|k: int| !self.names(k, name@),
            },
    {
        let mut i: usize = 0;
        while i < self.entries.len()
            invariant
                i <= self.entries.len(),
                forall|k: int| 0 <= k < i ==> !self.names(k, name@),
            decreases self.entries.len() - i,
        {
            if same_text(self.entries[i].name.as_str(), name) {
                return Some(i);
            }
            i += 1;
        }
        None
    }

    /// The version the slot of `name` was last synced to.
    pub fn recorded(&self, name: &str) -> (version: Option<u64>)
        requires
            self.wf(),
        ensures
            version == (if self@.contains_key(name@) {
                Some(self@[name@])
            } else {
                None
            }),
            version is Some ==> version.unwrap() <= self.global(),
    {
        match self.position(name) {
            Some(i) => {
                proof {
                    self.lemma_entry(i as int, name@);
                }
                Some(self.entries[i].version)
            },
            None => None,
        }
    }

    /// The entry of a name is what the ledger records for it.
    proof fn lemma_entry(&self, i: int, name: Seq<char>)
        requires
            self.distinct(),
            self.names(i, name),
        ensures
            self@.contains_key(name),
            self@[name] == self.entries@[i].version,
    {
        let chosen = choose|k: int| self.names(k, name);
        assert(self.names(chosen, name));
        assert(chosen == i);
    }

    /// Whether the slot of `name` lags behind the global version.
    pub fn is_stale(&self, name: &str) -> (stale: bool)
        requires
            self.wf(),
        ensures
            stale == self.stale(name@),
    {
        match self.recorded(name) {
            Some(version) => version < self.global,
            None => true,
        }
    }

    /// Moves the global version on by one and returns the new version. The
    /// recorded versions stay, so every slot is stale afterwards.
    pub fn bump_global(&mut self) -> (version: u64)
        requires
            old(self).wf(),
            old(self).global() < u64::MAX,
        ensures
            final(self).wf(),
            version == old(self).global() + 1,
            final(self).global() == version,
            final(self)@ == old(self)@,
    {
        self.global = self.global + 1;
        assert(self@ =~= old(self)@) by {
            assert(forall|i: int, name: Seq<char>| self.names(i, name) == old(self).names(i, name));
        }
        self.global
    }

    /// Records that the slot of `name` was synced to `version`. A version
    /// beyond the global one is not recorded, and `false` is returned.
    pub fn record_synced(&mut self, name: &str, version: u64) -> (recorded: bool)
        requires
            old(self).wf(),
        ensures
            final(self).wf(),
            final(self).global() == old(self).global(),
            recorded == (version <= old(self).global()),
            recorded ==> final(self)@ == old(self)@.insert(name@, version),
            !recorded ==> final(self)@ == old(self)@,
    {
        if version > self.global {
            return false;
        }
        match self.position(name) {
            Some(i) => {
                let entry = LedgerEntry { name: String::from_str(name), version };
                self.entries.set(i, entry);
                proof {
                    assert forall|k: int, other: Seq<char>|
                        self.names(k, other) == old(self).names(k, other) by {}
                    assert forall|other: Seq<char>| #[trigger]
                        self@.contains_key(other) implies self@[other] == old(self)@.insert(
                        name@,
                        version,
                    )[other] by {
                        let k = choose|k: int| self.names(k, other);
                        self.lemma_entry(k, other);
                        old(self).lemma_entry(k, other);
                    }
                    assert(self@ =~= old(self)@.insert(name@, version));
                }
            },
            None => {
                let entry = LedgerEntry { name: String::from_str(name), version };
                self.entries.push(entry);
                proof {
                    let last = old(self).entries@.len() as int;
                    assert(self.names(last, name@));
                    assert forall|i: int, j: int| 0 <= i < j < self.entries@.len() implies self.entries@[i].name@
                        != self.entries@[j].name@ by {
                        if j == last {
                            assert(!old(self).names(i, name@));
                        }
                    }
                    assert(self.distinct());
                    assert forall|k: int, other: Seq<char>|
                        self.names(k, other) == (old(self).names(k, other) || (k == last && other
                            == name@)) by {}
                    assert forall|other: Seq<char>| #[trigger]
                        self@.contains_key(other) implies self@[other] == old(self)@.insert(
                        name@,
                        version,
                    )[other] by {
                        let k = choose|k: int| self.names(k, other);
                        self.lemma_entry(k, other);
                        if k != last {
                            old(self).lemma_entry(k, other);
                        }
                    }
                    assert(self@ =~= old(self)@.insert(name@, version));
                }
            },
        }
        true
    }
}

} // verus!
