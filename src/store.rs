use vstd::prelude::*;
use crate::types::{MatchRecord, owed};

verus! {

/// The records kept under their match identifiers, in order of creation.
pub open spec fn records_of(s: Seq<(u128, MatchRecord)>) -> Map<u128, MatchRecord>
    decreases s.len(),
{
    if s.len() == 0 {
        Map::empty()
    } else {
        records_of(s.drop_last()).insert(s.last().0, s.last().1)
    }
}

/// The sum, over all entries, of what the escrow owes on each record.
pub open spec fn total_owed(s: Seq<(u128, MatchRecord)>) -> int
    decreases s.len(),
{
    if s.len() == 0 {
        0
    } else {
        total_owed(s.drop_last()) + owed(s.last().1)
    }
}

/// No match identifier is kept twice.
pub open spec fn keys_unique(s: Seq<(u128, MatchRecord)>) -> bool {
    forall|i: int, j: int| 0 <= i < j < s.len() ==> s[i].0 != s[j].0
}

proof fn lemma_owed_nonneg(r: MatchRecord)
    ensures
        owed(r) >= 0,
{
}

proof fn lemma_records_of_absent(s: Seq<(u128, MatchRecord)>, k: u128)
    requires
        forall|i: int| 0 <= i < s.len() ==> s[i].0 != k,
    ensures
        !records_of(s).contains_key(k),
    decreases s.len(),
{
    if s.len() > 0 {
        lemma_records_of_absent(s.drop_last(), k);
    }
}

proof fn lemma_records_of_at(s: Seq<(u128, MatchRecord)>, i: int)
    requires
        keys_unique(s),
        0 <= i < s.len(),
    ensures
        records_of(s).contains_key(s[i].0),
        records_of(s)[s[i].0] == s[i].1,
    decreases s.len(),
{
    if i < s.len() - 1 {
        lemma_records_of_at(s.drop_last(), i);
    }
}

proof fn lemma_records_of_update(s: Seq<(u128, MatchRecord)>, i: int, r: MatchRecord)
    requires
        keys_unique(s),
        0 <= i < s.len(),
    ensures
        records_of(s.update(i, (s[i].0, r))) == records_of(s).insert(s[i].0, r),
        total_owed(s.update(i, (s[i].0, r))) == total_owed(s) - owed(s[i].1) + owed(r),
    decreases s.len(),
{
    let t = s.update(i, (s[i].0, r));
    if i == s.len() - 1 {
        assert(t.drop_last() =~= s.drop_last());
        assert(records_of(t) =~= records_of(s).insert(s[i].0, r));
    } else {
        assert(t.drop_last() =~= s.drop_last().update(i, (s[i].0, r)));
        lemma_records_of_update(s.drop_last(), i, r);
        assert(records_of(t) =~= records_of(s).insert(s[i].0, r));
    }
}

proof fn lemma_records_of_remove(s: Seq<(u128, MatchRecord)>, i: int)
    requires
        keys_unique(s),
        0 <= i < s.len(),
    ensures
        records_of(s.remove(i)) == records_of(s).remove(s[i].0),
        total_owed(s.remove(i)) == total_owed(s) - owed(s[i].1),
    decreases s.len(),
{
    let t = s.remove(i);
    if i == s.len() - 1 {
        assert(t =~= s.drop_last());
        lemma_records_of_absent(s.drop_last(), s[i].0);
        assert(records_of(t) =~= records_of(s).remove(s[i].0));
    } else {
        assert(t.drop_last() =~= s.drop_last().remove(i));
        lemma_records_of_remove(s.drop_last(), i);
        assert(records_of(t) =~= records_of(s).remove(s[i].0));
    }
}

proof fn lemma_total_covers(s: Seq<(u128, MatchRecord)>, i: int)
    requires
        0 <= i < s.len(),
    ensures
        total_owed(s) >= owed(s[i].1),
    decreases s.len(),
{
    lemma_owed_nonneg(s.last().1);
    if i < s.len() - 1 {
        lemma_total_covers(s.drop_last(), i);
    } else {
        lemma_total_nonneg(s.drop_last());
    }
}

proof fn lemma_total_nonneg(s: Seq<(u128, MatchRecord)>)
    ensures
        total_owed(s) >= 0,
    decreases s.len(),
{
    if s.len() > 0 {
        lemma_owed_nonneg(s.last().1);
        lemma_total_nonneg(s.drop_last());
    }
}

/// The keyed store of match records: at most one record per match identifier.
pub struct MatchStore {
    entries: Vec<(u128, MatchRecord)>,
}

impl View for MatchStore {
    type V = Map<u128, MatchRecord>;

    closed spec fn view(&self) -> Map<u128, MatchRecord> {
        records_of(self.entries@)
    }
}

impl MatchStore {
    /// The store's invariant.
    pub closed spec fn wf(&self) -> bool {
        keys_unique(self.entries@)
    }

    /// The sum of what the escrow owes on the records kept.
    pub closed spec fn total(&self) -> int {
        total_owed(self.entries@)
    }

    /// The entries, each record once under its match identifier.
    pub closed spec fn entries(&self) -> Seq<(u128, MatchRecord)> {
        self.entries@
    }

    /// The total is the sum over the entries, which list the records once each.
    pub proof fn lemma_total_is_sum(&self)
        requires
            self.wf(),
        ensures
            keys_unique(self.entries()),
            records_of(self.entries()) == self@,
            self.total() == total_owed(self.entries()),
    {
    }

    /// An empty store.
    pub fn new() -> (r: MatchStore)
        ensures
            r.wf(),
            r@ == Map::<u128, MatchRecord>::empty(),
            r.total() == 0,
    {
        MatchStore { entries: Vec::new() }
    }

    /// What the escrow owes on one record is part of the total.
    pub proof fn lemma_total_covers(&self, k: u128)
        requires
            self.wf(),
            self@.contains_key(k),
        ensures
            self.total() >= owed(self@[k]),
    {
        self.lemma_index_of(k);
        let i = self.index_of(k);
        lemma_records_of_at(self.entries@, i);
        lemma_total_covers(self.entries@, i);
    }

    spec fn index_of(&self, k: u128) -> int {
        choose|i: int| 0 <= i < self.entries@.len() && self.entries@[i].0 == k
    }

    proof fn lemma_index_of(&self, k: u128)
        requires
            self.wf(),
            self@.contains_key(k),
        ensures
            0 <= self.index_of(k) < self.entries@.len(),
            self.entries@[self.index_of(k)].0 == k,
    {
        if !(exists|i: int| 0 <= i < self.entries@.len() && self.entries@[i].0 == k) {
            lemma_records_of_absent(self.entries@, k);
        }
    }

    /// The position of the record kept under `k`, if any.
    fn find(&self, k: u128) -> (r: Option<usize>)
        requires
            self.wf(),
        ensures
            match r {
                Some(i) => i < self.entries@.len() && self.entries@[i as int].0 == k
                    && self@.contains_key(k) && self@[k] == self.entries@[i as int].1,
                None => !self@.contains_key(k)
                    && forall|j: int| 0 <= j < self.entries@.len() ==> self.entries@[j].0 != k,
            },
    {
        let mut i: usize = 0;
        while i < self.entries.len()
            invariant
                self.wf(),
                i <= self.entries@.len(),
                forall|j: int| 0 <= j < i ==> self.entries@[j].0 != k,
            decreases self.entries@.len() - i,
        {
            if self.entries[i].0 == k {
                proof {
                    lemma_records_of_at(self.entries@, i as int);
                }
                return Some(i);
            }
            i = i + 1;
        }
        proof {
            lemma_records_of_absent(self.entries@, k);
        }
        None
    }

    /// The record kept under `k`, if any.
    pub fn get(&self, k: u128) -> (r: Option<MatchRecord>)
        requires
            self.wf(),
        ensures
            match r {
                Some(rec) => self@.contains_key(k) && self@[k] == rec,
                None => !self@.contains_key(k),
            },
    {
        match self.find(k) {
            Some(i) => Some(self.entries[i].1),
            None => None,
        }
    }

    /// Keeps `rec` under `k`, creating or replacing the record.
    pub fn put(&mut self, k: u128, rec: MatchRecord)
        requires
            old(self).wf(),
        ensures
            final(self).wf(),
            final(self)@ == old(self)@.insert(k, rec),
            final(self).total() == old(self).total() + owed(rec) - (if old(self)@.contains_key(k) {
                owed(old(self)@[k])
            } else {
                0
            }),
    {
        match self.find(k) {
            Some(i) => {
                proof {
                    lemma_records_of_update(self.entries@, i as int, rec);
                }
                self.entries.set(i, (k, rec));
            },
            None => {
                let ghost s = self.entries@;
                proof {
                    lemma_records_of_absent(s, k);
                }
                self.entries.push((k, rec));
                assert(self.entries@.drop_last() =~= s);
            },
        }
    }

    /// Removes the record kept under `k`; there must be one.
    pub fn delete(&mut self, k: u128)
        requires
            old(self).wf(),
            old(self)@.contains_key(k),
        ensures
            final(self).wf(),
            final(self)@ == old(self)@.remove(k),
            final(self).total() == old(self).total() - owed(old(self)@[k]),
    {
        match self.find(k) {
            Some(i) => {
                proof {
                    lemma_records_of_remove(self.entries@, i as int);
                }
                self.entries.remove(i);
            },
            None => {},
        }
    }
}

} // verus!
