//! The backing store of the registry: an exact key-value map from
//! certificate identity to claim record.
//!
//! The store is kept as a vector of entries whose keys are pairwise
//! distinct, and is specified throughout as the `Map` that the entries
//! denote.

use vstd::prelude::*;

use crate::cert::Cert;
use crate::cert::CertKey;
use crate::registry::ClaimRecord;

verus! {

/// The map denoted by a sequence of entries: each pair inserted in
/// order, later entries winning.
spec fn entries_map(s: Seq<(Cert, ClaimRecord)>) -> Map<CertKey, ClaimRecord>
    decreases s.len(),
{
    if s.len() == 0 {
        Map::empty()
    } else {
        entries_map(s.drop_last()).insert(s.last().0@, s.last().1)
    }
}

/// No two entries carry the same certificate key.
spec fn distinct_keys(s: Seq<(Cert, ClaimRecord)>) -> bool {
    forall|i: int, j: int| 0 <= i < j < s.len() ==> s[i].0@ != s[j].0@
}

proof fn lemma_distinct_drop_last(s: Seq<(Cert, ClaimRecord)>)
    requires
        distinct_keys(s),
        s.len() > 0,
    ensures
        distinct_keys(s.drop_last()),
{
    assert forall|i: int, j: int|
        0 <= i < j < s.drop_last().len() implies s.drop_last()[i].0@ != s.drop_last()[j].0@ by {
        assert(s.drop_last()[i] == s[i]);
        assert(s.drop_last()[j] == s[j]);
    }
}

/// A key is in the denoted map iff some entry carries it.
proof fn lemma_entries_map_contains(s: Seq<(Cert, ClaimRecord)>, k: CertKey)
    ensures
        entries_map(s).dom().contains(k) <==> (exists|i: int|
            0 <= i < s.len() && (#[trigger] s[i]).0@ == k),
    decreases s.len(),
{
    if s.len() > 0 {
        let t = s.drop_last();
        lemma_entries_map_contains(t, k);
        if s.last().0@ == k {
            assert(s[s.len() - 1].0@ == k);
        } else {
            if entries_map(t).dom().contains(k) {
                let i = choose|i: int| 0 <= i < t.len() && (#[trigger] t[i]).0@ == k;
                assert(s[i] == t[i]);
            }
            if exists|i: int| 0 <= i < s.len() && (#[trigger] s[i]).0@ == k {
                let i = choose|i: int| 0 <= i < s.len() && (#[trigger] s[i]).0@ == k;
                assert(i != s.len() - 1);
                assert(t[i] == s[i]);
            }
        }
    }
}

/// With distinct keys, the entry at any index gives the denoted map's
/// value at its key.
proof fn lemma_entries_map_index(s: Seq<(Cert, ClaimRecord)>, i: int)
    requires
        distinct_keys(s),
        0 <= i < s.len(),
    ensures
        entries_map(s).dom().contains(s[i].0@),
        entries_map(s)[s[i].0@] == s[i].1,
    decreases s.len(),
{
    let t = s.drop_last();
    if i < s.len() - 1 {
        lemma_distinct_drop_last(s);
        lemma_entries_map_index(t, i);
        assert(t[i] == s[i]);
        assert(s[i].0@ != s.last().0@);
    }
}

/// Appending an entry denotes inserting its pair into the map.
proof fn lemma_entries_map_push(s: Seq<(Cert, ClaimRecord)>, p: (Cert, ClaimRecord))
    ensures
        entries_map(s.push(p)) == entries_map(s).insert(p.0@, p.1),
{
    assert(s.push(p).drop_last() == s);
    assert(s.push(p).last() == p);
}

/// Removing the entry at an index denotes removing its key from the map,
/// and keeps the remaining keys distinct.
proof fn lemma_entries_map_remove(s: Seq<(Cert, ClaimRecord)>, i: int)
    requires
        distinct_keys(s),
        0 <= i < s.len(),
    ensures
        entries_map(s.remove(i)) == entries_map(s).remove(s[i].0@),
        distinct_keys(s.remove(i)),
    decreases s.len(),
{
    let k = s[i].0@;
    let t = s.drop_last();
    lemma_distinct_drop_last(s);
    assert forall|a: int, b: int|
        0 <= a < b < s.remove(i).len() implies s.remove(i)[a].0@ != s.remove(i)[b].0@ by {
        let oa: int = if a < i { a } else { a + 1 };
        let ob: int = if b < i { b } else { b + 1 };
        assert(s.remove(i)[a] == s[oa]);
        assert(s.remove(i)[b] == s[ob]);
    }
    if i == s.len() - 1 {
        assert(s.remove(i) == t);
        lemma_entries_map_contains(t, k);
        assert(!entries_map(t).dom().contains(k));
        assert(entries_map(t).insert(k, s[i].1).remove(k) =~= entries_map(t));
        assert(entries_map(t).remove(k) =~= entries_map(t));
    } else {
        lemma_entries_map_remove(t, i);
        assert(s.remove(i).len() == s.len() - 1);
        assert(s.remove(i).last() == s.last());
        assert(s.remove(i).drop_last() =~= t.remove(i));
        assert(entries_map(s.remove(i)) == entries_map(t.remove(i)).insert(
            s.last().0@,
            s.last().1,
        ));
        assert(s.last().0@ != k);
        assert(entries_map(t).insert(s.last().0@, s.last().1).remove(k) =~= entries_map(t).remove(
            k,
        ).insert(s.last().0@, s.last().1));
    }
}

/// Appending an entry with a fresh key keeps the keys distinct.
proof fn lemma_distinct_push(s: Seq<(Cert, ClaimRecord)>, p: (Cert, ClaimRecord))
    requires
        distinct_keys(s),
        !entries_map(s).dom().contains(p.0@),
    ensures
        distinct_keys(s.push(p)),
{
    lemma_entries_map_contains(s, p.0@);
    assert forall|a: int, b: int|
        0 <= a < b < s.push(p).len() implies s.push(p)[a].0@ != s.push(p)[b].0@ by {
        assert(s.push(p)[a] == s[a]);
        if b < s.len() {
            assert(s.push(p)[b] == s[b]);
        } else {
            assert(s.push(p)[b] == p);
        }
    }
}

/// The registry's backing store. Publicly it behaves as the map
/// `self@ : CertKey -> ClaimRecord`.
pub struct ProofStore {
    entries: Vec<(Cert, ClaimRecord)>,
}

impl View for ProofStore {
    type V = Map<CertKey, ClaimRecord>;

    closed spec fn view(&self) -> Map<CertKey, ClaimRecord> {
        entries_map(self.entries@)
    }
}

impl ProofStore {
    /// Well-formedness: the entry keys are pairwise distinct, so every
    /// key is held at most once.
    pub closed spec fn wf(&self) -> bool {
        distinct_keys(self.entries@)
    }

    /// An empty store.
    pub fn new() -> (s: ProofStore)
        ensures
            s.wf(),
            s@ == Map::<CertKey, ClaimRecord>::empty(),
    {
        ProofStore { entries: Vec::new() }
    }

    /// The index of the entry holding the given key, if any.
    fn find_index(&self, cert: &Cert) -> (r: Option<usize>)
        requires
            self.wf(),
        ensures
            match r {
                Some(i) => {
                    &&& i < self.entries@.len()
                    &&& self.entries@[i as int].0@ == cert@
                    &&& self@.dom().contains(cert@)
                    &&& self@[cert@] == self.entries@[i as int].1
                },
                None => !self@.dom().contains(cert@),
            },
    {
        let mut i: usize = 0;
        while i < self.entries.len()
            invariant
                self.wf(),
                i <= self.entries@.len(),
                forall|j: int| 0 <= j < i ==> (#[trigger] self.entries@[j]).0@ != cert@,
            decreases self.entries@.len() - i,
        {
            if self.entries[i].0.key_eq(cert) {
                proof {
                    lemma_entries_map_index(self.entries@, i as int);
                }
                return Some(i);
            }
            i += 1;
        }
        proof {
            lemma_entries_map_contains(self.entries@, cert@);
        }
        None
    }

    /// Whether the key is present.
    pub fn contains_key(&self, cert: &Cert) -> (b: bool)
        requires
            self.wf(),
        ensures
            b == self@.dom().contains(cert@),
    {
        self.find_index(cert).is_some()
    }

    /// The record held for the key, or nothing.
    pub fn get(&self, cert: &Cert) -> (r: Option<ClaimRecord>)
        requires
            self.wf(),
        ensures
            self@.dom().contains(cert@) ==> r == Some(self@[cert@]),
            !self@.dom().contains(cert@) ==> r is None,
    {
        match self.find_index(cert) {
            Some(i) => Some(self.entries[i].1),
            None => None,
        }
    }

    /// Binds the key to the record, overwriting any record it held
    /// before.
    pub fn insert(&mut self, cert: Cert, record: ClaimRecord)
        requires
            old(self).wf(),
        ensures
            final(self).wf(),
            final(self)@ == old(self)@.insert(cert@, record),
    {
        let ghost k = cert@;
        match self.find_index(&cert) {
            Some(i) => {
                proof {
                    lemma_entries_map_remove(self.entries@, i as int);
                }
                self.entries.remove(i);
                proof {
                    lemma_entries_map_push(self.entries@, (cert, record));
                    lemma_distinct_push(self.entries@, (cert, record));
                }
                self.entries.push((cert, record));
                proof {
                    assert(old(self)@.remove(k).insert(k, record) =~= old(self)@.insert(
                        k,
                        record,
                    ));
                }
            },
            None => {
                proof {
                    lemma_entries_map_push(self.entries@, (cert, record));
                    lemma_distinct_push(self.entries@, (cert, record));
                }
                self.entries.push((cert, record));
            },
        }
    }

    /// Unbinds the key; absent keys are left as they are.
    pub fn remove(&mut self, cert: &Cert)
        requires
            old(self).wf(),
        ensures
            final(self).wf(),
            final(self)@ == old(self)@.remove(cert@),
    {
        match self.find_index(cert) {
            Some(i) => {
                proof {
                    lemma_entries_map_remove(self.entries@, i as int);
                }
                self.entries.remove(i);
            },
            None => {
                proof {
                    assert(old(self)@.remove(cert@) =~= old(self)@);
                }
            },
        }
    }
}

} // verus!
