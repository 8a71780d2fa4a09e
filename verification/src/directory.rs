//! The participant directory: a shared mapping from connection identity to
//! display name. Identities are opaque integers chosen by the acceptor,
//! unique per live connection; names need not be unique across sessions.
//!
//! The directory is held as a vector of entries with pairwise distinct
//! identities; its abstract value is the finite map [`map_of`] builds.

use vstd::prelude::*;

verus! {

broadcast use vstd::set::group_set_axioms, vstd::map::group_map_axioms;

/// Pairwise distinct identities.
pub open spec fn keys_unique(s: Seq<(u64, String)>) -> bool {
    forall|i: int, j: int| 0 <= i < j < s.len() ==> s[i].0 != s[j].0
}

/// The finite map that a sequence of entries denotes; a later entry for the
/// same identity overrides an earlier one.
pub open spec fn map_of(s: Seq<(u64, String)>) -> Map<u64, String>
    decreases s.len(),
{
    if s.len() == 0 {
        Map::empty()
    } else {
        map_of(s.drop_last()).insert(s.last().0, s.last().1)
    }
}

pub proof fn lemma_map_of_finite(s: Seq<(u64, String)>)
    ensures
        map_of(s).dom().finite(),
    decreases s.len(),
{
    if s.len() > 0 {
        lemma_map_of_finite(s.drop_last());
    }
}

pub proof fn lemma_map_of_absent(s: Seq<(u64, String)>, k: u64)
    requires
        forall|i: int| 0 <= i < s.len() ==> s[i].0 != k,
    ensures
        !map_of(s).dom().contains(k),
    decreases s.len(),
{
    if s.len() > 0 {
        assert(forall|i: int| 0 <= i < s.drop_last().len() ==> s.drop_last()[i].0 != k);
        lemma_map_of_absent(s.drop_last(), k);
        assert(s.last().0 == s[s.len() - 1].0);
    }
}

pub proof fn lemma_map_of_present(s: Seq<(u64, String)>, i: int)
    requires
        keys_unique(s),
        0 <= i < s.len(),
    ensures
        map_of(s).dom().contains(s[i].0),
        map_of(s)[s[i].0] == s[i].1,
    decreases s.len(),
{
    if i == s.len() - 1 {
    } else {
        assert(keys_unique(s.drop_last())) by {
            assert(forall|p: int, q: int|
                0 <= p < q < s.drop_last().len() ==> s.drop_last()[p].0 != s.drop_last()[q].0);
        }
        assert(s.drop_last()[i] == s[i]);
        lemma_map_of_present(s.drop_last(), i);
        assert(s.last().0 != s[i].0);
    }
}

pub proof fn lemma_map_of_push(s: Seq<(u64, String)>, k: u64, v: String)
    ensures
        map_of(s.push((k, v))) == map_of(s).insert(k, v),
{
    assert(s.push((k, v)).drop_last() =~= s);
    assert(s.push((k, v)).last() == (k, v));
}

pub proof fn lemma_map_of_remove(s: Seq<(u64, String)>, i: int)
    requires
        keys_unique(s),
        0 <= i < s.len(),
    ensures
        keys_unique(s.remove(i)),
        map_of(s.remove(i)) == map_of(s).remove(s[i].0),
    decreases s.len(),
{
    let k = s[i].0;
    assert(keys_unique(s.remove(i))) by {
        assert(forall|p: int, q: int|
            0 <= p < q < s.remove(i).len() ==> s.remove(i)[p].0 != s.remove(i)[q].0) by {
            assert(forall|p: int|
                0 <= p < s.remove(i).len() ==> s.remove(i)[p] == (if p < i {
                    s[p]
                } else {
                    s[p + 1]
                }));
        }
    }
    if i == s.len() - 1 {
        assert(s.remove(i) =~= s.drop_last());
        assert(forall|j: int| 0 <= j < s.drop_last().len() ==> s.drop_last()[j].0 != k);
        lemma_map_of_absent(s.drop_last(), k);
        assert(map_of(s.drop_last()).insert(k, s.last().1).remove(k) =~= map_of(s.drop_last()));
    } else {
        assert(keys_unique(s.drop_last())) by {
            assert(forall|p: int, q: int|
                0 <= p < q < s.drop_last().len() ==> s.drop_last()[p].0 != s.drop_last()[q].0);
        }
        assert(s.drop_last()[i] == s[i]);
        lemma_map_of_remove(s.drop_last(), i);
        assert(s.remove(i).drop_last() =~= s.drop_last().remove(i));
        assert(s.remove(i).last() == s.last());
        assert(s.last().0 != k);
        assert(map_of(s.drop_last()).remove(k).insert(s.last().0, s.last().1) =~= map_of(
            s.drop_last(),
        ).insert(s.last().0, s.last().1).remove(k));
    }
}

/// The size of the denoted map equals the number of entries when the
/// identities are pairwise distinct.
pub proof fn lemma_map_of_len(s: Seq<(u64, String)>)
    requires
        keys_unique(s),
    ensures
        map_of(s).dom().finite(),
        map_of(s).dom().len() == s.len(),
    decreases s.len(),
{
    lemma_map_of_finite(s);
    if s.len() > 0 {
        assert(keys_unique(s.drop_last())) by {
            assert(forall|p: int, q: int|
                0 <= p < q < s.drop_last().len() ==> s.drop_last()[p].0 != s.drop_last()[q].0);
        }
        lemma_map_of_len(s.drop_last());
        assert(forall|j: int| 0 <= j < s.drop_last().len() ==> s.drop_last()[j].0 != s.last().0);
        lemma_map_of_absent(s.drop_last(), s.last().0);
    }
}

/// The shared registry of live participants.
pub struct Directory {
    pub entries: Vec<(u64, String)>,
}

impl View for Directory {
    type V = Map<u64, String>;

    open spec fn view(&self) -> Map<u64, String> {
        map_of(self.entries@)
    }
}

impl Directory {
    /// Pairwise distinct identities; every constructor establishes this and
    /// every method preserves it.
    pub open spec fn wf(self) -> bool {
        keys_unique(self.entries@)
    }

    /// An empty directory.
    pub fn new() -> (r: Directory)
        ensures
            r.wf(),
            r@ == Map::<u64, String>::empty(),
            r@.dom().len() == 0,
    {
        Directory { entries: Vec::new() }
    }

    /// The position of the entry for `id`, if one exists.
    fn find(&self, id: u64) -> (r: Option<usize>)
        requires
            self.wf(),
        ensures
            match r {
                Some(i) => i < self.entries@.len() && self.entries@[i as int].0 == id
                    && self@.dom().contains(id) && self@[id] == self.entries@[i as int].1,
                None => !self@.dom().contains(id),
            },
    {
        let n = self.entries.len();
        let mut i: usize = 0;
        while i < n
            invariant
                0 <= i <= n,
                n == self.entries@.len(),
                self.wf(),
                forall|k: int| 0 <= k < i ==> self.entries@[k].0 != id,
            decreases n - i,
        {
            if self.entries[i].0 == id {
                proof {
                    lemma_map_of_present(self.entries@, i as int);
                }
                return Some(i);
            }
            i = i + 1;
        }
        proof {
            lemma_map_of_absent(self.entries@, id);
        }
        None
    }

    /// Inserts the entry for `identity` under exclusive access; an entry
    /// already present for `identity` is overwritten.
    pub fn register(&mut self, identity: u64, name: String)
        requires
            old(self).wf(),
        ensures
            final(self).wf(),
            final(self)@ == old(self)@.insert(identity, name),
    {
        match self.find(identity) {
            Some(i) => {
                proof {
                    lemma_map_of_remove(self.entries@, i as int);
                }
                let _ = self.entries.remove(i);
            }
            None => {},
        }
        proof {
            assert(!map_of(self.entries@).dom().contains(identity));
            assert forall|j: int| 0 <= j < self.entries@.len() implies self.entries@[j].0
                != identity by {
                if self.entries@[j].0 == identity {
                    lemma_map_of_present(self.entries@, j);
                }
            }
            lemma_map_of_absent_key_unique(self.entries@, identity, name);
            lemma_map_of_push(self.entries@, identity, name);
        }
        self.entries.push((identity, name));
        proof {
            assert(self@ =~= old(self)@.insert(identity, name));
        }
    }

    /// Removes the entry for `identity` if present and returns the removed
    /// name; a no-op when absent.
    pub fn unregister(&mut self, identity: u64) -> (r: Option<String>)
        requires
            old(self).wf(),
        ensures
            final(self).wf(),
            old(self)@.dom().contains(identity) ==> r == Some(old(self)@[identity])
                && final(self)@ == old(self)@.remove(identity),
            !old(self)@.dom().contains(identity) ==> r is None && *final(self) == *old(self),
    {
        match self.find(identity) {
            Some(i) => {
                proof {
                    lemma_map_of_remove(self.entries@, i as int);
                }
                let (_, name) = self.entries.remove(i);
                Some(name)
            }
            None => None,
        }
    }

    /// A snapshot of the live participant count.
    pub fn count(&self) -> (r: usize)
        requires
            self.wf(),
        ensures
            r == self@.dom().len(),
    {
        proof {
            lemma_map_of_len(self.entries@);
        }
        self.entries.len()
    }

    /// A read-only snapshot of the name registered for `identity`.
    pub fn lookup(&self, identity: u64) -> (r: Option<String>)
        requires
            self.wf(),
        ensures
            self@.dom().contains(identity) ==> r == Some(self@[identity]),
            !self@.dom().contains(identity) ==> r is None,
    {
        match self.find(identity) {
            Some(i) => Some(self.entries[i].1.clone()),
            None => None,
        }
    }
}

/// A sequence whose entries miss a key stays duplicate-free when that key is
/// appended.
proof fn lemma_map_of_absent_key_unique(s: Seq<(u64, String)>, k: u64, v: String)
    requires
        keys_unique(s),
        forall|i: int| 0 <= i < s.len() ==> s[i].0 != k,
    ensures
        keys_unique(s.push((k, v))),
{
    assert(forall|p: int|
        0 <= p < s.push((k, v)).len() ==> s.push((k, v))[p] == (if p < s.len() {
            s[p]
        } else {
            (k, v)
        }));
}

} // verus!
