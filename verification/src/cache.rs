//! The per-destination deadline cache.
//!
//! A mapping from *resource key* — the exact destination identifier of a
//! request, kept verbatim with no normalization — to the absolute deadline
//! most recently stored for it.  At most one deadline is held per key: a
//! newer write replaces the older one, and absence of a key means "no known
//! restriction".  Entries whose deadline has already passed are not actively
//! purged; they stay until the next response for the same key clears or
//! replaces them, a deliberate lazy-purge policy.

use vstd::prelude::*;

use crate::timestamp::Timestamp;

verus! {

/// Compares two byte strings for equality.
pub fn bytes_eq(a: &[u8], b: &[u8]) -> (r: bool)
    ensures
        r == (a@ == b@),
{
    if a.len() != b.len() {
        return false;
    }
    let mut i: usize = 0;
    while i < a.len()
        invariant
            a@.len() == b@.len(),
            0 <= i <= a@.len(),
            forall|j: int| 0 <= j < i ==> a@[j] == b@[j],
        decreases a@.len() - i,
    {
        if a[i] != b[i] {
            return false;
        }
        i = i + 1;
    }
    proof {
        assert(a@ =~= b@);
    }
    true
}

/// The mapping that an association list denotes; a later entry for a key
/// shadows an earlier one.
pub open spec fn map_of(entries: Seq<(Vec<u8>, Timestamp)>) -> Map<Seq<u8>, Timestamp>
    decreases entries.len(),
{
    if entries.len() == 0 {
        Map::empty()
    } else {
        map_of(entries.drop_last()).insert(entries.last().0@, entries.last().1)
    }
}

/// No two entries of the list share a key.
pub open spec fn keys_unique(entries: Seq<(Vec<u8>, Timestamp)>) -> bool {
    forall|i: int, j: int|
        0 <= i < j < entries.len() ==> (#[trigger] entries[i].0@) != (#[trigger] entries[j].0@)
}

/// Every deadline held in the list is well-formed.
pub open spec fn entries_wf(entries: Seq<(Vec<u8>, Timestamp)>) -> bool {
    forall|i: int| 0 <= i < entries.len() ==> (#[trigger] entries[i].1).wf()
}

/// A key that occurs in no entry is absent from the denoted mapping.
proof fn lemma_map_of_absent(entries: Seq<(Vec<u8>, Timestamp)>, k: Seq<u8>)
    requires
        forall|i: int| 0 <= i < entries.len() ==> (#[trigger] entries[i].0@) != k,
    ensures
        !map_of(entries).contains_key(k),
    decreases entries.len(),
{
    if entries.len() > 0 {
        let dl = entries.drop_last();
        assert forall|i: int| 0 <= i < dl.len() implies (#[trigger] dl[i].0@) != k by {
            assert(dl[i] == entries[i]);
        }
        lemma_map_of_absent(dl, k);
    }
}

/// The entry at position `i` is what the denoted mapping holds for its key,
/// provided no later entry shadows it.
proof fn lemma_map_of_present(entries: Seq<(Vec<u8>, Timestamp)>, i: int)
    requires
        0 <= i < entries.len(),
        keys_unique(entries),
    ensures
        map_of(entries).contains_key(entries[i].0@),
        map_of(entries)[entries[i].0@] == entries[i].1,
    decreases entries.len(),
{
    let dl = entries.drop_last();
    if i < entries.len() - 1 {
        assert forall|a: int, b: int| 0 <= a < b < dl.len() implies (#[trigger] dl[a].0@)
            != (#[trigger] dl[b].0@) by {
            assert(dl[a] == entries[a]);
            assert(dl[b] == entries[b]);
        }
        lemma_map_of_present(dl, i);
        assert(dl[i] == entries[i]);
        assert(entries[i].0@ != entries.last().0@);
    }
}

/// The denoted mapping has finitely many keys.
proof fn lemma_map_of_finite(entries: Seq<(Vec<u8>, Timestamp)>)
    ensures
        map_of(entries).dom().finite(),
    decreases entries.len(),
{
    broadcast use vstd::set::group_set_axioms, vstd::map::group_map_axioms;

    if entries.len() > 0 {
        lemma_map_of_finite(entries.drop_last());
    }
}

/// With unique keys, the denoted mapping has exactly one key per entry.
proof fn lemma_map_of_len(entries: Seq<(Vec<u8>, Timestamp)>)
    requires
        keys_unique(entries),
    ensures
        map_of(entries).dom().len() == entries.len(),
    decreases entries.len(),
{
    broadcast use vstd::set::group_set_axioms, vstd::map::group_map_axioms;

    if entries.len() > 0 {
        let dl = entries.drop_last();
        assert forall|a: int, b: int| 0 <= a < b < dl.len() implies (#[trigger] dl[a].0@)
            != (#[trigger] dl[b].0@) by {
            assert(dl[a] == entries[a]);
            assert(dl[b] == entries[b]);
        }
        lemma_map_of_len(dl);
        lemma_map_of_finite(dl);
        assert forall|i: int| 0 <= i < dl.len() implies (#[trigger] dl[i].0@)
            != entries.last().0@ by {
            assert(dl[i] == entries[i]);
        }
        lemma_map_of_absent(dl, entries.last().0@);
    }
}

/// Removing the entry at position `i` removes exactly its key from the
/// denoted mapping.
proof fn lemma_map_of_remove(entries: Seq<(Vec<u8>, Timestamp)>, i: int)
    requires
        0 <= i < entries.len(),
        keys_unique(entries),
    ensures
        map_of(entries.remove(i)) == map_of(entries).remove(entries[i].0@),
    decreases entries.len(),
{
    let k = entries[i].0@;
    let dl = entries.drop_last();
    if i == entries.len() - 1 {
        assert(entries.remove(i) =~= dl);
        assert forall|j: int| 0 <= j < dl.len() implies (#[trigger] dl[j].0@) != k by {
            assert(dl[j] == entries[j]);
        }
        lemma_map_of_absent(dl, k);
        assert(map_of(entries.remove(i)) =~= map_of(entries).remove(k));
    } else {
        assert forall|a: int, b: int| 0 <= a < b < dl.len() implies (#[trigger] dl[a].0@)
            != (#[trigger] dl[b].0@) by {
            assert(dl[a] == entries[a]);
            assert(dl[b] == entries[b]);
        }
        assert(dl[i] == entries[i]);
        lemma_map_of_remove(dl, i);
        let shorter = entries.remove(i);
        assert(shorter.drop_last() =~= dl.remove(i));
        assert(shorter.last() == entries.last());
        assert(k != entries.last().0@);
        assert(map_of(dl).remove(k).insert(entries.last().0@, entries.last().1) =~= map_of(
            dl,
        ).insert(entries.last().0@, entries.last().1).remove(k));
        assert(map_of(shorter) =~= map_of(entries).remove(k));
    }
}

/// Concurrency-safe storage of resource-key → deadline; this type is the
/// state itself, which a surrounding client wraps in its reader/writer
/// primitive of choice (many concurrent lookups, exclusive writes).
pub struct DeadlineCache {
    entries: Vec<(Vec<u8>, Timestamp)>,
}

impl View for DeadlineCache {
    type V = Map<Seq<u8>, Timestamp>;

    closed spec fn view(&self) -> Map<Seq<u8>, Timestamp> {
        map_of(self.entries@)
    }
}

impl DeadlineCache {
    /// Internal well-formedness: one entry per key, every stored deadline
    /// well-formed.
    pub closed spec fn inv(&self) -> bool {
        keys_unique(self.entries@) && entries_wf(self.entries@)
    }

    /// Creates an empty cache.
    pub fn new() -> (r: DeadlineCache)
        ensures
            r.inv(),
            r@ == Map::<Seq<u8>, Timestamp>::empty(),
    {
        DeadlineCache { entries: Vec::new() }
    }

    /// The position of the entry for `key`, if the cache holds one.
    fn position(&self, key: &[u8]) -> (r: Option<usize>)
        ensures
            match r {
                Some(i) => i < self.entries@.len() && self.entries@[i as int].0@ == key@,
                None => forall|i: int|
                    0 <= i < self.entries@.len() ==> (#[trigger] self.entries@[i].0@) != key@,
            },
    {
        let mut i: usize = 0;
        while i < self.entries.len()
            invariant
                0 <= i <= self.entries@.len(),
                forall|j: int| 0 <= j < i ==> (#[trigger] self.entries@[j].0@) != key@,
            decreases self.entries@.len() - i,
        {
            if bytes_eq(self.entries[i].0.as_slice(), key) {
                return Some(i);
            }
            i = i + 1;
        }
        None
    }

    /// Non-mutating read: the deadline stored for `key`, if any.
    pub fn lookup(&self, key: &[u8]) -> (r: Option<Timestamp>)
        requires
            self.inv(),
        ensures
            r == (if self@.contains_key(key@) {
                Some(self@[key@])
            } else {
                None::<Timestamp>
            }),
            r matches Some(d) ==> d.wf(),
    {
        match self.position(key) {
            Some(i) => {
                proof {
                    lemma_map_of_present(self.entries@, i as int);
                }
                Some(self.entries[i].1)
            }
            None => {
                proof {
                    lemma_map_of_absent(self.entries@, key@);
                }
                None
            }
        }
    }

    /// Inserts or overwrites the deadline for `key`.
    pub fn set(&mut self, key: Vec<u8>, deadline: Timestamp)
        requires
            old(self).inv(),
            deadline.wf(),
        ensures
            final(self).inv(),
            final(self)@ == old(self)@.insert(key@, deadline),
    {
        let ghost pre = self.entries@;
        match self.position(key.as_slice()) {
            Some(i) => {
                proof {
                    lemma_map_of_remove(pre, i as int);
                }
                self.entries.remove(i);
                let ghost mid = self.entries@;
                proof {
                    assert forall|a: int, b: int| 0 <= a < b < mid.len() implies (
                    #[trigger] mid[a].0@) != (#[trigger] mid[b].0@) by {
                        if b < i {
                            assert(mid[a] == pre[a]);
                            assert(mid[b] == pre[b]);
                        } else if a < i {
                            assert(mid[a] == pre[a]);
                            assert(mid[b] == pre[b + 1]);
                        } else {
                            assert(mid[a] == pre[a + 1]);
                            assert(mid[b] == pre[b + 1]);
                        }
                    }
                    assert forall|a: int| 0 <= a < mid.len() implies (#[trigger] mid[a].1).wf() by {
                        if a < i {
                            assert(mid[a] == pre[a]);
                        } else {
                            assert(mid[a] == pre[a + 1]);
                        }
                    }
                    assert forall|a: int| 0 <= a < mid.len() implies (#[trigger] mid[a].0@)
                        != key@ by {
                        if a < i {
                            assert(mid[a] == pre[a]);
                        } else {
                            assert(mid[a] == pre[a + 1]);
                        }
                    }
                }
                self.entries.push((key, deadline));
                proof {
                    assert(self.entries@.drop_last() =~= mid);
                    assert(map_of(pre).remove(key@).insert(key@, deadline) =~= map_of(
                        pre,
                    ).insert(key@, deadline));
                }
            }
            None => {
                self.entries.push((key, deadline));
                proof {
                    assert(self.entries@.drop_last() =~= pre);
                }
            }
        }
    }

    /// Removes the entry for `key` if present; a no-op when absent.
    pub fn clear(&mut self, key: &[u8])
        requires
            old(self).inv(),
        ensures
            final(self).inv(),
            final(self)@ == old(self)@.remove(key@),
    {
        let ghost pre = self.entries@;
        match self.position(key) {
            Some(i) => {
                proof {
                    lemma_map_of_remove(pre, i as int);
                }
                self.entries.remove(i);
                let ghost mid = self.entries@;
                proof {
                    assert forall|a: int, b: int| 0 <= a < b < mid.len() implies (
                    #[trigger] mid[a].0@) != (#[trigger] mid[b].0@) by {
                        if b < i {
                            assert(mid[a] == pre[a]);
                            assert(mid[b] == pre[b]);
                        } else if a < i {
                            assert(mid[a] == pre[a]);
                            assert(mid[b] == pre[b + 1]);
                        } else {
                            assert(mid[a] == pre[a + 1]);
                            assert(mid[b] == pre[b + 1]);
                        }
                    }
                    assert forall|a: int| 0 <= a < mid.len() implies (#[trigger] mid[a].1).wf() by {
                        if a < i {
                            assert(mid[a] == pre[a]);
                        } else {
                            assert(mid[a] == pre[a + 1]);
                        }
                    }
                }
            }
            None => {
                proof {
                    lemma_map_of_absent(pre, key@);
                    assert(map_of(pre).remove(key@) =~= map_of(pre));
                }
            }
        }
    }

    /// How many keys currently have a stored deadline.
    pub fn len(&self) -> (r: usize)
        requires
            self.inv(),
        ensures
            r == self@.dom().len(),
    {
        proof {
            lemma_map_of_len(self.entries@);
        }
        self.entries.len()
    }
}

} // verus!
