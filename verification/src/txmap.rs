//! The backing store of one proof kind's registry: a last-write-wins map
//! from transaction ids to proof descriptors.

use vstd::map::*;
use vstd::pervasive::VecAdditionalExecFns;
use vstd::prelude::*;

verus! {

/// The abstract map held by an entry list: a transaction id maps to the
/// descriptor stored beside its occurrence in the list.
pub open spec fn map_of<D>(s: Seq<(String, D)>) -> Map<Seq<char>, D> {
    Map::new(
        |k: Seq<char>| exists|i: int| 0 <= i < s.len() && s[i].0@ == k,
        |k: Seq<char>| s[choose|i: int| 0 <= i < s.len() && s[i].0@ == k].1,
    )
}

/// Transaction ids occur at most once in the entry list, so every lookup has
/// a single witness.
pub open spec fn distinct_keys<D>(s: Seq<(String, D)>) -> bool {
    forall|i: int, j: int| 0 <= i < j < s.len() ==> s[i].0@ != s[j].0@
}

/// An entry whose key sequence is `k` determines membership and value of `k`
/// in the abstract map.
proof fn lemma_map_of_at<D>(s: Seq<(String, D)>, i: int)
    requires
        distinct_keys(s),
        0 <= i < s.len(),
    ensures
        map_of(s).contains_key(s[i].0@),
        map_of(s)[s[i].0@] == s[i].1,
{
    assert(0 <= i < s.len() && s[i].0@ == s[i].0@);
    let j = choose|j: int| 0 <= j < s.len() && s[j].0@ == s[i].0@;
    if j != i {
        if j < i {
            assert(s[j].0@ != s[i].0@);
        } else {
            assert(s[i].0@ != s[j].0@);
        }
        assert(false);
    }
}

/// A key under which no entry is stored is outside the abstract map.
proof fn lemma_map_of_absent<D>(s: Seq<(String, D)>, k: Seq<char>)
    requires
        forall|i: int| 0 <= i < s.len() ==> s[i].0@ != k,
    ensures
        !map_of(s).contains_key(k),
{
}

/// Overwriting the entry that holds a key updates the abstract map at that
/// key alone.
proof fn lemma_map_of_update<D>(s: Seq<(String, D)>, i: int, p: (String, D))
    requires
        distinct_keys(s),
        0 <= i < s.len(),
        s[i].0@ == p.0@,
    ensures
        distinct_keys(s.update(i, p)),
        map_of(s.update(i, p)) == map_of(s).insert(p.0@, p.1),
{
    let s2 = s.update(i, p);
    assert forall|j: int| 0 <= j < s2.len() implies s2[j].0@ == s[j].0@ by {
        if j == i {
            assert(s2[j].0@ == p.0@);
        }
    }
    assert(distinct_keys(s2));
    assert_maps_equal!(map_of(s2), map_of(s).insert(p.0@, p.1), k => {
        if map_of(s2).contains_key(k) {
            let j = choose|j: int| 0 <= j < s2.len() && s2[j].0@ == k;
            assert(s[j].0@ == k);
            lemma_map_of_at(s, j);
            lemma_map_of_at(s2, j);
            if k == p.0@ {
                if j != i {
                    if j < i {
                        assert(s[j].0@ != s[i].0@);
                    } else {
                        assert(s[i].0@ != s[j].0@);
                    }
                    assert(false);
                }
            }
        }
        if map_of(s).insert(p.0@, p.1).contains_key(k) {
            if k == p.0@ {
                assert(s2[i].0@ == k);
                lemma_map_of_at(s2, i);
            } else {
                let j = choose|j: int| 0 <= j < s.len() && s[j].0@ == k;
                assert(s2[j].0@ == k);
                lemma_map_of_at(s2, j);
            }
        }
    });
}

/// Appending an entry under a fresh key extends the abstract map by that key
/// alone.
proof fn lemma_map_of_push<D>(s: Seq<(String, D)>, p: (String, D))
    requires
        distinct_keys(s),
        forall|i: int| 0 <= i < s.len() ==> s[i].0@ != p.0@,
    ensures
        distinct_keys(s.push(p)),
        map_of(s.push(p)) == map_of(s).insert(p.0@, p.1),
{
    let s2 = s.push(p);
    assert forall|i: int, j: int| 0 <= i < j < s2.len() implies s2[i].0@ != s2[j].0@ by {
        if j < s.len() {
            assert(s[i].0@ != s[j].0@);
        } else {
            assert(s2[j].0@ == p.0@);
            assert(s[i].0@ != p.0@);
        }
    }
    assert_maps_equal!(map_of(s2), map_of(s).insert(p.0@, p.1), k => {
        if map_of(s2).contains_key(k) {
            let j = choose|j: int| 0 <= j < s2.len() && s2[j].0@ == k;
            lemma_map_of_at(s2, j);
            if j < s.len() {
                assert(s[j].0@ == k);
                lemma_map_of_at(s, j);
            } else {
                assert(k == p.0@);
            }
        }
        if map_of(s).insert(p.0@, p.1).contains_key(k) {
            if k == p.0@ {
                assert(s2[s.len() as int].0@ == k);
                lemma_map_of_at(s2, s.len() as int);
            } else {
                let j = choose|j: int| 0 <= j < s.len() && s[j].0@ == k;
                assert(s2[j].0@ == k);
                lemma_map_of_at(s2, j);
            }
        }
    });
}

/// A mapping from transaction ids to the proof descriptors of one kind.
///
/// Entries live for the lifetime of the process: inserting under an existing
/// transaction id overwrites the prior descriptor (last write wins), and
/// nothing is ever removed. The abstraction is the finite map from the id's
/// character sequence to the descriptor.
pub struct TxMap<D> {
    entries: Vec<(String, D)>,
}

impl<D> View for TxMap<D> {
    type V = Map<Seq<char>, D>;

    closed spec fn view(&self) -> Map<Seq<char>, D> {
        map_of(self.entries@)
    }
}

impl<D> TxMap<D> {
    /// Entry keys are pairwise distinct.
    pub closed spec fn wf(&self) -> bool {
        distinct_keys(self.entries@)
    }

    /// An empty registry map.
    pub fn new() -> (r: Self)
        ensures
            r.wf(),
            r@ == Map::<Seq<char>, D>::empty(),
    {
        let entries: Vec<(String, D)> = Vec::new();
        proof {
            assert_maps_equal!(map_of(entries@), Map::<Seq<char>, D>::empty());
        }
        TxMap { entries }
    }

    /// Stores `descriptor` under `tx_id`, overwriting any prior descriptor
    /// held under the same id.
    pub fn put(&mut self, tx_id: String, descriptor: D)
        requires
            old(self).wf(),
        ensures
            final(self).wf(),
            final(self)@ == old(self)@.insert(tx_id@, descriptor),
    {
        let ghost s = self.entries@;
        let n = self.entries.len();
        let mut i: usize = 0;
        while i < n
            invariant
                *self == *old(self),
                s == self.entries@,
                distinct_keys(s),
                n == s.len(),
                i <= n,
                forall|j: int| 0 <= j < i ==> s[j].0@ != tx_id@,
            decreases n - i,
        {
            if self.entries[i].0 == tx_id {
                self.entries.set(i, (tx_id, descriptor));
                proof {
                    lemma_map_of_update(s, i as int, (self.entries@[i as int]));
                }
                return;
            }
            i += 1;
        }
        self.entries.push((tx_id, descriptor));
        proof {
            lemma_map_of_push(s, (self.entries@[s.len() as int]));
        }
    }

    /// Looks the descriptor stored under `tx_id` up, without removing it.
    pub fn get(&self, tx_id: &String) -> (r: Option<&D>)
        requires
            self.wf(),
        ensures
            match r {
                Some(d) => self@.contains_key(tx_id@) && *d == self@[tx_id@],
                None => !self@.contains_key(tx_id@),
            },
    {
        let n = self.entries.len();
        let mut i: usize = 0;
        while i < n
            invariant
                distinct_keys(self.entries@),
                n == self.entries@.len(),
                i <= n,
                forall|j: int| 0 <= j < i ==> self.entries@[j].0@ != tx_id@,
            decreases n - i,
        {
            if self.entries[i].0 == *tx_id {
                proof {
                    lemma_map_of_at(self.entries@, i as int);
                }
                return Some(&self.entries[i].1);
            }
            i += 1;
        }
        proof {
            lemma_map_of_absent(self.entries@, tx_id@);
        }
        None
    }

    /// Whether a descriptor is stored under `tx_id`.
    pub fn contains(&self, tx_id: &String) -> (r: bool)
        requires
            self.wf(),
        ensures
            r == self@.contains_key(tx_id@),
    {
        self.get(tx_id).is_some()
    }
}

/// Law of submission: after a submission, a lookup of the same transaction
/// id returns the just-submitted descriptor, and a second submission under
/// the same id overwrites the first — last write wins. Stated over the map
/// abstraction that the `put` and `get` contracts use, for the descriptors
/// of every kind.
pub proof fn lemma_submit_then_get<D>(m: Map<Seq<char>, D>, tx_id: Seq<char>, d1: D, d2: D)
    ensures
        m.insert(tx_id, d1).contains_key(tx_id),
        m.insert(tx_id, d1)[tx_id] == d1,
        m.insert(tx_id, d1).insert(tx_id, d2) == m.insert(tx_id, d2),
{
    assert(m.insert(tx_id, d1).insert(tx_id, d2) =~= m.insert(tx_id, d2));
}

} // verus!
