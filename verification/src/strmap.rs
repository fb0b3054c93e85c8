//! A map from strings to values, held as a list of entries with distinct keys.
use vstd::prelude::*;
use crate::text::{str_eq, owned};

verus! {

/// Entries keyed by strings, no key twice.
pub struct StrMap<V> {
    pub entries: Vec<(String, V)>,
}

/// The keys of `e`, in order.
pub open spec fn entry_keys<V>(e: Seq<(String, V)>) -> Seq<Seq<char>> {
    e.map_values(|p: (String, V)| p.0@)
}

/// Index of the entry whose key is `k`.
pub open spec fn key_pos<V>(e: Seq<(String, V)>, k: Seq<char>) -> int {
    choose|i: int| 0 <= i < e.len() && e[i].0@ == k
}

impl<V> StrMap<V> {
    /// The keys are pairwise distinct.
    pub open spec fn wf(&self) -> bool {
        forall|i: int, j: int| 0 <= i < self.entries@.len() && 0 <= j < self.entries@.len() && i != j ==>
            self.entries@[i].0@ != self.entries@[j].0@
    }

    /// The key `k` is present.
    pub open spec fn has(&self, k: Seq<char>) -> bool {
        exists|i: int| 0 <= i < self.entries@.len() && #[trigger] self.entries@[i].0@ == k
    }

    /// The map the entries stand for.
    pub open spec fn map(&self) -> Map<Seq<char>, V> {
        Map::new(|k: Seq<char>| self.has(k), |k: Seq<char>| self.entries@[key_pos(self.entries@, k)].1)
    }

    /// An empty map.
    pub fn new() -> (r: StrMap<V>)
        ensures
            r.wf(),
            r.map() == Map::<Seq<char>, V>::empty(),
    {
        let r = StrMap { entries: Vec::new() };
        assert(r.map() =~= Map::<Seq<char>, V>::empty());
        r
    }

    /// Position of the key `k`.
    pub fn position(&self, k: &str) -> (r: Option<usize>)
        requires
            self.wf(),
        ensures
            match r {
                Some(i) => i < self.entries@.len() && self.entries@[i as int].0@ == k@ && key_pos(self.entries@, k@) == i,
                None => !self.has(k@),
            },
    {
        let mut i: usize = 0;
        while i < self.entries.len()
            invariant
                i <= self.entries@.len(),
                self.wf(),
                forall|j: int| 0 <= j < i ==> self.entries@[j].0@ != k@,
            decreases self.entries@.len() - i,
        {
            if str_eq(self.entries[i].0.as_str(), k) {
                proof {
                    let p = key_pos(self.entries@, k@);
                    assert(self.entries@[i as int].0@ == k@);
                    assert(self.has(k@));
                    assert(self.entries@[p].0@ == k@);
                    assert(p == i);
                }
                return Some(i);
            }
            i = i + 1;
        }
        None
    }

    /// Whether the key `k` is present.
    pub fn contains_key(&self, k: &str) -> (r: bool)
        requires
            self.wf(),
        ensures
            r == self.map().dom().contains(k@),
    {
        self.position(k).is_some()
    }

    /// The value at `k`.
    pub fn get(&self, k: &str) -> (r: Option<&V>)
        requires
            self.wf(),
        ensures
            r is Some <==> self.map().dom().contains(k@),
            r is Some ==> *r->0 == self.map()[k@],
    {
        match self.position(k) {
            Some(i) => Some(&self.entries[i].1),
            None => None,
        }
    }

    /// Sets the value at `k`, replacing any earlier one.
    pub fn insert(&mut self, k: &str, v: V)
        requires
            old(self).wf(),
        ensures
            final(self).wf(),
            final(self).map() == old(self).map().insert(k@, v),
    {
        let ghost old_e = self.entries@;
        match self.position(k) {
            Some(i) => {
                self.entries.set(i, (owned(k), v));
                proof {
                    let e = self.entries@;
                    assert forall|j: int| 0 <= j < e.len() implies #[trigger] e[j].0@ == old_e[j].0@ by {
                        if j == i {
                            assert(e[j].0@ == k@);
                        }
                    }
                    assert forall|x: Seq<char>| self.has(x) <==> old(self).has(x) by {
                        if self.has(x) {
                            let j = choose|j: int| 0 <= j < e.len() && #[trigger] e[j].0@ == x;
                            assert(old_e[j].0@ == x);
                        }
                        if old(self).has(x) {
                            let j = choose|j: int| 0 <= j < old_e.len() && #[trigger] old_e[j].0@ == x;
                            assert(e[j].0@ == x);
                        }
                    }
                    assert forall|x: Seq<char>| self.has(x) && x != k@ implies key_pos(e, x) == key_pos(old_e, x) by {
                        let p = key_pos(old_e, x);
                        let q = key_pos(e, x);
                        assert(e[p].0@ == x);
                    }
                    assert(self.has(k@)) by {
                        assert(e[i as int].0@ == k@);
                    }
                    assert(key_pos(e, k@) == i);
                    assert(self.map() =~= old(self).map().insert(k@, v));
                }
            },
            None => {
                self.entries.push((owned(k), v));
                proof {
                    let e = self.entries@;
                    let n = old_e.len();
                    assert forall|j: int| 0 <= j < n implies #[trigger] old_e[j].0@ != k@ by {
                        if old_e[j].0@ == k@ {
                            assert(old(self).has(k@));
                        }
                    }
                    assert forall|a: int, b: int| 0 <= a < e.len() && 0 <= b < e.len() && a != b implies e[a].0@ != e[b].0@ by {
                        if a < n && b < n {
                            assert(e[a] == old_e[a] && e[b] == old_e[b]);
                            assert(old_e[a].0@ != old_e[b].0@);
                        } else if a < n {
                            assert(e[a] == old_e[a]);
                            assert(old_e[a].0@ != k@);
                        } else {
                            assert(e[b] == old_e[b]);
                            assert(old_e[b].0@ != k@);
                        }
                    }
                    assert(e[n as int].0@ == k@);
                    assert forall|x: Seq<char>| self.has(x) <==> (old(self).has(x) || x == k@) by {
                        if self.has(x) {
                            let j = choose|j: int| 0 <= j < e.len() && #[trigger] e[j].0@ == x;
                            if j < n {
                                assert(old_e[j].0@ == x);
                            }
                        }
                        if old(self).has(x) {
                            let j = choose|j: int| 0 <= j < old_e.len() && #[trigger] old_e[j].0@ == x;
                            assert(e[j].0@ == x);
                        }
                    }
                    assert forall|x: Seq<char>| old(self).has(x) implies key_pos(e, x) == key_pos(old_e, x) by {
                        let p = key_pos(old_e, x);
                        assert(e[p].0@ == x);
                    }
                    assert(key_pos(e, k@) == n);
                    assert(self.map() =~= old(self).map().insert(k@, v));
                }
            },
        }
    }

    /// Removes the entry at `k` and returns its value.
    pub fn remove(&mut self, k: &str) -> (r: Option<V>)
        requires
            old(self).wf(),
        ensures
            final(self).wf(),
            final(self).map() == old(self).map().remove(k@),
            r is Some <==> old(self).map().dom().contains(k@),
            r is Some ==> r->0 == old(self).map()[k@],
    {
        let ghost old_e = self.entries@;
        match self.position(k) {
            Some(i) => {
                let (_, v) = self.entries.remove(i);
                proof {
                    let e = self.entries@;
                    assert(e =~= old_e.remove(i as int));
                    assert forall|x: Seq<char>| self.has(x) <==> (old(self).has(x) && x != k@) by {
                        if self.has(x) {
                            let j = choose|j: int| 0 <= j < e.len() && #[trigger] e[j].0@ == x;
                            if j < i {
                                assert(old_e[j].0@ == x);
                            } else {
                                assert(old_e[j + 1].0@ == x);
                            }
                        }
                        if old(self).has(x) && x != k@ {
                            let j = choose|j: int| 0 <= j < old_e.len() && #[trigger] old_e[j].0@ == x;
                            if j < i {
                                assert(e[j].0@ == x);
                            } else {
                                assert(j != i);
                                assert(e[j - 1].0@ == x);
                            }
                        }
                    }
                    assert forall|x: Seq<char>| self.has(x) implies e[key_pos(e, x)].1 == old_e[key_pos(old_e, x)].1 by {
                        let p = key_pos(old_e, x);
                        let q = key_pos(e, x);
                        if q < i {
                            assert(old_e[q].0@ == x);
                        } else {
                            assert(old_e[q + 1].0@ == x);
                        }
                    }
                    assert(self.map() =~= old(self).map().remove(k@));
                }
                Some(v)
            },
            None => {
                proof {
                    assert(self.map() =~= old(self).map().remove(k@));
                }
                None
            },
        }
    }

    /// The keys, in entry order.
    pub fn keys(&self) -> (r: Vec<String>)
        ensures
            r@.map_values(|s: String| s@) == entry_keys(self.entries@),
    {
        let mut r: Vec<String> = Vec::new();
        let mut i: usize = 0;
        while i < self.entries.len()
            invariant
                i <= self.entries@.len(),
                r@.map_values(|s: String| s@) == entry_keys(self.entries@).subrange(0, i as int),
            decreases self.entries@.len() - i,
        {
            let ghost r0 = r@;
            r.push(owned(self.entries[i].0.as_str()));
            proof {
                assert(r@.map_values(|s: String| s@) =~= r0.map_values(|s: String| s@).push(self.entries@[i as int].0@));
                assert(r@.map_values(|s: String| s@) =~= entry_keys(self.entries@).subrange(0, i + 1));
            }
            i = i + 1;
        }
        assert(entry_keys(self.entries@).subrange(0, self.entries@.len() as int) =~= entry_keys(self.entries@));
        r
    }
}

/// The keys of a map list exactly its domain.
pub proof fn lemma_entry_keys_dom<V>(m: StrMap<V>)
    ensures
        entry_keys(m.entries@).to_set() == m.map().dom(),
{
    assert forall|x: Seq<char>| entry_keys(m.entries@).to_set().contains(x) <==> m.map().dom().contains(x) by {
        if entry_keys(m.entries@).to_set().contains(x) {
            let j = choose|j: int| 0 <= j < entry_keys(m.entries@).len() && entry_keys(m.entries@)[j] == x;
            assert(m.entries@[j].0@ == x);
        }
        if m.has(x) {
            let j = choose|j: int| 0 <= j < m.entries@.len() && #[trigger] m.entries@[j].0@ == x;
            assert(entry_keys(m.entries@)[j] == x);
        }
    }
    assert(entry_keys(m.entries@).to_set() =~= m.map().dom());
}

/// Entry `i` is the map's value at its key.
pub proof fn lemma_entry_in_map<V>(m: StrMap<V>, i: int)
    requires
        m.wf(),
        0 <= i < m.entries@.len(),
    ensures
        m.map().dom().contains(m.entries@[i].0@),
        m.map()[m.entries@[i].0@] == m.entries@[i].1,
{
    let k = m.entries@[i].0@;
    assert(m.has(k));
    let p = key_pos(m.entries@, k);
    assert(m.entries@[p].0@ == k);
}

} // verus!
