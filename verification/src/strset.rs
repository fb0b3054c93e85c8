//! An ordered set of strings, kept as a strictly increasing vector.
//!
//! Strings are ordered lexicographically by character, which is the order of
//! `String`'s `Ord` (UTF-8 preserves the order of code points).
use vstd::prelude::*;

verus! {

/// Strict lexicographic order on character sequences.
pub open spec fn lex_lt(a: Seq<char>, b: Seq<char>) -> bool
    decreases a.len(),
{
    if b.len() == 0 {
        false
    } else if a.len() == 0 {
        true
    } else if a[0] != b[0] {
        a[0] < b[0]
    } else {
        lex_lt(a.drop_first(), b.drop_first())
    }
}

pub proof fn lemma_lex_irrefl(a: Seq<char>)
    ensures
        !lex_lt(a, a),
    decreases a.len(),
{
    if a.len() > 0 {
        lemma_lex_irrefl(a.drop_first());
    }
}

pub proof fn lemma_lex_trans(a: Seq<char>, b: Seq<char>, c: Seq<char>)
    requires
        lex_lt(a, b),
        lex_lt(b, c),
    ensures
        lex_lt(a, c),
    decreases a.len(),
{
    if a.len() > 0 && b.len() > 0 && c.len() > 0 {
        if a[0] == b[0] && b[0] == c[0] {
            lemma_lex_trans(a.drop_first(), b.drop_first(), c.drop_first());
        }
    }
}

pub proof fn lemma_lex_total(a: Seq<char>, b: Seq<char>)
    ensures
        lex_lt(a, b) || lex_lt(b, a) || a == b,
    decreases a.len(),
{
    if a.len() > 0 && b.len() > 0 && a[0] == b[0] {
        lemma_lex_total(a.drop_first(), b.drop_first());
        if a.drop_first() == b.drop_first() {
            assert(a =~= seq![a[0]] + a.drop_first());
            assert(b =~= seq![b[0]] + b.drop_first());
        }
    } else if a.len() == 0 && b.len() == 0 {
        assert(a =~= b);
    }
}

pub proof fn lemma_lex_asym(a: Seq<char>, b: Seq<char>)
    ensures
        !(lex_lt(a, b) && lex_lt(b, a)),
{
    if lex_lt(a, b) && lex_lt(b, a) {
        lemma_lex_trans(a, b, a);
        lemma_lex_irrefl(a);
    }
}

/// `a < b` in the order of `Ord for String`.
pub fn lex_lt_exec(a: &str, b: &str) -> (r: bool)
    ensures
        r == lex_lt(a@, b@),
{
    let va = crate::text::chars_of(a);
    let vb = crate::text::chars_of(b);
    let mut i: usize = 0;
    assert(va@.subrange(0, va@.len() as int) =~= va@);
    assert(vb@.subrange(0, vb@.len() as int) =~= vb@);
    while i < va.len() && i < vb.len() && va[i] == vb[i]
        invariant
            i <= va@.len(),
            i <= vb@.len(),
            lex_lt(va@, vb@) == lex_lt(va@.subrange(i as int, va@.len() as int), vb@.subrange(i as int, vb@.len() as int)),
        decreases va@.len() - i,
    {
        proof {
            let sa = va@.subrange(i as int, va@.len() as int);
            let sb = vb@.subrange(i as int, vb@.len() as int);
            assert(sa.drop_first() =~= va@.subrange(i + 1, va@.len() as int));
            assert(sb.drop_first() =~= vb@.subrange(i + 1, vb@.len() as int));
        }
        i = i + 1;
    }
    proof {
        assert(va@.subrange(0, va@.len() as int) =~= va@);
        assert(vb@.subrange(0, vb@.len() as int) =~= vb@);
    }
    if i == vb.len() {
        false
    } else if i == va.len() {
        true
    } else {
        va[i] < vb[i]
    }
}

/// A strictly increasing sequence holds no element twice.
pub proof fn lemma_sorted_no_duplicates(s: Seq<Seq<char>>)
    requires
        strictly_sorted(s),
    ensures
        s.no_duplicates(),
{
    assert forall|i: int, j: int| 0 <= i < s.len() && 0 <= j < s.len() && i != j implies s[i] != s[j] by {
        if i < j {
            assert(lex_lt(s[i], s[j]));
            lemma_lex_irrefl(s[i]);
        } else {
            assert(lex_lt(s[j], s[i]));
            lemma_lex_irrefl(s[j]);
        }
    }
}

/// A set of strings with a sorted, duplicate-free listing.
pub struct StrSet {
    pub items: Vec<String>,
}

/// The views of `v`, in order.
pub open spec fn item_views(v: Seq<String>) -> Seq<Seq<char>> {
    v.map_values(|s: String| s@)
}

/// `s` is strictly increasing.
pub open spec fn strictly_sorted(s: Seq<Seq<char>>) -> bool {
    forall|i: int, j: int| 0 <= i < j < s.len() ==> lex_lt(s[i], s[j])
}

impl StrSet {
    /// The listing of the set, in increasing order.
    pub open spec fn listing(&self) -> Seq<Seq<char>> {
        item_views(self.items@)
    }

    /// The set of strings held.
    pub open spec fn view(&self) -> Set<Seq<char>> {
        self.listing().to_set()
    }

    /// The listing is strictly increasing.
    pub open spec fn wf(&self) -> bool {
        strictly_sorted(self.listing())
    }

    /// An empty set.
    pub fn new() -> (r: StrSet)
        ensures
            r.wf(),
            r.listing().len() == 0,
            r.view() == Set::<Seq<char>>::empty(),
    {
        let r = StrSet { items: Vec::new() };
        assert(r.listing() =~= Seq::<Seq<char>>::empty());
        r
    }

    /// Whether `s` is in the set.
    pub fn contains(&self, s: &str) -> (r: bool)
        requires
            self.wf(),
        ensures
            r == self.view().contains(s@),
    {
        let mut i: usize = 0;
        while i < self.items.len()
            invariant
                i <= self.items@.len(),
                forall|j: int| 0 <= j < i ==> self.items@[j]@ != s@,
            decreases self.items@.len() - i,
        {
            if crate::text::str_eq(self.items[i].as_str(), s) {
                assert(self.listing()[i as int] == s@);
                return true;
            }
            i = i + 1;
        }
        proof {
            if self.view().contains(s@) {
                let k = choose|k: int| 0 <= k < self.listing().len() && self.listing()[k] == s@;
                assert(self.items@[k]@ == s@);
            }
        }
        false
    }

    /// Number of elements.
    pub fn len(&self) -> (r: usize)
        ensures
            r == self.listing().len(),
    {
        self.items.len()
    }

    /// Whether the set is empty.
    pub fn is_empty(&self) -> (r: bool)
        ensures
            r == (self.listing().len() == 0),
            r == (self.view() == Set::<Seq<char>>::empty()),
    {
        proof {
            if self.listing().len() > 0 {
                assert(self.view().contains(self.listing()[0]));
            } else {
                assert(self.view() =~= Set::<Seq<char>>::empty());
            }
        }
        self.items.len() == 0
    }

    /// Adds `s`; returns whether it was absent before.
    pub fn insert(&mut self, s: &str) -> (r: bool)
        requires
            old(self).wf(),
        ensures
            final(self).wf(),
            final(self).view() == old(self).view().insert(s@),
            r == !old(self).view().contains(s@),
    {
        let n = self.items.len();
        let mut p: usize = 0;
        while p < n && lex_lt_exec(self.items[p].as_str(), s)
            invariant
                n == self.items@.len(),
                p <= n,
                forall|j: int| 0 <= j < p ==> lex_lt(self.items@[j]@, s@),
            decreases n - p,
        {
            p = p + 1;
        }
        let ghost old_list = self.listing();
        if p < n && crate::text::str_eq(self.items[p].as_str(), s) {
            proof {
                assert(old_list[p as int] == s@);
                assert(old_list.to_set() =~= old_list.to_set().insert(s@));
            }
            return false;
        }
        proof {
            // every later element is greater than `s`
            assert forall|j: int| p <= j < n implies lex_lt(s@, #[trigger] old_list[j]) by {
                lemma_lex_total(s@, old_list[p as int]);
                if j > p {
                    lemma_lex_trans(s@, old_list[p as int], old_list[j]);
                }
            }
            assert forall|j: int| 0 <= j < n implies old_list[j] != s@ by {
                if j >= p {
                    lemma_lex_irrefl(s@);
                } else {
                    lemma_lex_irrefl(s@);
                }
            }
        }
        self.items.insert(p, crate::text::owned(s));
        proof {
            let new_list = self.listing();
            assert(new_list =~= old_list.insert(p as int, s@));
            assert forall|i: int, j: int| 0 <= i < j < new_list.len() implies lex_lt(new_list[i], new_list[j]) by {
                if j < p {
                } else if j == p {
                } else if i < p {
                    lemma_lex_trans(new_list[i], s@, new_list[j]);
                } else if i == p {
                } else {
                }
            }
            assert(new_list.to_set() =~= old_list.to_set().insert(s@)) by {
                assert forall|x: Seq<char>| new_list.to_set().contains(x) <==> old_list.to_set().insert(s@).contains(x) by {
                    if new_list.to_set().contains(x) {
                        let k = choose|k: int| 0 <= k < new_list.len() && new_list[k] == x;
                        if k < p {
                            assert(old_list[k] == x);
                        } else if k > p {
                            assert(old_list[k - 1] == x);
                        }
                    }
                    if old_list.to_set().contains(x) {
                        let k = choose|k: int| 0 <= k < old_list.len() && old_list[k] == x;
                        if k < p {
                            assert(new_list[k] == x);
                        } else {
                            assert(new_list[k + 1] == x);
                        }
                    }
                    if x == s@ {
                        assert(new_list[p as int] == x);
                    }
                }
            }
            if old_list.to_set().contains(s@) {
                let k = choose|k: int| 0 <= k < old_list.len() && old_list[k] == s@;
                assert(false);
            }
        }
        true
    }

    /// Removes `s`; returns whether it was present.
    pub fn remove(&mut self, s: &str) -> (r: bool)
        requires
            old(self).wf(),
        ensures
            final(self).wf(),
            final(self).view() == old(self).view().remove(s@),
            r == old(self).view().contains(s@),
    {
        let ghost old_list = self.listing();
        let mut p: usize = 0;
        while p < self.items.len()
            invariant
                p <= self.items@.len(),
                old_list == self.listing(),
                old_list == old(self).listing(),
                strictly_sorted(old_list),
                forall|j: int| 0 <= j < p ==> self.items@[j]@ != s@,
            decreases self.items@.len() - p,
        {
            if crate::text::str_eq(self.items[p].as_str(), s) {
                self.items.remove(p);
                proof {
                    let new_list = self.listing();
                    assert(new_list =~= old_list.remove(p as int));
                    assert forall|i: int, j: int| 0 <= i < j < new_list.len() implies lex_lt(new_list[i], new_list[j]) by {
                        if j < p {
                            assert(new_list[i] == old_list[i] && new_list[j] == old_list[j]);
                        } else if i < p {
                            assert(new_list[i] == old_list[i] && new_list[j] == old_list[j + 1]);
                        } else {
                            assert(new_list[i] == old_list[i + 1] && new_list[j] == old_list[j + 1]);
                        }
                    }
                    assert forall|j: int| 0 <= j < old_list.len() && j != p implies old_list[j] != s@ by {
                        if j < p {
                            lemma_lex_irrefl(s@);
                        } else {
                            assert(lex_lt(old_list[p as int], old_list[j]));
                            lemma_lex_irrefl(s@);
                        }
                    }
                    assert(new_list.to_set() =~= old_list.to_set().remove(s@)) by {
                        assert forall|x: Seq<char>| new_list.to_set().contains(x) <==> old_list.to_set().remove(s@).contains(x) by {
                            if new_list.to_set().contains(x) {
                                let k = choose|k: int| 0 <= k < new_list.len() && new_list[k] == x;
                                if k < p {
                                    assert(old_list[k] == x);
                                } else {
                                    assert(old_list[k + 1] == x);
                                }
                            }
                            if old_list.to_set().remove(s@).contains(x) {
                                let k = choose|k: int| 0 <= k < old_list.len() && old_list[k] == x;
                                if k < p {
                                    assert(new_list[k] == x);
                                } else if k > p {
                                    assert(new_list[k - 1] == x);
                                }
                            }
                        }
                    }
                    assert(old_list[p as int] == s@);
                    assert(old_list.to_set().contains(s@));
                }
                return true;
            }
            p = p + 1;
        }
        proof {
            assert(old_list.to_set() =~= old_list.to_set().remove(s@));
        }
        false
    }

    /// A copy of the set.
    pub fn copy(&self) -> (r: StrSet)
        requires
            self.wf(),
        ensures
            r.wf(),
            r.listing() == self.listing(),
            r.view() == self.view(),
    {
        StrSet { items: self.to_vec() }
    }

    /// The set of the strings of `v`.
    pub fn from_vec(v: &Vec<String>) -> (r: StrSet)
        ensures
            r.wf(),
            r.view() == item_views(v@).to_set(),
    {
        let mut r = StrSet::new();
        let mut i: usize = 0;
        while i < v.len()
            invariant
                i <= v@.len(),
                r.wf(),
                r.view() == item_views(v@).subrange(0, i as int).to_set(),
            decreases v@.len() - i,
        {
            r.insert(v[i].as_str());
            proof {
                assert(item_views(v@).subrange(0, i + 1) =~= item_views(v@).subrange(0, i as int).push(v@[i as int]@));
                item_views(v@).subrange(0, i as int).lemma_push_to_set_commute(v@[i as int]@);
            }
            i = i + 1;
        }
        assert(item_views(v@).subrange(0, v@.len() as int) =~= item_views(v@));
        r
    }

    /// The strings in both sets.
    pub fn intersection(&self, other: &StrSet) -> (r: StrSet)
        requires
            self.wf(),
            other.wf(),
        ensures
            r.wf(),
            r.view() == self.view().intersect(other.view()),
    {
        let mut r = StrSet::new();
        let mut i: usize = 0;
        let ghost l = self.listing();
        while i < self.items.len()
            invariant
                i <= self.items@.len(),
                l == self.listing(),
                other.wf(),
                r.wf(),
                r.view() == l.subrange(0, i as int).to_set().intersect(other.view()),
            decreases self.items@.len() - i,
        {
            let x = self.items[i].as_str();
            proof {
                assert(l.subrange(0, i + 1) =~= l.subrange(0, i as int).push(x@));
                l.subrange(0, i as int).lemma_push_to_set_commute(x@);
            }
            if other.contains(x) {
                r.insert(x);
            }
            proof {
                assert(r.view() =~= l.subrange(0, i + 1).to_set().intersect(other.view()));
            }
            i = i + 1;
        }
        assert(l.subrange(0, l.len() as int) =~= l);
        r
    }

    /// The elements, in increasing order.
    pub fn to_vec(&self) -> (r: Vec<String>)
        ensures
            item_views(r@) == self.listing(),
    {
        let mut r: Vec<String> = Vec::new();
        let mut i: usize = 0;
        while i < self.items.len()
            invariant
                i <= self.items@.len(),
                item_views(r@) == self.listing().subrange(0, i as int),
            decreases self.items@.len() - i,
        {
            let x = crate::text::owned(self.items[i].as_str());
            let ghost r_old = r@;
            r.push(x);
            proof {
                assert(r@ == r_old.push(x));
                assert(item_views(r@) =~= item_views(r_old).push(x@));
                assert(item_views(r@) =~= self.listing().subrange(0, i + 1));
            }
            i = i + 1;
        }
        assert(self.listing().subrange(0, i as int) =~= self.listing());
        r
    }
}

} // verus!
