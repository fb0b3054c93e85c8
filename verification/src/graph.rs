//! The chapter graph: which chapters the intro reaches, and whether the jumps
//! between chapters can loop.
use vstd::prelude::*;
use crate::diag::{Diagnostic, DiagView, Severity, dviews, chapter_diag, script_diag, lemma_dviews_push};
use crate::report::{ChapterEdge, EdgeView, eviews};
use crate::text::{views, join, str_eq, cat3, owned, join_strings};

verus! {

// ---------- the graph as the validator sees it ----------

/// A jump from chapter `a` to chapter `b` (edges that end the script are no jumps).
pub open spec fn has_edge(es: Seq<EdgeView>, a: Seq<char>, b: Seq<char>) -> bool {
    exists|k: int| 0 <= k < es.len() && !es[k].is_end && es[k].from == a && es[k].to == b
}

/// `t` holds every chapter that a jump leads to from a chapter in `t`.
pub open spec fn closed_under(t: Set<Seq<char>>, es: Seq<EdgeView>) -> bool {
    forall|a: Seq<char>, b: Seq<char>| t.contains(a) && #[trigger] has_edge(es, a, b) ==> t.contains(b)
}

/// `x` can be reached from `roots` by jumps: it lies in every set that holds
/// the roots and is closed under the jumps.
pub open spec fn reaches(roots: Set<Seq<char>>, es: Seq<EdgeView>, x: Seq<char>) -> bool {
    forall|t: Set<Seq<char>>| #[trigger] closed_under(t, es) && roots.subset_of(t) ==> t.contains(x)
}

/// Step `i` of the walk `w` is a jump.
pub open spec fn walk_step(w: Seq<Seq<char>>, es: Seq<EdgeView>, i: int) -> bool {
    has_edge(es, w[i], w[i + 1])
}

/// `w` is a closed walk of jumps: it starts and ends at the same chapter.
pub open spec fn is_cycle(w: Seq<Seq<char>>, es: Seq<EdgeView>) -> bool {
    &&& w.len() >= 2
    &&& w[0] == w[w.len() - 1]
    &&& forall|i: int| 0 <= i < w.len() - 1 ==> #[trigger] walk_step(w, es, i)
}

/// No closed walk of jumps passes through a chapter reachable from `roots`.
pub open spec fn acyclic_from(roots: Set<Seq<char>>, es: Seq<EdgeView>) -> bool {
    forall|w: Seq<Seq<char>>| #[trigger] is_cycle(w, es) ==> !reaches(roots, es, w[0])
}

/// Some jump leads to `c`.
pub open spec fn has_inbound(es: Seq<EdgeView>, c: Seq<char>) -> bool {
    exists|k: int| 0 <= k < es.len() && !es[k].is_end && es[k].to == c
}

// ---------- an index graph over the chapter names ----------

/// The names are pairwise distinct.
pub open spec fn distinct_names(v: Seq<String>) -> bool {
    forall|u: int, w: int| 0 <= u < v.len() && 0 <= w < v.len() && u != w ==> v[u]@ != v[w]@
}

/// The chapters and jump ends, each once, with the successors of each by index.
pub struct ChapterGraph {
    pub names: Vec<String>,
    pub succ: Vec<Vec<usize>>,
}

impl ChapterGraph {
    /// `self` is the graph of the jumps `es`.
    pub open spec fn graph_of(&self, es: Seq<EdgeView>) -> bool {
        let n = self.names@.len();
        &&& n <= usize::MAX
        &&& distinct_names(self.names@)
        &&& self.succ@.len() == n
        &&& forall|u: int, j: int| 0 <= u < n && 0 <= j < self.succ@[u]@.len() ==>
            (#[trigger] self.succ@[u]@[j]) < n
        &&& forall|u: int, j: int| 0 <= u < n && 0 <= j < self.succ@[u]@.len() ==>
            has_edge(es, self.names@[u]@, self.names@[#[trigger] self.succ@[u]@[j] as int]@)
        &&& forall|k: int| 0 <= k < es.len() && !(#[trigger] es[k]).is_end ==> self.has_jump(es[k].from, es[k].to)
    }

    /// Some node is named `a`, some `b`, and `b` is a successor of `a`.
    pub open spec fn has_jump(&self, a: Seq<char>, b: Seq<char>) -> bool {
        exists|u: int, v: int| 0 <= u < self.names@.len() && 0 <= v < self.names@.len()
            && self.names@[u]@ == a && self.names@[v]@ == b && #[trigger] self.succ@[u]@.contains(v as usize)
    }
}

/// `names` after adding `s` unless it is there already.
pub open spec fn add_name_s(names: Seq<Seq<char>>, s: Seq<char>) -> Seq<Seq<char>> {
    if names.contains(s) { names } else { names.push(s) }
}

/// `names` after adding each of `xs` in turn.
pub open spec fn add_all(names: Seq<Seq<char>>, xs: Seq<Seq<char>>) -> Seq<Seq<char>>
    decreases xs.len(),
{
    if xs.len() == 0 { names } else { add_name_s(add_all(names, xs.drop_last()), xs.last()) }
}

/// The two ends of each jump, in edge order.
pub open spec fn edge_ends(es: Seq<EdgeView>) -> Seq<Seq<char>>
    decreases es.len(),
{
    if es.len() == 0 {
        Seq::empty()
    } else {
        edge_ends(es.drop_last()) + if es.last().is_end { Seq::empty() } else { seq![es.last().from, es.last().to] }
    }
}

/// The nodes of the chapter graph: the chapters, then the ends of the
/// jumps, each once, in order of first appearance.
pub open spec fn graph_names(cs: Seq<Seq<char>>, es: Seq<EdgeView>) -> Seq<Seq<char>> {
    add_all(Seq::empty(), cs + edge_ends(es))
}

/// The index of the node named `x`.
pub open spec fn name_idx(names: Seq<Seq<char>>, x: Seq<char>) -> int {
    choose|u: int| 0 <= u < names.len() && names[u] == x
}

/// The successors of the node named `a`: the index of the target of each of
/// its jumps, in edge order (a target jumped to twice appears twice).
pub open spec fn succ_of(names: Seq<Seq<char>>, es: Seq<EdgeView>, a: Seq<char>) -> Seq<usize>
    decreases es.len(),
{
    if es.len() == 0 {
        Seq::empty()
    } else {
        succ_of(names, es.drop_last(), a)
            + if !es.last().is_end && es.last().from == a { seq![name_idx(names, es.last().to) as usize] } else { Seq::empty() }
    }
}

/// The successor lists of the chapter graph.
pub open spec fn graph_succ(cs: Seq<Seq<char>>, es: Seq<EdgeView>) -> Seq<Seq<usize>> {
    let ns = graph_names(cs, es);
    Seq::new(ns.len(), |u: int| succ_of(ns, es, ns[u]))
}

/// The successor list `u` of `succ`.
pub open spec fn succ_view_at(succ: Seq<Vec<usize>>, u: int) -> Seq<usize> {
    succ[u]@
}

/// The successor lists of `g`.
pub open spec fn succ_view(g: &ChapterGraph) -> Seq<Seq<usize>> {
    g.succ@.map_values(|v: Vec<usize>| v@)
}

proof fn lemma_name_idx(names: Seq<String>, u: int)
    requires
        distinct_names(names),
        0 <= u < names.len(),
    ensures
        name_idx(views(names), names[u]@) == u,
{
    let ns = views(names);
    assert(ns[u] == names[u]@);
    let w = name_idx(ns, names[u]@);
    assert(ns[w] == names[w]@);
}

/// Index of the name `s`, if present.
fn position_of(names: &Vec<String>, s: &str) -> (r: Option<usize>)
    ensures
        match r {
            Some(u) => u < names@.len() && names@[u as int]@ == s@,
            None => forall|u: int| 0 <= u < names@.len() ==> names@[u]@ != s@,
        },
{
    let mut i: usize = 0;
    while i < names.len()
        invariant
            i <= names@.len(),
            forall|u: int| 0 <= u < i ==> names@[u]@ != s@,
        decreases names@.len() - i,
    {
        if str_eq(names[i].as_str(), s) {
            return Some(i);
        }
        i = i + 1;
    }
    None
}

/// Adds `s` to the names unless it is there already.
fn add_name(names: &mut Vec<String>, s: &str)
    requires
        distinct_names(old(names)@),
    ensures
        distinct_names(final(names)@),
        final(names)@.len() >= old(names)@.len(),
        forall|u: int| 0 <= u < old(names)@.len() ==> final(names)@[u] == old(names)@[u],
        exists|u: int| 0 <= u < final(names)@.len() && #[trigger] final(names)@[u]@ == s@,
        forall|u: int| 0 <= u < final(names)@.len() ==> (exists|w: int| 0 <= w < old(names)@.len() && #[trigger] old(names)@[w]@ == final(names)@[u]@)
            || final(names)@[u]@ == s@,
        views(final(names)@) == add_name_s(views(old(names)@), s@),
{
    match position_of(names, s) {
        Some(u) => {
            assert(names@[u as int]@ == s@);
            assert(views(names@)[u as int] == s@);
        },
        None => {
            let ghost old_names = names@;
            assert(!views(old_names).contains(s@)) by {
                if views(old_names).contains(s@) {
                    let w = choose|w: int| 0 <= w < views(old_names).len() && views(old_names)[w] == s@;
                    assert(old_names[w]@ == s@);
                }
            }
            names.push(owned(s));
            assert(views(names@) =~= views(old_names).push(s@));
            assert(names@[old_names.len() as int]@ == s@);
            assert forall|u: int| 0 <= u < names@.len() implies (exists|w: int| 0 <= w < old_names.len() && #[trigger] old_names[w]@ == names@[u]@)
                || names@[u]@ == s@ by {
                if u < old_names.len() {
                    assert(old_names[u]@ == names@[u]@);
                }
            }
        },
    }
}

/// The successors of the node named `from`: the targets of its jumps, in edge order.
fn successors_of(names: &Vec<String>, edges: &Vec<ChapterEdge>, u: usize) -> (r: Vec<usize>)
    requires
        u < names@.len(),
        distinct_names(names@),
        forall|k: int| 0 <= k < edges@.len() && !edges@[k].is_end ==>
            exists|v: int| 0 <= v < names@.len() && #[trigger] names@[v]@ == edges@[k].to@,
    ensures
        forall|j: int| 0 <= j < r@.len() ==> (#[trigger] r@[j]) < names@.len()
            && has_edge(eviews(edges@), names@[u as int]@, names@[r@[j] as int]@),
        forall|k: int| 0 <= k < edges@.len() && !edges@[k].is_end && #[trigger] edges@[k].from@ == names@[u as int]@ ==>
            exists|v: int| 0 <= v < names@.len() && names@[v]@ == edges@[k].to@ && r@.contains(v as usize),
        r@ == succ_of(views(names@), eviews(edges@), names@[u as int]@),
{
    let ghost es = eviews(edges@);
    let mut r: Vec<usize> = Vec::new();
    let mut k: usize = 0;
    while k < edges.len()
        invariant
            k <= edges@.len(),
            es == eviews(edges@),
            u < names@.len(),
            distinct_names(names@),
            forall|k2: int| 0 <= k2 < edges@.len() && !edges@[k2].is_end ==>
                exists|v: int| 0 <= v < names@.len() && #[trigger] names@[v]@ == edges@[k2].to@,
            forall|j: int| 0 <= j < r@.len() ==> (#[trigger] r@[j]) < names@.len()
                && has_edge(es, names@[u as int]@, names@[r@[j] as int]@),
            forall|k2: int| 0 <= k2 < k && !edges@[k2].is_end && #[trigger] edges@[k2].from@ == names@[u as int]@ ==>
                exists|v: int| 0 <= v < names@.len() && names@[v]@ == edges@[k2].to@ && r@.contains(v as usize),
            r@ == succ_of(views(names@), es.subrange(0, k as int), names@[u as int]@),
        decreases edges@.len() - k,
    {
        let e = &edges[k];
        let ghost r_before = r@;
        proof {
            assert(es.subrange(0, k + 1).drop_last() =~= es.subrange(0, k as int));
            assert(es.subrange(0, k + 1).last() == edges@[k as int]@);
        }
        if !e.is_end && str_eq(e.from.as_str(), names[u].as_str()) {
            match position_of(names, e.to.as_str()) {
                Some(v) => {
                    let ghost r0 = r@;
                    r.push(v);
                    proof {
                        lemma_name_idx(names@, v as int);
                        assert(r@ =~= succ_of(views(names@), es.subrange(0, k + 1), names@[u as int]@));
                        assert(es[k as int] == edges@[k as int]@);
                        assert(has_edge(es, names@[u as int]@, names@[v as int]@));
                        assert(r@[r0.len() as int] == v);
                        assert forall|k2: int| 0 <= k2 < k + 1 && !edges@[k2].is_end && #[trigger] edges@[k2].from@ == names@[u as int]@ implies
                            exists|v2: int| 0 <= v2 < names@.len() && names@[v2]@ == edges@[k2].to@ && r@.contains(v2 as usize) by {
                            if k2 < k {
                                let v2 = choose|v2: int| 0 <= v2 < names@.len() && names@[v2]@ == edges@[k2].to@ && r0.contains(v2 as usize);
                                let j = choose|j: int| 0 <= j < r0.len() && r0[j] == v2 as usize;
                                assert(r@[j] == v2 as usize);
                            } else {
                                assert(r@[r0.len() as int] == v);
                            }
                        }
                    }
                },
                None => {
                    proof {
                        let v = choose|v: int| 0 <= v < names@.len() && #[trigger] names@[v]@ == edges@[k as int].to@;
                        assert(names@[v]@ != e.to@);
                    }
                },
            }
        }
        proof {
            if !(!e.is_end && e.from@ == names@[u as int]@) {
                assert(r@ =~= succ_of(views(names@), es.subrange(0, k + 1), names@[u as int]@));
            }
        }
        k = k + 1;
    }
    proof {
        assert(es.subrange(0, edges@.len() as int) =~= es);
    }
    r
}

/// Some name in `v` is `s`.
pub open spec fn named(v: Seq<String>, s: Seq<char>) -> bool {
    exists|u: int| 0 <= u < v.len() && #[trigger] v[u]@ == s
}

proof fn lemma_named_grow(n0: Seq<String>, n1: Seq<String>, x: Seq<char>)
    requires
        n0.len() <= n1.len(),
        forall|u: int| 0 <= u < n0.len() ==> n1[u] == n0[u],
        named(n0, x),
    ensures
        named(n1, x),
{
    let u = choose|u: int| 0 <= u < n0.len() && #[trigger] n0[u]@ == x;
    assert(n1[u]@ == x);
}

/// The graph of the chapters and the jumps between them.
fn build_graph(chapters: &Vec<String>, edges: &Vec<ChapterEdge>) -> (g: ChapterGraph)
    ensures
        g.graph_of(eviews(edges@)),
        forall|i: int| 0 <= i < chapters@.len() ==> named(g.names@, #[trigger] chapters@[i]@),
        views(g.names@) == graph_names(views(chapters@), eviews(edges@)),
        succ_view(&g) == graph_succ(views(chapters@), eviews(edges@)),
{
    let ghost es = eviews(edges@);
    let ghost cs = views(chapters@);
    let mut names: Vec<String> = Vec::new();
    let mut i: usize = 0;
    proof {
        assert(views(names@) =~= add_all(Seq::empty(), cs.subrange(0, 0)));
    }
    while i < chapters.len()
        invariant
            i <= chapters@.len(),
            cs == views(chapters@),
            distinct_names(names@),
            forall|i2: int| 0 <= i2 < i ==> named(names@, #[trigger] chapters@[i2]@),
            views(names@) == add_all(Seq::empty(), cs.subrange(0, i as int)),
        decreases chapters@.len() - i,
    {
        let ghost n0 = names@;
        add_name(&mut names, chapters[i].as_str());
        proof {
            assert(cs.subrange(0, i + 1).drop_last() =~= cs.subrange(0, i as int));
            assert(cs.subrange(0, i + 1).last() == chapters@[i as int]@);
            assert forall|i2: int| 0 <= i2 < i + 1 implies named(names@, #[trigger] chapters@[i2]@) by {
                if i2 < i {
                    lemma_named_grow(n0, names@, chapters@[i2]@);
                }
            }
        }
        i = i + 1;
    }
    let mut k: usize = 0;
    proof {
        assert(es.subrange(0, 0) =~= Seq::<EdgeView>::empty());
        assert(cs.subrange(0, chapters@.len() as int) =~= cs + edge_ends(es.subrange(0, 0)));
    }
    while k < edges.len()
        invariant
            k <= edges@.len(),
            es == eviews(edges@),
            cs == views(chapters@),
            views(names@) == add_all(Seq::empty(), cs + edge_ends(es.subrange(0, k as int))),
            distinct_names(names@),
            forall|i2: int| 0 <= i2 < chapters@.len() ==> named(names@, #[trigger] chapters@[i2]@),
            forall|k2: int| 0 <= k2 < k && !edges@[k2].is_end ==>
                named(names@, (#[trigger] edges@[k2]).from@) && named(names@, edges@[k2].to@),
        decreases edges@.len() - k,
    {
        let ghost n0 = names@;
        proof {
            assert(es.subrange(0, k + 1).drop_last() =~= es.subrange(0, k as int));
            assert(es.subrange(0, k + 1).last() == edges@[k as int]@);
        }
        let ghost x0 = cs + edge_ends(es.subrange(0, k as int));
        let ghost x2 = cs + edge_ends(es.subrange(0, k + 1));
        if !edges[k].is_end {
            add_name(&mut names, edges[k].from.as_str());
            let ghost n1 = names@;
            add_name(&mut names, edges[k].to.as_str());
            proof {
                lemma_named_grow(n1, names@, edges@[k as int].from@);
                let f = edges@[k as int].from@;
                let t = edges@[k as int].to@;
                assert(edge_ends(es.subrange(0, k + 1)) == edge_ends(es.subrange(0, k as int)) + seq![f, t]);
                assert(x2 =~= x0.push(f).push(t));
                assert(x2.drop_last() =~= x0.push(f));
                assert(x2.drop_last().drop_last() =~= x0);
                assert(views(n1) == add_name_s(add_all(Seq::empty(), x0), f));
                assert(add_all(Seq::empty(), x0.push(f)) == add_name_s(add_all(Seq::empty(), x0), f));
                assert(add_all(Seq::empty(), x2) == add_name_s(add_all(Seq::empty(), x2.drop_last()), t));
            }
        } else {
            proof {
                assert(edge_ends(es.subrange(0, k + 1)) == edge_ends(es.subrange(0, k as int)) + Seq::<Seq<char>>::empty());
                assert(x2 =~= x0);
            }
        }
        proof {
            assert forall|i2: int| 0 <= i2 < chapters@.len() implies named(names@, #[trigger] chapters@[i2]@) by {
                lemma_named_grow(n0, names@, chapters@[i2]@);
            }
            assert forall|k2: int| 0 <= k2 < k + 1 && !edges@[k2].is_end implies
                named(names@, (#[trigger] edges@[k2]).from@) && named(names@, edges@[k2].to@) by {
                if k2 < k {
                    lemma_named_grow(n0, names@, edges@[k2].from@);
                    lemma_named_grow(n0, names@, edges@[k2].to@);
                }
            }
        }
        k = k + 1;
    }
    let mut succ: Vec<Vec<usize>> = Vec::new();
    let mut u: usize = 0;
    while u < names.len()
        invariant
            u <= names@.len(),
            succ@.len() == u,
            distinct_names(names@),
            es == eviews(edges@),
            forall|i2: int| 0 <= i2 < chapters@.len() ==> named(names@, #[trigger] chapters@[i2]@),
            forall|k2: int| 0 <= k2 < edges@.len() && !edges@[k2].is_end ==>
                named(names@, (#[trigger] edges@[k2]).from@) && named(names@, edges@[k2].to@),
            forall|u2: int, j: int| 0 <= u2 < u && 0 <= j < succ@[u2]@.len() ==>
                (#[trigger] succ@[u2]@[j]) < names@.len() && has_edge(es, names@[u2]@, names@[succ@[u2]@[j] as int]@),
            forall|u2: int, k2: int| 0 <= u2 < u && 0 <= k2 < edges@.len() && !edges@[k2].is_end && #[trigger] edges@[k2].from@ == #[trigger] names@[u2]@ ==>
                exists|v: int| 0 <= v < names@.len() && names@[v]@ == edges@[k2].to@ && succ@[u2]@.contains(v as usize),
            forall|u2: int| 0 <= u2 < u ==> (#[trigger] succ@[u2])@ == succ_of(views(names@), es, names@[u2]@),
        decreases names@.len() - u,
    {
        let s = successors_of(&names, edges, u);
        succ.push(s);
        u = u + 1;
    }
    proof {
        assert(es.subrange(0, edges@.len() as int) =~= es);
        assert(views(names@) == graph_names(cs, es));
        assert forall|u2: int| 0 <= u2 < names@.len() implies #[trigger] succ_view_at(succ@, u2) == graph_succ(cs, es)[u2] by {
            assert(views(names@)[u2] == names@[u2]@);
        }
    }
    let g = ChapterGraph { names, succ };
    proof {
        assert(succ_view(&g) =~= graph_succ(cs, es)) by {
            assert forall|u2: int| 0 <= u2 < g.succ@.len() implies succ_view(&g)[u2] == graph_succ(cs, es)[u2] by {
                assert(succ_view_at(g.succ@, u2) == graph_succ(cs, es)[u2]);
            }
        }
    }
    let node_count = g.names.len();
    proof {
        assert forall|k2: int| 0 <= k2 < es.len() && !(#[trigger] es[k2]).is_end implies g.has_jump(es[k2].from, es[k2].to) by {
            assert(es[k2] == edges@[k2]@);
            assert(named(g.names@, edges@[k2].from@));
            let u2 = choose|u2: int| 0 <= u2 < g.names@.len() && #[trigger] g.names@[u2]@ == edges@[k2].from@;
            let v = choose|v: int| 0 <= v < g.names@.len() && g.names@[v]@ == edges@[k2].to@ && g.succ@[u2]@.contains(v as usize);
            assert(g.succ@[u2]@.contains(v as usize));
        }
    }
    g
}

// ---------- reachability ----------

/// How many entries of `s` are set.
pub open spec fn count_true(s: Seq<bool>) -> nat
    decreases s.len(),
{
    if s.len() == 0 {
        0
    } else {
        count_true(s.drop_last()) + if s.last() { 1nat } else { 0nat }
    }
}

proof fn lemma_count_true_le(s: Seq<bool>)
    ensures
        count_true(s) <= s.len(),
    decreases s.len(),
{
    if s.len() > 0 {
        lemma_count_true_le(s.drop_last());
    }
}

proof fn lemma_count_true_set(s: Seq<bool>, i: int)
    requires
        0 <= i < s.len(),
        !s[i],
    ensures
        count_true(s.update(i, true)) == count_true(s) + 1,
    decreases s.len(),
{
    let t = s.update(i, true);
    if i == s.len() - 1 {
        assert(t.drop_last() =~= s.drop_last());
    } else {
        assert(t.drop_last() =~= s.drop_last().update(i, true));
        lemma_count_true_set(s.drop_last(), i);
    }
}

proof fn lemma_count_true_none(s: Seq<bool>)
    requires
        forall|u: int| 0 <= u < s.len() ==> !s[u],
    ensures
        count_true(s) == 0,
    decreases s.len(),
{
    if s.len() > 0 {
        lemma_count_true_none(s.drop_last());
    }
}

/// For each node, whether it is reachable from `intro`.
fn reach_marks(g: &ChapterGraph, intro: &str, Ghost(es): Ghost<Seq<EdgeView>>) -> (marks: Vec<bool>)
    requires
        g.graph_of(es),
    ensures
        marks@.len() == g.names@.len(),
        forall|u: int| 0 <= u < g.names@.len() ==> (#[trigger] marks@[u] <==> reaches(set![intro@], es, g.names@[u]@)),
{
    let ghost roots = set![intro@];
    let n = g.names.len();
    let mut marks: Vec<bool> = Vec::new();
    while marks.len() < n
        invariant
            marks@.len() <= n,
            n == g.names@.len(),
            forall|u: int| 0 <= u < marks@.len() ==> !marks@[u],
        decreases n - marks@.len(),
    {
        marks.push(false);
    }
    proof {
        lemma_count_true_none(marks@);
    }
    let mut queue: Vec<usize> = Vec::new();
    let start = position_of(&g.names, intro);
    match start {
        Some(s) => {
            proof {
                lemma_count_true_set(marks@, s as int);
                assert forall|t: Set<Seq<char>>| #[trigger] closed_under(t, es) && roots.subset_of(t) implies t.contains(g.names@[s as int]@) by {
                    assert(roots.contains(intro@));
                }
            }
            marks.set(s, true);
            queue.push(s);
            assert(queue@[0] == s);
        },
        None => {},
    }
    let mut head: usize = 0;
    while head < queue.len()
        invariant
            g.graph_of(es),
            roots == set![intro@],
            n == g.names@.len(),
            marks@.len() == n,
            head <= queue@.len(),
            queue@.len() == count_true(marks@),
            forall|p: int| 0 <= p < queue@.len() ==> (#[trigger] queue@[p]) < n && marks@[queue@[p] as int],
            forall|u: int| 0 <= u < n && #[trigger] marks@[u] ==> exists|p: int| 0 <= p < queue@.len() && queue@[p] == u,
            forall|p: int, j: int| 0 <= p < head && 0 <= j < g.succ@[queue@[p] as int]@.len() ==>
                marks@[#[trigger] g.succ@[queue@[p] as int]@[j] as int],
            forall|u: int| 0 <= u < n && #[trigger] marks@[u] ==> reaches(roots, es, g.names@[u]@),
            match start {
                Some(s) => s < n && g.names@[s as int]@ == intro@ && marks@[s as int],
                None => forall|u: int| 0 <= u < n ==> g.names@[u]@ != intro@,
            },
        decreases n - head,
    {
        proof {
            lemma_count_true_le(marks@);
        }
        let u = queue[head];
        let mut j: usize = 0;
        while j < g.succ[u].len()
            invariant
                g.graph_of(es),
                roots == set![intro@],
                n == g.names@.len(),
                u < n,
                marks@.len() == n,
                head < queue@.len(),
                queue@[head as int] == u,
                j <= g.succ@[u as int]@.len(),
                queue@.len() == count_true(marks@),
                forall|p: int| 0 <= p < queue@.len() ==> (#[trigger] queue@[p]) < n && marks@[queue@[p] as int],
                forall|u2: int| 0 <= u2 < n && #[trigger] marks@[u2] ==> exists|p: int| 0 <= p < queue@.len() && queue@[p] == u2,
                forall|p: int, j2: int| 0 <= p < head && 0 <= j2 < g.succ@[queue@[p] as int]@.len() ==>
                    marks@[#[trigger] g.succ@[queue@[p] as int]@[j2] as int],
                forall|j2: int| 0 <= j2 < j ==> marks@[#[trigger] g.succ@[u as int]@[j2] as int],
                forall|u2: int| 0 <= u2 < n && #[trigger] marks@[u2] ==> reaches(roots, es, g.names@[u2]@),
                match start {
                    Some(s) => s < n && g.names@[s as int]@ == intro@ && marks@[s as int],
                    None => forall|u2: int| 0 <= u2 < n ==> g.names@[u2]@ != intro@,
                },
            decreases g.succ@[u as int]@.len() - j,
        {
            let v = g.succ[u][j];
            assert(v < n);
            if !marks[v] {
                let ghost q0 = queue@;
                let ghost m0 = marks@;
                proof {
                    lemma_count_true_set(marks@, v as int);
                    assert(has_edge(es, g.names@[u as int]@, g.names@[v as int]@));
                    assert(marks@[u as int]);
                    assert forall|t: Set<Seq<char>>| #[trigger] closed_under(t, es) && roots.subset_of(t) implies t.contains(g.names@[v as int]@) by {
                        assert(t.contains(g.names@[u as int]@));
                    }
                }
                marks.set(v, true);
                queue.push(v);
                proof {
                    assert forall|u2: int| 0 <= u2 < n && #[trigger] marks@[u2] implies exists|p: int| 0 <= p < queue@.len() && queue@[p] == u2 by {
                        if u2 == v {
                            assert(queue@[q0.len() as int] == v);
                        } else {
                            assert(m0[u2]);
                            let p = choose|p: int| 0 <= p < q0.len() && q0[p] == u2;
                            assert(queue@[p] == u2);
                        }
                    }
                    assert forall|p: int| 0 <= p < queue@.len() implies (#[trigger] queue@[p]) < n && marks@[queue@[p] as int] by {
                        if p < q0.len() {
                            assert(queue@[p] == q0[p]);
                        }
                    }
                }
            }
            j = j + 1;
        }
        head = head + 1;
    }
    proof {
        let t = Set::new(|x: Seq<char>| x == intro@ || exists|u: int| 0 <= u < n && marks@[u] && #[trigger] g.names@[u]@ == x);
        assert(roots.subset_of(t));
        assert forall|a: Seq<char>, b: Seq<char>| t.contains(a) && #[trigger] has_edge(es, a, b) implies t.contains(b) by {
            let k = choose|k: int| 0 <= k < es.len() && !es[k].is_end && es[k].from == a && es[k].to == b;
            assert(g.has_jump(es[k].from, es[k].to));
            let (u1, v1) = choose|u1: int, v1: int| 0 <= u1 < n && 0 <= v1 < n
                && g.names@[u1]@ == a && g.names@[v1]@ == b && #[trigger] g.succ@[u1]@.contains(v1 as usize);
            if a == intro@ {
                match start {
                    Some(s) => { assert(s == u1); },
                    None => { assert(false); },
                }
            } else {
                let u = choose|u: int| 0 <= u < n && marks@[u] && #[trigger] g.names@[u]@ == a;
                assert(u == u1);
            }
            assert(marks@[u1]);
            let p = choose|p: int| 0 <= p < queue@.len() && queue@[p] == u1;
            let j = choose|j: int| 0 <= j < g.succ@[u1]@.len() && g.succ@[u1]@[j] == v1 as usize;
            assert(marks@[g.succ@[queue@[p] as int]@[j] as int]);
            assert(g.names@[v1]@ == b);
        }
        assert(closed_under(t, es));
        assert forall|u: int| 0 <= u < n implies (#[trigger] marks@[u] <==> reaches(roots, es, g.names@[u]@)) by {
            if reaches(roots, es, g.names@[u]@) {
                assert(t.contains(g.names@[u]@));
                if g.names@[u]@ == intro@ {
                    match start {
                        Some(s) => { assert(s == u); },
                        None => {},
                    }
                } else {
                    let u2 = choose|u2: int| 0 <= u2 < n && marks@[u2] && #[trigger] g.names@[u2]@ == g.names@[u]@;
                    assert(u2 == u);
                }
            }
        }
    }
    marks
}

// ---------- cycles ----------

/// The successor lists fit the node count.
pub open spec fn shape_ok(g: &ChapterGraph) -> bool {
    let n = g.names@.len();
    &&& g.succ@.len() == n
    &&& forall|u: int, j: int| 0 <= u < n && 0 <= j < g.succ@[u]@.len() ==> (#[trigger] g.succ@[u]@[j]) < n
}

/// Step `i` of the index walk `c` follows a successor link.
pub open spec fn idx_step(g: &ChapterGraph, c: Seq<usize>, i: int) -> bool {
    g.succ@[c[i] as int]@.contains(c[i + 1])
}

/// `c` is a walk along successor links.
pub open spec fn idx_walk(g: &ChapterGraph, c: Seq<usize>) -> bool {
    &&& forall|i: int| 0 <= i < c.len() ==> (#[trigger] c[i]) < g.names@.len()
    &&& forall|i: int| 0 <= i < c.len() - 1 ==> #[trigger] idx_step(g, c, i)
}

/// `c` is a closed walk along successor links.
pub open spec fn idx_cycle(g: &ChapterGraph, c: Seq<usize>) -> bool {
    &&& c.len() >= 2
    &&& c[0] == c[c.len() - 1]
    &&& idx_walk(g, c)
}

/// Marks are white (0), gray (1) or black (2).
pub open spec fn marks_ok(m: Seq<u8>, n: int) -> bool {
    m.len() == n && forall|u: int| 0 <= u < n ==> (#[trigger] m[u]) <= 2
}

/// The gray nodes are exactly those on the path.
pub open spec fn gray_is_path(m: Seq<u8>, path: Seq<usize>) -> bool {
    forall|u: int| 0 <= u < m.len() ==> (#[trigger] m[u] == 1 <==> path.contains(u as usize))
}

/// Every successor of a black node is black and finished earlier.
pub open spec fn black_closed(g: &ChapterGraph, m: Seq<u8>, rank: Seq<int>) -> bool {
    forall|u: int, j: int| 0 <= u < m.len() && m[u] == 2 && 0 <= j < g.succ@[u]@.len() ==>
        m[#[trigger] g.succ@[u]@[j] as int] == 2 && rank[g.succ@[u]@[j] as int] < rank[u]
}

/// Every black node finished before `clock`.
pub open spec fn ranks_below(m: Seq<u8>, rank: Seq<int>, clock: int) -> bool {
    forall|u: int| 0 <= u < m.len() && #[trigger] m[u] == 2 ==> rank[u] < clock
}

/// Every node that is not white is reachable from the roots.
pub open spec fn seen_reached(g: &ChapterGraph, m: Seq<u8>, roots: Set<Seq<char>>, es: Seq<EdgeView>) -> bool {
    forall|u: int| 0 <= u < m.len() && #[trigger] m[u] != 0 ==> reaches(roots, es, g.names@[u]@)
}

/// Marks and finishing ranks of nodes already seen do not change.
pub open spec fn kept(m0: Seq<u8>, m1: Seq<u8>, r0: Seq<int>, r1: Seq<int>) -> bool {
    &&& forall|u: int| 0 <= u < m0.len() && #[trigger] m0[u] != 0 ==> m1[u] == m0[u]
    &&& forall|u: int| 0 <= u < m0.len() && #[trigger] m0[u] == 2 ==> r1[u] == r0[u]
}

/// How many nodes are white.
pub open spec fn count_white(m: Seq<u8>) -> nat
    decreases m.len(),
{
    if m.len() == 0 {
        0
    } else {
        count_white(m.drop_last()) + if m.last() == 0 { 1nat } else { 0nat }
    }
}

proof fn lemma_count_white_update(m: Seq<u8>, i: int, x: u8)
    requires
        0 <= i < m.len(),
    ensures
        count_white(m.update(i, x)) + (if m[i] == 0 { 1int } else { 0int })
            == count_white(m) + (if x == 0 { 1int } else { 0int }),
    decreases m.len(),
{
    let t = m.update(i, x);
    if i == m.len() - 1 {
        assert(t.drop_last() =~= m.drop_last());
    } else {
        assert(t.drop_last() =~= m.drop_last().update(i, x));
        lemma_count_white_update(m.drop_last(), i, x);
    }
}

proof fn lemma_reach_step(roots: Set<Seq<char>>, es: Seq<EdgeView>, a: Seq<char>, b: Seq<char>)
    requires
        reaches(roots, es, a),
        has_edge(es, a, b),
    ensures
        reaches(roots, es, b),
{
    assert forall|t: Set<Seq<char>>| #[trigger] closed_under(t, es) && roots.subset_of(t) implies t.contains(b) by {
        assert(t.contains(a));
    }
}

/// The first position of `v` in `s` (its length when absent).
pub open spec fn first_pos(s: Seq<usize>, v: usize) -> int
    decreases s.len(),
{
    if s.len() == 0 { 0 } else if s[0] == v { 0 } else { 1 + first_pos(s.drop_first(), v) }
}

/// The cycle closed by a link from the end of `path` back to `v`: the path
/// from the first `v` on, then `v` again.
pub open spec fn cycle_at(path: Seq<usize>, v: usize) -> Seq<usize> {
    path.subrange(first_pos(path, v), path.len() as int).push(v)
}

/// A depth-first search from the white node `node` over the successor
/// lists `succ` (marks: 0 white, 1 on the path, 2 done), following each
/// list in order and stopping at the first link back to a node on the path:
/// the cycle found, if any, and the marks after it. `fuel` bounds the depth.
pub open spec fn dfs_run(succ: Seq<Seq<usize>>, fuel: nat, node: usize, m: Seq<u8>, path: Seq<usize>) -> (Option<Seq<usize>>, Seq<u8>)
    decreases fuel, 0nat, 0int,
{
    if fuel == 0 {
        (None, m)
    } else {
        let r = dfs_iter(succ, (fuel - 1) as nat, node, 0, m.update(node as int, 1), path.push(node));
        match r.0 {
            Some(c) => r,
            None => (None, r.1.update(node as int, 2)),
        }
    }
}

/// The search from the successors of `node` onwards, from the `j`-th.
pub open spec fn dfs_iter(succ: Seq<Seq<usize>>, fuel: nat, node: usize, j: nat, m: Seq<u8>, path: Seq<usize>) -> (Option<Seq<usize>>, Seq<u8>)
    decreases fuel, 1nat, succ[node as int].len() - j,
{
    if j >= succ[node as int].len() {
        (None, m)
    } else {
        let v = succ[node as int][j as int];
        if m[v as int] == 0 {
            let r = dfs_run(succ, fuel, v, m, path);
            match r.0 {
                Some(c) => r,
                None => dfs_iter(succ, fuel, node, j + 1, r.1, path),
            }
        } else if m[v as int] == 1 {
            (Some(cycle_at(path, v)), m)
        } else {
            dfs_iter(succ, fuel, node, j + 1, m, path)
        }
    }
}

/// The plain value of an optional index list.
pub open spec fn opt_seq(o: Option<Vec<usize>>) -> Option<Seq<usize>> {
    match o {
        Some(c) => Some(c@),
        None => None,
    }
}

/// A search whose successor walk found a cycle reports that cycle.
proof fn lemma_dfs_run_some(succ: Seq<Seq<usize>>, fuel: nat, node: usize, m: Seq<u8>, path: Seq<usize>,
    f1: nat, whole: (Option<Seq<usize>>, Seq<u8>))
    requires
        fuel >= 1,
        f1 == fuel - 1,
        whole == dfs_iter(succ, f1, node, 0, m.update(node as int, 1), path.push(node)),
    ensures
        whole.0 is Some ==> dfs_run(succ, fuel, node, m, path).0 == whole.0,
        whole.0 is None ==> dfs_run(succ, fuel, node, m, path) == (None::<Seq<usize>>, whole.1.update(node as int, 2)),
{
}

proof fn lemma_first_pos(s: Seq<usize>, v: usize, k: int)
    requires
        0 <= k < s.len(),
        s[k] == v,
        forall|p: int| 0 <= p < k ==> s[p] != v,
    ensures
        first_pos(s, v) == k,
    decreases k,
{
    if k > 0 {
        let t = s.drop_first();
        assert forall|p: int| 0 <= p < k - 1 implies t[p] != v by {
            assert(t[p] == s[p + 1]);
        }
        lemma_first_pos(t, v, k - 1);
    }
}

/// The cycle closed by the link from the end of `path` back to `v`, which is on it.
fn cycle_from_path(g: &ChapterGraph, path: &Vec<usize>, v: usize) -> (c: Vec<usize>)
    requires
        idx_walk(g, path@),
        path@.len() > 0,
        path@.contains(v),
        g.succ@[path@[path@.len() - 1] as int]@.contains(v),
    ensures
        idx_cycle(g, c@),
        c@[0] == v,
        forall|i: int| 0 <= i < c@.len() ==> path@.contains(#[trigger] c@[i]),
        c@ == cycle_at(path@, v),
{
    let mut start: usize = 0;
    while start < path.len() && path[start] != v
        invariant
            start <= path@.len(),
            forall|p: int| 0 <= p < start ==> path@[p] != v,
        decreases path@.len() - start,
    {
        start = start + 1;
    }
    proof {
        if start == path@.len() {
            let p = choose|p: int| 0 <= p < path@.len() && path@[p] == v;
            assert(path@[p] != v);
        }
        lemma_first_pos(path@, v, start as int);
    }
    let mut c: Vec<usize> = Vec::new();
    let mut p: usize = start;
    while p < path.len()
        invariant
            start <= p <= path@.len(),
            path@[start as int] == v,
            c@ == path@.subrange(start as int, p as int),
        decreases path@.len() - p,
    {
        c.push(path[p]);
        proof {
            assert(c@ =~= path@.subrange(start as int, p + 1));
        }
        p = p + 1;
    }
    let ghost body = c@;
    c.push(v);
    proof {
        assert(c@ =~= cycle_at(path@, v));
        assert(body.len() >= 1);
        assert(c@[0] == v);
        assert forall|i: int| 0 <= i < c@.len() - 1 implies #[trigger] idx_step(g, c@, i) by {
            if i < body.len() - 1 {
                assert(idx_step(g, path@, start + i));
            } else {
                assert(c@[i] == path@[path@.len() - 1]);
            }
        }
        assert forall|i: int| 0 <= i < c@.len() implies path@.contains(#[trigger] c@[i]) by {
            if i < body.len() {
                assert(path@[start + i] == c@[i]);
            } else {
                assert(path@[start as int] == c@[i]);
            }
        }
        assert forall|i: int| 0 <= i < c@.len() implies (#[trigger] c@[i]) < g.names@.len() by {
            if i < body.len() {
                assert(path@[start + i] == c@[i]);
            } else {
                assert(path@[start as int] == c@[i]);
            }
        }
    }
    c
}

/// Depth-first search from the white node `node`; stops at the first link back
/// to a node on the current path and returns that cycle.
fn dfs(g: &ChapterGraph, node: usize, mark: &mut Vec<u8>, path: &mut Vec<usize>,
    Ghost(rank): Ghost<Seq<int>>, Ghost(clock): Ghost<int>,
    Ghost(roots): Ghost<Set<Seq<char>>>, Ghost(es): Ghost<Seq<EdgeView>>, Ghost(fuel): Ghost<nat>)
    -> (res: (Option<Vec<usize>>, Ghost<Seq<int>>, Ghost<int>))
    requires
        fuel >= count_white(old(mark)@),
        g.graph_of(es),
        shape_ok(g),
        node < g.names@.len(),
        marks_ok(old(mark)@, g.names@.len() as int),
        old(mark)@[node as int] == 0,
        rank.len() == g.names@.len(),
        idx_walk(g, old(path)@),
        old(path)@.len() > 0 ==> g.succ@[old(path)@[old(path)@.len() - 1] as int]@.contains(node),
        gray_is_path(old(mark)@, old(path)@),
        black_closed(g, old(mark)@, rank),
        ranks_below(old(mark)@, rank, clock),
        seen_reached(g, old(mark)@, roots, es),
        reaches(roots, es, g.names@[node as int]@),
    ensures
        opt_seq(res.0) == dfs_run(succ_view(g), fuel, node, old(mark)@, old(path)@).0,
        res.0 is None ==> final(mark)@ == dfs_run(succ_view(g), fuel, node, old(mark)@, old(path)@).1,
        match res.0 {
            Some(c) => idx_cycle(g, c@) && reaches(roots, es, g.names@[c@[0] as int]@),
            None => {
                &&& marks_ok(final(mark)@, g.names@.len() as int)
                &&& final(mark)@[node as int] == 2
                &&& final(path)@ == old(path)@
                &&& res.1@.len() == g.names@.len()
                &&& kept(old(mark)@, final(mark)@, rank, res.1@)
                &&& gray_is_path(final(mark)@, old(path)@)
                &&& black_closed(g, final(mark)@, res.1@)
                &&& ranks_below(final(mark)@, res.1@, res.2@)
                &&& seen_reached(g, final(mark)@, roots, es)
                &&& count_white(final(mark)@) < count_white(old(mark)@)
            },
        },
    decreases count_white(old(mark)@),
{
    let ghost m_in = mark@;
    let ghost p_in = path@;
    let ghost n = g.names@.len();
    let ghost sv = succ_view(g);
    let ghost f1: nat = (fuel - 1) as nat;
    proof {
        lemma_count_white_update(mark@, node as int, 1);
    }
    mark.set(node, 1);
    path.push(node);
    let ghost whole = dfs_iter(sv, f1, node, 0, mark@, path@);
    proof {
        assert(mark@ =~= m_in.update(node as int, 1));
    }
    let mark_len = mark.len();
    let ghost mut r = rank;
    let ghost mut cl = clock;
    proof {
        assert forall|i: int| 0 <= i < path@.len() - 1 implies #[trigger] idx_step(g, path@, i) by {
            if i < p_in.len() - 1 {
                assert(idx_step(g, p_in, i));
            }
        }
        assert forall|i: int| 0 <= i < path@.len() implies (#[trigger] path@[i]) < g.names@.len() by {
            if i < p_in.len() {
                assert(p_in[i] == path@[i]);
            }
        }
        assert forall|u: int| 0 <= u < mark@.len() implies (#[trigger] mark@[u] == 1 <==> path@.contains(u as usize)) by {
            if u != node {
                assert(mark@[u] == m_in[u]);
                if p_in.contains(u as usize) {
                    let q = choose|q: int| 0 <= q < p_in.len() && p_in[q] == u as usize;
                    assert(path@[q] == u as usize);
                }
                if path@.contains(u as usize) {
                    let q = choose|q: int| 0 <= q < path@.len() && path@[q] == u as usize;
                    assert(path@[p_in.len() as int] == node);
                    assert(u as usize != node);
                    assert(q < p_in.len());
                    assert(p_in[q] == u as usize);
                }
            } else {
                assert(path@[p_in.len() as int] == node);
            }
        }
    }
    let mut j: usize = 0;
    while j < g.succ[node].len()
        invariant
            g.graph_of(es),
            shape_ok(g),
            n == g.names@.len(),
            node < n,
            marks_ok(mark@, n as int),
            m_in == old(mark)@,
            m_in.len() == n,
            m_in[node as int] == 0,
            mark@[node as int] == 1,
            path@ == p_in.push(node),
            idx_walk(g, path@),
            gray_is_path(mark@, path@),
            r.len() == n,
            black_closed(g, mark@, r),
            ranks_below(mark@, r, cl),
            seen_reached(g, mark@, roots, es),
            kept(m_in, mark@, rank, r),
            count_white(mark@) < count_white(m_in),
            j <= g.succ@[node as int]@.len(),
            forall|j2: int| 0 <= j2 < j ==> mark@[#[trigger] g.succ@[node as int]@[j2] as int] == 2,
            sv == succ_view(g),
            fuel >= count_white(m_in),
            f1 == fuel - 1,
            p_in == old(path)@,
            count_white(mark@) <= f1,
            whole == dfs_iter(sv, f1, node, 0, m_in.update(node as int, 1), p_in.push(node)),
            whole == dfs_iter(sv, f1, node, j as nat, mark@, path@),
        decreases g.succ@[node as int]@.len() - j,
    {
        let v = g.succ[node][j];
        assert(sv[node as int] == g.succ@[node as int]@);
        assert(sv[node as int][j as int] == v);
        assert(v < n);
        assert(has_edge(es, g.names@[node as int]@, g.names@[v as int]@));
        if mark[v] == 0 {
            let ghost m_before = mark@;
            proof {
                assert(path@[path@.len() - 1] == node);
                assert(g.succ@[node as int]@[j as int] == v);
                lemma_reach_step(roots, es, g.names@[node as int]@, g.names@[v as int]@);
            }
            let ghost p_before = path@;
            let (res, Ghost(r2), Ghost(c2)) = dfs(g, v, mark, path, Ghost(r), Ghost(cl), Ghost(roots), Ghost(es), Ghost(f1));
            match res {
                Some(c) => {
                    proof {
                        let child = dfs_run(sv, f1, v, m_before, p_before);
                        assert(child.0 == Some(c@));
                        assert(dfs_iter(sv, f1, node, j as nat, m_before, p_before) == child);
                        assert(whole.0 == Some(c@));
                        lemma_dfs_run_some(sv, fuel, node, m_in, p_in, f1, whole);
                    }
                    return (Some(c), Ghost(r2), Ghost(c2));
                },
                None => {},
            }
            proof {
                assert forall|u: int| 0 <= u < m_in.len() && #[trigger] m_in[u] != 0 implies mark@[u] == m_in[u] by {
                    assert(m_before[u] == m_in[u]);
                }
                assert forall|u: int| 0 <= u < m_in.len() && #[trigger] m_in[u] == 2 implies r2[u] == rank[u] by {
                    assert(m_before[u] == 2);
                }
                assert forall|j2: int| 0 <= j2 < j + 1 implies mark@[#[trigger] g.succ@[node as int]@[j2] as int] == 2 by {
                    if j2 < j {
                        assert(m_before[g.succ@[node as int]@[j2] as int] == 2);
                    }
                }
                r = r2;
                cl = c2;
            }
        } else if mark[v] == 1 {
            proof {
                assert(path@.contains(v));
                assert(path@[path@.len() - 1] == node);
                assert(g.succ@[node as int]@[j as int] == v);
            }
            let c = cycle_from_path(g, path, v);
            proof {
                assert(mark@[v as int] != 0);
                assert(whole == dfs_iter(sv, f1, node, j as nat, mark@, path@));
                assert(whole.0 == Some(c@));
                lemma_dfs_run_some(sv, fuel, node, m_in, p_in, f1, whole);
            }
            return (Some(c), Ghost(r), Ghost(cl));
        }
        j = j + 1;
    }
    let ghost m_loop = mark@;
    let ghost r_loop = r;
    proof {
        lemma_count_white_update(mark@, node as int, 2);
        r = r.update(node as int, cl);
        cl = cl + 1;
    }
    mark.set(node, 2);
    path.pop();
    let mark_len2 = mark.len();
    proof {
        assert(path@ =~= p_in);
        assert(!p_in.contains(node)) by {
            if p_in.contains(node) {
                assert(m_in[node as int] == 1);
            }
        }
        assert forall|u: int| 0 <= u < mark@.len() implies (#[trigger] mark@[u] == 1 <==> p_in.contains(u as usize)) by {
            if u != node {
                assert(mark@[u] == m_loop[u]);
                if p_in.contains(u as usize) {
                    let q = choose|q: int| 0 <= q < p_in.len() && p_in[q] == u as usize;
                    assert(p_in.push(node)[q] == u as usize);
                }
                if p_in.push(node).contains(u as usize) {
                    let q = choose|q: int| 0 <= q < p_in.len() + 1 && p_in.push(node)[q] == u as usize;
                    assert(p_in.push(node)[p_in.len() as int] == node);
                    assert(u as usize != node);
                    assert(q < p_in.len());
                }
            }
        }
        assert forall|u: int, j2: int| 0 <= u < mark@.len() && mark@[u] == 2 && 0 <= j2 < g.succ@[u]@.len() implies
            mark@[#[trigger] g.succ@[u]@[j2] as int] == 2 && r[g.succ@[u]@[j2] as int] < r[u] by {
            let w = g.succ@[u]@[j2];
            if u == node {
                assert(m_loop[w as int] == 2);
                assert(w != node);
            } else {
                assert(m_loop[u] == 2);
                assert(m_loop[w as int] == 2);
                assert(w != node);
            }
        }
        assert forall|u: int| 0 <= u < m_in.len() && #[trigger] m_in[u] != 0 implies mark@[u] == m_in[u] by {
            assert(u != node);
        }
        assert forall|u: int| 0 <= u < m_in.len() && #[trigger] m_in[u] == 2 implies r[u] == rank[u] by {
            assert(u != node);
        }
        assert forall|u: int| 0 <= u < mark@.len() && #[trigger] mark@[u] != 0 implies reaches(roots, es, g.names@[u]@) by {
            if u != node {
                assert(m_loop[u] != 0);
            }
        }
        assert forall|u: int| 0 <= u < n implies (#[trigger] mark@[u]) <= 2 by {
            if u != node {
                assert(m_loop[u] <= 2);
            }
        }
    }
    (None, Ghost(r), Ghost(cl))
}

/// The names of the nodes of the index walk `c`.
pub open spec fn names_of(g: &ChapterGraph, c: Seq<usize>) -> Seq<Seq<char>> {
    c.map_values(|u: usize| g.names@[u as int]@)
}

proof fn lemma_cycle_names(g: &ChapterGraph, es: Seq<EdgeView>, c: Seq<usize>)
    requires
        g.graph_of(es),
        idx_cycle(g, c),
    ensures
        is_cycle(names_of(g, c), es),
{
    let w = names_of(g, c);
    assert forall|i: int| 0 <= i < w.len() - 1 implies #[trigger] walk_step(w, es, i) by {
        assert(idx_step(g, c, i));
        let u = c[i] as int;
        let j = choose|j: int| 0 <= j < g.succ@[u]@.len() && g.succ@[u]@[j] == c[i + 1];
        assert(has_edge(es, g.names@[u]@, g.names@[g.succ@[u]@[j] as int]@));
    }
}

proof fn lemma_black_rank_walk(g: &ChapterGraph, es: Seq<EdgeView>, m: Seq<u8>, rank: Seq<int>,
    w: Seq<Seq<char>>, u0: int, i: int)
    requires
        g.graph_of(es),
        marks_ok(m, g.names@.len() as int),
        black_closed(g, m, rank),
        0 <= u0 < g.names@.len(),
        m[u0] == 2,
        g.names@[u0]@ == w[0],
        0 <= i < w.len(),
        forall|i2: int| 0 <= i2 < w.len() - 1 ==> #[trigger] walk_step(w, es, i2),
    ensures
        exists|u: int| 0 <= u < g.names@.len() && m[u] == 2 && #[trigger] g.names@[u]@ == w[i] && rank[u] <= rank[u0] - i,
    decreases i,
{
    if i > 0 {
        lemma_black_rank_walk(g, es, m, rank, w, u0, i - 1);
        let u = choose|u: int| 0 <= u < g.names@.len() && m[u] == 2 && #[trigger] g.names@[u]@ == w[i - 1] && rank[u] <= rank[u0] - (i - 1);
        assert(walk_step(w, es, i - 1));
        let k = choose|k: int| 0 <= k < es.len() && !es[k].is_end && es[k].from == w[i - 1] && es[k].to == w[i];
        assert(g.has_jump(es[k].from, es[k].to));
        let (u1, v1) = choose|u1: int, v1: int| 0 <= u1 < g.names@.len() && 0 <= v1 < g.names@.len()
            && g.names@[u1]@ == es[k].from && g.names@[v1]@ == es[k].to && #[trigger] g.succ@[u1]@.contains(v1 as usize);
        assert(u1 == u);
        let j = choose|j: int| 0 <= j < g.succ@[u1]@.len() && g.succ@[u1]@[j] == v1 as usize;
        assert(m[g.succ@[u]@[j] as int] == 2 && rank[g.succ@[u]@[j] as int] < rank[u]);
        assert(g.names@[v1]@ == w[i]);
        assert(m[v1] == 2 && rank[v1] <= rank[u0] - i);
    } else {
        assert(g.names@[u0]@ == w[0]);
    }
}

proof fn lemma_no_cycle(g: &ChapterGraph, es: Seq<EdgeView>, roots: Set<Seq<char>>, m: Seq<u8>, rank: Seq<int>)
    requires
        g.graph_of(es),
        marks_ok(m, g.names@.len() as int),
        black_closed(g, m, rank),
        forall|x: Seq<char>| #[trigger] roots.contains(x) ==> exists|u: int| 0 <= u < g.names@.len() && m[u] == 2 && g.names@[u]@ == x,
    ensures
        acyclic_from(roots, es),
{
    let n = g.names@.len();
    let b = Set::new(|x: Seq<char>| exists|u: int| 0 <= u < n && m[u] == 2 && #[trigger] g.names@[u]@ == x);
    assert forall|a: Seq<char>, c: Seq<char>| b.contains(a) && #[trigger] has_edge(es, a, c) implies b.contains(c) by {
        let u = choose|u: int| 0 <= u < n && m[u] == 2 && #[trigger] g.names@[u]@ == a;
        let k = choose|k: int| 0 <= k < es.len() && !es[k].is_end && es[k].from == a && es[k].to == c;
        assert(g.has_jump(es[k].from, es[k].to));
        let (u1, v1) = choose|u1: int, v1: int| 0 <= u1 < n && 0 <= v1 < n
            && g.names@[u1]@ == es[k].from && g.names@[v1]@ == es[k].to && #[trigger] g.succ@[u1]@.contains(v1 as usize);
        assert(u1 == u);
        let j = choose|j: int| 0 <= j < g.succ@[u1]@.len() && g.succ@[u1]@[j] == v1 as usize;
        assert(m[g.succ@[u]@[j] as int] == 2);
        assert(g.names@[v1]@ == c);
    }
    assert(closed_under(b, es));
    assert forall|x: Seq<char>| roots.contains(x) implies b.contains(x) by {
        let u = choose|u: int| 0 <= u < n && m[u] == 2 && g.names@[u]@ == x;
        assert(g.names@[u]@ == x);
    }
    assert forall|w: Seq<Seq<char>>| #[trigger] is_cycle(w, es) implies !reaches(roots, es, w[0]) by {
        if reaches(roots, es, w[0]) {
            assert(b.contains(w[0]));
            let u0 = choose|u: int| 0 <= u < n && m[u] == 2 && #[trigger] g.names@[u]@ == w[0];
            lemma_black_rank_walk(g, es, m, rank, w, u0, w.len() - 1);
            let u = choose|u: int| 0 <= u < n && m[u] == 2 && #[trigger] g.names@[u]@ == w[w.len() - 1] && rank[u] <= rank[u0] - (w.len() - 1);
            assert(u == u0);
        }
    }
}

/// The search over the chapters, from the `k`-th on: a depth-first search
/// from each chapter not yet visited, in order, until one finds a cycle.
pub open spec fn find_from(succ: Seq<Seq<usize>>, starts: Seq<int>, k: nat, m: Seq<u8>) -> Option<Seq<usize>>
    decreases starts.len() - k,
{
    if k >= starts.len() {
        None
    } else {
        let u = starts[k as int];
        if m[u] == 0 {
            let r = dfs_run(succ, count_white(m), u as usize, m, Seq::empty());
            match r.0 {
                Some(c) => Some(c),
                None => find_from(succ, starts, k + 1, r.1),
            }
        } else {
            find_from(succ, starts, k + 1, m)
        }
    }
}

/// The node of each chapter.
pub open spec fn chapter_starts(names: Seq<Seq<char>>, cs: Seq<Seq<char>>) -> Seq<int> {
    cs.map_values(|x: Seq<char>| name_idx(names, x))
}

/// The names along an index walk.
pub open spec fn cycle_names(names: Seq<Seq<char>>, c: Seq<usize>) -> Seq<Seq<char>> {
    c.map_values(|u: usize| names[u as int])
}

/// The cycle the graph check reports, if any: the first one a depth-first
/// search finds, starting from the chapters in their order (skipping those
/// already visited) and following the jumps of each chapter in edge order;
/// it runs from the node the closing jump returns to, round to that node
/// again.
pub open spec fn first_cycle(cs: Seq<Seq<char>>, es: Seq<EdgeView>) -> Option<Seq<Seq<char>>> {
    let ns = graph_names(cs, es);
    match find_from(graph_succ(cs, es), chapter_starts(ns, cs), 0, Seq::new(ns.len(), |u: int| 0u8)) {
        Some(c) => Some(cycle_names(ns, c)),
        None => None,
    }
}

/// Some black node is named `x`.
pub open spec fn black_named(g: &ChapterGraph, m: Seq<u8>, x: Seq<char>) -> bool {
    exists|u: int| 0 <= u < g.names@.len() && m[u] == 2 && #[trigger] g.names@[u]@ == x
}

/// The first cycle that a depth-first search finds, starting from the
/// chapters in their order and following jumps in edge order.
fn find_cycle(g: &ChapterGraph, chapters: &Vec<String>, Ghost(es): Ghost<Seq<EdgeView>>) -> (r: Option<Vec<String>>)
    requires
        g.graph_of(es),
        forall|i: int| 0 <= i < chapters@.len() ==> named(g.names@, #[trigger] chapters@[i]@),
    ensures
        match r {
            Some(c) => is_cycle(views(c@), es) && reaches(views(chapters@).to_set(), es, c@[0]@),
            None => acyclic_from(views(chapters@).to_set(), es),
        },
        match find_from(succ_view(g), chapter_starts(views(g.names@), views(chapters@)), 0, Seq::new(g.names@.len(), |u: int| 0u8)) {
            Some(c) => r is Some && views(r->0@) == cycle_names(views(g.names@), c),
            None => r is None,
        },
{
    let ghost roots = views(chapters@).to_set();
    let ghost sv = succ_view(g);
    let ghost starts = chapter_starts(views(g.names@), views(chapters@));
    let n = g.names.len();
    let mut mark: Vec<u8> = Vec::new();
    while mark.len() < n
        invariant
            mark@.len() <= n,
            n == g.names@.len(),
            forall|u: int| 0 <= u < mark@.len() ==> mark@[u] == 0,
        decreases n - mark@.len(),
    {
        mark.push(0);
    }
    let mut path: Vec<usize> = Vec::new();
    let ghost whole = find_from(sv, starts, 0, Seq::new(g.names@.len(), |u: int| 0u8));
    proof {
        assert(mark@ =~= Seq::new(g.names@.len(), |u: int| 0u8));
    }
    let ghost mut rank = Seq::new(n as nat, |u: int| 0int);
    let ghost mut clock = 0int;
    let mut i: usize = 0;
    while i < chapters.len()
        invariant
            g.graph_of(es),
            shape_ok(g),
            n == g.names@.len(),
            roots == views(chapters@).to_set(),
            forall|i2: int| 0 <= i2 < chapters@.len() ==> named(g.names@, #[trigger] chapters@[i2]@),
            i <= chapters@.len(),
            marks_ok(mark@, n as int),
            path@ == Seq::<usize>::empty(),
            gray_is_path(mark@, path@),
            rank.len() == n,
            black_closed(g, mark@, rank),
            ranks_below(mark@, rank, clock),
            seen_reached(g, mark@, roots, es),
            forall|i2: int| 0 <= i2 < i ==> black_named(g, mark@, #[trigger] chapters@[i2]@),
            sv == succ_view(g),
            starts == chapter_starts(views(g.names@), views(chapters@)),
            whole == find_from(sv, starts, 0, Seq::new(g.names@.len(), |u: int| 0u8)),
            whole == find_from(sv, starts, i as nat, mark@),
        decreases chapters@.len() - i,
    {
        let ghost m0 = mark@;
        match position_of(&g.names, chapters[i].as_str()) {
            Some(u) => {
                proof {
                    lemma_name_idx(g.names@, u as int);
                    assert(views(chapters@)[i as int] == chapters@[i as int]@);
                    assert(starts[i as int] == u as int);
                }
                if mark[u] == 0 {
                    proof {
                        assert(views(chapters@)[i as int] == chapters@[i as int]@);
                        assert(roots.contains(g.names@[u as int]@));
                    }
                    let ghost fuel: nat = count_white(mark@);
                    let (res, Ghost(r2), Ghost(c2)) = dfs(g, u, &mut mark, &mut path, Ghost(rank), Ghost(clock), Ghost(roots), Ghost(es), Ghost(fuel));
                    match res {
                        Some(c) => {
                            proof {
                                lemma_cycle_names(g, es, c@);
                            }
                            let mut out: Vec<String> = Vec::new();
                            let mut k: usize = 0;
                            while k < c.len()
                                invariant
                                    k <= c@.len(),
                                    shape_ok(g),
                                    idx_cycle(g, c@),
                                    out@.len() == k,
                                    views(out@) == names_of(g, c@).subrange(0, k as int),
                                decreases c@.len() - k,
                            {
                                let name = owned(g.names[c[k]].as_str());
                                let ghost out0 = out@;
                                out.push(name);
                                proof {
                                    assert(out@[k as int] == name);
                                    assert(views(out@)[k as int] == g.names@[c@[k as int] as int]@);
                                    assert forall|j: int| 0 <= j < k implies views(out@)[j] == views(out0)[j] by {
                                        assert(out@[j] == out0[j]);
                                    }
                                    assert(views(out@) =~= names_of(g, c@).subrange(0, k + 1));
                                }
                                k = k + 1;
                            }
                            proof {
                                assert(views(out@) =~= names_of(g, c@));
                                assert(whole == Some(c@));
                                assert(names_of(g, c@) =~= cycle_names(views(g.names@), c@));
                            }
                            return Some(out);
                        },
                        None => {},
                    }
                    proof {
                        assert forall|i2: int| 0 <= i2 < i + 1 implies black_named(g, mark@, #[trigger] chapters@[i2]@) by {
                            if i2 < i {
                                let u2 = choose|u2: int| 0 <= u2 < n && m0[u2] == 2 && #[trigger] g.names@[u2]@ == chapters@[i2]@;
                                assert(mark@[u2] == 2);
                                assert(g.names@[u2]@ == chapters@[i2]@);
                            } else {
                                assert(g.names@[u as int]@ == chapters@[i2]@);
                                assert(mark@[u as int] == 2);
                            }
                        }
                        rank = r2;
                        clock = c2;
                    }
                } else {
                    proof {
                        assert(mark@[u as int] != 1);
                        assert(g.names@[u as int]@ == chapters@[i as int]@);
                    }
                }
            },
            None => {
                proof {
                    let u = choose|u: int| 0 <= u < g.names@.len() && #[trigger] g.names@[u]@ == chapters@[i as int]@;
                    assert(g.names@[u]@ != chapters@[i as int]@);
                }
            },
        }
        i = i + 1;
    }
    proof {
        assert forall|x: Seq<char>| #[trigger] roots.contains(x) implies exists|u: int| 0 <= u < n && mark@[u] == 2 && g.names@[u]@ == x by {
            let i2 = choose|i2: int| 0 <= i2 < views(chapters@).len() && views(chapters@)[i2] == x;
            assert(views(chapters@)[i2] == chapters@[i2]@);
            let u = choose|u: int| 0 <= u < n && mark@[u] == 2 && #[trigger] g.names@[u]@ == chapters@[i2]@;
        }
        lemma_no_cycle(g, es, roots, mark@, rank);
    }
    None
}

// ---------- the graph check ----------

pub const MSG_UNREACHABLE_HEAD: &'static str = "章节「";
pub const MSG_UNREACHABLE_INBOUND: &'static str = "」虽然有别的章节指向它，但从开场章节走不到那些章节，玩家永远到不了这里";
pub const MSG_UNREACHABLE_ORPHAN: &'static str = "」没有任何章节指向它，玩家永远走不到";
pub const MSG_CYCLE_HEAD: &'static str = "章节之间存在循环：";
pub const MSG_CYCLE_SEP: &'static str = " → ";
pub const MSG_CYCLE_TAIL: &'static str = "。引擎没有循环检测，玩家可能被困在里面出不来";

/// The message for a chapter the intro does not reach.
pub open spec fn unreachable_msg(c: Seq<char>, inbound: bool) -> Seq<char> {
    MSG_UNREACHABLE_HEAD@ + c + if inbound { MSG_UNREACHABLE_INBOUND@ } else { MSG_UNREACHABLE_ORPHAN@ }
}

/// The message for a loop of jumps.
pub open spec fn cycle_msg(w: Seq<Seq<char>>) -> Seq<char> {
    MSG_CYCLE_HEAD@ + join(w, MSG_CYCLE_SEP@) + MSG_CYCLE_TAIL@
}

/// One warning, in chapter order, for each chapter that the intro does not reach.
pub open spec fn unreachable_diags(intro: Seq<char>, cs: Seq<Seq<char>>, es: Seq<EdgeView>) -> Seq<DiagView>
    decreases cs.len(),
{
    if cs.len() == 0 {
        Seq::empty()
    } else {
        let prev = unreachable_diags(intro, cs.drop_last(), es);
        let c = cs.last();
        if reaches(set![intro], es, c) {
            prev
        } else {
            prev.push(chapter_diag(Severity::Warn, "graph.unreachable"@, c, unreachable_msg(c, has_inbound(es, c))))
        }
    }
}

/// What the graph check adds to `d0`: the unreachable chapters, then one
/// warning naming the loop of jumps that `first_cycle` finds (a loop through
/// a chapter), if there is one; when there is none, no loop of jumps passes
/// through a chapter.
pub open spec fn graph_checked(intro: Seq<char>, cs: Seq<Seq<char>>, es: Seq<EdgeView>, d0: Seq<DiagView>, d1: Seq<DiagView>) -> bool {
    let base = d0 + unreachable_diags(intro, cs, es);
    match first_cycle(cs, es) {
        None => d1 == base && acyclic_from(cs.to_set(), es),
        Some(w) => is_cycle(w, es) && reaches(cs.to_set(), es, w[0])
            && d1 == base.push(script_diag(Severity::Warn, "graph.cycle"@, cycle_msg(w))),
    }
}

/// Whether some jump leads to `c`.
fn has_inbound_exec(edges: &Vec<ChapterEdge>, c: &str) -> (r: bool)
    ensures
        r == has_inbound(eviews(edges@), c@),
{
    let mut k: usize = 0;
    while k < edges.len()
        invariant
            k <= edges@.len(),
            forall|k2: int| 0 <= k2 < k ==> !(!edges@[k2].is_end && edges@[k2].to@ == c@),
        decreases edges@.len() - k,
    {
        if !edges[k].is_end && str_eq(edges[k].to.as_str(), c) {
            assert(eviews(edges@)[k as int] == edges@[k as int]@);
            return true;
        }
        k = k + 1;
    }
    proof {
        if has_inbound(eviews(edges@), c@) {
            let k2 = choose|k2: int| 0 <= k2 < eviews(edges@).len() && !eviews(edges@)[k2].is_end && eviews(edges@)[k2].to == c@;
            assert(eviews(edges@)[k2] == edges@[k2]@);
        }
    }
    false
}

/// Reachability from the intro chapter, orphan chapters and loops of jumps.
pub fn check_graph(intro: &str, chapters: &Vec<String>, edges: &Vec<ChapterEdge>, diags: &mut Vec<Diagnostic>)
    ensures
        graph_checked(intro@, views(chapters@), eviews(edges@), dviews(old(diags)@), dviews(final(diags)@)),
{
    let ghost es = eviews(edges@);
    let ghost cs = views(chapters@);
    let ghost d0 = dviews(diags@);
    let g = build_graph(chapters, edges);
    let marks = reach_marks(&g, intro, Ghost(es));
    let mut i: usize = 0;
    while i < chapters.len()
        invariant
            i <= chapters@.len(),
            es == eviews(edges@),
            cs == views(chapters@),
            g.graph_of(es),
            marks@.len() == g.names@.len(),
            forall|u: int| 0 <= u < g.names@.len() ==> (#[trigger] marks@[u] <==> reaches(set![intro@], es, g.names@[u]@)),
            forall|i2: int| 0 <= i2 < chapters@.len() ==> named(g.names@, #[trigger] chapters@[i2]@),
            dviews(diags@) == d0 + unreachable_diags(intro@, cs.subrange(0, i as int), es),
        decreases chapters@.len() - i,
    {
        let ghost before = dviews(diags@);
        proof {
            assert(cs.subrange(0, i + 1).drop_last() =~= cs.subrange(0, i as int));
            assert(cs.subrange(0, i + 1).last() == chapters@[i as int]@);
        }
        match position_of(&g.names, chapters[i].as_str()) {
            Some(u) => {
                if !marks[u] {
                    let c = chapters[i].as_str();
                    let msg = if has_inbound_exec(edges, c) {
                        cat3(MSG_UNREACHABLE_HEAD, c, MSG_UNREACHABLE_INBOUND)
                    } else {
                        cat3(MSG_UNREACHABLE_HEAD, c, MSG_UNREACHABLE_ORPHAN)
                    };
                    let d = Diagnostic::chapter(Severity::Warn, "graph.unreachable", c, msg);
                    let ghost dd = diags@;
                    diags.push(d);
                    proof {
                        lemma_dviews_push(dd, d);
                        assert(dviews(diags@) =~= d0 + unreachable_diags(intro@, cs.subrange(0, i + 1), es));
                    }
                }
            },
            None => {
                proof {
                    let u = choose|u: int| 0 <= u < g.names@.len() && #[trigger] g.names@[u]@ == chapters@[i as int]@;
                    assert(g.names@[u]@ != chapters@[i as int]@);
                }
            },
        }
        i = i + 1;
    }
    proof {
        assert(cs.subrange(0, chapters@.len() as int) =~= cs);
    }
    match find_cycle(&g, chapters, Ghost(es)) {
        Some(c) => {
            let joined = join_strings(&c, MSG_CYCLE_SEP);
            let msg = cat3(MSG_CYCLE_HEAD, joined.as_str(), MSG_CYCLE_TAIL);
            let d = Diagnostic::script(Severity::Warn, "graph.cycle", msg);
            let ghost dd = diags@;
            diags.push(d);
            proof {
                lemma_dviews_push(dd, d);
                assert(is_cycle(views(c@), es));
            }
        },
        None => {},
    }
}

} // verus!
