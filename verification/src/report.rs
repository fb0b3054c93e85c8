//! The validation report: ordered diagnostics, their counts, the variables and
//! the chapter edges.
use vstd::prelude::*;
use crate::diag::{Diagnostic, DiagView, Severity, dviews, before, chapter_lt, opt_view, insert_sorted, stable_sort, count_sev, rank, report_sorted, lemma_stable_sort};
use crate::strset::{lex_lt, lex_lt_exec};

verus! {

/// One edge of the chapter graph, derived from a chapter's `chapter_end`.
#[derive(Debug, Clone)]
pub struct ChapterEdge {
    pub from: String,
    /// Target chapter id; `"end"` ends the script.
    pub to: String,
    /// Whether this is the explicit end of the script.
    pub is_end: bool,
    /// Branch condition or AI branch name; empty for linear ends.
    pub label: String,
    /// The end type of the chapter the edge belongs to.
    pub end_type: String,
}

/// The mathematical content of an edge.
pub struct EdgeView {
    pub from: Seq<char>,
    pub to: Seq<char>,
    pub is_end: bool,
    pub label: Seq<char>,
    pub end_type: Seq<char>,
}

impl View for ChapterEdge {
    type V = EdgeView;

    open spec fn view(&self) -> EdgeView {
        EdgeView {
            from: self.from@,
            to: self.to@,
            is_end: self.is_end,
            label: self.label@,
            end_type: self.end_type@,
        }
    }
}

pub open spec fn eviews(s: Seq<ChapterEdge>) -> Seq<EdgeView> {
    s.map_values(|e: ChapterEdge| e@)
}

pub proof fn lemma_eviews_push(s: Seq<ChapterEdge>, e: ChapterEdge)
    ensures
        eviews(s.push(e)) == eviews(s).push(e@),
{
    assert(eviews(s.push(e)) =~= eviews(s).push(e@));
}

/// The outcome of validating a script package.
#[derive(Debug, Clone)]
pub struct ValidationReport {
    pub diagnostics: Vec<Diagnostic>,
    pub error_count: usize,
    pub warn_count: usize,
    pub info_count: usize,
    /// Every variable name seen, sorted.
    pub variables: Vec<String>,
    /// Chapter jump edges.
    pub edges: Vec<ChapterEdge>,
}

fn opt_lex_lt(a: &Option<String>, b: &Option<String>) -> (r: bool)
    ensures
        r == chapter_lt(opt_view(*a), opt_view(*b)),
{
    match (a, b) {
        (None, Some(_)) => true,
        (Some(x), Some(y)) => lex_lt_exec(x.as_str(), y.as_str()),
        _ => false,
    }
}

fn opt_eq(a: &Option<String>, b: &Option<String>) -> (r: bool)
    ensures
        r == (opt_view(*a) == opt_view(*b)),
{
    match (a, b) {
        (None, None) => true,
        (Some(x), Some(y)) => crate::text::str_eq(x.as_str(), y.as_str()),
        _ => false,
    }
}

/// Whether `a` comes strictly before `b` in the report.
pub fn comes_before(a: &Diagnostic, b: &Diagnostic) -> (r: bool)
    ensures
        r == before(a@, b@),
{
    let ra = a.severity.rank();
    let rb = b.severity.rank();
    if ra != rb {
        return ra < rb;
    }
    if opt_lex_lt(&a.chapter, &b.chapter) {
        return true;
    }
    if !opt_eq(&a.chapter, &b.chapter) {
        return false;
    }
    match (a.event_index, b.event_index) {
        (None, Some(_)) => true,
        (Some(x), Some(y)) => x < y,
        _ => false,
    }
}

proof fn lemma_insert_at(s: Seq<DiagView>, x: DiagView, p: int)
    requires
        0 <= p <= s.len(),
        forall|j: int| p <= j < s.len() ==> before(x, #[trigger] s[j]),
        p == 0 || !before(x, s[p - 1]),
    ensures
        insert_sorted(s, x) == s.subrange(0, p).push(x) + s.subrange(p, s.len() as int),
    decreases s.len() - p,
{
    if s.len() == 0 {
        assert(s.subrange(0, 0).push(x) + s.subrange(0, 0) =~= seq![x]);
    } else if p == s.len() {
        assert(!before(x, s.last()));
        assert(s.subrange(0, p).push(x) + s.subrange(p, s.len() as int) =~= s.push(x));
    } else {
        assert(before(x, s.last()));
        let t = s.drop_last();
        lemma_insert_at(t, x, p);
        assert(insert_sorted(s, x) == insert_sorted(t, x).push(s.last()));
        assert(t.subrange(0, p).push(x) + t.subrange(p, t.len() as int) + seq![s.last()]
            =~= s.subrange(0, p).push(x) + s.subrange(p, s.len() as int));
    }
}

/// Orders diagnostics stably: errors first, then warnings, then infos; within a
/// severity by chapter, then by event index.
pub fn sort_diagnostics(diags: Vec<Diagnostic>) -> (r: Vec<Diagnostic>)
    ensures
        dviews(r@) == stable_sort(dviews(diags@)),
{
    let mut src = diags;
    let ghost orig = dviews(src@);
    let mut out: Vec<Diagnostic> = Vec::new();
    let ghost mut taken: int = 0;
    proof {
        assert(dviews(src@) =~= orig.subrange(0, orig.len() as int));
        assert(dviews(out@) =~= stable_sort(orig.subrange(0, 0)));
    }
    while src.len() > 0
        invariant
            0 <= taken <= orig.len(),
            dviews(src@) == orig.subrange(taken, orig.len() as int),
            dviews(out@) == stable_sort(orig.subrange(0, taken)),
        decreases src@.len(),
    {
        let ghost old_src = src@;
        proof {
            assert(dviews(old_src).len() == old_src.len());
            assert(taken < orig.len());
            assert(dviews(old_src)[0] == orig[taken]);
        }
        let d = src.remove(0);
        proof {
            assert(d@ == dviews(old_src)[0]);
            assert(dviews(src@) =~= dviews(old_src).subrange(1, old_src.len() as int));
            assert(dviews(src@) =~= orig.subrange(taken + 1, orig.len() as int));
        }
        let mut p = out.len();
        while p > 0 && comes_before(&d, &out[p - 1])
            invariant
                p <= out@.len(),
                forall|j: int| p <= j < out@.len() ==> before(d@, #[trigger] dviews(out@)[j]),
            decreases p,
        {
            p = p - 1;
        }
        let ghost s = dviews(out@);
        proof {
            lemma_insert_at(s, d@, p as int);
        }
        out.insert(p, d);
        proof {
            assert(dviews(out@) =~= s.subrange(0, p as int).push(d@) + s.subrange(p as int, s.len() as int));
            let pre = orig.subrange(0, taken + 1);
            assert(pre.drop_last() =~= orig.subrange(0, taken));
            assert(pre.last() == d@);
            taken = taken + 1;
        }
    }
    proof {
        assert(orig.subrange(0, orig.len() as int) =~= orig);
    }
    out
}

/// Counts the diagnostics of each severity.
pub fn count_severities(diags: &Vec<Diagnostic>) -> (r: (usize, usize, usize))
    ensures
        r.0 == count_sev(dviews(diags@), Severity::Error),
        r.1 == count_sev(dviews(diags@), Severity::Warn),
        r.2 == count_sev(dviews(diags@), Severity::Info),
{
    let mut e: usize = 0;
    let mut w: usize = 0;
    let mut n: usize = 0;
    let mut i: usize = 0;
    while i < diags.len()
        invariant
            i <= diags@.len(),
            e + w + n == i,
            e == count_sev(dviews(diags@.subrange(0, i as int)), Severity::Error),
            w == count_sev(dviews(diags@.subrange(0, i as int)), Severity::Warn),
            n == count_sev(dviews(diags@.subrange(0, i as int)), Severity::Info),
        decreases diags@.len() - i,
    {
        let ghost s = dviews(diags@.subrange(0, i + 1));
        proof {
            assert(s.drop_last() =~= dviews(diags@.subrange(0, i as int)));
            assert(s.last() == diags@[i as int]@);
        }
        match diags[i].severity {
            Severity::Error => { e = e + 1; },
            Severity::Warn => { w = w + 1; },
            Severity::Info => { n = n + 1; },
        }
        i = i + 1;
    }
    assert(diags@.subrange(0, i as int) =~= diags@);
    (e, w, n)
}

/// What `finish` reports for a list of diagnostics.
pub open spec fn finished(diags: Seq<DiagView>, r: ValidationReport) -> bool {
    &&& dviews(r.diagnostics@) == stable_sort(diags)
    &&& r.error_count == count_sev(stable_sort(diags), Severity::Error)
    &&& r.warn_count == count_sev(stable_sort(diags), Severity::Warn)
    &&& r.info_count == count_sev(stable_sort(diags), Severity::Info)
}

/// Sorts the diagnostics and counts them per severity.
pub fn finish(diags: Vec<Diagnostic>, variables: Vec<String>, edges: Vec<ChapterEdge>) -> (r: ValidationReport)
    ensures
        finished(dviews(diags@), r),
        r.variables@ == variables@,
        r.edges@ == edges@,
{
    let sorted = sort_diagnostics(diags);
    let (error_count, warn_count, info_count) = count_severities(&sorted);
    ValidationReport { diagnostics: sorted, error_count, warn_count, info_count, variables, edges }
}

proof fn lemma_count_total(s: Seq<DiagView>)
    ensures
        count_sev(s, Severity::Error) + count_sev(s, Severity::Warn) + count_sev(s, Severity::Info) == s.len(),
    decreases s.len(),
{
    if s.len() > 0 {
        lemma_count_total(s.drop_last());
    }
}

/// The report lists errors before warnings before infos (and within a
/// severity orders by chapter then event), keeps every diagnostic, and its
/// three counts add up to the number of diagnostics.
pub proof fn law_report_order_and_counts(diags: Seq<DiagView>, r: ValidationReport)
    requires
        finished(diags, r),
    ensures
        report_sorted(dviews(r.diagnostics@)),
        dviews(r.diagnostics@).to_multiset() == diags.to_multiset(),
        r.error_count + r.warn_count + r.info_count == r.diagnostics@.len(),
        forall|i: int, j: int| 0 <= i < j < r.diagnostics@.len() ==>
            rank(r.diagnostics@[i].severity) <= rank(r.diagnostics@[j].severity),
{
    lemma_stable_sort(diags);
    lemma_count_total(stable_sort(diags));
    assert forall|i: int, j: int| 0 <= i < j < r.diagnostics@.len() implies
        rank(r.diagnostics@[i].severity) <= rank(r.diagnostics@[j].severity) by {
        assert(!before(dviews(r.diagnostics@)[j], dviews(r.diagnostics@)[i]));
    }
}

} // verus!
