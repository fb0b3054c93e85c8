//! Diagnostics reported by the script validator, and the report that orders and
//! counts them.
use vstd::prelude::*;
use crate::strset::lex_lt;

verus! {

/// How serious a diagnostic is.
#[derive(Debug, Clone, Copy, PartialEq, Eq, Structural)]
pub enum Severity {
    Error,
    Warn,
    Info,
}

/// Sort weight: errors first, then warnings, then infos.
pub open spec fn rank(s: Severity) -> int {
    match s {
        Severity::Error => 0,
        Severity::Warn => 1,
        Severity::Info => 2,
    }
}

impl Severity {
    /// Sort weight: errors first.
    pub fn rank(self) -> (r: u8)
        ensures
            r as int == rank(self),
    {
        match self {
            Severity::Error => 0,
            Severity::Warn => 1,
            Severity::Info => 2,
        }
    }
}

/// One finding of the validator.
#[derive(Debug, Clone)]
pub struct Diagnostic {
    pub severity: Severity,
    /// Stable machine-readable code.
    pub code: &'static str,
    pub message: String,
    /// Chapter id; `None` for script-level findings.
    pub chapter: Option<String>,
    /// Index of the event in the chapter, from 0.
    pub event_index: Option<usize>,
    pub field: Option<String>,
}

/// The mathematical content of a diagnostic.
pub struct DiagView {
    pub severity: Severity,
    pub code: Seq<char>,
    pub message: Seq<char>,
    pub chapter: Option<Seq<char>>,
    pub event_index: Option<usize>,
    pub field: Option<Seq<char>>,
}

pub open spec fn opt_view(o: Option<String>) -> Option<Seq<char>> {
    match o {
        Some(s) => Some(s@),
        None => None,
    }
}

impl View for Diagnostic {
    type V = DiagView;

    open spec fn view(&self) -> DiagView {
        DiagView {
            severity: self.severity,
            code: self.code@,
            message: self.message@,
            chapter: opt_view(self.chapter),
            event_index: self.event_index,
            field: opt_view(self.field),
        }
    }
}

/// The views of a list of diagnostics.
pub open spec fn dviews(s: Seq<Diagnostic>) -> Seq<DiagView> {
    s.map_values(|d: Diagnostic| d@)
}

pub proof fn lemma_dviews_push(s: Seq<Diagnostic>, d: Diagnostic)
    ensures
        dviews(s.push(d)) == dviews(s).push(d@),
{
    assert(dviews(s.push(d)) =~= dviews(s).push(d@));
}

/// A script-level diagnostic.
pub open spec fn script_diag(sev: Severity, code: Seq<char>, msg: Seq<char>) -> DiagView {
    DiagView { severity: sev, code, message: msg, chapter: None, event_index: None, field: None }
}

/// A chapter-level diagnostic.
pub open spec fn chapter_diag(sev: Severity, code: Seq<char>, cid: Seq<char>, msg: Seq<char>) -> DiagView {
    DiagView { severity: sev, code, message: msg, chapter: Some(cid), event_index: None, field: None }
}

/// An event-level diagnostic.
pub open spec fn event_diag(sev: Severity, code: Seq<char>, cid: Seq<char>, i: usize, msg: Seq<char>) -> DiagView {
    DiagView { severity: sev, code, message: msg, chapter: Some(cid), event_index: Some(i), field: None }
}

/// `d` with its field set.
pub open spec fn with_field(d: DiagView, f: Seq<char>) -> DiagView {
    DiagView { field: Some(f), ..d }
}

impl Diagnostic {
    pub fn script(severity: Severity, code: &'static str, message: String) -> (d: Diagnostic)
        ensures
            d@ == script_diag(severity, code@, message@),
    {
        Diagnostic { severity, code, message, chapter: None, event_index: None, field: None }
    }

    pub fn chapter(severity: Severity, code: &'static str, chapter: &str, message: String) -> (d: Diagnostic)
        ensures
            d@ == chapter_diag(severity, code@, chapter@, message@),
    {
        Diagnostic {
            severity,
            code,
            message,
            chapter: Some(crate::text::owned(chapter)),
            event_index: None,
            field: None,
        }
    }

    pub fn event(severity: Severity, code: &'static str, chapter: &str, index: usize, message: String) -> (d: Diagnostic)
        ensures
            d@ == event_diag(severity, code@, chapter@, index, message@),
    {
        Diagnostic {
            severity,
            code,
            message,
            chapter: Some(crate::text::owned(chapter)),
            event_index: Some(index),
            field: None,
        }
    }

    pub fn with_field(self, field: &str) -> (d: Diagnostic)
        ensures
            d@ == with_field(self@, field@),
    {
        Diagnostic { field: Some(crate::text::owned(field)), ..self }
    }
}

/// Ordering of chapters in the report: script-level first, then by id.
pub open spec fn chapter_lt(a: Option<Seq<char>>, b: Option<Seq<char>>) -> bool {
    match (a, b) {
        (None, Some(_)) => true,
        (Some(x), Some(y)) => lex_lt(x, y),
        _ => false,
    }
}

pub open spec fn index_lt(a: Option<usize>, b: Option<usize>) -> bool {
    match (a, b) {
        (None, Some(_)) => true,
        (Some(x), Some(y)) => x < y,
        _ => false,
    }
}

/// `a` comes strictly before `b` in the report order
/// (severity, then chapter, then event index).
pub open spec fn before(a: DiagView, b: DiagView) -> bool {
    ||| rank(a.severity) < rank(b.severity)
    ||| (rank(a.severity) == rank(b.severity) && chapter_lt(a.chapter, b.chapter))
    ||| (rank(a.severity) == rank(b.severity) && a.chapter == b.chapter && index_lt(a.event_index, b.event_index))
}

/// Stable insertion of `x` into `s`: after every element that does not come after it.
pub open spec fn insert_sorted(s: Seq<DiagView>, x: DiagView) -> Seq<DiagView>
    decreases s.len(),
{
    if s.len() == 0 {
        seq![x]
    } else if before(x, s.last()) {
        insert_sorted(s.drop_last(), x).push(s.last())
    } else {
        s.push(x)
    }
}

/// The stable sort of `s` by report order.
pub open spec fn stable_sort(s: Seq<DiagView>) -> Seq<DiagView>
    decreases s.len(),
{
    if s.len() == 0 {
        Seq::empty()
    } else {
        insert_sorted(stable_sort(s.drop_last()), s.last())
    }
}

/// No element comes strictly before an earlier one.
pub open spec fn report_sorted(s: Seq<DiagView>) -> bool {
    forall|i: int, j: int| 0 <= i < j < s.len() ==> !before(s[j], s[i])
}

/// Number of diagnostics of severity `sev`.
pub open spec fn count_sev(s: Seq<DiagView>, sev: Severity) -> nat
    decreases s.len(),
{
    if s.len() == 0 {
        0
    } else {
        count_sev(s.drop_last(), sev) + if s.last().severity == sev { 1nat } else { 0nat }
    }
}

proof fn lemma_option_lex_total(a: Option<Seq<char>>, b: Option<Seq<char>>)
    ensures
        chapter_lt(a, b) || chapter_lt(b, a) || a == b,
{
    match (a, b) {
        (Some(x), Some(y)) => {
            crate::strset::lemma_lex_total(x, y);
        },
        _ => {},
    }
}

proof fn lemma_chapter_lt_trans(a: Option<Seq<char>>, b: Option<Seq<char>>, c: Option<Seq<char>>)
    requires
        chapter_lt(a, b),
        chapter_lt(b, c),
    ensures
        chapter_lt(a, c),
{
    match (a, b, c) {
        (Some(x), Some(y), Some(z)) => {
            crate::strset::lemma_lex_trans(x, y, z);
        },
        _ => {},
    }
}

proof fn lemma_chapter_lt_irrefl(a: Option<Seq<char>>)
    ensures
        !chapter_lt(a, a),
{
    if let Some(x) = a {
        crate::strset::lemma_lex_irrefl(x);
    }
}

/// `before` is a strict weak order: irreflexive and transitive, with
/// incomparability transitive as well.
pub proof fn lemma_before_props(a: DiagView, b: DiagView, c: DiagView)
    ensures
        !before(a, a),
        before(a, b) && before(b, c) ==> before(a, c),
        !before(a, b) && !before(b, c) ==> !before(a, c),
{
    lemma_chapter_lt_irrefl(a.chapter);
    lemma_chapter_lt_irrefl(b.chapter);
    lemma_chapter_lt_irrefl(c.chapter);
    lemma_option_lex_total(a.chapter, b.chapter);
    lemma_option_lex_total(b.chapter, c.chapter);
    lemma_option_lex_total(a.chapter, c.chapter);
    if chapter_lt(a.chapter, b.chapter) && chapter_lt(b.chapter, c.chapter) {
        lemma_chapter_lt_trans(a.chapter, b.chapter, c.chapter);
    }
    if chapter_lt(c.chapter, b.chapter) && chapter_lt(b.chapter, a.chapter) {
        lemma_chapter_lt_trans(c.chapter, b.chapter, a.chapter);
    }
    if chapter_lt(a.chapter, c.chapter) && chapter_lt(c.chapter, b.chapter) {
        lemma_chapter_lt_trans(a.chapter, c.chapter, b.chapter);
    }
    if chapter_lt(b.chapter, a.chapter) && chapter_lt(a.chapter, c.chapter) {
        lemma_chapter_lt_trans(b.chapter, a.chapter, c.chapter);
    }
    if chapter_lt(c.chapter, a.chapter) && chapter_lt(a.chapter, b.chapter) {
        lemma_chapter_lt_trans(c.chapter, a.chapter, b.chapter);
    }
    if chapter_lt(b.chapter, c.chapter) && chapter_lt(c.chapter, a.chapter) {
        lemma_chapter_lt_trans(b.chapter, c.chapter, a.chapter);
    }
    if chapter_lt(a.chapter, b.chapter) && chapter_lt(b.chapter, a.chapter) {
        lemma_chapter_lt_trans(a.chapter, b.chapter, a.chapter);
    }
    if chapter_lt(b.chapter, c.chapter) && chapter_lt(c.chapter, b.chapter) {
        lemma_chapter_lt_trans(b.chapter, c.chapter, b.chapter);
    }
    if chapter_lt(a.chapter, c.chapter) && chapter_lt(c.chapter, a.chapter) {
        lemma_chapter_lt_trans(a.chapter, c.chapter, a.chapter);
    }
}

proof fn lemma_insert_sorted_props(s: Seq<DiagView>, x: DiagView)
    requires
        report_sorted(s),
    ensures
        report_sorted(insert_sorted(s, x)),
        insert_sorted(s, x).len() == s.len() + 1,
        insert_sorted(s, x).to_multiset() == s.to_multiset().insert(x),
        forall|k: int| 0 <= k < insert_sorted(s, x).len() ==>
            (insert_sorted(s, x)[k] == x || s.contains(insert_sorted(s, x)[k])),
    decreases s.len(),
{
    broadcast use vstd::seq_lib::group_to_multiset_ensures;
    if s.len() == 0 {
        assert(insert_sorted(s, x) =~= seq![x]);
        assert(seq![x] =~= Seq::<DiagView>::empty().push(x));
    } else if before(x, s.last()) {
        let t = s.drop_last();
        assert(report_sorted(t));
        lemma_insert_sorted_props(t, x);
        let r = insert_sorted(t, x);
        let out = r.push(s.last());
        assert(s =~= t.push(s.last()));
        assert forall|i: int, j: int| 0 <= i < j < out.len() implies !before(out[j], out[i]) by {
            if j == out.len() - 1 {
                // out[i] is x or an element of t
                lemma_before_props(out[j], out[i], out[i]);
                if out[i] == x {
                    lemma_before_props(x, s.last(), x);
                } else {
                    let k = choose|k: int| 0 <= k < t.len() && t[k] == out[i];
                    assert(s[k] == t[k]);
                    assert(!before(s[s.len() - 1], s[k]));
                }
            }
        }
        assert(out.to_multiset() =~= s.to_multiset().insert(x)) by {
            assert(s.to_multiset() =~= t.to_multiset().insert(s.last()));
        }
        assert forall|k: int| 0 <= k < out.len() implies (out[k] == x || s.contains(out[k])) by {
            if k < r.len() {
                if r[k] != x {
                    let m = choose|m: int| 0 <= m < t.len() && t[m] == r[k];
                    assert(s[m] == t[m]);
                }
            } else {
                assert(s[s.len() - 1] == out[k]);
            }
        }
    } else {
        let out = s.push(x);
        assert forall|i: int, j: int| 0 <= i < j < out.len() implies !before(out[j], out[i]) by {
            if j == out.len() - 1 && i < s.len() {
                if i < s.len() - 1 {
                    assert(!before(s.last(), s[i]));
                    lemma_before_props(x, s.last(), s[i]);
                }
            }
        }
        assert forall|k: int| 0 <= k < out.len() implies (out[k] == x || s.contains(out[k])) by {
            if k < s.len() {
                assert(s[k] == out[k]);
            }
        }
    }
}

/// The stable sort is sorted and is a permutation of its input.
pub proof fn lemma_stable_sort(s: Seq<DiagView>)
    ensures
        report_sorted(stable_sort(s)),
        stable_sort(s).len() == s.len(),
        stable_sort(s).to_multiset() == s.to_multiset(),
    decreases s.len(),
{
    broadcast use vstd::seq_lib::group_to_multiset_ensures;
    if s.len() > 0 {
        lemma_stable_sort(s.drop_last());
        lemma_insert_sorted_props(stable_sort(s.drop_last()), s.last());
        assert(s =~= s.drop_last().push(s.last()));
    }
}

} // verus!
