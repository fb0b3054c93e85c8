//! The workshop: role cards shared as discussions, and what is read from
//! the Markdown of a card (its avatar image, its description, its tags).
use vstd::prelude::*;
use crate::text::{is_ws, is_ws_exec, trim, trim_str, occurs_at, string_of_range, chars_of};

verus! {

/// The category of a discussion.
#[derive(Debug, Clone)]
pub struct DiscussionCategory {
    pub name: String,
}

/// The author of a discussion.
#[derive(Debug, Clone)]
pub struct DiscussionAuthor {
    pub login: String,
}

/// A discussion of the workshop.
#[derive(Debug, Clone)]
pub struct Discussion {
    pub number: u64,
    pub title: String,
    pub body: String,
    pub html_url: String,
    pub category: DiscussionCategory,
    pub author: Option<DiscussionAuthor>,
    pub created_at: String,
    /// Upvotes (only the GraphQL API has them).
    pub upvotes: u64,
    pub has_upvotes: bool,
    /// 👍 reactions (what the REST API offers instead).
    pub reactions_upvotes: u64,
    /// The avatar image read from the body.
    pub avatar_url: Option<String>,
    /// The description read from the body.
    pub description: Option<String>,
    /// The tags read from the body.
    pub tags: Vec<String>,
}

// ---------- line ends ----------

/// `s` with each CRLF turned into LF (what `replace("\r\n", "\n")` gives).
pub open spec fn lf_only(s: Seq<char>) -> Seq<char>
    decreases s.len(),
{
    if s.len() == 0 {
        s
    } else if s.len() >= 2 && s[0] == '\r' && s[1] == '\n' {
        seq!['\n'] + lf_only(s.subrange(2, s.len() as int))
    } else {
        seq![s[0]] + lf_only(s.drop_first())
    }
}

fn lf_only_exec(v: &Vec<char>) -> (r: Vec<char>)
    ensures
        r@ == lf_only(v@),
{
    let mut out: Vec<char> = Vec::new();
    let mut i: usize = 0;
    assert(v@.subrange(0, v@.len() as int) =~= v@);
    assert(out@ + lf_only(v@) =~= lf_only(v@));
    while i < v.len()
        invariant
            i <= v@.len(),
            lf_only(v@) == out@ + lf_only(v@.subrange(i as int, v@.len() as int)),
        decreases v@.len() - i,
    {
        let ghost rest = v@.subrange(i as int, v@.len() as int);
        if i + 1 < v.len() && v[i] == '\r' && v[i + 1] == '\n' {
            assert(rest.subrange(2, rest.len() as int) =~= v@.subrange(i + 2, v@.len() as int));
            out.push('\n');
            i = i + 2;
        } else {
            assert(rest.drop_first() =~= v@.subrange(i + 1, v@.len() as int));
            out.push(v[i]);
            i = i + 1;
        }
        proof {
            assert(out@ + lf_only(v@.subrange(i as int, v@.len() as int)) =~= lf_only(v@)) by {
                assert(lf_only(v@) == out@.drop_last() + lf_only(rest));
            }
        }
    }
    assert(v@.subrange(v@.len() as int, v@.len() as int) =~= Seq::<char>::empty());
    assert(out@ + Seq::<char>::empty() =~= out@);
    out
}

// ---------- the avatar image ----------

/// The first position at or after `from` holding `c`.
pub open spec fn next_char(s: Seq<char>, from: int, c: char) -> Option<int>
    decreases s.len() - from,
{
    if from < 0 || from >= s.len() {
        None
    } else if s[from] == c {
        Some(from)
    } else {
        next_char(s, from + 1, c)
    }
}

/// The target of a Markdown image `![alt](target)` starting at `i`: the
/// alt text has no `]`, the target is not empty and has no `)`.
pub open spec fn image_at(s: Seq<char>, i: int) -> Option<Seq<char>> {
    if 0 <= i && i + 1 < s.len() && s[i] == '!' && s[i + 1] == '[' {
        match next_char(s, i + 2, ']') {
            Some(j) => if j + 1 < s.len() && s[j + 1] == '(' {
                match next_char(s, j + 2, ')') {
                    Some(k) => if k > j + 2 { Some(s.subrange(j + 2, k)) } else { None },
                    None => None,
                }
            } else {
                None
            },
            None => None,
        }
    } else {
        None
    }
}

/// The target of the first image at or after `from`.
pub open spec fn first_image_from(s: Seq<char>, from: int) -> Option<Seq<char>>
    decreases s.len() - from,
{
    if from < 0 || from >= s.len() {
        None
    } else {
        match image_at(s, from) {
            Some(t) => Some(t),
            None => first_image_from(s, from + 1),
        }
    }
}

proof fn lemma_next_char(s: Seq<char>, from: int, c: char)
    requires
        0 <= from,
    ensures
        next_char(s, from, c) matches Some(k) ==> from <= k < s.len() && s[k] == c
            && forall|m: int| from <= m < k ==> s[m] != c,
        next_char(s, from, c) is None ==> forall|m: int| from <= m < s.len() && 0 <= m ==> s[m] != c,
    decreases s.len() - from,
{
    if 0 <= from < s.len() && s[from] != c {
        lemma_next_char(s, from + 1, c);
    }
}

fn next_char_exec(v: &Vec<char>, from: usize, c: char) -> (r: Option<usize>)
    ensures
        match next_char(v@, from as int, c) {
            Some(k) => r == Some(k as usize),
            None => r is None,
        },
{
    let mut i = from;
    while i < v.len()
        invariant
            from <= i,
            next_char(v@, from as int, c) == next_char(v@, i as int, c),
        decreases v@.len() - i,
    {
        if v[i] == c {
            return Some(i);
        }
        i = i + 1;
    }
    None
}

fn image_at_exec(v: &Vec<char>, i: usize) -> (r: Option<(usize, usize)>)
    ensures
        match image_at(v@, i as int) {
            Some(t) => r matches Some((a, b)) && a <= b <= v@.len() && v@.subrange(a as int, b as int) == t,
            None => r is None,
        },
{
    if i < v.len() && i + 1 < v.len() && v[i] == '!' && v[i + 1] == '[' {
        proof { lemma_next_char(v@, i + 2, ']'); }
        match next_char_exec(v, i + 2, ']') {
            Some(j) => if j + 1 < v.len() && v[j + 1] == '(' {
                proof { lemma_next_char(v@, j + 2, ')'); }
                match next_char_exec(v, j + 2, ')') {
                    Some(k) => if k > j + 2 { Some((j + 2, k)) } else { None },
                    None => None,
                }
            } else {
                None
            },
            None => None,
        }
    } else {
        None
    }
}

/// The avatar of a card: the target of the first Markdown image in its body.
pub fn parse_avatar(body: &str) -> (r: Option<String>)
    ensures
        crate::diag::opt_view(r) == first_image_from(body@, 0),
{
    let v = chars_of(body);
    let mut i: usize = 0;
    while i < v.len()
        invariant
            v@ == body@,
            first_image_from(v@, 0) == first_image_from(v@, i as int),
        decreases v@.len() - i,
    {
        match image_at_exec(&v, i) {
            Some((a, b)) => { return Some(string_of_range(&v, a, b)); },
            None => {},
        }
        i = i + 1;
    }
    None
}

// ---------- sections ----------

/// The first position at or after `from` that is not whitespace (or the end).
pub open spec fn ws_end(s: Seq<char>, from: int) -> int
    decreases s.len() - from,
{
    if from < 0 || from >= s.len() || !is_ws(s[from]) {
        from
    } else {
        ws_end(s, from + 1)
    }
}

pub proof fn lemma_ws_end(s: Seq<char>, from: int)
    requires
        0 <= from <= s.len(),
    ensures
        from <= ws_end(s, from) <= s.len(),
        forall|m: int| from <= m < ws_end(s, from) ==> is_ws(#[trigger] s[m]),
        ws_end(s, from) < s.len() ==> !is_ws(s[ws_end(s, from)]),
    decreases s.len() - from,
{
    if from < s.len() && is_ws(s[from]) {
        lemma_ws_end(s, from + 1);
    }
}

fn ws_end_exec(v: &Vec<char>, from: usize) -> (r: usize)
    requires
        from <= v@.len(),
    ensures
        r as int == ws_end(v@, from as int),
{
    let mut i = from;
    while i < v.len() && is_ws_exec(v[i])
        invariant
            from <= i <= v@.len(),
            ws_end(v@, from as int) == ws_end(v@, i as int),
        decreases v@.len() - i,
    {
        i = i + 1;
    }
    i
}

/// The words as plain values.
pub open spec fn word_views(words: Seq<Vec<char>>) -> Seq<Seq<char>> {
    words.map_values(|w: Vec<char>| w@)
}

/// The length of the first of `words` that occurs at `q`.
pub open spec fn word_at(s: Seq<char>, q: int, words: Seq<Seq<char>>) -> Option<int>
    decreases words.len(),
{
    if words.len() == 0 {
        None
    } else if occurs_at(s, words[0], q) {
        Some(words[0].len() as int)
    } else {
        word_at(s, q, words.drop_first())
    }
}

/// The last line break in `[q, e)`.
pub open spec fn last_break(s: Seq<char>, q: int, e: int) -> Option<int>
    decreases e - q,
{
    if e <= q {
        None
    } else if s[e - 1] == '\n' {
        Some(e - 1)
    } else {
        last_break(s, q, e - 1)
    }
}

/// `p` starts a line.
pub open spec fn line_start(s: Seq<char>, p: int) -> bool {
    p == 0 || s[p - 1] == '\n'
}

/// Where a heading line `## <word>` (any of `words`, whitespace allowed
/// around it) that starts at `p` ends: after the trailing whitespace when
/// the text ends there, else before the last line break of that whitespace.
pub open spec fn heading_end(s: Seq<char>, p: int, words: Seq<Seq<char>>) -> Option<int> {
    if 0 <= p && p + 2 <= s.len() && line_start(s, p) && s[p] == '#' && s[p + 1] == '#' {
        let q0 = ws_end(s, p + 2);
        match word_at(s, q0, words) {
            Some(n) => {
                let e = ws_end(s, q0 + n);
                if e == s.len() { Some(e) } else { last_break(s, q0 + n, e) }
            },
            None => None,
        }
    } else {
        None
    }
}

/// The end of the first such heading at or after `from`.
pub open spec fn first_heading_from(s: Seq<char>, from: int, words: Seq<Seq<char>>) -> Option<int>
    decreases s.len() - from,
{
    if from < 0 || from >= s.len() {
        None
    } else {
        match heading_end(s, from, words) {
            Some(e) => Some(e),
            None => first_heading_from(s, from + 1, words),
        }
    }
}

/// Any level-two heading starts at `r`: `##` and whitespace at a line start.
pub open spec fn any_heading_at(s: Seq<char>, r: int) -> bool {
    0 <= r && r + 3 <= s.len() && line_start(s, r) && s[r] == '#' && s[r + 1] == '#' && is_ws(s[r + 2])
}

/// The first level-two heading at or after `from`, or the end.
pub open spec fn section_end(s: Seq<char>, from: int) -> int
    decreases s.len() - from,
{
    if from < 0 || from >= s.len() {
        s.len() as int
    } else if any_heading_at(s, from) {
        from
    } else {
        section_end(s, from + 1)
    }
}

/// The trimmed text under the first heading naming one of `words`, up to
/// the next level-two heading; none when there is no such heading.
pub open spec fn section(s: Seq<char>, words: Seq<Seq<char>>) -> Option<Seq<char>> {
    match first_heading_from(s, 0, words) {
        Some(e) => {
            let rest = s.subrange(e, s.len() as int);
            Some(trim(rest.subrange(0, section_end(rest, 0))))
        },
        None => None,
    }
}

proof fn lemma_word_at(s: Seq<char>, q: int, words: Seq<Seq<char>>)
    ensures
        word_at(s, q, words) matches Some(n) ==> 0 <= n && 0 <= q && q + n <= s.len(),
    decreases words.len(),
{
    if words.len() > 0 && !occurs_at(s, words[0], q) {
        lemma_word_at(s, q, words.drop_first());
    }
}

proof fn lemma_last_break(s: Seq<char>, q: int, e: int)
    ensures
        last_break(s, q, e) matches Some(t) ==> q <= t < e,
    decreases e - q,
{
    if e > q && s[e - 1] != '\n' {
        lemma_last_break(s, q, e - 1);
    }
}

fn occurs_at_exec(v: &Vec<char>, w: &Vec<char>, q: usize) -> (r: bool)
    ensures
        r == occurs_at(v@, w@, q as int),
{
    let vl = v.len();
    let wl = w.len();
    if q > vl || wl > vl - q {
        return false;
    }
    let mut k: usize = 0;
    while k < wl
        invariant
            k <= wl,
            wl == w@.len(),
            vl == v@.len(),
            q + wl <= vl,
            forall|m: int| 0 <= m < k ==> v@[q + m] == w@[m],
        decreases wl - k,
    {
        if v[q + k] != w[k] {
            assert(v@.subrange(q as int, q + w@.len())[k as int] != w@[k as int]);
            return false;
        }
        k = k + 1;
    }
    assert(v@.subrange(q as int, q + w@.len()) =~= w@);
    true
}

fn word_at_exec(v: &Vec<char>, q: usize, words: &Vec<Vec<char>>) -> (r: Option<usize>)
    ensures
        match word_at(v@, q as int, word_views(words@)) {
            Some(n) => r matches Some(x) && x as int == n,
            None => r is None,
        },
{
    let ghost ws = word_views(words@);
    let mut i: usize = 0;
    assert(ws.subrange(0, ws.len() as int) =~= ws);
    while i < words.len()
        invariant
            i <= words@.len(),
            ws == word_views(words@),
            word_at(v@, q as int, ws) == word_at(v@, q as int, ws.subrange(i as int, ws.len() as int)),
        decreases words@.len() - i,
    {
        let ghost tail = ws.subrange(i as int, ws.len() as int);
        assert(tail[0] == words@[i as int]@);
        if occurs_at_exec(v, &words[i], q) {
            return Some(words[i].len());
        }
        assert(tail.drop_first() =~= ws.subrange(i + 1, ws.len() as int));
        i = i + 1;
    }
    None
}

fn last_break_exec(v: &Vec<char>, q: usize, e: usize) -> (r: Option<usize>)
    requires
        e <= v@.len(),
    ensures
        match last_break(v@, q as int, e as int) {
            Some(t) => r matches Some(x) && x as int == t,
            None => r is None,
        },
{
    let mut k = e;
    while k > q
        invariant
            k <= e,
            e <= v@.len(),
            last_break(v@, q as int, e as int) == last_break(v@, q as int, k as int),
        decreases k,
    {
        if v[k - 1] == '\n' {
            return Some(k - 1);
        }
        k = k - 1;
    }
    None
}

proof fn lemma_heading_end(s: Seq<char>, p: int, words: Seq<Seq<char>>)
    ensures
        heading_end(s, p, words) matches Some(e) ==> 0 <= e <= s.len(),
{
    if 0 <= p && p + 2 <= s.len() && line_start(s, p) && s[p] == '#' && s[p + 1] == '#' {
        let q0 = ws_end(s, p + 2);
        lemma_ws_end(s, p + 2);
        lemma_word_at(s, q0, words);
        if word_at(s, q0, words) is Some {
            let n = word_at(s, q0, words)->0;
            let f = q0 + n;
            assert(0 <= f);
            assert(f <= s.len());
            lemma_ws_end(s, f);
            lemma_last_break(s, q0 + n, ws_end(s, q0 + n));
        }
    }
}

fn heading_end_exec(v: &Vec<char>, p: usize, words: &Vec<Vec<char>>) -> (r: Option<usize>)
    ensures
        match heading_end(v@, p as int, word_views(words@)) {
            Some(e) => r matches Some(x) && x as int == e,
            None => r is None,
        },
{
    let ghost ws = word_views(words@);
    if p < v.len() && p + 1 < v.len() && (p == 0 || v[p - 1] == '\n') && v[p] == '#' && v[p + 1] == '#' {
        let q0 = ws_end_exec(v, p + 2);
        proof {
            lemma_ws_end(v@, p + 2);
            lemma_word_at(v@, q0 as int, ws);
        }
        match word_at_exec(v, q0, words) {
            Some(n) => {
                assert(word_at(v@, q0 as int, ws) == Some(n as int));
                assert(q0 + n <= v@.len());
                let e = ws_end_exec(v, q0 + n);
                proof {
                    lemma_ws_end(v@, q0 + n);
                    lemma_last_break(v@, q0 + n, e as int);
                }
                if e == v.len() { Some(e) } else { last_break_exec(v, q0 + n, e) }
            },
            None => None,
        }
    } else {
        None
    }
}

/// The trimmed text after position `e`, up to the next level-two heading.
fn section_after(v: &Vec<char>, e: usize) -> (r: String)
    requires
        e <= v@.len(),
    ensures
        r@ == trim(v@.subrange(e as int, v@.len() as int).subrange(0, section_end(v@.subrange(e as int, v@.len() as int), 0))),
{
    let rest = string_of_range(v, e, v.len());
    let rv = chars_of(rest.as_str());
    assert(rv@ == v@.subrange(e as int, v@.len() as int));
    let mut r: usize = 0;
    while r < rv.len()
        invariant
            r <= rv@.len(),
            e <= v@.len(),
            rv@ == v@.subrange(e as int, v@.len() as int),
            section_end(rv@, 0) == section_end(rv@, r as int),
        decreases rv@.len() - r,
    {
        if rv.len() - r >= 3 && (r == 0 || rv[r - 1] == '\n') && rv[r] == '#' && rv[r + 1] == '#' && is_ws_exec(rv[r + 2]) {
            assert(any_heading_at(rv@, r as int));
            assert(section_end(rv@, r as int) == r);
            let body = string_of_range(&rv, 0, r);
            assert(section_end(v@.subrange(e as int, v@.len() as int), 0) == r);
            assert(v@.subrange(e as int, v@.len() as int).subrange(0, r as int) =~= body@);
            return trim_str(body.as_str());
        }
        r = r + 1;
    }
    let body = string_of_range(&rv, 0, r);
    trim_str(body.as_str())
}

fn section_exec(v: &Vec<char>, words: &Vec<Vec<char>>) -> (r: Option<String>)
    ensures
        crate::diag::opt_view(r) == section(v@, word_views(words@)),
{
    let ghost ws = word_views(words@);
    let mut p: usize = 0;
    while p < v.len()
        invariant
            p <= v@.len(),
            ws == word_views(words@),
            first_heading_from(v@, 0, ws) == first_heading_from(v@, p as int, ws),
        decreases v@.len() - p,
    {
        proof { lemma_heading_end(v@, p as int, ws); }
        match heading_end_exec(v, p, words) {
            Some(e) => {
                return Some(section_after(v, e));
            },
            None => {},
        }
        p = p + 1;
    }
    None
}

/// The description of a card: the text under its first `## 相关信息` (or
/// 介绍, 描述, 简介, 说明, 概述) heading, up to the next level-two heading,
/// trimmed; none when it has no such heading or the text is empty.
pub open spec fn description_words() -> Seq<Seq<char>> {
    seq!["相关信息"@, "介绍"@, "描述"@, "简介"@, "说明"@, "概述"@]
}

/// The text of a card's description.
pub open spec fn description_of(body: Seq<char>) -> Option<Seq<char>> {
    match section(body, description_words()) {
        Some(c) => if c.len() == 0 { None } else { Some(c) },
        None => None,
    }
}

fn words_exec(list: Vec<&str>) -> (r: Vec<Vec<char>>)
    ensures
        word_views(r@) == list@.map_values(|s: &str| s@),
{
    let mut r: Vec<Vec<char>> = Vec::new();
    let mut i: usize = 0;
    while i < list.len()
        invariant
            i <= list@.len(),
            r@.len() == i,
            forall|k: int| 0 <= k < i ==> (#[trigger] r@[k])@ == list@[k]@,
        decreases list@.len() - i,
    {
        r.push(chars_of(list[i]));
        i = i + 1;
    }
    assert(word_views(r@) =~= list@.map_values(|s: &str| s@));
    r
}

/// Reads the description of a card from its body (line ends already LF).
pub fn parse_description(body: &str) -> (r: Option<String>)
    ensures
        crate::diag::opt_view(r) == description_of(body@),
{
    let list: Vec<&str> = vec!["相关信息", "介绍", "描述", "简介", "说明", "概述"];
    let words = words_exec(list);
    assert(list@.map_values(|s: &str| s@) =~= description_words());
    let v = chars_of(body);
    match section_exec(&v, &words) {
        Some(c) => if crate::validate::is_empty_str(c.as_str()) { None } else { Some(c) },
        None => None,
    }
}

// ---------- tags ----------

/// The whitespace-separated words of `s` (what `split_whitespace` gives).
pub open spec fn split_ws(s: Seq<char>) -> Seq<Seq<char>>
    decreases s.len(),
{
    let a = ws_end(s, 0);
    if a >= s.len() {
        Seq::empty()
    } else {
        let b = next_ws(s, a);
        proof {
            lemma_ws_end(s, 0);
            lemma_next_ws(s, a);
        }
        seq![s.subrange(a, b)] + split_ws(s.subrange(b, s.len() as int))
    }
}

/// The first whitespace at or after `from` (or the end).
pub open spec fn next_ws(s: Seq<char>, from: int) -> int
    decreases s.len() - from,
{
    if from < 0 || from >= s.len() || is_ws(s[from]) {
        from
    } else {
        next_ws(s, from + 1)
    }
}

pub proof fn lemma_next_ws(s: Seq<char>, from: int)
    requires
        0 <= from <= s.len(),
    ensures
        from <= next_ws(s, from) <= s.len(),
        from < s.len() && !is_ws(s[from]) ==> next_ws(s, from) > from,
    decreases s.len() - from,
{
    if from < s.len() && !is_ws(s[from]) {
        lemma_next_ws(s, from + 1);
    }
}

/// The tags of a card: the words under its `## 标签` heading (line ends
/// made LF first), up to the next level-two heading.
pub open spec fn tags_of(body: Seq<char>) -> Seq<Seq<char>> {
    match section(lf_only(body), seq!["标签"@]) {
        Some(c) => split_ws(c),
        None => Seq::empty(),
    }
}

fn split_ws_exec(v: &Vec<char>) -> (r: Vec<String>)
    ensures
        crate::text::views(r@) == split_ws(v@),
{
    let mut out: Vec<String> = Vec::new();
    let mut i: usize = 0;
    assert(v@.subrange(0, v@.len() as int) =~= v@);
    assert(crate::text::views(out@) + split_ws(v@) =~= split_ws(v@));
    while i < v.len()
        invariant
            i <= v@.len(),
            split_ws(v@) == crate::text::views(out@) + split_ws(v@.subrange(i as int, v@.len() as int)),
        decreases v@.len() - i,
    {
        let ghost rest = v@.subrange(i as int, v@.len() as int);
        let a = ws_end_exec(v, i);
        proof {
            lemma_ws_end(v@, i as int);
            lemma_ws_end_shift(v@, i as int, 0);
        }
        if a >= v.len() {
            proof {
                assert(ws_end(rest, 0) >= rest.len());
                assert(split_ws(rest) =~= Seq::<Seq<char>>::empty());
                assert(v@.subrange(v@.len() as int, v@.len() as int) =~= Seq::<char>::empty());
                assert(split_ws(Seq::<char>::empty()) =~= Seq::<Seq<char>>::empty());
            }
            i = v.len();
        } else {
            let mut b = a;
            while b < v.len() && !is_ws_exec(v[b])
                invariant
                    a <= b <= v@.len(),
                    next_ws(v@, a as int) == next_ws(v@, b as int),
                decreases v@.len() - b,
            {
                b = b + 1;
            }
            proof {
                lemma_next_ws(v@, a as int);
                lemma_next_ws_shift(v@, i as int, a - i);
                assert(ws_end(rest, 0) == a - i);
                assert(next_ws(rest, a - i) == b - i);
                assert(rest.subrange(a - i, b - i) =~= v@.subrange(a as int, b as int));
                assert(rest.subrange(b - i, rest.len() as int) =~= v@.subrange(b as int, v@.len() as int));
                assert(split_ws(rest) == seq![v@.subrange(a as int, b as int)] + split_ws(v@.subrange(b as int, v@.len() as int)));
            }
            let ghost before = out@;
            out.push(string_of_range(v, a, b));
            proof {
                assert(crate::text::views(out@) =~= crate::text::views(before).push(v@.subrange(a as int, b as int)));
                assert(crate::text::views(out@) + split_ws(v@.subrange(b as int, v@.len() as int))
                    =~= crate::text::views(before) + split_ws(rest));
            }
            i = b;
        }
    }
    proof {
        assert(v@.subrange(v@.len() as int, v@.len() as int) =~= Seq::<char>::empty());
        assert(split_ws(Seq::<char>::empty()) =~= Seq::<Seq<char>>::empty());
        assert(crate::text::views(out@) + Seq::<Seq<char>>::empty() =~= crate::text::views(out@));
    }
    out
}

proof fn lemma_ws_end_shift(s: Seq<char>, i: int, m: int)
    requires
        0 <= i <= s.len(),
        0 <= m <= s.len() - i,
    ensures
        ws_end(s.subrange(i, s.len() as int), m) == ws_end(s, i + m) - i,
    decreases s.len() - i - m,
{
    let rest = s.subrange(i, s.len() as int);
    if m < rest.len() && is_ws(rest[m]) {
        lemma_ws_end_shift(s, i, m + 1);
    }
}

proof fn lemma_next_ws_shift(s: Seq<char>, i: int, m: int)
    requires
        0 <= i <= s.len(),
        0 <= m <= s.len() - i,
    ensures
        next_ws(s.subrange(i, s.len() as int), m) == next_ws(s, i + m) - i,
    decreases s.len() - i - m,
{
    let rest = s.subrange(i, s.len() as int);
    if m < rest.len() && !is_ws(rest[m]) {
        lemma_next_ws_shift(s, i, m + 1);
    }
}

/// Reads the tags of a card from its body.
pub fn parse_tags(body: &str) -> (r: Vec<String>)
    ensures
        crate::text::views(r@) == tags_of(body@),
{
    let raw = chars_of(body);
    let v = lf_only_exec(&raw);
    let list: Vec<&str> = vec!["标签"];
    let words = words_exec(list);
    assert(list@.map_values(|s: &str| s@) =~= seq!["标签"@]);
    match section_exec(&v, &words) {
        Some(c) => {
            let cv = chars_of(c.as_str());
            split_ws_exec(&cv)
        },
        None => Vec::new(),
    }
}

/// A discussion with the avatar, description and tags read from its body
/// (the avatar and description after line ends are made LF).
pub fn enrich_discussion(d: Discussion) -> (r: Discussion)
    ensures
        r.number == d.number && r.title == d.title && r.body == d.body && r.html_url == d.html_url,
        r.category == d.category && r.author == d.author && r.created_at == d.created_at,
        r.upvotes == d.upvotes && r.has_upvotes == d.has_upvotes && r.reactions_upvotes == d.reactions_upvotes,
        crate::diag::opt_view(r.avatar_url) == first_image_from(lf_only(d.body@), 0),
        crate::diag::opt_view(r.description) == description_of(lf_only(d.body@)),
        crate::text::views(r.tags@) == tags_of(d.body@),
{
    let raw = chars_of(d.body.as_str());
    let normalized_v = lf_only_exec(&raw);
    let normalized = string_of_range(&normalized_v, 0, normalized_v.len());
    assert(normalized@ =~= lf_only(d.body@));
    let avatar = parse_avatar(normalized.as_str());
    let description = parse_description(normalized.as_str());
    let tags = parse_tags(d.body.as_str());
    let mut r = d;
    r.avatar_url = avatar;
    r.description = description;
    r.tags = tags;
    r
}

// ---------- fetching ----------

pub const REST_URL: &'static str = "https://api.github.com/repos/SlimeBoyOwO/LingChat/discussions?per_page=100";
pub const GRAPHQL_URL: &'static str = "https://api.github.com/graphql";
/// How long fetched discussions are served again, in seconds.
pub const CACHE_TTL_SECS: u64 = 300;

/// The token to query GraphQL with: the trimmed token when one is set;
/// none means the REST API is used.
pub fn graphql_token(token: Option<&str>) -> (r: Option<String>)
    ensures
        match token {
            Some(t) => if trim(t@).len() > 0 { r matches Some(x) && x@ == trim(t@) } else { r is None },
            None => r is None,
        },
{
    match token {
        Some(t) => {
            let tt = trim_str(t);
            if crate::validate::is_empty_str(tt.as_str()) { None } else { Some(tt) }
        },
        None => None,
    }
}

/// Cached discussions are served while they are younger than the cache's
/// lifetime and were fetched the same way (`cached_flag`) as a token now
/// allows (`has_token`).
pub fn cache_usable(elapsed_secs: u64, cached_flag: bool, has_token: bool) -> (r: bool)
    ensures
        r == (elapsed_secs < CACHE_TTL_SECS && cached_flag == has_token),
{
    elapsed_secs < CACHE_TTL_SECS && cached_flag == has_token
}

pub const MSG_GRAPHQL_ERROR: &'static str = "GraphQL 错误: ";
pub const MSG_GRAPHQL_EMPTY: &'static str = "GraphQL 返回空数据";

/// What a GraphQL answer comes to before its nodes are read: its first
/// error when it reports any, a refusal when it has no data.
pub fn graphql_outcome(errors: Option<&Vec<String>>, has_data: bool) -> (r: Result<(), String>)
    ensures
        match errors {
            Some(es) if es@.len() > 0 => r is Err && r->Err_0@ == MSG_GRAPHQL_ERROR@ + es@[0]@,
            _ => if has_data { r is Ok } else { r is Err && r->Err_0@ == MSG_GRAPHQL_EMPTY@ },
        },
{
    match errors {
        Some(es) => if es.len() > 0 {
            return Err(crate::text::cat(MSG_GRAPHQL_ERROR, es[0].as_str()));
        },
        None => {},
    }
    if has_data { Ok(()) } else { Err(crate::text::owned(MSG_GRAPHQL_EMPTY)) }
}

pub const MSG_RATE_PRE: &'static str = "GitHub API 请求频率已达上限（60 次/小时），请在 ";
pub const MSG_RATE_POST: &'static str = " 后重试。\n小提示：可在高级设置中配置 GitHub Token 解除限制。";
pub const MSG_SOME_TIME: &'static str = "一段时间";

/// A wait in seconds as text: whole hours, else whole minutes, else seconds.
pub open spec fn wait_text(secs: nat) -> Seq<char> {
    if secs >= 3600 {
        crate::text::decimal(secs / 3600) + " 小时"@
    } else if secs >= 60 {
        crate::text::decimal(secs / 60) + " 分钟"@
    } else {
        crate::text::decimal(secs) + " 秒"@
    }
}

/// What a refused REST call reports: with no requests left, when to try
/// again (from the reset time, `reset_at`, and the time now, in seconds);
/// otherwise the status and the requests left (`?` when not told).
pub open spec fn rate_limit_text(remaining: Option<Seq<char>>, reset_at: Option<u64>, now_secs: u64, status: u16,
    reason: Seq<char>) -> Seq<char> {
    let left = match remaining { Some(x) => x, None => "?"@ };
    if left == "0"@ {
        let wait = match reset_at {
            Some(ts) => wait_text(if ts >= now_secs { (ts - now_secs) as nat } else { 0 }),
            None => MSG_SOME_TIME@,
        };
        MSG_RATE_PRE@ + wait + MSG_RATE_POST@
    } else {
        "GitHub API 返回 "@ + crate::text::decimal(status as nat) + " "@ + reason + "（剩余 "@ + left + " 次）"@
    }
}

/// The message of a refused REST call.
pub fn rate_limit_message(remaining: Option<&str>, reset_at: Option<u64>, now_secs: u64, status: u16, reason: &str) -> (r: String)
    ensures
        r@ == rate_limit_text(match remaining { Some(x) => Some(x@), None => None }, reset_at, now_secs, status, reason@),
{
    let left = match remaining { Some(x) => x, None => "?" };
    if crate::text::str_eq(left, "0") {
        let wait = match reset_at {
            Some(ts) => {
                let secs = ts.saturating_sub(now_secs);
                if secs >= 3600 {
                    let n = crate::text::decimal_u64(secs / 3600);
                    crate::text::cat(n.as_str(), " 小时")
                } else if secs >= 60 {
                    let n = crate::text::decimal_u64(secs / 60);
                    crate::text::cat(n.as_str(), " 分钟")
                } else {
                    let n = crate::text::decimal_u64(secs);
                    crate::text::cat(n.as_str(), " 秒")
                }
            },
            None => crate::text::owned(MSG_SOME_TIME),
        };
        crate::text::cat3(MSG_RATE_PRE, wait.as_str(), MSG_RATE_POST)
    } else {
        let code = crate::text::decimal_u64(status as u64);
        let head = crate::text::cat3("GitHub API 返回 ", code.as_str(), " ");
        let mid = crate::text::cat3(head.as_str(), reason, "（剩余 ");
        crate::text::cat3(mid.as_str(), left, " 次）")
    }
}

} // verus!
