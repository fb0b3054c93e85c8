//! Text rules of the chat tools: spotting commands that delete files, and
//! bounding what is handed to or shown from the model.
use vstd::prelude::*;
use crate::text::{ascii_lower, ascii_lower_seq, is_ascii_alnum, contains, chars_of, string_of, string_of_range, owned, cat, cat3, contains_str, occurs_at, occurs_at_exec, decimal, decimal_string};

verus! {

// ---------- deletion commands ----------

/// A character that belongs to a command token.
pub open spec fn token_char(c: char) -> bool {
    is_ascii_alnum(c) || c == '-' || c == '_' || c == '.'
}

/// `t` is a whole token of `s` starting at `i`: a maximal run of token characters.
pub open spec fn token_at(s: Seq<char>, i: int, t: Seq<char>) -> bool {
    &&& 0 <= i
    &&& t.len() > 0
    &&& i + t.len() <= s.len()
    &&& occurs_at(s, t, i)
    &&& forall|k: int| 0 <= k < t.len() ==> token_char(#[trigger] t[k])
    &&& (i == 0 || !token_char(s[i - 1]))
    &&& (i + t.len() == s.len() || !token_char(s[i + t.len()]))
}

/// `t` is one of the tokens of `s`.
pub open spec fn has_token(s: Seq<char>, t: Seq<char>) -> bool {
    exists|i: int| #[trigger] token_at(s, i, t)
}

fn is_token_char(c: char) -> (r: bool)
    ensures
        r == token_char(c),
{
    ('0' <= c && c <= '9') || ('a' <= c && c <= 'z') || ('A' <= c && c <= 'Z') || c == '-' || c == '_' || c == '.'
}

/// Whether `w` is a whole token of `v`.
fn has_token_exec(v: &Vec<char>, w: &str) -> (r: bool)
    ensures
        r == has_token(v@, w@),
{
    let p = chars_of(w);
    if p.len() == 0 || p.len() > v.len() {
        proof {
            if has_token(v@, w@) {
                let i = choose|i: int| #[trigger] token_at(v@, i, w@);
            }
        }
        return false;
    }
    let mut k: usize = 0;
    while k < p.len()
        invariant
            k <= p@.len(),
            p@ == w@,
            forall|j: int| 0 <= j < k ==> token_char(#[trigger] p@[j]),
        decreases p@.len() - k,
    {
        if !is_token_char(p[k]) {
            proof {
                if has_token(v@, w@) {
                    let i = choose|i: int| #[trigger] token_at(v@, i, w@);
                    assert(token_char(w@[k as int]));
                }
            }
            return false;
        }
        k = k + 1;
    }
    let last = v.len() - p.len();
    let vlen = v.len();
    let mut i: usize = 0;
    while i <= last
        invariant
            vlen == v@.len(),
            last == v@.len() - p@.len(),
            p@.len() <= v@.len(),
            p@ == w@,
            p@.len() > 0,
            forall|j: int| 0 <= j < p@.len() ==> token_char(#[trigger] p@[j]),
            forall|j: int| 0 <= j < i ==> !token_at(v@, j, w@),
        decreases last + 1 - i,
    {
        assert(i + p@.len() <= v@.len());
        if occurs_at_exec(v, &p, i)
            && (i == 0 || !is_token_char(v[i - 1]))
            && (i + p.len() == v.len() || !is_token_char(v[i + p.len()])) {
            assert(token_at(v@, i as int, w@));
            return true;
        }
        if i == last {
            proof {
                if has_token(v@, w@) {
                    let j = choose|j: int| #[trigger] token_at(v@, j, w@);
                    assert(j <= last);
                }
            }
            return false;
        }
        i = i + 1;
    }
    false
}

/// The program names and switches that delete files.
pub open spec fn deletion_words() -> Seq<Seq<char>> {
    seq!["del"@, "del.exe"@, "erase"@, "erase.exe"@, "rd"@, "rd.exe"@, "rmdir"@, "rmdir.exe"@, "rm"@, "rm.exe"@,
        "ri"@, "unlink"@, "unlink.exe"@, "shred"@, "shred.exe"@, "sdelete"@, "sdelete.exe"@, "rimraf"@, "rimraf.cmd"@,
        "truncate"@, "truncate.exe"@, "remove-item"@, "clear-content"@, "-delete"@, "--delete"@]
}

/// The calls of scripting languages that delete files.
pub open spec fn deletion_calls() -> Seq<Seq<char>> {
    seq!["os.remove("@, "os.unlink("@, "os.rmdir("@, "shutil.rmtree("@, ".unlink("@, "file.delete("@, "directory.delete("@]
}

/// A command may delete files: after ASCII lower-casing, one of its tokens
/// is a deleting program or switch, it runs `git rm`/`git clean` or
/// `robocopy /mir`, or it holds a deleting call of a scripting language.
pub open spec fn may_delete(command: Seq<char>) -> bool {
    let n = ascii_lower_seq(command);
    ||| exists|k: int| 0 <= k < deletion_words().len() && has_token(n, #[trigger] deletion_words()[k])
    ||| (has_token(n, "git"@) || has_token(n, "git.exe"@)) && (has_token(n, "rm"@) || has_token(n, "clean"@))
    ||| (has_token(n, "robocopy"@) || has_token(n, "robocopy.exe"@)) && has_token(n, "mir"@)
    ||| exists|k: int| 0 <= k < deletion_calls().len() && contains(n, #[trigger] deletion_calls()[k])
}

/// ASCII upper-casing of one character (what `to_ascii_uppercase` does to it).
pub open spec fn ascii_upper(c: char) -> char {
    if 'a' <= c && c <= 'z' {
        ((c as u32) - 32) as char
    } else {
        c
    }
}

pub open spec fn ascii_upper_seq(s: Seq<char>) -> Seq<char> {
    s.map_values(|c: char| ascii_upper(c))
}

/// A whole token stays a whole token when text that ends and begins with a
/// non-token character is put around it.
proof fn lemma_token_in_context(s: Seq<char>, t: Seq<char>, i: int, pre: Seq<char>, post: Seq<char>)
    requires
        token_at(s, i, t),
        pre.len() > 0 && !token_char(pre.last()),
        post.len() > 0 && !token_char(post[0]),
    ensures
        token_at(pre + s + post, pre.len() + i, t),
{
    let w = pre + s + post;
    let j = pre.len() + i;
    assert(w.subrange(j, j + t.len()) =~= s.subrange(i, i + t.len()));
    if i > 0 {
        assert(w[j - 1] == s[i - 1]);
    } else {
        assert(w[j - 1] == pre.last());
    }
    if i + t.len() < s.len() {
        assert(w[j + t.len()] == s[i + t.len()]);
    } else {
        assert(w[j + t.len()] == post[0]);
    }
}

/// A deleting call stays in the text when text is put around it.
proof fn lemma_contains_in_context(s: Seq<char>, p: Seq<char>, pre: Seq<char>, post: Seq<char>)
    requires
        contains(s, p),
    ensures
        contains(pre + s + post, p),
{
    let i = choose|i: int| occurs_at(s, p, i);
    let w = pre + s + post;
    assert(w.subrange(pre.len() + i, pre.len() + i + p.len()) =~= s.subrange(i, i + p.len()));
    assert(occurs_at(w, p, pre.len() + i));
}

/// Text around a command never hides a deletion it holds: a command that
/// may delete files still may when other text is written before and after
/// it, separated by spaces.
pub proof fn law_context_never_hides_deletion(a: Seq<char>, c: Seq<char>, b: Seq<char>)
    requires
        may_delete(c),
    ensures
        may_delete(a + seq![' '] + c + seq![' '] + b),
{
    let n = ascii_lower_seq(c);
    let pre = ascii_lower_seq(a) + seq![' '];
    let post = seq![' '] + ascii_lower_seq(b);
    let w = a + seq![' '] + c + seq![' '] + b;
    assert(ascii_lower_seq(w) =~= pre + n + post);
    assert(!token_char(pre.last()));
    assert(!token_char(post[0]));
    let m = ascii_lower_seq(w);
    assert forall|t: Seq<char>| has_token(n, t) implies has_token(m, t) by {
        let i = choose|i: int| #[trigger] token_at(n, i, t);
        lemma_token_in_context(n, t, i, pre, post);
        assert(token_at(m, pre.len() + i, t));
    }
    assert forall|p: Seq<char>| contains(n, p) implies contains(m, p) by {
        lemma_contains_in_context(n, p, pre, post);
    }
    if exists|k: int| 0 <= k < deletion_words().len() && has_token(n, #[trigger] deletion_words()[k]) {
        let k = choose|k: int| 0 <= k < deletion_words().len() && has_token(n, #[trigger] deletion_words()[k]);
        assert(has_token(m, deletion_words()[k]));
    } else if exists|k: int| 0 <= k < deletion_calls().len() && contains(n, #[trigger] deletion_calls()[k]) {
        let k = choose|k: int| 0 <= k < deletion_calls().len() && contains(n, #[trigger] deletion_calls()[k]);
        assert(contains(m, deletion_calls()[k]));
    }
}

/// A command that calls a deleting function of a scripting language may
/// delete files: after ASCII lower-casing it holds one of `os.remove(`,
/// `os.unlink(`, `os.rmdir(`, `shutil.rmtree(`, `.unlink(`, `file.delete(`
/// or `directory.delete(`.
pub proof fn law_deleting_calls_are_spotted(c: Seq<char>)
    ensures
        contains(ascii_lower_seq(c), "os.remove("@) ==> may_delete(c),
        contains(ascii_lower_seq(c), "os.unlink("@) ==> may_delete(c),
        contains(ascii_lower_seq(c), "os.rmdir("@) ==> may_delete(c),
        contains(ascii_lower_seq(c), "shutil.rmtree("@) ==> may_delete(c),
        contains(ascii_lower_seq(c), ".unlink("@) ==> may_delete(c),
        contains(ascii_lower_seq(c), "file.delete("@) ==> may_delete(c),
        contains(ascii_lower_seq(c), "directory.delete("@) ==> may_delete(c),
{
    let n = ascii_lower_seq(c);
    let calls = deletion_calls();
    assert(calls[0] == "os.remove("@);
    assert(calls[1] == "os.unlink("@);
    assert(calls[2] == "os.rmdir("@);
    assert(calls[3] == "shutil.rmtree("@);
    assert(calls[4] == ".unlink("@);
    assert(calls[5] == "file.delete("@);
    assert(calls[6] == "directory.delete("@);
    if contains(n, calls[0]) || contains(n, calls[1]) || contains(n, calls[2]) || contains(n, calls[3])
        || contains(n, calls[4]) || contains(n, calls[5]) || contains(n, calls[6]) {
        assert(exists|k: int| 0 <= k < deletion_calls().len() && contains(n, #[trigger] deletion_calls()[k]));
    }
}

/// A command in which a deleting program or switch stands as a word of its
/// own (after ASCII lower-casing) may delete files.
pub proof fn law_deleting_programs_are_spotted(c: Seq<char>, w: Seq<char>)
    requires
        w == "del"@ || w == "del.exe"@ || w == "erase"@ || w == "erase.exe"@ || w == "rd"@ || w == "rd.exe"@
            || w == "rmdir"@ || w == "rmdir.exe"@ || w == "rm"@ || w == "rm.exe"@ || w == "ri"@ || w == "unlink"@
            || w == "unlink.exe"@ || w == "shred"@ || w == "shred.exe"@ || w == "sdelete"@ || w == "sdelete.exe"@
            || w == "rimraf"@ || w == "rimraf.cmd"@ || w == "truncate"@ || w == "truncate.exe"@ || w == "remove-item"@
            || w == "clear-content"@ || w == "-delete"@ || w == "--delete"@,
        has_token(ascii_lower_seq(c), w),
    ensures
        may_delete(c),
{
    let ws = deletion_words();
    let k: int = if w == "del"@ { 0 } else if w == "del.exe"@ { 1 } else if w == "erase"@ { 2 } else if w == "erase.exe"@ { 3 }
        else if w == "rd"@ { 4 } else if w == "rd.exe"@ { 5 } else if w == "rmdir"@ { 6 } else if w == "rmdir.exe"@ { 7 }
        else if w == "rm"@ { 8 } else if w == "rm.exe"@ { 9 } else if w == "ri"@ { 10 } else if w == "unlink"@ { 11 }
        else if w == "unlink.exe"@ { 12 } else if w == "shred"@ { 13 } else if w == "shred.exe"@ { 14 } else if w == "sdelete"@ { 15 }
        else if w == "sdelete.exe"@ { 16 } else if w == "rimraf"@ { 17 } else if w == "rimraf.cmd"@ { 18 } else if w == "truncate"@ { 19 }
        else if w == "truncate.exe"@ { 20 } else if w == "remove-item"@ { 21 } else if w == "clear-content"@ { 22 } else if w == "-delete"@ { 23 }
        else { 24 };
    assert(ws[k] == w);
}

/// Upper-casing a command neither hides nor invents a deletion: the check
/// reads the command after ASCII lower-casing.
pub proof fn law_case_never_hides_deletion(c: Seq<char>)
    ensures
        may_delete(ascii_upper_seq(c)) == may_delete(c),
{
    assert forall|k: int| 0 <= k < c.len() implies #[trigger] ascii_lower(ascii_upper(c[k])) == ascii_lower(c[k]) by {
        let x = c[k];
        if 'a' <= x && x <= 'z' {
            assert(('A' <= ascii_upper(x) && ascii_upper(x) <= 'Z'));
            assert(ascii_lower(ascii_upper(x)) == x);
        }
    }
    assert(ascii_lower_seq(ascii_upper_seq(c)) =~= ascii_lower_seq(c));
}

fn ascii_lower_char(c: char) -> (r: char)
    ensures
        r == ascii_lower(c),
{
    if 'A' <= c && c <= 'Z' {
        let b: u8 = c as u8;
        let l: u8 = b + 32;
        proof {
            assert(b == c as u32);
            assert(l as int == (c as u32) + 32);
        }
        l as char
    } else {
        c
    }
}

/// `str::to_ascii_lowercase`.
pub fn to_ascii_lowercase(s: &str) -> (r: String)
    ensures
        r@ == ascii_lower_seq(s@),
{
    let v = chars_of(s);
    let mut out: Vec<char> = Vec::new();
    let mut i: usize = 0;
    while i < v.len()
        invariant
            i <= v@.len(),
            v@ == s@,
            out@ == ascii_lower_seq(v@.subrange(0, i as int)),
        decreases v@.len() - i,
    {
        out.push(ascii_lower_char(v[i]));
        proof {
            assert(out@ =~= ascii_lower_seq(v@.subrange(0, i + 1)));
        }
        i = i + 1;
    }
    proof {
        assert(v@.subrange(0, v@.len() as int) =~= v@);
    }
    string_of(&out)
}

fn deletion_words_exec() -> (r: Vec<&'static str>)
    ensures
        r@.map_values(|w: &'static str| w@) == deletion_words(),
{
    let r = vec!["del", "del.exe", "erase", "erase.exe", "rd", "rd.exe", "rmdir", "rmdir.exe", "rm", "rm.exe",
        "ri", "unlink", "unlink.exe", "shred", "shred.exe", "sdelete", "sdelete.exe", "rimraf", "rimraf.cmd",
        "truncate", "truncate.exe", "remove-item", "clear-content", "-delete", "--delete"];
    assert(r@.map_values(|w: &'static str| w@) =~= deletion_words());
    r
}

fn deletion_calls_exec() -> (r: Vec<&'static str>)
    ensures
        r@.map_values(|w: &'static str| w@) == deletion_calls(),
{
    let r = vec!["os.remove(", "os.unlink(", "os.rmdir(", "shutil.rmtree(", ".unlink(", "file.delete(", "directory.delete("];
    assert(r@.map_values(|w: &'static str| w@) =~= deletion_calls());
    r
}

/// Spots the usual file-deleting commands; errs on the side of asking the
/// user once more.
pub fn command_may_delete_files(command: &str) -> (r: bool)
    ensures
        r == may_delete(command@),
{
    let normalized = to_ascii_lowercase(command);
    let ghost n = normalized@;
    let v = chars_of(normalized.as_str());
    let words = deletion_words_exec();
    let mut k: usize = 0;
    while k < words.len()
        invariant
            k <= words@.len(),
            v@ == n,
            n == ascii_lower_seq(command@),
            words@.map_values(|w: &'static str| w@) == deletion_words(),
            forall|j: int| 0 <= j < k ==> !has_token(n, #[trigger] deletion_words()[j]),
        decreases words@.len() - k,
    {
        if has_token_exec(&v, words[k]) {
            assert(deletion_words()[k as int] == words@[k as int]@);
            assert(has_token(n, deletion_words()[k as int]));
            return true;
        }
        assert(deletion_words()[k as int] == words@[k as int]@);
        k = k + 1;
    }
    let git = has_token_exec(&v, "git") || has_token_exec(&v, "git.exe");
    let git_del = has_token_exec(&v, "rm") || has_token_exec(&v, "clean");
    if git && git_del {
        return true;
    }
    let robo = has_token_exec(&v, "robocopy") || has_token_exec(&v, "robocopy.exe");
    if robo && has_token_exec(&v, "mir") {
        return true;
    }
    let calls = deletion_calls_exec();
    let mut c: usize = 0;
    while c < calls.len()
        invariant
            c <= calls@.len(),
            normalized@ == n,
            n == ascii_lower_seq(command@),
            calls@.map_values(|w: &'static str| w@) == deletion_calls(),
            forall|j: int| 0 <= j < c ==> !contains(n, #[trigger] deletion_calls()[j]),
        decreases calls@.len() - c,
    {
        if contains_str(normalized.as_str(), calls[c]) {
            assert(deletion_calls()[c as int] == calls@[c as int]@);
            assert(contains(n, deletion_calls()[c as int]));
            return true;
        }
        assert(deletion_calls()[c as int] == calls@[c as int]@);
        c = c + 1;
    }
    false
}

// ---------- bounding text ----------

/// The first `n` characters of `s` (all of it when shorter).
pub open spec fn take_chars(s: Seq<char>, n: nat) -> Seq<char> {
    if s.len() <= n { s } else { s.subrange(0, n as int) }
}

pub const MAX_QUERY_CHARS: usize = 500;
pub const MAX_OUTPUT_CHARS: usize = 20000;
pub const OUTPUT_CUT_NOTE: &'static str = "\n[...结果过长已截断]";

/// A search query cut to its first 500 characters.
pub fn bounded_query(query: &str) -> (r: String)
    ensures
        r@ == take_chars(query@, MAX_QUERY_CHARS as nat),
{
    let v = chars_of(query);
    if v.len() <= MAX_QUERY_CHARS {
        owned(query)
    } else {
        string_of_range(&v, 0, MAX_QUERY_CHARS)
    }
}

/// A search result longer than 20000 characters cut to them, with a note.
pub open spec fn truncated_output(t: Seq<char>) -> Seq<char> {
    if t.len() > MAX_OUTPUT_CHARS { t.subrange(0, MAX_OUTPUT_CHARS as int) + OUTPUT_CUT_NOTE@ } else { t }
}

/// Cuts an over-long search result, in place.
pub fn truncate_output(text: &mut String)
    ensures
        final(text)@ == truncated_output(old(text)@),
{
    let v = chars_of(text.as_str());
    if v.len() > MAX_OUTPUT_CHARS {
        let mut t = string_of_range(&v, 0, MAX_OUTPUT_CHARS);
        t.append(OUTPUT_CUT_NOTE);
        *text = t;
    }
}

pub const MIDDLE_MARKER: &'static str = "\n…（后台输出已截断）…\n";

/// A text longer than `max` characters keeps its head and tail around a
/// marker, `max - marker length` characters in all (none when `max` is
/// shorter than the marker), the head half rounded down; the flag says
/// whether it was cut.
pub open spec fn middle_truncated(t: Seq<char>, max: nat) -> (Seq<char>, bool) {
    if t.len() <= max {
        (t, false)
    } else {
        let m = MIDDLE_MARKER@.len();
        let available: nat = if max >= m { (max - m) as nat } else { 0 };
        let head = available / 2;
        let tail = (available - head) as nat;
        (t.subrange(0, head as int) + MIDDLE_MARKER@ + t.subrange(t.len() - tail, t.len() as int), true)
    }
}

/// Cuts the middle out of an over-long text.
pub fn truncate_middle(text: &str, max_chars: usize) -> (r: (String, bool))
    ensures
        (r.0@, r.1) == middle_truncated(text@, max_chars as nat),
{
    let chars = chars_of(text);
    if chars.len() <= max_chars {
        return (owned(text), false);
    }
    let marker = chars_of(MIDDLE_MARKER);
    let available: usize = if max_chars >= marker.len() { max_chars - marker.len() } else { 0 };
    let head_len = available / 2;
    let tail_len = available - head_len;
    let mut out = string_of_range(&chars, 0, head_len);
    out.append(MIDDLE_MARKER);
    let tail = string_of_range(&chars, chars.len() - tail_len, chars.len());
    out.append(tail.as_str());
    (out, true)
}

// ---------- search service errors ----------

pub const MSG_AUTH_PRE: &'static str = "搜索服务认证失败，请检查 API Key 是否正确（HTTP ";
pub const MSG_AUTH_POST: &'static str = "）";
pub const MSG_RATE_LIMIT: &'static str = "搜索服务请求过于频繁，请稍后再试（HTTP 429）";
pub const MSG_HTTP_PRE: &'static str = "搜索服务返回错误（HTTP ";
pub const MSG_HTTP_MID: &'static str = "）: ";

/// The message for an HTTP error of the search service; `status` is the
/// status as shown (code and reason), `body` the response body, of which the
/// first 300 characters are kept.
pub open spec fn http_error_text(code: u16, status: Seq<char>, body: Seq<char>) -> Seq<char> {
    if code == 401 || code == 403 {
        MSG_AUTH_PRE@ + status + MSG_AUTH_POST@
    } else if code == 429 {
        MSG_RATE_LIMIT@
    } else {
        MSG_HTTP_PRE@ + status + MSG_HTTP_MID@ + take_chars(body, 300)
    }
}

/// The message for an HTTP error of the search service.
pub fn http_error_message(code: u16, status: &str, body: &str) -> (r: String)
    ensures
        r@ == http_error_text(code, status@, body@),
{
    if code == 401 || code == 403 {
        cat3(MSG_AUTH_PRE, status, MSG_AUTH_POST)
    } else if code == 429 {
        owned(MSG_RATE_LIMIT)
    } else {
        let v = chars_of(body);
        let b = if v.len() <= 300 { owned(body) } else { string_of_range(&v, 0, 300) };
        let mut r = cat3(MSG_HTTP_PRE, status, MSG_HTTP_MID);
        r.append(b.as_str());
        r
    }
}

/// Cutting the middle of a text never leaves more than `max` characters
/// when the marker fits, cuts only an over-long text, and keeps a short
/// one as it is.
pub proof fn law_middle_truncation_is_bounded(t: Seq<char>, max: nat)
    requires
        max >= MIDDLE_MARKER@.len(),
    ensures
        middle_truncated(t, max).0.len() <= max,
        middle_truncated(t, max).1 <==> t.len() > max,
        !middle_truncated(t, max).1 ==> middle_truncated(t, max).0 == t,
{
}

} // verus!
