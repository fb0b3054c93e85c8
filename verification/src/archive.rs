//! Role archives: the formats and conflict policies an import accepts, and
//! the names an exported archive or an imported role folder gets.
use vstd::prelude::*;
use crate::text::{
    chars_of, string_of, string_of_range, owned, cat, cat3, str_eq, trim, trim_str, is_blank, is_control,
    starts_with, starts_with_str, decimal, decimal_u64, eq_ignore_ascii_case, eq_ignore_ascii_case_exec,
};
use crate::tts_local::{to_lowercase, unicode_lower};
use crate::notes::{is_alphanumeric, unicode_alnum};

verus! {

// ---------- formats and policies ----------

/// The container of a role archive.
#[derive(Debug, Clone, Copy, PartialEq, Eq, Structural)]
pub enum ArchiveFormat {
    Zip,
    SevenZ,
}

/// What an import does when a role folder of the same name exists.
#[derive(Debug, Clone, Copy, PartialEq, Eq, Structural)]
pub enum ConflictPolicy {
    Rename,
    Skip,
    Overwrite,
}

pub const MSG_BAD_FORMAT: &'static str = "不支持的 format: ";
pub const MSG_BAD_POLICY: &'static str = "不支持的 conflict: ";

/// The format that `s` names: `zip` or `7z`.
pub open spec fn format_named(s: Seq<char>) -> Option<ArchiveFormat> {
    if s == "zip"@ {
        Some(ArchiveFormat::Zip)
    } else if s == "7z"@ {
        Some(ArchiveFormat::SevenZ)
    } else {
        None
    }
}

/// The policy that `s` names: `rename`, `skip` or `overwrite`.
pub open spec fn policy_named(s: Seq<char>) -> Option<ConflictPolicy> {
    if s == "rename"@ {
        Some(ConflictPolicy::Rename)
    } else if s == "skip"@ {
        Some(ConflictPolicy::Skip)
    } else if s == "overwrite"@ {
        Some(ConflictPolicy::Overwrite)
    } else {
        None
    }
}

/// Reads an archive format; any other word is refused.
pub fn parse_format(s: &str) -> (r: Result<ArchiveFormat, String>)
    ensures
        match format_named(s@) {
            Some(f) => r is Ok && r->Ok_0 == f,
            None => r is Err && r->Err_0@ == MSG_BAD_FORMAT@ + s@,
        },
{
    if str_eq(s, "zip") {
        Ok(ArchiveFormat::Zip)
    } else if str_eq(s, "7z") {
        Ok(ArchiveFormat::SevenZ)
    } else {
        Err(cat(MSG_BAD_FORMAT, s))
    }
}

/// Reads a conflict policy; any other word is refused.
pub fn parse_policy(s: &str) -> (r: Result<ConflictPolicy, String>)
    ensures
        match policy_named(s@) {
            Some(p) => r is Ok && r->Ok_0 == p,
            None => r is Err && r->Err_0@ == MSG_BAD_POLICY@ + s@,
        },
{
    if str_eq(s, "rename") {
        Ok(ConflictPolicy::Rename)
    } else if str_eq(s, "skip") {
        Ok(ConflictPolicy::Skip)
    } else if str_eq(s, "overwrite") {
        Ok(ConflictPolicy::Overwrite)
    } else {
        Err(cat(MSG_BAD_POLICY, s))
    }
}

// ---------- results ----------

/// What an import reports.
#[derive(Debug, Clone)]
pub struct ImportResult {
    pub role_id: Option<i32>,
    pub role_name: String,
    /// `imported`, `renamed`, `overwritten` or `skipped`.
    pub conflict_action: String,
    pub warnings: Vec<String>,
    pub bytes_extracted: u64,
}

/// What an export reports.
#[derive(Debug, Clone)]
pub struct ExportResult {
    pub temp_path: String,
    pub suggested_name: String,
    pub size_bytes: u64,
}

impl ImportResult {
    /// The report of an import skipped because the folder `name` exists:
    /// nothing was extracted and no role was registered.
    pub fn skipped(name: String) -> (r: ImportResult)
        ensures
            r.role_id is None,
            r.role_name == name,
            r.conflict_action@ == "skipped"@,
            r.warnings@.len() == 0,
            r.bytes_extracted == 0,
    {
        ImportResult {
            role_id: None,
            role_name: name,
            conflict_action: owned("skipped"),
            warnings: Vec::new(),
            bytes_extracted: 0,
        }
    }
}

// ---------- the file name of an exported archive ----------

/// A character that a file name cannot hold: a path separator, a character
/// Windows forbids, or a control character.
pub open spec fn forbidden_in_file_name(c: char) -> bool {
    ||| c == '\\' || c == '/' || c == ':' || c == '*' || c == '?'
    ||| c == '"' || c == '<' || c == '>' || c == '|'
    ||| is_control(c)
}

/// `c`, or `_` in its place when a file name cannot hold it.
pub open spec fn file_name_char(c: char) -> char {
    if forbidden_in_file_name(c) { '_' } else { c }
}

/// The name an exported archive is offered under: every forbidden character
/// replaced by `_`, trimmed, and `role` when nothing is left.
pub open spec fn exported_file_name(name: Seq<char>) -> Seq<char> {
    let t = trim(name.map_values(|c: char| file_name_char(c)));
    if t.len() == 0 { "role"@ } else { t }
}

fn file_name_char_exec(c: char) -> (r: char)
    ensures
        r == file_name_char(c),
{
    if c == '\\' || c == '/' || c == ':' || c == '*' || c == '?' || c == '"' || c == '<' || c == '>'
        || c == '|' || c <= '\u{1f}' || ('\u{7f}' <= c && c <= '\u{9f}') {
        '_'
    } else {
        c
    }
}

/// Cleans a role name into the file name of its archive.
pub fn sanitize_file_name(name: &str) -> (r: String)
    ensures
        r@ == exported_file_name(name@),
{
    let v = chars_of(name);
    let mut out: Vec<char> = Vec::new();
    let mut i: usize = 0;
    while i < v.len()
        invariant
            i <= v@.len(),
            v@ == name@,
            out@ == v@.subrange(0, i as int).map_values(|c: char| file_name_char(c)),
        decreases v@.len() - i,
    {
        let c = v[i];
        out.push(file_name_char_exec(c));
        proof {
            assert(v@.subrange(0, i + 1).map_values(|c: char| file_name_char(c))
                =~= v@.subrange(0, i as int).map_values(|c: char| file_name_char(c)).push(file_name_char(c)));
        }
        i = i + 1;
    }
    proof {
        assert(v@.subrange(0, v@.len() as int) =~= v@);
    }
    let mapped = string_of(&out);
    if is_blank(mapped.as_str()) {
        owned("role")
    } else {
        trim_str(mapped.as_str())
    }
}

// ---------- the folder of an imported role ----------

/// `s` ends with `ext` when ASCII case is ignored.
pub open spec fn ends_with_ci(s: Seq<char>, ext: Seq<char>) -> bool {
    s.len() >= ext.len() && eq_ignore_ascii_case(s.subrange(s.len() - ext.len(), s.len() as int), ext)
}

/// `s` without a trailing `.zip` or `.7z`, in any case.
///
/// (The lower-cased name ends with an ASCII suffix exactly when the name
/// itself ends with it in some case: no character lower-cases to several
/// characters that end in one of `.`, `z`, `i`, `p`, `7`.)
pub open spec fn strip_archive_ext(s: Seq<char>) -> Seq<char> {
    if ends_with_ci(s, ".zip"@) {
        s.subrange(0, s.len() - ".zip"@.len())
    } else if ends_with_ci(s, ".7z"@) {
        s.subrange(0, s.len() - ".7z"@.len())
    } else {
        s
    }
}

/// A character that a role folder name keeps: a letter, a digit, `-` or `.`.
pub open spec fn folder_char(c: char) -> bool {
    unicode_alnum(c) || c == '-' || c == '.'
}

/// The characters of `s` that a folder name keeps, in order.
pub open spec fn folder_chars(s: Seq<char>) -> Seq<char>
    decreases s.len(),
{
    if s.len() == 0 {
        s
    } else if folder_char(s.last()) {
        folder_chars(s.drop_last()).push(s.last())
    } else {
        folder_chars(s.drop_last())
    }
}

/// A name that no role folder may take: `avatar`, `__macosx` (in any case),
/// or a hidden name.
pub open spec fn reserved_folder(s: Seq<char>) -> bool {
    let lower = unicode_lower(s);
    ||| lower == "avatar"@
    ||| lower == "__macosx"@
    ||| starts_with(lower, "._"@)
    ||| starts_with(lower, "."@)
}

/// A candidate name, cleaned: archive suffix dropped, then the kept characters.
pub open spec fn cleaned_candidate(c: Seq<char>) -> Seq<char> {
    folder_chars(strip_archive_ext(c))
}

/// A candidate whose cleaned form is a usable folder name.
pub open spec fn usable_candidate(c: Seq<char>) -> bool {
    cleaned_candidate(c).len() > 0 && !reserved_folder(cleaned_candidate(c))
}

/// The text of an optional string.
pub open spec fn opt_text(o: Option<&str>) -> Option<Seq<char>> {
    match o {
        Some(s) => Some(s@),
        None => None,
    }
}

/// The folder name that the given name, else the fallback, yields; `None`
/// when neither is usable.
pub open spec fn chosen_folder_name(name: Option<Seq<char>>, fallback: Option<Seq<char>>) -> Option<Seq<char>> {
    if name is Some && usable_candidate(name->0) {
        Some(cleaned_candidate(name->0))
    } else if fallback is Some && usable_candidate(fallback->0) {
        Some(cleaned_candidate(fallback->0))
    } else {
        None
    }
}

fn ends_with_ci_exec(v: &Vec<char>, ext: &str) -> (r: bool)
    ensures
        r == ends_with_ci(v@, ext@),
{
    let e = chars_of(ext);
    if v.len() < e.len() {
        return false;
    }
    let tail = string_of_range(v, v.len() - e.len(), v.len());
    eq_ignore_ascii_case_exec(tail.as_str(), ext)
}

fn strip_archive_ext_exec(s: &str) -> (r: String)
    ensures
        r@ == strip_archive_ext(s@),
{
    let v = chars_of(s);
    if ends_with_ci_exec(&v, ".zip") {
        let n = chars_of(".zip").len();
        string_of_range(&v, 0, v.len() - n)
    } else if ends_with_ci_exec(&v, ".7z") {
        let n = chars_of(".7z").len();
        string_of_range(&v, 0, v.len() - n)
    } else {
        owned(s)
    }
}

fn folder_chars_exec(s: &str) -> (r: String)
    ensures
        r@ == folder_chars(s@),
{
    let v = chars_of(s);
    let mut kept: Vec<char> = Vec::new();
    let mut i: usize = 0;
    while i < v.len()
        invariant
            i <= v@.len(),
            v@ == s@,
            kept@ == folder_chars(v@.subrange(0, i as int)),
        decreases v@.len() - i,
    {
        let c = v[i];
        proof {
            assert(v@.subrange(0, i + 1).drop_last() =~= v@.subrange(0, i as int));
            assert(v@.subrange(0, i + 1).last() == c);
        }
        if is_alphanumeric(c) || c == '-' || c == '.' {
            kept.push(c);
        }
        i = i + 1;
    }
    proof {
        assert(v@.subrange(0, v@.len() as int) =~= v@);
    }
    string_of(&kept)
}

fn is_reserved_folder(s: &str) -> (r: bool)
    ensures
        r == reserved_folder(s@),
{
    let lower = to_lowercase(s);
    str_eq(lower.as_str(), "avatar") || str_eq(lower.as_str(), "__macosx")
        || starts_with_str(lower.as_str(), "._") || starts_with_str(lower.as_str(), ".")
}

fn folder_candidate(c: &str) -> (r: Option<String>)
    ensures
        usable_candidate(c@) ==> r is Some && r->0@ == cleaned_candidate(c@),
        !usable_candidate(c@) ==> r is None,
{
    let stripped = strip_archive_ext_exec(c);
    let cleaned = folder_chars_exec(stripped.as_str());
    proof {
        reveal_strlit("");
        assert(cleaned@.len() == 0 <==> cleaned@ =~= ""@);
    }
    if !str_eq(cleaned.as_str(), "") && !is_reserved_folder(cleaned.as_str()) {
        Some(cleaned)
    } else {
        None
    }
}

/// The folder an imported role goes to: the cleaned name, else the cleaned
/// fallback, else `role_` and the time in milliseconds since the Unix epoch.
pub fn role_folder_name(name: Option<&str>, fallback: Option<&str>, now_millis: u64) -> (r: String)
    ensures
        match chosen_folder_name(opt_text(name), opt_text(fallback)) {
            Some(n) => r@ == n,
            None => r@ == "role_"@ + decimal(now_millis as nat),
        },
{
    if let Some(n) = name {
        if let Some(c) = folder_candidate(n) {
            return c;
        }
    }
    if let Some(f) = fallback {
        if let Some(c) = folder_candidate(f) {
            return c;
        }
    }
    let digits = decimal_u64(now_millis);
    cat("role_", digits.as_str())
}

/// `SystemTime::now()` in milliseconds since the Unix epoch (0 for a clock set
/// before it). Nothing is stated of the value: it is the time.
#[verifier::external_body]
fn unix_millis() -> (r: u64)
{
    std::time::SystemTime::now().duration_since(std::time::UNIX_EPOCH).map(|d| d.as_millis() as u64).unwrap_or(0)
}

/// The folder an imported role goes to, stamped with the current time when
/// neither name is usable.
pub fn sanitize_role_folder_name(name: Option<&str>, fallback: Option<&str>) -> (r: String)
    ensures
        match chosen_folder_name(opt_text(name), opt_text(fallback)) {
            Some(n) => r@ == n,
            None => exists|t: u64| r@ == "role_"@ + decimal(t as nat),
        },
{
    match name {
        Some(n) => {
            if let Some(c) = folder_candidate(n) {
                return c;
            }
        },
        None => {},
    }
    match fallback {
        Some(f) => {
            if let Some(c) = folder_candidate(f) {
                return c;
            }
        },
        None => {},
    }
    let t = unix_millis();
    let r = role_folder_name(None, None, t);
    assert(r@ == "role_"@ + decimal(t as nat));
    r
}

// ---------- requests ----------

pub const MSG_IMPORT_BUSY: &'static str = "已有导入任务在进行中";
pub const MSG_EMPTY_PATH: &'static str = "path 为空";
pub const MSG_EMPTY_FILE: &'static str = "空文件";
pub const MSG_EMPTY_DEST: &'static str = "dest_path 为空";

impl ArchiveFormat {
    /// The format's file extension.
    pub fn as_str(&self) -> (r: &'static str)
        ensures
            r@ == format_ext(*self),
    {
        match self {
            ArchiveFormat::Zip => "zip",
            ArchiveFormat::SevenZ => "7z",
        }
    }
}

/// The file extension of a format (the word that names it).
pub open spec fn format_ext(f: ArchiveFormat) -> Seq<char> {
    match f {
        ArchiveFormat::Zip => "zip"@,
        ArchiveFormat::SevenZ => "7z"@,
    }
}

/// What an import request comes to: refused while another import runs,
/// then when its source (a path, or the archive's bytes) is empty, then by
/// its format and conflict policy.
pub open spec fn import_request_ok(busy: bool, source_empty: bool, from_path: bool, format: Seq<char>, conflict: Seq<char>,
    r: Result<(ArchiveFormat, ConflictPolicy), String>) -> bool {
    if busy {
        r is Err && r->Err_0@ == MSG_IMPORT_BUSY@
    } else if source_empty {
        r is Err && r->Err_0@ == if from_path { MSG_EMPTY_PATH@ } else { MSG_EMPTY_FILE@ }
    } else {
        match (format_named(format), policy_named(conflict)) {
            (None, _) => r is Err && r->Err_0@ == MSG_BAD_FORMAT@ + format,
            (Some(_), None) => r is Err && r->Err_0@ == MSG_BAD_POLICY@ + conflict,
            (Some(f), Some(p)) => r == Ok::<(ArchiveFormat, ConflictPolicy), String>((f, p)),
        }
    }
}

/// Checks an import request before anything is read.
pub fn check_import_request(busy: bool, source_empty: bool, from_path: bool, format: &str, conflict: &str)
    -> (r: Result<(ArchiveFormat, ConflictPolicy), String>)
    ensures
        import_request_ok(busy, source_empty, from_path, format@, conflict@, r),
{
    if busy {
        return Err(owned(MSG_IMPORT_BUSY));
    }
    if source_empty {
        return Err(owned(if from_path { MSG_EMPTY_PATH } else { MSG_EMPTY_FILE }));
    }
    let f = match parse_format(format) {
        Ok(f) => f,
        Err(e) => { return Err(e); },
    };
    let p = match parse_policy(conflict) {
        Ok(p) => p,
        Err(e) => { return Err(e); },
    };
    Ok((f, p))
}

/// Checks an export request: the format first, then (when exporting to a
/// chosen place) that the destination is given.
pub fn check_export_request(format: &str, dest_path: Option<&str>) -> (r: Result<ArchiveFormat, String>)
    ensures
        match format_named(format@) {
            None => r is Err && r->Err_0@ == MSG_BAD_FORMAT@ + format@,
            Some(f) => match dest_path {
                Some(d) => if d@.len() == 0 { r is Err && r->Err_0@ == MSG_EMPTY_DEST@ } else { r == Ok::<ArchiveFormat, String>(f) },
                None => r == Ok::<ArchiveFormat, String>(f),
            },
        },
{
    let f = match parse_format(format) {
        Ok(f) => f,
        Err(e) => { return Err(e); },
    };
    match dest_path {
        Some(d) => if crate::validate::is_empty_str(d) { Err(owned(MSG_EMPTY_DEST)) } else { Ok(f) },
        None => Ok(f),
    }
}

/// A path that names an Android document (`content://`), which is copied
/// through the document provider rather than the file system.
pub fn is_document_uri(path: &str) -> (r: bool)
    ensures
        r == starts_with(path@, "content://"@),
{
    starts_with_str(path, "content://")
}

pub const MSG_ROLE_PRE: &'static str = "role #";
pub const MSG_ROLE_NOT_FOUND: &'static str = " not found";
pub const MSG_ROLE_NO_FOLDER: &'static str = " has no resource_folder";

/// The folder of the role to export: `role` is none when no role has the
/// id, and holds its resource folder otherwise.
pub fn export_folder(role_id: i32, role: Option<Option<String>>) -> (r: Result<String, String>)
    ensures
        match role {
            None => r is Err && r->Err_0@ == MSG_ROLE_PRE@ + crate::switch::signed_decimal(role_id as int) + MSG_ROLE_NOT_FOUND@,
            Some(None) => r is Err && r->Err_0@ == MSG_ROLE_PRE@ + crate::switch::signed_decimal(role_id as int) + MSG_ROLE_NO_FOLDER@,
            Some(Some(f)) => r == Ok::<String, String>(f),
        },
{
    match role {
        Some(Some(f)) => Ok(f),
        Some(None) => {
            let id = signed_text(role_id);
            Err(cat3(MSG_ROLE_PRE, id.as_str(), MSG_ROLE_NO_FOLDER))
        },
        None => {
            let id = signed_text(role_id);
            Err(cat3(MSG_ROLE_PRE, id.as_str(), MSG_ROLE_NOT_FOUND))
        },
    }
}

fn signed_text(n: i32) -> (r: String)
    ensures
        r@ == crate::switch::signed_decimal(n as int),
{
    if n < 0 {
        let m: i64 = -(n as i64);
        let digits = decimal_u64(m as u64);
        cat("-", digits.as_str())
    } else {
        decimal_u64(n as u64)
    }
}

/// The name an exported archive is offered under: the cleaned role name,
/// `_`, the time in milliseconds, and the format's extension.
pub fn suggested_archive_name(role_name: &str, now_millis: u64, format: ArchiveFormat) -> (r: String)
    ensures
        r@ == exported_file_name(role_name@) + "_"@ + decimal(now_millis as nat) + "."@ + format_ext(format),
{
    let safe = sanitize_file_name(role_name);
    let ts = decimal_u64(now_millis);
    let head = cat3(safe.as_str(), "_", ts.as_str());
    cat3(head.as_str(), ".", format.as_str())
}

} // verus!
