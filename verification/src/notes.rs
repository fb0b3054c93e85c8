//! The memory tools: per-role manual notes, their file names, and the
//! checking of the arguments the model passes.
use vstd::prelude::*;
use crate::json::{JsonValue, lookup, get, has_key};
use crate::text::{trim, trim_str, is_blank, cat, cat3, owned, str_eq, chars_of, push_char, string_of};
use crate::tts_local::path_joined;

verus! {

// ---------- errors ----------

/// Why a tool call failed.
#[derive(Debug, Clone)]
pub enum ToolError {
    /// The arguments are not what the tool takes.
    InvalidArguments(String),
    /// The tool ran and failed.
    Execution(String),
}

pub const MSG_INVALID_PRE: &'static str = "工具参数无效: ";
pub const MSG_EXECUTION_PRE: &'static str = "工具执行失败: ";

/// The text of an error.
pub open spec fn tool_error_text(e: ToolError) -> Seq<char> {
    match e {
        ToolError::InvalidArguments(m) => MSG_INVALID_PRE@ + m@,
        ToolError::Execution(m) => MSG_EXECUTION_PRE@ + m@,
    }
}

impl ToolError {
    /// The error as text (its `Display`).
    pub fn message(&self) -> (r: String)
        ensures
            r@ == tool_error_text(*self),
    {
        match self {
            ToolError::InvalidArguments(m) => cat(MSG_INVALID_PRE, m.as_str()),
            ToolError::Execution(m) => cat(MSG_EXECUTION_PRE, m.as_str()),
        }
    }
}

/// An invalid-arguments error with the message `m`.
pub open spec fn invalid(e: ToolError, m: Seq<char>) -> bool {
    e is InvalidArguments && e->InvalidArguments_0@ == m
}

/// An execution error with the message `m`.
pub open spec fn failed(e: ToolError, m: Seq<char>) -> bool {
    e is Execution && e->Execution_0@ == m
}

// ---------- notes ----------

/// One manual memory note of a role.
#[derive(Debug, Clone)]
pub struct Note {
    pub id: String,
    pub content: String,
    pub tags: Vec<String>,
    pub created_at: String,
}

/// The memory tools (each runs against the current role).
pub struct GetCurrentMemory;
pub struct GetNotes;
pub struct AddNote;
pub struct UpdateNote;
pub struct DeleteNote;

/// What `char::is_alphanumeric` says of `c` (Unicode `Alphabetic` or `Numeric`).
pub uninterp spec fn unicode_alnum(c: char) -> bool;

/// `char::is_alphanumeric`; the Unicode tables it reads are named, not spelled out.
#[verifier::external_body]
pub(crate) fn is_alphanumeric(c: char) -> (r: bool)
    ensures
        r == unicode_alnum(c),
{
    c.is_alphanumeric()
}

/// A character a role's file name keeps.
pub open spec fn keeps(c: char) -> bool {
    unicode_alnum(c) || c == '_' || c == '-' || c == ' '
}

/// The characters of `s` that a file name keeps, in order.
pub open spec fn kept_chars(s: Seq<char>) -> Seq<char>
    decreases s.len(),
{
    if s.len() == 0 {
        s
    } else if keeps(s.last()) {
        kept_chars(s.drop_last()).push(s.last())
    } else {
        kept_chars(s.drop_last())
    }
}

/// The name a role's notes file is named after: the trimmed name with every
/// character but letters, digits, `_`, `-` and spaces dropped, trimmed again;
/// `unknown` when that is empty, `.` or `..`.
pub open spec fn sanitized_role_name(name: Seq<char>) -> Seq<char> {
    let cleaned = trim(kept_chars(trim(name)));
    if cleaned.len() == 0 || cleaned == "."@ || cleaned == ".."@ {
        "unknown"@
    } else {
        cleaned
    }
}

/// Cleans a role name for use as a file name.
pub fn sanitize_role_name(name: &str) -> (r: String)
    ensures
        r@ == sanitized_role_name(name@),
{
    let t = trim_str(name);
    let v = chars_of(t.as_str());
    let mut kept: Vec<char> = Vec::new();
    let mut i: usize = 0;
    while i < v.len()
        invariant
            i <= v@.len(),
            v@ == trim(name@),
            kept@ == kept_chars(v@.subrange(0, i as int)),
        decreases v@.len() - i,
    {
        let c = v[i];
        proof {
            assert(v@.subrange(0, i + 1).drop_last() =~= v@.subrange(0, i as int));
            assert(v@.subrange(0, i + 1).last() == c);
        }
        if is_alphanumeric(c) || c == '_' || c == '-' || c == ' ' {
            kept.push(c);
        }
        i = i + 1;
    }
    proof {
        assert(v@.subrange(0, v@.len() as int) =~= v@);
    }
    let joined = string_of(&kept);
    let cleaned = trim_str(joined.as_str());
    if is_blank(cleaned.as_str()) || str_eq(cleaned.as_str(), ".") || str_eq(cleaned.as_str(), "..") {
        proof {
            crate::text::lemma_trim_idempotent(joined@);
        }
        owned("unknown")
    } else {
        proof {
            crate::text::lemma_trim_idempotent(joined@);
        }
        cleaned
    }
}

/// The folder of the notes, under the data folder.
pub fn notes_dir(data_dir: &str) -> (r: String)
    ensures
        r@ == path_joined(path_joined(data_dir@, "game_data"@), "notes"@),
{
    let d = crate::tts_local::join_path(data_dir, "game_data");
    crate::tts_local::join_path(d.as_str(), "notes")
}

/// The notes file of a role: its sanitized name with `.json`, in the notes folder.
pub fn role_notes_path(notes_dir: &str, display_name: &str) -> (r: String)
    ensures
        r@ == path_joined(notes_dir@, sanitized_role_name(display_name@) + ".json"@),
{
    let n = sanitize_role_name(display_name);
    let f = cat(n.as_str(), ".json");
    crate::tts_local::join_path(notes_dir, f.as_str())
}

// ---------- arguments ----------

pub const MSG_TAGS_NOT_ARRAY: &'static str = " 的 tags 必须是字符串数组";
pub const MSG_TAGS_NOT_STRINGS: &'static str = " 的 tags 必须全部是字符串";
pub const MSG_NOT_OBJECT: &'static str = " 参数必须是 JSON object";

/// The strings of an array, if all its elements are strings.
pub open spec fn all_strings(a: Seq<JsonValue>) -> Option<Seq<Seq<char>>>
    decreases a.len(),
{
    if a.len() == 0 {
        Some(Seq::empty())
    } else {
        match (all_strings(a.drop_last()), a.last()) {
            (Some(prev), JsonValue::Str(s)) => Some(prev.push(s@)),
            _ => None,
        }
    }
}

/// The tags argument: absent gives none; otherwise it has to be an array of strings.
pub open spec fn tags_result(value: Option<JsonValue>, tool: Seq<char>, r: Result<Option<Vec<String>>, ToolError>) -> bool {
    match value {
        None => r is Ok && r->Ok_0 is None,
        Some(JsonValue::Array(a)) => match all_strings(a@) {
            Some(tags) => r is Ok && r->Ok_0 is Some && crate::text::views(r->Ok_0->0@) == tags,
            None => r is Err && invalid(r->Err_0, tool + MSG_TAGS_NOT_STRINGS@),
        },
        Some(_) => r is Err && invalid(r->Err_0, tool + MSG_TAGS_NOT_ARRAY@),
    }
}

/// Reads the `tags` argument of a memory tool.
pub fn parse_tags(value: Option<&JsonValue>, tool: &str) -> (r: Result<Option<Vec<String>>, ToolError>)
    ensures
        tags_result(match value { Some(v) => Some(*v), None => None }, tool@, r),
{
    let v = match value {
        None => { return Ok(None); },
        Some(v) => v,
    };
    let a = match v {
        JsonValue::Array(a) => a,
        _ => { return Err(ToolError::InvalidArguments(cat(tool, MSG_TAGS_NOT_ARRAY))); },
    };
    let mut tags: Vec<String> = Vec::new();
    let mut i: usize = 0;
    while i < a.len()
        invariant
            i <= a@.len(),
            value == Some(v),
            *v == JsonValue::Array(*a),
            all_strings(a@.subrange(0, i as int)) == Some(crate::text::views(tags@)),
        decreases a@.len() - i,
    {
        proof {
            assert(a@.subrange(0, i + 1).drop_last() =~= a@.subrange(0, i as int));
            assert(a@.subrange(0, i + 1).last() == a@[i as int]);
        }
        match &a[i] {
            JsonValue::Str(s) => {
                let ghost t0 = tags@;
                tags.push(owned(s.as_str()));
                proof {
                    assert(crate::text::views(tags@) =~= crate::text::views(t0).push(s@));
                }
            },
            _ => {
                proof {
                    assert(all_strings(a@.subrange(0, i + 1)) is None);
                    lemma_all_strings_prefix(a@, i as int + 1);
                    assert(all_strings(a@) is None);
                }
                return Err(ToolError::InvalidArguments(cat(tool, MSG_TAGS_NOT_STRINGS)));
            },
        }
        i = i + 1;
    }
    proof {
        assert(a@.subrange(0, a@.len() as int) =~= a@);
    }
    Ok(Some(tags))
}

proof fn lemma_all_strings_prefix(a: Seq<JsonValue>, k: int)
    requires
        0 <= k <= a.len(),
        all_strings(a.subrange(0, k)) is None,
    ensures
        all_strings(a) is None,
    decreases a.len() - k,
{
    if k < a.len() {
        assert(a.subrange(0, k + 1).drop_last() =~= a.subrange(0, k));
        lemma_all_strings_prefix(a, k + 1);
    } else {
        assert(a.subrange(0, k) =~= a);
    }
}

/// The entries of the arguments, which have to form an object.
pub fn require_object<'a>(arguments: &'a JsonValue, tool: &str) -> (r: Result<&'a Vec<(String, JsonValue)>, ToolError>)
    ensures
        match *arguments {
            JsonValue::Object(m) => r is Ok && *r->Ok_0 == m,
            _ => r is Err && invalid(r->Err_0, tool@ + MSG_NOT_OBJECT@),
        },
{
    match arguments {
        JsonValue::Object(m) => Ok(m),
        _ => Err(ToolError::InvalidArguments(cat(tool, MSG_NOT_OBJECT))),
    }
}

/// Sets the content and the tags of a note, each only when given.
pub fn apply_note_update(note: &mut Note, content: Option<String>, tags: Option<Vec<String>>)
    ensures
        final(note).id == old(note).id,
        final(note).created_at == old(note).created_at,
        final(note).content == match content { Some(c) => c, None => old(note).content },
        final(note).tags == match tags { Some(t) => t, None => old(note).tags },
{
    if let Some(content) = content {
        note.content = content;
    }
    if let Some(tags) = tags {
        note.tags = tags;
    }
}

pub const TOOL_ADD: &'static str = "memory_add_note";
pub const TOOL_UPDATE: &'static str = "memory_update_note";
pub const TOOL_DELETE: &'static str = "memory_delete_note";
pub const MSG_ADD_NEEDS_CONTENT: &'static str = "memory_add_note 需要 content";
pub const MSG_ADD_EMPTY: &'static str = "memory_add_note 的 content 不能为空";
pub const MSG_UPDATE_NEEDS_ID: &'static str = "memory_update_note 需要 id";
pub const MSG_UPDATE_NEEDS_ONE: &'static str = "memory_update_note 至少需要 content/tags 中的一项";
pub const MSG_UPDATE_NOT_STRING: &'static str = "memory_update_note 的 content 必须是字符串";
pub const MSG_UPDATE_EMPTY: &'static str = "memory_update_note 的 content 不能为空";
pub const MSG_DELETE_NEEDS_ID: &'static str = "memory_delete_note 需要 id";
pub const MSG_NOTE_PRE: &'static str = "笔记 ";
pub const MSG_NOTE_MISSING_POST: &'static str = " 不存在";

/// The view of the optional value at `key`.
pub open spec fn entry(m: Seq<(String, JsonValue)>, key: Seq<char>) -> Option<JsonValue> {
    lookup(m, key)
}

/// What `memory_add_note` makes of its arguments: the content (a non-blank
/// string) and the tags (none when absent).
pub open spec fn add_note_result(args: JsonValue, r: Result<(String, Vec<String>), ToolError>) -> bool {
    match args {
        JsonValue::Object(m) => match crate::json::get_str(m@, "content"@) {
            None => r is Err && invalid(r->Err_0, MSG_ADD_NEEDS_CONTENT@),
            Some(c) => if trim(c).len() == 0 {
                r is Err && invalid(r->Err_0, MSG_ADD_EMPTY@)
            } else {
                match lookup(m@, "tags"@) {
                    None => r is Ok && r->Ok_0.0@ == c && r->Ok_0.1@.len() == 0,
                    Some(JsonValue::Array(a)) => match all_strings(a@) {
                        Some(tags) => r is Ok && r->Ok_0.0@ == c && crate::text::views(r->Ok_0.1@) == tags,
                        None => r is Err && invalid(r->Err_0, TOOL_ADD@ + MSG_TAGS_NOT_STRINGS@),
                    },
                    Some(_) => r is Err && invalid(r->Err_0, TOOL_ADD@ + MSG_TAGS_NOT_ARRAY@),
                }
            },
        },
        _ => r is Err && invalid(r->Err_0, TOOL_ADD@ + MSG_NOT_OBJECT@),
    }
}

/// Checks the arguments of `memory_add_note`.
pub fn add_note_args(args: &JsonValue) -> (r: Result<(String, Vec<String>), ToolError>)
    ensures
        add_note_result(*args, r),
{
    let obj = match require_object(args, TOOL_ADD) {
        Ok(o) => o,
        Err(e) => { return Err(e); },
    };
    let content = match crate::json::get_str_exec(obj, "content") {
        Some(c) => c,
        None => { return Err(ToolError::InvalidArguments(owned(MSG_ADD_NEEDS_CONTENT))); },
    };
    if is_blank(content) {
        return Err(ToolError::InvalidArguments(owned(MSG_ADD_EMPTY)));
    }
    match parse_tags(get(obj, "tags"), TOOL_ADD) {
        Ok(Some(tags)) => Ok((owned(content), tags)),
        Ok(None) => Ok((owned(content), Vec::new())),
        Err(e) => Err(e),
    }
}

/// What `memory_update_note` makes of its arguments: the id, and the new
/// content and tags, at least one of them given.
pub open spec fn update_note_result(args: JsonValue, r: Result<(String, Option<String>, Option<Vec<String>>), ToolError>) -> bool {
    match args {
        JsonValue::Object(m) => match crate::json::get_str(m@, "id"@) {
            None => r is Err && invalid(r->Err_0, MSG_UPDATE_NEEDS_ID@),
            Some(id) => if !has_key(m@, "content"@) && !has_key(m@, "tags"@) {
                r is Err && invalid(r->Err_0, MSG_UPDATE_NEEDS_ONE@)
            } else {
                match lookup(m@, "content"@) {
                    Some(JsonValue::Str(c)) if trim(c@).len() == 0 => r is Err && invalid(r->Err_0, MSG_UPDATE_EMPTY@),
                    Some(JsonValue::Str(c)) => update_tags_result(m@, id, Some(c@), r),
                    Some(_) => r is Err && invalid(r->Err_0, MSG_UPDATE_NOT_STRING@),
                    None => update_tags_result(m@, id, None, r),
                }
            },
        },
        _ => r is Err && invalid(r->Err_0, TOOL_UPDATE@ + MSG_NOT_OBJECT@),
    }
}

/// The tags part of `update_note_result`.
pub open spec fn update_tags_result(m: Seq<(String, JsonValue)>, id: Seq<char>, content: Option<Seq<char>>,
    r: Result<(String, Option<String>, Option<Vec<String>>), ToolError>) -> bool {
    let ok_head = r is Ok && r->Ok_0.0@ == id && crate::diag::opt_view(r->Ok_0.1) == content;
    match lookup(m, "tags"@) {
        None => ok_head && r->Ok_0.2 is None,
        Some(JsonValue::Array(a)) => match all_strings(a@) {
            Some(tags) => ok_head && r->Ok_0.2 is Some && crate::text::views(r->Ok_0.2->0@) == tags,
            None => r is Err && invalid(r->Err_0, TOOL_UPDATE@ + MSG_TAGS_NOT_STRINGS@),
        },
        Some(_) => r is Err && invalid(r->Err_0, TOOL_UPDATE@ + MSG_TAGS_NOT_ARRAY@),
    }
}

/// Checks the arguments of `memory_update_note`.
pub fn update_note_args(args: &JsonValue) -> (r: Result<(String, Option<String>, Option<Vec<String>>), ToolError>)
    ensures
        update_note_result(*args, r),
{
    let obj = match require_object(args, TOOL_UPDATE) {
        Ok(o) => o,
        Err(e) => { return Err(e); },
    };
    let id = match crate::json::get_str_exec(obj, "id") {
        Some(i) => i,
        None => { return Err(ToolError::InvalidArguments(owned(MSG_UPDATE_NEEDS_ID))); },
    };
    if !crate::json::contains_key(obj, "content") && !crate::json::contains_key(obj, "tags") {
        return Err(ToolError::InvalidArguments(owned(MSG_UPDATE_NEEDS_ONE)));
    }
    let content: Option<String> = match get(obj, "content") {
        Some(JsonValue::Str(c)) => {
            if is_blank(c.as_str()) {
                return Err(ToolError::InvalidArguments(owned(MSG_UPDATE_EMPTY)));
            }
            Some(owned(c.as_str()))
        },
        Some(_) => { return Err(ToolError::InvalidArguments(owned(MSG_UPDATE_NOT_STRING))); },
        None => None,
    };
    match parse_tags(get(obj, "tags"), TOOL_UPDATE) {
        Ok(tags) => Ok((owned(id), content, tags)),
        Err(e) => Err(e),
    }
}

/// What `memory_delete_note` makes of its arguments: the id.
pub open spec fn delete_note_result(args: JsonValue, r: Result<String, ToolError>) -> bool {
    match args {
        JsonValue::Object(m) => match crate::json::get_str(m@, "id"@) {
            None => r is Err && invalid(r->Err_0, MSG_DELETE_NEEDS_ID@),
            Some(id) => r is Ok && r->Ok_0@ == id,
        },
        _ => r is Err && invalid(r->Err_0, TOOL_DELETE@ + MSG_NOT_OBJECT@),
    }
}

/// Checks the arguments of `memory_delete_note`.
pub fn delete_note_args(args: &JsonValue) -> (r: Result<String, ToolError>)
    ensures
        delete_note_result(*args, r),
{
    let obj = match require_object(args, TOOL_DELETE) {
        Ok(o) => o,
        Err(e) => { return Err(e); },
    };
    match crate::json::get_str_exec(obj, "id") {
        Some(i) => Ok(owned(i)),
        None => Err(ToolError::InvalidArguments(owned(MSG_DELETE_NEEDS_ID))),
    }
}

/// Index of the first note whose id is `id`.
pub open spec fn first_note(notes: Seq<Note>, id: Seq<char>, k: int) -> bool {
    &&& 0 <= k < notes.len()
    &&& notes[k].id@ == id
    &&& forall|j: int| 0 <= j < k ==> notes[j].id@ != id
}

/// Updates the first note with the id `id`; fails when there is none.
pub fn update_note(notes: &mut Vec<Note>, id: &str, content: Option<String>, tags: Option<Vec<String>>) -> (r: Result<(), ToolError>)
    ensures
        r is Err <==> forall|j: int| 0 <= j < old(notes)@.len() ==> old(notes)@[j].id@ != id@,
        r is Err ==> failed(r->Err_0, MSG_NOTE_PRE@ + id@ + MSG_NOTE_MISSING_POST@) && final(notes)@ == old(notes)@,
        r is Ok ==> exists|k: int| first_note(old(notes)@, id@, k) && final(notes)@ == old(notes)@.update(k, Note {
            id: old(notes)@[k].id,
            created_at: old(notes)@[k].created_at,
            content: match content { Some(c) => c, None => old(notes)@[k].content },
            tags: match tags { Some(t) => t, None => old(notes)@[k].tags },
        }),
{
    let mut k: usize = 0;
    while k < notes.len()
        invariant
            k <= notes@.len(),
            notes@ == old(notes)@,
            forall|j: int| 0 <= j < k ==> notes@[j].id@ != id@,
        decreases notes@.len() - k,
    {
        if str_eq(notes[k].id.as_str(), id) {
            let ghost n0 = notes@;
            let mut n = notes.remove(k);
            apply_note_update(&mut n, content, tags);
            notes.insert(k, n);
            proof {
                assert(first_note(n0, id@, k as int));
                assert(notes@ =~= n0.update(k as int, n));
            }
            return Ok(());
        }
        k = k + 1;
    }
    Err(ToolError::Execution(cat3(MSG_NOTE_PRE, id, MSG_NOTE_MISSING_POST)))
}

/// The notes whose id is not `id`.
pub open spec fn without_id(notes: Seq<Note>, id: Seq<char>) -> Seq<Note>
    decreases notes.len(),
{
    if notes.len() == 0 {
        notes
    } else if notes.last().id@ == id {
        without_id(notes.drop_last(), id)
    } else {
        without_id(notes.drop_last(), id).push(notes.last())
    }
}

/// Deletes every note with the id `id`; fails when there is none.
pub fn delete_note(notes: &mut Vec<Note>, id: &str) -> (r: Result<(), ToolError>)
    ensures
        r is Err <==> forall|j: int| 0 <= j < old(notes)@.len() ==> old(notes)@[j].id@ != id@,
        r is Err ==> failed(r->Err_0, MSG_NOTE_PRE@ + id@ + MSG_NOTE_MISSING_POST@),
        final(notes)@ == without_id(old(notes)@, id@),
{
    let ghost n0 = notes@;
    let mut kept: Vec<Note> = Vec::new();
    let mut found = false;
    while notes.len() > 0
        invariant
            n0 == old(notes)@,
            notes@.len() <= n0.len(),
            n0 =~= notes@ + n0.subrange(notes@.len() as int, n0.len() as int),
            found == exists|j: int| notes@.len() <= j < n0.len() && n0[j].id@ == id@,
            without_id(n0, id@) == without_id(notes@, id@) + kept@,
        decreases notes@.len(),
    {
        let ghost before = notes@;
        let n = notes.pop().unwrap();
        proof {
            assert(before.drop_last() =~= notes@);
            assert(before.last() == n);
            assert(n0[notes@.len() as int] == n);
        }
        if str_eq(n.id.as_str(), id) {
            found = true;
        } else {
            let ghost k0 = kept@;
            kept.insert(0, n);
            proof {
                assert(kept@ =~= seq![n] + k0);
                assert(without_id(before, id@) == without_id(notes@, id@).push(n));
                assert(without_id(notes@, id@).push(n) + k0 =~= without_id(notes@, id@) + kept@);
            }
        }
        proof {
            assert(n0 =~= notes@ + n0.subrange(notes@.len() as int, n0.len() as int));
        }
    }
    proof {
        assert(without_id(notes@, id@) =~= Seq::<Note>::empty());
        assert(without_id(n0, id@) =~= kept@);
    }
    *notes = kept;
    if !found {
        return Err(ToolError::Execution(cat3(MSG_NOTE_PRE, id, MSG_NOTE_MISSING_POST)));
    }
    Ok(())
}

// ---------- the memory panel ----------

/// A role's memory as the memory panel shows it.
#[derive(Debug, Clone)]
pub struct RoleMemoryView {
    pub role_id: i32,
    pub role_name: String,
    /// Whether lasting memory is switched on.
    pub memory_enabled: bool,
    pub schema_version: u32,
    /// When the memory was last condensed.
    pub updated_at: String,
    /// Recent context.
    pub short_term: String,
    /// The chronicle of what happened.
    pub long_term: String,
    /// What is known of the user.
    pub user_info: String,
    /// Promises and agreements.
    pub promises: String,
}

pub const MSG_ROLE_NOT_LOADED_PRE: &'static str = "角色 ";
pub const MSG_ROLE_NOT_LOADED_POST: &'static str = " 未加载（记忆库不可用）";

/// The refusal when the role's memory is asked for but the role is not loaded.
pub fn role_not_loaded(role_id: i32) -> (r: String)
    ensures
        r@ == MSG_ROLE_NOT_LOADED_PRE@ + crate::switch::signed_decimal(role_id as int) + MSG_ROLE_NOT_LOADED_POST@,
{
    let id = if role_id < 0 {
        let m: i64 = -(role_id as i64);
        let digits = crate::text::decimal_u64(m as u64);
        cat("-", digits.as_str())
    } else {
        crate::text::decimal_u64(role_id as u64)
    };
    cat3(MSG_ROLE_NOT_LOADED_PRE, id.as_str(), MSG_ROLE_NOT_LOADED_POST)
}

} // verus!
