//! Script editor helpers: where each kind of asset lives, which files each
//! kind accepts, the listing of an asset folder, the summary of a script
//! package, and the skeleton of a new script.
use vstd::prelude::*;
use crate::diag::opt_view;
use crate::text::{
    cat, cat3, cat5, owned, str_eq, starts_with, starts_with_str, join, views, join_strings, chars_of,
    string_of_range, trim, trim_str, is_blank, find, find_str, lemma_find,
};
use crate::json::{JsonValue, lookup, str_of, bool_of, int_of, array_of, object_of};
use crate::tts_local::{extension_of, path_extension, to_lowercase, unicode_lower};
use crate::strset::{StrSet, item_views, strictly_sorted};

verus! {

/// Where an uploaded asset goes: into the script's own `Assets/`, or into the
/// global folders that every script can reach.
#[derive(Debug, Clone, Copy, PartialEq, Eq, Structural)]
pub enum AssetScope {
    Script,
    Global,
}

/// The asset file names of a script, by kind.
#[derive(Debug, Clone)]
pub struct AssetIndex {
    pub background: Vec<String>,
    pub music: Vec<String>,
    pub sound: Vec<String>,
    pub ambient: Vec<String>,
    pub pic: Vec<String>,
}

/// The texts of a list of static strings.
pub open spec fn texts(v: Seq<&'static str>) -> Seq<Seq<char>> {
    v.map_values(|s: &'static str| s@)
}

// ---------- folders ----------

/// The folders under a script's `Assets/` where the engine looks for an asset
/// of the given kind, in the order it looks.
pub open spec fn subdir_candidates(kind: Seq<char>) -> Seq<Seq<char>> {
    if kind == "background"@ {
        seq!["Backgrounds"@, "Pics"@, "Pictures"@, "Pic"@, "Picture"@]
    } else if kind == "music"@ {
        seq!["Musics"@, "BGMs"@, "Music"@, "BGM"@]
    } else if kind == "sound"@ {
        seq!["Sounds"@, "SoundEffects"@, "Sound"@, "SoundEffect"@]
    } else if kind == "ambient"@ {
        seq!["Ambients"@, "AmbientSounds"@, "Environment"@, "Ambient"@]
    } else if kind == "pic"@ {
        seq!["Pics"@, "Pictures"@, "Pic"@, "Picture"@]
    } else {
        seq![]
    }
}

/// The folders the engine searches for an asset of `kind` (none for an
/// unknown kind).
pub fn asset_subdir_candidates(kind: &str) -> (r: Vec<&'static str>)
    ensures
        texts(r@) == subdir_candidates(kind@),
{
    let r: Vec<&'static str> = if str_eq(kind, "background") {
        vec!["Backgrounds", "Pics", "Pictures", "Pic", "Picture"]
    } else if str_eq(kind, "music") {
        vec!["Musics", "BGMs", "Music", "BGM"]
    } else if str_eq(kind, "sound") {
        vec!["Sounds", "SoundEffects", "Sound", "SoundEffect"]
    } else if str_eq(kind, "ambient") {
        vec!["Ambients", "AmbientSounds", "Environment", "Ambient"]
    } else if str_eq(kind, "pic") {
        vec!["Pics", "Pictures", "Pic", "Picture"]
    } else {
        Vec::new()
    };
    assert(texts(r@) =~= subdir_candidates(kind@));
    r
}

pub const MSG_UNKNOWN_KIND: &'static str = "未知素材类别: ";

/// The folder under `Assets/` that an upload of the given kind goes to: the
/// first folder the engine searches.
pub open spec fn upload_subdir(kind: Seq<char>) -> Option<Seq<char>> {
    if subdir_candidates(kind).len() > 0 { Some(subdir_candidates(kind)[0]) } else { None }
}

/// The folder under `Assets/` for uploads of `kind`; unknown kinds are refused.
pub fn asset_subdir(kind: &str) -> (r: Result<&'static str, String>)
    ensures
        match upload_subdir(kind@) {
            Some(d) => r is Ok && r->Ok_0@ == d,
            None => r is Err && r->Err_0@ == MSG_UNKNOWN_KIND@ + kind@,
        },
{
    let c = asset_subdir_candidates(kind);
    if c.len() > 0 {
        Ok(c[0])
    } else {
        Err(cat(MSG_UNKNOWN_KIND, kind))
    }
}

// ---------- file types ----------

/// The extensions an asset of `kind` may have: images for backgrounds and
/// pictures, audio for everything else.
pub open spec fn allowed_exts(kind: Seq<char>) -> Seq<Seq<char>> {
    if kind == "background"@ || kind == "pic"@ {
        image_exts()
    } else {
        seq!["mp3"@, "wav"@, "ogg"@, "flac"@, "m4a"@]
    }
}

/// The image extensions.
pub open spec fn image_exts() -> Seq<Seq<char>> {
    seq!["png"@, "jpg"@, "jpeg"@, "webp"@, "bmp"@, "gif"@]
}

fn image_extensions() -> (r: Vec<&'static str>)
    ensures
        texts(r@) == image_exts(),
{
    let r: Vec<&'static str> = vec!["png", "jpg", "jpeg", "webp", "bmp", "gif"];
    assert(texts(r@) =~= image_exts());
    r
}

/// The extensions accepted for an asset of `kind`.
pub fn allowed_extensions(kind: &str) -> (r: Vec<&'static str>)
    ensures
        texts(r@) == allowed_exts(kind@),
{
    if str_eq(kind, "background") || str_eq(kind, "pic") {
        image_extensions()
    } else {
        let r: Vec<&'static str> = vec!["mp3", "wav", "ogg", "flac", "m4a"];
        assert(texts(r@) =~= allowed_exts(kind@));
        r
    }
}

pub(crate) fn contains_text(list: &Vec<&'static str>, s: &str) -> (r: bool)
    ensures
        r == texts(list@).contains(s@),
{
    let mut i: usize = 0;
    while i < list.len()
        invariant
            i <= list@.len(),
            forall|j: int| 0 <= j < i ==> texts(list@)[j] != s@,
        decreases list@.len() - i,
    {
        if str_eq(list[i], s) {
            assert(texts(list@)[i as int] == s@);
            return true;
        }
        i = i + 1;
    }
    false
}

fn owned_all(list: &Vec<&'static str>) -> (r: Vec<String>)
    ensures
        views(r@) == texts(list@),
{
    let mut r: Vec<String> = Vec::new();
    let mut i: usize = 0;
    while i < list.len()
        invariant
            i <= list@.len(),
            views(r@) == texts(list@).subrange(0, i as int),
        decreases list@.len() - i,
    {
        let x = owned(list[i]);
        let ghost r0 = r@;
        r.push(x);
        proof {
            assert(r@ == r0.push(x));
            assert(views(r@) =~= views(r0).push(x@));
            assert(texts(list@).subrange(0, i + 1) =~= texts(list@).subrange(0, i as int).push(list@[i as int]@));
        }
        i = i + 1;
    }
    assert(texts(list@).subrange(0, list@.len() as int) =~= texts(list@));
    r
}

/// The lower-cased extension of a file name, empty when it has none.
pub open spec fn lower_ext(name: Seq<char>) -> Seq<char> {
    match path_extension(name) {
        Some(e) => unicode_lower(e),
        None => ""@,
    }
}

pub(crate) fn lower_ext_of(name: &str) -> (r: String)
    ensures
        r@ == lower_ext(name@),
{
    match extension_of(name) {
        Some(e) => to_lowercase(e.as_str()),
        None => owned(""),
    }
}

pub const MSG_BAD_TYPE: &'static str = "不支持的文件类型 .";
pub const MSG_TYPE_SEP: &'static str = "；";
pub const MSG_SUPPORTS: &'static str = " 支持: ";
pub const MSG_BG_SUPPORTS: &'static str = "背景图支持: ";
pub const LIST_SEP: &'static str = " / ";

/// The refusal of an upload named `name` as an asset of `kind`, when its
/// extension is not one the kind accepts.
pub open spec fn upload_type_error(name: Seq<char>, kind: Seq<char>) -> Option<Seq<char>> {
    if allowed_exts(kind).contains(lower_ext(name)) {
        None
    } else {
        Some(MSG_BAD_TYPE@ + lower_ext(name) + MSG_TYPE_SEP@ + kind + MSG_SUPPORTS@ + join(allowed_exts(kind), LIST_SEP@))
    }
}

/// Checks the file type of an asset upload.
pub fn check_upload_extension(name: &str, kind: &str) -> (r: Result<(), String>)
    ensures
        match upload_type_error(name@, kind@) {
            Some(m) => r is Err && r->Err_0@ == m,
            None => r is Ok,
        },
{
    let ext = lower_ext_of(name);
    let allowed = allowed_extensions(kind);
    if contains_text(&allowed, ext.as_str()) {
        Ok(())
    } else {
        let list = join_strings(&owned_all(&allowed), LIST_SEP);
        let head = cat5(MSG_BAD_TYPE, ext.as_str(), MSG_TYPE_SEP, kind, MSG_SUPPORTS);
        Err(cat(head.as_str(), list.as_str()))
    }
}

/// The refusal of an editor background at `path`, when it is not an image.
pub open spec fn editor_bg_type_error(path: Seq<char>) -> Option<Seq<char>> {
    if image_exts().contains(lower_ext(path)) {
        None
    } else {
        Some(MSG_BAD_TYPE@ + lower_ext(path) + MSG_TYPE_SEP@ + MSG_BG_SUPPORTS@ + join(image_exts(), LIST_SEP@))
    }
}

/// Checks the file type of a custom editor background.
pub fn check_editor_bg_extension(path: &str) -> (r: Result<(), String>)
    ensures
        match editor_bg_type_error(path@) {
            Some(m) => r is Err && r->Err_0@ == m,
            None => r is Ok,
        },
{
    let ext = lower_ext_of(path);
    let allowed = image_extensions();
    if contains_text(&allowed, ext.as_str()) {
        Ok(())
    } else {
        let list = join_strings(&owned_all(&allowed), LIST_SEP);
        let head = cat5(MSG_BAD_TYPE, ext.as_str(), MSG_TYPE_SEP, MSG_BG_SUPPORTS, list.as_str());
        Err(head)
    }
}

// ---------- listings ----------

/// A file name that a listing shows: not a hidden file.
pub open spec fn visible_name(s: Seq<char>) -> bool {
    !starts_with(s, "."@)
}

/// The names that a listing of `names` shows.
pub open spec fn listed_names(names: Seq<Seq<char>>) -> Set<Seq<char>> {
    Set::new(|x: Seq<char>| names.contains(x) && visible_name(x))
}

/// The listing of an asset folder, given the names of the files found in
/// its candidate folders: hidden files dropped, each name once, sorted.
pub fn asset_listing(names: &Vec<String>) -> (r: Vec<String>)
    ensures
        strictly_sorted(item_views(r@)),
        item_views(r@).to_set() == listed_names(item_views(names@)),
{
    let mut set = StrSet::new();
    let mut i: usize = 0;
    while i < names.len()
        invariant
            i <= names@.len(),
            set.wf(),
            set.view() == listed_names(item_views(names@).subrange(0, i as int)),
        decreases names@.len() - i,
    {
        let n = names[i].as_str();
        let hidden = starts_with_str(n, ".");
        if !hidden {
            set.insert(n);
        }
        proof {
            let before = item_views(names@).subrange(0, i as int);
            let after = item_views(names@).subrange(0, i + 1);
            assert(after =~= before.push(n@));
            assert forall|x: Seq<char>| after.contains(x) <==> (before.contains(x) || x == n@) by {
                if after.contains(x) {
                    let k = choose|k: int| 0 <= k < after.len() && after[k] == x;
                    if k < before.len() {
                        assert(before[k] == x);
                    }
                }
                if before.contains(x) {
                    let k = choose|k: int| 0 <= k < before.len() && before[k] == x;
                    assert(after[k] == x);
                }
                if x == n@ {
                    assert(after[i as int] == x);
                }
            }
            assert(set.view() =~= listed_names(after));
        }
        i = i + 1;
    }
    proof {
        assert(item_views(names@).subrange(0, names@.len() as int) =~= item_views(names@));
    }
    set.to_vec()
}

// ---------- keys and chapter ids ----------

/// The position of the last `/` in `s`.
pub open spec fn last_slash(s: Seq<char>) -> Option<int>
    decreases s.len(),
{
    if s.len() == 0 {
        None
    } else if s.last() == '/' {
        Some(s.len() - 1)
    } else {
        last_slash(s.drop_last())
    }
}

proof fn lemma_last_slash(s: Seq<char>)
    ensures
        last_slash(s) is Some ==> 0 <= last_slash(s)->0 < s.len() && s[last_slash(s)->0] == '/',
    decreases s.len(),
{
    if s.len() > 0 && s.last() != '/' {
        lemma_last_slash(s.drop_last());
    }
}

fn last_slash_exec(v: &Vec<char>) -> (r: Option<usize>)
    ensures
        match last_slash(v@) {
            Some(k) => r is Some && r->0 == k,
            None => r is None,
        },
{
    let mut pos: Option<usize> = None;
    let mut i: usize = 0;
    while i < v.len()
        invariant
            i <= v@.len(),
            match last_slash(v@.subrange(0, i as int)) {
                Some(k) => pos is Some && pos->0 == k,
                None => pos is None,
            },
        decreases v@.len() - i,
    {
        proof {
            assert(v@.subrange(0, i + 1).drop_last() =~= v@.subrange(0, i as int));
            assert(v@.subrange(0, i + 1).last() == v@[i as int]);
        }
        if v[i] == '/' {
            pos = Some(i);
        }
        i = i + 1;
    }
    assert(v@.subrange(0, v@.len() as int) =~= v@);
    pos
}

/// The last `/`-separated segment of `s` (what `rsplit('/').next()` gives).
pub open spec fn last_segment(s: Seq<char>) -> Seq<char> {
    match last_slash(s) {
        Some(k) => s.subrange(k + 1, s.len() as int),
        None => s,
    }
}

/// The folder of a chapter id: what comes before its last `/`, if any.
pub open spec fn chapter_group_of(id: Seq<char>) -> Option<Seq<char>> {
    match last_slash(id) {
        Some(k) => Some(id.subrange(0, k)),
        None => None,
    }
}


/// The folder a chapter is grouped under in the flow chart.
pub fn chapter_group(id: &str) -> (r: Option<String>)
    ensures
        opt_view(r) == chapter_group_of(id@),
{
    let v = chars_of(id);
    proof {
        lemma_last_slash(v@);
    }
    match last_slash_exec(&v) {
        Some(k) => Some(string_of_range(&v, 0, k)),
        None => None,
    }
}

/// The last segment of a script key (its folder name).
pub fn key_last_segment(key: &str) -> (r: String)
    ensures
        r@ == last_segment(key@),
{
    let v = chars_of(key);
    proof {
        lemma_last_slash(v@);
    }
    match last_slash_exec(&v) {
        Some(k) => {
            assert(last_slash(v@) is Some && k == last_slash(v@)->0 && k < v@.len());
            string_of_range(&v, k + 1, v.len())
        },
        None => owned(key),
    }
}

/// The second `/`-separated segment of a key (what `split('/').nth(1)` gives).
pub open spec fn second_segment(key: Seq<char>) -> Option<Seq<char>> {
    match find(key, "/"@) {
        None => None,
        Some(i) => {
            let rest = key.subrange(i + 1, key.len() as int);
            match find(rest, "/"@) {
                Some(j) => Some(rest.subrange(0, j)),
                None => Some(rest),
            }
        },
    }
}

fn second_segment_exec(key: &str) -> (r: Option<String>)
    ensures
        opt_view(r) == second_segment(key@),
{
    let v = chars_of(key);
    proof {
        reveal_strlit("/");
        lemma_find(key@, "/"@);
    }
    match find_str(key, "/") {
        None => None,
        Some(i) => {
            assert(crate::text::occurs_at(key@, "/"@, i as int));
            assert("/"@.len() == 1);
            let n = v.len();
            assert(i + 1 <= n);
            let rest = string_of_range(&v, i + 1, n);
            proof {
                lemma_find(rest@, "/"@);
            }
            match find_str(rest.as_str(), "/") {
                Some(j) => {
                    let w = chars_of(rest.as_str());
                    Some(string_of_range(&w, 0, j))
                },
                None => Some(rest),
            }
        },
    }
}

// ---------- package summaries ----------

/// How a script package is laid out: on its own under `standalone/`, or under
/// a character as `character/<character>/<script>`.
#[derive(Debug, Clone, Copy, PartialEq, Eq, Structural)]
pub enum ScriptLayout {
    Standalone,
    Character,
}

/// What the editor shows of a script package.
#[derive(Debug, Clone)]
pub struct ScriptPackage {
    /// The key relative to `scripts/`, `/`-separated.
    pub key: String,
    pub layout: ScriptLayout,
    /// The leaf folder name.
    pub folder_name: String,
    /// The character folder the script is bound to.
    pub bound_character_folder: Option<String>,
    pub script_name: String,
    pub description: String,
    pub is_adventure: bool,
    pub chapter_count: usize,
    /// Whether the engine has loaded the script.
    pub loaded_by_engine: bool,
}

/// `v[key]`, for an object `v`.
pub open spec fn value_get(v: JsonValue, key: Seq<char>) -> Option<JsonValue> {
    match v {
        JsonValue::Object(m) => lookup(m@, key),
        _ => None,
    }
}

/// `v[key]`, for an optional object `v`.
pub open spec fn opt_value_get(v: Option<JsonValue>, key: Seq<char>) -> Option<JsonValue> {
    match v {
        Some(x) => value_get(x, key),
        None => None,
    }
}

fn value_get_exec<'a>(v: &'a JsonValue, key: &str) -> (r: Option<&'a JsonValue>)
    ensures
        match value_get(*v, key@) {
            Some(x) => r is Some && *r->0 == x,
            None => r is None,
        },
{
    match v {
        JsonValue::Object(m) => crate::json::get(m, key),
        _ => None,
    }
}

/// The displayed name of a script: its trimmed `script_name`, else the folder name.
pub open spec fn package_script_name(config: JsonValue, folder: Seq<char>) -> Seq<char> {
    let n = str_of(value_get(config, "script_name"@));
    if n is Some && trim(n->0).len() > 0 { trim(n->0) } else { folder }
}

/// Whether the story config marks the script as a bond adventure.
pub open spec fn package_is_adventure(config: JsonValue) -> bool {
    bool_of(opt_value_get(value_get(config, "adventure"@), "is_adventure"@)) == Some(true)
}

/// The character a script is bound to: the key's character folder under the
/// character layout; for a standalone adventure, its non-empty
/// `bound_character_folder`; otherwise none.
pub open spec fn package_bound_folder(key: Seq<char>, layout: ScriptLayout, config: JsonValue) -> Option<Seq<char>> {
    if layout == ScriptLayout::Character {
        second_segment(key)
    } else if package_is_adventure(config) {
        let b = str_of(opt_value_get(value_get(config, "adventure"@), "bound_character_folder"@));
        if b is Some && b->0.len() > 0 { b } else { None }
    } else {
        None
    }
}

/// The summary of a script package, from its key and layout, its story
/// config, its folder name, the names of the scripts the engine has loaded,
/// and its number of chapters.
pub fn package_summary(key: &str, layout: ScriptLayout, config: &JsonValue, folder_name: &str,
    loaded: &StrSet, chapter_count: usize) -> (r: ScriptPackage)
    requires
        loaded.wf(),
    ensures
        r.key@ == key@,
        r.layout == layout,
        r.folder_name@ == folder_name@,
        r.script_name@ == package_script_name(*config, folder_name@),
        r.description@ == match str_of(value_get(*config, "description"@)) { Some(d) => d, None => ""@ },
        r.is_adventure == package_is_adventure(*config),
        opt_view(r.bound_character_folder) == package_bound_folder(key@, layout, *config),
        r.loaded_by_engine == loaded@.contains(package_script_name(*config, folder_name@)),
        r.chapter_count == chapter_count,
{
    let script_name = match value_get_exec(config, "script_name") {
        Some(JsonValue::Str(s)) => {
            if is_blank(s.as_str()) { owned(folder_name) } else { trim_str(s.as_str()) }
        },
        _ => owned(folder_name),
    };
    let adventure = value_get_exec(config, "adventure");
    let is_adventure = match adventure {
        Some(a) => match value_get_exec(a, "is_adventure") {
            Some(JsonValue::Bool(b)) => *b,
            _ => false,
        },
        None => false,
    };
    proof {
        reveal_strlit("");
    }
    let bound = if layout == ScriptLayout::Character {
        second_segment_exec(key)
    } else if is_adventure {
        match adventure {
            Some(a) => match value_get_exec(a, "bound_character_folder") {
                Some(JsonValue::Str(b)) => {
                    proof {
                        assert(b@.len() == 0 ==> b@ =~= ""@);
                    }
                    if !str_eq(b.as_str(), "") { Some(owned(b.as_str())) } else { None }
                },
                _ => None,
            },
            None => None,
        }
    } else {
        None
    };
    let description = match value_get_exec(config, "description") {
        Some(JsonValue::Str(d)) => owned(d.as_str()),
        _ => owned(""),
    };
    proof {
        reveal_strlit("");
    }
    let loaded_by_engine = loaded.contains(script_name.as_str());
    ScriptPackage {
        key: owned(key),
        layout,
        folder_name: owned(folder_name),
        bound_character_folder: bound,
        script_name,
        description,
        is_adventure,
        chapter_count,
        loaded_by_engine,
    }
}

/// A chapter as the editor lists it.
#[derive(Debug, Clone)]
pub struct ChapterSummary {
    /// The id relative to `Chapters/`, without extension.
    pub id: String,
    /// The display name, when the chapter gives one.
    pub name: Option<String>,
    /// The folder of the chapter, for grouping; none at the top level.
    pub group: Option<String>,
    pub event_count: usize,
}

/// The summary of a chapter, grouped by the folder of its id.
pub fn chapter_summary(id: String, name: Option<String>, event_count: usize) -> (r: ChapterSummary)
    ensures
        r.id == id,
        r.name == name,
        opt_view(r.group) == chapter_group_of(id@),
        r.event_count == event_count,
{
    let group = chapter_group(id.as_str());
    ChapterSummary { id, name, group, event_count }
}

/// The name shown for a character: its trimmed `name`, else its trimmed
/// `ai_name`, else its folder.
pub open spec fn character_display_name(settings: JsonValue, folder: Seq<char>) -> Seq<char> {
    let n = str_of(value_get(settings, "name"@));
    let a = str_of(value_get(settings, "ai_name"@));
    if n is Some && trim(n->0).len() > 0 {
        trim(n->0)
    } else if a is Some && trim(a->0).len() > 0 {
        trim(a->0)
    } else {
        folder
    }
}

/// The name shown for a character, from its `settings.yml`.
pub fn display_name_of(settings: &JsonValue, folder: &str) -> (r: String)
    ensures
        r@ == character_display_name(*settings, folder@),
{
    if let Some(JsonValue::Str(n)) = value_get_exec(settings, "name") {
        if !is_blank(n.as_str()) {
            return trim_str(n.as_str());
        }
    }
    if let Some(JsonValue::Str(a)) = value_get_exec(settings, "ai_name") {
        if !is_blank(a.as_str()) {
            return trim_str(a.as_str());
        }
    }
    owned(folder)
}

// ---------- new scripts ----------

/// What the editor sends to create a script.
#[derive(Debug, Clone)]
pub struct CreateScriptRequest {
    /// The folder name of the script.
    pub folder_name: String,
    /// The displayed name; the folder name when blank.
    pub script_name: String,
    pub description: String,
    /// The opening chapter; `main` when blank.
    pub intro_chapter: String,
    /// Whether the script is a bond adventure bound to a character.
    pub is_adventure: bool,
    pub bound_character_folder: String,
}

/// The key of a new script: `character/<bound>/<folder>` for an adventure
/// bound to a character, `standalone/<folder>` otherwise.
pub open spec fn new_key(folder: Seq<char>, bound: Option<Seq<char>>) -> Seq<char> {
    match bound {
        Some(b) => "character/"@ + b + "/"@ + folder,
        None => "standalone/"@ + folder,
    }
}

/// The key under which a new script is created.
pub fn new_script_key(folder: &str, bound: Option<&str>) -> (r: String)
    ensures
        r@ == new_key(folder@, crate::archive::opt_text(bound)),
{
    match bound {
        Some(b) => {
            let head = cat3("character/", b, "/");
            cat(head.as_str(), folder)
        },
        None => cat("standalone/", folder),
    }
}

pub const MSG_SCRIPT_EXISTS_PRE: &'static str = "已存在同名剧本目录「";
pub const MSG_SCRIPT_EXISTS_POST: &'static str = "」，剧本名不能重名哦";

/// Some existing script key already ends in the folder name `folder` (the
/// folder name is the global key of bond adventures).
pub open spec fn folder_in_use(existing: Seq<Seq<char>>, folder: Seq<char>) -> bool {
    exists|i: int| 0 <= i < existing.len() && last_segment(#[trigger] existing[i]) == folder
}

/// Refuses a new script whose folder name an existing script already uses.
pub fn check_script_folder_free(existing: &Vec<String>, folder: &str) -> (r: Result<(), String>)
    ensures
        folder_in_use(views(existing@), folder@) ==> r is Err && r->Err_0@ == MSG_SCRIPT_EXISTS_PRE@ + folder@ + MSG_SCRIPT_EXISTS_POST@,
        !folder_in_use(views(existing@), folder@) ==> r is Ok,
{
    let mut i: usize = 0;
    while i < existing.len()
        invariant
            i <= existing@.len(),
            forall|j: int| 0 <= j < i ==> last_segment(#[trigger] views(existing@)[j]) != folder@,
        decreases existing@.len() - i,
    {
        let last = key_last_segment(existing[i].as_str());
        if str_eq(last.as_str(), folder) {
            assert(last_segment(views(existing@)[i as int]) == folder@);
            return Err(cat3(MSG_SCRIPT_EXISTS_PRE, folder, MSG_SCRIPT_EXISTS_POST));
        }
        i = i + 1;
    }
    Ok(())
}

/// The displayed name of a new script: the trimmed name, else the folder.
pub open spec fn name_or_folder(raw: Seq<char>, folder: Seq<char>) -> Seq<char> {
    if trim(raw).len() == 0 { folder } else { trim(raw) }
}

/// The displayed name of a new script.
pub fn script_name_or_folder(raw: &str, folder: &str) -> (r: String)
    ensures
        r@ == name_or_folder(raw@, folder@),
{
    if is_blank(raw) { owned(folder) } else { trim_str(raw) }
}

/// The opening chapter of a new script: the trimmed id, else `main`.
pub open spec fn intro_or_main(raw: Seq<char>) -> Seq<char> {
    if trim(raw).len() == 0 { "main"@ } else { trim(raw) }
}

/// The opening chapter of a new script.
pub fn intro_chapter_or_main(raw: &str) -> (r: String)
    ensures
        r@ == intro_or_main(raw@),
{
    if is_blank(raw) { owned("main") } else { trim_str(raw) }
}

/// The keys of an object's entries, in order.
pub open spec fn entry_keys(m: Seq<(String, JsonValue)>) -> Seq<Seq<char>> {
    m.map_values(|e: (String, JsonValue)| e.0@)
}

/// The story config of a new script: its name, opening chapter and trimmed
/// description, an empty recommended start, an empty player name, and for a
/// bond adventure the bound character (trimmed), order 0 and no unlock
/// conditions. Keys come in sorted order, as a JSON map keeps them.
pub fn new_story_config(script_name: &str, intro: &str, description: &str, bound: Option<&str>) -> (r: JsonValue)
    ensures
        r is Object,
        entry_keys(r->Object_0@) == (if bound is Some { seq!["adventure"@] } else { seq![] })
            + seq!["description"@, "intro_chapter"@, "recommand_start"@, "script_name"@, "script_settings"@],
        str_of(lookup(r->Object_0@, "script_name"@)) == Some(script_name@),
        str_of(lookup(r->Object_0@, "intro_chapter"@)) == Some(intro@),
        str_of(lookup(r->Object_0@, "description"@)) == Some(trim(description@)),
        str_of(lookup(r->Object_0@, "recommand_start"@)) == Some(""@),
        object_of(lookup(r->Object_0@, "script_settings"@)) is Some,
        entry_keys(object_of(lookup(r->Object_0@, "script_settings"@))->0) == seq!["user_name"@],
        str_of(lookup(object_of(lookup(r->Object_0@, "script_settings"@))->0, "user_name"@)) == Some(""@),
        bound is None ==> lookup(r->Object_0@, "adventure"@) is None,
        bound is Some ==> {
            let adv = object_of(lookup(r->Object_0@, "adventure"@));
            &&& adv is Some
            &&& entry_keys(adv->0) == seq!["bound_character_folder"@, "is_adventure"@, "order"@, "unlock_conditions"@]
            &&& str_of(lookup(adv->0, "bound_character_folder"@)) == Some(trim(bound->0@))
            &&& bool_of(lookup(adv->0, "is_adventure"@)) == Some(true)
            &&& int_of(lookup(adv->0, "order"@)) == Some(0i64)
            &&& array_of(lookup(adv->0, "unlock_conditions"@)) == Some(Seq::<JsonValue>::empty())
        },
{
    proof {
        reveal_strlit("adventure");
        reveal_strlit("description");
        reveal_strlit("intro_chapter");
        reveal_strlit("recommand_start");
        reveal_strlit("script_name");
        reveal_strlit("script_settings");
        reveal_strlit("user_name");
        reveal_strlit("bound_character_folder");
        reveal_strlit("is_adventure");
        reveal_strlit("order");
        reveal_strlit("unlock_conditions");
        reveal_strlit("");
        assert("adventure"@.len() == 9);
        assert("description"@.len() == 11 && "description"@[0] == 'd');
        assert("intro_chapter"@.len() == 13);
        assert("recommand_start"@.len() == 15 && "recommand_start"@[0] == 'r');
        assert("script_name"@.len() == 11 && "script_name"@[0] == 's');
        assert("script_settings"@.len() == 15 && "script_settings"@[0] == 's');
        assert("bound_character_folder"@.len() == 22);
        assert("is_adventure"@.len() == 12);
        assert("order"@.len() == 5);
        assert("unlock_conditions"@.len() == 17);
    }
    let mut m: Vec<(String, JsonValue)> = Vec::new();
    let ghost mut head: Seq<(String, JsonValue)> = Seq::empty();
    match bound {
        Some(b) => {
            let mut adv: Vec<(String, JsonValue)> = Vec::new();
            adv.push((owned("bound_character_folder"), JsonValue::Str(trim_str(b))));
            adv.push((owned("is_adventure"), JsonValue::Bool(true)));
            adv.push((owned("order"), JsonValue::Number(Some(0), true)));
            adv.push((owned("unlock_conditions"), JsonValue::Array(Vec::new())));
            let ghost a = adv@;
            assert(entry_keys(a) =~= seq!["bound_character_folder"@, "is_adventure"@, "order"@, "unlock_conditions"@]);
            reveal_with_fuel(lookup, 5);
            m.push((owned("adventure"), JsonValue::Object(adv)));
        },
        None => {},
    }
    proof {
        head = m@;
    }
    let mut settings: Vec<(String, JsonValue)> = Vec::new();
    settings.push((owned("user_name"), JsonValue::Str(owned(""))));
    assert(entry_keys(settings@) =~= seq!["user_name"@]);
    m.push((owned("description"), JsonValue::Str(trim_str(description))));
    m.push((owned("intro_chapter"), JsonValue::Str(owned(intro))));
    m.push((owned("recommand_start"), JsonValue::Str(owned(""))));
    m.push((owned("script_name"), JsonValue::Str(owned(script_name))));
    m.push((owned("script_settings"), JsonValue::Object(settings)));
    let ghost t = m@.subrange(head.len() as int, m@.len() as int);
    assert(m@ =~= head + t);
    assert(entry_keys(m@) =~= entry_keys(head) + seq!["description"@, "intro_chapter"@, "recommand_start"@, "script_name"@, "script_settings"@]);
    proof {
        lemma_lookup_concat(head, t, "description"@);
        lemma_lookup_concat(head, t, "intro_chapter"@);
        lemma_lookup_concat(head, t, "recommand_start"@);
        lemma_lookup_concat(head, t, "script_name"@);
        lemma_lookup_concat(head, t, "script_settings"@);
        lemma_lookup_concat(head, t, "adventure"@);
        reveal_with_fuel(lookup, 6);
    }
    JsonValue::Object(m)
}

/// Looking a key up in `a + b`: in `a` first, else in `b`.
pub proof fn lemma_lookup_concat(a: Seq<(String, JsonValue)>, b: Seq<(String, JsonValue)>, key: Seq<char>)
    ensures
        lookup(a + b, key) == if lookup(a, key) is Some { lookup(a, key) } else { lookup(b, key) },
    decreases a.len(),
{
    if a.len() > 0 {
        assert((a + b).drop_first() =~= a.drop_first() + b);
        lemma_lookup_concat(a.drop_first(), b, key);
    } else {
        assert(a + b =~= b);
    }
}

// ---------- script characters ----------

/// A character of a script, as the editor lists it.
#[derive(Debug, Clone)]
pub struct ScriptCharacter {
    /// The folder name.
    pub folder: String,
    /// What `character:` has to say to name it.
    pub role_key: String,
    pub ai_name: String,
    /// The emotions its avatar folder has images for.
    pub emotions: Vec<String>,
    /// The outfit folders of its avatar folder.
    pub clothes: Vec<String>,
    /// The image shown as its preview, if there is one.
    pub preview_image: Option<String>,
    /// Whether the global character library has an image for it.
    pub global_avatar: bool,
}

/// The key a script names a character by: its trimmed `script_role_key`,
/// else its folder.
pub open spec fn role_key_spec(settings: JsonValue, folder: Seq<char>) -> Seq<char> {
    let k = str_of(value_get(settings, "script_role_key"@));
    if k is Some && trim(k->0).len() > 0 { trim(k->0) } else { folder }
}

/// The key a script names a character by.
pub fn role_key_of(settings: &JsonValue, folder: &str) -> (r: String)
    ensures
        r@ == role_key_spec(*settings, folder@),
{
    if let Some(JsonValue::Str(k)) = value_get_exec(settings, "script_role_key") {
        if !is_blank(k.as_str()) {
            return trim_str(k.as_str());
        }
    }
    owned(folder)
}

/// The stem of a file name, empty when it has none.
pub open spec fn stem_text(p: Seq<char>) -> Seq<char> {
    match crate::scene::path_file_stem(p) {
        Some(s) => s,
        None => Seq::empty(),
    }
}

/// The stems of the files of an avatar folder (the entries that are not folders).
pub open spec fn emotion_stems(entries: Seq<(Seq<char>, bool)>) -> Set<Seq<char>> {
    Set::new(|x: Seq<char>| exists|i: int| 0 <= i < entries.len() && !entries[i].1
        && crate::scene::path_file_stem(#[trigger] entries[i].0) == Some(x))
}

/// The folders of an avatar folder.
pub open spec fn outfit_names(entries: Seq<(Seq<char>, bool)>) -> Set<Seq<char>> {
    Set::new(|x: Seq<char>| exists|i: int| 0 <= i < entries.len() && entries[i].1 && (#[trigger] entries[i]).0 == x)
}

/// The plain values of folder entries: name and whether it is a folder.
pub open spec fn entry_views(v: Seq<(String, bool)>) -> Seq<(Seq<char>, bool)> {
    v.map_values(|e: (String, bool)| (e.0@, e.1))
}

/// The emotions and outfits of an avatar folder, from its entries (name and
/// whether it is a folder): each sorted, each name once.
pub fn avatar_listing(entries: &Vec<(String, bool)>) -> (r: (Vec<String>, Vec<String>))
    ensures
        strictly_sorted(item_views(r.0@)),
        item_views(r.0@).to_set() == emotion_stems(entry_views(entries@)),
        strictly_sorted(item_views(r.1@)),
        item_views(r.1@).to_set() == outfit_names(entry_views(entries@)),
{
    let ghost ev = entry_views(entries@);
    let mut emotions = StrSet::new();
    let mut clothes = StrSet::new();
    let mut i: usize = 0;
    while i < entries.len()
        invariant
            i <= entries@.len(),
            ev == entry_views(entries@),
            emotions.wf(),
            clothes.wf(),
            emotions@ == emotion_stems(ev.subrange(0, i as int)),
            clothes@ == outfit_names(ev.subrange(0, i as int)),
        decreases entries@.len() - i,
    {
        let name = entries[i].0.as_str();
        let is_dir = entries[i].1;
        let ghost pre = ev.subrange(0, i as int);
        let ghost post = ev.subrange(0, i + 1);
        proof {
            assert(post =~= pre.push((name@, is_dir)));
        }
        let ghost e0 = emotions@;
        let ghost c0 = clothes@;
        if is_dir {
            clothes.insert(name);
        } else {
            match crate::scene::file_stem_of(name) {
                Some(stem) => {
                    emotions.insert(stem.as_str());
                    proof {
                        assert(crate::scene::path_file_stem(post[i as int].0) == Some(stem@));
                    }
                },
                None => {
                    proof {
                        assert(crate::scene::path_file_stem(post[i as int].0) is None);
                    }
                },
            }
        }
        proof {
            assert forall|x: Seq<char>| emotion_stems(post).contains(x) <==> emotions@.contains(x) by {
                if emotion_stems(post).contains(x) {
                    let k = choose|k: int| 0 <= k < post.len() && !post[k].1 && crate::scene::path_file_stem(#[trigger] post[k].0) == Some(x);
                    if k < pre.len() {
                        assert(pre[k] == post[k]);
                        assert(emotion_stems(pre).contains(x));
                    }
                }
                if e0.contains(x) {
                    let k = choose|k: int| 0 <= k < pre.len() && !pre[k].1 && crate::scene::path_file_stem(#[trigger] pre[k].0) == Some(x);
                    assert(post[k] == pre[k]);
                }
                if emotions@.contains(x) && !e0.contains(x) {
                    assert(post[i as int] == (name@, is_dir));
                }
            }
            assert forall|x: Seq<char>| outfit_names(post).contains(x) <==> clothes@.contains(x) by {
                if outfit_names(post).contains(x) {
                    let k = choose|k: int| 0 <= k < post.len() && post[k].1 && (#[trigger] post[k]).0 == x;
                    if k < pre.len() {
                        assert(pre[k] == post[k]);
                        assert(outfit_names(pre).contains(x));
                    }
                }
                if c0.contains(x) {
                    let k = choose|k: int| 0 <= k < pre.len() && pre[k].1 && (#[trigger] pre[k]).0 == x;
                    assert(post[k] == pre[k]);
                }
                if clothes@.contains(x) && !c0.contains(x) {
                    assert(post[i as int] == (name@, is_dir));
                }
            }
            assert(emotions@ =~= emotion_stems(post));
            assert(clothes@ =~= outfit_names(post));
        }
        i = i + 1;
    }
    proof {
        assert(ev.subrange(0, entries@.len() as int) =~= ev);
    }
    (emotions.to_vec(), clothes.to_vec())
}

/// An image an avatar preview may use.
pub open spec fn preview_candidate(p: Seq<char>) -> bool {
    seq!["png"@, "webp"@, "jpg"@, "jpeg"@, "gif"@].contains(lower_ext(p))
}

/// The rank of a preview image: base expressions first.
pub open spec fn preview_rank(p: Seq<char>) -> int {
    let s = stem_text(p);
    if s == "default"@ || s == "normal"@ || s == "idle"@ || s == "stand"@ { 0 } else { 1 }
}

/// `a` is a better preview than `b`: a lower rank, or the same rank and a
/// smaller stem.
pub open spec fn better_preview(a: Seq<char>, b: Seq<char>) -> bool {
    preview_rank(a) < preview_rank(b)
        || (preview_rank(a) == preview_rank(b) && crate::strset::lex_lt(stem_text(a), stem_text(b)))
}

/// `k` is the preview of `files`: a candidate no candidate beats, and the
/// first of those (the sort that picks it is stable).
pub open spec fn preview_at(files: Seq<Seq<char>>, k: int) -> bool {
    &&& 0 <= k < files.len()
    &&& preview_candidate(files[k])
    &&& forall|j: int| 0 <= j < files.len() && preview_candidate(#[trigger] files[j]) ==> !better_preview(files[j], files[k])
    &&& forall|j: int| 0 <= j < k && preview_candidate(#[trigger] files[j]) ==> better_preview(files[k], files[j])
}

fn preview_stem(p: &str) -> (r: String)
    ensures
        r@ == stem_text(p@),
{
    proof {
        reveal_strlit("");
        assert(""@ =~= Seq::<char>::empty());
    }
    match crate::scene::file_stem_of(p) {
        Some(s) => s,
        None => owned(""),
    }
}

fn preview_rank_exec(p: &str) -> (r: u8)
    ensures
        r as int == preview_rank(p@),
{
    let s = preview_stem(p);
    if str_eq(s.as_str(), "default") || str_eq(s.as_str(), "normal") || str_eq(s.as_str(), "idle") || str_eq(s.as_str(), "stand") { 0 } else { 1 }
}

fn preview_candidate_exec(p: &str) -> (r: bool)
    ensures
        r == preview_candidate(p@),
{
    let list: Vec<&'static str> = vec!["png", "webp", "jpg", "jpeg", "gif"];
    assert(texts(list@) =~= seq!["png"@, "webp"@, "jpg"@, "jpeg"@, "gif"@]);
    let ext = lower_ext_of(p);
    contains_text(&list, ext.as_str())
}

/// The preview image of an avatar folder, from the paths of its files:
/// a base expression (`default`, `normal`, `idle`, `stand`) first, then the
/// smallest stem; none when it has no image.
pub fn first_avatar_image(files: &Vec<String>) -> (r: Option<String>)
    ensures
        match r {
            Some(p) => exists|k: int| preview_at(views(files@), k) && views(files@)[k] == p@,
            None => forall|j: int| 0 <= j < files@.len() ==> !preview_candidate(#[trigger] views(files@)[j]),
        },
{
    let ghost fs = views(files@);
    let mut best: Option<usize> = None;
    let mut i: usize = 0;
    while i < files.len()
        invariant
            i <= files@.len(),
            fs == views(files@),
            match best {
                Some(b) => b < i && preview_candidate(fs[b as int])
                    && (forall|j: int| 0 <= j < i && preview_candidate(#[trigger] fs[j]) ==> !better_preview(fs[j], fs[b as int]))
                    && (forall|j: int| 0 <= j < b && preview_candidate(#[trigger] fs[j]) ==> better_preview(fs[b as int], fs[j])),
                None => forall|j: int| 0 <= j < i ==> !preview_candidate(#[trigger] fs[j]),
            },
        decreases files@.len() - i,
    {
        let p = files[i].as_str();
        if preview_candidate_exec(p) {
            match best {
                None => {
                    proof {
                        lemma_better_irrefl(fs[i as int]);
                    }
                    best = Some(i);
                },
                Some(b) => {
                    let rb = preview_rank_exec(files[b].as_str());
                    let rp = preview_rank_exec(p);
                    let sb = preview_stem(files[b].as_str());
                    let sp = preview_stem(p);
                    let better = rp < rb || (rp == rb && crate::strset::lex_lt_exec(sp.as_str(), sb.as_str()));
                    assert(better == better_preview(fs[i as int], fs[b as int]));
                    if better {
                        proof {
                            let pi = fs[i as int];
                            let pb = fs[b as int];
                            assert forall|j: int| 0 <= j < i + 1 && preview_candidate(#[trigger] fs[j]) implies !better_preview(fs[j], pi) by {
                                if j == i {
                                    lemma_better_irrefl(pi);
                                } else if better_preview(fs[j], pi) {
                                    lemma_better_trans(fs[j], pi, pb);
                                }
                            }
                            assert forall|j: int| 0 <= j < i && preview_candidate(#[trigger] fs[j]) implies better_preview(pi, fs[j]) by {
                                if j < b {
                                    lemma_better_trans(pi, pb, fs[j]);
                                } else if j == b {
                                } else {
                                    lemma_better_beats(fs[j], pb, pi);
                                }
                            }
                        }
                        best = Some(i);
                    }
                },
            }
        }
        i = i + 1;
    }
    match best {
        Some(b) => Some(owned(files[b].as_str())),
        None => None,
    }
}

proof fn lemma_better_irrefl(a: Seq<char>)
    ensures
        !better_preview(a, a),
{
    crate::strset::lemma_lex_irrefl(stem_text(a));
}

proof fn lemma_better_trans(a: Seq<char>, b: Seq<char>, c: Seq<char>)
    requires
        better_preview(a, b),
        better_preview(b, c),
    ensures
        better_preview(a, c),
{
    if preview_rank(a) == preview_rank(b) && preview_rank(b) == preview_rank(c) {
        crate::strset::lemma_lex_trans(stem_text(a), stem_text(b), stem_text(c));
    }
}

/// What beats `b` beats everything that does not beat `b`.
proof fn lemma_better_beats(x: Seq<char>, b: Seq<char>, p: Seq<char>)
    requires
        better_preview(p, b),
        !better_preview(x, b),
    ensures
        better_preview(p, x),
{
    crate::strset::lemma_lex_total(stem_text(x), stem_text(b));
    if preview_rank(p) == preview_rank(b) && preview_rank(x) == preview_rank(b) {
        if crate::strset::lex_lt(stem_text(b), stem_text(x)) {
            crate::strset::lemma_lex_trans(stem_text(p), stem_text(b), stem_text(x));
        }
    }
}

// ---------- trying a script in the editor ----------

/// Whether a script can be tried in the editor, and as whom.
#[derive(Debug, Clone)]
pub struct PreviewReadiness {
    pub ok: bool,
    /// The role `MAIN` resolves to; none when it cannot be resolved.
    pub main_role_name: Option<String>,
    pub main_role_id: Option<i32>,
    /// The player's name from that role's card; empty when it has none.
    pub user_name: String,
    /// The bound character's folder; empty for a standalone script.
    pub bound_character_folder: String,
    /// Why it cannot be tried, when it cannot.
    pub reason: Option<String>,
}

pub const MSG_PREVIEW_NO_MAIN: &'static str = "这个剧本没有绑定角色，当前也还没选定主角，试玩时 MAIN 会解析不到人。请先回主菜单选一个角色，或到剧本设置里把它设成某个角色的羁绊冒险。";
pub const MSG_PREVIEW_UNBOUND_PRE: &'static str = "剧本绑定的角色「";
pub const MSG_PREVIEW_UNBOUND_POST: &'static str = "」不在角色库里，试玩时 MAIN 会解析不到人。请确认 game_data/characters/ 下有这个目录。";

/// The bound character folder of a story config (`adventure.bound_character_folder`),
/// trimmed; empty when it has none.
pub open spec fn bound_folder_of(config: JsonValue) -> Seq<char> {
    match str_of(opt_value_get(value_get(config, "adventure"@), "bound_character_folder"@)) {
        Some(s) => trim(s),
        None => Seq::empty(),
    }
}

/// Reads the bound character folder of a story config.
pub fn bound_character_folder(config: &JsonValue) -> (r: String)
    ensures
        r@ == bound_folder_of(*config),
{
    match value_get_exec(config, "adventure") {
        Some(a) => match value_get_exec(a, "bound_character_folder") {
            Some(JsonValue::Str(s)) => trim_str(s.as_str()),
            _ => String::new(),
        },
        None => String::new(),
    }
}

/// Whether a script can be tried: `main` is the role `MAIN` resolves to
/// (the current main role for a script bound to no one, the role of the
/// bound folder otherwise) with its name and its card's player name.
pub fn preview_readiness(bound: String, main: Option<(i32, Option<String>, String)>) -> (r: PreviewReadiness)
    ensures
        r.bound_character_folder == bound,
        match main {
            Some((id, name, user)) => r.ok && r.main_role_id == Some(id) && r.main_role_name == name
                && r.user_name == user && r.reason is None,
            None => !r.ok && r.main_role_id is None && r.main_role_name is None && r.user_name@.len() == 0
                && r.reason is Some
                && r.reason->0@ == if bound@.len() == 0 { MSG_PREVIEW_NO_MAIN@ } else {
                    MSG_PREVIEW_UNBOUND_PRE@ + bound@ + MSG_PREVIEW_UNBOUND_POST@
                },
        },
{
    match main {
        Some((id, name, user)) => PreviewReadiness {
            ok: true,
            main_role_name: name,
            main_role_id: Some(id),
            user_name: user,
            bound_character_folder: bound,
            reason: None,
        },
        None => {
            let reason = if crate::validate::is_empty_str(bound.as_str()) {
                owned(MSG_PREVIEW_NO_MAIN)
            } else {
                cat3(MSG_PREVIEW_UNBOUND_PRE, bound.as_str(), MSG_PREVIEW_UNBOUND_POST)
            };
            PreviewReadiness {
                ok: false,
                main_role_name: None,
                main_role_id: None,
                user_name: String::new(),
                bound_character_folder: bound,
                reason: Some(reason),
            }
        },
    }
}

/// The folders made inside a new script package, as paths below it.
pub open spec fn skeleton_dirs() -> Seq<Seq<char>> {
    seq!["Chapters"@, "characters"@, "Assets/Backgrounds"@, "Assets/Musics"@, "Assets/Sounds"@, "Assets/Ambients"@, "Assets/Pics"@]
}

/// The folders made inside a new script package (the characters folder is
/// lower-case: the engine reads it so).
pub fn script_skeleton_dirs() -> (r: Vec<&'static str>)
    ensures
        texts(r@) == skeleton_dirs(),
{
    let r = vec!["Chapters", "characters", "Assets/Backgrounds", "Assets/Musics", "Assets/Sounds", "Assets/Ambients", "Assets/Pics"];
    assert(texts(r@) =~= skeleton_dirs());
    r
}

pub const FIRST_CHAPTER_NAME: &'static str = "第一章";
pub const FIRST_NARRATION: &'static str = "在这里写下第一句旁白。";

fn text_entry(key: &str, value: &str) -> (r: (String, JsonValue))
    ensures
        r.0@ == key@,
        r.1 is Str && r.1->Str_0@ == value@,
{
    (owned(key), JsonValue::Str(owned(value)))
}

/// The events of the opening chapter of a new script: one narration to
/// replace, then a linear end that leads to `end`.
pub fn first_chapter_events() -> (r: Vec<JsonValue>)
    ensures
        r@.len() == 2,
        r@[0] is Object,
        entry_keys(r@[0]->Object_0@) == seq!["type"@, "text"@],
        str_of(lookup(r@[0]->Object_0@, "type"@)) == Some("narration"@),
        str_of(lookup(r@[0]->Object_0@, "text"@)) == Some(FIRST_NARRATION@),
        r@[1] is Object,
        entry_keys(r@[1]->Object_0@) == seq!["type"@, "end_type"@, "next_chapter"@],
        str_of(lookup(r@[1]->Object_0@, "type"@)) == Some("chapter_end"@),
        str_of(lookup(r@[1]->Object_0@, "end_type"@)) == Some("linear"@),
        str_of(lookup(r@[1]->Object_0@, "next_chapter"@)) == Some("end"@),
{
    proof {
        reveal_strlit("type");
        reveal_strlit("text");
        reveal_strlit("end_type");
        reveal_strlit("next_chapter");
    }
    let narration = vec![text_entry("type", "narration"), text_entry("text", FIRST_NARRATION)];
    let end = vec![text_entry("type", "chapter_end"), text_entry("end_type", "linear"), text_entry("next_chapter", "end")];
    assert(entry_keys(narration@) =~= seq!["type"@, "text"@]);
    assert(entry_keys(end@) =~= seq!["type"@, "end_type"@, "next_chapter"@]);
    assert("type"@ != "text"@) by { assert("type"@[1] != "text"@[1]); }
    assert("type"@ != "end_type"@) by { assert("type"@.len() != "end_type"@.len()); }
    assert("type"@ != "next_chapter"@) by { assert("type"@.len() != "next_chapter"@.len()); }
    assert("end_type"@ != "next_chapter"@) by { assert("end_type"@.len() != "next_chapter"@.len()); }
    assert(narration@.drop_first()[0] == narration@[1]);
    assert(lookup(narration@.drop_first(), "text"@) == Some(narration@[1].1));
    assert(lookup(narration@, "text"@) == Some(narration@[1].1));
    assert(end@.drop_first()[0] == end@[1]);
    assert(lookup(end@.drop_first(), "end_type"@) == Some(end@[1].1));
    assert(end@.drop_first().drop_first()[0] == end@[2]);
    assert(lookup(end@.drop_first().drop_first(), "next_chapter"@) == Some(end@[2].1));
    assert(lookup(end@.drop_first(), "next_chapter"@) == Some(end@[2].1));
    vec![JsonValue::Object(narration), JsonValue::Object(end)]
}

/// The name under which a script is tried: the trimmed `script_name` of its
/// story config, else (missing or blank) the name of its folder.
pub open spec fn preview_name(config_name: Option<Seq<char>>, folder: Seq<char>) -> Seq<char> {
    match config_name {
        Some(n) => name_or_folder(n, folder),
        None => folder,
    }
}

/// The name under which a script is tried (see `preview_name`).
pub fn preview_script_name(config_name: Option<&str>, folder: &str) -> (r: String)
    ensures
        r@ == preview_name(match config_name { Some(n) => Some(n@), None => None }, folder@),
{
    match config_name {
        Some(n) => script_name_or_folder(n, folder),
        None => owned(folder),
    }
}

pub const MSG_PREVIEW_RUNNING: &'static str = "已经有剧本在运行，请先停止再试玩";
pub const MSG_PREVIEW_NOT_FOUND_PRE: &'static str = "引擎里找不到剧本「";
pub const MSG_PREVIEW_NOT_FOUND_POST: &'static str = "」。请先检查 story_config.yaml 的 script_name";
pub const MSG_PREVIEW_PATH_PRE: &'static str = "剧本路径不匹配：请求 ";
pub const MSG_PREVIEW_PATH_MID: &'static str = " 但引擎返回的是 ";
pub const MSG_PREVIEW_PATH_POST: &'static str = "。可能原因：多个剧本的 story_config.yaml 里 script_name 重名，后扫的覆盖了前面的。";

/// What the engine holds under the tried name: whether its folder is the
/// requested one (the two paths compared after resolving them), and its
/// folder as shown.
pub struct LoadedScriptPath {
    pub same_folder: bool,
    pub shown_path: String,
}

/// Whether a preview may start, in the order the checks are made: refused
/// while a script runs; refused when the engine holds no script of that
/// name; refused when the script it holds under that name lives in another
/// folder (two scripts with one name); allowed otherwise.
pub open spec fn preview_start_ok(running: bool, name: Seq<char>, requested: Seq<char>,
    loaded: Option<(bool, Seq<char>)>, r: Result<(), String>) -> bool
{
    if running {
        r is Err && r->Err_0@ == MSG_PREVIEW_RUNNING@
    } else {
        match loaded {
            None => r is Err && r->Err_0@ == MSG_PREVIEW_NOT_FOUND_PRE@ + name + MSG_PREVIEW_NOT_FOUND_POST@,
            Some((same, shown)) => if same {
                r is Ok
            } else {
                r is Err && r->Err_0@ == MSG_PREVIEW_PATH_PRE@ + requested + MSG_PREVIEW_PATH_MID@ + shown + MSG_PREVIEW_PATH_POST@
            },
        }
    }
}

/// The refusals of starting a preview (see `preview_start_ok`); `requested`
/// is the requested folder as shown.
pub fn check_preview_start(running: bool, name: &str, requested: &str, loaded: Option<&LoadedScriptPath>) -> (r: Result<(), String>)
    ensures
        preview_start_ok(running, name@, requested@,
            match loaded { Some(l) => Some((l.same_folder, l.shown_path@)), None => None }, r),
{
    if running {
        return Err(owned(MSG_PREVIEW_RUNNING));
    }
    match loaded {
        None => Err(cat3(MSG_PREVIEW_NOT_FOUND_PRE, name, MSG_PREVIEW_NOT_FOUND_POST)),
        Some(l) => {
            if l.same_folder {
                Ok(())
            } else {
                Err(cat5(MSG_PREVIEW_PATH_PRE, requested, MSG_PREVIEW_PATH_MID, l.shown_path.as_str(), MSG_PREVIEW_PATH_POST))
            }
        },
    }
}

/// What starting a preview returns: the generation of this preview run,
/// by which the front end drops late replies of an earlier run.
#[derive(Debug, Clone, Copy, PartialEq, Eq, Structural)]
pub struct PreviewStartInfo {
    pub generation: u64,
}

} // verus!
