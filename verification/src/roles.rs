//! Role management rules: where a role's settings live and which keys are
//! never written there, when a role may be deleted, and how an avatar image
//! is looked up.
use vstd::prelude::*;
use crate::json::JsonValue;
use crate::strmap::StrMap;
use crate::editor::texts;
use crate::text::{cat, cat3, cat5, owned, str_eq, starts_with, starts_with_str};
use crate::editor::{lower_ext, lower_ext_of, contains_text, entry_views};
use crate::scene::{file_stem_of, path_file_stem};
use crate::tts_local::{join_path, path_joined};
use crate::switch::signed_decimal;

verus! {

/// The kind of a role.
#[derive(Debug, Clone, Copy, PartialEq, Eq, Structural)]
pub enum RoleType {
    Main,
    Npc,
    System,
    User,
}

/// Where a role's settings file lives.
#[derive(Debug, Clone)]
pub enum SettingsDir {
    /// `characters/<folder>`.
    Character { folder: String },
    /// `scripts/<script key>/characters/<folder>`.
    ScriptNpc { script_key: String, folder: String },
}

fn decimal_i32(n: i32) -> (r: String)
    ensures
        r@ == signed_decimal(n as int),
{
    if n < 0 {
        let m: i64 = -(n as i64);
        let digits = crate::text::decimal_u64(m as u64);
        cat("-", digits.as_str())
    } else {
        crate::text::decimal_u64(n as u64)
    }
}

pub const MSG_ROLE_PRE: &'static str = "角色 ";
pub const MSG_NO_RESOURCE: &'static str = " 资源不存在";
pub const MSG_NO_SCRIPT: &'static str = " 缺少剧本关联";
pub const MSG_SYSTEM_LOCKED: &'static str = "系统角色不允许修改配置";

/// Where the settings of a role live: a main role under the characters
/// folder, an NPC under its script; system and user roles are not
/// configurable, and a role needs a resource folder (an NPC also a script).
pub open spec fn settings_dir_ok(role_id: i32, role_type: RoleType, folder: Option<Seq<char>>, script_key: Option<Seq<char>>,
    r: Result<SettingsDir, String>) -> bool {
    match folder {
        None => r is Err && r->Err_0@ == MSG_ROLE_PRE@ + signed_decimal(role_id as int) + MSG_NO_RESOURCE@,
        Some(f) => match role_type {
            RoleType::Main => r is Ok && (r->Ok_0 matches SettingsDir::Character { folder } && folder@ == f),
            RoleType::Npc => match script_key {
                None => r is Err && r->Err_0@ == MSG_ROLE_PRE@ + signed_decimal(role_id as int) + MSG_NO_SCRIPT@,
                Some(k) => r is Ok && (r->Ok_0 matches SettingsDir::ScriptNpc { script_key, folder } && script_key@ == k && folder@ == f),
            },
            _ => r is Err && r->Err_0@ == MSG_SYSTEM_LOCKED@,
        },
    }
}

/// Decides where a role's settings are saved.
pub fn settings_dir(role_id: i32, role_type: RoleType, folder: Option<String>, script_key: Option<String>) -> (r: Result<SettingsDir, String>)
    ensures
        settings_dir_ok(role_id, role_type, crate::diag::opt_view(folder), crate::diag::opt_view(script_key), r),
{
    let folder = match folder {
        Some(f) => f,
        None => {
            let id = decimal_i32(role_id);
            return Err(cat3(MSG_ROLE_PRE, id.as_str(), MSG_NO_RESOURCE));
        },
    };
    match role_type {
        RoleType::Main => Ok(SettingsDir::Character { folder }),
        RoleType::Npc => match script_key {
            Some(k) => Ok(SettingsDir::ScriptNpc { script_key: k, folder }),
            None => {
                let id = decimal_i32(role_id);
                Err(cat3(MSG_ROLE_PRE, id.as_str(), MSG_NO_SCRIPT))
            },
        },
        _ => Err(owned(MSG_SYSTEM_LOCKED)),
    }
}

/// The keys that only exist at run time and are never written to a
/// settings file.
pub open spec fn runtime_keys() -> Seq<Seq<char>> {
    seq!["character_id"@, "resource_path"@, "script_key"@, "script_role_key"@]
}

/// Drops the run-time keys from settings about to be saved; every other
/// entry stays as it was.
pub fn strip_runtime_keys(settings: &mut StrMap<JsonValue>)
    requires
        old(settings).wf(),
    ensures
        final(settings).wf(),
        final(settings).map() == old(settings).map().remove_keys(runtime_keys().to_set()),
{
    let keys: Vec<&'static str> = vec!["character_id", "resource_path", "script_key", "script_role_key"];
    assert(texts(keys@) =~= runtime_keys());
    let mut i: usize = 0;
    while i < keys.len()
        invariant
            i <= keys@.len(),
            texts(keys@) == runtime_keys(),
            settings.wf(),
            settings.map() == old(settings).map().remove_keys(runtime_keys().subrange(0, i as int).to_set()),
        decreases keys@.len() - i,
    {
        settings.remove(keys[i]);
        proof {
            let done = runtime_keys().subrange(0, i as int);
            let next = runtime_keys().subrange(0, i + 1);
            assert(next =~= done.push(keys@[i as int]@));
            done.lemma_push_to_set_commute(keys@[i as int]@);
            assert(settings.map() =~= old(settings).map().remove_keys(next.to_set()));
        }
        i = i + 1;
    }
    assert(runtime_keys().subrange(0, keys@.len() as int) =~= runtime_keys());
}

// ---------- deleting roles ----------

pub const MSG_PROTECTED: &'static str = "无法删除";
pub const MSG_ONLY_MAIN: &'static str = "只能删除 main 类型的主角色";
pub const MSG_ON_STAGE_PRE: &'static str = "角色「";
pub const MSG_ON_STAGE_POST: &'static str = "」正在对话中，无法删除";

/// The built-in roles (ids 0, 1 and 2) that are never deleted.
pub open spec fn protected_role(id: i32) -> bool {
    0 <= id <= 2
}

/// Where the conversation stands: who is present, speaking, the main role,
/// and who is on stage.
pub struct Stage {
    pub present_role_ids: Vec<i32>,
    pub current_role_id: Option<i32>,
    pub main_role_id: Option<i32>,
    pub onstage_role_ids: Vec<i32>,
}

/// A role takes part in the conversation.
pub open spec fn on_stage(s: Stage, id: i32) -> bool {
    s.present_role_ids@.contains(id) || s.current_role_id == Some(id) || s.main_role_id == Some(id)
        || s.onstage_role_ids@.contains(id)
}

/// Whether a role may be deleted: not a built-in role, a main role, and not
/// taking part in the conversation, checked in that order.
pub open spec fn deletion_ok(id: i32, role_type: RoleType, name: Seq<char>, stage: Stage, r: Result<(), String>) -> bool {
    if protected_role(id) {
        r is Err && r->Err_0@ == MSG_PROTECTED@
    } else if role_type != RoleType::Main {
        r is Err && r->Err_0@ == MSG_ONLY_MAIN@
    } else if on_stage(stage, id) {
        r is Err && r->Err_0@ == MSG_ON_STAGE_PRE@ + name + MSG_ON_STAGE_POST@
    } else {
        r is Ok
    }
}

fn holds(v: &Vec<i32>, id: i32) -> (r: bool)
    ensures
        r == v@.contains(id),
{
    let mut i: usize = 0;
    while i < v.len()
        invariant
            i <= v@.len(),
            forall|j: int| 0 <= j < i ==> v@[j] != id,
        decreases v@.len() - i,
    {
        if v[i] == id {
            assert(v@[i as int] == id);
            return true;
        }
        i = i + 1;
    }
    false
}

/// Checks that a role may be deleted.
pub fn check_deletion(id: i32, role_type: RoleType, name: &str, stage: &Stage) -> (r: Result<(), String>)
    ensures
        deletion_ok(id, role_type, name@, *stage, r),
{
    if 0 <= id && id <= 2 {
        return Err(owned(MSG_PROTECTED));
    }
    if role_type != RoleType::Main {
        return Err(owned(MSG_ONLY_MAIN));
    }
    let present = holds(&stage.present_role_ids, id) || stage.current_role_id == Some(id)
        || stage.main_role_id == Some(id) || holds(&stage.onstage_role_ids, id);
    if present {
        return Err(cat3(MSG_ON_STAGE_PRE, name, MSG_ON_STAGE_POST));
    }
    Ok(())
}

// ---------- avatar lookup ----------

/// The outfit folder an avatar is looked up in: none (the avatar folder
/// itself) for an empty name or `default`.
pub open spec fn clothes_dir(clothes: Seq<char>) -> Seq<char> {
    if clothes.len() == 0 || clothes == "default"@ { Seq::empty() } else { clothes }
}

/// The outfit folder an avatar is looked up in.
pub fn clothes_subdir(clothes: &str) -> (r: String)
    ensures
        r@ == clothes_dir(clothes@),
{
    proof {
        reveal_strlit("");
        assert(""@ =~= Seq::<char>::empty());
    }
    if str_eq(clothes, "") || str_eq(clothes, "default") {
        assert(clothes@.len() == 0 ==> clothes@ =~= ""@);
        owned("")
    } else {
        assert(clothes@.len() != 0) by {
            if clothes@.len() == 0 { assert(clothes@ =~= ""@); }
        }
        owned(clothes)
    }
}

/// The emotions tried in an avatar folder, in order: the emotion, and for
/// `平静` (calm) also `正常` (normal).
pub open spec fn emotion_order(emotion: Seq<char>) -> Seq<Seq<char>> {
    if emotion == "平静"@ { seq![emotion, "正常"@] } else { seq![emotion] }
}

/// The emotions to try for an avatar.
pub fn emotion_candidates(emotion: &str) -> (r: Vec<String>)
    ensures
        crate::text::views(r@) == emotion_order(emotion@),
{
    let mut r: Vec<String> = Vec::new();
    r.push(owned(emotion));
    if str_eq(emotion, "平静") {
        r.push(owned("正常"));
    }
    assert(crate::text::views(r@) =~= emotion_order(emotion@));
    r
}

pub const MSG_NO_AVATAR: &'static str = "未找到角色头像: folder=";

/// The refusal when no avatar image is found.
pub fn avatar_not_found(folder: &str, emotion: &str, clothes: &str) -> (r: String)
    ensures
        r@ == MSG_NO_AVATAR@ + folder@ + ", emotion="@ + emotion@ + ", clothes="@ + clothes@,
{
    let head = cat5(MSG_NO_AVATAR, folder, ", emotion=", emotion, ", clothes=");
    cat(head.as_str(), clothes)
}

/// The entry `k` of a folder (path and whether it is a file) is an image
/// for `stem`: a file whose lower-cased extension is one of `exts` and whose
/// stem is `stem`.
pub open spec fn emotion_file_at(entries: Seq<(Seq<char>, bool)>, stem: Seq<char>, exts: Seq<Seq<char>>, k: int) -> bool {
    &&& 0 <= k < entries.len()
    &&& entries[k].1
    &&& exts.contains(lower_ext(entries[k].0))
    &&& path_file_stem(entries[k].0) == Some(stem)
}

/// The image for `stem` in a folder, from its entries (path and whether it
/// is a file) in the order they were read: the first that matches.
pub fn find_emotion_file(entries: &Vec<(String, bool)>, stem: &str, extensions: &Vec<&'static str>) -> (r: Option<String>)
    ensures
        match r {
            Some(p) => exists|k: int| #[trigger] emotion_file_at(entry_views(entries@), stem@, texts(extensions@), k)
                && entry_views(entries@)[k].0 == p@
                && forall|j: int| 0 <= j < k ==> !emotion_file_at(entry_views(entries@), stem@, texts(extensions@), j),
            None => forall|j: int| !emotion_file_at(entry_views(entries@), stem@, texts(extensions@), j),
        },
{
    let ghost ev = entry_views(entries@);
    let ghost exts = texts(extensions@);
    let mut i: usize = 0;
    while i < entries.len()
        invariant
            i <= entries@.len(),
            ev == entry_views(entries@),
            exts == texts(extensions@),
            forall|j: int| 0 <= j < i ==> !emotion_file_at(ev, stem@, exts, j),
        decreases entries@.len() - i,
    {
        let (path, is_file) = (&entries[i].0, entries[i].1);
        assert(ev[i as int] == (path@, is_file));
        if is_file {
            let ext = lower_ext_of(path.as_str());
            if contains_text(extensions, ext.as_str()) {
                let fs = file_stem_of(path.as_str());
                let same = match &fs {
                    Some(f) => str_eq(f.as_str(), stem),
                    None => false,
                };
                if same {
                    assert(emotion_file_at(ev, stem@, exts, i as int));
                    return Some(path.clone());
                }
            }
        }
        i = i + 1;
    }
    None
}

pub const AVATAR_STEM: &'static str = "头像";

/// The extensions tried for the default avatar, in order.
pub open spec fn avatar_exts() -> Seq<Seq<char>> {
    seq!["png"@, "webp"@, "jpg"@, "jpeg"@, "gif"@, "bmp"@]
}

/// The file name `头像.<ext>`.
pub open spec fn avatar_file_name(ext: Seq<char>) -> Seq<char> {
    AVATAR_STEM@ + "."@ + ext
}

/// Some entry of the folder is named `name`.
pub open spec fn has_entry(entries: Seq<(Seq<char>, bool)>, name: Seq<char>) -> bool {
    exists|i: int| 0 <= i < entries.len() && (#[trigger] entries[i]).0 == name
}

/// The entry `i` is a file (not a folder) whose name starts with `头像`.
pub open spec fn avatar_like_at(entries: Seq<(Seq<char>, bool)>, i: int) -> bool {
    0 <= i < entries.len() && !entries[i].1 && starts_with(entries[i].0, AVATAR_STEM@)
}

/// The default avatar of a role, from the avatar folder `dir` and its
/// entries (name and whether it is a folder) in the order they were read:
/// `头像.<ext>` for the first extension of `avatar_exts` present; else the
/// first file whose name starts with `头像`; else the folder itself.
pub open spec fn default_avatar_ok(dir: Seq<char>, entries: Seq<(Seq<char>, bool)>, r: Seq<char>) -> bool {
    let exts = avatar_exts();
    if exists|k: int| 0 <= k < exts.len() && has_entry(entries, avatar_file_name(#[trigger] exts[k])) {
        exists|k: int| 0 <= k < exts.len() && has_entry(entries, avatar_file_name(#[trigger] exts[k]))
            && (forall|j: int| 0 <= j < k ==> !has_entry(entries, avatar_file_name(exts[j])))
            && r == path_joined(dir, avatar_file_name(exts[k]))
    } else if exists|i: int| #[trigger] avatar_like_at(entries, i) {
        exists|i: int| #[trigger] avatar_like_at(entries, i)
            && (forall|j: int| 0 <= j < i ==> !avatar_like_at(entries, j))
            && r == path_joined(dir, entries[i].0)
    } else {
        r == dir
    }
}

/// Whether some entry is named `name`.
fn entry_named(entries: &Vec<(String, bool)>, name: &str) -> (r: bool)
    ensures
        r == has_entry(entry_views(entries@), name@),
{
    let ghost ev = entry_views(entries@);
    let mut i: usize = 0;
    while i < entries.len()
        invariant
            i <= entries@.len(),
            ev == entry_views(entries@),
            forall|j: int| 0 <= j < i ==> ev[j].0 != name@,
        decreases entries@.len() - i,
    {
        assert(ev[i as int].0 == entries@[i as int].0@);
        if str_eq(entries[i].0.as_str(), name) {
            return true;
        }
        i = i + 1;
    }
    false
}

/// The path of a role's default avatar (see `default_avatar_ok`).
pub fn default_avatar_path(dir: &str, entries: &Vec<(String, bool)>) -> (r: String)
    ensures
        default_avatar_ok(dir@, entry_views(entries@), r@),
{
    let ghost ev = entry_views(entries@);
    let exts: Vec<&'static str> = vec!["png", "webp", "jpg", "jpeg", "gif", "bmp"];
    assert(texts(exts@) =~= avatar_exts());
    let mut k: usize = 0;
    while k < exts.len()
        invariant
            k <= exts@.len(),
            texts(exts@) == avatar_exts(),
            ev == entry_views(entries@),
            forall|j: int| 0 <= j < k ==> !has_entry(ev, avatar_file_name(avatar_exts()[j])),
        decreases exts@.len() - k,
    {
        let name = cat3(AVATAR_STEM, ".", exts[k]);
        assert(name@ == avatar_file_name(avatar_exts()[k as int]));
        if entry_named(entries, name.as_str()) {
            return join_path(dir, name.as_str());
        }
        k = k + 1;
    }
    assert(!exists|k: int| 0 <= k < avatar_exts().len() && has_entry(ev, avatar_file_name(#[trigger] avatar_exts()[k])));
    let mut i: usize = 0;
    while i < entries.len()
        invariant
            i <= entries@.len(),
            ev == entry_views(entries@),
            forall|j: int| 0 <= j < i ==> !avatar_like_at(ev, j),
            !exists|k: int| 0 <= k < avatar_exts().len() && has_entry(ev, avatar_file_name(#[trigger] avatar_exts()[k])),
        decreases entries@.len() - i,
    {
        assert(ev[i as int] == (entries@[i as int].0@, entries@[i as int].1));
        if !entries[i].1 && starts_with_str(entries[i].0.as_str(), AVATAR_STEM) {
            assert(avatar_like_at(ev, i as int));
            return join_path(dir, entries[i].0.as_str());
        }
        i = i + 1;
    }
    owned(dir)
}

/// How deep script packages sit under a folder of `scripts/`: two levels
/// under `character`, one under `standalone`, and any other folder is a
/// package itself (the old flat layout).
pub fn package_depth(folder_name: &str) -> (r: u8)
    ensures
        r == if folder_name@ == "character"@ { 2u8 } else if folder_name@ == "standalone"@ { 1u8 } else { 0u8 },
{
    if str_eq(folder_name, "character") { 2 } else if str_eq(folder_name, "standalone") { 1 } else { 0 }
}

} // verus!
