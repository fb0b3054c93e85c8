//! Validating a whole script package: its configuration, its characters, its
//! chapters one by one, the chapter graph and the variables.
use vstd::prelude::*;
use crate::chapter::{ScanView, EventEnv, event_step, is_end_event, scan_view, env_view, check_event};
use crate::diag::{Diagnostic, DiagView, Severity, dviews, script_diag, chapter_diag, lemma_dviews_push, opt_view};
use crate::graph::{graph_checked, check_graph};
use crate::json::{JsonValue, lookup, get_str, get, get_str_exec};
use crate::report::{ChapterEdge, EdgeView, eviews, ValidationReport, finished, finish};
use crate::schema::ScriptSchema;
use crate::strset::{StrSet, strictly_sorted, item_views};
use crate::text::{views, trim, trim_str, is_blank, cat, cat3, owned, str_eq, join, join_strings, decimal, decimal_string};
use crate::validate::{chapter_id, chapter_id_of};

verus! {

// ---------- what the validator is given ----------

/// A chapter file: its events, or why they could not be had.
pub enum ChapterLoad {
    Loaded(Vec<JsonValue>),
    /// The chapter file could not be resolved.
    Unreadable(String),
    /// The file is not valid YAML.
    ParseFailed(String),
    /// The YAML does not have the shape of a chapter.
    BadShape(String),
}

/// One chapter of the package, with what only the file system can tell about it.
pub struct ChapterInput {
    pub id: String,
    pub load: ChapterLoad,
    /// For each event, whether its media path resolved to a file (missing entries count as resolved).
    pub assets_found: Vec<bool>,
    /// For each event, its playback speed as written when that is out of the recommended range.
    pub speeds: Vec<Option<String>>,
}

/// A folder under `characters/`, with its parsed `settings.yml` if it could be read.
pub struct CharacterEntry {
    pub folder: String,
    pub settings: Option<JsonValue>,
}

/// Everything the validator reads of a script package.
pub struct ScriptInput {
    /// The parsed `story_config.yaml`, or why it could not be read.
    pub config: Result<JsonValue, String>,
    /// The name of the script's folder.
    pub folder_name: String,
    /// The key of this script.
    pub script_key: String,
    /// For each script name, the keys of all scripts that use it.
    pub other_script_names: Vec<(String, Vec<String>)>,
    /// The chapters, in the order the package lists them.
    pub chapters: Vec<ChapterInput>,
    pub characters: Vec<CharacterEntry>,
    /// The keys of the built-in achievements.
    pub builtin_achievements: Vec<String>,
}

// ---------- reading plain values ----------

/// `v[key]` read as a string, `None` when `v` is no object.
pub open spec fn obj_get_str(v: JsonValue, key: Seq<char>) -> Option<Seq<char>> {
    match v {
        JsonValue::Object(m) => get_str(m@, key),
        _ => None,
    }
}

/// `v[key]`, `None` when `v` is no object.
pub open spec fn obj_lookup(v: JsonValue, key: Seq<char>) -> Option<JsonValue> {
    match v {
        JsonValue::Object(m) => lookup(m@, key),
        _ => None,
    }
}

fn obj_get_str_exec<'a>(v: &'a JsonValue, key: &str) -> (r: Option<&'a str>)
    ensures
        r is Some <==> obj_get_str(*v, key@) is Some,
        r is Some ==> r->0@ == obj_get_str(*v, key@)->0,
{
    match v {
        JsonValue::Object(m) => get_str_exec(m, key),
        _ => None,
    }
}

// ---------- characters ----------

/// The key the engine uses for a script character: the trimmed, non-empty
/// `script_role_key` of its settings, else its folder name.
pub open spec fn character_key(e: CharacterEntry) -> Seq<char> {
    match e.settings {
        Some(v) => match obj_get_str(v, "script_role_key"@) {
            Some(k) => if trim(k).len() > 0 { trim(k) } else { e.folder@ },
            None => e.folder@,
        },
        None => e.folder@,
    }
}

/// The keys of the characters of the script.
pub open spec fn character_keys(es: Seq<CharacterEntry>) -> Set<Seq<char>>
    decreases es.len(),
{
    if es.len() == 0 {
        Set::empty()
    } else {
        character_keys(es.drop_last()).insert(character_key(es.last()))
    }
}

/// Collects the keys of the script's characters.
pub fn collect_script_characters(entries: &Vec<CharacterEntry>) -> (r: StrSet)
    ensures
        r.wf(),
        r@ == character_keys(entries@),
{
    let mut r = StrSet::new();
    let mut i: usize = 0;
    while i < entries.len()
        invariant
            i <= entries@.len(),
            r.wf(),
            r@ == character_keys(entries@.subrange(0, i as int)),
        decreases entries@.len() - i,
    {
        let e = &entries[i];
        let key: String = match &e.settings {
            Some(v) => match obj_get_str_exec(v, "script_role_key") {
                Some(k) => {
                    let t = trim_str(k);
                    if is_blank(k) { owned(e.folder.as_str()) } else { t }
                },
                None => owned(e.folder.as_str()),
            },
            None => owned(e.folder.as_str()),
        };
        proof {
            crate::text::lemma_trim_idempotent(e.folder@);
            assert(entries@.subrange(0, i + 1).drop_last() =~= entries@.subrange(0, i as int));
            assert(entries@.subrange(0, i + 1).last() == entries@[i as int]);
        }
        r.insert(key.as_str());
        i = i + 1;
    }
    proof {
        assert(entries@.subrange(0, entries@.len() as int) =~= entries@);
    }
    r
}

pub const MSG_ROLE_PRE: &'static str = "角色「";
pub const MSG_NO_ROLE_KEY_POST: &'static str = "」缺少 script_role_key，引擎不会加载它（剧本 NPC 必须显式声明该字段）。请在 settings.yml 里补上。";
pub const MSG_NO_PERSONA_POST: &'static str = "」没有填写人设（settings.yml 的 system_prompt 为空）。它的 AI 对话会缺少性格设定，试玩时后台可能提示「人设丢失」";

/// The name shown for a character: its non-blank `ai_name`, else its folder.
pub open spec fn display_name(v: JsonValue, folder: Seq<char>) -> Seq<char> {
    match obj_get_str(v, "ai_name"@) {
        Some(s) => if trim(s).len() > 0 { s } else { folder },
        None => folder,
    }
}

/// Whether the persona (`system_prompt`) is missing or blank; a value that is
/// not a string counts as filled.
pub open spec fn persona_empty(v: JsonValue) -> bool {
    match obj_lookup(v, "system_prompt"@) {
        None => true,
        Some(JsonValue::Str(s)) => trim(s@).len() == 0,
        Some(_) => false,
    }
}

/// A warning for a character without `script_role_key`, and a note for a
/// character of the script without a persona.
pub open spec fn persona_entry_diags(e: CharacterEntry, known: Set<Seq<char>>) -> Seq<DiagView> {
    match e.settings {
        None => Seq::empty(),
        Some(v) => {
            let display = display_name(v, e.folder@);
            let raw = obj_get_str(v, "script_role_key"@);
            let has_key = raw is Some && trim(raw->0).len() > 0;
            let key = match raw {
                Some(k) => trim(k),
                None => e.folder@,
            };
            let a = if !has_key {
                seq![script_diag(Severity::Warn, "character.no_role_key"@, MSG_ROLE_PRE@ + display + MSG_NO_ROLE_KEY_POST@)]
            } else {
                Seq::empty()
            };
            let b = if persona_empty(v) && known.contains(key) {
                seq![script_diag(Severity::Info, "character.no_persona"@, MSG_ROLE_PRE@ + display + MSG_NO_PERSONA_POST@)]
            } else {
                Seq::empty()
            };
            a + b
        },
    }
}

/// The persona diagnostics of all characters, in order.
pub open spec fn persona_diags(es: Seq<CharacterEntry>, known: Set<Seq<char>>) -> Seq<DiagView>
    decreases es.len(),
{
    if es.len() == 0 {
        Seq::empty()
    } else {
        persona_diags(es.drop_last(), known) + persona_entry_diags(es.last(), known)
    }
}

/// Checks that every character has a role key and a persona.
pub fn check_character_personas(entries: &Vec<CharacterEntry>, known: &StrSet, diags: &mut Vec<Diagnostic>)
    requires
        known.wf(),
    ensures
        dviews(final(diags)@) == dviews(old(diags)@) + persona_diags(entries@, known@),
{
    let ghost d0 = dviews(diags@);
    let mut i: usize = 0;
    proof {
        assert(dviews(diags@) =~= d0 + persona_diags(entries@.subrange(0, 0), known@));
    }
    while i < entries.len()
        invariant
            i <= entries@.len(),
            known.wf(),
            dviews(diags@) == d0 + persona_diags(entries@.subrange(0, i as int), known@),
        decreases entries@.len() - i,
    {
        let e = &entries[i];
        let ghost before = dviews(diags@);
        proof {
            assert(entries@.subrange(0, i + 1).drop_last() =~= entries@.subrange(0, i as int));
            assert(entries@.subrange(0, i + 1).last() == entries@[i as int]);
        }
        match &e.settings {
            None => {
                proof {
                    assert(dviews(diags@) =~= before + persona_entry_diags(*e, known@));
                }
            },
            Some(v) => {
                let display: &str = match obj_get_str_exec(v, "ai_name") {
                    Some(s) => if is_blank(s) { e.folder.as_str() } else { s },
                    None => e.folder.as_str(),
                };
                let raw = obj_get_str_exec(v, "script_role_key");
                let has_key = match raw {
                    Some(k) => !is_blank(k),
                    None => false,
                };
                if !has_key {
                    let d = Diagnostic::script(Severity::Warn, "character.no_role_key", cat3(MSG_ROLE_PRE, display, MSG_NO_ROLE_KEY_POST));
                    let ghost dd = diags@;
                    diags.push(d);
                    proof {
                        lemma_dviews_push(dd, d);
                    }
                }
                let key: String = match raw {
                    Some(k) => trim_str(k),
                    None => owned(e.folder.as_str()),
                };
                let empty = match obj_lookup_exec(v, "system_prompt") {
                    None => true,
                    Some(JsonValue::Str(s)) => is_blank(s.as_str()),
                    Some(_) => false,
                };
                if empty && known.contains(key.as_str()) {
                    let d = Diagnostic::script(Severity::Info, "character.no_persona", cat3(MSG_ROLE_PRE, display, MSG_NO_PERSONA_POST));
                    let ghost dd = diags@;
                    diags.push(d);
                    proof {
                        lemma_dviews_push(dd, d);
                    }
                }
                proof {
                    assert(dviews(diags@) =~= before + persona_entry_diags(*e, known@));
                }
            },
        }
        i = i + 1;
    }
    proof {
        assert(entries@.subrange(0, entries@.len() as int) =~= entries@);
    }
}

fn obj_lookup_exec<'a>(v: &'a JsonValue, key: &str) -> (r: Option<&'a JsonValue>)
    ensures
        r is Some <==> obj_lookup(*v, key@) is Some,
        r is Some ==> *r->0 == obj_lookup(*v, key@)->0,
{
    match v {
        JsonValue::Object(m) => get(m, key),
        _ => None,
    }
}

// ---------- chapters ----------

/// Whether the media path of event `i` resolved (entries past the end count as resolved).
pub open spec fn found_at(v: Seq<bool>, i: int) -> bool {
    if 0 <= i < v.len() { v[i] } else { true }
}

/// The out-of-range playback speed of event `i`, if any.
pub open spec fn speed_at(v: Seq<Option<String>>, i: int) -> Option<Seq<char>> {
    if 0 <= i < v.len() { opt_view(v[i]) } else { None }
}

/// The index of the last event (0 for an empty chapter).
pub open spec fn last_index(n: nat) -> usize {
    if n == 0 { 0 } else { (n - 1) as usize }
}

/// The state after checking the first `n` events of a chapter.
pub open spec fn scan_events(st: ScanView, evs: Seq<JsonValue>, n: int, env: EventEnv, cid: Seq<char>,
    found: Seq<bool>, speeds: Seq<Option<String>>) -> ScanView
    decreases n,
{
    if n <= 0 {
        st
    } else {
        event_step(scan_events(st, evs, n - 1, env, cid, found, speeds), evs[n - 1], env, cid, (n - 1) as usize,
            last_index(evs.len()), found_at(found, n - 1), speed_at(speeds, n - 1))
    }
}

pub const MSG_NO_EVENTS: &'static str = "章节没有任何事件，运行时会立刻结束整个剧本";
pub const MSG_NO_END: &'static str = "章节缺少「章节结束」事件。引擎会把这当成整个剧本结束，而不是接着下一章";

/// The state after checking one chapter.
pub open spec fn chapter_step(st: ScanView, ch: ChapterInput, env: EventEnv) -> ScanView {
    let cid = ch.id@;
    match ch.load {
        ChapterLoad::Unreadable(e) => ScanView { diags: st.diags.push(chapter_diag(Severity::Error, "chapter.unreadable"@, cid, e@)), ..st },
        ChapterLoad::ParseFailed(e) => ScanView { diags: st.diags.push(chapter_diag(Severity::Error, "chapter.parse_failed"@, cid, e@)), ..st },
        ChapterLoad::BadShape(e) => ScanView { diags: st.diags.push(chapter_diag(Severity::Error, "chapter.bad_shape"@, cid, e@)), ..st },
        ChapterLoad::Loaded(evs) => {
            let st1 = if evs@.len() == 0 {
                ScanView { diags: st.diags.push(chapter_diag(Severity::Warn, "chapter.no_events"@, cid, MSG_NO_EVENTS@)), ..st }
            } else {
                st
            };
            let st2 = scan_events(st1, evs@, evs@.len() as int, env, cid, ch.assets_found@, ch.speeds@);
            if exists|j: int| 0 <= j < evs@.len() && is_end_event(#[trigger] evs@[j], env) {
                st2
            } else {
                ScanView { diags: st2.diags.push(chapter_diag(Severity::Error, "chapter.no_end"@, cid, MSG_NO_END@)), ..st2 }
            }
        },
    }
}

/// The state after checking the first `n` chapters.
pub open spec fn scan_chapters(st: ScanView, chs: Seq<ChapterInput>, n: int, env: EventEnv) -> ScanView
    decreases n,
{
    if n <= 0 {
        st
    } else {
        chapter_step(scan_chapters(st, chs, n - 1, env), chs[n - 1], env)
    }
}

/// Checks one chapter.
pub fn check_chapter(ch: &ChapterInput, schema: &ScriptSchema, known_effects: &[&'static str],
    chapter_set: &StrSet, characters: &StrSet, builtin: &Vec<String>,
    diags: &mut Vec<Diagnostic>, edges: &mut Vec<ChapterEdge>, written: &mut StrSet, read: &mut StrSet, achievements: &mut StrSet)
    requires
        chapter_set.wf(),
        characters.wf(),
        old(written).wf(),
        old(read).wf(),
        old(achievements).wf(),
    ensures
        final(written).wf(),
        final(read).wf(),
        final(achievements).wf(),
        scan_view(final(diags)@, final(edges)@, *final(written), *final(read), *final(achievements))
            == chapter_step(scan_view(old(diags)@, old(edges)@, *old(written), *old(read), *old(achievements)), *ch,
                env_view(*schema, known_effects@, *chapter_set, *characters, builtin@)),
{
    let ghost env = env_view(*schema, known_effects@, *chapter_set, *characters, builtin@);
    let ghost d0 = diags@;
    let cid = ch.id.as_str();
    match &ch.load {
        ChapterLoad::Unreadable(e) => {
            let d = Diagnostic::chapter(Severity::Error, "chapter.unreadable", cid, owned(e.as_str()));
            diags.push(d);
            proof { lemma_dviews_push(d0, d); }
        },
        ChapterLoad::ParseFailed(e) => {
            let d = Diagnostic::chapter(Severity::Error, "chapter.parse_failed", cid, owned(e.as_str()));
            diags.push(d);
            proof { lemma_dviews_push(d0, d); }
        },
        ChapterLoad::BadShape(e) => {
            let d = Diagnostic::chapter(Severity::Error, "chapter.bad_shape", cid, owned(e.as_str()));
            diags.push(d);
            proof { lemma_dviews_push(d0, d); }
        },
        ChapterLoad::Loaded(evs) => {
            if evs.len() == 0 {
                let d = Diagnostic::chapter(Severity::Warn, "chapter.no_events", cid, owned(MSG_NO_EVENTS));
                diags.push(d);
                proof { lemma_dviews_push(d0, d); }
            }
            let ghost st1 = scan_view(diags@, edges@, *written, *read, *achievements);
            let last: usize = if evs.len() == 0 { 0 } else { evs.len() - 1 };
            let mut has_end = false;
            let mut i: usize = 0;
            while i < evs.len()
                invariant
                    i <= evs@.len(),
                    last == last_index(evs@.len()),
                    chapter_set.wf(),
                    characters.wf(),
                    written.wf(),
                    read.wf(),
                    achievements.wf(),
                    env == env_view(*schema, known_effects@, *chapter_set, *characters, builtin@),
                    scan_view(diags@, edges@, *written, *read, *achievements)
                        == scan_events(st1, evs@, i as int, env, cid@, ch.assets_found@, ch.speeds@),
                    has_end == exists|j: int| 0 <= j < i && is_end_event(#[trigger] evs@[j], env),
                decreases evs@.len() - i,
            {
                let found = if i < ch.assets_found.len() { ch.assets_found[i] } else { true };
                let no_speed: Option<String> = None;
                let speed: &Option<String> = if i < ch.speeds.len() { &ch.speeds[i] } else { &no_speed };
                let e = check_event(&evs[i], schema, known_effects, chapter_set, characters, builtin,
                    cid, i, last, found, speed, diags, edges, written, read, achievements);
                proof {
                    if e {
                        assert(is_end_event(evs@[i as int], env));
                    }
                    if has_end || e {
                        if !has_end {
                            assert(is_end_event(evs@[i as int], env));
                        }
                    } else {
                        assert forall|j: int| 0 <= j < i + 1 implies !is_end_event(#[trigger] evs@[j], env) by {
                            if j == i {
                                assert(!e);
                            }
                        }
                    }
                }
                has_end = has_end || e;
                i = i + 1;
            }
            if !has_end {
                let d = Diagnostic::chapter(Severity::Error, "chapter.no_end", cid, owned(MSG_NO_END));
                let ghost dd = diags@;
                diags.push(d);
                proof { lemma_dviews_push(dd, d); }
            }
        },
    }
}

// ---------- the script name ----------

pub const MSG_NO_NAME_PRE: &'static str = "没有填剧本名，列表里会显示目录名「";
pub const MSG_NO_NAME_POST: &'static str = "」";
pub const MSG_DUP_NAME_PRE: &'static str = "剧本名「";
pub const MSG_DUP_NAME_MID: &'static str = "」与 ";
pub const MSG_DUP_NAME_COUNT: &'static str = " 个剧本重名：";
pub const MSG_DUP_NAME_POST: &'static str = "。引擎用剧本名作索引，重名会导致其中一些在列表里完全消失";
pub const NAME_SEP: &'static str = "、";

/// The keys of the scripts named `name`, from the first entry for it.
pub open spec fn scripts_named(others: Seq<(String, Vec<String>)>, name: Seq<char>) -> Option<Seq<Seq<char>>>
    decreases others.len(),
{
    if others.len() == 0 {
        None
    } else if others[0].0@ == name {
        Some(views(others[0].1@))
    } else {
        scripts_named(others.drop_first(), name)
    }
}

/// The keys other than `me`, in order.
pub open spec fn others_than(keys: Seq<Seq<char>>, me: Seq<char>) -> Seq<Seq<char>>
    decreases keys.len(),
{
    if keys.len() == 0 {
        Seq::empty()
    } else if keys.last() == me {
        others_than(keys.drop_last(), me)
    } else {
        others_than(keys.drop_last(), me).push(keys.last())
    }
}

/// The trimmed `script_name` of the configuration.
pub open spec fn script_name_of(cfg: JsonValue) -> Seq<char> {
    match obj_get_str(cfg, "script_name"@) {
        Some(s) => trim(s),
        None => Seq::empty(),
    }
}

/// A warning for a missing script name, or an error for one that other scripts use too.
pub open spec fn name_diags(cfg: JsonValue, folder: Seq<char>, me: Seq<char>, others: Seq<(String, Vec<String>)>) -> Seq<DiagView> {
    let name = script_name_of(cfg);
    if name.len() == 0 {
        seq![script_diag(Severity::Warn, "config.no_script_name"@, MSG_NO_NAME_PRE@ + folder + MSG_NO_NAME_POST@)]
    } else {
        match scripts_named(others, name) {
            Some(keys) => {
                let c = others_than(keys, me);
                if c.len() > 0 {
                    seq![script_diag(Severity::Error, "config.duplicate_name"@, MSG_DUP_NAME_PRE@ + name + MSG_DUP_NAME_MID@
                        + decimal(c.len()) + MSG_DUP_NAME_COUNT@ + join(c, NAME_SEP@) + MSG_DUP_NAME_POST@)]
                } else {
                    Seq::empty()
                }
            },
            None => Seq::empty(),
        }
    }
}

fn find_scripts_named<'a>(others: &'a Vec<(String, Vec<String>)>, name: &str) -> (r: Option<&'a Vec<String>>)
    ensures
        r is Some <==> scripts_named(others@, name@) is Some,
        r is Some ==> views(r->0@) == scripts_named(others@, name@)->0,
{
    let mut i: usize = 0;
    assert(others@.subrange(0, others@.len() as int) =~= others@);
    while i < others.len()
        invariant
            i <= others@.len(),
            scripts_named(others@, name@) == scripts_named(others@.subrange(i as int, others@.len() as int), name@),
        decreases others@.len() - i,
    {
        let ghost rest = others@.subrange(i as int, others@.len() as int);
        proof {
            assert(rest[0] == others@[i as int]);
            assert(rest.drop_first() =~= others@.subrange(i + 1, others@.len() as int));
        }
        if str_eq(others[i].0.as_str(), name) {
            return Some(&others[i].1);
        }
        i = i + 1;
    }
    None
}

/// Checks the script name.
pub fn check_script_name(cfg: &JsonValue, input: &ScriptInput, diags: &mut Vec<Diagnostic>)
    ensures
        dviews(final(diags)@) == dviews(old(diags)@)
            + name_diags(*cfg, input.folder_name@, input.script_key@, input.other_script_names@),
{
    let ghost d0 = dviews(diags@);
    let name: String = match obj_get_str_exec(cfg, "script_name") {
        Some(s) => trim_str(s),
        None => String::new(),
    };
    if crate::validate::is_empty_str(name.as_str()) {
        let d = Diagnostic::script(Severity::Warn, "config.no_script_name",
            cat3(MSG_NO_NAME_PRE, input.folder_name.as_str(), MSG_NO_NAME_POST));
        let ghost dd = diags@;
        diags.push(d);
        proof {
            lemma_dviews_push(dd, d);
            assert(dviews(diags@) =~= d0 + name_diags(*cfg, input.folder_name@, input.script_key@, input.other_script_names@));
        }
        return;
    }
    match find_scripts_named(&input.other_script_names, name.as_str()) {
        None => {
            proof {
                assert(dviews(diags@) =~= d0 + name_diags(*cfg, input.folder_name@, input.script_key@, input.other_script_names@));
            }
        },
        Some(keys) => {
            let mut c: Vec<String> = Vec::new();
            let mut k: usize = 0;
            while k < keys.len()
                invariant
                    k <= keys@.len(),
                    views(c@) == others_than(views(keys@).subrange(0, k as int), input.script_key@),
                decreases keys@.len() - k,
            {
                let ghost c0 = c@;
                proof {
                    assert(views(keys@).subrange(0, k + 1).drop_last() =~= views(keys@).subrange(0, k as int));
                    assert(views(keys@).subrange(0, k + 1).last() == keys@[k as int]@);
                }
                if !str_eq(keys[k].as_str(), input.script_key.as_str()) {
                    c.push(owned(keys[k].as_str()));
                    proof {
                        assert(views(c@) =~= views(c0).push(keys@[k as int]@));
                    }
                }
                k = k + 1;
            }
            proof {
                assert(views(keys@).subrange(0, keys@.len() as int) =~= views(keys@));
            }
            if c.len() > 0 {
                let mut msg = cat3(MSG_DUP_NAME_PRE, name.as_str(), MSG_DUP_NAME_MID);
                let count = decimal_string(c.len());
                msg.append(count.as_str());
                msg.append(MSG_DUP_NAME_COUNT);
                let joined = join_strings(&c, NAME_SEP);
                msg.append(joined.as_str());
                msg.append(MSG_DUP_NAME_POST);
                let d = Diagnostic::script(Severity::Error, "config.duplicate_name", msg);
                let ghost dd = diags@;
                diags.push(d);
                proof {
                    lemma_dviews_push(dd, d);
                    assert(views(c@).len() == c@.len());
                    assert(dviews(diags@) =~= d0 + name_diags(*cfg, input.folder_name@, input.script_key@, input.other_script_names@));
                }
            } else {
                proof {
                    assert(dviews(diags@) =~= d0 + name_diags(*cfg, input.folder_name@, input.script_key@, input.other_script_names@));
                }
            }
        },
    }
}

// ---------- variables ----------

pub const MSG_NEVER_SET_PRE: &'static str = "「";
pub const MSG_NEVER_SET_POST: &'static str = "」这个变量不会正常运作，请使用「设置变量」给它赋值，或检查变量名是不是写错了";
pub const MSG_NEVER_READ_PRE: &'static str = "变量「";
pub const MSG_NEVER_READ_POST: &'static str = "」被赋值但从未在任何条件里使用";

/// One warning per variable that is read but never set.
pub open spec fn never_set_diags(l: Seq<Seq<char>>) -> Seq<DiagView> {
    l.map_values(|v: Seq<char>| script_diag(Severity::Warn, "variable.never_set"@, MSG_NEVER_SET_PRE@ + v + MSG_NEVER_SET_POST@))
}

/// One note per variable that is set but never read.
pub open spec fn never_read_diags(l: Seq<Seq<char>>) -> Seq<DiagView> {
    l.map_values(|v: Seq<char>| script_diag(Severity::Info, "variable.never_read"@, MSG_NEVER_READ_PRE@ + v + MSG_NEVER_READ_POST@))
}

/// `l` lists `s` in increasing order.
pub open spec fn sorted_listing(l: Seq<Seq<char>>, s: Set<Seq<char>>) -> bool {
    strictly_sorted(l) && l.to_set() == s
}

/// `x` is among the first `k` entries of `lv`.
pub open spec fn in_prefix(lv: Seq<Seq<char>>, k: int, x: Seq<char>) -> bool {
    exists|p: int| 0 <= p < k && #[trigger] lv[p] == x
}

/// The elements of the sorted `list` that are not in `other`, in order.
fn unmatched(list: &Vec<String>, other: &StrSet) -> (r: Vec<String>)
    requires
        strictly_sorted(item_views(list@)),
        other.wf(),
    ensures
        sorted_listing(item_views(r@), item_views(list@).to_set().difference(other@)),
{
    let ghost lv = item_views(list@);
    let mut r: Vec<String> = Vec::new();
    let mut k: usize = 0;
    while k < list.len()
        invariant
            k <= list@.len(),
            lv == item_views(list@),
            strictly_sorted(lv),
            other.wf(),
            strictly_sorted(item_views(r@)),
            forall|q: int| 0 <= q < r@.len() ==> in_prefix(lv, k as int, #[trigger] item_views(r@)[q]),
            item_views(r@).to_set() == lv.subrange(0, k as int).to_set().difference(other@),
        decreases list@.len() - k,
    {
        let x = list[k].as_str();
        let ghost r0 = item_views(r@);
        proof {
            assert(lv.subrange(0, k + 1) =~= lv.subrange(0, k as int).push(x@));
            lv.subrange(0, k as int).lemma_push_to_set_commute(x@);
            assert(lv[k as int] == x@);
        }
        if !other.contains(x) {
            r.push(owned(x));
            proof {
                assert(item_views(r@) =~= r0.push(x@));
                r0.lemma_push_to_set_commute(x@);
                assert forall|i: int, j: int| 0 <= i < j < item_views(r@).len() implies
                    crate::strset::lex_lt(item_views(r@)[i], item_views(r@)[j]) by {
                    if j == r0.len() {
                        assert(in_prefix(lv, k as int, r0[i]));
                        let p = choose|p: int| 0 <= p < k && #[trigger] lv[p] == r0[i];
                        assert(crate::strset::lex_lt(lv[p], lv[k as int]));
                    }
                }
                assert forall|q: int| 0 <= q < r@.len() implies in_prefix(lv, k + 1, #[trigger] item_views(r@)[q]) by {
                    if q == r0.len() {
                        assert(lv[k as int] == item_views(r@)[q]);
                    } else {
                        assert(in_prefix(lv, k as int, r0[q]));
                        let p = choose|p: int| 0 <= p < k && #[trigger] lv[p] == r0[q];
                        assert(lv[p] == item_views(r@)[q]);
                    }
                }
                assert(item_views(r@).to_set() =~= lv.subrange(0, k + 1).to_set().difference(other@));
            }
        } else {
            proof {
                assert(item_views(r@).to_set() =~= lv.subrange(0, k + 1).to_set().difference(other@));
            }
        }
        k = k + 1;
    }
    proof {
        assert(lv.subrange(0, list@.len() as int) =~= lv);
    }
    r
}

/// Pushes one variable diagnostic per name.
fn push_var_diags(names: &Vec<String>, unset: bool, diags: &mut Vec<Diagnostic>)
    ensures
        dviews(final(diags)@) == dviews(old(diags)@) + if unset { never_set_diags(item_views(names@)) } else { never_read_diags(item_views(names@)) },
{
    let ghost d0 = dviews(diags@);
    let ghost all = if unset { never_set_diags(item_views(names@)) } else { never_read_diags(item_views(names@)) };
    let mut k: usize = 0;
    while k < names.len()
        invariant
            k <= names@.len(),
            all == if unset { never_set_diags(item_views(names@)) } else { never_read_diags(item_views(names@)) },
            dviews(diags@) == d0 + all.subrange(0, k as int),
        decreases names@.len() - k,
    {
        let v = names[k].as_str();
        let d = if unset {
            Diagnostic::script(Severity::Warn, "variable.never_set", cat3(MSG_NEVER_SET_PRE, v, MSG_NEVER_SET_POST))
        } else {
            Diagnostic::script(Severity::Info, "variable.never_read", cat3(MSG_NEVER_READ_PRE, v, MSG_NEVER_READ_POST))
        };
        let ghost dd = diags@;
        diags.push(d);
        proof {
            lemma_dviews_push(dd, d);
            assert(all[k as int] == d@);
            assert(dviews(diags@) =~= d0 + all.subrange(0, k + 1));
        }
        k = k + 1;
    }
    proof {
        assert(all.subrange(0, names@.len() as int) =~= all);
    }
}

// ---------- the whole script ----------

pub const MSG_CHAPTERS_EMPTY: &'static str = "Chapters/ 下没有任何 .yaml 章节文件（引擎只认 .yaml，不认 .yml）";
pub const MSG_INTRO_PRE: &'static str = "开场章节「";
pub const MSG_INTRO_POST: &'static str = "」不存在";

/// The ids of the chapters, in order.
pub open spec fn chapter_ids(chs: Seq<ChapterInput>) -> Seq<Seq<char>> {
    chs.map_values(|c: ChapterInput| c.id@)
}

/// The intro chapter the configuration names (`main` when it names none).
pub open spec fn intro_of(cfg: JsonValue) -> Seq<char> {
    match obj_get_str(cfg, "intro_chapter"@) {
        Some(s) => chapter_id(s),
        None => "main"@,
    }
}

/// The state after checking the characters and all chapters of a package
/// whose configuration is `cfg` and which has chapters.
pub open spec fn script_scan(input: ScriptInput, schema: ScriptSchema, known_effects: Seq<&'static str>, cfg: JsonValue) -> ScanView {
    let d1 = name_diags(cfg, input.folder_name@, input.script_key@, input.other_script_names@);
    let ids = chapter_ids(input.chapters@);
    let intro = intro_of(cfg);
    let d2 = if ids.contains(intro) {
        d1
    } else {
        d1.push(script_diag(Severity::Error, "config.intro_missing"@, MSG_INTRO_PRE@ + intro + MSG_INTRO_POST@))
    };
    let known = character_keys(input.characters@);
    let env = EventEnv {
        schema,
        known_effects,
        chapters: ids.to_set(),
        characters: known,
        builtin: views(input.builtin_achievements@),
    };
    let st0 = ScanView {
        diags: d2 + persona_diags(input.characters@, known),
        edges: Seq::empty(),
        written: Set::empty(),
        read: Set::empty(),
        achievements: Set::empty(),
    };
    scan_chapters(st0, input.chapters@, input.chapters@.len() as int, env)
}

/// The end of validation: the graph check, the variable diagnostics, the
/// sorted report, the sorted variable names and the edges.
pub open spec fn finished_scan(intro: Seq<char>, ids: Seq<Seq<char>>, st: ScanView, r: ValidationReport) -> bool {
    &&& eviews(r.edges@) == st.edges
    &&& sorted_listing(views(r.variables@), st.written.union(st.read))
    &&& exists|dg: Seq<DiagView>, unset: Seq<Seq<char>>, unread: Seq<Seq<char>>|
        #![trigger graph_checked(intro, ids, st.edges, st.diags, dg), never_set_diags(unset), never_read_diags(unread)]
        graph_checked(intro, ids, st.edges, st.diags, dg)
        && sorted_listing(unset, st.read.difference(st.written))
        && sorted_listing(unread, st.written.difference(st.read))
        && finished(dg + never_set_diags(unset) + never_read_diags(unread), r)
}

/// The report `r` is what validating `input` against `schema` gives.
pub open spec fn validated(input: ScriptInput, schema: ScriptSchema, known_effects: Seq<&'static str>, r: ValidationReport) -> bool {
    match input.config {
        Err(e) => finished(seq![script_diag(Severity::Error, "config.unreadable"@, e@)], r)
            && r.variables@.len() == 0 && r.edges@.len() == 0,
        Ok(cfg) => {
            let d1 = name_diags(cfg, input.folder_name@, input.script_key@, input.other_script_names@);
            if input.chapters@.len() == 0 {
                finished(d1.push(script_diag(Severity::Error, "chapters.empty"@, MSG_CHAPTERS_EMPTY@)), r)
                    && r.variables@.len() == 0 && r.edges@.len() == 0
            } else {
                finished_scan(intro_of(cfg), chapter_ids(input.chapters@), script_scan(input, schema, known_effects, cfg), r)
            }
        },
    }
}

/// Validates a script package against the schema: every silent failure of
/// the engine becomes a diagnostic.
pub fn validate_script(input: &ScriptInput, schema: &ScriptSchema, known_effects: &[&'static str]) -> (r: ValidationReport)
    ensures
        validated(*input, *schema, known_effects@, r),
{
    let mut diags: Vec<Diagnostic> = Vec::new();
    let cfg = match &input.config {
        Err(e) => {
            let d = Diagnostic::script(Severity::Error, "config.unreadable", owned(e.as_str()));
            diags.push(d);
            proof {
                lemma_dviews_push(Seq::empty(), d);
                assert(dviews(diags@) =~= seq![d@]);
            }
            return finish(diags, Vec::new(), Vec::new());
        },
        Ok(c) => c,
    };
    proof {
        assert(dviews(diags@) =~= Seq::<DiagView>::empty());
    }
    check_script_name(cfg, input, &mut diags);
    proof {
        assert(dviews(diags@) =~= name_diags(*cfg, input.folder_name@, input.script_key@, input.other_script_names@));
    }
    if input.chapters.len() == 0 {
        let d = Diagnostic::script(Severity::Error, "chapters.empty", owned(MSG_CHAPTERS_EMPTY));
        let ghost dd = diags@;
        diags.push(d);
        proof {
            lemma_dviews_push(dd, d);
            assert(input.chapters@.len() == 0);
        }
        return finish(diags, Vec::new(), Vec::new());
    }
    let ghost ids = chapter_ids(input.chapters@);
    let mut id_list: Vec<String> = Vec::new();
    let mut chapter_set = StrSet::new();
    let mut i: usize = 0;
    while i < input.chapters.len()
        invariant
            i <= input.chapters@.len(),
            ids == chapter_ids(input.chapters@),
            chapter_set.wf(),
            views(id_list@) == ids.subrange(0, i as int),
            chapter_set@ == ids.subrange(0, i as int).to_set(),
        decreases input.chapters@.len() - i,
    {
        let id = input.chapters[i].id.as_str();
        let ghost l0 = id_list@;
        id_list.push(owned(id));
        chapter_set.insert(id);
        proof {
            assert(ids.subrange(0, i + 1) =~= ids.subrange(0, i as int).push(id@));
            ids.subrange(0, i as int).lemma_push_to_set_commute(id@);
            assert(views(id_list@) =~= views(l0).push(id@));
            assert(chapter_set@ =~= ids.subrange(0, i + 1).to_set());
        }
        i = i + 1;
    }
    proof {
        assert(ids.subrange(0, input.chapters@.len() as int) =~= ids);
    }
    let intro: String = match obj_get_str_exec(cfg, "intro_chapter") {
        Some(s) => chapter_id_of(s),
        None => owned("main"),
    };
    proof {
        reveal_strlit("main");
    }
    if !chapter_set.contains(intro.as_str()) {
        let d = Diagnostic::script(Severity::Error, "config.intro_missing", cat3(MSG_INTRO_PRE, intro.as_str(), MSG_INTRO_POST));
        let ghost dd = diags@;
        diags.push(d);
        proof {
            lemma_dviews_push(dd, d);
        }
    }
    proof {
        assert(chapter_set@.contains(intro@) == ids.contains(intro@));
    }
    let characters = collect_script_characters(&input.characters);
    check_character_personas(&input.characters, &characters, &mut diags);
    let ghost env = env_view(*schema, known_effects@, chapter_set, characters, input.builtin_achievements@);
    let mut edges: Vec<ChapterEdge> = Vec::new();
    let mut written = StrSet::new();
    let mut read = StrSet::new();
    let mut achievements = StrSet::new();
    let ghost st0 = scan_view(diags@, edges@, written, read, achievements);
    proof {
        assert(eviews(edges@) =~= Seq::<EdgeView>::empty());
        let d1 = name_diags(*cfg, input.folder_name@, input.script_key@, input.other_script_names@);
        let intro_s = intro_of(*cfg);
        assert(intro@ == intro_s);
        let d2 = if ids.contains(intro_s) {
            d1
        } else {
            d1.push(script_diag(Severity::Error, "config.intro_missing"@, MSG_INTRO_PRE@ + intro_s + MSG_INTRO_POST@))
        };
        assert(st0.diags == d2 + persona_diags(input.characters@, characters@));
        assert(chapter_set@ == ids.to_set());
        assert(env == EventEnv {
            schema: *schema,
            known_effects: known_effects@,
            chapters: ids.to_set(),
            characters: character_keys(input.characters@),
            builtin: views(input.builtin_achievements@),
        });
        assert(st0 == ScanView {
            diags: d2 + persona_diags(input.characters@, character_keys(input.characters@)),
            edges: Seq::empty(),
            written: Set::empty(),
            read: Set::empty(),
            achievements: Set::empty(),
        });
    }
    let mut c: usize = 0;
    while c < input.chapters.len()
        invariant
            c <= input.chapters@.len(),
            chapter_set.wf(),
            characters.wf(),
            written.wf(),
            read.wf(),
            achievements.wf(),
            env == env_view(*schema, known_effects@, chapter_set, characters, input.builtin_achievements@),
            scan_view(diags@, edges@, written, read, achievements) == scan_chapters(st0, input.chapters@, c as int, env),
        decreases input.chapters@.len() - c,
    {
        check_chapter(&input.chapters[c], schema, known_effects, &chapter_set, &characters, &input.builtin_achievements,
            &mut diags, &mut edges, &mut written, &mut read, &mut achievements);
        c = c + 1;
    }
    let ghost st = scan_view(diags@, edges@, written, read, achievements);
    check_graph(intro.as_str(), &id_list, &edges, &mut diags);
    let ghost dg = dviews(diags@);
    let read_list = read.to_vec();
    let written_list = written.to_vec();
    let unset = unmatched(&read_list, &written);
    let unread = unmatched(&written_list, &read);
    push_var_diags(&unset, true, &mut diags);
    push_var_diags(&unread, false, &mut diags);
    let mut all = StrSet::new();
    let mut k: usize = 0;
    while k < written_list.len()
        invariant
            k <= written_list@.len(),
            all.wf(),
            all@ == item_views(written_list@).subrange(0, k as int).to_set(),
        decreases written_list@.len() - k,
    {
        all.insert(written_list[k].as_str());
        proof {
            assert(item_views(written_list@).subrange(0, k + 1) =~= item_views(written_list@).subrange(0, k as int).push(written_list@[k as int]@));
            item_views(written_list@).subrange(0, k as int).lemma_push_to_set_commute(written_list@[k as int]@);
            assert(all@ =~= item_views(written_list@).subrange(0, k + 1).to_set());
        }
        k = k + 1;
    }
    let mut k2: usize = 0;
    proof {
        assert(item_views(written_list@).subrange(0, written_list@.len() as int) =~= item_views(written_list@));
    }
    while k2 < read_list.len()
        invariant
            k2 <= read_list@.len(),
            all.wf(),
            all@ == item_views(written_list@).to_set().union(item_views(read_list@).subrange(0, k2 as int).to_set()),
        decreases read_list@.len() - k2,
    {
        all.insert(read_list[k2].as_str());
        proof {
            assert(item_views(read_list@).subrange(0, k2 + 1) =~= item_views(read_list@).subrange(0, k2 as int).push(read_list@[k2 as int]@));
            item_views(read_list@).subrange(0, k2 as int).lemma_push_to_set_commute(read_list@[k2 as int]@);
            assert(all@ =~= item_views(written_list@).to_set().union(item_views(read_list@).subrange(0, k2 + 1).to_set()));
        }
        k2 = k2 + 1;
    }
    proof {
        assert(item_views(read_list@).subrange(0, read_list@.len() as int) =~= item_views(read_list@));
    }
    let vars = all.to_vec();
    let r = finish(diags, vars, edges);
    proof {
        assert(views(r.variables@) =~= item_views(vars@));
        assert(item_views(written_list@).to_set() == written@);
        assert(item_views(read_list@).to_set() == read@);
        assert(sorted_listing(views(r.variables@), st.written.union(st.read)));
        assert(eviews(r.edges@) == st.edges);
        assert(sorted_listing(item_views(unset@), st.read.difference(st.written)));
        assert(sorted_listing(item_views(unread@), st.written.difference(st.read)));
        assert(dviews(diags@) == dg + never_set_diags(item_views(unset@)) + never_read_diags(item_views(unread@)));
        assert(views(unset@) =~= item_views(unset@));
        let u = item_views(unset@);
        let w = item_views(unread@);
        assert(dviews(r.diagnostics@) == dviews(r.diagnostics@));
        assert(graph_checked(intro@, ids, st.edges, st.diags, dg));
        assert(finished(dg + never_set_diags(u) + never_read_diags(w), r));
        assert(input.config is Ok && input.config->Ok_0 == *cfg);
        assert(intro_of(*cfg) == intro@);
        assert(exists|dg2: Seq<DiagView>, unset2: Seq<Seq<char>>, unread2: Seq<Seq<char>>|
            #![trigger graph_checked(intro@, ids, st.edges, st.diags, dg2), never_set_diags(unset2), never_read_diags(unread2)]
            graph_checked(intro@, ids, st.edges, st.diags, dg2)
            && sorted_listing(unset2, st.read.difference(st.written))
            && sorted_listing(unread2, st.written.difference(st.read))
            && finished(dg2 + never_set_diags(unset2) + never_read_diags(unread2), r));
        assert(st == script_scan(*input, *schema, known_effects@, *cfg));
        assert(finished_scan(intro@, ids, st, r));
    }
    r
}

} // verus!
