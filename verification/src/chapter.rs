//! Checking the events of a chapter one by one, and the chapter as a whole.
use vstd::prelude::*;
use crate::diag::{Diagnostic, DiagView, Severity, dviews, event_diag, chapter_diag, lemma_dviews_push, opt_view};
use crate::event::{fields_of, find_fields, achievement_diags, achievements_after, required_diags, unknown_diags, inert_diags, speed_diags, effect_diags, free_dialogue_diags, not_last_diags, character_diags, check_achievement, check_required, check_unknown, check_inert, check_speed, check_effect, check_free_dialogue, check_not_last, check_character};
use crate::json::{JsonValue, get_str, get_str_exec};
use crate::report::{ChapterEdge, EdgeView, eviews};
use crate::schema::{FieldSpec, ScriptSchema};
use crate::strset::StrSet;
use crate::text::{cat3, owned, str_eq, views};
use crate::validate::{condition_diags, add_read, check_condition, asset_diags, check_asset, choices_diags,
    choices_written, choices_read, check_choices, set_variable_diags, check_set_variable, modify_character_diags,
    check_modify_character_action, chapter_end_diags, chapter_end_edges, chapter_end_read, check_chapter_end};

verus! {

/// What the scan of a script has gathered so far.
pub struct ScanView {
    pub diags: Seq<DiagView>,
    pub edges: Seq<EdgeView>,
    pub written: Set<Seq<char>>,
    pub read: Set<Seq<char>>,
    pub achievements: Set<Seq<char>>,
}

/// What the checks of an event read besides the event itself.
pub struct EventEnv {
    pub schema: ScriptSchema,
    pub known_effects: Seq<&'static str>,
    pub chapters: Set<Seq<char>>,
    pub characters: Set<Seq<char>>,
    pub builtin: Seq<Seq<char>>,
}

/// Event types that reference a media file.
pub open spec fn is_media(ty: Seq<char>) -> bool {
    ty == "background"@ || ty == "present_pic"@ || ty == "music"@ || ty == "sound"@ || ty == "ambient"@
}

/// The checks that depend on the event type.
pub open spec fn type_step(st: ScanView, m: Seq<(String, JsonValue)>, ty: Seq<char>, env: EventEnv,
    cid: Seq<char>, i: usize, last: usize, found: bool, speed: Option<Seq<char>>) -> ScanView {
    if is_media(ty) {
        ScanView {
            diags: st.diags + asset_diags(m, ty, cid, i, found)
                + if ty == "music"@ { speed_diags(speed, cid, i) } else { Seq::empty() },
            ..st
        }
    } else if ty == "background_effect"@ {
        ScanView { diags: st.diags + effect_diags(m, env.known_effects, cid, i), ..st }
    } else if ty == "choices"@ {
        ScanView {
            diags: st.diags + choices_diags(m, cid, i),
            written: choices_written(st.written, m),
            read: choices_read(st.read, m),
            ..st
        }
    } else if ty == "set_variable"@ {
        ScanView {
            diags: st.diags + set_variable_diags(m, cid, i),
            written: choices_written(st.written, m),
            read: choices_read(st.read, m),
            ..st
        }
    } else if ty == "free_dialogue"@ {
        ScanView { diags: st.diags + free_dialogue_diags(m, cid, i), ..st }
    } else if ty == "chapter_end"@ {
        ScanView {
            diags: st.diags + not_last_diags(cid, i, last) + chapter_end_diags(m, cid, i, env.chapters),
            edges: st.edges + chapter_end_edges(m, cid, env.chapters),
            read: chapter_end_read(st.read, m),
            ..st
        }
    } else if ty == "modify_character"@ {
        ScanView { diags: st.diags + modify_character_diags(m, cid, i), ..st }
    } else {
        st
    }
}

/// The checks of an event whose type the schema knows, with fields `fs`.
pub open spec fn typed_step(st: ScanView, m: Seq<(String, JsonValue)>, ty: Seq<char>, fs: Seq<FieldSpec>, env: EventEnv,
    cid: Seq<char>, i: usize, last: usize, found: bool, speed: Option<Seq<char>>) -> ScanView {
    let common = env.schema.common_fields@;
    let d1 = st.diags + achievement_diags(m, ty, env.builtin, st.achievements, cid, i)
        + required_diags(m, ty, fs, cid, i) + unknown_diags(m, ty, fs, common, cid, i) + inert_diags(m, common, cid, i);
    let st1 = match get_str(m, "condition"@) {
        Some(c) => ScanView {
            diags: d1 + condition_diags(c, cid, i),
            read: add_read(st.read, c),
            achievements: achievements_after(m, ty, st.achievements),
            ..st
        },
        None => ScanView { diags: d1, achievements: achievements_after(m, ty, st.achievements), ..st },
    };
    let st2 = type_step(st1, m, ty, env, cid, i, last, found, speed);
    ScanView { diags: st2.diags + character_diags(m, env.characters, cid, i), ..st2 }
}

pub const MSG_NOT_A_MAP: &'static str = "事件必须是键值映射";
pub const MSG_MISSING_TYPE: &'static str = "事件缺少 type 字段，运行到这里整个剧本会中断";
pub const MSG_UNKNOWN_TYPE_PRE: &'static str = "未知事件类型「";
pub const MSG_UNKNOWN_TYPE_POST: &'static str = "」，运行到这里整个剧本会中断";

/// All checks of the `i`-th event of chapter `cid`.
pub open spec fn event_step(st: ScanView, ev: JsonValue, env: EventEnv,
    cid: Seq<char>, i: usize, last: usize, found: bool, speed: Option<Seq<char>>) -> ScanView {
    match ev {
        JsonValue::Object(m) => match get_str(m@, "type"@) {
            None => ScanView { diags: st.diags.push(event_diag(Severity::Error, "event.missing_type"@, cid, i, MSG_MISSING_TYPE@)), ..st },
            Some(ty) => match fields_of(env.schema.events@, ty) {
                None => ScanView {
                    diags: st.diags.push(event_diag(Severity::Error, "event.unknown_type"@, cid, i,
                        MSG_UNKNOWN_TYPE_PRE@ + ty + MSG_UNKNOWN_TYPE_POST@)),
                    ..st
                },
                Some(fs) => typed_step(st, m@, ty, fs, env, cid, i, last, found, speed),
            },
        },
        _ => ScanView { diags: st.diags.push(event_diag(Severity::Error, "event.not_a_map"@, cid, i, MSG_NOT_A_MAP@)), ..st },
    }
}

/// The event is a chapter end of a type the schema knows.
pub open spec fn is_end_event(ev: JsonValue, env: EventEnv) -> bool {
    &&& ev is Object
    &&& get_str(ev->Object_0@, "type"@) == Some("chapter_end"@)
    &&& fields_of(env.schema.events@, "chapter_end"@) is Some
}

/// The gathered state as a view.
pub open spec fn scan_view(diags: Seq<Diagnostic>, edges: Seq<ChapterEdge>, written: StrSet, read: StrSet, achievements: StrSet) -> ScanView {
    ScanView { diags: dviews(diags), edges: eviews(edges), written: written@, read: read@, achievements: achievements@ }
}

/// The environment as a view.
pub open spec fn env_view(schema: ScriptSchema, known_effects: Seq<&'static str>, chapter_set: StrSet, characters: StrSet, builtin: Seq<String>) -> EventEnv {
    EventEnv { schema, known_effects, chapters: chapter_set@, characters: characters@, builtin: views(builtin) }
}

/// Runs the checks that depend on the event type.
fn check_type(m: &Vec<(String, JsonValue)>, ty: &str, schema: &ScriptSchema, known_effects: &[&'static str],
    chapter_set: &StrSet, characters: &StrSet, builtin: &Vec<String>,
    cid: &str, i: usize, last: usize, found: bool, speed: &Option<String>,
    diags: &mut Vec<Diagnostic>, edges: &mut Vec<ChapterEdge>, written: &mut StrSet, read: &mut StrSet, achievements: &mut StrSet)
    requires
        chapter_set.wf(),
        characters.wf(),
        old(written).wf(),
        old(read).wf(),
        old(achievements).wf(),
        i <= last,
    ensures
        final(written).wf(),
        final(read).wf(),
        final(achievements).wf(),
        scan_view(final(diags)@, final(edges)@, *final(written), *final(read), *final(achievements))
            == type_step(scan_view(old(diags)@, old(edges)@, *old(written), *old(read), *old(achievements)), m@, ty@,
                env_view(*schema, known_effects@, *chapter_set, *characters, builtin@), cid@, i, last, found,
                opt_view(*speed)),
{
    let ghost st = scan_view(diags@, edges@, *written, *read, *achievements);
    let ghost env = env_view(*schema, known_effects@, *chapter_set, *characters, builtin@);
    let ghost sp = opt_view(*speed);
    if str_eq(ty, "background") || str_eq(ty, "present_pic") || str_eq(ty, "music") || str_eq(ty, "sound") || str_eq(ty, "ambient") {
        check_asset(m, ty, cid, i, diags, found);
        let ghost d1 = dviews(diags@);
        if str_eq(ty, "music") {
            check_speed(speed, cid, i, diags);
        } else {
            proof {
                assert(dviews(diags@) =~= d1 + Seq::<DiagView>::empty());
            }
        }
        proof {
            assert(dviews(diags@) =~= st.diags + asset_diags(m@, ty@, cid@, i, found)
                + if ty@ == "music"@ { speed_diags(sp, cid@, i) } else { Seq::empty() });
        }
    } else if str_eq(ty, "background_effect") {
        check_effect(m, known_effects, cid, i, diags);
    } else if str_eq(ty, "choices") {
        check_choices(m, cid, i, diags, written, read);
    } else if str_eq(ty, "set_variable") {
        check_set_variable(m, cid, i, diags, written, read);
    } else if str_eq(ty, "free_dialogue") {
        check_free_dialogue(m, cid, i, diags);
    } else if str_eq(ty, "chapter_end") {
        check_not_last(cid, i, last, diags);
        check_chapter_end(m, cid, i, chapter_set, edges, diags, read);
        proof {
            assert(dviews(diags@) =~= st.diags + not_last_diags(cid@, i, last) + chapter_end_diags(m@, cid@, i, chapter_set@));
        }
    } else if str_eq(ty, "modify_character") {
        check_modify_character_action(m, cid, i, diags);
    }
}

/// Runs the checks of an event whose type the schema knows.
fn check_typed(m: &Vec<(String, JsonValue)>, ty: &str, fields: &Vec<FieldSpec>, schema: &ScriptSchema, known_effects: &[&'static str],
    chapter_set: &StrSet, characters: &StrSet, builtin: &Vec<String>,
    cid: &str, i: usize, last: usize, found: bool, speed: &Option<String>,
    diags: &mut Vec<Diagnostic>, edges: &mut Vec<ChapterEdge>, written: &mut StrSet, read: &mut StrSet, achievements: &mut StrSet)
    requires
        chapter_set.wf(),
        characters.wf(),
        old(written).wf(),
        old(read).wf(),
        old(achievements).wf(),
        i <= last,
    ensures
        final(written).wf(),
        final(read).wf(),
        final(achievements).wf(),
        scan_view(final(diags)@, final(edges)@, *final(written), *final(read), *final(achievements))
            == typed_step(scan_view(old(diags)@, old(edges)@, *old(written), *old(read), *old(achievements)), m@, ty@, fields@,
                env_view(*schema, known_effects@, *chapter_set, *characters, builtin@), cid@, i, last, found,
                opt_view(*speed)),
{
    let ghost st = scan_view(diags@, edges@, *written, *read, *achievements);
    let ghost env = env_view(*schema, known_effects@, *chapter_set, *characters, builtin@);
    check_achievement(m, ty, builtin, achievements, cid, i, diags);
    check_required(m, ty, fields, cid, i, diags);
    check_unknown(m, ty, fields, &schema.common_fields, cid, i, diags);
    check_inert(m, &schema.common_fields, cid, i, diags);
    let ghost d1 = dviews(diags@);
    proof {
        assert(d1 =~= st.diags + achievement_diags(m@, ty@, env.builtin, st.achievements, cid@, i)
            + required_diags(m@, ty@, fields@, cid@, i) + unknown_diags(m@, ty@, fields@, schema.common_fields@, cid@, i)
            + inert_diags(m@, schema.common_fields@, cid@, i));
    }
    match get_str_exec(m, "condition") {
        Some(c) => {
            check_condition(c, cid, i, diags, read);
        },
        None => {},
    }
    let ghost st1 = scan_view(diags@, edges@, *written, *read, *achievements);
    check_type(m, ty, schema, known_effects, chapter_set, characters, builtin, cid, i, last, found, speed,
        diags, edges, written, read, achievements);
    let ghost d2 = dviews(diags@);
    check_character(m, characters, cid, i, diags);
}

/// Runs every check of the `i`-th event of chapter `cid` (`last` is the index
/// of the chapter's last event, `found` whether its media path resolved,
/// `speed` its playback speed when that is out of range); returns whether the
/// event is a chapter end.
pub fn check_event(ev: &JsonValue, schema: &ScriptSchema, known_effects: &[&'static str],
    chapter_set: &StrSet, characters: &StrSet, builtin: &Vec<String>,
    cid: &str, i: usize, last: usize, found: bool, speed: &Option<String>,
    diags: &mut Vec<Diagnostic>, edges: &mut Vec<ChapterEdge>, written: &mut StrSet, read: &mut StrSet, achievements: &mut StrSet) -> (is_end: bool)
    requires
        chapter_set.wf(),
        characters.wf(),
        old(written).wf(),
        old(read).wf(),
        old(achievements).wf(),
        i <= last,
    ensures
        final(written).wf(),
        final(read).wf(),
        final(achievements).wf(),
        scan_view(final(diags)@, final(edges)@, *final(written), *final(read), *final(achievements))
            == event_step(scan_view(old(diags)@, old(edges)@, *old(written), *old(read), *old(achievements)), *ev,
                env_view(*schema, known_effects@, *chapter_set, *characters, builtin@), cid@, i, last, found,
                opt_view(*speed)),
        is_end == is_end_event(*ev, env_view(*schema, known_effects@, *chapter_set, *characters, builtin@)),
{
    let ghost d0 = diags@;
    match ev {
        JsonValue::Object(m) => {
            match get_str_exec(m, "type") {
                None => {
                    let d = Diagnostic::event(Severity::Error, "event.missing_type", cid, i, owned(MSG_MISSING_TYPE));
                    diags.push(d);
                    proof {
                        lemma_dviews_push(d0, d);
                    }
                    false
                },
                Some(ty) => {
                    match find_fields(&schema.events, ty) {
                        None => {
                            let d = Diagnostic::event(Severity::Error, "event.unknown_type", cid, i,
                                cat3(MSG_UNKNOWN_TYPE_PRE, ty, MSG_UNKNOWN_TYPE_POST));
                            diags.push(d);
                            proof {
                                lemma_dviews_push(d0, d);
                            }
                            false
                        },
                        Some(fields) => {
                            check_typed(m, ty, fields, schema, known_effects, chapter_set, characters, builtin,
                                cid, i, last, found, speed, diags, edges, written, read, achievements);
                            let is_end = str_eq(ty, "chapter_end");
                            proof {
                                if ty@ == "chapter_end"@ {
                                    assert(fields_of(schema.events@, "chapter_end"@) is Some);
                                }
                            }
                            is_end
                        },
                    }
                },
            }
        },
        _ => {
            let d = Diagnostic::event(Severity::Error, "event.not_a_map", cid, i, owned(MSG_NOT_A_MAP));
            diags.push(d);
            proof {
                lemma_dviews_push(d0, d);
            }
            false
        },
    }
}

} // verus!
