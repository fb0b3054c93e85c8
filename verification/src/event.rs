//! The checks of one script event that the schema drives: its type, its
//! required, unknown and inert fields.
use vstd::prelude::*;
use crate::diag::{Diagnostic, DiagView, Severity, dviews, event_diag, with_field, lemma_dviews_push, opt_view};
use crate::json::{JsonValue, lookup, has_key, get, contains_key, get_str, int_of, get_str_exec, get_int_exec};
use crate::schema::{FieldSpec, EventSpec};
use crate::strset::StrSet;
use crate::text::{cat, cat3, str_eq, trim, trim_str, is_blank, decimal, decimal_string, eq_ignore_ascii_case, eq_ignore_ascii_case_exec, owned};
use crate::validate::{engine_default, has_engine_default, str_or_empty, is_empty_str};

verus! {

// ---------- the event type ----------

/// `k` is the first event type of `es` whose key is `ty`.
pub open spec fn first_event(es: Seq<EventSpec>, ty: Seq<char>, k: int) -> bool {
    &&& 0 <= k < es.len()
    &&& es[k].type_key@ == ty
    &&& forall|j: int| 0 <= j < k ==> es[j].type_key@ != ty
}

/// The fields the schema gives the event type `ty`, if it knows the type.
pub open spec fn fields_of(es: Seq<EventSpec>, ty: Seq<char>) -> Option<Seq<FieldSpec>> {
    if exists|k: int| first_event(es, ty, k) {
        Some(es[choose|k: int| first_event(es, ty, k)].fields@)
    } else {
        None
    }
}

/// Finds the fields of the event type `ty`.
pub fn find_fields<'a>(events: &'a Vec<EventSpec>, ty: &str) -> (r: Option<&'a Vec<FieldSpec>>)
    ensures
        r is Some <==> fields_of(events@, ty@) is Some,
        r is Some ==> r->0@ == fields_of(events@, ty@)->0,
{
    let mut k: usize = 0;
    while k < events.len()
        invariant
            k <= events@.len(),
            forall|j: int| 0 <= j < k ==> events@[j].type_key@ != ty@,
        decreases events@.len() - k,
    {
        if str_eq(events[k].type_key, ty) {
            proof {
                assert(first_event(events@, ty@, k as int));
                let c = choose|c: int| first_event(events@, ty@, c);
                assert(c == k);
            }
            return Some(&events[k].fields);
        }
        k = k + 1;
    }
    proof {
        if exists|c: int| first_event(events@, ty@, c) {
            let c = choose|c: int| first_event(events@, ty@, c);
            assert(events@[c].type_key@ != ty@);
        }
    }
    None
}

// ---------- required fields ----------

pub const MSG_REQUIRED_MID: &'static str = " 缺少必填字段「";
pub const MSG_REQUIRED_POST: &'static str = "」";

/// The event has a value for `key` that is neither null nor the empty string.
pub open spec fn present(m: Seq<(String, JsonValue)>, key: Seq<char>) -> bool {
    match lookup(m, key) {
        None => false,
        Some(JsonValue::Null) => false,
        Some(JsonValue::Str(s)) => s@.len() > 0,
        Some(_) => true,
    }
}

/// One error per required field that is missing, in schema order; fields the
/// engine has a default for are skipped.
pub open spec fn required_diags(m: Seq<(String, JsonValue)>, ty: Seq<char>, fs: Seq<FieldSpec>, cid: Seq<char>, i: usize) -> Seq<DiagView>
    decreases fs.len(),
{
    if fs.len() == 0 {
        Seq::empty()
    } else {
        let prev = required_diags(m, ty, fs.drop_last(), cid, i);
        let f = fs.last();
        if f.required && !engine_default(ty, f.key@) && !present(m, f.key@) {
            prev.push(with_field(event_diag(Severity::Error, "field.required_missing"@, cid, i,
                ty + MSG_REQUIRED_MID@ + f.label@ + MSG_REQUIRED_POST@), f.key@))
        } else {
            prev
        }
    }
}

fn is_present(m: &Vec<(String, JsonValue)>, key: &str) -> (r: bool)
    ensures
        r == present(m@, key@),
{
    match get(m, key) {
        None => false,
        Some(JsonValue::Null) => false,
        Some(JsonValue::Str(s)) => !crate::validate::is_empty_str(s.as_str()),
        Some(_) => true,
    }
}

/// Reports the required fields the event lacks.
pub fn check_required(m: &Vec<(String, JsonValue)>, ty: &str, fields: &Vec<FieldSpec>, cid: &str, i: usize, diags: &mut Vec<Diagnostic>)
    ensures
        dviews(final(diags)@) == dviews(old(diags)@) + required_diags(m@, ty@, fields@, cid@, i),
{
    let ghost d0 = dviews(diags@);
    let mut j: usize = 0;
    proof {
        assert(dviews(diags@) =~= d0 + required_diags(m@, ty@, fields@.subrange(0, 0), cid@, i));
    }
    while j < fields.len()
        invariant
            j <= fields@.len(),
            dviews(diags@) == d0 + required_diags(m@, ty@, fields@.subrange(0, j as int), cid@, i),
        decreases fields@.len() - j,
    {
        let f = &fields[j];
        proof {
            assert(fields@.subrange(0, j + 1).drop_last() =~= fields@.subrange(0, j as int));
            assert(fields@.subrange(0, j + 1).last() == fields@[j as int]);
        }
        if f.required && !has_engine_default(ty, f.key) && !is_present(m, f.key) {
            let mut msg = cat3(ty, MSG_REQUIRED_MID, f.label);
            msg.append(MSG_REQUIRED_POST);
            let d = Diagnostic::event(Severity::Error, "field.required_missing", cid, i, msg).with_field(f.key);
            let ghost dd = diags@;
            diags.push(d);
            proof {
                lemma_dviews_push(dd, d);
            }
        }
        j = j + 1;
    }
    proof {
        assert(fields@.subrange(0, fields@.len() as int) =~= fields@);
    }
}

// ---------- unknown fields ----------

pub const MSG_UNKNOWN_FIELD_MID: &'static str = " 上的「";
pub const MSG_UNKNOWN_FIELD_POST: &'static str = "」不是引擎认识的字段，会被静默忽略";

/// Some field of `fs` has the key `k`.
pub open spec fn declares(fs: Seq<FieldSpec>, k: Seq<char>) -> bool {
    exists|j: int| 0 <= j < fs.len() && #[trigger] fs[j].key@ == k
}

/// One warning per key of the event that is neither `type`, nor a field of
/// its type, nor a common field; in the order of the event's keys.
pub open spec fn unknown_diags(m: Seq<(String, JsonValue)>, ty: Seq<char>, fs: Seq<FieldSpec>, common: Seq<FieldSpec>, cid: Seq<char>, i: usize) -> Seq<DiagView>
    decreases m.len(),
{
    if m.len() == 0 {
        Seq::empty()
    } else {
        let prev = unknown_diags(m.drop_last(), ty, fs, common, cid, i);
        let k = m.last().0@;
        if k == "type"@ || declares(fs, k) || declares(common, k) {
            prev
        } else {
            prev.push(with_field(event_diag(Severity::Warn, "field.unknown"@, cid, i,
                ty + MSG_UNKNOWN_FIELD_MID@ + k + MSG_UNKNOWN_FIELD_POST@), k))
        }
    }
}

fn declares_exec(fs: &Vec<FieldSpec>, k: &str) -> (r: bool)
    ensures
        r == declares(fs@, k@),
{
    let mut j: usize = 0;
    while j < fs.len()
        invariant
            j <= fs@.len(),
            forall|j2: int| 0 <= j2 < j ==> fs@[j2].key@ != k@,
        decreases fs@.len() - j,
    {
        if str_eq(fs[j].key, k) {
            assert(fs@[j as int].key@ == k@);
            return true;
        }
        j = j + 1;
    }
    false
}

/// Reports the keys of the event that the engine does not read.
pub fn check_unknown(m: &Vec<(String, JsonValue)>, ty: &str, fields: &Vec<FieldSpec>, common: &Vec<FieldSpec>, cid: &str, i: usize, diags: &mut Vec<Diagnostic>)
    ensures
        dviews(final(diags)@) == dviews(old(diags)@) + unknown_diags(m@, ty@, fields@, common@, cid@, i),
{
    let ghost d0 = dviews(diags@);
    let mut j: usize = 0;
    proof {
        assert(dviews(diags@) =~= d0 + unknown_diags(m@.subrange(0, 0), ty@, fields@, common@, cid@, i));
    }
    while j < m.len()
        invariant
            j <= m@.len(),
            dviews(diags@) == d0 + unknown_diags(m@.subrange(0, j as int), ty@, fields@, common@, cid@, i),
        decreases m@.len() - j,
    {
        let k = m[j].0.as_str();
        proof {
            assert(m@.subrange(0, j + 1).drop_last() =~= m@.subrange(0, j as int));
            assert(m@.subrange(0, j + 1).last() == m@[j as int]);
        }
        if !str_eq(k, "type") && !declares_exec(fields, k) && !declares_exec(common, k) {
            let mut msg = cat3(ty, MSG_UNKNOWN_FIELD_MID, k);
            msg.append(MSG_UNKNOWN_FIELD_POST);
            let d = Diagnostic::event(Severity::Warn, "field.unknown", cid, i, msg).with_field(k);
            let ghost dd = diags@;
            diags.push(d);
            proof {
                lemma_dviews_push(dd, d);
            }
        }
        j = j + 1;
    }
    proof {
        assert(m@.subrange(0, m@.len() as int) =~= m@);
    }
}

// ---------- inert fields ----------

pub const MSG_INERT_POST: &'static str = " 引擎从不读取，写了不生效（保存时会原样保留）";

/// One note per common field the editor keeps disabled that the event sets.
pub open spec fn inert_diags(m: Seq<(String, JsonValue)>, common: Seq<FieldSpec>, cid: Seq<char>, i: usize) -> Seq<DiagView>
    decreases common.len(),
{
    if common.len() == 0 {
        Seq::empty()
    } else {
        let prev = inert_diags(m, common.drop_last(), cid, i);
        let f = common.last();
        if !f.enabled && has_key(m, f.key@) {
            prev.push(with_field(event_diag(Severity::Info, "field.inert"@, cid, i, f.key@ + MSG_INERT_POST@), f.key@))
        } else {
            prev
        }
    }
}

/// Reports the legacy common fields that the event sets.
pub fn check_inert(m: &Vec<(String, JsonValue)>, common: &Vec<FieldSpec>, cid: &str, i: usize, diags: &mut Vec<Diagnostic>)
    ensures
        dviews(final(diags)@) == dviews(old(diags)@) + inert_diags(m@, common@, cid@, i),
{
    let ghost d0 = dviews(diags@);
    let mut j: usize = 0;
    proof {
        assert(dviews(diags@) =~= d0 + inert_diags(m@, common@.subrange(0, 0), cid@, i));
    }
    while j < common.len()
        invariant
            j <= common@.len(),
            dviews(diags@) == d0 + inert_diags(m@, common@.subrange(0, j as int), cid@, i),
        decreases common@.len() - j,
    {
        let f = &common[j];
        proof {
            assert(common@.subrange(0, j + 1).drop_last() =~= common@.subrange(0, j as int));
            assert(common@.subrange(0, j + 1).last() == common@[j as int]);
        }
        if !f.enabled && contains_key(m, f.key) {
            let d = Diagnostic::event(Severity::Info, "field.inert", cid, i, crate::text::cat(f.key, MSG_INERT_POST)).with_field(f.key);
            let ghost dd = diags@;
            diags.push(d);
            proof {
                lemma_dviews_push(dd, d);
            }
        }
        j = j + 1;
    }
    proof {
        assert(common@.subrange(0, common@.len() as int) =~= common@);
    }
}

// ---------- achievements ----------

pub const MSG_ACH_BUILTIN_PRE: &'static str = "「";
pub const MSG_ACH_BUILTIN_POST: &'static str = "」和内置成就重名，会覆盖它的定义，请换个键名";
pub const MSG_ACH_DUP_PRE: &'static str = "本剧本里已有成就「";
pub const MSG_ACH_DUP_POST: &'static str = "」，成就键名不能重复，请换个键名";

/// The trimmed, non-empty achievement key an `unlock_achievement` event declares.
pub open spec fn achievement_key(m: Seq<(String, JsonValue)>, ty: Seq<char>) -> Option<Seq<char>> {
    if ty == "unlock_achievement"@ && get_str(m, "achievement_id"@) is Some
        && trim(get_str(m, "achievement_id"@)->0).len() > 0 {
        Some(trim(get_str(m, "achievement_id"@)->0))
    } else {
        None
    }
}

/// Errors for an achievement key that clashes with a built-in one or with one
/// declared earlier in the script.
pub open spec fn achievement_diags(m: Seq<(String, JsonValue)>, ty: Seq<char>, builtin: Seq<Seq<char>>,
    seen: Set<Seq<char>>, cid: Seq<char>, i: usize) -> Seq<DiagView> {
    match achievement_key(m, ty) {
        None => Seq::empty(),
        Some(id) => {
            let a = if builtin.contains(id) {
                seq![with_field(event_diag(Severity::Error, "achievement.id_conflicts_builtin"@, cid, i,
                    MSG_ACH_BUILTIN_PRE@ + id + MSG_ACH_BUILTIN_POST@), "achievement_id"@)]
            } else {
                Seq::empty()
            };
            let b = if seen.contains(id) {
                seq![with_field(event_diag(Severity::Error, "achievement.id_duplicated"@, cid, i,
                    MSG_ACH_DUP_PRE@ + id + MSG_ACH_DUP_POST@), "achievement_id"@)]
            } else {
                Seq::empty()
            };
            a + b
        },
    }
}

/// The achievement keys seen after this event.
pub open spec fn achievements_after(m: Seq<(String, JsonValue)>, ty: Seq<char>, seen: Set<Seq<char>>) -> Set<Seq<char>> {
    match achievement_key(m, ty) {
        None => seen,
        Some(id) => seen.insert(id),
    }
}

fn contains_string(v: &Vec<String>, s: &str) -> (r: bool)
    ensures
        r == crate::text::views(v@).contains(s@),
{
    let mut j: usize = 0;
    while j < v.len()
        invariant
            j <= v@.len(),
            forall|j2: int| 0 <= j2 < j ==> v@[j2]@ != s@,
        decreases v@.len() - j,
    {
        if str_eq(v[j].as_str(), s) {
            assert(crate::text::views(v@)[j as int] == s@);
            return true;
        }
        j = j + 1;
    }
    proof {
        if crate::text::views(v@).contains(s@) {
            let j2 = choose|j2: int| 0 <= j2 < crate::text::views(v@).len() && crate::text::views(v@)[j2] == s@;
            assert(crate::text::views(v@)[j2] == v@[j2]@);
        }
    }
    false
}

/// Checks the key of an `unlock_achievement` event against the built-in
/// achievements and the keys seen so far, and records it.
pub fn check_achievement(m: &Vec<(String, JsonValue)>, ty: &str, builtin: &Vec<String>, seen: &mut StrSet,
    cid: &str, i: usize, diags: &mut Vec<Diagnostic>)
    requires
        old(seen).wf(),
    ensures
        final(seen).wf(),
        final(seen)@ == achievements_after(m@, ty@, old(seen)@),
        dviews(final(diags)@) == dviews(old(diags)@) + achievement_diags(m@, ty@, crate::text::views(builtin@), old(seen)@, cid@, i),
{
    let ghost d0 = dviews(diags@);
    if !str_eq(ty, "unlock_achievement") {
        proof {
            assert(dviews(diags@) =~= d0 + Seq::<DiagView>::empty());
        }
        return;
    }
    let raw = match get_str_exec(m, "achievement_id") {
        Some(a) => a,
        None => {
            proof {
                assert(dviews(diags@) =~= d0 + Seq::<DiagView>::empty());
            }
            return;
        },
    };
    let id = trim_str(raw);
    if is_empty_str(id.as_str()) {
        proof {
            assert(dviews(diags@) =~= d0 + Seq::<DiagView>::empty());
        }
        return;
    }
    if contains_string(builtin, id.as_str()) {
        let d = Diagnostic::event(Severity::Error, "achievement.id_conflicts_builtin", cid, i,
            cat3(MSG_ACH_BUILTIN_PRE, id.as_str(), MSG_ACH_BUILTIN_POST)).with_field("achievement_id");
        let ghost dd = diags@;
        diags.push(d);
        proof {
            lemma_dviews_push(dd, d);
        }
    }
    let ghost d1 = dviews(diags@);
    let fresh = seen.insert(id.as_str());
    if !fresh {
        let d = Diagnostic::event(Severity::Error, "achievement.id_duplicated", cid, i,
            cat3(MSG_ACH_DUP_PRE, id.as_str(), MSG_ACH_DUP_POST)).with_field("achievement_id");
        let ghost dd = diags@;
        diags.push(d);
        proof {
            lemma_dviews_push(dd, d);
        }
    }
    proof {
        let a = achievement_diags(m@, ty@, crate::text::views(builtin@), old(seen)@, cid@, i);
        assert(dviews(diags@) =~= d0 + a);
    }
}

// ---------- background effects ----------

pub const MSG_EFFECT_CASE_PRE: &'static str = "特效「";
pub const MSG_EFFECT_CASE_MID: &'static str = "」大小写不对；在编辑器打开本章节时会自动纠正为「";
pub const MSG_EFFECT_CASE_POST: &'static str = "」";
pub const MSG_EFFECT_UNKNOWN_POST: &'static str = "」不是内置特效，引擎会清空当前特效。可从编辑器的特效下拉里选已支持的项";

/// The first effect of `effects` equal to `e` up to ASCII case.
pub open spec fn case_match(effects: Seq<Seq<char>>, e: Seq<char>) -> Option<Seq<char>>
    decreases effects.len(),
{
    if effects.len() == 0 {
        None
    } else if eq_ignore_ascii_case(effects[0], e) {
        Some(effects[0])
    } else {
        case_match(effects.drop_first(), e)
    }
}

/// The names of the effects the engine knows.
pub open spec fn effect_names(known: Seq<&'static str>) -> Seq<Seq<char>> {
    known.map_values(|k: &'static str| k@)
}

/// A note for an effect spelled with the wrong case, a warning for an effect
/// the engine does not know; nothing for an empty effect or `none`, which clear it.
pub open spec fn effect_diags(m: Seq<(String, JsonValue)>, known: Seq<&'static str>, cid: Seq<char>, i: usize) -> Seq<DiagView> {
    let e = str_or_empty(get_str(m, "effect"@));
    if e.len() == 0 || eq_ignore_ascii_case(e, "none"@) || effect_names(known).contains(e) {
        Seq::empty()
    } else {
        match case_match(effect_names(known), e) {
            Some(c) => seq![with_field(event_diag(Severity::Info, "effect.case"@, cid, i,
                MSG_EFFECT_CASE_PRE@ + e + MSG_EFFECT_CASE_MID@ + c + MSG_EFFECT_CASE_POST@), "effect"@)],
            None => seq![with_field(event_diag(Severity::Warn, "effect.unknown"@, cid, i,
                MSG_EFFECT_CASE_PRE@ + e + MSG_EFFECT_UNKNOWN_POST@), "effect"@)],
        }
    }
}

/// Checks the effect of a `background_effect` event against the engine's effects.
pub fn check_effect(m: &Vec<(String, JsonValue)>, known_effects: &[&'static str], cid: &str, i: usize, diags: &mut Vec<Diagnostic>)
    ensures
        dviews(final(diags)@) == dviews(old(diags)@) + effect_diags(m@, known_effects@, cid@, i),
{
    let ghost d0 = dviews(diags@);
    let ghost names = effect_names(known_effects@);
    let e: &str = match get_str_exec(m, "effect") {
        Some(x) => x,
        None => "",
    };
    proof {
        reveal_strlit("");
        assert(e@ =~= str_or_empty(get_str(m@, "effect"@)));
    }
    if is_empty_str(e) || eq_ignore_ascii_case_exec(e, "none") {
        proof {
            assert(dviews(diags@) =~= d0 + Seq::<DiagView>::empty());
        }
        return;
    }
    let mut exact = false;
    let mut hint: Option<&'static str> = None;
    let mut j: usize = 0;
    proof {
        assert(names.subrange(0, names.len() as int) =~= names);
    }
    while j < known_effects.len()
        invariant
            j <= known_effects@.len(),
            names == effect_names(known_effects@),
            exact == names.subrange(0, j as int).contains(e@),
            hint is None ==> case_match(names, e@) == case_match(names.subrange(j as int, names.len() as int), e@),
            hint is Some ==> case_match(names, e@) == Some(hint->0@),
        decreases known_effects@.len() - j,
    {
        let k = known_effects[j];
        let ghost rest = names.subrange(j as int, names.len() as int);
        proof {
            assert(rest[0] == k@);
            assert(rest.drop_first() =~= names.subrange(j + 1, names.len() as int));
            assert(names.subrange(0, j + 1) =~= names.subrange(0, j as int).push(k@));
        }
        proof {
            let a = names.subrange(0, j as int);
            let b = names.subrange(0, j + 1);
            if b.contains(e@) {
                let q = choose|q: int| 0 <= q < b.len() && b[q] == e@;
                if q < j {
                    assert(a[q] == e@);
                }
            }
            if a.contains(e@) {
                let q = choose|q: int| 0 <= q < a.len() && a[q] == e@;
                assert(b[q] == e@);
            }
            if k@ == e@ {
                assert(b[j as int] == e@);
            }
        }
        if str_eq(k, e) {
            exact = true;
        }
        if hint.is_none() && eq_ignore_ascii_case_exec(k, e) {
            hint = Some(k);
        }
        j = j + 1;
    }
    proof {
        assert(names.subrange(0, names.len() as int) =~= names);
        assert(names.subrange(names.len() as int, names.len() as int) =~= Seq::<Seq<char>>::empty());
    }
    if exact {
        proof {
            assert(dviews(diags@) =~= d0 + Seq::<DiagView>::empty());
        }
        return;
    }
    let d = match hint {
        Some(c) => {
            let mut msg = cat3(MSG_EFFECT_CASE_PRE, e, MSG_EFFECT_CASE_MID);
            msg.append(c);
            msg.append(MSG_EFFECT_CASE_POST);
            Diagnostic::event(Severity::Info, "effect.case", cid, i, msg).with_field("effect")
        },
        None => Diagnostic::event(Severity::Warn, "effect.unknown", cid, i,
            cat3(MSG_EFFECT_CASE_PRE, e, MSG_EFFECT_UNKNOWN_POST)).with_field("effect"),
    };
    let ghost dd = diags@;
    diags.push(d);
    proof {
        lemma_dviews_push(dd, d);
        assert(dviews(diags@) =~= d0 + effect_diags(m@, known_effects@, cid@, i));
    }
}

// ---------- free dialogue, chapter end, music, characters ----------

pub const MSG_NO_EXIT: &'static str = "最大轮数不限且结束语为空，这段自由对话永远无法结束";
pub const DEFAULT_END_LINE: &'static str = "结束";

/// An error for a free dialogue that can never end: no positive round limit
/// and a blank end line (the end line defaults to `结束`).
pub open spec fn free_dialogue_diags(m: Seq<(String, JsonValue)>, cid: Seq<char>, i: usize) -> Seq<DiagView> {
    let rounds: int = match int_of(lookup(m, "max_rounds"@)) {
        Some(n) => n as int,
        None => -1,
    };
    let end_line = match get_str(m, "end_line"@) {
        Some(s) => s,
        None => DEFAULT_END_LINE@,
    };
    if rounds <= 0 && trim(end_line).len() == 0 {
        seq![event_diag(Severity::Error, "free_dialogue.no_exit"@, cid, i, MSG_NO_EXIT@)]
    } else {
        Seq::empty()
    }
}

/// Checks that a free dialogue has a way out.
pub fn check_free_dialogue(m: &Vec<(String, JsonValue)>, cid: &str, i: usize, diags: &mut Vec<Diagnostic>)
    ensures
        dviews(final(diags)@) == dviews(old(diags)@) + free_dialogue_diags(m@, cid@, i),
{
    let ghost d0 = dviews(diags@);
    let rounds: i64 = match get_int_exec(m, "max_rounds") {
        Some(n) => n,
        None => -1,
    };
    let end_line: &str = match get_str_exec(m, "end_line") {
        Some(s) => s,
        None => DEFAULT_END_LINE,
    };
    if rounds <= 0 && is_blank(end_line) {
        let d = Diagnostic::event(Severity::Error, "free_dialogue.no_exit", cid, i, owned(MSG_NO_EXIT));
        let ghost dd = diags@;
        diags.push(d);
        proof {
            lemma_dviews_push(dd, d);
            assert(dviews(diags@) =~= d0 + free_dialogue_diags(m@, cid@, i));
        }
    } else {
        proof {
            assert(dviews(diags@) =~= d0 + free_dialogue_diags(m@, cid@, i));
        }
    }
}

pub const MSG_NOT_LAST_PRE: &'static str = "章节结束之后还有 ";
pub const MSG_NOT_LAST_POST: &'static str = " 个事件，它们永远不会执行";

/// A warning for a chapter end that is not the last event (`last` is the index of the last event).
pub open spec fn not_last_diags(cid: Seq<char>, i: usize, last: usize) -> Seq<DiagView> {
    if i != last {
        seq![event_diag(Severity::Warn, "chapter_end.not_last"@, cid, i,
            MSG_NOT_LAST_PRE@ + decimal((last - i) as nat) + MSG_NOT_LAST_POST@)]
    } else {
        Seq::empty()
    }
}

/// Warns about events after a chapter end.
pub fn check_not_last(cid: &str, i: usize, last: usize, diags: &mut Vec<Diagnostic>)
    requires
        i <= last,
    ensures
        dviews(final(diags)@) == dviews(old(diags)@) + not_last_diags(cid@, i, last),
{
    let ghost d0 = dviews(diags@);
    if i != last {
        let n = decimal_string(last - i);
        let d = Diagnostic::event(Severity::Warn, "chapter_end.not_last", cid, i, cat3(MSG_NOT_LAST_PRE, n.as_str(), MSG_NOT_LAST_POST));
        let ghost dd = diags@;
        diags.push(d);
        proof {
            lemma_dviews_push(dd, d);
            assert(dviews(diags@) =~= d0 + not_last_diags(cid@, i, last));
        }
    } else {
        proof {
            assert(dviews(diags@) =~= d0 + not_last_diags(cid@, i, last));
        }
    }
}

pub const MSG_SPEED_PRE: &'static str = "播放速度 ";
pub const MSG_SPEED_POST: &'static str = " 超出建议范围（0–4）。≤0 无效，>2 通常会失真";

/// A warning for a music event whose playback speed is out of range; `speed`
/// is the speed as written, present only when it is out of range.
pub open spec fn speed_diags(speed: Option<Seq<char>>, cid: Seq<char>, i: usize) -> Seq<DiagView> {
    match speed {
        Some(sp) => seq![with_field(event_diag(Severity::Warn, "music.bad_speed"@, cid, i,
            MSG_SPEED_PRE@ + sp + MSG_SPEED_POST@), "playbackSpeed"@)],
        None => Seq::empty(),
    }
}

/// Reports an out-of-range playback speed.
pub fn check_speed(speed: &Option<String>, cid: &str, i: usize, diags: &mut Vec<Diagnostic>)
    ensures
        dviews(final(diags)@) == dviews(old(diags)@) + speed_diags(opt_view(*speed), cid@, i),
{
    let ghost d0 = dviews(diags@);
    match speed {
        Some(sp) => {
            let d = Diagnostic::event(Severity::Warn, "music.bad_speed", cid, i, cat3(MSG_SPEED_PRE, sp.as_str(), MSG_SPEED_POST)).with_field("playbackSpeed");
            let ghost dd = diags@;
            diags.push(d);
            proof {
                lemma_dviews_push(dd, d);
                assert(dviews(diags@) =~= d0 + speed_diags(Some(sp@), cid@, i));
            }
        },
        None => {
            proof {
                assert(dviews(diags@) =~= d0 + Seq::<DiagView>::empty());
            }
        },
    }
}

pub const MSG_CHARACTER_PRE: &'static str = "角色「";
pub const MSG_CHARACTER_POST: &'static str = "」在本剧本的 characters/ 下找不到；写 MAIN 表示当前主角";

/// An error for a `character` that is neither `MAIN` nor a character of the script.
pub open spec fn character_diags(m: Seq<(String, JsonValue)>, known: Set<Seq<char>>, cid: Seq<char>, i: usize) -> Seq<DiagView> {
    match get_str(m, "character"@) {
        Some(ch) => if ch != "MAIN"@ && !known.contains(ch) {
            seq![with_field(event_diag(Severity::Error, "character.unknown"@, cid, i,
                MSG_CHARACTER_PRE@ + ch + MSG_CHARACTER_POST@), "character"@)]
        } else {
            Seq::empty()
        },
        None => Seq::empty(),
    }
}

/// Checks the character an event names.
pub fn check_character(m: &Vec<(String, JsonValue)>, known: &StrSet, cid: &str, i: usize, diags: &mut Vec<Diagnostic>)
    requires
        known.wf(),
    ensures
        dviews(final(diags)@) == dviews(old(diags)@) + character_diags(m@, known@, cid@, i),
{
    let ghost d0 = dviews(diags@);
    match get_str_exec(m, "character") {
        Some(ch) => {
            if !str_eq(ch, "MAIN") && !known.contains(ch) {
                let d = Diagnostic::event(Severity::Error, "character.unknown", cid, i, cat3(MSG_CHARACTER_PRE, ch, MSG_CHARACTER_POST)).with_field("character");
                let ghost dd = diags@;
                diags.push(d);
                proof {
                    lemma_dviews_push(dd, d);
                    assert(dviews(diags@) =~= d0 + character_diags(m@, known@, cid@, i));
                }
            } else {
                proof {
                    assert(dviews(diags@) =~= d0 + character_diags(m@, known@, cid@, i));
                }
            }
        },
        None => {
            proof {
                assert(dviews(diags@) =~= d0 + character_diags(m@, known@, cid@, i));
            }
        },
    }
}

} // verus!
