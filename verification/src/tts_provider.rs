//! The TTS provider's decisions: which engine a character's `tts_type`
//! picks, whether a line is spoken at all, and when a disabled provider
//! probes for recovery.
use vstd::prelude::*;
use crate::text::{cat, owned, str_eq, trim, is_blank};

verus! {

/// A TTS engine the provider can hold.
#[derive(Debug, Clone, Copy, PartialEq, Eq, Structural)]
pub enum TtsEngine {
    Vits,
    Sbv2,
    Sbv2Api,
    Sbv2Local,
    Bv2,
    Gsv,
    Aivis,
    IndexTts,
    OpenTts,
    FishS2,
}

/// Which engines are configured.
#[derive(Debug, Clone, Copy, PartialEq, Eq, Structural)]
pub struct TtsSlots {
    pub vits: bool,
    pub sbv2: bool,
    pub sbv2api: bool,
    pub sbv2_local: bool,
    pub bv2: bool,
    pub gsv: bool,
    pub aivis: bool,
    pub indextts: bool,
    pub opentts: bool,
    pub fish_s2: bool,
}

/// Whether an engine is configured.
pub open spec fn configured(s: TtsSlots, e: TtsEngine) -> bool {
    match e {
        TtsEngine::Vits => s.vits,
        TtsEngine::Sbv2 => s.sbv2,
        TtsEngine::Sbv2Api => s.sbv2api,
        TtsEngine::Sbv2Local => s.sbv2_local,
        TtsEngine::Bv2 => s.bv2,
        TtsEngine::Gsv => s.gsv,
        TtsEngine::Aivis => s.aivis,
        TtsEngine::IndexTts => s.indextts,
        TtsEngine::OpenTts => s.opentts,
        TtsEngine::FishS2 => s.fish_s2,
    }
}

/// The engine a `tts_type` names.
pub open spec fn engine_named(t: Seq<char>) -> Option<TtsEngine> {
    if t == "sva-vits"@ { Some(TtsEngine::Vits) }
    else if t == "sbv2"@ { Some(TtsEngine::Sbv2) }
    else if t == "sbv2api"@ { Some(TtsEngine::Sbv2Api) }
    else if t == "localsbv2api"@ { Some(TtsEngine::Sbv2Local) }
    else if t == "sva-bv2"@ { Some(TtsEngine::Bv2) }
    else if t == "gsv"@ { Some(TtsEngine::Gsv) }
    else if t == "aivis"@ { Some(TtsEngine::Aivis) }
    else if t == "indextts2"@ { Some(TtsEngine::IndexTts) }
    else if t == "opentts"@ { Some(TtsEngine::OpenTts) }
    else if t == "fishs2"@ { Some(TtsEngine::FishS2) }
    else { None }
}

/// The name used in the refusal of an engine that is not configured.
pub open spec fn engine_label(e: TtsEngine) -> Seq<char> {
    match e {
        TtsEngine::Vits => "Vits"@,
        TtsEngine::Sbv2 => "Style-Bert-Vits2"@,
        TtsEngine::Sbv2Api => "sbv2-api"@,
        TtsEngine::Sbv2Local => "SBV2 local"@,
        TtsEngine::Bv2 => "Bert-Vits2"@,
        TtsEngine::Gsv => "GPT-SoVITS"@,
        TtsEngine::Aivis => "AIVIS"@,
        TtsEngine::IndexTts => "IndexTTS2"@,
        TtsEngine::OpenTts => "OpenTTS"@,
        TtsEngine::FishS2 => "Fish S2"@,
    }
}

pub const MSG_NOT_READY: &'static str = " 适配器未初始化";
pub const MSG_NO_ENGINE: &'static str = "没有可用的 TTS 适配器";
pub const MSG_UNKNOWN_TYPE: &'static str = "未知的 TTS 类型: ";
pub const MSG_TTS_OFF: &'static str = "TTS 服务未启用";

/// The engine a `tts_type` selects: the named engine when it is configured;
/// for an empty type, Style-Bert-VITS2 when configured (the old default);
/// otherwise a refusal naming what is missing.
pub open spec fn selected(t: Seq<char>, slots: TtsSlots) -> Result<TtsEngine, Seq<char>> {
    if t.len() == 0 {
        if slots.sbv2 { Ok(TtsEngine::Sbv2) } else { Err(MSG_NO_ENGINE@) }
    } else {
        match engine_named(t) {
            Some(e) => if configured(slots, e) { Ok(e) } else { Err(engine_label(e) + MSG_NOT_READY@) },
            None => Err(MSG_UNKNOWN_TYPE@ + t),
        }
    }
}

/// The engine a name picks, if it names one.
fn engine_of(t: &str) -> (r: Option<TtsEngine>)
    ensures
        r == engine_named(t@),
{
    if str_eq(t, "sva-vits") { Some(TtsEngine::Vits) }
    else if str_eq(t, "sbv2") { Some(TtsEngine::Sbv2) }
    else if str_eq(t, "sbv2api") { Some(TtsEngine::Sbv2Api) }
    else if str_eq(t, "localsbv2api") { Some(TtsEngine::Sbv2Local) }
    else if str_eq(t, "sva-bv2") { Some(TtsEngine::Bv2) }
    else if str_eq(t, "gsv") { Some(TtsEngine::Gsv) }
    else if str_eq(t, "aivis") { Some(TtsEngine::Aivis) }
    else if str_eq(t, "indextts2") { Some(TtsEngine::IndexTts) }
    else if str_eq(t, "opentts") { Some(TtsEngine::OpenTts) }
    else if str_eq(t, "fishs2") { Some(TtsEngine::FishS2) }
    else { None }
}

fn is_configured(s: &TtsSlots, e: TtsEngine) -> (r: bool)
    ensures
        r == configured(*s, e),
{
    match e {
        TtsEngine::Vits => s.vits,
        TtsEngine::Sbv2 => s.sbv2,
        TtsEngine::Sbv2Api => s.sbv2api,
        TtsEngine::Sbv2Local => s.sbv2_local,
        TtsEngine::Bv2 => s.bv2,
        TtsEngine::Gsv => s.gsv,
        TtsEngine::Aivis => s.aivis,
        TtsEngine::IndexTts => s.indextts,
        TtsEngine::OpenTts => s.opentts,
        TtsEngine::FishS2 => s.fish_s2,
    }
}

fn label_of(e: TtsEngine) -> (r: &'static str)
    ensures
        r@ == engine_label(e),
{
    match e {
        TtsEngine::Vits => "Vits",
        TtsEngine::Sbv2 => "Style-Bert-Vits2",
        TtsEngine::Sbv2Api => "sbv2-api",
        TtsEngine::Sbv2Local => "SBV2 local",
        TtsEngine::Bv2 => "Bert-Vits2",
        TtsEngine::Gsv => "GPT-SoVITS",
        TtsEngine::Aivis => "AIVIS",
        TtsEngine::IndexTts => "IndexTTS2",
        TtsEngine::OpenTts => "OpenTTS",
        TtsEngine::FishS2 => "Fish S2",
    }
}

/// Selects the engine for a `tts_type`.
pub fn select_engine(tts_type: &str, slots: &TtsSlots) -> (r: Result<TtsEngine, String>)
    ensures
        match selected(tts_type@, *slots) {
            Ok(e) => r is Ok && r->Ok_0 == e,
            Err(m) => r is Err && r->Err_0@ == m,
        },
{
    proof {
        reveal_strlit("");
    }
    if str_eq(tts_type, "") {
        assert(tts_type@.len() == 0);
        return if slots.sbv2 { Ok(TtsEngine::Sbv2) } else { Err(owned(MSG_NO_ENGINE)) };
    }
    assert(tts_type@.len() != 0) by {
        if tts_type@.len() == 0 {
            assert(tts_type@ =~= ""@);
        }
    }
    match engine_of(tts_type) {
        Some(e) => {
            if is_configured(slots, e) {
                Ok(e)
            } else {
                Err(cat(label_of(e), MSG_NOT_READY))
            }
        },
        None => Err(cat(MSG_UNKNOWN_TYPE, tts_type)),
    }
}

/// What speaking a line comes to: a refusal when TTS is switched off;
/// nothing when the text is blank; otherwise the engine that speaks it (or
/// the refusal of the selection).
pub open spec fn voice_plan_spec(enabled: bool, text: Seq<char>, t: Seq<char>, slots: TtsSlots) -> Result<Option<TtsEngine>, Seq<char>> {
    if !enabled {
        Err(MSG_TTS_OFF@)
    } else if trim(text).len() == 0 {
        Ok(None)
    } else {
        match selected(t, slots) {
            Ok(e) => Ok(Some(e)),
            Err(m) => Err(m),
        }
    }
}

/// Decides how a line is spoken.
pub fn voice_plan(enabled: bool, text: &str, tts_type: &str, slots: &TtsSlots) -> (r: Result<Option<TtsEngine>, String>)
    ensures
        match voice_plan_spec(enabled, text@, tts_type@, *slots) {
            Ok(o) => r is Ok && r->Ok_0 == o,
            Err(m) => r is Err && r->Err_0@ == m,
        },
{
    if !enabled {
        return Err(owned(MSG_TTS_OFF));
    }
    if is_blank(text) {
        return Ok(None);
    }
    match select_engine(tts_type, slots) {
        Ok(e) => Ok(Some(e)),
        Err(m) => Err(m),
    }
}

/// When a disabled provider probes for recovery, and with which engine:
/// only while it is disabled, for a non-blank line, when no probe is
/// running, and when the engine can be selected.
pub open spec fn recovery_probe(enabled: bool, text: Seq<char>, in_flight: bool, t: Seq<char>, slots: TtsSlots) -> Option<TtsEngine> {
    if enabled || trim(text).len() == 0 || in_flight {
        None
    } else {
        match selected(t, slots) {
            Ok(e) => Some(e),
            Err(_) => None,
        }
    }
}

/// Decides whether to probe a disabled provider.
pub fn recovery_plan(enabled: bool, text: &str, in_flight: bool, tts_type: &str, slots: &TtsSlots) -> (r: Option<TtsEngine>)
    ensures
        r == recovery_probe(enabled, text@, in_flight, tts_type@, *slots),
{
    if enabled || is_blank(text) || in_flight {
        return None;
    }
    match select_engine(tts_type, slots) {
        Ok(e) => Some(e),
        Err(_) => None,
    }
}

/// Each engine is picked by its own type name when it is configured:
/// `sva-vits` Vits, `sbv2` Style-Bert-VITS2, `sbv2api` the sbv2 API,
/// `localsbv2api` the local sbv2 API, `sva-bv2` Bert-VITS2, `gsv`
/// GPT-SoVITS, `aivis` AIVIS, `indextts2` IndexTTS2, `opentts` OpenTTS and
/// `fishs2` Fish S2.
pub proof fn law_each_type_name_picks_its_engine(slots: TtsSlots)
    ensures
        slots.vits ==> selected("sva-vits"@, slots) == Ok::<TtsEngine, Seq<char>>(TtsEngine::Vits),
        slots.sbv2 ==> selected("sbv2"@, slots) == Ok::<TtsEngine, Seq<char>>(TtsEngine::Sbv2),
        slots.sbv2api ==> selected("sbv2api"@, slots) == Ok::<TtsEngine, Seq<char>>(TtsEngine::Sbv2Api),
        slots.sbv2_local ==> selected("localsbv2api"@, slots) == Ok::<TtsEngine, Seq<char>>(TtsEngine::Sbv2Local),
        slots.bv2 ==> selected("sva-bv2"@, slots) == Ok::<TtsEngine, Seq<char>>(TtsEngine::Bv2),
        slots.gsv ==> selected("gsv"@, slots) == Ok::<TtsEngine, Seq<char>>(TtsEngine::Gsv),
        slots.aivis ==> selected("aivis"@, slots) == Ok::<TtsEngine, Seq<char>>(TtsEngine::Aivis),
        slots.indextts ==> selected("indextts2"@, slots) == Ok::<TtsEngine, Seq<char>>(TtsEngine::IndexTts),
        slots.opentts ==> selected("opentts"@, slots) == Ok::<TtsEngine, Seq<char>>(TtsEngine::OpenTts),
        slots.fish_s2 ==> selected("fishs2"@, slots) == Ok::<TtsEngine, Seq<char>>(TtsEngine::FishS2),
{
        reveal_strlit("sva-vits");
        reveal_strlit("sbv2");
        reveal_strlit("sbv2api");
        reveal_strlit("localsbv2api");
        reveal_strlit("sva-bv2");
        reveal_strlit("gsv");
        reveal_strlit("aivis");
        reveal_strlit("indextts2");
        reveal_strlit("opentts");
        reveal_strlit("fishs2");
        assert("sva-vits"@ != "sbv2"@) by { assert("sva-vits"@.len() != "sbv2"@.len()); }
        assert("sva-vits"@ != "sbv2api"@) by { assert("sva-vits"@.len() != "sbv2api"@.len()); }
        assert("sva-vits"@ != "localsbv2api"@) by { assert("sva-vits"@.len() != "localsbv2api"@.len()); }
        assert("sva-vits"@ != "sva-bv2"@) by { assert("sva-vits"@.len() != "sva-bv2"@.len()); }
        assert("sva-vits"@ != "gsv"@) by { assert("sva-vits"@.len() != "gsv"@.len()); }
        assert("sva-vits"@ != "aivis"@) by { assert("sva-vits"@.len() != "aivis"@.len()); }
        assert("sva-vits"@ != "indextts2"@) by { assert("sva-vits"@.len() != "indextts2"@.len()); }
        assert("sva-vits"@ != "opentts"@) by { assert("sva-vits"@.len() != "opentts"@.len()); }
        assert("sva-vits"@ != "fishs2"@) by { assert("sva-vits"@.len() != "fishs2"@.len()); }
        assert("sbv2"@ != "sbv2api"@) by { assert("sbv2"@.len() != "sbv2api"@.len()); }
        assert("sbv2"@ != "localsbv2api"@) by { assert("sbv2"@.len() != "localsbv2api"@.len()); }
        assert("sbv2"@ != "sva-bv2"@) by { assert("sbv2"@.len() != "sva-bv2"@.len()); }
        assert("sbv2"@ != "gsv"@) by { assert("sbv2"@.len() != "gsv"@.len()); }
        assert("sbv2"@ != "aivis"@) by { assert("sbv2"@.len() != "aivis"@.len()); }
        assert("sbv2"@ != "indextts2"@) by { assert("sbv2"@.len() != "indextts2"@.len()); }
        assert("sbv2"@ != "opentts"@) by { assert("sbv2"@.len() != "opentts"@.len()); }
        assert("sbv2"@ != "fishs2"@) by { assert("sbv2"@.len() != "fishs2"@.len()); }
        assert("sbv2api"@ != "localsbv2api"@) by { assert("sbv2api"@.len() != "localsbv2api"@.len()); }
        assert("sbv2api"@ != "sva-bv2"@) by { assert("sbv2api"@[1] != "sva-bv2"@[1]); }
        assert("sbv2api"@ != "gsv"@) by { assert("sbv2api"@.len() != "gsv"@.len()); }
        assert("sbv2api"@ != "aivis"@) by { assert("sbv2api"@.len() != "aivis"@.len()); }
        assert("sbv2api"@ != "indextts2"@) by { assert("sbv2api"@.len() != "indextts2"@.len()); }
        assert("sbv2api"@ != "opentts"@) by { assert("sbv2api"@[0] != "opentts"@[0]); }
        assert("sbv2api"@ != "fishs2"@) by { assert("sbv2api"@.len() != "fishs2"@.len()); }
        assert("localsbv2api"@ != "sva-bv2"@) by { assert("localsbv2api"@.len() != "sva-bv2"@.len()); }
        assert("localsbv2api"@ != "gsv"@) by { assert("localsbv2api"@.len() != "gsv"@.len()); }
        assert("localsbv2api"@ != "aivis"@) by { assert("localsbv2api"@.len() != "aivis"@.len()); }
        assert("localsbv2api"@ != "indextts2"@) by { assert("localsbv2api"@.len() != "indextts2"@.len()); }
        assert("localsbv2api"@ != "opentts"@) by { assert("localsbv2api"@.len() != "opentts"@.len()); }
        assert("localsbv2api"@ != "fishs2"@) by { assert("localsbv2api"@.len() != "fishs2"@.len()); }
        assert("sva-bv2"@ != "gsv"@) by { assert("sva-bv2"@.len() != "gsv"@.len()); }
        assert("sva-bv2"@ != "aivis"@) by { assert("sva-bv2"@.len() != "aivis"@.len()); }
        assert("sva-bv2"@ != "indextts2"@) by { assert("sva-bv2"@.len() != "indextts2"@.len()); }
        assert("sva-bv2"@ != "opentts"@) by { assert("sva-bv2"@[0] != "opentts"@[0]); }
        assert("sva-bv2"@ != "fishs2"@) by { assert("sva-bv2"@.len() != "fishs2"@.len()); }
        assert("gsv"@ != "aivis"@) by { assert("gsv"@.len() != "aivis"@.len()); }
        assert("gsv"@ != "indextts2"@) by { assert("gsv"@.len() != "indextts2"@.len()); }
        assert("gsv"@ != "opentts"@) by { assert("gsv"@.len() != "opentts"@.len()); }
        assert("gsv"@ != "fishs2"@) by { assert("gsv"@.len() != "fishs2"@.len()); }
        assert("aivis"@ != "indextts2"@) by { assert("aivis"@.len() != "indextts2"@.len()); }
        assert("aivis"@ != "opentts"@) by { assert("aivis"@.len() != "opentts"@.len()); }
        assert("aivis"@ != "fishs2"@) by { assert("aivis"@.len() != "fishs2"@.len()); }
        assert("indextts2"@ != "opentts"@) by { assert("indextts2"@.len() != "opentts"@.len()); }
        assert("indextts2"@ != "fishs2"@) by { assert("indextts2"@.len() != "fishs2"@.len()); }
        assert("opentts"@ != "fishs2"@) by { assert("opentts"@.len() != "fishs2"@.len()); }
}

/// No two type names pick the same engine.
pub proof fn law_type_names_pick_distinct_engines(a: Seq<char>, b: Seq<char>)
    requires
        engine_named(a) is Some,
        engine_named(a) == engine_named(b),
    ensures
        a == b,
{
        reveal_strlit("sva-vits");
        reveal_strlit("sbv2");
        reveal_strlit("sbv2api");
        reveal_strlit("localsbv2api");
        reveal_strlit("sva-bv2");
        reveal_strlit("gsv");
        reveal_strlit("aivis");
        reveal_strlit("indextts2");
        reveal_strlit("opentts");
        reveal_strlit("fishs2");
        assert("sva-vits"@ != "sbv2"@) by { assert("sva-vits"@.len() != "sbv2"@.len()); }
        assert("sva-vits"@ != "sbv2api"@) by { assert("sva-vits"@.len() != "sbv2api"@.len()); }
        assert("sva-vits"@ != "localsbv2api"@) by { assert("sva-vits"@.len() != "localsbv2api"@.len()); }
        assert("sva-vits"@ != "sva-bv2"@) by { assert("sva-vits"@.len() != "sva-bv2"@.len()); }
        assert("sva-vits"@ != "gsv"@) by { assert("sva-vits"@.len() != "gsv"@.len()); }
        assert("sva-vits"@ != "aivis"@) by { assert("sva-vits"@.len() != "aivis"@.len()); }
        assert("sva-vits"@ != "indextts2"@) by { assert("sva-vits"@.len() != "indextts2"@.len()); }
        assert("sva-vits"@ != "opentts"@) by { assert("sva-vits"@.len() != "opentts"@.len()); }
        assert("sva-vits"@ != "fishs2"@) by { assert("sva-vits"@.len() != "fishs2"@.len()); }
        assert("sbv2"@ != "sbv2api"@) by { assert("sbv2"@.len() != "sbv2api"@.len()); }
        assert("sbv2"@ != "localsbv2api"@) by { assert("sbv2"@.len() != "localsbv2api"@.len()); }
        assert("sbv2"@ != "sva-bv2"@) by { assert("sbv2"@.len() != "sva-bv2"@.len()); }
        assert("sbv2"@ != "gsv"@) by { assert("sbv2"@.len() != "gsv"@.len()); }
        assert("sbv2"@ != "aivis"@) by { assert("sbv2"@.len() != "aivis"@.len()); }
        assert("sbv2"@ != "indextts2"@) by { assert("sbv2"@.len() != "indextts2"@.len()); }
        assert("sbv2"@ != "opentts"@) by { assert("sbv2"@.len() != "opentts"@.len()); }
        assert("sbv2"@ != "fishs2"@) by { assert("sbv2"@.len() != "fishs2"@.len()); }
        assert("sbv2api"@ != "localsbv2api"@) by { assert("sbv2api"@.len() != "localsbv2api"@.len()); }
        assert("sbv2api"@ != "sva-bv2"@) by { assert("sbv2api"@[1] != "sva-bv2"@[1]); }
        assert("sbv2api"@ != "gsv"@) by { assert("sbv2api"@.len() != "gsv"@.len()); }
        assert("sbv2api"@ != "aivis"@) by { assert("sbv2api"@.len() != "aivis"@.len()); }
        assert("sbv2api"@ != "indextts2"@) by { assert("sbv2api"@.len() != "indextts2"@.len()); }
        assert("sbv2api"@ != "opentts"@) by { assert("sbv2api"@[0] != "opentts"@[0]); }
        assert("sbv2api"@ != "fishs2"@) by { assert("sbv2api"@.len() != "fishs2"@.len()); }
        assert("localsbv2api"@ != "sva-bv2"@) by { assert("localsbv2api"@.len() != "sva-bv2"@.len()); }
        assert("localsbv2api"@ != "gsv"@) by { assert("localsbv2api"@.len() != "gsv"@.len()); }
        assert("localsbv2api"@ != "aivis"@) by { assert("localsbv2api"@.len() != "aivis"@.len()); }
        assert("localsbv2api"@ != "indextts2"@) by { assert("localsbv2api"@.len() != "indextts2"@.len()); }
        assert("localsbv2api"@ != "opentts"@) by { assert("localsbv2api"@.len() != "opentts"@.len()); }
        assert("localsbv2api"@ != "fishs2"@) by { assert("localsbv2api"@.len() != "fishs2"@.len()); }
        assert("sva-bv2"@ != "gsv"@) by { assert("sva-bv2"@.len() != "gsv"@.len()); }
        assert("sva-bv2"@ != "aivis"@) by { assert("sva-bv2"@.len() != "aivis"@.len()); }
        assert("sva-bv2"@ != "indextts2"@) by { assert("sva-bv2"@.len() != "indextts2"@.len()); }
        assert("sva-bv2"@ != "opentts"@) by { assert("sva-bv2"@[0] != "opentts"@[0]); }
        assert("sva-bv2"@ != "fishs2"@) by { assert("sva-bv2"@.len() != "fishs2"@.len()); }
        assert("gsv"@ != "aivis"@) by { assert("gsv"@.len() != "aivis"@.len()); }
        assert("gsv"@ != "indextts2"@) by { assert("gsv"@.len() != "indextts2"@.len()); }
        assert("gsv"@ != "opentts"@) by { assert("gsv"@.len() != "opentts"@.len()); }
        assert("gsv"@ != "fishs2"@) by { assert("gsv"@.len() != "fishs2"@.len()); }
        assert("aivis"@ != "indextts2"@) by { assert("aivis"@.len() != "indextts2"@.len()); }
        assert("aivis"@ != "opentts"@) by { assert("aivis"@.len() != "opentts"@.len()); }
        assert("aivis"@ != "fishs2"@) by { assert("aivis"@.len() != "fishs2"@.len()); }
        assert("indextts2"@ != "opentts"@) by { assert("indextts2"@.len() != "opentts"@.len()); }
        assert("indextts2"@ != "fishs2"@) by { assert("indextts2"@.len() != "fishs2"@.len()); }
        assert("opentts"@ != "fishs2"@) by { assert("opentts"@.len() != "fishs2"@.len()); }
}

} // verus!
