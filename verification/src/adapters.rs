//! The settings of the TTS adapters and the text rules they apply before a
//! request.
use vstd::prelude::*;
use crate::text::{trim, trim_str, is_blank, ascii_lower_seq, ends_with, ends_with_str, starts_with, starts_with_str, chars_of, string_of_range, owned, cat, cat3, str_eq};
use crate::tool_text::to_ascii_lowercase;

verus! {

/// `s` without its trailing `/` characters (`trim_end_matches('/')`).
pub open spec fn strip_slashes(s: Seq<char>) -> Seq<char>
    decreases s.len(),
{
    if s.len() > 0 && s.last() == '/' { strip_slashes(s.drop_last()) } else { s }
}

/// Drops the trailing `/` characters of a URL.
pub fn trim_end_slashes(s: &str) -> (r: String)
    ensures
        r@ == strip_slashes(s@),
{
    let v = chars_of(s);
    let mut n: usize = v.len();
    proof {
        assert(v@.subrange(0, v@.len() as int) =~= v@);
    }
    while n > 0 && v[n - 1] == '/'
        invariant
            n <= v@.len(),
            strip_slashes(v@) == strip_slashes(v@.subrange(0, n as int)),
        decreases n,
    {
        proof {
            assert(v@.subrange(0, n as int).drop_last() =~= v@.subrange(0, n - 1));
        }
        n = n - 1;
    }
    let r = string_of_range(&v, 0, n);
    proof {
        lemma_strip_stable(v@.subrange(0, n as int));
    }
    r
}

proof fn lemma_strip_stable(s: Seq<char>)
    requires
        s.len() == 0 || s.last() != '/',
    ensures
        strip_slashes(s) == s,
{
}

// ---------- AIVIS ----------

/// The AIVIS cloud adapter.
pub struct AivisAdapter {
    pub api_url: String,
    pub api_key: String,
    pub model_uuid: String,
    pub speaker_uuid: Option<String>,
    pub style_id: Option<i32>,
    pub style_name: Option<String>,
    pub audio_format: String,
    pub lang: String,
}

pub const MSG_AIVIS_NO_KEY: &'static str = "未设置 AIVIS API 密钥（请在设置中配置 tts.aivis_api_key）";

impl AivisAdapter {
    /// An AIVIS adapter; fails without a (non-empty) API key.
    pub fn new(api_url: String, api_key: Option<String>, model_uuid: String, speaker_uuid: Option<String>,
        audio_format: String, lang: String) -> (r: Result<Self, String>)
        ensures
            match api_key {
                Some(k) if k@.len() > 0 => r is Ok && r->Ok_0.api_url@ == strip_slashes(api_url@) && r->Ok_0.api_key == k
                    && r->Ok_0.model_uuid == model_uuid && r->Ok_0.speaker_uuid == speaker_uuid
                    && r->Ok_0.style_id is None && r->Ok_0.style_name is None
                    && r->Ok_0.audio_format == audio_format && r->Ok_0.lang == lang,
                _ => r is Err && r->Err_0@ == MSG_AIVIS_NO_KEY@,
            },
    {
        let key = match api_key {
            Some(k) => {
                if crate::validate::is_empty_str(k.as_str()) {
                    return Err(owned(MSG_AIVIS_NO_KEY));
                }
                k
            },
            None => { return Err(owned(MSG_AIVIS_NO_KEY)); },
        };
        Ok(AivisAdapter {
            api_url: trim_end_slashes(api_url.as_str()),
            api_key: key,
            model_uuid,
            speaker_uuid,
            style_id: None,
            style_name: None,
            audio_format,
            lang,
        })
    }
}

// ---------- Bert-VITS2 and VITS ----------

/// The Simple-Vits-API Bert-VITS2 adapter.
pub struct Bv2Adapter {
    pub api_url: String,
    pub speaker_id: i32,
    pub audio_format: String,
    pub lang: String,
}

impl Bv2Adapter {
    /// A Bert-VITS2 adapter.
    pub fn new(api_url: String, speaker_id: i32, audio_format: String, lang: String) -> (r: Self)
        ensures
            r.api_url@ == strip_slashes(api_url@),
            r.speaker_id == speaker_id,
            r.audio_format == audio_format,
            r.lang == lang,
    {
        Bv2Adapter { api_url: trim_end_slashes(api_url.as_str()), speaker_id, audio_format, lang }
    }
}

/// The VITS adapter.
pub struct VitsAdapter {
    pub api_url: String,
    pub speaker_id: i32,
    pub audio_format: String,
    pub lang: String,
}

impl VitsAdapter {
    /// A VITS adapter.
    pub fn new(api_url: String, speaker_id: i32, audio_format: String, lang: String) -> (r: Self)
        ensures
            r.api_url@ == strip_slashes(api_url@),
            r.speaker_id == speaker_id,
            r.audio_format == audio_format,
            r.lang == lang,
    {
        VitsAdapter { api_url: trim_end_slashes(api_url.as_str()), speaker_id, audio_format, lang }
    }
}

// ---------- Style-Bert-VITS2 ----------

/// The Style-Bert-VITS2 adapter.
pub struct Sbv2Adapter {
    pub api_url: String,
    pub audio_format: String,
    pub model_name: String,
    pub speaker_id: i32,
    pub language: String,
}

/// The language code the Style-Bert-VITS2 server takes for a language.
pub open spec fn sbv2_language(lang: Seq<char>) -> Seq<char> {
    if lang == "ja"@ {
        "JP"@
    } else if lang == "zh"@ {
        "ZH"@
    } else if lang == "en"@ {
        "EN"@
    } else {
        lang
    }
}

impl Sbv2Adapter {
    /// A Style-Bert-VITS2 adapter.
    pub fn new(api_url: String, speaker_id: i32, model_name: String, audio_format: String, lang: &str) -> (r: Self)
        ensures
            r.api_url@ == strip_slashes(api_url@),
            r.audio_format == audio_format,
            r.model_name == model_name,
            r.speaker_id == speaker_id,
            r.language@ == sbv2_language(lang@),
    {
        let language = if str_eq(lang, "ja") {
            owned("JP")
        } else if str_eq(lang, "zh") {
            owned("ZH")
        } else if str_eq(lang, "en") {
            owned("EN")
        } else {
            owned(lang)
        };
        Sbv2Adapter { api_url: trim_end_slashes(api_url.as_str()), audio_format, model_name, speaker_id, language }
    }
}

// ---------- OpenTTS ----------

/// The OpenAI-style TTS adapter.
pub struct OpenTtsAdapter {
    pub api_url: String,
    pub api_key: String,
    pub model: String,
    pub voice: String,
    pub response_format: String,
    pub language: String,
}

pub const MSG_OPENTTS_NO_KEY: &'static str = "未设置 OpenTTS API 密钥";
pub const MSG_OPENTTS_NO_VOICE: &'static str = "未设置 OpenTTS voice";

impl OpenTtsAdapter {
    /// An OpenTTS adapter; fails without a key or a voice.
    pub fn new(api_url: String, api_key: String, model: String, voice: String, response_format: String,
        language: String) -> (r: Result<Self, String>)
        ensures
            trim(api_key@).len() == 0 ==> r is Err && r->Err_0@ == MSG_OPENTTS_NO_KEY@,
            trim(api_key@).len() > 0 && trim(voice@).len() == 0 ==> r is Err && r->Err_0@ == MSG_OPENTTS_NO_VOICE@,
            trim(api_key@).len() > 0 && trim(voice@).len() > 0 ==> r is Ok
                && r->Ok_0.api_url@ == strip_slashes(api_url@) && r->Ok_0.api_key == api_key && r->Ok_0.model == model
                && r->Ok_0.voice == voice && r->Ok_0.response_format == response_format && r->Ok_0.language == language,
    {
        if is_blank(api_key.as_str()) {
            return Err(owned(MSG_OPENTTS_NO_KEY));
        }
        if is_blank(voice.as_str()) {
            return Err(owned(MSG_OPENTTS_NO_VOICE));
        }
        Ok(OpenTtsAdapter { api_url: trim_end_slashes(api_url.as_str()), api_key, model, voice, response_format, language })
    }
}

// ---------- IndexTTS ----------

/// The IndexTTS2 adapter.
pub struct IndexTtsAdapter {
    pub base_url: String,
    pub speaker_id: i32,
    pub audio_format: String,
    pub lang: String,
}

impl IndexTtsAdapter {
    /// An IndexTTS adapter for the given presets endpoint (speaker 0, wav, Chinese).
    pub fn new(base_url: String) -> (r: Self)
        ensures
            r.base_url == base_url,
            r.speaker_id == 0,
            r.audio_format@ == "wav"@,
            r.lang@ == "zh"@,
    {
        IndexTtsAdapter { base_url, speaker_id: 0, audio_format: owned("wav"), lang: owned("zh") }
    }
}

impl Default for IndexTtsAdapter {
    fn default() -> (r: Self)
        ensures
            r.base_url@ == "http://127.0.0.1:23467/voice/indextts/presets"@,
            r.speaker_id == 0,
            r.audio_format@ == "wav"@,
            r.lang@ == "zh"@,
    {
        IndexTtsAdapter::new(owned("http://127.0.0.1:23467/voice/indextts/presets"))
    }
}

/// The emotion label IndexTTS knows for a classifier label: `心动` becomes
/// `情动`, any other label is passed on trimmed.
pub open spec fn emo_label(emo: Seq<char>) -> Seq<char> {
    if trim(emo) == "心动"@ { "情动"@ } else { trim(emo) }
}

/// Normalises an emotion label for IndexTTS.
pub fn normalize_emo_label(emo: &str) -> (r: String)
    ensures
        r@ == emo_label(emo@),
{
    let t = trim_str(emo);
    if str_eq(t.as_str(), "心动") { owned("情动") } else { t }
}

// ---------- Fish S2 ----------

/// The Fish Audio S2 adapter.
pub struct FishS2Adapter {
    pub api_url: String,
    pub voice: String,
}

pub const MSG_FISH_NO_URL: &'static str = "Fish S2 API URL is not configured";
pub const MSG_FISH_NO_VOICE: &'static str = "Fish S2 voice is not configured";

/// The generate endpoint of a Fish S2 server.
pub open spec fn fish_endpoint(url: Seq<char>) -> Seq<char> {
    if ends_with(url, "/generate"@) { url } else { url + "/generate"@ }
}

impl FishS2Adapter {
    /// A Fish S2 adapter; fails without a URL or a voice.
    pub fn new(api_url: String, voice: String) -> (r: Result<Self, String>)
        ensures
            trim(api_url@).len() == 0 ==> r is Err && r->Err_0@ == MSG_FISH_NO_URL@,
            trim(api_url@).len() > 0 && trim(voice@).len() == 0 ==> r is Err && r->Err_0@ == MSG_FISH_NO_VOICE@,
            trim(api_url@).len() > 0 && trim(voice@).len() > 0 ==> r is Ok
                && r->Ok_0.api_url@ == strip_slashes(api_url@) && r->Ok_0.voice@ == trim(voice@),
    {
        if is_blank(api_url.as_str()) {
            return Err(owned(MSG_FISH_NO_URL));
        }
        if is_blank(voice.as_str()) {
            return Err(owned(MSG_FISH_NO_VOICE));
        }
        Ok(FishS2Adapter { api_url: trim_end_slashes(api_url.as_str()), voice: trim_str(voice.as_str()) })
    }

    /// The URL requests go to.
    pub fn endpoint(&self) -> (r: String)
        ensures
            r@ == fish_endpoint(self.api_url@),
    {
        if ends_with_str(self.api_url.as_str(), "/generate") {
            owned(self.api_url.as_str())
        } else {
            cat(self.api_url.as_str(), "/generate")
        }
    }
}

/// The emotion names (English, and Chinese) Fish S2 knows, with the tag each stands for.
pub open spec fn emotion_table() -> Seq<(Seq<char>, Seq<char>)> {
    seq![
        ("happy"@, "happy"@), ("happiness"@, "happy"@), ("joy"@, "happy"@), ("joyful"@, "happy"@),
        ("\u{9ad8}\u{5174}"@, "happy"@), ("\u{5f00}\u{5fc3}"@, "happy"@),
        ("excited"@, "excited"@), ("excitement"@, "excited"@), ("\u{5174}\u{594b}"@, "excited"@),
        ("sad"@, "sad"@), ("sadness"@, "sad"@), ("depressed"@, "sad"@), ("\u{60b2}\u{4f24}"@, "sad"@), ("\u{4f24}\u{5fc3}"@, "sad"@),
        ("angry"@, "angry"@), ("anger"@, "angry"@), ("\u{751f}\u{6c14}"@, "angry"@),
        ("fear"@, "fearful"@), ("fearful"@, "fearful"@), ("scared"@, "fearful"@), ("\u{5bb3}\u{6015}"@, "fearful"@),
        ("surprise"@, "surprised"@), ("surprised"@, "surprised"@), ("\u{60ca}\u{8bb6}"@, "surprised"@),
        ("disgust"@, "disgusted"@), ("disgusted"@, "disgusted"@), ("\u{538c}\u{6076}"@, "disgusted"@),
        ("whisper"@, "whisper"@), ("whispering"@, "whisper"@), ("\u{8033}\u{8bed}"@, "whisper"@), ("\u{4f4e}\u{8bed}"@, "whisper"@),
        ("cry"@, "crying"@), ("crying"@, "crying"@), ("sob"@, "crying"@), ("sobbing"@, "crying"@),
        ("\u{54ed}\u{6ce3}"@, "crying"@), ("\u{5927}\u{54ed}"@, "crying"@), ("\u{54ed}\u{8154}"@, "crying"@),
        ("nervous"@, "nervous"@), ("\u{614c}\u{5f20}"@, "nervous"@), ("\u{7d27}\u{5f20}"@, "nervous"@),
        ("worried"@, "worried"@), ("\u{62c5}\u{5fc3}"@, "worried"@),
        ("embarrassed"@, "embarrassed"@), ("\u{5c34}\u{5c2c}"@, "embarrassed"@), ("\u{96be}\u{4e3a}\u{60c5}"@, "embarrassed"@),
        ("\u{7f9e}\u{803b}"@, "embarrassed"@),
        ("confident"@, "confident"@), ("\u{81ea}\u{4fe1}"@, "confident"@),
        ("shy"@, "shy"@), ("\u{5bb3}\u{7f9e}"@, "shy"@),
        ("serious"@, "serious"@), ("\u{8ba4}\u{771f}"@, "serious"@), ("\u{6b63}\u{7ecf}"@, "serious"@),
        ("confused"@, "confused"@), ("\u{7591}\u{60d1}"@, "confused"@),
        ("affectionate"@, "affectionate"@), ("\u{60c5}\u{52a8}"@, "affectionate"@), ("\u{5fc3}\u{52a8}"@, "affectionate"@),
        ("playful"@, "playful"@), ("\u{8c03}\u{76ae}"@, "playful"@),
        ("calm"@, "calm"@), ("\u{5e73}\u{9759}"@, "calm"@),
        ("gentle"@, "gentle"@), ("\u{6e29}\u{67d4}"@, "gentle"@),
    ]
}

/// The tag of the first entry of `t` named `k`.
pub open spec fn table_get(t: Seq<(Seq<char>, Seq<char>)>, k: Seq<char>) -> Option<Seq<char>>
    decreases t.len(),
{
    if t.len() == 0 {
        None
    } else if t[0].0 == k {
        Some(t[0].1)
    } else {
        table_get(t.drop_first(), k)
    }
}

/// The Fish S2 tag of an emotion, after trimming and ASCII lower-casing.
pub open spec fn emotion_tag(emo: Seq<char>) -> Option<Seq<char>> {
    table_get(emotion_table(), ascii_lower_seq(trim(emo)))
}

fn emotion_table_exec() -> (r: Vec<(&'static str, &'static str)>)
    ensures
        r@.map_values(|p: (&'static str, &'static str)| (p.0@, p.1@)) == emotion_table(),
{
    let r = vec![
        ("happy", "happy"), ("happiness", "happy"), ("joy", "happy"), ("joyful", "happy"),
        ("\u{9ad8}\u{5174}", "happy"), ("\u{5f00}\u{5fc3}", "happy"),
        ("excited", "excited"), ("excitement", "excited"), ("\u{5174}\u{594b}", "excited"),
        ("sad", "sad"), ("sadness", "sad"), ("depressed", "sad"), ("\u{60b2}\u{4f24}", "sad"), ("\u{4f24}\u{5fc3}", "sad"),
        ("angry", "angry"), ("anger", "angry"), ("\u{751f}\u{6c14}", "angry"),
        ("fear", "fearful"), ("fearful", "fearful"), ("scared", "fearful"), ("\u{5bb3}\u{6015}", "fearful"),
        ("surprise", "surprised"), ("surprised", "surprised"), ("\u{60ca}\u{8bb6}", "surprised"),
        ("disgust", "disgusted"), ("disgusted", "disgusted"), ("\u{538c}\u{6076}", "disgusted"),
        ("whisper", "whisper"), ("whispering", "whisper"), ("\u{8033}\u{8bed}", "whisper"), ("\u{4f4e}\u{8bed}", "whisper"),
        ("cry", "crying"), ("crying", "crying"), ("sob", "crying"), ("sobbing", "crying"),
        ("\u{54ed}\u{6ce3}", "crying"), ("\u{5927}\u{54ed}", "crying"), ("\u{54ed}\u{8154}", "crying"),
        ("nervous", "nervous"), ("\u{614c}\u{5f20}", "nervous"), ("\u{7d27}\u{5f20}", "nervous"),
        ("worried", "worried"), ("\u{62c5}\u{5fc3}", "worried"),
        ("embarrassed", "embarrassed"), ("\u{5c34}\u{5c2c}", "embarrassed"), ("\u{96be}\u{4e3a}\u{60c5}", "embarrassed"),
        ("\u{7f9e}\u{803b}", "embarrassed"),
        ("confident", "confident"), ("\u{81ea}\u{4fe1}", "confident"),
        ("shy", "shy"), ("\u{5bb3}\u{7f9e}", "shy"),
        ("serious", "serious"), ("\u{8ba4}\u{771f}", "serious"), ("\u{6b63}\u{7ecf}", "serious"),
        ("confused", "confused"), ("\u{7591}\u{60d1}", "confused"),
        ("affectionate", "affectionate"), ("\u{60c5}\u{52a8}", "affectionate"), ("\u{5fc3}\u{52a8}", "affectionate"),
        ("playful", "playful"), ("\u{8c03}\u{76ae}", "playful"),
        ("calm", "calm"), ("\u{5e73}\u{9759}", "calm"),
        ("gentle", "gentle"), ("\u{6e29}\u{67d4}", "gentle"),
    ];
    assert(r@.map_values(|p: (&'static str, &'static str)| (p.0@, p.1@)) =~= emotion_table());
    r
}

/// The Fish S2 tag of an emotion name, if it knows the emotion.
pub fn normalize_emotion(emo: &str) -> (r: Option<&'static str>)
    ensures
        match r {
            Some(t) => emotion_tag(emo@) == Some(t@),
            None => emotion_tag(emo@) is None,
        },
{
    let t = trim_str(emo);
    let key = to_ascii_lowercase(t.as_str());
    let table = emotion_table_exec();
    let ghost tv = table@.map_values(|p: (&'static str, &'static str)| (p.0@, p.1@));
    let mut i: usize = 0;
    proof {
        assert(tv.subrange(0, tv.len() as int) =~= tv);
    }
    while i < table.len()
        invariant
            i <= table@.len(),
            tv == table@.map_values(|p: (&'static str, &'static str)| (p.0@, p.1@)),
            tv == emotion_table(),
            key@ == ascii_lower_seq(trim(emo@)),
            table_get(tv, key@) == table_get(tv.subrange(i as int, tv.len() as int), key@),
        decreases table@.len() - i,
    {
        let ghost rest = tv.subrange(i as int, tv.len() as int);
        proof {
            assert(rest[0] == tv[i as int]);
            assert(rest.drop_first() =~= tv.subrange(i + 1, tv.len() as int));
        }
        if str_eq(table[i].0, key.as_str()) {
            return Some(table[i].1);
        }
        i = i + 1;
    }
    proof {
        assert(tv.subrange(i as int, tv.len() as int) =~= Seq::<(Seq<char>, Seq<char>)>::empty());
    }
    None
}

/// The text sent to Fish S2: trimmed, and led by the emotion tag in brackets
/// when the emotion is known and the text does not start with `[` already.
pub open spec fn emotion_text(text: Seq<char>, emo: Seq<char>) -> Seq<char> {
    let t = trim(text);
    match emotion_tag(emo) {
        Some(tag) => if !starts_with(t, "["@) { "["@ + tag + "]"@ + t } else { t },
        None => t,
    }
}

/// Puts the emotion tag in front of the text.
pub fn text_with_emotion(text: &str, emo: &str) -> (r: String)
    ensures
        r@ == emotion_text(text@, emo@),
{
    let t = trim_str(text);
    match normalize_emotion(emo) {
        Some(tag) => {
            if !starts_with_str(t.as_str(), "[") {
                let mut r = cat3("[", tag, "]");
                r.append(t.as_str());
                r
            } else {
                t
            }
        },
        None => t,
    }
}

} // verus!
