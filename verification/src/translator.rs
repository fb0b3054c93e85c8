//! The translator of a character's lines: its prompt, the text it sends,
//! and how it reads the translation back.
use vstd::prelude::*;
use crate::text::{owned, cat3, chars_of, string_of_range, str_eq};

verus! {

/// The translator: whether live translation is on, and the model slot it uses.
pub struct Translator<S> {
    /// Live translation; scripts are translated even when it is off.
    pub enable: bool,
    pub client: S,
}

impl<S> Translator<S> {
    /// A translator over a model slot.
    pub fn new(client: S, enable: bool) -> (r: Self)
        ensures
            r.enable == enable,
            r.client == client,
    {
        Translator { enable, client }
    }

    /// The model slot (it can be switched at run time).
    pub fn slot(&self) -> (r: &S)
        ensures
            *r == self.client,
    {
        &self.client
    }
}

pub const PROMPT_HEAD: &'static str = "你是一个二次元角色中文台词翻译师。请将每个中文台词片段翻译成";
pub const PROMPT_MID: &'static str = "，允许意译，保持角色语气自然生动。";
pub const PROMPT_TAIL: &'static str = "\n只返回翻译结果，不要解释；输出片段数量必须与输入一致，并且每个片段都必须分别包裹在 < 和 > 中。";

/// The language name and the extra instruction for a target language.
pub open spec fn language_of(lang: Seq<char>) -> Option<(Seq<char>, Seq<char>)> {
    if lang == "ja"@ {
        Some(("日语"@, "使用自然、口语化且符合二次元角色语气的日语表达。"@))
    } else if lang == "en"@ {
        Some(("英语"@, "使用自然、口语化的英语表达。"@))
    } else if lang == "ko"@ {
        Some(("韩语"@, "使用自然、口语化且符合角色语气的韩语表达。"@))
    } else {
        None
    }
}

/// The system prompt for translating into `lang` (Japanese, English or Korean).
pub open spec fn system_prompt(lang: Seq<char>) -> Option<Seq<char>> {
    match language_of(lang) {
        Some((name, extra)) => Some(PROMPT_HEAD@ + name + PROMPT_MID@ + extra + PROMPT_TAIL@),
        None => None,
    }
}

/// The system prompt for a target language; none for a language it does not translate into.
pub fn translator_system_prompt(target_lang: &str) -> (r: Option<String>)
    ensures
        match r {
            Some(p) => system_prompt(target_lang@) == Some(p@),
            None => system_prompt(target_lang@) is None,
        },
{
    let (name, extra) = if str_eq(target_lang, "ja") {
        ("日语", "使用自然、口语化且符合二次元角色语气的日语表达。")
    } else if str_eq(target_lang, "en") {
        ("英语", "使用自然、口语化的英语表达。")
    } else if str_eq(target_lang, "ko") {
        ("韩语", "使用自然、口语化且符合角色语气的韩语表达。")
    } else {
        return None;
    };
    let mut p = cat3(PROMPT_HEAD, name, PROMPT_MID);
    p.append(extra);
    p.append(PROMPT_TAIL);
    Some(p)
}

/// What the translator reads and writes of an emotion segment.
pub struct EmotionSegment {
    /// The Chinese text.
    pub following_text: String,
    /// The translation.
    pub japanese_text: String,
}

/// Every segment's Chinese text in angle brackets, in order.
pub open spec fn bracketed(segs: Seq<EmotionSegment>) -> Seq<char>
    decreases segs.len(),
{
    if segs.len() == 0 { Seq::empty() } else { bracketed(segs.drop_last()) + "<"@ + segs.last().following_text@ + ">"@ }
}

/// The text sent for translation.
pub fn collect_chinese_part(segments: &Vec<EmotionSegment>) -> (r: String)
    ensures
        r@ == bracketed(segments@),
{
    let mut out = String::new();
    let mut i: usize = 0;
    proof {
        assert(segments@.subrange(0, 0) =~= Seq::<EmotionSegment>::empty());
    }
    while i < segments.len()
        invariant
            i <= segments@.len(),
            out@ == bracketed(segments@.subrange(0, i as int)),
        decreases segments@.len() - i,
    {
        let piece = cat3("<", segments[i].following_text.as_str(), ">");
        out.append(piece.as_str());
        proof {
            assert(segments@.subrange(0, i + 1).drop_last() =~= segments@.subrange(0, i as int));
            assert(out@ =~= bracketed(segments@.subrange(0, i + 1)));
        }
        i = i + 1;
    }
    proof {
        assert(segments@.subrange(0, segments@.len() as int) =~= segments@);
    }
    out
}

/// The first index of `c` in `s`.
pub open spec fn first_of(s: Seq<char>, c: char) -> Option<int>
    decreases s.len(),
{
    if s.len() == 0 {
        None
    } else if s[0] == c {
        Some(0)
    } else {
        match first_of(s.drop_first(), c) {
            Some(k) => Some(k + 1),
            None => None,
        }
    }
}

/// `first_of` gives the first index of the character, or none when it is absent.
pub proof fn lemma_first_of(s: Seq<char>, c: char)
    ensures
        match first_of(s, c) {
            Some(k) => 0 <= k < s.len() && s[k] == c && forall|j: int| 0 <= j < k ==> s[j] != c,
            None => forall|j: int| 0 <= j < s.len() ==> s[j] != c,
        },
    decreases s.len(),
{
    if s.len() > 0 && s[0] != c {
        lemma_first_of(s.drop_first(), c);
        match first_of(s.drop_first(), c) {
            Some(k) => {
                assert forall|j: int| 0 <= j < k + 1 implies s[j] != c by {
                    if j > 0 {
                        assert(s[j] == s.drop_first()[j - 1]);
                    }
                }
            },
            None => {
                assert forall|j: int| 0 <= j < s.len() implies s[j] != c by {
                    if j > 0 {
                        assert(s[j] == s.drop_first()[j - 1]);
                    }
                }
            },
        }
    }
}

/// The texts between `<` and the next `>`, in order, up to the first `<` without a `>` after it.
pub open spec fn bracket_pieces(s: Seq<char>) -> Seq<Seq<char>>
    decreases s.len(),
{
    match first_of(s, '<') {
        None => Seq::empty(),
        Some(a) => {
            proof {
                lemma_first_of(s, '<');
            }
            let after = s.subrange(a + 1, s.len() as int);
            match first_of(after, '>') {
                None => Seq::empty(),
                Some(b) => {
                    proof {
                        lemma_first_of(after, '>');
                    }
                    seq![after.subrange(0, b)] + bracket_pieces(after.subrange(b + 1, after.len() as int))
                },
            }
        },
    }
}

fn next_index(v: &Vec<char>, from: usize, c: char) -> (r: Option<usize>)
    requires
        from <= v@.len(),
    ensures
        match first_of(v@.subrange(from as int, v@.len() as int), c) {
            Some(k) => r == Some((from + k) as usize),
            None => r is None,
        },
{
    let ghost s = v@.subrange(from as int, v@.len() as int);
    proof {
        lemma_first_of(s, c);
    }
    let mut i = from;
    while i < v.len()
        invariant
            from <= i <= v@.len(),
            s == v@.subrange(from as int, v@.len() as int),
            forall|j: int| from <= j < i ==> v@[j] != c,
        decreases v@.len() - i,
    {
        if v[i] == c {
            proof {
                lemma_first_of(s, c);
                match first_of(s, c) {
                    Some(k) => {
                        assert(s[i - from] == c);
                        if k < i - from {
                            assert(v@[from + k] == c);
                        }
                    },
                    None => {
                        assert(s[i - from] == c);
                    },
                }
            }
            return Some(i);
        }
        i = i + 1;
    }
    proof {
        lemma_first_of(s, c);
        match first_of(s, c) {
            Some(k) => {
                assert(v@[from + k] == c);
            },
            None => {},
        }
    }
    None
}

/// Writes the translated pieces of `response` into the segments, in order;
/// returns how many segments got one.
pub fn apply_translation_result(response: &str, segments: &mut Vec<EmotionSegment>) -> (r: usize)
    ensures
        final(segments)@.len() == old(segments)@.len(),
        r as int == if bracket_pieces(response@).len() < old(segments)@.len() { bracket_pieces(response@).len() as int } else { old(segments)@.len() as int },
        forall|k: int| 0 <= k < r ==> (#[trigger] final(segments)@[k]).japanese_text@ == bracket_pieces(response@)[k]
            && final(segments)@[k].following_text == old(segments)@[k].following_text,
        forall|k: int| r <= k < old(segments)@.len() ==> #[trigger] final(segments)@[k] == old(segments)@[k],
{
    let v = chars_of(response);
    let vlen = v.len();
    let ghost all = bracket_pieces(response@);
    let mut cursor: usize = 0;
    let mut idx: usize = 0;
    proof {
        assert(v@.subrange(0, v@.len() as int) =~= v@);
    }
    loop
        invariant
            cursor <= v@.len(),
            vlen == v@.len(),
            idx <= segments@.len(),
            segments@.len() == old(segments)@.len(),
            v@ == response@,
            all == bracket_pieces(response@),
            idx <= all.len(),
            all == all.subrange(0, idx as int) + bracket_pieces(v@.subrange(cursor as int, v@.len() as int)),
            forall|k: int| 0 <= k < idx ==> (#[trigger] segments@[k]).japanese_text@ == all[k]
                && segments@[k].following_text == old(segments)@[k].following_text,
            forall|k: int| idx <= k < segments@.len() ==> #[trigger] segments@[k] == old(segments)@[k],
        ensures
            idx as int == if all.len() < segments@.len() { all.len() as int } else { segments@.len() as int },
            segments@.len() == old(segments)@.len(),
            forall|k: int| 0 <= k < idx ==> (#[trigger] segments@[k]).japanese_text@ == all[k]
                && segments@[k].following_text == old(segments)@[k].following_text,
            forall|k: int| idx <= k < segments@.len() ==> #[trigger] segments@[k] == old(segments)@[k],
        decreases v@.len() - cursor,
    {
        let ghost rest = v@.subrange(cursor as int, v@.len() as int);
        let start = match next_index(&v, cursor, '<') {
            Some(s) => s,
            None => {
                proof {
                    assert(bracket_pieces(rest) =~= Seq::<Seq<char>>::empty());
                    assert(all =~= all.subrange(0, idx as int));
                }
                break;
            },
        };
        proof {
            lemma_first_of(rest, '<');
        }
        let ghost after = rest.subrange(start - cursor + 1, rest.len() as int);
        proof {
            assert(after =~= v@.subrange(start + 1, v@.len() as int));
        }
        let end = match next_index(&v, start + 1, '>') {
            Some(e) => e,
            None => {
                proof {
                    assert(bracket_pieces(rest) =~= Seq::<Seq<char>>::empty());
                    assert(all =~= all.subrange(0, idx as int));
                }
                break;
            },
        };
        proof {
            lemma_first_of(after, '>');
        }
        let ghost piece = after.subrange(0, end - start - 1);
        proof {
            assert(bracket_pieces(rest) == seq![piece] + bracket_pieces(after.subrange(end - start, after.len() as int)));
            assert(after.subrange(end - start, after.len() as int) =~= v@.subrange(end + 1, v@.len() as int));
            assert(piece =~= v@.subrange(start + 1, end as int));
            assert(all[idx as int] == piece);
        }
        if idx >= segments.len() {
            break;
        }
        let jp = string_of_range(&v, start + 1, end);
        let mut seg = segments.remove(idx);
        seg.japanese_text = jp;
        segments.insert(idx, seg);
        proof {
            assert(all.subrange(0, idx + 1) =~= all.subrange(0, idx as int).push(piece));
            assert(all =~= all.subrange(0, idx + 1) + bracket_pieces(v@.subrange(end + 1, v@.len() as int)));
        }
        idx = idx + 1;
        cursor = end + 1;
    }
    idx
}

/// What to ask the model: nothing when translation is off (and this is not
/// a script), the language is not supported, or there is no text; otherwise
/// the system prompt and the bracketed text.
pub open spec fn translation_request(enable: bool, script: bool, lang: Seq<char>, segs: Seq<EmotionSegment>) -> Option<(Seq<char>, Seq<char>)> {
    if !enable && !script {
        None
    } else if system_prompt(lang) is None {
        None
    } else if bracketed(segs).len() == 0 {
        None
    } else {
        Some((system_prompt(lang)->0, bracketed(segs)))
    }
}

impl<S> Translator<S> {
    /// The system prompt and user text of a translation request, if one is
    /// to be made (the caller still needs a configured model slot).
    pub fn request(&self, segments: &Vec<EmotionSegment>, script: bool, target_lang: &str) -> (r: Option<(String, String)>)
        ensures
            match r {
                Some((p, t)) => translation_request(self.enable, script, target_lang@, segments@) == Some((p@, t@)),
                None => translation_request(self.enable, script, target_lang@, segments@) is None,
            },
    {
        if !self.enable && !script {
            return None;
        }
        let prompt = match translator_system_prompt(target_lang) {
            Some(p) => p,
            None => { return None; },
        };
        let text = collect_chinese_part(segments);
        if crate::validate::is_empty_str(text.as_str()) {
            return None;
        }
        Some((prompt, text))
    }
}

} // verus!
