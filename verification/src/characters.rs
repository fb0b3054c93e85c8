//! Characters: the legacy voice fields dropped from a character's settings,
//! the page of the character list, and the outfits a character offers.
use vstd::prelude::*;
use crate::json::JsonValue;
use crate::strmap::StrMap;
use crate::editor::texts;
use crate::text::owned;

verus! {

// ---------- legacy settings ----------

/// The per-character voice fields of older versions; voices are now chosen
/// per TTS engine, and these keys are dropped when settings are saved.
pub open spec fn legacy_voice_fields() -> Seq<Seq<char>> {
    seq![
        "sva_speaker_id"@, "sbv2_name"@, "sbv2_speaker_id"@, "bv2_speaker_id"@, "sbv2api_name"@,
        "sbv2api_speaker_id"@, "gsv_voice_text"@, "gsv_voice_filename"@, "gsv_gpt_model_name"@,
        "gsv_sovits_model_name"@, "aivis_model_uuid"@, "opentts_voice"@, "fish_s2_voice"@,
    ]
}

/// The legacy voice fields.
pub fn legacy_voice_model_fields() -> (r: Vec<&'static str>)
    ensures
        texts(r@) == legacy_voice_fields(),
{
    let r: Vec<&'static str> = vec![
        "sva_speaker_id", "sbv2_name", "sbv2_speaker_id", "bv2_speaker_id", "sbv2api_name",
        "sbv2api_speaker_id", "gsv_voice_text", "gsv_voice_filename", "gsv_gpt_model_name",
        "gsv_sovits_model_name", "aivis_model_uuid", "opentts_voice", "fish_s2_voice",
    ];
    assert(texts(r@) =~= legacy_voice_fields());
    r
}

/// Drops the legacy voice fields from the extra settings of a character;
/// every other entry stays as it was.
pub fn remove_legacy_voice_model_fields(extra: &mut StrMap<JsonValue>)
    requires
        old(extra).wf(),
    ensures
        final(extra).wf(),
        final(extra).map() == old(extra).map().remove_keys(legacy_voice_fields().to_set()),
{
    let fields = legacy_voice_model_fields();
    let mut i: usize = 0;
    while i < fields.len()
        invariant
            i <= fields@.len(),
            texts(fields@) == legacy_voice_fields(),
            extra.wf(),
            extra.map() == old(extra).map().remove_keys(legacy_voice_fields().subrange(0, i as int).to_set()),
        decreases fields@.len() - i,
    {
        let ghost before = extra.map();
        extra.remove(fields[i]);
        proof {
            let done = legacy_voice_fields().subrange(0, i as int);
            let next = legacy_voice_fields().subrange(0, i + 1);
            assert(next =~= done.push(fields@[i as int]@));
            done.lemma_push_to_set_commute(fields@[i as int]@);
            assert(extra.map() =~= old(extra).map().remove_keys(next.to_set()));
        }
        i = i + 1;
    }
    assert(legacy_voice_fields().subrange(0, fields@.len() as int) =~= legacy_voice_fields());
}

// ---------- the character list ----------

/// One outfit of a character: its title and the image shown for it.
#[derive(Debug, Clone)]
pub struct ClothesItem {
    pub title: String,
    /// Absolute path of the image; empty when there is none.
    pub avatar: String,
}

/// One character of the character list.
#[derive(Debug, Clone)]
pub struct CharacterListItem {
    pub character_id: i32,
    pub title: String,
    pub name: String,
    pub sub_name: String,
    pub info: String,
    pub avatar_path: String,
    pub clothes: Vec<ClothesItem>,
    pub adventure_count: i32,
    pub total_adventures: i32,
    pub resource_folder: String,
}

/// One page of the character list.
#[derive(Debug, Clone)]
pub struct CharacterPageResult {
    pub items: Vec<CharacterListItem>,
    pub total: i64,
    pub page: i32,
    pub page_size: i32,
    pub total_pages: i32,
}

/// `page_size as usize`: a negative size wraps around.
pub open spec fn size_as_usize(page_size: i32) -> int {
    if page_size >= 0 { page_size as int } else { page_size + usize::MAX + 1 }
}

/// The first index of a page, before it is clamped to the list:
/// `((page - 1) * page_size).max(0)`.
pub open spec fn page_start(page: i32, page_size: i32) -> int {
    let s = (page - 1) * page_size;
    if s < 0 { 0 } else { s }
}

/// The bounds `[start, end)` of a page of a list of `len` items: the start
/// clamped to the list, the end `page_size` items further, clamped too.
pub open spec fn page_bounds(len: usize, page: i32, page_size: i32) -> (int, int) {
    let start = if page_start(page, page_size) < len { page_start(page, page_size) } else { len as int };
    let end = if start + size_as_usize(page_size) < len { start + size_as_usize(page_size) } else { len as int };
    (start, end)
}

/// The slice of a list of `len` items that a page shows. The page arithmetic
/// must not overflow: `(page - 1) * page_size` in `i32`, the end in `usize`.
pub fn page_range(len: usize, page: i32, page_size: i32) -> (r: (usize, usize))
    requires
        page > i32::MIN,
        i32::MIN <= (page - 1) * page_size <= i32::MAX,
        page_bounds(len, page, page_size).0 + size_as_usize(page_size) <= usize::MAX,
    ensures
        r.0 <= r.1 <= len,
        r.0 as int == page_bounds(len, page, page_size).0,
        r.1 as int == page_bounds(len, page, page_size).1,
{
    let raw: i32 = (page - 1) * page_size;
    let s: usize = if raw < 0 { 0 } else { raw as usize };
    let start: usize = if s < len { s } else { len };
    let size: usize = if page_size >= 0 {
        page_size as usize
    } else {
        let back: i32 = -(page_size + 1);
        usize::MAX - (back as usize)
    };
    assert(size as int == size_as_usize(page_size));
    let sum: usize = start + size;
    let end: usize = if sum < len { sum } else { len };
    (start, end)
}

/// The outfits of a character: with no avatar folder, a single default with
/// no image; otherwise the default outfit (when the folder has a `正常`
/// image) followed by one outfit per sub-folder, and when that leaves none,
/// a default showing the fallback avatar (empty when there is none).
pub open spec fn clothes_titles(dir_exists: bool, root: Option<Seq<char>>, subdirs: Seq<(Seq<char>, Seq<char>)>,
    fallback: Option<Seq<char>>) -> Seq<(Seq<char>, Seq<char>)> {
    if !dir_exists {
        seq![("默认"@, Seq::empty())]
    } else {
        let listed = (match root {
            Some(r) => seq![("默认"@, r)],
            None => Seq::empty(),
        }) + subdirs;
        if listed.len() == 0 {
            seq![("默认"@, match fallback { Some(f) => f, None => Seq::empty() })]
        } else {
            listed
        }
    }
}

/// The view of an outfit list.
pub open spec fn clothes_views(v: Seq<ClothesItem>) -> Seq<(Seq<char>, Seq<char>)> {
    v.map_values(|c: ClothesItem| (c.title@, c.avatar@))
}

/// The outfits of a character, from what its avatar folder holds: whether it
/// exists, the `正常` image at its top, each sub-folder with its `正常` image
/// (empty when it has none), and the fallback avatar image.
pub fn clothes_list(dir_exists: bool, root: Option<String>, subdirs: Vec<ClothesItem>, fallback: Option<String>) -> (r: Vec<ClothesItem>)
    ensures
        clothes_views(r@) == clothes_titles(dir_exists, crate::diag::opt_view(root),
            clothes_views(subdirs@), crate::diag::opt_view(fallback)),
{
    proof {
        reveal_strlit("");
        assert(""@ =~= Seq::<char>::empty());
    }
    if !dir_exists {
        let r = vec![ClothesItem { title: owned("默认"), avatar: owned("") }];
        assert(clothes_views(r@) =~= seq![("默认"@, Seq::<char>::empty())]);
        return r;
    }
    let mut out: Vec<ClothesItem> = Vec::new();
    let ghost head: Seq<(Seq<char>, Seq<char>)> = match crate::diag::opt_view(root) {
        Some(r) => seq![("默认"@, r)],
        None => Seq::empty(),
    };
    match root {
        Some(a) => {
            out.push(ClothesItem { title: owned("默认"), avatar: a });
        },
        None => {},
    }
    assert(clothes_views(out@) =~= head);
    let mut subdirs = subdirs;
    let ghost subs = clothes_views(subdirs@);
    let mut taken: usize = 0;
    let n0 = subdirs.len();
    assert(subs.len() == n0);
    while subdirs.len() > 0
        invariant
            subs.len() == n0,
            taken <= subs.len(),
            clothes_views(out@) == head + subs.subrange(0, taken as int),
            clothes_views(subdirs@) == subs.subrange(taken as int, subs.len() as int),
        decreases subdirs@.len(),
    {
        let ghost s0 = subdirs@;
        assert(clothes_views(s0).len() == s0.len());
        assert(taken < subs.len());
        let c = subdirs.remove(0);
        proof {
            assert(clothes_views(s0)[0] == (c.title@, c.avatar@));
            assert(subs.subrange(taken as int, subs.len() as int)[0] == (c.title@, c.avatar@));
        }
        let ghost o0 = out@;
        out.push(c);
        proof {
            assert(clothes_views(out@) =~= clothes_views(o0).push((c.title@, c.avatar@)));
            assert(subs.subrange(0, taken + 1) =~= subs.subrange(0, taken as int).push(subs[taken as int]));
            assert(clothes_views(subdirs@) =~= clothes_views(s0).drop_first());
            assert(subs.subrange(taken + 1, subs.len() as int) =~= subs.subrange(taken as int, subs.len() as int).drop_first());
        }
        taken = taken + 1;
    }
    proof {
        assert(subs.subrange(taken as int, subs.len() as int).len() == 0);
        assert(subs.subrange(0, taken as int) =~= subs);
    }
    if out.len() == 0 {
        let avatar = match fallback {
            Some(f) => f,
            None => owned(""),
        };
        let r = vec![ClothesItem { title: owned("默认"), avatar }];
        assert(""@ =~= Seq::<char>::empty());
        assert(clothes_views(r@) =~= seq![("默认"@, match crate::diag::opt_view(fallback) { Some(f) => f, None => Seq::<char>::empty() })]);
        return r;
    }
    out
}

} // verus!
