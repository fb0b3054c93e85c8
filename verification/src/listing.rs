//! Folder listings shown by the front end: backgrounds, ambient sounds,
//! fonts, script assets and the global characters, each filtered and
//! ordered from the entries the caller read.
use vstd::prelude::*;
use crate::diag::opt_view;
use crate::strset::{lex_lt, lex_lt_exec, lemma_lex_irrefl, lemma_lex_trans, lemma_lex_total, lemma_lex_asym};
use crate::editor::{lower_ext, lower_ext_of, contains_text, texts, stem_text, allowed_exts, allowed_extensions, AssetScope};
use crate::fonts::ImportedFontInfo;
use crate::json::JsonValue;
use crate::strset::StrSet;
use crate::editor::{character_display_name, display_name_of};
use crate::scene::{file_stem_of, file_name_of, path_file_stem, path_file_name};
use crate::text::{owned, str_eq, starts_with, starts_with_str, eq_ignore_ascii_case, eq_ignore_ascii_case_exec};
use crate::tts_local::{to_lowercase, unicode_lower};
use crate::text::{join, join_strings, views};

verus! {

// ---------- a stable order ----------

/// `order` lists the positions of `keys` once each, by key (as `String`s
/// compare), equal keys in their original order: what a stable sort by
/// the key produces.
pub open spec fn stably_ordered(keys: Seq<Seq<char>>, order: Seq<usize>) -> bool {
    &&& order.len() == keys.len()
    &&& order.no_duplicates()
    &&& forall|a: int| 0 <= a < order.len() ==> (#[trigger] order[a]) < keys.len()
    &&& forall|a: int, b: int| 0 <= a < b < order.len()
            ==> !lex_lt(keys[order[b] as int], keys[#[trigger] order[a] as int]) && #[trigger] order[b] < keys.len()
    &&& forall|a: int, b: int| 0 <= a < b < order.len() && keys[#[trigger] order[a] as int] == keys[#[trigger] order[b] as int]
            ==> order[a] < order[b]
}

/// The positions of `keys` in the order of a stable sort by key.
pub fn stable_order(keys: &Vec<String>) -> (r: Vec<usize>)
    ensures
        stably_ordered(crate::strset::item_views(keys@), r@),
{
    let ghost ks = crate::strset::item_views(keys@);
    let mut order: Vec<usize> = Vec::new();
    let mut i: usize = 0;
    while i < keys.len()
        invariant
            i <= keys@.len(),
            ks == crate::strset::item_views(keys@),
            ks.len() == keys@.len(),
            order@.len() == i,
            order@.no_duplicates(),
            forall|a: int| 0 <= a < order@.len() ==> (#[trigger] order@[a]) < i,
            forall|a: int, b: int| 0 <= a < b < order@.len()
                ==> !lex_lt(ks[order@[b] as int], ks[#[trigger] order@[a] as int]) && #[trigger] order@[b] < i,
            forall|a: int, b: int| 0 <= a < b < order@.len() && ks[#[trigger] order@[a] as int] == ks[#[trigger] order@[b] as int]
                ==> order@[a] < order@[b],
        decreases keys@.len() - i,
    {
        let key = keys[i].as_str();
        let mut p: usize = 0;
        while p < order.len() && !lex_lt_exec(key, keys[order[p]].as_str())
            invariant
                p <= order@.len(),
                i < keys@.len(),
                key@ == ks[i as int],
                ks == crate::strset::item_views(keys@),
                ks.len() == keys@.len(),
                forall|a: int| 0 <= a < order@.len() ==> (#[trigger] order@[a]) < i,
                forall|q: int| 0 <= q < p ==> !lex_lt(ks[i as int], ks[#[trigger] order@[q] as int]),
            decreases order@.len() - p,
        {
            p = p + 1;
        }
        let ghost old_order = order@;
        proof {
            if p < old_order.len() {
                assert(lex_lt(ks[i as int], ks[old_order[p as int] as int]));
            }
            assert forall|q: int| p <= q < old_order.len() implies lex_lt(ks[i as int], #[trigger] ks[old_order[q] as int]) by {
                if q > p {
                    let kp = ks[old_order[p as int] as int];
                    let kq = ks[old_order[q] as int];
                    assert(!lex_lt(kq, kp));
                    lemma_lex_total(kp, kq);
                    if kp != kq {
                        lemma_lex_trans(ks[i as int], kp, kq);
                    }
                }
            }
        }
        order.insert(p, i);
        proof {
            let n = order@;
            assert(n == old_order.insert(p as int, i));
            assert forall|a: int| 0 <= a < n.len() implies (#[trigger] n[a]) < i + 1 by {
                if a < p { assert(n[a] == old_order[a]); } else if a > p { assert(n[a] == old_order[a - 1]); }
            }
            assert forall|a: int, b: int| 0 <= a < b < n.len()
                implies !lex_lt(ks[n[b] as int], ks[#[trigger] n[a] as int]) && #[trigger] n[b] < i + 1 by {
                if b < p {
                    assert(n[a] == old_order[a] && n[b] == old_order[b]);
                } else if b == p {
                    assert(n[a] == old_order[a]);
                } else if a == p {
                    assert(n[b] == old_order[b - 1]);
                    lemma_lex_asym(ks[i as int], ks[old_order[b - 1] as int]);
                } else if a < p {
                    assert(n[a] == old_order[a] && n[b] == old_order[b - 1]);
                } else {
                    assert(n[a] == old_order[a - 1] && n[b] == old_order[b - 1]);
                }
            }
            assert forall|a: int, b: int| 0 <= a < b < n.len() && ks[#[trigger] n[a] as int] == ks[#[trigger] n[b] as int]
                implies n[a] < n[b] by {
                if b < p {
                    assert(n[a] == old_order[a] && n[b] == old_order[b]);
                } else if b == p {
                    assert(n[a] == old_order[a]);
                } else if a == p {
                    assert(n[b] == old_order[b - 1]);
                    lemma_lex_irrefl(ks[i as int]);
                } else if a < p {
                    assert(n[a] == old_order[a] && n[b] == old_order[b - 1]);
                } else {
                    assert(n[a] == old_order[a - 1] && n[b] == old_order[b - 1]);
                }
            }
            assert forall|a: int, b: int| 0 <= a < n.len() && 0 <= b < n.len() && a != b implies n[a] != n[b] by {
                let oa = if a < p { a } else if a == p { -1 } else { a - 1 };
                let ob = if b < p { b } else if b == p { -1 } else { b - 1 };
                if oa >= 0 { assert(n[a] == old_order[oa]); }
                if ob >= 0 { assert(n[b] == old_order[ob]); }
            }
        }
        i = i + 1;
    }
    order
}

// ---------- picking entries ----------

/// The positions whose flag is set, in order.
pub open spec fn kept(flags: Seq<bool>) -> Seq<int>
    decreases flags.len(),
{
    if flags.len() == 0 {
        Seq::empty()
    } else if flags.last() {
        kept(flags.drop_last()).push(flags.len() - 1)
    } else {
        kept(flags.drop_last())
    }
}

proof fn lemma_kept_bounds(flags: Seq<bool>)
    ensures
        forall|k: int| 0 <= k < kept(flags).len() ==> 0 <= #[trigger] kept(flags)[k] < flags.len() && flags[kept(flags)[k]],
        forall|a: int, b: int| 0 <= a < b < kept(flags).len() ==> #[trigger] kept(flags)[a] < #[trigger] kept(flags)[b],
    decreases flags.len(),
{
    if flags.len() > 0 {
        let d = flags.drop_last();
        lemma_kept_bounds(d);
        let kd = kept(d);
        assert forall|k: int| 0 <= k < kept(flags).len() implies 0 <= #[trigger] kept(flags)[k] < flags.len() && flags[kept(flags)[k]] by {
            if k < kd.len() {
                assert(kept(flags)[k] == kd[k]);
                assert(flags[kd[k]] == d[kd[k]]);
            }
        }
        assert forall|a: int, b: int| 0 <= a < b < kept(flags).len() implies #[trigger] kept(flags)[a] < #[trigger] kept(flags)[b] by {
            assert(kept(flags)[a] == kd[a]);
            if b < kd.len() {
                assert(kept(flags)[b] == kd[b]);
            }
        }
    }
}

/// `out` is `items` rearranged as a stable sort by `keys` rearranges them.
pub open spec fn arranged<T>(out: Seq<T>, items: Seq<T>, keys: Seq<Seq<char>>) -> bool {
    &&& items.len() == keys.len()
    &&& exists|order: Seq<usize>| stably_ordered(keys, order) && out.len() == items.len()
            && forall|k: int| 0 <= k < out.len() ==> out[k] == items[#[trigger] order[k] as int]
}

/// The positions of the set flags.
fn kept_positions(flags: &Vec<bool>) -> (r: Vec<usize>)
    ensures
        r@.len() == kept(flags@).len(),
        forall|k: int| 0 <= k < r@.len() ==> r@[k] as int == #[trigger] kept(flags@)[k],
{
    let mut r: Vec<usize> = Vec::new();
    let mut i: usize = 0;
    while i < flags.len()
        invariant
            i <= flags@.len(),
            r@.len() == kept(flags@.subrange(0, i as int)).len(),
            forall|k: int| 0 <= k < r@.len() ==> r@[k] as int == #[trigger] kept(flags@.subrange(0, i as int))[k],
        decreases flags@.len() - i,
    {
        assert(flags@.subrange(0, i + 1).drop_last() =~= flags@.subrange(0, i as int));
        if flags[i] {
            r.push(i);
        }
        i = i + 1;
    }
    assert(flags@.subrange(0, flags@.len() as int) =~= flags@);
    r
}

// ---------- backgrounds and ambient sounds ----------

/// A background image: its title (the file's stem), its path, and when it
/// was last changed (seconds since the epoch, as text).
#[derive(Debug, Clone)]
pub struct BackgroundItemInfo {
    pub title: String,
    pub url: String,
    pub time: String,
}

/// An ambient sound: its name (the file's stem), its path, and when it was
/// last changed.
#[derive(Debug, Clone)]
pub struct AmbientItemInfo {
    pub name: String,
    pub url: String,
    pub time: String,
}

/// The image types listed as backgrounds.
pub open spec fn background_exts() -> Seq<Seq<char>> {
    seq!["png"@, "jpg"@, "jpeg"@, "webp"@, "bmp"@, "svg"@, "tif"@, "gif"@]
}

/// The sound types listed as ambient sounds.
pub open spec fn ambient_exts() -> Seq<Seq<char>> {
    seq!["mp3"@, "wav"@, "flac"@, "webm"@, "weba"@, "ogg"@, "m4a"@, "oga"@]
}

/// A file is listed when its extension, lower-cased, is one of `exts`.
pub open spec fn listed_file(path: Seq<char>, is_file: bool, exts: Seq<Seq<char>>) -> bool {
    is_file && exts.contains(lower_ext(path))
}

/// The background that a folder entry shows, if it is one.
pub fn background_item(path: &str, is_file: bool, time: String) -> (r: Option<BackgroundItemInfo>)
    ensures
        listed_file(path@, is_file, background_exts()) <==> r is Some,
        r matches Some(b) ==> b.title@ == stem_text(path@) && b.url@ == path@ && b.time == time,
{
    if !is_file {
        return None;
    }
    let list: Vec<&'static str> = vec!["png", "jpg", "jpeg", "webp", "bmp", "svg", "tif", "gif"];
    assert(texts(list@) =~= background_exts());
    let ext = lower_ext_of(path);
    if !contains_text(&list, ext.as_str()) {
        return None;
    }
    Some(BackgroundItemInfo { title: stem_or_empty(path), url: owned(path), time })
}

/// The ambient sound that a folder entry shows, if it is one.
pub fn ambient_item(path: &str, is_file: bool, time: String) -> (r: Option<AmbientItemInfo>)
    ensures
        listed_file(path@, is_file, ambient_exts()) <==> r is Some,
        r matches Some(b) ==> b.name@ == stem_text(path@) && b.url@ == path@ && b.time == time,
{
    if !is_file {
        return None;
    }
    let list: Vec<&'static str> = vec!["mp3", "wav", "flac", "webm", "weba", "ogg", "m4a", "oga"];
    assert(texts(list@) =~= ambient_exts());
    let ext = lower_ext_of(path);
    if !contains_text(&list, ext.as_str()) {
        return None;
    }
    Some(AmbientItemInfo { name: stem_or_empty(path), url: owned(path), time })
}

fn stem_or_empty(path: &str) -> (r: String)
    ensures
        r@ == stem_text(path@),
{
    match file_stem_of(path) {
        Some(s) => s,
        None => String::new(),
    }
}

// ---------- fonts ----------

/// An imported font file: a file whose extension is `ttf` or `woff2` in any case.
pub open spec fn imported_font_file(path: Seq<char>, is_file: bool) -> bool {
    is_file && (lower_ext(path) == "ttf"@ || lower_ext(path) == "woff2"@)
}

/// A path component, or `unknown` when there is none.
pub open spec fn or_unknown(p: Option<Seq<char>>) -> Seq<char> {
    match p {
        Some(s) => s,
        None => "unknown"@,
    }
}

/// The listing of an imported font file: family name, file name, path.
pub open spec fn font_view(path: Seq<char>) -> (Seq<char>, Seq<char>, Seq<char>) {
    (or_unknown(path_file_stem(path)), or_unknown(path_file_name(path)), path)
}

/// The plain values of a font listing.
pub open spec fn font_listing(v: Seq<ImportedFontInfo>) -> Seq<(Seq<char>, Seq<char>, Seq<char>)> {
    v.map_values(|f: ImportedFontInfo| (f.name@, f.file_name@, f.file_path@))
}

/// The imported font files among folder entries (path, is a file), as listed.
pub open spec fn font_items(entries: Seq<(Seq<char>, bool)>) -> Seq<(Seq<char>, Seq<char>, Seq<char>)> {
    let flags = entries.map_values(|e: (Seq<char>, bool)| imported_font_file(e.0, e.1));
    kept(flags).map_values(|k: int| font_view(entries[k].0))
}

/// The plain values of folder entries.
pub open spec fn entries_view(v: Seq<(String, bool)>) -> Seq<(Seq<char>, bool)> {
    v.map_values(|e: (String, bool)| (e.0@, e.1))
}

fn or_unknown_exec(p: Option<String>) -> (r: String)
    ensures
        r@ == or_unknown(opt_view(p)),
{
    match p {
        Some(s) => s,
        None => owned("unknown"),
    }
}

/// The imported fonts of the fonts folder, from its entries (path, is a
/// file): the font files, ordered by their lower-cased family names.
pub fn imported_fonts(entries: &Vec<(String, bool)>) -> (r: Vec<ImportedFontInfo>)
    ensures
        arranged(font_listing(r@), font_items(entries_view(entries@)),
            font_items(entries_view(entries@)).map_values(|f: (Seq<char>, Seq<char>, Seq<char>)| unicode_lower(f.0))),
{
    let ghost ev = entries_view(entries@);
    let mut flags: Vec<bool> = Vec::new();
    let mut i: usize = 0;
    while i < entries.len()
        invariant
            i <= entries@.len(),
            ev == entries_view(entries@),
            flags@.len() == i,
            forall|j: int| 0 <= j < i ==> flags@[j] == imported_font_file(#[trigger] ev[j].0, ev[j].1),
        decreases entries@.len() - i,
    {
        let path = entries[i].0.as_str();
        let ext = lower_ext_of(path);
        flags.push(entries[i].1 && (str_eq(ext.as_str(), "ttf") || str_eq(ext.as_str(), "woff2")));
        i = i + 1;
    }
    let ghost fl = ev.map_values(|e: (Seq<char>, bool)| imported_font_file(e.0, e.1));
    assert(flags@ =~= fl);
    let pos = kept_positions(&flags);
    proof { lemma_kept_bounds(fl); }
    let ghost items = font_items(ev);
    let mut keys: Vec<String> = Vec::new();
    let mut k: usize = 0;
    while k < pos.len()
        invariant
            k <= pos@.len(),
            ev == entries_view(entries@),
            pos@.len() == kept(fl).len(),
            forall|a: int| 0 <= a < pos@.len() ==> pos@[a] as int == #[trigger] kept(fl)[a],
            forall|a: int| 0 <= a < kept(fl).len() ==> 0 <= #[trigger] kept(fl)[a] < fl.len(),
            fl.len() == entries@.len(),
            items == kept(fl).map_values(|j: int| font_view(ev[j].0)),
            keys@.len() == k,
            forall|a: int| 0 <= a < k ==> (#[trigger] keys@[a])@ == unicode_lower(items[a].0),
        decreases pos@.len() - k,
    {
        let j = pos[k];
        assert(j as int == kept(fl)[k as int]);
        let stem = or_unknown_exec(file_stem_of(entries[j].0.as_str()));
        keys.push(to_lowercase(stem.as_str()));
        k = k + 1;
    }
    let order = stable_order(&keys);
    let mut out: Vec<ImportedFontInfo> = Vec::new();
    let mut m: usize = 0;
    while m < order.len()
        invariant
            m <= order@.len(),
            ev == entries_view(entries@),
            stably_ordered(crate::strset::item_views(keys@), order@),
            keys@.len() == pos@.len(),
            pos@.len() == kept(fl).len(),
            forall|a: int| 0 <= a < pos@.len() ==> pos@[a] as int == #[trigger] kept(fl)[a],
            forall|a: int| 0 <= a < kept(fl).len() ==> 0 <= #[trigger] kept(fl)[a] < fl.len(),
            fl.len() == entries@.len(),
            items == kept(fl).map_values(|j: int| font_view(ev[j].0)),
            out@.len() == m,
            forall|a: int| 0 <= a < m ==> font_listing(out@)[a] == items[#[trigger] order@[a] as int],
        decreases order@.len() - m,
    {
        let o = order[m];
        assert(order@[m as int] < keys@.len());
        let j = pos[o];
        assert(pos@[o as int] as int == kept(fl)[o as int]);
        let path = entries[j].0.as_str();
        let name = or_unknown_exec(file_stem_of(path));
        let file_name = or_unknown_exec(file_name_of(path));
        let ghost before = out@;
        out.push(ImportedFontInfo { name, file_name, file_path: owned(path) });
        proof {
            assert forall|a: int| 0 <= a < m + 1 implies font_listing(out@)[a] == items[#[trigger] order@[a] as int] by {
                if a < m { assert(out@[a] == before[a]); }
            }
        }
        m = m + 1;
    }
    proof {
        let ks = items.map_values(|f: (Seq<char>, Seq<char>, Seq<char>)| unicode_lower(f.0));
        assert(crate::strset::item_views(keys@) =~= ks);
        assert(font_listing(out@).len() == items.len());
    }
    out
}

/// A font family installed on the system.
#[derive(Debug, Clone)]
pub struct FontFamilyInfo {
    pub name: String,
}

/// The `i`-th reported family is new: it has a name, and no earlier name
/// is the same up to ASCII case.
pub open spec fn new_family(names: Seq<Seq<char>>, i: int) -> bool {
    &&& names[i].len() > 0
    &&& forall|j: int| 0 <= j < i && names[j].len() > 0 ==> !eq_ignore_ascii_case(#[trigger] names[j], names[i])
}

/// The families listed from the reported names: each name once (up to
/// ASCII case), the first spelling kept.
pub open spec fn family_items(names: Seq<Seq<char>>) -> Seq<Seq<char>> {
    kept(Seq::new(names.len(), |i: int| new_family(names, i))).map_values(|k: int| names[k])
}

/// The plain values of a family listing.
pub open spec fn family_listing(v: Seq<FontFamilyInfo>) -> Seq<Seq<char>> {
    v.map_values(|f: FontFamilyInfo| f.name@)
}

/// The system's font families from the names the system reports: empty
/// names dropped, each name once up to ASCII case, ordered by the
/// lower-cased name.
pub fn font_families(names: &Vec<String>) -> (r: Vec<FontFamilyInfo>)
    ensures
        arranged(family_listing(r@), family_items(crate::strset::item_views(names@)),
            family_items(crate::strset::item_views(names@)).map_values(|n: Seq<char>| unicode_lower(n))),
{
    let ghost nv = crate::strset::item_views(names@);
    let ghost fl = Seq::new(nv.len(), |i: int| new_family(nv, i));
    let mut flags: Vec<bool> = Vec::new();
    let mut i: usize = 0;
    while i < names.len()
        invariant
            i <= names@.len(),
            nv == crate::strset::item_views(names@),
            nv.len() == names@.len(),
            fl == Seq::new(nv.len(), |i: int| new_family(nv, i)),
            flags@.len() == i,
            forall|j: int| 0 <= j < i ==> flags@[j] == #[trigger] fl[j],
        decreases names@.len() - i,
    {
        let name = names[i].as_str();
        let mut fresh = !crate::validate::is_empty_str(name);
        proof {
            assert(name@ == nv[i as int]);
        }
        let mut j: usize = 0;
        while fresh && j < i
            invariant
                j <= i,
                i < names@.len(),
                nv == crate::strset::item_views(names@),
                name@ == nv[i as int],
                fresh ==> nv[i as int].len() > 0,
                fresh ==> forall|q: int| 0 <= q < j && nv[q].len() > 0 ==> !eq_ignore_ascii_case(#[trigger] nv[q], nv[i as int]),
                !fresh ==> !new_family(nv, i as int),
            decreases i - j,
        {
            let other = names[j].as_str();
            assert(other@ == nv[j as int]);
            if !crate::validate::is_empty_str(other) && eq_ignore_ascii_case_exec(other, name) {
                fresh = false;
            }
            j = j + 1;
        }
        flags.push(fresh);
        i = i + 1;
    }
    assert(flags@ =~= fl);
    let pos = kept_positions(&flags);
    proof { lemma_kept_bounds(fl); }
    let ghost items = family_items(nv);
    let mut keys: Vec<String> = Vec::new();
    let mut k: usize = 0;
    while k < pos.len()
        invariant
            k <= pos@.len(),
            nv == crate::strset::item_views(names@),
            nv.len() == names@.len(),
            fl.len() == names@.len(),
            pos@.len() == kept(fl).len(),
            forall|a: int| 0 <= a < pos@.len() ==> pos@[a] as int == #[trigger] kept(fl)[a],
            forall|a: int| 0 <= a < kept(fl).len() ==> 0 <= #[trigger] kept(fl)[a] < fl.len(),
            items == kept(fl).map_values(|j: int| nv[j]),
            keys@.len() == k,
            forall|a: int| 0 <= a < k ==> (#[trigger] keys@[a])@ == unicode_lower(items[a]),
        decreases pos@.len() - k,
    {
        let j = pos[k];
        assert(j as int == kept(fl)[k as int]);
        keys.push(to_lowercase(names[j].as_str()));
        k = k + 1;
    }
    let order = stable_order(&keys);
    let mut out: Vec<FontFamilyInfo> = Vec::new();
    let mut m: usize = 0;
    while m < order.len()
        invariant
            m <= order@.len(),
            nv == crate::strset::item_views(names@),
            nv.len() == names@.len(),
            stably_ordered(crate::strset::item_views(keys@), order@),
            keys@.len() == pos@.len(),
            pos@.len() == kept(fl).len(),
            forall|a: int| 0 <= a < pos@.len() ==> pos@[a] as int == #[trigger] kept(fl)[a],
            forall|a: int| 0 <= a < kept(fl).len() ==> 0 <= #[trigger] kept(fl)[a] < fl.len(),
            fl.len() == names@.len(),
            items == kept(fl).map_values(|j: int| nv[j]),
            out@.len() == m,
            forall|a: int| 0 <= a < m ==> family_listing(out@)[a] == items[#[trigger] order@[a] as int],
        decreases order@.len() - m,
    {
        let o = order[m];
        assert(order@[m as int] < keys@.len());
        let j = pos[o];
        assert(pos@[o as int] as int == kept(fl)[o as int]);
        let ghost before = out@;
        out.push(FontFamilyInfo { name: owned(names[j].as_str()) });
        proof {
            assert forall|a: int| 0 <= a < m + 1 implies family_listing(out@)[a] == items[#[trigger] order@[a] as int] by {
                if a < m { assert(out@[a] == before[a]); }
            }
        }
        m = m + 1;
    }
    proof {
        assert(crate::strset::item_views(keys@) =~= items.map_values(|n: Seq<char>| unicode_lower(n)));
    }
    out
}

// ---------- script assets ----------

/// An asset file: its name, path and size in bytes.
#[derive(Debug, Clone)]
pub struct AssetFile {
    pub name: String,
    pub path: String,
    pub size: u64,
}

/// An entry of an asset folder, as read.
#[derive(Debug, Clone)]
pub struct AssetEntry {
    pub name: String,
    pub path: String,
    pub size: u64,
    pub is_file: bool,
}

/// The asset files of a script or of the global folders, by kind.
#[derive(Debug, Clone)]
pub struct AssetFileIndex {
    pub background: Vec<AssetFile>,
    pub music: Vec<AssetFile>,
    pub sound: Vec<AssetFile>,
    pub ambient: Vec<AssetFile>,
    pub pic: Vec<AssetFile>,
}

/// An entry lists as an asset of `kind`: a visible file of an accepted type.
pub open spec fn asset_eligible(kind: Seq<char>, e: AssetEntry) -> bool {
    e.is_file && !starts_with(e.name@, "."@) && allowed_exts(kind).contains(lower_ext(e.name@))
}

/// The `i`-th entry is listed: eligible, and no earlier eligible entry has its name.
pub open spec fn first_asset(kind: Seq<char>, es: Seq<AssetEntry>, i: int) -> bool {
    &&& asset_eligible(kind, es[i])
    &&& forall|j: int| 0 <= j < i && asset_eligible(kind, #[trigger] es[j]) ==> es[j].name@ != es[i].name@
}

/// The plain values of an asset file.
pub open spec fn asset_view(a: AssetFile) -> (Seq<char>, Seq<char>, u64) {
    (a.name@, a.path@, a.size)
}

/// The assets listed from the entries of the folders of a kind, in the order read.
pub open spec fn asset_items(kind: Seq<char>, es: Seq<AssetEntry>) -> Seq<(Seq<char>, Seq<char>, u64)> {
    kept(Seq::new(es.len(), |i: int| first_asset(kind, es, i))).map_values(|k: int| (es[k].name@, es[k].path@, es[k].size))
}

/// The asset files of `kind` among the entries of its folders: visible
/// files of an accepted type, the first of each name, ordered by name.
pub fn asset_files(kind: &str, entries: &Vec<AssetEntry>) -> (r: Vec<AssetFile>)
    ensures
        arranged(r@.map_values(|a: AssetFile| asset_view(a)), asset_items(kind@, entries@),
            asset_items(kind@, entries@).map_values(|a: (Seq<char>, Seq<char>, u64)| a.0)),
{
    let ghost es = entries@;
    let ghost fl = Seq::new(es.len(), |i: int| first_asset(kind@, es, i));
    let allowed = allowed_extensions(kind);
    let mut eligible: Vec<bool> = Vec::new();
    let mut i: usize = 0;
    while i < entries.len()
        invariant
            i <= entries@.len(),
            es == entries@,
            texts(allowed@) == allowed_exts(kind@),
            eligible@.len() == i,
            forall|j: int| 0 <= j < i ==> eligible@[j] == asset_eligible(kind@, #[trigger] es[j]),
        decreases entries@.len() - i,
    {
        let e = &entries[i];
        let ext = lower_ext_of(e.name.as_str());
        let ok = e.is_file && !starts_with_str(e.name.as_str(), ".") && contains_text(&allowed, ext.as_str());
        eligible.push(ok);
        i = i + 1;
    }
    let mut flags: Vec<bool> = Vec::new();
    let mut i: usize = 0;
    while i < entries.len()
        invariant
            i <= entries@.len(),
            es == entries@,
            eligible@.len() == entries@.len(),
            forall|j: int| 0 <= j < es.len() ==> eligible@[j] == asset_eligible(kind@, #[trigger] es[j]),
            fl == Seq::new(es.len(), |i: int| first_asset(kind@, es, i)),
            flags@.len() == i,
            forall|j: int| 0 <= j < i ==> flags@[j] == #[trigger] fl[j],
        decreases entries@.len() - i,
    {
        let mut fresh = eligible[i];
        let mut j: usize = 0;
        while fresh && j < i
            invariant
                j <= i,
                i < entries@.len(),
                es == entries@,
                eligible@.len() == entries@.len(),
                forall|q: int| 0 <= q < es.len() ==> eligible@[q] == asset_eligible(kind@, #[trigger] es[q]),
                fresh ==> asset_eligible(kind@, es[i as int]),
                fresh ==> forall|q: int| 0 <= q < j && asset_eligible(kind@, #[trigger] es[q]) ==> es[q].name@ != es[i as int].name@,
                !fresh ==> !first_asset(kind@, es, i as int),
            decreases i - j,
        {
            if eligible[j] && str_eq(entries[j].name.as_str(), entries[i].name.as_str()) {
                fresh = false;
            }
            j = j + 1;
        }
        flags.push(fresh);
        i = i + 1;
    }
    assert(flags@ =~= fl);
    let pos = kept_positions(&flags);
    proof { lemma_kept_bounds(fl); }
    let ghost items = asset_items(kind@, es);
    let mut keys: Vec<String> = Vec::new();
    let mut k: usize = 0;
    while k < pos.len()
        invariant
            k <= pos@.len(),
            es == entries@,
            fl.len() == entries@.len(),
            pos@.len() == kept(fl).len(),
            forall|a: int| 0 <= a < pos@.len() ==> pos@[a] as int == #[trigger] kept(fl)[a],
            forall|a: int| 0 <= a < kept(fl).len() ==> 0 <= #[trigger] kept(fl)[a] < fl.len(),
            items == kept(fl).map_values(|j: int| (es[j].name@, es[j].path@, es[j].size)),
            keys@.len() == k,
            forall|a: int| 0 <= a < k ==> (#[trigger] keys@[a])@ == items[a].0,
        decreases pos@.len() - k,
    {
        let j = pos[k];
        assert(j as int == kept(fl)[k as int]);
        keys.push(owned(entries[j].name.as_str()));
        k = k + 1;
    }
    let order = stable_order(&keys);
    let mut out: Vec<AssetFile> = Vec::new();
    let mut m: usize = 0;
    while m < order.len()
        invariant
            m <= order@.len(),
            es == entries@,
            stably_ordered(crate::strset::item_views(keys@), order@),
            keys@.len() == pos@.len(),
            pos@.len() == kept(fl).len(),
            forall|a: int| 0 <= a < pos@.len() ==> pos@[a] as int == #[trigger] kept(fl)[a],
            forall|a: int| 0 <= a < kept(fl).len() ==> 0 <= #[trigger] kept(fl)[a] < fl.len(),
            fl.len() == entries@.len(),
            items == kept(fl).map_values(|j: int| (es[j].name@, es[j].path@, es[j].size)),
            out@.len() == m,
            forall|a: int| 0 <= a < m ==> asset_view(#[trigger] out@[a]) == items[order@[a] as int],
        decreases order@.len() - m,
    {
        let o = order[m];
        assert(order@[m as int] < keys@.len());
        let j = pos[o];
        assert(pos@[o as int] as int == kept(fl)[o as int]);
        let e = &entries[j];
        let ghost before = out@;
        out.push(AssetFile { name: owned(e.name.as_str()), path: owned(e.path.as_str()), size: e.size });
        proof {
            assert forall|a: int| 0 <= a < m + 1 implies asset_view(#[trigger] out@[a]) == items[order@[a] as int] by {
                if a < m { assert(out@[a] == before[a]); }
            }
        }
        m = m + 1;
    }
    proof {
        assert(crate::strset::item_views(keys@) =~= items.map_values(|a: (Seq<char>, Seq<char>, u64)| a.0));
        let ov = out@.map_values(|a: AssetFile| asset_view(a));
        assert forall|a: int| 0 <= a < ov.len() implies ov[a] == items[#[trigger] order@[a] as int] by {
            assert(ov[a] == asset_view(out@[a]));
        }
    }
    out
}

/// The asset files of each kind; the global folders have no sound effects.
pub fn asset_file_index(scope: AssetScope, background: &Vec<AssetEntry>, music: &Vec<AssetEntry>, sound: &Vec<AssetEntry>,
    ambient: &Vec<AssetEntry>, pic: &Vec<AssetEntry>) -> (r: AssetFileIndex)
    ensures
        arranged(r.background@.map_values(|a: AssetFile| asset_view(a)), asset_items("background"@, background@),
            asset_items("background"@, background@).map_values(|a: (Seq<char>, Seq<char>, u64)| a.0)),
        arranged(r.music@.map_values(|a: AssetFile| asset_view(a)), asset_items("music"@, music@),
            asset_items("music"@, music@).map_values(|a: (Seq<char>, Seq<char>, u64)| a.0)),
        scope == AssetScope::Global ==> r.sound@.len() == 0,
        scope == AssetScope::Script ==> arranged(r.sound@.map_values(|a: AssetFile| asset_view(a)), asset_items("sound"@, sound@),
            asset_items("sound"@, sound@).map_values(|a: (Seq<char>, Seq<char>, u64)| a.0)),
        arranged(r.ambient@.map_values(|a: AssetFile| asset_view(a)), asset_items("ambient"@, ambient@),
            asset_items("ambient"@, ambient@).map_values(|a: (Seq<char>, Seq<char>, u64)| a.0)),
        arranged(r.pic@.map_values(|a: AssetFile| asset_view(a)), asset_items("pic"@, pic@),
            asset_items("pic"@, pic@).map_values(|a: (Seq<char>, Seq<char>, u64)| a.0)),
{
    let sound_files = match scope {
        AssetScope::Script => asset_files("sound", sound),
        AssetScope::Global => Vec::new(),
    };
    AssetFileIndex {
        background: asset_files("background", background),
        music: asset_files("music", music),
        sound: sound_files,
        ambient: asset_files("ambient", ambient),
        pic: asset_files("pic", pic),
    }
}

// ---------- global characters ----------

/// A character of the global library as the script editor lists it.
#[derive(Debug, Clone)]
pub struct GlobalCharacter {
    pub folder: String,
    /// The name shown: `name`, else `ai_name`, else the folder.
    pub ai_name: String,
    /// The current script has imported it already.
    pub already_in_script: bool,
    /// It has an `avatar` folder.
    pub has_avatar: bool,
    /// Its outfits: the folders of its `avatar` folder, by name.
    pub clothes: Vec<String>,
}

/// A folder of the global characters folder, as read.
#[derive(Debug)]
pub struct CharacterFolder {
    pub folder: String,
    pub is_dir: bool,
    /// Its `settings.yml`, parsed (`Null` when missing or unreadable).
    pub settings: JsonValue,
    pub has_avatar: bool,
    /// The entries of its `avatar` folder: name, and whether it is a folder.
    pub avatar_entries: Vec<(String, bool)>,
}

/// The names of the folders among entries, in the order read.
pub open spec fn dir_names(ev: Seq<(Seq<char>, bool)>) -> Seq<Seq<char>> {
    kept(ev.map_values(|e: (Seq<char>, bool)| e.1)).map_values(|k: int| ev[k].0)
}

/// The outfits of a character: the folders of its avatar folder, by name.
pub fn outfit_folders(entries: &Vec<(String, bool)>) -> (r: Vec<String>)
    ensures
        arranged(crate::strset::item_views(r@), dir_names(entries_view(entries@)), dir_names(entries_view(entries@))),
{
    let ghost ev = entries_view(entries@);
    let ghost fl = ev.map_values(|e: (Seq<char>, bool)| e.1);
    let mut flags: Vec<bool> = Vec::new();
    let mut i: usize = 0;
    while i < entries.len()
        invariant
            i <= entries@.len(),
            ev == entries_view(entries@),
            fl == ev.map_values(|e: (Seq<char>, bool)| e.1),
            flags@.len() == i,
            forall|j: int| 0 <= j < i ==> flags@[j] == #[trigger] fl[j],
        decreases entries@.len() - i,
    {
        flags.push(entries[i].1);
        i = i + 1;
    }
    assert(flags@ =~= fl);
    let pos = kept_positions(&flags);
    proof { lemma_kept_bounds(fl); }
    let ghost items = dir_names(ev);
    let mut keys: Vec<String> = Vec::new();
    let mut k: usize = 0;
    while k < pos.len()
        invariant
            k <= pos@.len(),
            ev == entries_view(entries@),
            fl.len() == entries@.len(),
            pos@.len() == kept(fl).len(),
            forall|a: int| 0 <= a < pos@.len() ==> pos@[a] as int == #[trigger] kept(fl)[a],
            forall|a: int| 0 <= a < kept(fl).len() ==> 0 <= #[trigger] kept(fl)[a] < fl.len(),
            items == kept(fl).map_values(|j: int| ev[j].0),
            keys@.len() == k,
            forall|a: int| 0 <= a < k ==> (#[trigger] keys@[a])@ == items[a],
        decreases pos@.len() - k,
    {
        let j = pos[k];
        assert(j as int == kept(fl)[k as int]);
        keys.push(owned(entries[j].0.as_str()));
        k = k + 1;
    }
    let order = stable_order(&keys);
    let mut out: Vec<String> = Vec::new();
    let mut m: usize = 0;
    while m < order.len()
        invariant
            m <= order@.len(),
            stably_ordered(crate::strset::item_views(keys@), order@),
            keys@.len() == items.len(),
            forall|a: int| 0 <= a < keys@.len() ==> (#[trigger] keys@[a])@ == items[a],
            out@.len() == m,
            forall|a: int| 0 <= a < m ==> (#[trigger] out@[a])@ == items[order@[a] as int],
        decreases order@.len() - m,
    {
        let o = order[m];
        assert(order@[m as int] < keys@.len());
        let ghost before = out@;
        out.push(owned(keys[o].as_str()));
        proof {
            assert forall|a: int| 0 <= a < m + 1 implies (#[trigger] out@[a])@ == items[order@[a] as int] by {
                if a < m { assert(out@[a] == before[a]); }
            }
        }
        m = m + 1;
    }
    proof {
        assert(crate::strset::item_views(keys@) =~= items);
        let ov = crate::strset::item_views(out@);
        assert forall|a: int| 0 <= a < ov.len() implies ov[a] == items[#[trigger] order@[a] as int] by {
            assert(ov[a] == out@[a]@);
        }
    }
    out
}

/// A folder of the library is listed: a visible folder.
pub open spec fn listed_character(c: CharacterFolder) -> bool {
    c.is_dir && !starts_with(c.folder@, "."@)
}

/// The listed folders, in the order read.
pub open spec fn character_kept(fs: Seq<CharacterFolder>) -> Seq<int> {
    kept(fs.map_values(|c: CharacterFolder| listed_character(c)))
}

/// The folder names of the listed folders, in the order read.
pub open spec fn character_keys(fs: Seq<CharacterFolder>) -> Seq<Seq<char>> {
    character_kept(fs).map_values(|j: int| fs[j].folder@)
}

/// `g` shows the folder `c`: its folder, shown name, whether the script has
/// it, whether it has avatars, and its outfits.
pub open spec fn shows(g: GlobalCharacter, c: CharacterFolder, existing: Set<Seq<char>>) -> bool {
    &&& g.folder@ == c.folder@
    &&& g.ai_name@ == character_display_name(c.settings, c.folder@)
    &&& g.already_in_script == existing.contains(c.folder@)
    &&& g.has_avatar == c.has_avatar
    &&& arranged(crate::strset::item_views(g.clothes@), dir_names(entries_view(c.avatar_entries@)),
            dir_names(entries_view(c.avatar_entries@)))
}

/// The global character library for the script editor, from the folders
/// read and the folders the current script has imported: the visible
/// folders, ordered by folder name.
pub fn global_characters(folders: &Vec<CharacterFolder>, existing: &StrSet) -> (r: Vec<GlobalCharacter>)
    requires
        existing.wf(),
    ensures
        exists|order: Seq<usize>| {
            &&& #[trigger] stably_ordered(character_keys(folders@), order)
            &&& r@.len() == character_kept(folders@).len()
            &&& forall|k: int| 0 <= k < r@.len()
                    ==> shows(#[trigger] r@[k], folders@[character_kept(folders@)[order[k] as int]], existing@)
        },
{
    let ghost fs = folders@;
    let ghost fl = fs.map_values(|c: CharacterFolder| listed_character(c));
    let mut flags: Vec<bool> = Vec::new();
    let mut i: usize = 0;
    while i < folders.len()
        invariant
            i <= folders@.len(),
            fs == folders@,
            fl == fs.map_values(|c: CharacterFolder| listed_character(c)),
            flags@.len() == i,
            forall|j: int| 0 <= j < i ==> flags@[j] == #[trigger] fl[j],
        decreases folders@.len() - i,
    {
        let c = &folders[i];
        flags.push(c.is_dir && !starts_with_str(c.folder.as_str(), "."));
        i = i + 1;
    }
    assert(flags@ =~= fl);
    let pos = kept_positions(&flags);
    proof { lemma_kept_bounds(fl); }
    let ghost ks = kept(fl).map_values(|j: int| fs[j].folder@);
    let mut keys: Vec<String> = Vec::new();
    let mut k: usize = 0;
    while k < pos.len()
        invariant
            k <= pos@.len(),
            fs == folders@,
            fl.len() == folders@.len(),
            pos@.len() == kept(fl).len(),
            forall|a: int| 0 <= a < pos@.len() ==> pos@[a] as int == #[trigger] kept(fl)[a],
            forall|a: int| 0 <= a < kept(fl).len() ==> 0 <= #[trigger] kept(fl)[a] < fl.len(),
            ks == kept(fl).map_values(|j: int| fs[j].folder@),
            keys@.len() == k,
            forall|a: int| 0 <= a < k ==> (#[trigger] keys@[a])@ == ks[a],
        decreases pos@.len() - k,
    {
        let j = pos[k];
        assert(j as int == kept(fl)[k as int]);
        keys.push(owned(folders[j].folder.as_str()));
        k = k + 1;
    }
    let order = stable_order(&keys);
    let mut out: Vec<GlobalCharacter> = Vec::new();
    let mut m: usize = 0;
    while m < order.len()
        invariant
            m <= order@.len(),
            fs == folders@,
            existing.wf(),
            stably_ordered(crate::strset::item_views(keys@), order@),
            keys@.len() == pos@.len(),
            pos@.len() == kept(fl).len(),
            forall|a: int| 0 <= a < pos@.len() ==> pos@[a] as int == #[trigger] kept(fl)[a],
            forall|a: int| 0 <= a < kept(fl).len() ==> 0 <= #[trigger] kept(fl)[a] < fl.len(),
            fl.len() == folders@.len(),
            out@.len() == m,
            forall|a: int| 0 <= a < m ==> shows(#[trigger] out@[a], fs[kept(fl)[order@[a] as int]], existing@),
        decreases order@.len() - m,
    {
        let o = order[m];
        assert(order@[m as int] < keys@.len());
        let j = pos[o];
        assert(pos@[o as int] as int == kept(fl)[o as int]);
        let c = &folders[j];
        let g = GlobalCharacter {
            folder: owned(c.folder.as_str()),
            ai_name: display_name_of(&c.settings, c.folder.as_str()),
            already_in_script: existing.contains(c.folder.as_str()),
            has_avatar: c.has_avatar,
            clothes: outfit_folders(&c.avatar_entries),
        };
        let ghost before = out@;
        out.push(g);
        proof {
            assert forall|a: int| 0 <= a < m + 1 implies shows(#[trigger] out@[a], fs[kept(fl)[order@[a] as int]], existing@) by {
                if a < m { assert(out@[a] == before[a]); }
            }
        }
        m = m + 1;
    }
    proof {
        assert(crate::strset::item_views(keys@) =~= ks);
        assert(character_kept(fs) == kept(fl));
        assert(character_keys(fs) =~= ks);
        assert(stably_ordered(character_keys(fs), order@));
    }
    out
}

// ---------- scripts ----------

/// A script as the script list shows it.
#[derive(Debug, Clone)]
pub struct ScriptSummary {
    pub script_name: String,
    pub description: String,
    pub folder_key: String,
    pub intro_chapter: String,
}

/// The script list.
#[derive(Debug, Clone)]
pub struct ScriptListResponse {
    pub scripts: Vec<ScriptSummary>,
}

/// A loaded script: its summary and whether it is a character's bond adventure.
#[derive(Debug, Clone)]
pub struct ScriptEntry {
    pub summary: ScriptSummary,
    pub is_adventure: bool,
}

/// `i` is the first of `parts` that is `scripts`.
pub open spec fn first_scripts_at(parts: Seq<Seq<char>>, i: int) -> bool {
    &&& 0 <= i < parts.len()
    &&& parts[i] == "scripts"@
    &&& forall|j: int| 0 <= j < i ==> parts[j] != "scripts"@
}

/// The key of a loaded script, from the parts of its path: the parts after
/// the first `scripts`, joined by `sep` (empty when `scripts` is the last
/// part); the whole path when no part is `scripts`.
pub open spec fn path_key_ok(parts: Seq<Seq<char>>, whole: Seq<char>, sep: Seq<char>, r: Seq<char>) -> bool {
    if exists|i: int| 0 <= i < parts.len() && parts[i] == "scripts"@ {
        exists|i: int| #[trigger] first_scripts_at(parts, i) && r == join(parts.subrange(i + 1, parts.len() as int), sep)
    } else {
        r == whole
    }
}

/// The path of a script relative to `scripts/` (see `path_key_ok`); `parts`
/// are the components of its path, `whole` the path as text and `sep` the
/// platform's separator.
pub fn path_key(parts: &Vec<String>, whole: &str, sep: &str) -> (r: String)
    ensures
        path_key_ok(views(parts@), whole@, sep@, r@),
{
    let ghost ps = views(parts@);
    let mut i: usize = 0;
    while i < parts.len()
        invariant
            i <= parts@.len(),
            ps == views(parts@),
            forall|j: int| 0 <= j < i ==> ps[j] != "scripts"@,
        decreases parts@.len() - i,
    {
        if str_eq(parts[i].as_str(), "scripts") {
            assert(first_scripts_at(ps, i as int));
            let mut rest: Vec<String> = Vec::new();
            let mut k: usize = i + 1;
            while k < parts.len()
                invariant
                    i < k <= parts@.len(),
                    ps == views(parts@),
                    ps.len() == parts@.len(),
                    rest@.len() == k - i - 1,
                    forall|j: int| 0 <= j < rest@.len() ==> (#[trigger] rest@[j])@ == ps[i + 1 + j],
                decreases parts@.len() - k,
            {
                assert(ps[k as int] == parts@[k as int]@);
                rest.push(owned(parts[k].as_str()));
                k = k + 1;
            }
            assert(views(rest@) =~= ps.subrange(i + 1, parts@.len() as int));
            return join_strings(&rest, sep);
        }
        i = i + 1;
    }
    owned(whole)
}

/// The plain values of a summary.
pub open spec fn summary_view(s: ScriptSummary) -> (Seq<char>, Seq<char>, Seq<char>, Seq<char>) {
    (s.script_name@, s.description@, s.folder_key@, s.intro_chapter@)
}

/// A script is listed: every script, or only standalone ones.
pub open spec fn script_listed(e: ScriptEntry, standalone_only: bool) -> bool {
    !standalone_only || !e.is_adventure
}

/// The summaries of the listed scripts, in the order given.
pub open spec fn script_items(es: Seq<ScriptEntry>, standalone_only: bool) -> Seq<(Seq<char>, Seq<char>, Seq<char>, Seq<char>)> {
    kept(es.map_values(|e: ScriptEntry| script_listed(e, standalone_only))).map_values(|k: int| summary_view(es[k].summary))
}

fn copy_summary(s: &ScriptSummary) -> (r: ScriptSummary)
    ensures
        summary_view(r) == summary_view(*s),
{
    ScriptSummary {
        script_name: owned(s.script_name.as_str()),
        description: owned(s.description.as_str()),
        folder_key: owned(s.folder_key.as_str()),
        intro_chapter: owned(s.intro_chapter.as_str()),
    }
}

/// The script list: all loaded scripts, or only those that are not a
/// character's bond adventure.
pub fn script_list(scripts: &Vec<ScriptEntry>, standalone_only: bool) -> (r: ScriptListResponse)
    ensures
        r.scripts@.map_values(|s: ScriptSummary| summary_view(s)) == script_items(scripts@, standalone_only),
{
    let ghost es = scripts@;
    let ghost fl = es.map_values(|e: ScriptEntry| script_listed(e, standalone_only));
    let mut flags: Vec<bool> = Vec::new();
    let mut i: usize = 0;
    while i < scripts.len()
        invariant
            i <= scripts@.len(),
            es == scripts@,
            fl == es.map_values(|e: ScriptEntry| script_listed(e, standalone_only)),
            flags@.len() == i,
            forall|j: int| 0 <= j < i ==> flags@[j] == #[trigger] fl[j],
        decreases scripts@.len() - i,
    {
        flags.push(!standalone_only || !scripts[i].is_adventure);
        i = i + 1;
    }
    assert(flags@ =~= fl);
    let pos = kept_positions(&flags);
    proof { lemma_kept_bounds(fl); }
    let mut out: Vec<ScriptSummary> = Vec::new();
    let mut k: usize = 0;
    while k < pos.len()
        invariant
            k <= pos@.len(),
            es == scripts@,
            fl.len() == scripts@.len(),
            pos@.len() == kept(fl).len(),
            forall|a: int| 0 <= a < pos@.len() ==> pos@[a] as int == #[trigger] kept(fl)[a],
            forall|a: int| 0 <= a < kept(fl).len() ==> 0 <= #[trigger] kept(fl)[a] < fl.len(),
            out@.len() == k,
            forall|a: int| 0 <= a < k ==> summary_view(#[trigger] out@[a]) == summary_view(es[kept(fl)[a]].summary),
        decreases pos@.len() - k,
    {
        let j = pos[k];
        assert(j as int == kept(fl)[k as int]);
        let ghost before = out@;
        out.push(copy_summary(&scripts[j].summary));
        proof {
            assert forall|a: int| 0 <= a < k + 1 implies summary_view(#[trigger] out@[a]) == summary_view(es[kept(fl)[a]].summary) by {
                if a < k { assert(out@[a] == before[a]); }
            }
        }
        k = k + 1;
    }
    assert(out@.map_values(|s: ScriptSummary| summary_view(s)) =~= script_items(es, standalone_only));
    ScriptListResponse { scripts: out }
}

} // verus!
