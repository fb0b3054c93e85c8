//! Local TTS: recognising model packages, the layout of the model folders,
//! and the ids of installed voices.
use vstd::prelude::*;
use crate::text::{chars_of, str_eq, ends_with, ends_with_str, owned};

verus! {

// ---------- outside calls ----------

/// What `str::to_lowercase` gives for `s` (full Unicode lower-casing).
pub uninterp spec fn unicode_lower(s: Seq<char>) -> Seq<char>;

/// What `Path::extension` gives for the path `p`, as text.
pub uninterp spec fn path_extension(p: Seq<char>) -> Option<Seq<char>>;

/// What `Path::join` gives for `base` and `part`, as text.
pub uninterp spec fn path_joined(base: Seq<char>, part: Seq<char>) -> Seq<char>;

/// `str::to_lowercase`: the result is the Unicode lower-casing of `s`, named
/// and not spelled out.
#[verifier::external_body]
pub(crate) fn to_lowercase(s: &str) -> (r: String)
    ensures
        r@ == unicode_lower(s@),
{
    s.to_lowercase()
}

/// `Path::extension` of the path `p`, converted to text; the result is named
/// and not spelled out (it depends on how the platform splits paths).
#[verifier::external_body]
pub(crate) fn extension_of(p: &str) -> (r: Option<String>)
    ensures
        match r {
            Some(e) => path_extension(p@) == Some(e@),
            None => path_extension(p@) is None,
        },
{
    std::path::Path::new(p).extension().map(|e| e.to_string_lossy().into_owned())
}

/// `Path::join` of `base` and `part`, converted to text; the result is named
/// and not spelled out (the separator and the handling of absolute parts
/// depend on the platform).
#[verifier::external_body]
pub(crate) fn join_path(base: &str, part: &str) -> (r: String)
    ensures
        r@ == path_joined(base@, part@),
{
    std::path::Path::new(base).join(part).to_string_lossy().into_owned()
}

// ---------- packages ----------

/// What a model package is.
#[derive(Debug, Clone, Copy, PartialEq, Eq, Structural)]
pub enum PackageKind {
    RawSbv2,
    RawOnnx,
    Zip,
    SevenZ,
    Unknown,
}

/// A package after inspection.
pub struct InspectedPackage {
    pub kind: PackageKind,
    pub file_name: String,
    pub size_bytes: u64,
    /// For archives: the name of the model file inside.
    pub inner_model_name: Option<String>,
}

/// The kind a lower-cased file extension names.
pub open spec fn kind_of_extension(ext: Seq<char>) -> PackageKind {
    if ext == "sbv2"@ {
        PackageKind::RawSbv2
    } else if ext == "onnx"@ {
        PackageKind::RawOnnx
    } else if ext == "zip"@ {
        PackageKind::Zip
    } else if ext == "7z"@ {
        PackageKind::SevenZ
    } else {
        PackageKind::Unknown
    }
}

/// The kind a lower-cased file extension names.
pub fn kind_for_extension(ext: &str) -> (r: PackageKind)
    ensures
        r == kind_of_extension(ext@),
{
    if str_eq(ext, "sbv2") {
        PackageKind::RawSbv2
    } else if str_eq(ext, "onnx") {
        PackageKind::RawOnnx
    } else if str_eq(ext, "zip") {
        PackageKind::Zip
    } else if str_eq(ext, "7z") {
        PackageKind::SevenZ
    } else {
        PackageKind::Unknown
    }
}

/// The kind a path names by its extension, lower-cased (no extension: unknown).
pub open spec fn kind_by_extension(path: Seq<char>) -> PackageKind {
    match path_extension(path) {
        Some(e) => kind_of_extension(unicode_lower(e)),
        None => kind_of_extension(unicode_lower(Seq::empty())),
    }
}

/// Cheap sniff by the file extension.
pub fn detect_by_extension(path: &str) -> (r: PackageKind)
    ensures
        r == kind_by_extension(path@),
{
    let ext = match extension_of(path) {
        Some(e) => e,
        None => String::new(),
    };
    let lower = to_lowercase(ext.as_str());
    kind_for_extension(lower.as_str())
}

/// The kind the first bytes of a file show: `PK\x03\x04` for zip, `7z` for 7-Zip.
pub open spec fn kind_by_magic(b: Seq<u8>) -> PackageKind {
    if b.len() >= 4 && b[0] == 0x50 && b[1] == 0x4b && b[2] == 0x03 && b[3] == 0x04 {
        PackageKind::Zip
    } else if b.len() >= 2 && b[0] == 0x37 && b[1] == 0x7a {
        PackageKind::SevenZ
    } else {
        PackageKind::Unknown
    }
}

/// Sniff by magic bytes; unknown when no archive is recognised.
pub fn detect_by_magic(bytes: &[u8]) -> (r: PackageKind)
    ensures
        r == kind_by_magic(bytes@),
{
    if bytes.len() >= 4 && bytes[0] == 0x50 && bytes[1] == 0x4b && bytes[2] == 0x03 && bytes[3] == 0x04 {
        PackageKind::Zip
    } else if bytes.len() >= 2 && bytes[0] == 0x37 && bytes[1] == 0x7a {
        PackageKind::SevenZ
    } else {
        PackageKind::Unknown
    }
}

/// The kind of a package: by extension, or by magic bytes when the
/// extension says nothing.
pub fn classify_package(path: &str, head: &[u8]) -> (r: PackageKind)
    ensures
        r == if kind_by_extension(path@) != PackageKind::Unknown { kind_by_extension(path@) } else { kind_by_magic(head@) },
{
    let k = detect_by_extension(path);
    if k != PackageKind::Unknown { k } else { detect_by_magic(head) }
}

/// An archive entry that looks like a model file: its lower-cased name ends
/// in `.sbv2` or `.onnx`.
pub fn looks_like_model(name: &str) -> (r: bool)
    ensures
        r == (ends_with(unicode_lower(name@), ".sbv2"@) || ends_with(unicode_lower(name@), ".onnx"@)),
{
    let n = to_lowercase(name);
    ends_with_str(n.as_str(), ".sbv2") || ends_with_str(n.as_str(), ".onnx")
}

// ---------- folders ----------

/// The shared assets the local TTS needs (`REQUIRED_ASSETS`).
pub fn required_assets() -> (r: Vec<&'static str>)
    ensures
        r@.len() == 1,
        r@[0]@ == "deberta"@,
{
    vec!["deberta"]
}

/// Where the local TTS keeps its files.
pub struct LocalTtsPaths {
    pub root: String,
    pub assets: String,
    pub voices: String,
    pub cache: String,
}

impl LocalTtsPaths {
    /// The DeBERTa folder.
    pub fn deberta_dir(&self) -> (r: String)
        ensures
            r@ == path_joined(self.assets@, "deberta"@),
    {
        join_path(self.assets.as_str(), "deberta")
    }

    /// The folder of one voice.
    pub fn voice_dir(&self, voice_id: &str) -> (r: String)
        ensures
            r@ == path_joined(self.voices@, voice_id@),
    {
        join_path(self.voices.as_str(), voice_id)
    }

    /// The style vectors of one voice.
    pub fn style_vectors_path(&self, voice_id: &str) -> (r: String)
        ensures
            r@ == path_joined(path_joined(self.voices@, voice_id@), "style_vectors.json"@),
    {
        let d = join_path(self.voices.as_str(), voice_id);
        join_path(d.as_str(), "style_vectors.json")
    }

    /// The folders `ensure` creates.
    pub fn dirs(&self) -> (r: Vec<String>)
        ensures
            r@.len() == 4,
            r@[0]@ == self.root@,
            r@[1]@ == self.assets@,
            r@[2]@ == self.voices@,
            r@[3]@ == self.cache@,
    {
        vec![owned(self.root.as_str()), owned(self.assets.as_str()), owned(self.voices.as_str()), owned(self.cache.as_str())]
    }

    /// The files that must exist for the asset `asset_id` to be present
    /// (none for an asset this version does not know).
    pub fn asset_files(&self, asset_id: &str) -> (r: Vec<String>)
        ensures
            asset_id@ == "deberta"@ ==> r@.len() == 2
                && r@[0]@ == path_joined(path_joined(self.assets@, "deberta"@), "deberta.onnx"@)
                && r@[1]@ == path_joined(path_joined(self.assets@, "deberta"@), "tokenizer.json"@),
            asset_id@ != "deberta"@ ==> r@.len() == 0,
    {
        if str_eq(asset_id, "deberta") {
            let d = self.deberta_dir();
            vec![join_path(d.as_str(), "deberta.onnx"), join_path(d.as_str(), "tokenizer.json")]
        } else {
            Vec::new()
        }
    }

    /// Whether the asset is present, given which of its files exist
    /// (`exists[i]` for the `i`-th file of `asset_files`): a known asset with
    /// every file in place.
    pub fn asset_present(&self, asset_id: &str, exists: &Vec<bool>) -> (r: bool)
        ensures
            r == (asset_id@ == "deberta"@ && exists@.len() >= 2 && exists@[0] && exists@[1]),
    {
        str_eq(asset_id, "deberta") && exists.len() >= 2 && exists[0] && exists[1]
    }
}

// ---------- installed voices ----------

/// An installed voice.
pub struct VoiceRecord {
    pub voice_id: String,
    /// `sbv2` or `onnx`.
    pub kind: String,
    pub size_bytes: u64,
    pub path: String,
    pub language: Option<String>,
    pub display_name: Option<String>,
    pub source: Option<String>,
    pub has_style_vectors: bool,
}

/// An installed shared asset.
pub struct AssetRecord {
    pub asset_id: String,
    /// `bert`.
    pub kind: String,
    pub size_bytes: u64,
    pub path: String,
    pub language: Option<String>,
    pub display_name: Option<String>,
    pub source: Option<String>,
}

/// The number of bytes of `c` in UTF-8.
pub open spec fn utf8_width(c: char) -> nat {
    if (c as u32) < 0x80 { 1 } else if (c as u32) < 0x800 { 2 } else if (c as u32) < 0x10000 { 3 } else { 4 }
}

/// The number of bytes of `s` in UTF-8 (`str::len`).
pub open spec fn utf8_len(s: Seq<char>) -> nat
    decreases s.len(),
{
    if s.len() == 0 { 0 } else { utf8_len(s.drop_last()) + utf8_width(s.last()) }
}

/// A character a voice id may hold.
pub open spec fn voice_id_char(c: char) -> bool {
    crate::text::is_ascii_alnum(c) || c == '-' || c == '_'
}

pub const MSG_VOICE_ID_LENGTH: &'static str = "voice id length out of range";
pub const MSG_VOICE_ID_CHARS: &'static str = "voice id must be kebab-case ASCII";

/// The error for a voice id: its UTF-8 length must be 1 to 64 bytes, and it
/// may hold ASCII letters, digits, `-` and `_` only.
pub open spec fn voice_id_error(id: Seq<char>) -> Option<Seq<char>> {
    if utf8_len(id) == 0 || utf8_len(id) > 64 {
        Some(MSG_VOICE_ID_LENGTH@)
    } else if !(forall|i: int| 0 <= i < id.len() ==> voice_id_char(#[trigger] id[i])) {
        Some(MSG_VOICE_ID_CHARS@)
    } else {
        None
    }
}

/// Checks a voice id before it becomes a folder name.
pub fn validate_voice_id(id: &str) -> (r: Result<(), String>)
    ensures
        match voice_id_error(id@) {
            Some(m) => r is Err && r->Err_0@ == m,
            None => r is Ok,
        },
{
    let v = chars_of(id);
    let mut bytes: usize = 0;
    let mut i: usize = 0;
    while i < v.len()
        invariant
            i <= v@.len(),
            v@ == id@,
            bytes == utf8_len(v@.subrange(0, i as int)),
            bytes <= 4 * i,
        decreases v@.len() - i,
    {
        let c = v[i];
        let w: usize = if (c as u32) < 0x80 { 1 } else if (c as u32) < 0x800 { 2 } else if (c as u32) < 0x10000 { 3 } else { 4 };
        proof {
            assert(v@.subrange(0, i + 1).drop_last() =~= v@.subrange(0, i as int));
        }
        if bytes > 64 {
            proof {
                lemma_utf8_len_grows(v@, i as int);
            }
            return Err(owned(MSG_VOICE_ID_LENGTH));
        }
        bytes = bytes + w;
        i = i + 1;
    }
    proof {
        assert(v@.subrange(0, v@.len() as int) =~= v@);
    }
    if bytes == 0 || bytes > 64 {
        return Err(owned(MSG_VOICE_ID_LENGTH));
    }
    let mut j: usize = 0;
    while j < v.len()
        invariant
            j <= v@.len(),
            v@ == id@,
            0 < utf8_len(id@) <= 64,
            forall|k: int| 0 <= k < j ==> voice_id_char(#[trigger] v@[k]),
        decreases v@.len() - j,
    {
        let c = v[j];
        if !(('0' <= c && c <= '9') || ('a' <= c && c <= 'z') || ('A' <= c && c <= 'Z') || c == '-' || c == '_') {
            proof {
                assert(!voice_id_char(id@[j as int]));
            }
            return Err(owned(MSG_VOICE_ID_CHARS));
        }
        j = j + 1;
    }
    Ok(())
}

proof fn lemma_utf8_len_grows(s: Seq<char>, i: int)
    requires
        0 <= i <= s.len(),
    ensures
        utf8_len(s) >= utf8_len(s.subrange(0, i)),
    decreases s.len() - i,
{
    if i < s.len() {
        lemma_utf8_len_grows(s, i + 1);
        assert(s.subrange(0, i + 1).drop_last() =~= s.subrange(0, i));
    } else {
        assert(s.subrange(0, i) =~= s);
    }
}

} // verus!
