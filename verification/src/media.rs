//! Media files served to the front end: their MIME types; and the silent
//! WAV clip sent to probe a speech-recognition service.
use vstd::prelude::*;
use crate::tts_local::{to_lowercase, unicode_lower};
use crate::text::str_eq;

verus! {

/// What follows the last `.` of `s` (all of `s` when it has none), as
/// `rsplit('.').next()` gives it.
pub open spec fn after_last_dot(s: Seq<char>) -> Seq<char>
    decreases s.len(),
{
    if s.len() == 0 {
        s
    } else if s.last() == '.' {
        Seq::empty()
    } else {
        after_last_dot(s.drop_last()).push(s.last())
    }
}

/// The MIME type of an extension.
pub open spec fn mime_of(ext: Seq<char>) -> Seq<char> {
    if ext == "png"@ { "image/png"@ }
    else if ext == "jpg"@ || ext == "jpeg"@ { "image/jpeg"@ }
    else if ext == "webp"@ { "image/webp"@ }
    else if ext == "gif"@ { "image/gif"@ }
    else if ext == "bmp"@ { "image/bmp"@ }
    else if ext == "svg"@ { "image/svg+xml"@ }
    else if ext == "tif"@ || ext == "tiff"@ { "image/tiff"@ }
    else if ext == "mp3"@ { "audio/mpeg"@ }
    else if ext == "wav"@ { "audio/wav"@ }
    else if ext == "ogg"@ { "audio/ogg"@ }
    else { "application/octet-stream"@ }
}

fn after_last_dot_exec(s: &str) -> (r: String)
    ensures
        r@ == after_last_dot(s@),
{
    let v = crate::text::chars_of(s);
    let mut k: usize = v.len();
    assert(v@.subrange(0, v@.len() as int) =~= v@);
    assert(after_last_dot(v@) + v@.subrange(v@.len() as int, v@.len() as int) =~= after_last_dot(v@));
    while k > 0 && v[k - 1] != '.'
        invariant
            k <= v@.len(),
            after_last_dot(v@) == after_last_dot(v@.subrange(0, k as int)) + v@.subrange(k as int, v@.len() as int),
        decreases k,
    {
        let ghost pre = v@.subrange(0, k as int);
        assert(pre.drop_last() =~= v@.subrange(0, k - 1));
        assert(v@.subrange(k - 1, v@.len() as int) =~= seq![v@[k - 1]] + v@.subrange(k as int, v@.len() as int));
        assert(after_last_dot(pre) == after_last_dot(pre.drop_last()).push(pre.last()));
        assert(after_last_dot(v@.subrange(0, k - 1)) + v@.subrange(k - 1, v@.len() as int)
            =~= after_last_dot(pre.drop_last()).push(pre.last()) + v@.subrange(k as int, v@.len() as int));
        k = k - 1;
    }
    proof {
        assert(v@.subrange(0, v@.len() as int) =~= v@);
        assert(after_last_dot(v@.subrange(0, 0)) =~= Seq::<char>::empty());
        if k > 0 {
            let pre = v@.subrange(0, k as int);
            assert(pre.last() == '.');
            assert(after_last_dot(pre) =~= Seq::<char>::empty());
        }
        assert(Seq::<char>::empty() + v@.subrange(k as int, v@.len() as int) =~= v@.subrange(k as int, v@.len() as int));
    }
    crate::text::string_of_range(&v, k, v.len())
}

/// The MIME type of a served file, from what follows the last `.` of its
/// lower-cased name.
pub fn detect_mime_type(path: &str) -> (r: &'static str)
    ensures
        r@ == mime_of(after_last_dot(unicode_lower(path@))),
{
    let lower = to_lowercase(path);
    let ext = after_last_dot_exec(lower.as_str());
    let e = ext.as_str();
    if str_eq(e, "png") { "image/png" }
    else if str_eq(e, "jpg") || str_eq(e, "jpeg") { "image/jpeg" }
    else if str_eq(e, "webp") { "image/webp" }
    else if str_eq(e, "gif") { "image/gif" }
    else if str_eq(e, "bmp") { "image/bmp" }
    else if str_eq(e, "svg") { "image/svg+xml" }
    else if str_eq(e, "tif") || str_eq(e, "tiff") { "image/tiff" }
    else if str_eq(e, "mp3") { "audio/mpeg" }
    else if str_eq(e, "wav") { "audio/wav" }
    else if str_eq(e, "ogg") { "audio/ogg" }
    else { "application/octet-stream" }
}

// ---------- a silent clip ----------

/// The sample rate of the probe clip (16 kHz, mono, 16-bit PCM).
pub const PROBE_SAMPLE_RATE: u32 = 16000;

/// `n` as four little-endian bytes.
pub open spec fn le32(n: nat) -> Seq<u8> {
    seq![(n % 256) as u8, ((n / 256) % 256) as u8, ((n / 65536) % 256) as u8, ((n / 16777216) % 256) as u8]
}

/// `n` as two little-endian bytes.
pub open spec fn le16(n: nat) -> Seq<u8> {
    seq![(n % 256) as u8, ((n / 256) % 256) as u8]
}

/// The bytes of a text tag.
pub open spec fn tag(s: Seq<char>) -> Seq<u8> {
    s.map_values(|c: char| c as u8)
}

/// A WAV file of `samples` silent samples at 16 kHz, mono, 16-bit: the
/// RIFF header, the format chunk, and a data chunk of zeros.
pub open spec fn silence_wav_bytes(samples: nat) -> Seq<u8> {
    let data_size = samples * 2;
    tag("RIFF"@) + le32(36 + data_size) + tag("WAVE"@) + tag("fmt "@) + le32(16) + le16(1) + le16(1)
        + le32(PROBE_SAMPLE_RATE as nat) + le32(PROBE_SAMPLE_RATE as nat * 2) + le16(2) + le16(16)
        + tag("data"@) + le32(data_size) + Seq::new(data_size, |i: int| 0u8)
}

fn push_le32(buf: &mut Vec<u8>, n: u32)
    ensures
        final(buf)@ == old(buf)@ + le32(n as nat),
{
    buf.push((n % 256) as u8);
    buf.push(((n / 256) % 256) as u8);
    buf.push(((n / 65536) % 256) as u8);
    buf.push(((n / 16777216) % 256) as u8);
    assert(final(buf)@ =~= old(buf)@ + le32(n as nat));
}

fn push_le16(buf: &mut Vec<u8>, n: u16)
    ensures
        final(buf)@ == old(buf)@ + le16(n as nat),
{
    buf.push((n % 256) as u8);
    buf.push(((n / 256) % 256) as u8);
    assert(final(buf)@ =~= old(buf)@ + le16(n as nat));
}

fn push_tag(buf: &mut Vec<u8>, a: u8, b: u8, c: u8, d: u8)
    ensures
        final(buf)@ == old(buf)@ + seq![a, b, c, d],
{
    buf.push(a);
    buf.push(b);
    buf.push(c);
    buf.push(d);
    assert(final(buf)@ =~= old(buf)@ + seq![a, b, c, d]);
}

/// A silent WAV clip of `samples` samples (the length the caller computes
/// from the seconds wanted), used to check that a service answers.
pub fn silence_wav(samples: u32) -> (r: Vec<u8>)
    requires
        samples <= (u32::MAX - 44) / 2,
    ensures
        r@ == silence_wav_bytes(samples as nat),
{
    let data_size: u32 = samples * 2;
    let mut buf: Vec<u8> = Vec::new();
    proof {
        reveal_strlit("RIFF");
        reveal_strlit("WAVE");
        reveal_strlit("fmt ");
        reveal_strlit("data");
        assert(tag("RIFF"@) =~= seq![82u8, 73u8, 70u8, 70u8]);
        assert(tag("WAVE"@) =~= seq![87u8, 65u8, 86u8, 69u8]);
        assert(tag("fmt "@) =~= seq![102u8, 109u8, 116u8, 32u8]);
        assert(tag("data"@) =~= seq![100u8, 97u8, 116u8, 97u8]);
    }
    push_tag(&mut buf, 82, 73, 70, 70);
    push_le32(&mut buf, 36 + data_size);
    push_tag(&mut buf, 87, 65, 86, 69);
    push_tag(&mut buf, 102, 109, 116, 32);
    push_le32(&mut buf, 16);
    push_le16(&mut buf, 1);
    push_le16(&mut buf, 1);
    push_le32(&mut buf, PROBE_SAMPLE_RATE);
    push_le32(&mut buf, PROBE_SAMPLE_RATE * 2);
    push_le16(&mut buf, 2);
    push_le16(&mut buf, 16);
    push_tag(&mut buf, 100, 97, 116, 97);
    push_le32(&mut buf, data_size);
    let ghost header = buf@;
    let mut i: u32 = 0;
    while i < data_size
        invariant
            i <= data_size,
            buf@ == header + Seq::new(i as nat, |k: int| 0u8),
        decreases data_size - i,
    {
        buf.push(0);
        assert(buf@ =~= header + Seq::new((i + 1) as nat, |k: int| 0u8));
        i = i + 1;
    }
    assert(buf@ =~= silence_wav_bytes(samples as nat));
    buf
}

/// The run-time state of speech recognition shown on the settings page:
/// whether the voice-activity model was loaded (a session exists only once
/// it loaded).
#[derive(Debug, Clone, Copy, PartialEq, Eq, Structural)]
pub struct AsrStatus {
    pub vad_loaded: bool,
}

} // verus!
