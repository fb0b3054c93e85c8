//! The chat tools as values, the text they hand the model, and the
//! translator's prompts and parsing.
use vstd::prelude::*;
use crate::text::{owned, cat, cat3, decimal, decimal_u64, chars_of, string_of_range, find, find_str, str_eq};

verus! {

// ---------- tools that only need the application ----------

/// `character_list`: the characters the user can switch to.
pub struct CharacterList;
/// `character_switch`: switches the current character.
pub struct CharacterSwitch;
/// `get_current_time`.
pub struct CurrentTimeTool;
/// `scene_list`: the scenes (backgrounds).
pub struct SceneList;
/// `scene_switch`: switches the background.
pub struct SceneSwitch;
/// `status_get_current`: the current game status.
pub struct CurrentStatus;
/// `status_get_scene`: the current scene.
pub struct SceneStatus;
/// `list_skills`.
pub struct ListSkills;
/// `read_skill`.
pub struct ReadSkill;

/// `delete_file`, which asks the user before deleting unless the settings say not to.
pub struct DeleteFile<S> {
    pub settings: S,
}

impl<S> DeleteFile<S> {
    pub fn new(settings: S) -> (r: Self)
        ensures
            r.settings == settings,
    {
        DeleteFile { settings }
    }
}

/// `execute_command`, which asks the user before running unless the settings say not to.
pub struct ExecuteCommand<S> {
    pub settings: S,
}

impl<S> ExecuteCommand<S> {
    pub fn new(settings: S) -> (r: Self)
        ensures
            r.settings == settings,
    {
        ExecuteCommand { settings }
    }
}

/// Why a tool could not be registered.
pub enum RegistryError {
    /// A tool of that name is registered already.
    DuplicateName(String),
}

pub const MSG_DUPLICATE_TOOL: &'static str = "工具名称重复: ";

impl RegistryError {
    /// The error as text.
    pub fn message(&self) -> (r: String)
        ensures
            match *self {
                RegistryError::DuplicateName(n) => r@ == MSG_DUPLICATE_TOOL@ + n@,
            },
    {
        match self {
            RegistryError::DuplicateName(n) => cat(MSG_DUPLICATE_TOOL, n.as_str()),
        }
    }
}

// ---------- Bilibili ----------

/// `bilibili_search`.
pub struct BiliSearchTool;

/// `bilibili_learn_video`, which keeps what it learns under the data folder.
pub struct BiliLearnTool {
    pub data_dir: String,
}

/// `bilibili_knowledge`, which reads what was learned.
pub struct BiliKnowledgeTool {
    pub data_dir: String,
}

impl BiliSearchTool {
    pub fn new() -> (r: Self) {
        BiliSearchTool
    }
}

impl BiliLearnTool {
    pub fn new(data_dir: String) -> (r: Self)
        ensures
            r.data_dir == data_dir,
    {
        BiliLearnTool { data_dir }
    }
}

impl BiliKnowledgeTool {
    pub fn new(data_dir: String) -> (r: Self)
        ensures
            r.data_dir == data_dir,
    {
        BiliKnowledgeTool { data_dir }
    }
}

/// One video of a Bilibili search.
pub struct BiliSearchItem {
    pub title: String,
    pub up: String,
    pub play: u64,
    pub like: u64,
    pub desc: String,
    pub bvid: String,
}

/// One video of the learning library.
pub struct BiliVideo {
    pub title: String,
    pub up: String,
    pub tname: String,
    pub repeat_danmaku: String,
    pub top_comments: String,
    pub learned_at: String,
}

pub const NO_VIDEOS_FOUND: &'static str = "没有找到相关的 B站视频。";
pub const LIBRARY_EMPTY: &'static str = "学习库还是空的，可以让用户提供 bvid，或先用 bilibili_learn_video 学习热门视频。";
pub const DASH: &'static str = "—";

/// `s`, or a dash when it is empty.
pub open spec fn or_dash(s: Seq<char>) -> Seq<char> {
    if s.len() == 0 { DASH@ } else { s }
}

fn or_dash_exec(s: &str) -> (r: String)
    ensures
        r@ == or_dash(s@),
{
    if crate::validate::is_empty_str(s) { owned(DASH) } else { owned(s) }
}

/// One search result as text.
pub open spec fn search_item_text(it: BiliSearchItem) -> Seq<char> {
    "《"@ + it.title@ + "》 UP: "@ + it.up@ + " | 播放: "@ + decimal(it.play as nat) + " | 赞: "@ + decimal(it.like as nat)
        + "\n  简介: "@ + or_dash(it.desc@) + "\n  https://www.bilibili.com/video/"@ + it.bvid@ + "\n"@
}

/// Search results as text for the model.
pub open spec fn search_items_text(items: Seq<BiliSearchItem>) -> Seq<char>
    decreases items.len(),
{
    if items.len() == 0 { Seq::empty() } else { search_items_text(items.drop_last()) + search_item_text(items.last()) }
}

fn search_item_line(it: &BiliSearchItem) -> (r: String)
    ensures
        r@ == search_item_text(*it),
{
    let mut out = cat3("《", it.title.as_str(), "》 UP: ");
    out.append(it.up.as_str());
    out.append(" | 播放: ");
    out.append(decimal_u64(it.play).as_str());
    out.append(" | 赞: ");
    out.append(decimal_u64(it.like).as_str());
    out.append("\n  简介: ");
    out.append(or_dash_exec(it.desc.as_str()).as_str());
    out.append("\n  https://www.bilibili.com/video/");
    out.append(it.bvid.as_str());
    out.append("\n");
    out
}

/// Bilibili search results as text for the model (a note when there are none).
pub fn format_search_items(items: &Vec<BiliSearchItem>) -> (r: String)
    ensures
        r@ == if items@.len() == 0 { NO_VIDEOS_FOUND@ } else { search_items_text(items@) },
{
    if items.len() == 0 {
        return owned(NO_VIDEOS_FOUND);
    }
    let mut out = String::new();
    let mut i: usize = 0;
    proof {
        assert(items@.subrange(0, 0) =~= Seq::<BiliSearchItem>::empty());
    }
    while i < items.len()
        invariant
            i <= items@.len(),
            out@ == search_items_text(items@.subrange(0, i as int)),
        decreases items@.len() - i,
    {
        let it = &items[i];
        let line = search_item_line(it);
        out.append(line.as_str());
        proof {
            assert(items@.subrange(0, i + 1).drop_last() =~= items@.subrange(0, i as int));
            assert(items@.subrange(0, i + 1).last() == *it);
            assert(out@ =~= search_items_text(items@.subrange(0, i + 1)));
        }
        i = i + 1;
    }
    proof {
        assert(items@.subrange(0, items@.len() as int) =~= items@);
    }
    out
}

/// One learned video as text.
pub open spec fn video_text(v: BiliVideo) -> Seq<char> {
    "《"@ + v.title@ + "》(UP: "@ + v.up@ + ") 分区: "@ + v.tname@ + " | 弹幕梗: "@ + or_dash(v.repeat_danmaku@)
        + " | 高赞评论: "@ + or_dash(v.top_comments@) + " | 学到时间: "@ + v.learned_at@ + "\n"@
}

/// Learned videos as text.
pub open spec fn videos_text(vs: Seq<BiliVideo>) -> Seq<char>
    decreases vs.len(),
{
    if vs.len() == 0 { Seq::empty() } else { videos_text(vs.drop_last()) + video_text(vs.last()) }
}

fn video_line(v: &BiliVideo) -> (r: String)
    ensures
        r@ == video_text(*v),
{
    let mut out = cat3("《", v.title.as_str(), "》(UP: ");
    out.append(v.up.as_str());
    out.append(") 分区: ");
    out.append(v.tname.as_str());
    out.append(" | 弹幕梗: ");
    out.append(or_dash_exec(v.repeat_danmaku.as_str()).as_str());
    out.append(" | 高赞评论: ");
    out.append(or_dash_exec(v.top_comments.as_str()).as_str());
    out.append(" | 学到时间: ");
    out.append(v.learned_at.as_str());
    out.append("\n");
    out
}

/// The learning library as text for the model (a hint when it is empty).
pub fn format_videos(videos: &Vec<BiliVideo>) -> (r: String)
    ensures
        r@ == if videos@.len() == 0 { LIBRARY_EMPTY@ } else { videos_text(videos@) },
{
    if videos.len() == 0 {
        return owned(LIBRARY_EMPTY);
    }
    let mut out = String::new();
    let mut i: usize = 0;
    proof {
        assert(videos@.subrange(0, 0) =~= Seq::<BiliVideo>::empty());
    }
    while i < videos.len()
        invariant
            i <= videos@.len(),
            out@ == videos_text(videos@.subrange(0, i as int)),
        decreases videos@.len() - i,
    {
        let v = &videos[i];
        let line = video_line(v);
        out.append(line.as_str());
        proof {
            assert(videos@.subrange(0, i + 1).drop_last() =~= videos@.subrange(0, i as int));
            assert(videos@.subrange(0, i + 1).last() == *v);
            assert(out@ =~= videos_text(videos@.subrange(0, i + 1)));
        }
        i = i + 1;
    }
    proof {
        assert(videos@.subrange(0, videos@.len() as int) =~= videos@);
    }
    out
}

// ---------- NetEase music ----------

/// `netmusic_search`.
pub struct NetMusicSearchTool;

/// `netmusic_recommend`: songs by mood.
pub struct NetMusicRecommendTool;

impl NetMusicSearchTool {
    pub fn new() -> (r: Self) {
        NetMusicSearchTool
    }
}

impl NetMusicRecommendTool {
    pub fn new() -> (r: Self) {
        NetMusicRecommendTool
    }
}

/// A song of the music service.
pub struct NetMusicSong {
    pub title: String,
    pub artist: String,
    pub album: String,
    pub url: String,
    pub cover: String,
    /// Seconds; 0 when unknown.
    pub duration: u64,
}

pub const NO_SONGS_FOUND: &'static str = "没有找到相关歌曲。";

/// Two digits of a number below 100, zero-padded (`{:02}`).
pub open spec fn two_digits(n: nat) -> Seq<char> {
    if n < 10 { "0"@ + decimal(n) } else { decimal(n) }
}

/// A duration as `m:ss`, or a dash when it is unknown.
pub open spec fn duration_text(d: nat) -> Seq<char> {
    if d > 0 { decimal(d / 60) + ":"@ + two_digits(d % 60) } else { DASH@ }
}

/// One song as text.
pub open spec fn song_text(s: NetMusicSong) -> Seq<char> {
    "《"@ + s.title@ + "》 - "@ + s.artist@ + " ("@ + s.album@ + " | "@ + duration_text(s.duration as nat) + "s)\n  链接: "@
        + s.url@ + "\n"@
}

/// Songs as text.
pub open spec fn songs_text(ss: Seq<NetMusicSong>) -> Seq<char>
    decreases ss.len(),
{
    if ss.len() == 0 { Seq::empty() } else { songs_text(ss.drop_last()) + song_text(ss.last()) }
}

fn duration_exec(d: u64) -> (r: String)
    ensures
        r@ == duration_text(d as nat),
{
    if d > 0 {
        let mut r = decimal_u64(d / 60);
        r.append(":");
        let sec = d % 60;
        if sec < 10 {
            r.append("0");
        }
        r.append(decimal_u64(sec).as_str());
        r
    } else {
        owned(DASH)
    }
}

fn song_line(s: &NetMusicSong) -> (r: String)
    ensures
        r@ == song_text(*s),
{
    let mut out = cat3("《", s.title.as_str(), "》 - ");
    out.append(s.artist.as_str());
    out.append(" (");
    out.append(s.album.as_str());
    out.append(" | ");
    out.append(duration_exec(s.duration).as_str());
    out.append("s)\n  链接: ");
    out.append(s.url.as_str());
    out.append("\n");
    out
}

/// Songs as text for the model (a note when there are none).
pub fn format_songs(songs: &Vec<NetMusicSong>) -> (r: String)
    ensures
        r@ == if songs@.len() == 0 { NO_SONGS_FOUND@ } else { songs_text(songs@) },
{
    if songs.len() == 0 {
        return owned(NO_SONGS_FOUND);
    }
    let mut out = String::new();
    let mut i: usize = 0;
    proof {
        assert(songs@.subrange(0, 0) =~= Seq::<NetMusicSong>::empty());
    }
    while i < songs.len()
        invariant
            i <= songs@.len(),
            out@ == songs_text(songs@.subrange(0, i as int)),
        decreases songs@.len() - i,
    {
        let s = &songs[i];
        let line = song_line(s);
        out.append(line.as_str());
        proof {
            assert(songs@.subrange(0, i + 1).drop_last() =~= songs@.subrange(0, i as int));
            assert(songs@.subrange(0, i + 1).last() == *s);
            assert(out@ =~= songs_text(songs@.subrange(0, i + 1)));
        }
        i = i + 1;
    }
    proof {
        assert(songs@.subrange(0, songs@.len() as int) =~= songs@);
    }
    out
}

} // verus!
