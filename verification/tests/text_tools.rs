use lingchat::adapters::{
    normalize_emo_label, normalize_emotion, text_with_emotion, trim_end_slashes, AivisAdapter, FishS2Adapter,
    IndexTtsAdapter, OpenTtsAdapter, Sbv2Adapter,
};
use lingchat::json::JsonValue;
use lingchat::notes::{
    add_note_args, delete_note, delete_note_args, update_note, update_note_args, Note, ToolError,
};
use lingchat::tool_text::{http_error_message, truncate_middle, truncate_output, MIDDLE_MARKER};
use lingchat::tools::{format_search_items, format_songs, BiliSearchItem, NetMusicSong, RegistryError};
use lingchat::translator::{
    apply_translation_result, collect_chinese_part, translator_system_prompt, EmotionSegment, Translator,
};
use lingchat::types::{GameMemoryBank, LlmMessage};

fn s(x: &str) -> JsonValue {
    JsonValue::Str(x.to_string())
}

fn obj(pairs: Vec<(&str, JsonValue)>) -> JsonValue {
    let mut v: Vec<(String, JsonValue)> = pairs.into_iter().map(|(k, x)| (k.to_string(), x)).collect();
    v.sort_by(|a, b| a.0.cmp(&b.0));
    JsonValue::Object(v)
}

fn invalid_message(e: ToolError) -> String {
    match e {
        ToolError::InvalidArguments(m) => m,
        ToolError::Execution(m) => panic!("expected invalid arguments, got execution error {m}"),
    }
}

// ---------- adapters ----------

#[test]
fn urls_lose_their_trailing_slashes() {
    assert_eq!(trim_end_slashes("http://host:1/api///"), "http://host:1/api");
    assert_eq!(trim_end_slashes("http://host"), "http://host");
    assert_eq!(trim_end_slashes("///"), "");
}

#[test]
fn aivis_needs_a_key() {
    let r = AivisAdapter::new("u".into(), None, "m".into(), None, "mp3".into(), "ja".into());
    assert_eq!(r.err(), Some("未设置 AIVIS API 密钥（请在设置中配置 tts.aivis_api_key）".to_string()));
    let r = AivisAdapter::new("u".into(), Some(String::new()), "m".into(), None, "mp3".into(), "ja".into());
    assert!(r.is_err());
    let a = AivisAdapter::new("http://x/".into(), Some("k".into()), "m".into(), None, "mp3".into(), "ja".into()).ok().unwrap();
    assert_eq!(a.api_url, "http://x");
    assert!(a.style_id.is_none());
}

#[test]
fn sbv2_maps_language_codes() {
    let a = Sbv2Adapter::new("http://x/".into(), 0, "m".into(), "wav".into(), "ja");
    assert_eq!(a.language, "JP");
    assert_eq!(a.api_url, "http://x");
    assert_eq!(Sbv2Adapter::new("u".into(), 0, "m".into(), "wav".into(), "zh").language, "ZH");
    assert_eq!(Sbv2Adapter::new("u".into(), 0, "m".into(), "wav".into(), "en").language, "EN");
    assert_eq!(Sbv2Adapter::new("u".into(), 0, "m".into(), "wav".into(), "fr").language, "fr");
}

#[test]
fn opentts_needs_key_then_voice() {
    let e = |k: &str, v: &str| OpenTtsAdapter::new("u".into(), k.into(), "m".into(), v.into(), "mp3".into(), "zh".into()).err();
    assert_eq!(e(" ", "v"), Some("未设置 OpenTTS API 密钥".to_string()));
    assert_eq!(e("k", " "), Some("未设置 OpenTTS voice".to_string()));
    assert_eq!(e("k", "v"), None);
}

#[test]
fn index_tts_defaults_to_local_presets() {
    let a = IndexTtsAdapter::default();
    assert_eq!(a.base_url, "http://127.0.0.1:23467/voice/indextts/presets");
    assert_eq!(a.audio_format, "wav");
    assert_eq!(normalize_emo_label(" 心动 "), "情动");
    assert_eq!(normalize_emo_label(" 高兴 "), "高兴");
}

#[test]
fn fish_s2_endpoint_and_emotions() {
    assert_eq!(FishS2Adapter::new(" ".into(), "v".into()).err(), Some("Fish S2 API URL is not configured".to_string()));
    assert_eq!(FishS2Adapter::new("u".into(), " ".into()).err(), Some("Fish S2 voice is not configured".to_string()));
    let a = FishS2Adapter::new("http://fish/".into(), " alice ".into()).ok().unwrap();
    assert_eq!(a.voice, "alice");
    assert_eq!(a.endpoint(), "http://fish/generate");
    let b = FishS2Adapter::new("http://fish/generate".into(), "v".into()).ok().unwrap();
    assert_eq!(b.endpoint(), "http://fish/generate");

    assert_eq!(normalize_emotion(" Happy "), Some("happy"));
    assert_eq!(normalize_emotion("心动"), Some("affectionate"));
    assert_eq!(normalize_emotion("unknown"), None);
    assert_eq!(text_with_emotion(" 你好 ", "sad"), "[sad]你好");
    assert_eq!(text_with_emotion("[calm]你好", "sad"), "[calm]你好");
    assert_eq!(text_with_emotion("你好", "???"), "你好");
}

// ---------- translator ----------

fn seg(zh: &str) -> EmotionSegment {
    EmotionSegment { following_text: zh.to_string(), japanese_text: String::new() }
}

#[test]
fn translation_prompt_exists_for_three_languages() {
    let ja = translator_system_prompt("ja").unwrap();
    assert!(ja.contains("日语"));
    assert!(translator_system_prompt("en").unwrap().contains("英语"));
    assert!(translator_system_prompt("ko").unwrap().contains("韩语"));
    assert!(translator_system_prompt("fr").is_none());
}

#[test]
fn chinese_parts_are_bracketed_in_order() {
    let segs = vec![seg("你好"), seg("再见")];
    assert_eq!(collect_chinese_part(&segs), "<你好><再见>");
}

#[test]
fn translation_pieces_fill_segments_in_order() {
    let mut segs = vec![seg("你好"), seg("再见"), seg("谢谢")];
    let n = apply_translation_result("<こんにちは> <さようなら>", &mut segs);
    assert_eq!(n, 2);
    assert_eq!(segs[0].japanese_text, "こんにちは");
    assert_eq!(segs[1].japanese_text, "さようなら");
    assert_eq!(segs[2].japanese_text, "");
}

#[test]
fn translation_request_needs_translation_on_or_a_script() {
    let t = Translator::new((), false);
    let segs = vec![seg("你好")];
    assert!(t.request(&segs, false, "ja").is_none());
    let (system, user) = t.request(&segs, true, "ja").unwrap();
    assert!(system.contains("日语"));
    assert_eq!(user, "<你好>");
    let on = Translator::new((), true);
    assert!(on.request(&segs, false, "fr").is_none());
    assert!(on.request(&segs, false, "en").is_some());
}

// ---------- messages and memory ----------

#[test]
fn message_constructors_set_role_and_content() {
    let m = LlmMessage::user("hi");
    assert_eq!(m.role, "user");
    assert_eq!(m.content, "hi");
    assert_eq!(LlmMessage::system("s").role, "system");
    assert_eq!(LlmMessage::assistant("a").role, "assistant");
    let r = LlmMessage::tool_result("call-1", "ok");
    assert_eq!(r.role, "tool");
    assert_eq!(r.tool_call_id.as_deref(), Some("call-1"));
}

#[test]
fn memory_bank_prompt_lists_sections_in_order() {
    let bank = GameMemoryBank::default();
    let text = bank.to_prompt_text();
    let user = text.find("暂无用户特征记录。").unwrap();
    let promises = text.find("暂无未完成的约定。").unwrap();
    let long = text.find("暂无长期关键经历。").unwrap();
    let short = text.find("暂无近期对话摘要。").unwrap();
    assert!(user < promises && promises < long && long < short);
    assert!(text.starts_with("\n\n====== 核心记忆库 (Memory Bank) ======\n【用户信息】："));
}

#[test]
fn add_note_arguments_are_checked() {
    let (content, tags) = add_note_args(&obj(vec![("content", s("生日是八月"))])).unwrap();
    assert_eq!(content, "生日是八月");
    assert!(tags.is_empty());
    let e = add_note_args(&obj(vec![])).unwrap_err();
    assert_eq!(invalid_message(e), "memory_add_note 需要 content");
    let e = add_note_args(&obj(vec![("content", s("  "))])).unwrap_err();
    assert_eq!(invalid_message(e), "memory_add_note 的 content 不能为空");
    let e = add_note_args(&s("x")).unwrap_err();
    assert_eq!(invalid_message(e), "memory_add_note 参数必须是 JSON object");
    let e = add_note_args(&obj(vec![("content", s("c")), ("tags", s("x"))])).unwrap_err();
    assert_eq!(invalid_message(e), "memory_add_note 的 tags 必须是字符串数组");
}

#[test]
fn update_and_delete_note_arguments_are_checked() {
    let e = update_note_args(&obj(vec![("id", s("n1"))])).unwrap_err();
    assert_eq!(invalid_message(e), "memory_update_note 至少需要 content/tags 中的一项");
    let (id, content, tags) = update_note_args(&obj(vec![("id", s("n1")), ("content", s("新内容"))])).unwrap();
    assert_eq!(id, "n1");
    assert_eq!(content.as_deref(), Some("新内容"));
    assert!(tags.is_none());
    let e = update_note_args(&obj(vec![("id", s("n1")), ("content", JsonValue::Bool(true))])).unwrap_err();
    assert_eq!(invalid_message(e), "memory_update_note 的 content 必须是字符串");
    assert_eq!(delete_note_args(&obj(vec![("id", s("n2"))])).unwrap(), "n2");
    let e = delete_note_args(&obj(vec![])).unwrap_err();
    assert_eq!(invalid_message(e), "memory_delete_note 需要 id");
}

fn note(id: &str, content: &str) -> Note {
    Note { id: id.into(), content: content.into(), tags: vec![], created_at: "t".into() }
}

#[test]
fn notes_are_updated_and_deleted_by_id() {
    let mut notes = vec![note("a", "1"), note("b", "2"), note("a", "3")];
    assert!(update_note(&mut notes, "a", Some("new".into()), None).is_ok());
    assert_eq!(notes[0].content, "new");
    assert_eq!(notes[2].content, "3");
    assert!(update_note(&mut notes, "zz", None, Some(vec!["t".into()])).is_err());
    assert!(delete_note(&mut notes, "a").is_ok());
    assert_eq!(notes.len(), 1);
    assert_eq!(notes[0].id, "b");
    match delete_note(&mut notes, "a") {
        Err(ToolError::Execution(m)) => assert_eq!(m, "笔记 a 不存在"),
        other => panic!("unexpected {:?}", other),
    }
}

// ---------- tool output ----------

#[test]
fn long_search_results_are_cut_with_a_note() {
    let mut t = "字".repeat(20_005);
    truncate_output(&mut t);
    assert!(t.ends_with("\n[...结果过长已截断]"));
    assert_eq!(t.chars().count(), 20_000 + "\n[...结果过长已截断]".chars().count());
    let mut short = "abc".to_string();
    truncate_output(&mut short);
    assert_eq!(short, "abc");
}

#[test]
fn background_output_keeps_both_ends() {
    let text = format!("HEAD{}TAIL", "x".repeat(100));
    let marker_len = MIDDLE_MARKER.chars().count();
    let (cut, truncated) = truncate_middle(&text, marker_len + 8);
    assert!(truncated);
    assert_eq!(cut, format!("HEAD{}TAIL", MIDDLE_MARKER));
    let (same, truncated) = truncate_middle("short", 100);
    assert!(!truncated);
    assert_eq!(same, "short");
}

#[test]
fn http_errors_explain_the_status() {
    assert_eq!(http_error_message(401, "401 Unauthorized", "x"), "搜索服务认证失败，请检查 API Key 是否正确（HTTP 401 Unauthorized）");
    assert_eq!(http_error_message(429, "429 Too Many Requests", "x"), "搜索服务请求过于频繁，请稍后再试（HTTP 429）");
    let body = "b".repeat(400);
    let m = http_error_message(500, "500 Internal Server Error", &body);
    assert_eq!(m, format!("搜索服务返回错误（HTTP 500 Internal Server Error）: {}", "b".repeat(300)));
}

#[test]
fn search_items_are_listed_for_the_model() {
    assert_eq!(format_search_items(&vec![]), "没有找到相关的 B站视频。");
    let item = BiliSearchItem {
        title: "标题".into(),
        up: "UP主".into(),
        play: 1234,
        like: 56,
        desc: String::new(),
        bvid: "BV1xx".into(),
    };
    assert_eq!(
        format_search_items(&vec![item]),
        "《标题》 UP: UP主 | 播放: 1234 | 赞: 56\n  简介: —\n  https://www.bilibili.com/video/BV1xx\n"
    );
}

#[test]
fn songs_show_minutes_and_seconds() {
    assert_eq!(format_songs(&vec![]), "没有找到相关歌曲。");
    let song = NetMusicSong {
        title: "歌".into(),
        artist: "人".into(),
        album: "专辑".into(),
        url: "http://m".into(),
        cover: String::new(),
        duration: 185,
    };
    assert_eq!(format_songs(&vec![song]), "《歌》 - 人 (专辑 | 3:05s)\n  链接: http://m\n");
}

#[test]
fn duplicate_tool_error_names_the_tool() {
    assert_eq!(RegistryError::DuplicateName("echo".into()).message(), "工具名称重复: echo");
}
