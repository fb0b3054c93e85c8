use lingchat::editor::{check_preview_start, first_chapter_events, script_skeleton_dirs, preview_script_name, LoadedScriptPath, PreviewStartInfo};
use lingchat::scene::{create_scene_record, CreateSceneRequest};
use lingchat::listing::path_key;
use lingchat::json::JsonValue;
use lingchat::media::AsrStatus;
use lingchat::roles::{default_avatar_path, find_emotion_file};

fn entries(items: &[(&str, bool)]) -> Vec<(String, bool)> {
    items.iter().map(|(n, b)| (n.to_string(), *b)).collect()
}

fn parts(items: &[&str]) -> Vec<String> {
    items.iter().map(|s| s.to_string()).collect()
}

#[test]
fn emotion_file_is_first_matching_image() {
    let exts = vec!["png", "webp", "jpg"];
    let es = entries(&[
        ("/a/开心.txt", true),
        ("/a/开心.PNG", false),
        ("/a/开心.JPG", true),
        ("/a/开心.png", true),
    ]);
    assert_eq!(find_emotion_file(&es, "开心", &exts), Some("/a/开心.JPG".to_string()));
    assert_eq!(find_emotion_file(&es, "难过", &exts), None);
}

#[test]
fn emotion_file_needs_a_known_extension() {
    let exts = vec!["png"];
    let es = entries(&[("/a/平静.gif", true), ("/a/平静", true)]);
    assert_eq!(find_emotion_file(&es, "平静", &exts), None);
}

#[test]
fn default_avatar_prefers_extension_order() {
    let es = entries(&[("头像.jpg", false), ("头像.webp", false), ("other.png", false)]);
    assert_eq!(default_avatar_path("/c/avatar", &es), "/c/avatar/头像.webp");
}

#[test]
fn default_avatar_falls_back_to_first_avatar_file() {
    let es = entries(&[("头像目录", true), ("x.png", false), ("头像_旧.tiff", false), ("头像2.tiff", false)]);
    assert_eq!(default_avatar_path("/c/avatar", &es), "/c/avatar/头像_旧.tiff");
}

#[test]
fn default_avatar_falls_back_to_folder() {
    let es = entries(&[("a.png", false)]);
    assert_eq!(default_avatar_path("/c/avatar", &es), "/c/avatar");
}

#[test]
fn path_key_takes_parts_after_scripts() {
    let p = parts(&["/", "data", "scripts", "character", "alice", "story"]);
    assert_eq!(path_key(&p, "/data/scripts/character/alice/story", "/"), "character/alice/story");
}

#[test]
fn path_key_is_empty_when_scripts_is_last() {
    let p = parts(&["/", "data", "scripts"]);
    assert_eq!(path_key(&p, "/data/scripts", "/"), "");
}

#[test]
fn path_key_uses_first_scripts_and_whole_path_otherwise() {
    let p = parts(&["scripts", "a", "scripts", "b"]);
    assert_eq!(path_key(&p, "scripts/a/scripts/b", "/"), "a/scripts/b");
    let q = parts(&["/", "data", "stories", "x"]);
    assert_eq!(path_key(&q, "/data/stories/x", "/"), "/data/stories/x");
}

#[test]
fn status_records_are_plain_values() {
    let s = AsrStatus { vad_loaded: true };
    assert!(s.vad_loaded);
    let p = PreviewStartInfo { generation: 7 };
    assert_eq!(p.generation, 7);
}

#[test]
fn new_scene_records_get_a_v4_id_and_one_timestamp() {
    let req: CreateSceneRequest<u8> = CreateSceneRequest {
        scene_name: "海边".to_string(),
        scene_description: "d".to_string(),
        background: "/x/bg/sea.png".to_string(),
        lighting: None,
    };
    let s = create_scene_record(req);
    let id: Vec<char> = s.id.chars().collect();
    assert_eq!(id.len(), 36);
    for (i, c) in id.iter().enumerate() {
        if [8, 13, 18, 23].contains(&i) {
            assert_eq!(*c, '-');
        } else {
            assert!(c.is_ascii_hexdigit() && !c.is_ascii_uppercase());
        }
    }
    assert_eq!(id[14], '4');
    assert!(['8', '9', 'a', 'b'].contains(&id[19]));
    assert_eq!(s.name, "海边");
    assert_eq!(s.background, "sea.png");
    assert_eq!(s.created_at, s.updated_at);
    assert!(s.created_at.contains('T'));
}

#[test]
fn preview_name_falls_back_to_the_folder() {
    assert_eq!(preview_script_name(Some("  海边故事 "), "sea"), "海边故事");
    assert_eq!(preview_script_name(Some("   "), "sea"), "sea");
    assert_eq!(preview_script_name(None, "sea"), "sea");
}

#[test]
fn preview_start_refusals_come_in_order() {
    let same = LoadedScriptPath { same_folder: true, shown_path: "/s/a".to_string() };
    let other = LoadedScriptPath { same_folder: false, shown_path: "/s/b".to_string() };
    assert_eq!(check_preview_start(true, "A", "/s/a", Some(&same)), Err("已经有剧本在运行，请先停止再试玩".to_string()));
    assert_eq!(
        check_preview_start(false, "A", "/s/a", None),
        Err("引擎里找不到剧本「A」。请先检查 story_config.yaml 的 script_name".to_string())
    );
    assert_eq!(
        check_preview_start(false, "A", "/s/a", Some(&other)),
        Err("剧本路径不匹配：请求 /s/a 但引擎返回的是 /s/b。可能原因：多个剧本的 story_config.yaml 里 script_name 重名，后扫的覆盖了前面的。".to_string())
    );
    assert_eq!(check_preview_start(false, "A", "/s/a", Some(&same)), Ok(()));
}

#[test]
fn new_script_packages_get_the_skeleton_and_an_opening_chapter() {
    assert_eq!(
        script_skeleton_dirs(),
        vec!["Chapters", "characters", "Assets/Backgrounds", "Assets/Musics", "Assets/Sounds", "Assets/Ambients", "Assets/Pics"]
    );
    let events = first_chapter_events();
    assert_eq!(events.len(), 2);
    let s = |v: &str| JsonValue::Str(v.to_string());
    assert_eq!(
        format!("{:?}", events[0]),
        format!("{:?}", JsonValue::Object(vec![("type".to_string(), s("narration")), ("text".to_string(), s("在这里写下第一句旁白。"))]))
    );
    assert_eq!(
        format!("{:?}", events[1]),
        format!("{:?}", JsonValue::Object(vec![
            ("type".to_string(), s("chapter_end")),
            ("end_type".to_string(), s("linear")),
            ("next_chapter".to_string(), s("end")),
        ]))
    );
}
