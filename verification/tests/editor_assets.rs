use lingchat::archive::{
    parse_format, parse_policy, role_folder_name, sanitize_file_name, sanitize_role_folder_name, ArchiveFormat,
    ConflictPolicy, ImportResult,
};
use lingchat::characters::{
    clothes_list, page_range, remove_legacy_voice_model_fields, ClothesItem,
};
use lingchat::editor::{
    allowed_extensions, asset_listing, asset_subdir, asset_subdir_candidates, chapter_group, chapter_summary,
    check_editor_bg_extension, check_script_folder_free, check_upload_extension, display_name_of,
    intro_chapter_or_main, key_last_segment, new_script_key, new_story_config, package_summary,
    script_name_or_folder, ScriptLayout,
};
use lingchat::json::JsonValue;
use lingchat::scene::{
    backgrounds_to_register, delete_scene_from, model_to_info, register_backgrounds, scene_from_request,
    to_background_filename, to_background_fullpath, update_scene_at, CreateSceneRequest, Scene,
    UpdateSceneRequest,
};
use lingchat::strmap::StrMap;
use lingchat::strset::StrSet;

fn s(x: &str) -> JsonValue {
    JsonValue::Str(x.to_string())
}

fn obj(pairs: Vec<(&str, JsonValue)>) -> JsonValue {
    let mut v: Vec<(String, JsonValue)> = pairs.into_iter().map(|(k, x)| (k.to_string(), x)).collect();
    v.sort_by(|a, b| a.0.cmp(&b.0));
    JsonValue::Object(v)
}

fn strings(items: &[&str]) -> Vec<String> {
    items.iter().map(|x| x.to_string()).collect()
}

// ---------- archives ----------

#[test]
fn archive_formats_and_policies_are_parsed() {
    assert_eq!(parse_format("zip"), Ok(ArchiveFormat::Zip));
    assert_eq!(parse_format("7z"), Ok(ArchiveFormat::SevenZ));
    assert_eq!(parse_format("rar"), Err("不支持的 format: rar".to_string()));
    assert_eq!(parse_policy("rename"), Ok(ConflictPolicy::Rename));
    assert_eq!(parse_policy("skip"), Ok(ConflictPolicy::Skip));
    assert_eq!(parse_policy("overwrite"), Ok(ConflictPolicy::Overwrite));
    assert_eq!(parse_policy("merge"), Err("不支持的 conflict: merge".to_string()));
}

#[test]
fn exported_file_names_are_safe() {
    assert_eq!(sanitize_file_name(" 灵灵: a/b? "), "灵灵_ a_b_");
    assert_eq!(sanitize_file_name("a\u{7}b"), "a_b");
    assert_eq!(sanitize_file_name("   "), "role");
}

#[test]
fn imported_role_folders_are_cleaned() {
    assert_eq!(role_folder_name(Some("Alice.ZIP"), None, 5), "Alice");
    assert_eq!(role_folder_name(Some("my role.7z"), None, 5), "myrole");
    assert_eq!(role_folder_name(Some("avatar"), Some("Bob-2"), 5), "Bob-2");
    assert_eq!(role_folder_name(Some(".hidden"), None, 42), "role_42");
    assert_eq!(role_folder_name(None, Some("__MACOSX"), 7), "MACOSX");
    assert_eq!(role_folder_name(Some("!!!"), Some("???"), 0), "role_0");
    let stamped = sanitize_role_folder_name(Some("$$$"), None);
    assert!(stamped.starts_with("role_"));
    assert!(stamped["role_".len()..].chars().all(|c| c.is_ascii_digit()));
    assert_eq!(sanitize_role_folder_name(Some("Carol.zip"), None), "Carol");
}

#[test]
fn skipped_import_reports_nothing_extracted() {
    let r = ImportResult::skipped("alice".to_string());
    assert_eq!(r.conflict_action, "skipped");
    assert_eq!(r.role_name, "alice");
    assert_eq!(r.bytes_extracted, 0);
    assert!(r.role_id.is_none() && r.warnings.is_empty());
}

// ---------- editor assets ----------

#[test]
fn asset_extensions_split_image_and_audio() {
    assert!(allowed_extensions("background").contains(&"png"));
    assert!(allowed_extensions("pic").contains(&"webp"));
    assert!(!allowed_extensions("background").contains(&"mp3"));
    for k in ["music", "sound", "ambient"] {
        assert!(allowed_extensions(k).contains(&"mp3"), "{}", k);
        assert!(!allowed_extensions(k).contains(&"png"), "{}", k);
    }
}

#[test]
fn asset_folders_follow_the_engine_search_order() {
    assert_eq!(asset_subdir_candidates("music"), vec!["Musics", "BGMs", "Music", "BGM"]);
    assert!(asset_subdir_candidates("video").is_empty());
    assert_eq!(asset_subdir("ambient"), Ok("Ambients"));
    assert_eq!(asset_subdir("video"), Err("未知素材类别: video".to_string()));
}

#[test]
fn uploads_are_checked_by_extension() {
    assert!(check_upload_extension("bg.PNG", "background").is_ok());
    assert_eq!(
        check_upload_extension("song.png", "music"),
        Err("不支持的文件类型 .png；music 支持: mp3 / wav / ogg / flac / m4a".to_string())
    );
    assert_eq!(
        check_upload_extension("noext", "pic"),
        Err("不支持的文件类型 .；pic 支持: png / jpg / jpeg / webp / bmp / gif".to_string())
    );
    assert!(check_editor_bg_extension("/tmp/wall.webp").is_ok());
    assert_eq!(
        check_editor_bg_extension("/tmp/wall.svg"),
        Err("不支持的文件类型 .svg；背景图支持: png / jpg / jpeg / webp / bmp / gif".to_string())
    );
}

#[test]
fn asset_listing_is_sorted_unique_and_hides_dotfiles() {
    let names = strings(&["b.png", ".DS_Store", "a.png", "b.png"]);
    assert_eq!(asset_listing(&names), strings(&["a.png", "b.png"]));
}

// ---------- script packages ----------

#[test]
fn chapter_ids_group_by_folder() {
    assert_eq!(chapter_group("act1/intro"), Some("act1".to_string()));
    assert_eq!(chapter_group("a/b/c"), Some("a/b".to_string()));
    assert_eq!(chapter_group("main"), None);
    let c = chapter_summary("act1/intro".to_string(), None, 3);
    assert_eq!(c.group.as_deref(), Some("act1"));
    assert_eq!(c.event_count, 3);
    assert_eq!(key_last_segment("character/alice/summer"), "summer");
    assert_eq!(key_last_segment("solo"), "solo");
}

#[test]
fn package_summary_reads_the_story_config() {
    let mut loaded = StrSet::new();
    loaded.insert("夏日");
    let cfg = obj(vec![
        ("script_name", s("  夏日 ")),
        ("description", s("desc")),
        ("adventure", obj(vec![("is_adventure", JsonValue::Bool(true)), ("bound_character_folder", s("bob"))])),
    ]);
    let p = package_summary("standalone/summer", ScriptLayout::Standalone, &cfg, "summer", &loaded, 4);
    assert_eq!(p.script_name, "夏日");
    assert_eq!(p.description, "desc");
    assert!(p.is_adventure);
    assert_eq!(p.bound_character_folder.as_deref(), Some("bob"));
    assert!(p.loaded_by_engine);
    assert_eq!(p.chapter_count, 4);

    let p = package_summary("character/alice/summer", ScriptLayout::Character, &obj(vec![]), "summer", &loaded, 0);
    assert_eq!(p.script_name, "summer");
    assert_eq!(p.description, "");
    assert!(!p.is_adventure);
    assert_eq!(p.bound_character_folder.as_deref(), Some("alice"));
    assert!(!p.loaded_by_engine);

    // a standalone script that is no adventure is bound to nobody
    let cfg = obj(vec![("adventure", obj(vec![("bound_character_folder", s("bob"))]))]);
    let p = package_summary("standalone/x", ScriptLayout::Standalone, &cfg, "x", &loaded, 0);
    assert!(p.bound_character_folder.is_none());
}

#[test]
fn character_names_fall_back_to_ai_name_then_folder() {
    assert_eq!(display_name_of(&obj(vec![("name", s(" 灵 ")), ("ai_name", s("x"))]), "f"), "灵");
    assert_eq!(display_name_of(&obj(vec![("name", s(" ")), ("ai_name", s(" 玲 "))]), "f"), "玲");
    assert_eq!(display_name_of(&JsonValue::Null, "folder"), "folder");
}

#[test]
fn new_scripts_get_keys_names_and_configs() {
    assert_eq!(new_script_key("summer", None), "standalone/summer");
    assert_eq!(new_script_key("summer", Some("alice")), "character/alice/summer");
    let existing = strings(&["standalone/summer", "character/bob/winter"]);
    assert_eq!(
        check_script_folder_free(&existing, "winter"),
        Err("已存在同名剧本目录「winter」，剧本名不能重名哦".to_string())
    );
    assert!(check_script_folder_free(&existing, "autumn").is_ok());
    assert_eq!(script_name_or_folder("  ", "summer"), "summer");
    assert_eq!(script_name_or_folder(" 夏 ", "summer"), "夏");
    assert_eq!(intro_chapter_or_main(""), "main");
    assert_eq!(intro_chapter_or_main(" act1/start "), "act1/start");

    let cfg = new_story_config("夏", "main", " d ", Some(" alice "));
    let JsonValue::Object(m) = cfg else { panic!("not an object") };
    let keys: Vec<&str> = m.iter().map(|(k, _)| k.as_str()).collect();
    assert_eq!(keys, vec!["adventure", "description", "intro_chapter", "recommand_start", "script_name", "script_settings"]);
    match &m[1].1 {
        JsonValue::Str(d) => assert_eq!(d, "d"),
        other => panic!("unexpected {:?}", other),
    }
    match &m[0].1 {
        JsonValue::Object(adv) => {
            let k: Vec<&str> = adv.iter().map(|(k, _)| k.as_str()).collect();
            assert_eq!(k, vec!["bound_character_folder", "is_adventure", "order", "unlock_conditions"]);
            assert!(matches!(&adv[0].1, JsonValue::Str(b) if b == "alice"));
            assert!(matches!(&adv[2].1, JsonValue::Number(Some(0), true)));
        },
        other => panic!("unexpected {:?}", other),
    }
    let JsonValue::Object(plain) = new_story_config("夏", "main", "", None) else { panic!("not an object") };
    assert_eq!(plain.len(), 5);
}

// ---------- scenes ----------

fn scene(id: &str, bg: &str) -> Scene<u8> {
    Scene {
        id: id.into(),
        name: format!("scene {id}"),
        description: String::new(),
        background: bg.into(),
        lighting: Some(1),
        created_at: "t0".into(),
        updated_at: "t0".into(),
    }
}

#[test]
fn backgrounds_are_stored_by_file_name() {
    assert_eq!(to_background_filename(""), "");
    assert_eq!(to_background_filename("/data/backgrounds/sea.png"), "sea.png");
    assert_eq!(to_background_filename("sea.png"), "sea.png");
    assert_eq!(to_background_fullpath("/bg", ""), "");
    assert_eq!(to_background_fullpath("/bg", "/old/path/sea.png"), "/bg/sea.png");
}

#[test]
fn scene_info_resolves_the_background() {
    let info = model_to_info(scene("a", "sea.png"), "/bg");
    assert_eq!(info.background.as_deref(), Some("/bg/sea.png"));
    assert_eq!(info.lighting, Some(1));
    let info = model_to_info(scene("b", ""), "/bg");
    assert!(info.background.is_none());
}

#[test]
fn new_scenes_keep_only_the_file_name() {
    let req = CreateSceneRequest { scene_name: "海".into(), scene_description: "d".into(), background: "/x/sea.png".into(), lighting: Some(3u8) };
    let sc = scene_from_request("id1".into(), "now".into(), req);
    assert_eq!(sc.background, "sea.png");
    assert_eq!(sc.created_at, "now");
    assert_eq!(sc.updated_at, "now");
    assert_eq!(sc.lighting, Some(3));
}

#[test]
fn updating_a_scene_touches_only_that_scene() {
    let mut scenes = vec![scene("a", "1.png"), scene("b", "2.png")];
    let req = UpdateSceneRequest { id: "b".into(), scene_name: "新".into(), scene_description: "d".into(), background: "/p/3.png".into(), lighting: None };
    assert_eq!(update_scene_at(&mut scenes, req, "t1".into()), Ok(1));
    assert_eq!(scenes[1].name, "新");
    assert_eq!(scenes[1].background, "3.png");
    assert_eq!(scenes[1].created_at, "t0");
    assert_eq!(scenes[1].updated_at, "t1");
    assert_eq!(scenes[0].name, "scene a");
    let req = UpdateSceneRequest { id: "zz".into(), scene_name: "x".into(), scene_description: "".into(), background: "".into(), lighting: None };
    assert_eq!(update_scene_at(&mut scenes, req, "t2".into()), Err("场景 zz 不存在".to_string()));
}

#[test]
fn deleting_a_scene_removes_every_copy_of_its_id() {
    let mut scenes = vec![scene("a", "1.png"), scene("b", "2.png"), scene("a", "3.png")];
    assert!(delete_scene_from(&mut scenes, "a").is_ok());
    assert_eq!(scenes.len(), 1);
    assert_eq!(scenes[0].id, "b");
    assert_eq!(delete_scene_from(&mut scenes, "a"), Err("场景 a 不存在".to_string()));
    assert_eq!(scenes.len(), 1);
}

#[test]
fn unused_images_of_the_folder_become_scenes() {
    let mut scenes = vec![scene("a", "used.png")];
    let files = strings(&["used.png", "new.JPG", "notes.txt", "more.webp"]);
    assert_eq!(backgrounds_to_register(&scenes, &files), strings(&["new.JPG", "more.webp"]));
    assert!(register_backgrounds(&mut scenes, &files));
    assert_eq!(scenes.len(), 3);
    assert_eq!(scenes[1].name, "new");
    assert_eq!(scenes[1].background, "new.JPG");
    assert_eq!(scenes[1].id.len(), 36);
    assert_eq!(scenes[2].name, "more");
    assert!(scenes[2].lighting.is_none());
    assert!(!register_backgrounds(&mut scenes, &files));
}

// ---------- characters ----------

#[test]
fn legacy_voice_fields_are_dropped() {
    let mut extra: StrMap<JsonValue> = StrMap::new();
    extra.insert("sbv2_name", s("x"));
    extra.insert("fish_s2_voice", s("y"));
    extra.insert("mood", s("keep"));
    remove_legacy_voice_model_fields(&mut extra);
    assert_eq!(extra.keys(), strings(&["mood"]));
}

#[test]
fn pages_are_clamped_to_the_list() {
    assert_eq!(page_range(25, 1, 10), (0, 10));
    assert_eq!(page_range(25, 3, 10), (20, 25));
    assert_eq!(page_range(25, 9, 10), (25, 25));
    assert_eq!(page_range(25, 0, 10), (0, 10));
}

fn item(title: &str, avatar: &str) -> ClothesItem {
    ClothesItem { title: title.into(), avatar: avatar.into() }
}

fn titles(v: &[ClothesItem]) -> Vec<(String, String)> {
    v.iter().map(|c| (c.title.clone(), c.avatar.clone())).collect()
}

#[test]
fn outfits_come_from_the_avatar_folder() {
    let none = clothes_list(false, None, vec![], Some("f".into()));
    assert_eq!(titles(&none), vec![("默认".to_string(), String::new())]);
    let some = clothes_list(true, Some("root.png".into()), vec![item("夏装", "s.png")], None);
    assert_eq!(titles(&some), vec![("默认".to_string(), "root.png".to_string()), ("夏装".to_string(), "s.png".to_string())]);
    let fallback = clothes_list(true, None, vec![], Some("头像.png".into()));
    assert_eq!(titles(&fallback), vec![("默认".to_string(), "头像.png".to_string())]);
}
