use lingchat::editor::{bound_character_folder, preview_readiness, AssetScope};
use lingchat::json::JsonValue;
use lingchat::listing::{
    ambient_item, asset_file_index, asset_files, background_item, font_families, global_characters, imported_fonts,
    outfit_folders, script_list, stable_order, AssetEntry, CharacterFolder, ScriptEntry, ScriptSummary,
};
use lingchat::notes::role_not_loaded;
use lingchat::strset::StrSet;

fn s(x: &str) -> JsonValue {
    JsonValue::Str(x.to_string())
}

fn obj(pairs: Vec<(&str, JsonValue)>) -> JsonValue {
    let mut v: Vec<(String, JsonValue)> = pairs.into_iter().map(|(k, x)| (k.to_string(), x)).collect();
    v.sort_by(|a, b| a.0.cmp(&b.0));
    JsonValue::Object(v)
}

fn strings(items: &[&str]) -> Vec<String> {
    items.iter().map(|x| x.to_string()).collect()
}

#[test]
fn stable_order_sorts_and_keeps_ties_in_order() {
    assert_eq!(stable_order(&strings(&["b", "a", "b", "a"])), vec![1, 3, 0, 2]);
    assert_eq!(stable_order(&strings(&[])), Vec::<usize>::new());
    assert_eq!(stable_order(&strings(&["Z", "a"])), vec![0, 1]);
}

#[test]
fn backgrounds_and_ambient_sounds_are_filtered_by_type() {
    let b = background_item("/bg/Sea.PNG", true, "12.5".to_string()).unwrap();
    assert_eq!(b.title, "Sea");
    assert_eq!(b.url, "/bg/Sea.PNG");
    assert_eq!(b.time, "12.5");
    assert!(background_item("/bg/notes.txt", true, "0".to_string()).is_none());
    assert!(background_item("/bg/dir.png", false, "0".to_string()).is_none());
    assert!(background_item("/bg/noext", true, "0".to_string()).is_none());
    let a = ambient_item("/amb/rain.ogg", true, "3".to_string()).unwrap();
    assert_eq!(a.name, "rain");
    assert!(ambient_item("/amb/rain.png", true, "3".to_string()).is_none());
}

#[test]
fn imported_fonts_are_listed_by_name() {
    let entries = vec![
        ("/f/zeta.ttf".to_string(), true),
        ("/f/Alpha.WOFF2".to_string(), true),
        ("/f/readme.txt".to_string(), true),
        ("/f/beta.ttf".to_string(), false),
        ("/f/alpha.ttf".to_string(), true),
    ];
    let fonts = imported_fonts(&entries);
    let names: Vec<&str> = fonts.iter().map(|f| f.name.as_str()).collect();
    assert_eq!(names, vec!["Alpha", "alpha", "zeta"]);
    assert_eq!(fonts[0].file_name, "Alpha.WOFF2");
    assert_eq!(fonts[0].file_path, "/f/Alpha.WOFF2");
}

#[test]
fn system_font_families_are_deduplicated() {
    let names = strings(&["Arial", "", "arial", "Consolas", "ARIAL", "bahnschrift"]);
    let families = font_families(&names);
    let got: Vec<&str> = families.iter().map(|f| f.name.as_str()).collect();
    assert_eq!(got, vec!["Arial", "bahnschrift", "Consolas"]);
}

fn entry(name: &str, is_file: bool) -> AssetEntry {
    AssetEntry { name: name.to_string(), path: format!("/a/{}", name), size: name.len() as u64, is_file }
}

#[test]
fn asset_files_are_listed_once_by_name() {
    let entries = vec![
        entry("b.png", true),
        entry(".hidden.png", true),
        entry("a.mp3", true),
        entry("a.JPG", true),
        entry("b.png", true),
        entry("dir.png", false),
    ];
    let files = asset_files("background", &entries);
    let names: Vec<&str> = files.iter().map(|f| f.name.as_str()).collect();
    assert_eq!(names, vec!["a.JPG", "b.png"]);
    assert_eq!(files[1].path, "/a/b.png");
    assert_eq!(files[1].size, 5);

    let music = vec![entry("x.mp3", true), entry("y.png", true)];
    let index = asset_file_index(AssetScope::Global, &vec![], &music, &music, &vec![], &vec![]);
    assert_eq!(index.music.len(), 1);
    assert!(index.sound.is_empty());
    let index = asset_file_index(AssetScope::Script, &vec![], &vec![], &music, &vec![], &vec![]);
    assert_eq!(index.sound.len(), 1);
}

#[test]
fn global_characters_are_listed_by_folder() {
    let folders = vec![
        CharacterFolder {
            folder: "zed".to_string(),
            is_dir: true,
            settings: obj(vec![("ai_name", s(" Zed "))]),
            has_avatar: true,
            avatar_entries: vec![("swim".to_string(), true), ("a.png".to_string(), false), ("casual".to_string(), true)],
        },
        CharacterFolder {
            folder: ".trash".to_string(),
            is_dir: true,
            settings: JsonValue::Null,
            has_avatar: false,
            avatar_entries: vec![],
        },
        CharacterFolder {
            folder: "amy".to_string(),
            is_dir: true,
            settings: obj(vec![("name", s("Amy")), ("ai_name", s("A"))]),
            has_avatar: false,
            avatar_entries: vec![],
        },
        CharacterFolder {
            folder: "file.txt".to_string(),
            is_dir: false,
            settings: JsonValue::Null,
            has_avatar: false,
            avatar_entries: vec![],
        },
    ];
    let mut existing = StrSet::new();
    existing.insert("zed");
    let list = global_characters(&folders, &existing);
    assert_eq!(list.len(), 2);
    assert_eq!(list[0].folder, "amy");
    assert_eq!(list[0].ai_name, "Amy");
    assert!(!list[0].already_in_script);
    assert_eq!(list[1].folder, "zed");
    assert_eq!(list[1].ai_name, "Zed");
    assert!(list[1].already_in_script);
    assert!(list[1].has_avatar);
    assert_eq!(list[1].clothes, strings(&["casual", "swim"]));
    assert_eq!(outfit_folders(&vec![("b".to_string(), true), ("a".to_string(), true)]), strings(&["a", "b"]));
}

#[test]
fn preview_needs_a_main_role() {
    let cfg = obj(vec![("adventure", obj(vec![("bound_character_folder", s("  ling "))]))]);
    assert_eq!(bound_character_folder(&cfg), "ling");
    assert_eq!(bound_character_folder(&obj(vec![])), "");

    let ready = preview_readiness("ling".to_string(), Some((4, Some("灵灵".to_string()), "阿杰".to_string())));
    assert!(ready.ok);
    assert_eq!(ready.main_role_id, Some(4));
    assert_eq!(ready.user_name, "阿杰");
    assert!(ready.reason.is_none());

    let unbound = preview_readiness(String::new(), None);
    assert!(!unbound.ok);
    assert!(unbound.reason.unwrap().starts_with("这个剧本没有绑定角色"));
    let missing = preview_readiness("ling".to_string(), None);
    assert_eq!(
        missing.reason.unwrap(),
        "剧本绑定的角色「ling」不在角色库里，试玩时 MAIN 会解析不到人。请确认 game_data/characters/ 下有这个目录。"
    );
}

#[test]
fn script_lists_can_leave_out_adventures() {
    let summary = |n: &str| ScriptSummary {
        script_name: n.to_string(),
        description: String::new(),
        folder_key: n.to_string(),
        intro_chapter: "main".to_string(),
    };
    let scripts = vec![
        ScriptEntry { summary: summary("a"), is_adventure: true },
        ScriptEntry { summary: summary("b"), is_adventure: false },
    ];
    assert_eq!(script_list(&scripts, false).scripts.len(), 2);
    let standalone = script_list(&scripts, true);
    assert_eq!(standalone.scripts.len(), 1);
    assert_eq!(standalone.scripts[0].script_name, "b");
}

#[test]
fn memory_of_an_unloaded_role_is_refused() {
    assert_eq!(role_not_loaded(7), "角色 7 未加载（记忆库不可用）");
}
