use lingchat::json::JsonValue;
use lingchat::notes::{parse_tags, role_notes_path, sanitize_role_name, ToolError};
use lingchat::tool_text::{bounded_query, command_may_delete_files, MAX_QUERY_CHARS};
use lingchat::tts_local::{
    classify_package, detect_by_extension, detect_by_magic, required_assets, validate_voice_id,
    LocalTtsPaths, PackageKind,
};

#[test]
fn sanitize_role_name_handles_hostile_input() {
    assert_eq!(sanitize_role_name(" 玲玲 "), "玲玲");
    assert_eq!(sanitize_role_name("a/b:c*d"), "abcd");
    assert_eq!(sanitize_role_name("灵-01"), "灵-01");
    assert_eq!(sanitize_role_name(".."), "unknown");
    assert_eq!(sanitize_role_name(""), "unknown");
    assert_eq!(sanitize_role_name("   "), "unknown");
}

#[test]
fn role_notes_path_uses_sanitized_name() {
    let path = role_notes_path("/data/game_data/notes", "灵灵/..");
    let file = std::path::Path::new(&path).file_name().unwrap().to_string_lossy().into_owned();
    assert!(file.starts_with("灵灵") && file.ends_with(".json"));
    assert!(!file.contains('/') && !file.contains(".."));
}

#[test]
fn parse_tags_distinguishes_missing_empty_and_invalid() {
    assert_eq!(parse_tags(None, "test").unwrap(), None);
    assert!(parse_tags(Some(&JsonValue::Str("not_array".to_string())), "test").is_err());
    let mixed = JsonValue::Array(vec![JsonValue::Str("a".to_string()), JsonValue::Number(Some(2), true)]);
    assert!(parse_tags(Some(&mixed), "test").is_err());
    let good = JsonValue::Array(vec![JsonValue::Str("a".to_string()), JsonValue::Str("b".to_string())]);
    let tags = parse_tags(Some(&good), "test").unwrap().unwrap();
    assert_eq!(tags, vec!["a".to_string(), "b".to_string()]);
}

#[test]
fn parse_tags_errors_are_invalid_arguments() {
    match parse_tags(Some(&JsonValue::Bool(true)), "add_note") {
        Err(ToolError::InvalidArguments(_)) => {}
        other => panic!("unexpected: {:?}", other),
    }
    let empty = JsonValue::Array(vec![]);
    assert_eq!(parse_tags(Some(&empty), "add_note").unwrap(), Some(vec![]));
}

#[test]
fn detects_common_file_deletion_commands() {
    for command in [
        r#"cmd /c del /q "C:\temp\old.txt""#,
        r#"powershell -NoProfile -Command "Remove-Item -LiteralPath 'C:\temp\old.txt'""#,
        "rm -rf ./build",
        "git clean -fdx",
        "find . -name '*.tmp' -delete",
        "python -c \"import shutil; shutil.rmtree('build')\"",
        "robocopy empty target /MIR",
    ] {
        assert!(command_may_delete_files(command), "not detected: {command}");
    }

    for command in [
        "Get-ChildItem -Force",
        "cargo test --lib",
        "git status --short",
        "python -c \"print('hello')\"",
    ] {
        assert!(!command_may_delete_files(command), "false positive: {command}");
    }
}

#[test]
fn query_is_truncated_on_character_boundary() {
    let query = "搜".repeat(MAX_QUERY_CHARS + 10);
    let bounded = bounded_query(&query);
    assert_eq!(bounded.chars().count(), MAX_QUERY_CHARS);
    assert!(bounded.is_char_boundary(bounded.len()));
}

#[test]
fn short_query_is_kept_whole() {
    assert_eq!(bounded_query("天气"), "天气");
}

#[test]
fn rejects_path_traversal() {
    assert!(validate_voice_id("../etc").is_err());
    assert!(validate_voice_id("").is_err());
    assert!(validate_voice_id("good-voice_1").is_ok());
}

#[test]
fn voice_id_length_is_counted_in_bytes() {
    assert!(validate_voice_id(&"a".repeat(64)).is_ok());
    assert!(validate_voice_id(&"a".repeat(65)).is_err());
}

#[test]
fn detect_sbv2_by_extension() {
    assert_eq!(detect_by_extension("a.sbv2"), PackageKind::RawSbv2);
}

#[test]
fn detect_by_extension_ignores_case() {
    assert_eq!(detect_by_extension("voice.ZIP"), PackageKind::Zip);
    assert_eq!(detect_by_extension("voice.7z"), PackageKind::SevenZ);
    assert_eq!(detect_by_extension("voice"), PackageKind::Unknown);
}

#[test]
fn detect_zip_by_magic() {
    let mut head = vec![0x50u8, 0x4b, 0x03, 0x04];
    head.extend_from_slice(&[0; 32]);
    assert_eq!(detect_by_magic(&head), PackageKind::Zip);
}

#[test]
fn detect_unknown_when_garbage() {
    assert_eq!(detect_by_magic(&[1, 2, 3]), PackageKind::Unknown);
}

#[test]
fn classify_prefers_extension_then_magic() {
    assert_eq!(classify_package("a.sbv2", &[0x50, 0x4b, 0x03, 0x04]), PackageKind::RawSbv2);
    assert_eq!(classify_package("download.bin", &[0x37, 0x7a, 0xbc]), PackageKind::SevenZ);
}

#[test]
fn required_assets_includes_deberta() {
    assert!(required_assets().contains(&"deberta"));
}

fn sample_paths() -> LocalTtsPaths {
    LocalTtsPaths {
        root: "/tmp/x".to_string(),
        assets: "/tmp/x/assets".to_string(),
        voices: "/tmp/x/voices".to_string(),
        cache: "/tmp/y".to_string(),
    }
}

#[test]
fn voice_dir_nests_under_voices() {
    let p = sample_paths();
    assert_eq!(p.voice_dir("alice"), "/tmp/x/voices/alice");
}

#[test]
fn deberta_presence_requires_model_and_tokenizer() {
    let p = sample_paths();
    let files = p.asset_files("deberta");
    assert_eq!(files, vec!["/tmp/x/assets/deberta/deberta.onnx", "/tmp/x/assets/deberta/tokenizer.json"]);
    assert!(!p.asset_present("deberta", &vec![true, false]));
    assert!(p.asset_present("deberta", &vec![true, true]));
    assert!(!p.asset_present("other", &vec![true, true]));
}

#[test]
fn surrounding_text_and_case_never_hide_a_deletion() {
    for c in ["rm -rf build", "git clean -fd", "python -c \"os.remove('x')\"", "robocopy a b /MIR"] {
        assert!(command_may_delete_files(c), "{}", c);
        assert!(command_may_delete_files(&format!("cd x && {} && echo ok", c)), "{}", c);
        assert!(command_may_delete_files(&c.to_ascii_uppercase()), "{}", c);
    }
    assert!(!command_may_delete_files("echo hello"));
    assert!(!command_may_delete_files(&"echo hello".to_ascii_uppercase()));
}
