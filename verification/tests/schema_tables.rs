use lingchat::schema::{build_schema, FieldKind};
use std::collections::HashSet;

const EFFECTS: [&'static str; 5] = ["Rain", "Snow", "Sakura", "Fireflies", "Shake"];

#[test]
fn schema_covers_every_registered_event_type() {
    const ENGINE_EVENT_TYPES: [&str; 17] = [
        "narration",
        "player",
        "dialogue",
        "ai_dialogue",
        "free_dialogue",
        "choices",
        "input",
        "set_variable",
        "chapter_end",
        "modify_character",
        "background",
        "background_effect",
        "present_pic",
        "music",
        "sound",
        "ambient",
        "unlock_achievement",
    ];

    let schema = build_schema(&EFFECTS);
    let in_schema: HashSet<&str> = schema.events.iter().map(|e| e.type_key).collect();
    let in_engine: HashSet<&str> = ENGINE_EVENT_TYPES.iter().copied().collect();

    let missing: Vec<_> = in_engine.difference(&in_schema).collect();
    let extra: Vec<_> = in_schema.difference(&in_engine).collect();
    assert!(missing.is_empty(), "schema 缺少事件类型: {:?}", missing);
    assert!(extra.is_empty(), "schema 有引擎不认识的事件类型: {:?}", extra);
    assert_eq!(schema.events.len(), 17);
}

#[test]
fn every_event_has_at_least_one_field_and_unique_keys() {
    for e in build_schema(&EFFECTS).events {
        assert!(!e.fields.is_empty(), "{} 没有字段", e.type_key);
        let mut seen = HashSet::new();
        for f in &e.fields {
            assert!(seen.insert(f.key), "{} 的字段 {} 重复了", e.type_key, f.key);
        }
    }
}

#[test]
fn asset_fields_declare_their_kind() {
    for e in build_schema(&EFFECTS).events {
        for f in &e.fields {
            if matches!(f.kind, FieldKind::Asset) {
                assert!(f.asset_kind.is_some(), "{}.{} 是素材字段但没声明 asset_kind", e.type_key, f.key);
            }
        }
    }
}

#[test]
fn effect_options_come_from_the_engine_constant() {
    let schema = build_schema(&EFFECTS);
    let effect = schema.events.iter().find(|e| e.type_key == "background_effect").unwrap();
    let field = &effect.fields[0];
    assert_eq!(field.options.len(), EFFECTS.len() + 1);
    for k in EFFECTS {
        assert!(field.options.iter().any(|o| o == k), "缺少特效 {}", k);
    }
}

#[test]
fn option_labels_match_options_length() {
    for e in build_schema(&EFFECTS).events {
        for f in &e.fields {
            assert!(
                f.option_labels.is_empty() || f.option_labels.len() == f.options.len(),
                "{}.{} 的 option_labels 长度与 options 不一致",
                e.type_key,
                f.key
            );
        }
    }
}

#[test]
fn duration_is_exposed_and_editable() {
    let schema = build_schema(&EFFECTS);
    let d = schema
        .common_fields
        .iter()
        .find(|f| f.key == "duration")
        .expect("common_fields 应包含 duration（基础事件字段）");
    assert!(d.enabled, "duration 应可编辑");
    assert!(matches!(d.kind, FieldKind::Number));
}

#[test]
fn set_variable_only_allows_set_var_action() {
    let schema = build_schema(&EFFECTS);
    let set_var = schema.action_types.iter().find(|a| a.type_key == "set_var").unwrap();
    assert!(set_var.allowed_in.contains(&"set_variable"));

    let add_line = schema.action_types.iter().find(|a| a.type_key == "add_line").unwrap();
    assert!(!add_line.allowed_in.contains(&"set_variable"));
}

#[test]
fn effect_options_start_with_none() {
    let schema = build_schema(&EFFECTS);
    let field = &schema.events[11].fields[0];
    assert_eq!(field.options[0], "None");
    assert_eq!(field.options[1..].to_vec(), EFFECTS.iter().map(|s| s.to_string()).collect::<Vec<_>>());
}

#[test]
fn schema_lists_looks_unlock_types_and_condition_syntax() {
    let s = lingchat::schema::build_schema(&["rain"]);
    assert_eq!(s.events[0].label, "旁白");
    assert_eq!(s.events[0].category, "叙事");
    assert_eq!(s.events[16].color, "#fbbf24");
    let keys: Vec<&str> = s.unlock_condition_types.iter().map(|u| u.type_key).collect();
    assert_eq!(keys, vec!["chat_count", "time_range", "adventure_completed", "achievement_unlocked"]);
    assert_eq!(s.placeholder_fields, vec!["text", "prompt", "hint", "end_line", "dialog_prompt", "end_prompt", "content", "description"]);
    assert_eq!(s.condition_syntax.supported, vec!["var == 值", "var != 值", "var（真值判断）"]);
    assert_eq!(s.condition_syntax.unsupported.len(), 9);
}

#[test]
fn schema_fields_carry_their_labels_and_hints() {
    let s = lingchat::schema::build_schema(&[]);
    let end = &s.events[8].fields[0];
    assert_eq!(end.label, "结束方式");
    assert_eq!(end.options, vec!["linear", "branching", "ai_judged"]);
    assert_eq!(end.hint, Some("linear 直接跳转；branching 按条件分支；ai_judged 交给 LLM 判断"));
    let old_next = &s.events[8].fields[4];
    assert!(!old_next.enabled);
    let bg = &s.events[10].fields[0];
    assert_eq!(bg.asset_kind, Some("background"));
    assert_eq!(s.common_fields[1].placeholder, Some("留空或负数 = 等玩家点击"));
    assert_eq!(s.story_config_fields[0].label, "剧本名");
}
