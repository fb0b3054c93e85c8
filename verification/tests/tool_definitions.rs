use lingchat::definitions::{
    web_search_definition, web_search_timeout, EditFile, GrepFiles, ListFiles, ReadFile, SearchFiles, ToolDefinition,
    WriteFile,
};
use lingchat::json::JsonValue;
use lingchat::notes::{AddNote, GetNotes};
use lingchat::tools::{
    BiliSearchTool, CharacterSwitch, CurrentTimeTool, DeleteFile, ExecuteCommand, ListSkills, NetMusicRecommendTool,
    ReadSkill,
};

fn field<'a>(v: &'a JsonValue, key: &str) -> Option<&'a JsonValue> {
    match v {
        JsonValue::Object(m) => m.iter().find(|(k, _)| k == key).map(|(_, x)| x),
        _ => None,
    }
}

fn text<'a>(v: Option<&'a JsonValue>) -> Option<&'a str> {
    match v {
        Some(JsonValue::Str(s)) => Some(s.as_str()),
        _ => None,
    }
}

fn prop_type<'a>(d: &'a ToolDefinition, name: &str) -> Option<&'a str> {
    text(field(field(&d.function.parameters, "properties")?, name).and_then(|p| field(p, "type")))
}

fn assert_strict(d: &ToolDefinition) {
    assert_eq!(d.type_, "function");
    assert_eq!(text(field(&d.function.parameters, "type")), Some("object"));
    assert!(
        matches!(field(&d.function.parameters, "additionalProperties"), Some(JsonValue::Bool(false))),
        "{} must reject unknown arguments",
        d.function.name
    );
    assert!(matches!(field(&d.function.parameters, "properties"), Some(JsonValue::Object(_))));
}

#[test]
fn exposes_empty_object_schema() {
    let definition = CurrentTimeTool.definition();
    assert_eq!(definition.function.name, "get_current_time");
    assert!(matches!(field(&definition.function.parameters, "additionalProperties"), Some(JsonValue::Bool(false))));
}

#[test]
fn code_tool_schemas_are_strict_openai_objects() {
    let definitions = vec![
        (ListSkills.definition(), ListSkills.timeout_hint()),
        (ReadSkill.definition(), ReadSkill.timeout_hint()),
        (ListFiles { settings: () }.definition(), ListFiles { settings: () }.timeout_hint()),
        (ReadFile { settings: () }.definition(), ReadFile { settings: () }.timeout_hint()),
        (WriteFile { settings: () }.definition(), WriteFile { settings: () }.timeout_hint()),
        (DeleteFile::new(()).definition(), DeleteFile::new(()).timeout_hint()),
        (EditFile { settings: () }.definition(), EditFile { settings: () }.timeout_hint()),
        (SearchFiles { settings: () }.definition(), SearchFiles { settings: () }.timeout_hint()),
        (GrepFiles { settings: () }.definition(), GrepFiles { settings: () }.timeout_hint()),
        (ExecuteCommand::new(()).definition(false), ExecuteCommand::new(()).timeout_hint()),
    ];
    for (definition, hint) in definitions {
        assert_strict(&definition);
        let expected = match definition.function.name.as_str() {
            "list_skills" | "read_skill" => 5,
            "delete_file" => 135,
            "execute_command" => 430,
            _ => 15,
        };
        assert_eq!(hint, Some(expected));
    }
}

#[test]
fn command_schema_exposes_bounded_timeout() {
    let tool = ExecuteCommand::new(());
    let definition = tool.definition(false);
    assert_eq!(prop_type(&definition, "timeout_seconds"), Some("integer"));
    assert_eq!(prop_type(&definition, "run_in_background"), Some("boolean"));
    assert_eq!(prop_type(&definition, "description"), Some("string"));
    assert_eq!(tool.timeout_hint(), Some(430));
    assert!(definition.function.description.contains("sh -c"));
    assert!(tool.definition(true).function.description.contains("cmd.exe /D /C"));
}

#[test]
fn delete_file_schema_reserves_time_for_user_approval() {
    let tool = DeleteFile::new(());
    let definition = tool.definition();
    assert!(definition.function.description.contains("请求确认"));
    assert_eq!(tool.timeout_hint(), Some(135));
}

#[test]
fn schemas_declare_required_arguments() {
    let d = CharacterSwitch.definition();
    assert_eq!(prop_type(&d, "id"), Some("integer"));
    match field(&d.function.parameters, "required") {
        Some(JsonValue::Array(a)) => assert_eq!(text(a.first()), Some("id")),
        _ => panic!("no required list"),
    }
    let skills = ListSkills.definition();
    assert!(field(&skills.function.parameters, "required").is_none());

    let note = AddNote.definition();
    assert_eq!(prop_type(&note, "tags"), Some("array"));
    let items = field(field(field(&note.function.parameters, "properties").unwrap(), "tags").unwrap(), "items");
    assert_eq!(text(items.and_then(|i| field(i, "type"))), Some("string"));
    assert_eq!(prop_type(&GetNotes.definition(), "role"), Some("string"));
    assert_eq!(prop_type(&BiliSearchTool.definition(), "limit"), Some("integer"));
    assert_eq!(BiliSearchTool.timeout_hint(), Some(25));
    assert_eq!(NetMusicRecommendTool.timeout_hint(), Some(25));
}

#[test]
fn web_search_schema_bounds_the_query() {
    let d = web_search_definition(true);
    assert_eq!(d.function.name, "web_search");
    assert!(d.function.description.contains("隐藏来源"));
    assert!(web_search_definition(false).function.description.contains("来源链接"));
    let query = field(field(&d.function.parameters, "properties").unwrap(), "query").unwrap();
    assert!(matches!(field(query, "maxLength"), Some(JsonValue::Number(Some(500), true))));
    assert_eq!(web_search_timeout(true), 90);
    assert_eq!(web_search_timeout(false), 15);
}
