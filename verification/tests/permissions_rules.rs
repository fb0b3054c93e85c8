use lingchat::permissions::{
    GeneratorSourceKey, GroupPermission, ToolPermission, ToolPermissionConfig, DEFAULT_ROLE_GROUP,
};
use lingchat::settings::{tool_groups, ToolSettings, WebSearchSettings};
use lingchat::strset::StrSet;

fn names(items: &[&str]) -> Vec<String> {
    items.iter().map(|s| s.to_string()).collect()
}

fn set_of(items: &[&str]) -> StrSet {
    StrSet::from_vec(&names(items))
}

fn listing(s: &StrSet) -> Vec<String> {
    s.to_vec()
}

#[test]
fn a_role_in_no_group_gets_no_tools() {
    let c = ToolPermissionConfig::with_default_tools(&names(&["a", "b"]));
    let all = set_of(&["a", "b"]);
    let r = c.allowed_tools(GeneratorSourceKey::UserChat, Some("alice"), &all);
    assert!(r.is_empty());
    let r = c.allowed_tools(GeneratorSourceKey::UserChat, None, &all);
    assert!(r.is_empty());
}

#[test]
fn new_roles_join_the_default_group_once() {
    let mut c = ToolPermissionConfig::with_default_tools(&names(&["a", "b"]));
    assert!(c.initialize_characters(&names(&["alice", "bob"])));
    assert_eq!(c.find_role_group("alice"), Some(DEFAULT_ROLE_GROUP.to_string()));
    assert_eq!(c.find_role_group("bob"), Some(DEFAULT_ROLE_GROUP.to_string()));
    assert!(!c.initialize_characters(&names(&["alice", "bob"])));
    let roles = c.get_role_group_roles(DEFAULT_ROLE_GROUP).unwrap();
    assert_eq!(listing(roles), names(&["alice", "bob"]));
}

#[test]
fn default_group_starts_closed_and_opens_when_a_tool_is_allowed() {
    let mut c = ToolPermissionConfig::with_default_tools(&names(&["a", "b"]));
    c.initialize_characters(&names(&["alice"]));
    let all = set_of(&["a", "b"]);
    assert!(c.allowed_tools(GeneratorSourceKey::UserChat, Some("alice"), &all).is_empty());

    c.set_tool_allowed_for_default_group("a", true);
    // the admin scene allows everything, so the group's own list decides
    assert_eq!(listing(&c.allowed_tools(GeneratorSourceKey::UserChat, Some("alice"), &all)), names(&["a"]));
    // the normal scene lists a and b; the intersection is a
    assert_eq!(listing(&c.allowed_tools(GeneratorSourceKey::Proactive, Some("alice"), &all)), names(&["a"]));
    // the default scene is disabled
    assert!(c.allowed_tools(GeneratorSourceKey::ScriptAiDialogue, Some("alice"), &all).is_empty());

    c.set_tool_allowed_for_default_group("a", false);
    assert!(c.allowed_tools(GeneratorSourceKey::Proactive, Some("alice"), &all).is_empty());
}

#[test]
fn all_tools_group_in_all_tools_scene_gets_everything() {
    let mut c = ToolPermissionConfig::with_default_tools(&names(&["a", "b"]));
    let mut roles = StrSet::new();
    roles.insert("carol");
    let g = GroupPermission { enabled: true, tools: StrSet::new(), all_tools: true, roles };
    assert!(c.create_role_group("admins", g).is_ok());
    let all = set_of(&["a", "b", "c"]);
    assert_eq!(listing(&c.allowed_tools(GeneratorSourceKey::UserChat, Some("carol"), &all)), names(&["a", "b", "c"]));
    // in the normal scene the scene's own list applies
    assert_eq!(listing(&c.allowed_tools(GeneratorSourceKey::Proactive, Some("carol"), &all)), names(&["a", "b"]));
}

#[test]
fn moving_a_role_keeps_it_in_exactly_one_group() {
    let mut c = ToolPermissionConfig::with_default_tools(&names(&["a", "b"]));
    c.initialize_characters(&names(&["alice"]));
    let vip = GroupPermission { enabled: true, tools: set_of(&["b"]), all_tools: false, roles: StrSet::new() };
    assert!(c.create_role_group("vip", vip).is_ok());
    assert!(c.add_role_to_group("vip", "alice").is_ok());
    assert_eq!(c.find_role_group("alice"), Some("vip".to_string()));
    assert!(c.get_role_group_roles(DEFAULT_ROLE_GROUP).unwrap().is_empty());
    let all = set_of(&["a", "b"]);
    assert_eq!(listing(&c.allowed_tools(GeneratorSourceKey::Proactive, Some("alice"), &all)), names(&["b"]));
}

#[test]
fn role_group_errors_name_the_group_and_role() {
    let mut c = ToolPermissionConfig::with_default_tools(&names(&[]));
    let g = || GroupPermission { enabled: true, tools: StrSet::new(), all_tools: false, roles: StrSet::new() };
    assert!(c.create_role_group("vip", g()).is_ok());
    assert_eq!(c.create_role_group("vip", g()), Err("角色组 'vip' 已存在".to_string()));
    assert_eq!(c.add_role_to_group("nope", "alice"), Err("角色组 'nope' 不存在".to_string()));
    assert_eq!(c.remove_role_from_group("vip", "bob"), Err("角色 'bob' 不在组 'vip' 中".to_string()));
    assert_eq!(c.remove_role_from_group("nope", "bob"), Err("角色组 'nope' 不存在".to_string()));
    assert_eq!(c.delete_role_group("default"), Err("不能删除默认角色组 'default'".to_string()));
    assert_eq!(c.delete_role_group("nope"), Err("角色组 'nope' 不存在".to_string()));
    assert!(c.delete_role_group("vip").is_ok());
    assert!(c.get_role_group_roles("vip").is_none());
}

#[test]
fn scene_groups_can_be_replaced_and_deleted() {
    let mut c = ToolPermissionConfig::with_default_tools(&names(&["a"]));
    assert!(c.get_scene_group("scene_admin").unwrap().all_tools);
    assert!(!c.get_scene_group("scene_default").unwrap().enabled);
    c.set_scene_group("scene_default", ToolPermission { enabled: true, tools: set_of(&["a"]), all_tools: false });
    assert!(c.get_scene_group("scene_default").unwrap().enabled);
    assert!(c.delete_scene_group("scene_default").is_ok());
    assert_eq!(c.delete_scene_group("scene_default"), Err("场景组 'scene_default' 不存在".to_string()));
}

#[test]
fn load_or_create_keeps_an_existing_config() {
    let existing = ToolPermissionConfig::with_default_tools(&names(&["x"]));
    let (c, created) = ToolPermissionConfig::load_or_create(Some(existing), &names(&["y"]));
    assert!(!created);
    assert_eq!(listing(&c.get_scene_group("scene_normal").unwrap().tools), names(&["x"]));
    let (c, created) = ToolPermissionConfig::load_or_create(None, &names(&["y"]));
    assert!(created);
    assert_eq!(listing(&c.get_scene_group("scene_normal").unwrap().tools), names(&["y"]));
}

#[test]
fn web_search_is_ready_only_with_a_key() {
    let mut w = WebSearchSettings::default();
    assert!(!w.is_ready());
    w.enabled = true;
    assert!(w.is_ready(), "the built-in search needs no key");
    w.use_builtin = false;
    w.api_key = "   ".to_string();
    assert!(!w.is_ready());
    w.api_key = "key".to_string();
    assert!(w.is_ready());
}

#[test]
fn settings_sync_allows_exactly_the_enabled_groups() {
    let mut s = ToolSettings::default();
    let groups = tool_groups();
    assert!(!groups.is_empty());
    let (first, first_tools) = (groups[0].0, groups[0].1.clone());
    s.groups.insert(first, true);
    let mut c = ToolPermissionConfig::with_default_tools(&names(&[]));
    s.sync_to_permissions(&mut c);
    let default_tools = &c.role_groups.get(DEFAULT_ROLE_GROUP).unwrap().tools;
    assert!(!default_tools.contains("web_search"));
    for t in &first_tools {
        assert!(default_tools.contains(*t), "{} should be allowed", t);
    }
}

#[test]
fn withdrawing_without_a_default_group_changes_nothing() {
    let mut c = ToolPermissionConfig::empty();
    c.set_tool_allowed_for_default_group("a", false);
    assert!(c.role_groups.get(DEFAULT_ROLE_GROUP).is_none());
    c.set_tool_allowed_for_default_group("a", true);
    let g = c.role_groups.get(DEFAULT_ROLE_GROUP).unwrap();
    assert!(g.enabled);
    assert!(g.tools.contains("a"));
}
