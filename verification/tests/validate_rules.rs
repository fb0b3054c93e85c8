use lingchat::diag::{Diagnostic, Severity};
use lingchat::event::check_free_dialogue;
use lingchat::graph::check_graph;
use lingchat::json::JsonValue;
use lingchat::report::ChapterEdge;
use lingchat::strset::StrSet;
use lingchat::validate::{
    check_actions, check_asset, check_chapter_end, check_choices, check_condition,
    check_modify_character_action, check_set_variable, has_engine_default,
};

fn s(x: &str) -> JsonValue {
    JsonValue::Str(x.to_string())
}

fn num(n: i64) -> JsonValue {
    JsonValue::Number(Some(n), true)
}

fn arr(items: Vec<JsonValue>) -> JsonValue {
    JsonValue::Array(items)
}

/// Object entries in key order, as a JSON map without insertion order keeps them.
fn entries(pairs: Vec<(&str, JsonValue)>) -> Vec<(String, JsonValue)> {
    let mut v: Vec<(String, JsonValue)> = pairs.into_iter().map(|(k, x)| (k.to_string(), x)).collect();
    v.sort_by(|a, b| a.0.cmp(&b.0));
    v
}

fn obj(pairs: Vec<(&str, JsonValue)>) -> JsonValue {
    JsonValue::Object(entries(pairs))
}

fn codes(d: &[Diagnostic]) -> Vec<&'static str> {
    d.iter().map(|x| x.code).collect()
}

fn set_of(items: &[&str]) -> StrSet {
    let mut set = StrSet::new();
    for x in items {
        set.insert(*x);
    }
    set
}

fn run_condition(cond: &str) -> (Vec<Diagnostic>, StrSet) {
    let mut d = Vec::new();
    let mut v = StrSet::new();
    check_condition(cond, "main", 0, &mut d, &mut v);
    (d, v)
}

fn run_actions(actions: Vec<JsonValue>) -> (Vec<Diagnostic>, StrSet) {
    let mut d = Vec::new();
    let mut w = StrSet::new();
    check_actions(&actions, "choices", "main", 0, &mut d, &mut w);
    (d, w)
}

#[test]
fn condition_flags_unsupported_operators() {
    for bad in ["hp >= 5", "hp > 5", "a && b", "a || b", "!flag", "(a == 1)"] {
        let (d, _) = run_condition(bad);
        assert!(
            d.iter().any(|x| x.code == "condition.unsupported_operator"),
            "应报不支持的运算符: {}",
            bad
        );
    }
}

#[test]
fn condition_accepts_supported_forms_and_collects_vars() {
    let (d, v) = run_condition("route == shop");
    assert!(d.is_empty(), "不该有诊断: {:?}", d);
    assert!(v.contains("route"));

    let (d, v) = run_condition("flag != true");
    assert!(d.is_empty());
    assert!(v.contains("flag"));

    let (d, v) = run_condition("wet");
    assert!(d.is_empty());
    assert!(v.contains("wet"));
}

#[test]
fn condition_rejects_spaces_in_variable_name() {
    let (d, _) = run_condition("my var == 1");
    assert!(d.iter().any(|x| x.code == "condition.bad_variable"));
}

#[test]
fn choices_detects_the_prototype_mistakes() {
    let mut d = Vec::new();
    let mut w = StrSet::new();
    let mut r = StrSet::new();
    let o = entries(vec![(
        "options",
        arr(vec![
            obj(vec![("text", s("去便利店")), ("next", s("shop"))]),
            obj(vec![("text", s("去便利店"))]),
            obj(vec![(
                "actions",
                arr(vec![obj(vec![("type", s("set_variable")), ("content", s("x = 1"))])]),
            )]),
            obj(vec![("text", s("问 %player% 的名字"))]),
        ]),
    )]);
    check_choices(&o, "main", 0, &mut d, &mut w, &mut r);

    let codes = codes(&d);
    assert!(codes.contains(&"choices.option_next_ignored"));
    assert!(codes.contains(&"choices.duplicate_text"));
    assert!(codes.contains(&"choices.catch_all_not_last"));
    assert!(codes.contains(&"action.unknown_type"));
    assert!(codes.contains(&"choices.placeholder_in_text"));
}

#[test]
fn set_variable_detects_the_prototype_shape() {
    let mut d = Vec::new();
    let mut w = StrSet::new();
    let mut r = StrSet::new();
    let o = entries(vec![("name", s("affection")), ("value", num(10))]);
    check_set_variable(&o, "main", 0, &mut d, &mut w, &mut r);
    assert!(d.iter().any(|x| x.code == "set_variable.no_options"));
    assert!(w.is_empty(), "不该收集到任何被赋值的变量");
}

#[test]
fn set_variable_collects_written_vars_and_flags_add_line() {
    let mut d = Vec::new();
    let mut w = StrSet::new();
    let mut r = StrSet::new();
    let o = entries(vec![(
        "options",
        arr(vec![obj(vec![(
            "actions",
            arr(vec![
                obj(vec![("type", s("set_var")), ("content", s("affection += 1"))]),
                obj(vec![("type", s("add_line")), ("content", s("喂"))]),
            ]),
        )])]),
    )]);
    check_set_variable(&o, "main", 0, &mut d, &mut w, &mut r);
    assert!(w.contains("affection"));
    assert!(d.iter().any(|x| x.code == "action.not_supported_here"));
}

#[test]
fn chapter_end_detects_choice_shaped_branches() {
    let mut edges = Vec::new();
    let mut d = Vec::new();
    let mut r = StrSet::new();
    let chapters = set_of(&["shop", "home"]);
    let o = entries(vec![
        ("end_type", s("branching")),
        ("options", arr(vec![obj(vec![("text", s("去便利店")), ("actions", arr(vec![]))])])),
    ]);
    check_chapter_end(&o, "start", 4, &chapters, &mut edges, &mut d, &mut r);
    let codes = codes(&d);
    assert!(codes.contains(&"chapter_end.choice_shaped_option"));
    assert!(codes.contains(&"chapter_end.branch_no_next"));
    assert!(codes.contains(&"chapter_end.no_default_branch"));
}

#[test]
fn chapter_end_linear_dangling_target() {
    let mut edges = Vec::new();
    let mut d = Vec::new();
    let mut r = StrSet::new();
    let chapters = set_of(&["main2"]);

    let o = entries(vec![("end_type", s("linear")), ("next_chapter", s("main9"))]);
    check_chapter_end(&o, "main", 3, &chapters, &mut edges, &mut d, &mut r);
    assert!(d.iter().any(|x| x.code == "chapter_end.dangling"));

    let mut edges2 = Vec::new();
    let mut d2 = Vec::new();
    let o = entries(vec![("end_type", s("linear")), ("next_chapter", s("end"))]);
    check_chapter_end(&o, "main", 3, &chapters, &mut edges2, &mut d2, &mut r);
    assert!(d2.is_empty(), "指向 end 不该报错: {:?}", d2);
    assert_eq!(edges2.len(), 1);
    assert!(edges2[0].is_end);
}

#[test]
fn graph_finds_orphans_and_cycles() {
    let chapters: Vec<String> = ["a", "b", "c", "orphan"].iter().map(|s| s.to_string()).collect();
    let e = |from: &str, to: &str| ChapterEdge {
        from: from.into(),
        to: to.into(),
        is_end: false,
        label: String::new(),
        end_type: "linear".into(),
    };
    let edges = vec![e("a", "b"), e("b", "a"), e("orphan", "c")];
    let mut d = Vec::new();
    check_graph("a", &chapters, &edges, &mut d);

    let codes = codes(&d);
    assert!(codes.contains(&"graph.cycle"), "应检出 a→b→a 的环");
    let unreachable: Vec<&Diagnostic> = d.iter().filter(|x| x.code == "graph.unreachable").collect();
    assert_eq!(unreachable.len(), 2);
}

#[test]
fn free_dialogue_without_exit_is_an_error() {
    let mut d = Vec::new();
    let o = entries(vec![("max_rounds", num(-1)), ("end_line", s(""))]);
    check_free_dialogue(&o, "main", 0, &mut d);
    assert_eq!(d.len(), 1);
    assert_eq!(d[0].code, "free_dialogue.no_exit");
    assert_eq!(d[0].severity, Severity::Error);
}

#[test]
fn set_var_legacy_shape_is_diagnosed_clearly() {
    let (d, w) = run_actions(vec![obj(vec![
        ("type", s("set_var")),
        ("name", s("flag")),
        ("value", s("warm")),
        ("op", s("=")),
    ])]);
    let codes = codes(&d);
    assert!(codes.contains(&"action.legacy_shape"));
    assert!(!codes.contains(&"action.empty_expression"));
    assert!(!codes.contains(&"action.bad_expression"));
    assert!(w.is_empty(), "旧形状不应收集到变量");
}

#[test]
fn set_var_truly_empty_expression_has_clear_message() {
    let (d, _) = run_actions(vec![obj(vec![("type", s("set_var")), ("content", s(""))])]);
    assert!(codes(&d).contains(&"action.empty_expression"));
}

#[test]
fn set_var_valid_expression_collects_variable() {
    let (d, w) = run_actions(vec![obj(vec![("type", s("set_var")), ("content", s("affection += 1"))])]);
    assert!(d.is_empty(), "合法表达式不该有诊断: {:?}", d);
    assert!(w.contains("affection"));
}

#[test]
fn ai_judged_default_branch_without_name_is_fine() {
    let mut edges = Vec::new();
    let mut d = Vec::new();
    let mut r = StrSet::new();
    let chapters = set_of(&["shop", "home"]);
    let o = entries(vec![
        ("end_type", s("ai_judged")),
        (
            "options",
            arr(vec![
                obj(vec![("name", s("去商店")), ("next", s("shop"))]),
                obj(vec![("default", JsonValue::Bool(true)), ("next", s("home"))]),
            ]),
        ),
    ]);
    check_chapter_end(&o, "start", 0, &chapters, &mut edges, &mut d, &mut r);
    assert!(
        !codes(&d).contains(&"chapter_end.ai_option_no_name"),
        "default 兜底分支不该报缺 name: {:?}",
        d
    );
}

#[test]
fn engine_default_fields_are_skipped_by_required_check() {
    assert!(has_engine_default("dialogue", "character"));
    assert!(has_engine_default("ai_dialogue", "character"));
    assert!(has_engine_default("free_dialogue", "character"));
    assert!(has_engine_default("modify_character", "character"));
    assert!(has_engine_default("chapter_end", "end_type"));
    assert!(!has_engine_default("narration", "character"));
    assert!(!has_engine_default("dialogue", "text"));
    assert!(!has_engine_default("chapter_end", "next_chapter"));
}

#[test]
fn catch_all_with_condition_is_info_not_warn() {
    let mut d = Vec::new();
    let mut w = StrSet::new();
    let mut r = StrSet::new();
    let o = entries(vec![(
        "options",
        arr(vec![obj(vec![("condition", s("route == shop"))]), obj(vec![("text", s("去公园"))])]),
    )]);
    check_choices(&o, "main", 0, &mut d, &mut w, &mut r);
    let codes = codes(&d);
    assert!(codes.contains(&"choices.catch_all_conditional"));
    assert!(!codes.contains(&"choices.catch_all_not_last"));
}

#[test]
fn catch_all_without_condition_still_warns() {
    let mut d = Vec::new();
    let mut w = StrSet::new();
    let mut r = StrSet::new();
    let o = entries(vec![("options", arr(vec![obj(vec![]), obj(vec![("text", s("去公园"))])]))]);
    check_choices(&o, "main", 0, &mut d, &mut w, &mut r);
    assert!(codes(&d).contains(&"choices.catch_all_not_last"));
}

#[test]
fn ambient_playing_without_path_warns() {
    let mut d = Vec::new();
    let o = entries(vec![("ambientPath", s("")), ("stop", JsonValue::Bool(false))]);
    check_asset(&o, "ambient", "main", 0, &mut d, false);
    assert!(d.iter().any(|x| x.code == "ambient.no_path"));

    let mut d2 = Vec::new();
    let o2 = entries(vec![("ambientPath", s("")), ("stop", JsonValue::Bool(true))]);
    check_asset(&o2, "ambient", "main", 0, &mut d2, false);
    assert!(d2.is_empty(), "停全部轨不该报路径缺失: {:?}", d2);
}

#[test]
fn modify_character_unknown_action_warns() {
    let mut d = Vec::new();
    let o = entries(vec![("action", s("hide"))]);
    check_modify_character_action(&o, "main", 0, &mut d);
    assert!(d.iter().any(|x| x.code == "character.action_unknown"));

    let mut d2 = Vec::new();
    let o2 = entries(vec![("action", s("show_character"))]);
    check_modify_character_action(&o2, "main", 0, &mut d2);
    assert!(d2.is_empty(), "show_character 不该被警告: {:?}", d2);
}

#[test]
fn ai_judged_option_condition_is_ignored_info() {
    let mut edges = Vec::new();
    let mut d = Vec::new();
    let mut r = StrSet::new();
    let chapters = set_of(&["shop", "home"]);
    let o = entries(vec![
        ("end_type", s("ai_judged")),
        (
            "options",
            arr(vec![
                obj(vec![("name", s("去商店")), ("condition", s("flag == true")), ("next", s("shop"))]),
                obj(vec![("name", s("回家")), ("next", s("home"))]),
            ]),
        ),
    ]);
    check_chapter_end(&o, "start", 0, &chapters, &mut edges, &mut d, &mut r);
    assert!(codes(&d).contains(&"chapter_end.ai_condition_ignored"));
}

#[test]
fn branch_without_next_is_warn_not_error() {
    let mut edges = Vec::new();
    let mut d = Vec::new();
    let mut r = StrSet::new();
    let chapters = set_of(&["home"]);
    let o = entries(vec![
        ("end_type", s("branching")),
        (
            "options",
            arr(vec![
                obj(vec![("condition", s("flag == x")), ("next", s("home"))]),
                obj(vec![("condition", s("other == y"))]),
            ]),
        ),
    ]);
    check_chapter_end(&o, "start", 0, &chapters, &mut edges, &mut d, &mut r);
    let diag = d.iter().find(|x| x.code == "chapter_end.branch_no_next").expect("应报 branch_no_next");
    assert_eq!(diag.severity, Severity::Warn, "无 next 的分支应是 warn");
}

#[test]
fn end_with_yaml_suffix_is_rejected() {
    let mut edges = Vec::new();
    let mut d = Vec::new();
    let mut r = StrSet::new();
    let chapters = set_of(&["main2"]);
    let o = entries(vec![("end_type", s("linear")), ("next_chapter", s("end.yaml"))]);
    check_chapter_end(&o, "main", 0, &chapters, &mut edges, &mut d, &mut r);
    assert!(codes(&d).contains(&"chapter_end.end_suffix"), "end.yaml 应被报出: {:?}", d);
}

#[test]
fn graph_names_the_first_cycle_of_the_depth_first_walk() {
    let e = |from: &str, to: &str| ChapterEdge {
        from: from.into(),
        to: to.into(),
        is_end: false,
        label: String::new(),
        end_type: "linear".into(),
    };
    let chapters: Vec<String> = ["x", "a", "b", "c"].iter().map(|s| s.to_string()).collect();
    // from x the walk goes x → b → a and closes b → a → b before it sees c ⇄ c
    let edges = vec![e("c", "c"), e("x", "b"), e("a", "b"), e("b", "a")];
    let mut d = Vec::new();
    check_graph("x", &chapters, &edges, &mut d);
    let cycles: Vec<&Diagnostic> = d.iter().filter(|x| x.code == "graph.cycle").collect();
    assert_eq!(cycles.len(), 1);
    assert_eq!(cycles[0].message, "章节之间存在循环：b → a → b。引擎没有循环检测，玩家可能被困在里面出不来");

    // a self-loop on the first chapter is found first
    let edges = vec![e("x", "x"), e("a", "b"), e("b", "a")];
    let mut d = Vec::new();
    check_graph("x", &chapters, &edges, &mut d);
    let cycles: Vec<&Diagnostic> = d.iter().filter(|x| x.code == "graph.cycle").collect();
    assert_eq!(cycles[0].message, "章节之间存在循环：x → x。引擎没有循环检测，玩家可能被困在里面出不来");
}
