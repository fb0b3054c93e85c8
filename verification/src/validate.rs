//! The script validator: turns every silent failure of the script engine into a
//! diagnostic the author can see.
//!
//! Three severities: `error` (will break), `warn` (very likely not what the
//! author meant), `info` (hints).
use vstd::prelude::*;
use crate::diag::{Diagnostic, DiagView, Severity, dviews, event_diag, chapter_diag, script_diag, with_field, lemma_dviews_push};
use crate::json::{JsonValue, lookup, has_key, get_str, get_flag, get_array, str_of, object_of, get, get_str_exec, get_flag_exec, get_array_exec, contains_key};
use crate::strset::StrSet;
use crate::report::{ChapterEdge, EdgeView, eviews, lemma_eviews_push};
use crate::text::{trim, find, contains, ends_with, chars_of, trim_str, find_str, contains_str, ends_with_str, string_of_range, cat, cat3, cat5, owned, str_eq, is_blank, decimal, decimal_string};
use vstd::string::StringExecFns;

verus! {

// ---------- chapter ids ----------

/// The chapter id a reference names: trimmed, with one `.yaml` suffix removed.
pub open spec fn chapter_id(raw: Seq<char>) -> Seq<char> {
    let t = trim(raw);
    if ends_with(t, ".yaml"@) {
        t.subrange(0, t.len() - 5)
    } else {
        t
    }
}

/// Normalises a chapter reference: trims it and strips one `.yaml` suffix.
pub fn chapter_id_of(raw: &str) -> (r: String)
    ensures
        r@ == chapter_id(raw@),
{
    let t = trim_str(raw);
    if ends_with_str(t.as_str(), ".yaml") {
        proof {
            reveal_strlit(".yaml");
        }
        let v = chars_of(t.as_str());
        string_of_range(&v, 0, v.len() - 5)
    } else {
        t
    }
}

// ---------- engine defaults ----------

/// Required schema fields that the engine fills in when they are missing.
pub open spec fn engine_default(event_type: Seq<char>, field: Seq<char>) -> bool {
    ||| (event_type == "dialogue"@ && field == "character"@)
    ||| (event_type == "ai_dialogue"@ && field == "character"@)
    ||| (event_type == "free_dialogue"@ && field == "character"@)
    ||| (event_type == "modify_character"@ && field == "character"@)
    ||| (event_type == "chapter_end"@ && field == "end_type"@)
}

/// Whether the engine has a safe default for a field marked required in the schema.
pub fn has_engine_default(event_type: &str, field: &str) -> (r: bool)
    ensures
        r == engine_default(event_type@, field@),
{
    (str_eq(event_type, "dialogue") && str_eq(field, "character"))
        || (str_eq(event_type, "ai_dialogue") && str_eq(field, "character"))
        || (str_eq(event_type, "free_dialogue") && str_eq(field, "character"))
        || (str_eq(event_type, "modify_character") && str_eq(field, "character"))
        || (str_eq(event_type, "chapter_end") && str_eq(field, "end_type"))
}

// ---------- conditions ----------

pub const MSG_OP_PRE: &'static str = "条件里用了不支持的运算符「";
pub const MSG_OP_POST: &'static str = "」。只支持「变量 == 值」「变量 != 值」或单独一个变量判断真假——写了别的不会按你的意思执行（没赋过值的变量不会正常运作）";
pub const MSG_NOVAR_PRE: &'static str = "条件「";
pub const MSG_NOVAR_POST: &'static str = "」左侧没有变量名";
pub const MSG_BADVAR_PRE: &'static str = "变量名「";
pub const MSG_BADVAR_POST: &'static str = "」含空格，引擎的变量名不允许空格";
pub const MSG_PLACEHOLDER: &'static str = "condition 里的 %player% 不会被替换成玩家名";

/// The variable a (trimmed) condition reads: the left side of its first `!=`,
/// else of its first `==`, else the whole condition.
pub open spec fn cond_var(c: Seq<char>) -> Seq<char> {
    match find(c, "!="@) {
        Some(k) => trim(c.subrange(0, k)),
        None => match find(c, "=="@) {
            Some(k) => trim(c.subrange(0, k)),
            None => c,
        },
    }
}

/// The first unsupported operator (longest first) found in a variable name.
pub open spec fn bad_op(v: Seq<char>) -> Option<Seq<char>> {
    if contains(v, "&&"@) { Some("&&"@) }
    else if contains(v, "||"@) { Some("||"@) }
    else if contains(v, ">="@) { Some(">="@) }
    else if contains(v, "<="@) { Some("<="@) }
    else if contains(v, ">"@) { Some(">"@) }
    else if contains(v, "<"@) { Some("<"@) }
    else if contains(v, "!"@) { Some("!"@) }
    else if contains(v, "("@) { Some("("@) }
    else if contains(v, ")"@) { Some(")"@) }
    else { None }
}

/// The diagnostics a condition produces.
pub open spec fn condition_diags(cond: Seq<char>, cid: Seq<char>, i: usize) -> Seq<DiagView> {
    let c = trim(cond);
    let v = cond_var(c);
    if c.len() == 0 {
        Seq::empty()
    } else if bad_op(v) is Some {
        seq![with_field(event_diag(Severity::Error, "condition.unsupported_operator"@, cid, i,
            MSG_OP_PRE@ + bad_op(v)->0 + MSG_OP_POST@), "condition"@)]
    } else if v.len() == 0 {
        seq![with_field(event_diag(Severity::Error, "condition.no_variable"@, cid, i,
            MSG_NOVAR_PRE@ + c + MSG_NOVAR_POST@), "condition"@)]
    } else if contains(v, " "@) {
        seq![with_field(event_diag(Severity::Error, "condition.bad_variable"@, cid, i,
            MSG_BADVAR_PRE@ + v + MSG_BADVAR_POST@), "condition"@)]
    } else if contains(c, "%player%"@) {
        seq![with_field(event_diag(Severity::Warn, "condition.placeholder_not_replaced"@, cid, i,
            MSG_PLACEHOLDER@), "condition"@)]
    } else {
        Seq::empty()
    }
}

/// The variable a condition reads, when the condition is accepted.
pub open spec fn condition_read(cond: Seq<char>) -> Option<Seq<char>> {
    let c = trim(cond);
    let v = cond_var(c);
    if c.len() == 0 || bad_op(v) is Some || v.len() == 0 || contains(v, " "@) {
        None
    } else {
        Some(v)
    }
}

/// `vars` with the variable a condition reads added.
pub open spec fn add_read(vars: Set<Seq<char>>, cond: Seq<char>) -> Set<Seq<char>> {
    match condition_read(cond) {
        Some(v) => vars.insert(v),
        None => vars,
    }
}

fn bad_op_exec(v: &str) -> (r: Option<&'static str>)
    ensures
        r is Some <==> bad_op(v@) is Some,
        r is Some ==> r->0@ == bad_op(v@)->0,
{
    if contains_str(v, "&&") { Some("&&") }
    else if contains_str(v, "||") { Some("||") }
    else if contains_str(v, ">=") { Some(">=") }
    else if contains_str(v, "<=") { Some("<=") }
    else if contains_str(v, ">") { Some(">") }
    else if contains_str(v, "<") { Some("<") }
    else if contains_str(v, "!") { Some("!") }
    else if contains_str(v, "(") { Some("(") }
    else if contains_str(v, ")") { Some(")") }
    else { None }
}

fn cond_var_exec(c: &str) -> (r: String)
    ensures
        r@ == cond_var(c@),
{
    let v = chars_of(c);
    match find_str(c, "!=") {
        Some(k) => {
            proof { crate::text::lemma_find(c@, "!="@); }
            let left = string_of_range(&v, 0, k);
            trim_str(left.as_str())
        },
        None => match find_str(c, "==") {
            Some(k) => {
                proof { crate::text::lemma_find(c@, "=="@); }
                let left = string_of_range(&v, 0, k);
                trim_str(left.as_str())
            },
            None => owned(c),
        },
    }
}

/// Checks the syntax of a condition and records the variable it reads.
pub fn check_condition(cond: &str, cid: &str, i: usize, diags: &mut Vec<Diagnostic>, vars_read: &mut StrSet)
    requires
        old(vars_read).wf(),
    ensures
        dviews(final(diags)@) == dviews(old(diags)@) + condition_diags(cond@, cid@, i),
        final(vars_read).wf(),
        final(vars_read)@ == add_read(old(vars_read)@, cond@),
{
    let ghost d0 = diags@;
    let c = trim_str(cond);
    if is_blank(c.as_str()) {
        proof {
            crate::text::lemma_trim_idempotent(cond@);
            assert(dviews(diags@) =~= dviews(d0) + Seq::<DiagView>::empty());
        }
        return;
    }
    proof {
        crate::text::lemma_trim_idempotent(cond@);
    }
    let var = cond_var_exec(c.as_str());
    let d = match bad_op_exec(var.as_str()) {
        Some(op) => Some(Diagnostic::event(Severity::Error, "condition.unsupported_operator", cid, i,
            cat3(MSG_OP_PRE, op, MSG_OP_POST)).with_field("condition")),
        None => {
            if is_empty_str(var.as_str()) {
                Some(Diagnostic::event(Severity::Error, "condition.no_variable", cid, i,
                    cat3(MSG_NOVAR_PRE, c.as_str(), MSG_NOVAR_POST)).with_field("condition"))
            } else if contains_str(var.as_str(), " ") {
                Some(Diagnostic::event(Severity::Error, "condition.bad_variable", cid, i,
                    cat3(MSG_BADVAR_PRE, var.as_str(), MSG_BADVAR_POST)).with_field("condition"))
            } else {
                let placeholder = contains_str(c.as_str(), "%player%");
                vars_read.insert(var.as_str());
                if placeholder {
                    Some(Diagnostic::event(Severity::Warn, "condition.placeholder_not_replaced", cid, i,
                        owned(MSG_PLACEHOLDER)).with_field("condition"))
                } else {
                    None
                }
            }
        },
    };
    match d {
        Some(d) => {
            diags.push(d);
            proof {
                lemma_dviews_push(d0, d);
                assert(condition_diags(cond@, cid@, i) =~= seq![d@]);
            }
        },
        None => {
            proof {
                assert(dviews(diags@) =~= dviews(d0) + Seq::<DiagView>::empty());
                assert(condition_diags(cond@, cid@, i) =~= Seq::<DiagView>::empty());
            }
        },
    }
}

/// Whether `s` has no characters.
pub fn is_empty_str(s: &str) -> (r: bool)
    ensures
        r == (s@.len() == 0),
{
    chars_of(s).len() == 0
}

// ---------- variable assignments ----------

/// A parsed assignment `name op value`, with `op` one of `=`, `+=`, `-=`.
pub struct VariableAction {
    pub op: String,
    pub name: String,
    pub value: String,
}

/// The operator of an assignment whose first `=` is at `k`.
pub open spec fn assign_op(c: Seq<char>, k: int) -> Seq<char> {
    if k > 0 && c[k - 1] == '+' {
        "+="@
    } else if k > 0 && c[k - 1] == '-' {
        "-="@
    } else {
        "="@
    }
}

/// The assignment an expression states, if it is one: the left side of the
/// first `=` (minus a `+` or `-` right before it) is the variable, which must
/// not be blank; the right side is the value.
pub open spec fn parse_assignment(content: Seq<char>) -> Option<(Seq<char>, Seq<char>, Seq<char>)> {
    match find(content, "="@) {
        None => None,
        Some(k) => {
            let op = assign_op(content, k);
            let name = trim(content.subrange(0, k + 1 - op.len()));
            let value = trim(content.subrange(k + 1, content.len() as int));
            if name.len() == 0 {
                None
            } else {
                Some((op, name, value))
            }
        },
    }
}

/// Parses a `set_var` expression: `var = value`, `var += value` or `var -= value`.
pub fn parse_variable_action(content: &str) -> (r: Option<VariableAction>)
    ensures
        r is Some <==> parse_assignment(content@) is Some,
        r is Some ==> (r->0.op@, r->0.name@, r->0.value@) == parse_assignment(content@)->0,
{
    let v = chars_of(content);
    match find_str(content, "=") {
        None => None,
        Some(k) => {
            proof {
                crate::text::lemma_find(content@, "="@);
                reveal_strlit("=");
                reveal_strlit("+=");
                reveal_strlit("-=");
            }
            let op = if k > 0 && v[k - 1] == '+' {
                owned("+=")
            } else if k > 0 && v[k - 1] == '-' {
                owned("-=")
            } else {
                owned("=")
            };
            let cut: usize = if k > 0 && (v[k - 1] == '+' || v[k - 1] == '-') { k - 1 } else { k };
            let left = string_of_range(&v, 0, cut);
            let name = trim_str(left.as_str());
            let right = string_of_range(&v, k + 1, v.len());
            let value = trim_str(right.as_str());
            if is_empty_str(name.as_str()) {
                None
            } else {
                Some(VariableAction { op, name, value })
            }
        },
    }
}

// ---------- actions ----------

pub const MSG_ACTION_NOT_MAP: &'static str = "action 必须是键值映射";
pub const MSG_LEGACY: &'static str = "这条设置变量是旧版本遗留下来的写法，运行时会被跳过。请改写成「变量名 等于/加/减 值」的形式，如 flag = warm";
pub const MSG_EMPTY_EXPR: &'static str = "表达式为空，请填 变量 = 值 / 变量 += 值 / 变量 -= 值";
pub const MSG_BAD_EXPR_PRE: &'static str = "变量表达式「";
pub const MSG_BAD_EXPR_POST: &'static str = "」无法解析。格式为 变量 = 值 / 变量 += 值 / 变量 -= 值（只有这三个运算符）";
pub const MSG_NOT_HERE: &'static str = "「设置变量」事件只处理 set_var，这里的 add_line 会被静默忽略";
pub const MSG_EMPTY_CONTENT: &'static str = "add_line 的内容为空";
pub const MSG_UNKNOWN_ACTION_PRE: &'static str = "未知的动作类型「";
pub const MSG_UNKNOWN_ACTION_POST: &'static str = "」，会被静默忽略";

pub open spec fn str_or_empty(o: Option<Seq<char>>) -> Seq<char> {
    match o {
        Some(s) => s,
        None => Seq::empty(),
    }
}

/// The diagnostics one action produces inside an event of type `et`.
pub open spec fn action_diags(a: JsonValue, et: Seq<char>, cid: Seq<char>, i: usize) -> Seq<DiagView> {
    match a {
        JsonValue::Object(m) => {
            let at = str_or_empty(get_str(m@, "type"@));
            let content = str_or_empty(get_str(m@, "content"@));
            if at == "set_var"@ {
                if trim(content).len() == 0 {
                    if has_key(m@, "name"@) || has_key(m@, "value"@) || has_key(m@, "op"@) {
                        seq![event_diag(Severity::Error, "action.legacy_shape"@, cid, i, MSG_LEGACY@)]
                    } else {
                        seq![event_diag(Severity::Error, "action.empty_expression"@, cid, i, MSG_EMPTY_EXPR@)]
                    }
                } else if parse_assignment(content) is Some {
                    Seq::empty()
                } else {
                    seq![event_diag(Severity::Error, "action.bad_expression"@, cid, i,
                        MSG_BAD_EXPR_PRE@ + content + MSG_BAD_EXPR_POST@)]
                }
            } else if at == "add_line"@ {
                (if et == "set_variable"@ {
                    seq![event_diag(Severity::Warn, "action.not_supported_here"@, cid, i, MSG_NOT_HERE@)]
                } else {
                    Seq::empty()
                }) + (if trim(content).len() == 0 {
                    seq![event_diag(Severity::Warn, "action.empty_content"@, cid, i, MSG_EMPTY_CONTENT@)]
                } else {
                    Seq::empty()
                })
            } else {
                seq![event_diag(Severity::Warn, "action.unknown_type"@, cid, i,
                    MSG_UNKNOWN_ACTION_PRE@ + at + MSG_UNKNOWN_ACTION_POST@)]
            }
        },
        _ => seq![event_diag(Severity::Error, "action.not_a_map"@, cid, i, MSG_ACTION_NOT_MAP@)],
    }
}

/// The variable one action assigns, if it is a well-formed `set_var`.
pub open spec fn action_written(a: JsonValue) -> Option<Seq<char>> {
    match a {
        JsonValue::Object(m) => {
            let at = str_or_empty(get_str(m@, "type"@));
            let content = str_or_empty(get_str(m@, "content"@));
            if at == "set_var"@ && trim(content).len() != 0 && parse_assignment(content) is Some {
                Some((parse_assignment(content)->0).1)
            } else {
                None
            }
        },
        _ => None,
    }
}

pub open spec fn actions_diags(acts: Seq<JsonValue>, et: Seq<char>, cid: Seq<char>, i: usize) -> Seq<DiagView>
    decreases acts.len(),
{
    if acts.len() == 0 {
        Seq::empty()
    } else {
        actions_diags(acts.drop_last(), et, cid, i) + action_diags(acts.last(), et, cid, i)
    }
}

pub open spec fn add_written(vars: Set<Seq<char>>, acts: Seq<JsonValue>) -> Set<Seq<char>>
    decreases acts.len(),
{
    if acts.len() == 0 {
        vars
    } else {
        let v = add_written(vars, acts.drop_last());
        match action_written(acts.last()) {
            Some(n) => v.insert(n),
            None => v,
        }
    }
}

fn check_action(a: &JsonValue, event_type: &str, cid: &str, i: usize, diags: &mut Vec<Diagnostic>, vars_written: &mut StrSet)
    requires
        old(vars_written).wf(),
    ensures
        dviews(final(diags)@) == dviews(old(diags)@) + action_diags(*a, event_type@, cid@, i),
        final(vars_written).wf(),
        final(vars_written)@ == (match action_written(*a) {
            Some(n) => old(vars_written)@.insert(n),
            None => old(vars_written)@,
        }),
{
    let ghost d0 = diags@;
    let ao = match a {
        JsonValue::Object(m) => m,
        _ => {
            let d = Diagnostic::event(Severity::Error, "action.not_a_map", cid, i, owned(MSG_ACTION_NOT_MAP));
            diags.push(d);
            proof {
                lemma_dviews_push(d0, d);
            }
            return;
        },
    };
    let at: &str = match get_str_exec(ao, "type") {
        Some(t) => t,
        None => "",
    };
    let content: &str = match get_str_exec(ao, "content") {
        Some(t) => t,
        None => "",
    };
    proof {
        reveal_strlit("");
        assert(at@ =~= str_or_empty(get_str(ao@, "type"@)));
        assert(content@ =~= str_or_empty(get_str(ao@, "content"@)));
    }
    if str_eq(at, "set_var") {
        if is_blank(content) {
            let d = if contains_key(ao, "name") || contains_key(ao, "value") || contains_key(ao, "op") {
                Diagnostic::event(Severity::Error, "action.legacy_shape", cid, i, owned(MSG_LEGACY))
            } else {
                Diagnostic::event(Severity::Error, "action.empty_expression", cid, i, owned(MSG_EMPTY_EXPR))
            };
            diags.push(d);
            proof {
                lemma_dviews_push(d0, d);
            }
        } else {
            match parse_variable_action(content) {
                Some(act) => {
                    vars_written.insert(act.name.as_str());
                    proof {
                        assert(dviews(diags@) =~= dviews(d0) + Seq::<DiagView>::empty());
                    }
                },
                None => {
                    let d = Diagnostic::event(Severity::Error, "action.bad_expression", cid, i,
                        cat3(MSG_BAD_EXPR_PRE, content, MSG_BAD_EXPR_POST));
                    diags.push(d);
                    proof {
                        lemma_dviews_push(d0, d);
                    }
                },
            }
        }
    } else if str_eq(at, "add_line") {
        if str_eq(event_type, "set_variable") {
            let d = Diagnostic::event(Severity::Warn, "action.not_supported_here", cid, i, owned(MSG_NOT_HERE));
            diags.push(d);
            proof {
                lemma_dviews_push(d0, d);
            }
        }
        let ghost d1 = diags@;
        if is_blank(content) {
            let d = Diagnostic::event(Severity::Warn, "action.empty_content", cid, i, owned(MSG_EMPTY_CONTENT));
            diags.push(d);
            proof {
                lemma_dviews_push(d1, d);
            }
        }
        proof {
            assert(dviews(diags@) =~= dviews(d0) + action_diags(*a, event_type@, cid@, i));
        }
    } else {
        let d = Diagnostic::event(Severity::Warn, "action.unknown_type", cid, i,
            cat3(MSG_UNKNOWN_ACTION_PRE, at, MSG_UNKNOWN_ACTION_POST));
        diags.push(d);
        proof {
            lemma_dviews_push(d0, d);
        }
    }
}

/// Checks the actions of an option (`set_var` / `add_line`) and records the
/// variables they assign.
pub fn check_actions(actions: &Vec<JsonValue>, event_type: &str, cid: &str, i: usize, diags: &mut Vec<Diagnostic>, vars_written: &mut StrSet)
    requires
        old(vars_written).wf(),
    ensures
        dviews(final(diags)@) == dviews(old(diags)@) + actions_diags(actions@, event_type@, cid@, i),
        final(vars_written).wf(),
        final(vars_written)@ == add_written(old(vars_written)@, actions@),
{
    let ghost d0 = diags@;
    let ghost w0 = vars_written@;
    let mut k: usize = 0;
    proof {
        assert(dviews(diags@) =~= dviews(d0) + actions_diags(actions@.subrange(0, 0), event_type@, cid@, i));
        assert(vars_written@ == add_written(w0, actions@.subrange(0, 0)));
    }
    while k < actions.len()
        invariant
            k <= actions@.len(),
            vars_written.wf(),
            dviews(diags@) == dviews(d0) + actions_diags(actions@.subrange(0, k as int), event_type@, cid@, i),
            vars_written@ == add_written(w0, actions@.subrange(0, k as int)),
        decreases actions@.len() - k,
    {
        let ghost pre = actions@.subrange(0, k + 1);
        proof {
            assert(pre.drop_last() =~= actions@.subrange(0, k as int));
            assert(pre.last() == actions@[k as int]);
        }
        check_action(&actions[k], event_type, cid, i, diags, vars_written);
        proof {
            assert(dviews(diags@) =~= dviews(d0) + actions_diags(pre, event_type@, cid@, i));
        }
        k = k + 1;
    }
    assert(actions@.subrange(0, k as int) =~= actions@);
}

// ---------- choices ----------

pub const MSG_CHOICES_EMPTY: &'static str = "选项列表是空的，玩家无从选择";
pub const MSG_NTH: &'static str = "第 ";
pub const MSG_OPT_NOT_MAP_POST: &'static str = " 个选项不是键值映射";
pub const MSG_CATCH_COND_POST: &'static str = " 个选项没有文案但带了条件：条件满足时会匹配任意输入、吞掉后面的选项，条件不满足时才会轮到后面";
pub const MSG_CATCH_POST: &'static str = " 个选项没有文案。这类选项会匹配任意输入，放在中间会让后面的选项永远选不到";
pub const MSG_DUP_PRE: &'static str = "选项文案「";
pub const MSG_DUP_POST: &'static str = "」重复，后一个永远选不到";
pub const MSG_TEXT_PLACEHOLDER_POST: &'static str = " 个选项的文案里有 %player%，但引擎只替换顶层字段，按钮上会原样显示";
pub const MSG_OPT_NEXT_POST: &'static str = " 个选项写了 next，但 choices 不支持选项级跳转，该字段被完全忽略。要按选择分支，请用 set_var 记录选择 + 章节结束的 branching";
pub const MSG_LOCK_HINT_POST: &'static str = " 个选项填了不可选提示，但没有设置条件——选项不会变灰，这句提示永远不会显示";

/// "第 n" for the `k`-th (0-based) option.
pub open spec fn nth(k: int) -> Seq<char> {
    MSG_NTH@ + decimal((k + 1) as nat)
}

fn nth_msg(k: usize, post: &str) -> (r: String)
    requires
        k < usize::MAX,
    ensures
        r@ == nth(k as int) + post@,
{
    let n = decimal_string(k + 1);
    cat3(MSG_NTH, n.as_str(), post)
}

/// The option carries a non-blank condition.
pub open spec fn has_condition(m: Seq<(String, JsonValue)>) -> bool {
    get_str(m, "condition"@) is Some && trim(get_str(m, "condition"@)->0).len() != 0
}

/// Non-empty texts of the object options in `opts`.
pub open spec fn texts_seen(opts: Seq<JsonValue>) -> Set<Seq<char>>
    decreases opts.len(),
{
    if opts.len() == 0 {
        Set::empty()
    } else {
        let s = texts_seen(opts.drop_last());
        match opts.last() {
            JsonValue::Object(m) => {
                let t = str_or_empty(get_str(m@, "text"@));
                if t.len() > 0 { s.insert(t) } else { s }
            },
            _ => s,
        }
    }
}

/// What an option's text produces: catch-all, duplicate and placeholder findings.
pub open spec fn option_text_diags(m: Seq<(String, JsonValue)>, oi: int, last: int, seen: Set<Seq<char>>, cid: Seq<char>, i: usize) -> Seq<DiagView> {
    let text = str_or_empty(get_str(m, "text"@));
    if text.len() == 0 {
        if oi != last {
            if has_condition(m) {
                seq![event_diag(Severity::Info, "choices.catch_all_conditional"@, cid, i, nth(oi) + MSG_CATCH_COND_POST@)]
            } else {
                seq![event_diag(Severity::Warn, "choices.catch_all_not_last"@, cid, i, nth(oi) + MSG_CATCH_POST@)]
            }
        } else {
            Seq::empty()
        }
    } else {
        (if seen.contains(text) {
            seq![event_diag(Severity::Warn, "choices.duplicate_text"@, cid, i, MSG_DUP_PRE@ + text + MSG_DUP_POST@)]
        } else {
            Seq::empty()
        }) + (if contains(text, "%player%"@) {
            seq![event_diag(Severity::Warn, "choices.placeholder_in_text"@, cid, i, nth(oi) + MSG_TEXT_PLACEHOLDER_POST@)]
        } else {
            Seq::empty()
        })
    }
}

/// What the rest of an option produces: ignored `next`, its condition (or a
/// lock hint without one), and its actions.
pub open spec fn option_rest_diags(m: Seq<(String, JsonValue)>, oi: int, cid: Seq<char>, i: usize) -> Seq<DiagView> {
    let part2 = if has_key(m, "next"@) {
        seq![event_diag(Severity::Error, "choices.option_next_ignored"@, cid, i, nth(oi) + MSG_OPT_NEXT_POST@)]
    } else {
        Seq::empty()
    };
    let part3 = match get_str(m, "condition"@) {
        Some(c) => condition_diags(c, cid, i),
        None => if has_key(m, "lock_hint"@) {
            seq![event_diag(Severity::Info, "choices.lock_hint_without_condition"@, cid, i, nth(oi) + MSG_LOCK_HINT_POST@)]
        } else {
            Seq::empty()
        },
    };
    let part4 = match get_array(m, "actions"@) {
        Some(a) => actions_diags(a, "choices"@, cid, i),
        None => Seq::empty(),
    };
    part2 + part3 + part4
}

/// The diagnostics of the `oi`-th choice option, given the texts seen before it.
pub open spec fn choice_option_diags(opt: JsonValue, oi: int, last: int, seen: Set<Seq<char>>, cid: Seq<char>, i: usize) -> Seq<DiagView> {
    match opt {
        JsonValue::Object(m) => option_text_diags(m@, oi, last, seen, cid, i) + option_rest_diags(m@, oi, cid, i),
        _ => seq![event_diag(Severity::Error, "choices.option_not_a_map"@, cid, i, nth(oi) + MSG_OPT_NOT_MAP_POST@)],
    }
}

/// Variables read by an option's condition.
pub open spec fn option_read(vars: Set<Seq<char>>, opt: JsonValue) -> Set<Seq<char>> {
    match opt {
        JsonValue::Object(m) => match get_str(m@, "condition"@) {
            Some(c) => add_read(vars, c),
            None => vars,
        },
        _ => vars,
    }
}

/// Variables assigned by an option's actions.
pub open spec fn option_written(vars: Set<Seq<char>>, opt: JsonValue) -> Set<Seq<char>> {
    match opt {
        JsonValue::Object(m) => match get_array(m@, "actions"@) {
            Some(a) => add_written(vars, a),
            None => vars,
        },
        _ => vars,
    }
}

pub open spec fn options_read(vars: Set<Seq<char>>, opts: Seq<JsonValue>) -> Set<Seq<char>>
    decreases opts.len(),
{
    if opts.len() == 0 { vars } else { option_read(options_read(vars, opts.drop_last()), opts.last()) }
}

pub open spec fn options_written(vars: Set<Seq<char>>, opts: Seq<JsonValue>) -> Set<Seq<char>>
    decreases opts.len(),
{
    if opts.len() == 0 { vars } else { option_written(options_written(vars, opts.drop_last()), opts.last()) }
}

pub open spec fn choice_options_diags(opts: Seq<JsonValue>, last: int, cid: Seq<char>, i: usize) -> Seq<DiagView>
    decreases opts.len(),
{
    if opts.len() == 0 {
        Seq::empty()
    } else {
        choice_options_diags(opts.drop_last(), last, cid, i)
            + choice_option_diags(opts.last(), opts.len() - 1, last, texts_seen(opts.drop_last()), cid, i)
    }
}

/// The diagnostics of a `choices` event.
pub open spec fn choices_diags(m: Seq<(String, JsonValue)>, cid: Seq<char>, i: usize) -> Seq<DiagView> {
    match get_array(m, "options"@) {
        None => Seq::empty(),
        Some(o) => if o.len() == 0 {
            seq![event_diag(Severity::Error, "choices.empty"@, cid, i, MSG_CHOICES_EMPTY@)]
        } else {
            choice_options_diags(o, o.len() - 1, cid, i)
        },
    }
}

pub open spec fn choices_read(vars: Set<Seq<char>>, m: Seq<(String, JsonValue)>) -> Set<Seq<char>> {
    match get_array(m, "options"@) {
        Some(o) => options_read(vars, o),
        None => vars,
    }
}

pub open spec fn choices_written(vars: Set<Seq<char>>, m: Seq<(String, JsonValue)>) -> Set<Seq<char>> {
    match get_array(m, "options"@) {
        Some(o) => options_written(vars, o),
        None => vars,
    }
}

fn push_diag(diags: &mut Vec<Diagnostic>, d: Diagnostic)
    ensures
        dviews(final(diags)@) == dviews(old(diags)@).push(d@),
{
    let ghost d0 = diags@;
    diags.push(d);
    proof {
        lemma_dviews_push(d0, d);
    }
}

fn check_option_text(oo: &Vec<(String, JsonValue)>, oi: usize, last: usize, seen: &mut StrSet, cid: &str, i: usize,
    diags: &mut Vec<Diagnostic>)
    requires
        oi < usize::MAX,
        old(seen).wf(),
    ensures
        dviews(final(diags)@) == dviews(old(diags)@) + option_text_diags(oo@, oi as int, last as int, old(seen)@, cid@, i),
        final(seen).wf(),
        final(seen)@ == (if str_or_empty(get_str(oo@, "text"@)).len() > 0 {
            old(seen)@.insert(str_or_empty(get_str(oo@, "text"@)))
        } else {
            old(seen)@
        }),
{
    let ghost d0 = diags@;
    let text: &str = match get_str_exec(oo, "text") {
        Some(t) => t,
        None => "",
    };
    proof {
        reveal_strlit("");
        assert(text@ =~= str_or_empty(get_str(oo@, "text"@)));
    }
    if is_empty_str(text) {
        if oi != last {
            let has_cond = match get_str_exec(oo, "condition") {
                Some(c) => !is_blank(c),
                None => false,
            };
            if has_cond {
                push_diag(diags, Diagnostic::event(Severity::Info, "choices.catch_all_conditional", cid, i, nth_msg(oi, MSG_CATCH_COND_POST)));
            } else {
                push_diag(diags, Diagnostic::event(Severity::Warn, "choices.catch_all_not_last", cid, i, nth_msg(oi, MSG_CATCH_POST)));
            }
        }
        proof {
            assert(dviews(diags@) =~= dviews(d0) + option_text_diags(oo@, oi as int, last as int, old(seen)@, cid@, i));
        }
    } else {
        if !seen.insert(text) {
            push_diag(diags, Diagnostic::event(Severity::Warn, "choices.duplicate_text", cid, i, cat3(MSG_DUP_PRE, text, MSG_DUP_POST)));
        }
        let ghost d1 = diags@;
        if contains_str(text, "%player%") {
            push_diag(diags, Diagnostic::event(Severity::Warn, "choices.placeholder_in_text", cid, i, nth_msg(oi, MSG_TEXT_PLACEHOLDER_POST)));
        }
        proof {
            assert(dviews(diags@) =~= dviews(d0) + option_text_diags(oo@, oi as int, last as int, old(seen)@, cid@, i));
        }
    }
}

fn check_option_rest(oo: &Vec<(String, JsonValue)>, oi: usize, cid: &str, i: usize,
    diags: &mut Vec<Diagnostic>, vars_written: &mut StrSet, vars_read: &mut StrSet)
    requires
        oi < usize::MAX,
        old(vars_written).wf(),
        old(vars_read).wf(),
    ensures
        dviews(final(diags)@) == dviews(old(diags)@) + option_rest_diags(oo@, oi as int, cid@, i),
        final(vars_written).wf(),
        final(vars_read).wf(),
        final(vars_written)@ == option_written(old(vars_written)@, JsonValue::Object(*oo)),
        final(vars_read)@ == option_read(old(vars_read)@, JsonValue::Object(*oo)),
{
    let ghost d0 = diags@;
    if contains_key(oo, "next") {
        push_diag(diags, Diagnostic::event(Severity::Error, "choices.option_next_ignored", cid, i, nth_msg(oi, MSG_OPT_NEXT_POST)));
    }
    let ghost d1 = diags@;
    match get_str_exec(oo, "condition") {
        Some(c) => {
            check_condition(c, cid, i, diags, vars_read);
        },
        None => {
            if contains_key(oo, "lock_hint") {
                push_diag(diags, Diagnostic::event(Severity::Info, "choices.lock_hint_without_condition", cid, i, nth_msg(oi, MSG_LOCK_HINT_POST)));
            }
        },
    }
    let ghost d2 = diags@;
    match get_array_exec(oo, "actions") {
        Some(actions) => {
            check_actions(actions, "choices", cid, i, diags, vars_written);
        },
        None => {},
    }
    proof {
        assert(dviews(diags@) =~= dviews(d0) + option_rest_diags(oo@, oi as int, cid@, i));
    }
}

fn check_choice_option(opt: &JsonValue, oi: usize, last: usize, seen: &mut StrSet, cid: &str, i: usize,
    diags: &mut Vec<Diagnostic>, vars_written: &mut StrSet, vars_read: &mut StrSet)
    requires
        oi < usize::MAX,
        old(seen).wf(),
        old(vars_written).wf(),
        old(vars_read).wf(),
    ensures
        dviews(final(diags)@) == dviews(old(diags)@) + choice_option_diags(*opt, oi as int, last as int, old(seen)@, cid@, i),
        final(seen).wf(),
        final(seen)@ == (match *opt {
            JsonValue::Object(m) => {
                let t = str_or_empty(get_str(m@, "text"@));
                if t.len() > 0 { old(seen)@.insert(t) } else { old(seen)@ }
            },
            _ => old(seen)@,
        }),
        final(vars_written).wf(),
        final(vars_read).wf(),
        final(vars_written)@ == option_written(old(vars_written)@, *opt),
        final(vars_read)@ == option_read(old(vars_read)@, *opt),
{
    let ghost d0 = diags@;
    match opt {
        JsonValue::Object(oo) => {
            check_option_text(oo, oi, last, seen, cid, i, diags);
            let ghost d1 = diags@;
            check_option_rest(oo, oi, cid, i, diags, vars_written, vars_read);
            proof {
                assert(dviews(diags@) =~= dviews(d0) + choice_option_diags(*opt, oi as int, last as int, old(seen)@, cid@, i));
            }
        },
        _ => {
            push_diag(diags, Diagnostic::event(Severity::Error, "choices.option_not_a_map", cid, i, nth_msg(oi, MSG_OPT_NOT_MAP_POST)));
        },
    }
}

/// Checks a `choices` event: empty lists, catch-all options that are not last,
/// duplicate texts, option-level `next`, conditions and actions.
pub fn check_choices(obj: &Vec<(String, JsonValue)>, cid: &str, i: usize, diags: &mut Vec<Diagnostic>,
    vars_written: &mut StrSet, vars_read: &mut StrSet)
    requires
        old(vars_written).wf(),
        old(vars_read).wf(),
    ensures
        dviews(final(diags)@) == dviews(old(diags)@) + choices_diags(obj@, cid@, i),
        final(vars_written).wf(),
        final(vars_read).wf(),
        final(vars_written)@ == choices_written(old(vars_written)@, obj@),
        final(vars_read)@ == choices_read(old(vars_read)@, obj@),
{
    let ghost d0 = diags@;
    let ghost w0 = vars_written@;
    let ghost r0 = vars_read@;
    let options = match get_array_exec(obj, "options") {
        Some(o) => o,
        None => {
            proof {
                assert(dviews(diags@) =~= dviews(d0) + Seq::<DiagView>::empty());
            }
            return;
        },
    };
    if options.len() == 0 {
        push_diag(diags, Diagnostic::event(Severity::Error, "choices.empty", cid, i, owned(MSG_CHOICES_EMPTY)));
        proof {
            assert(options@ =~= Seq::<JsonValue>::empty());
        }
        return;
    }
    let last = options.len() - 1;
    let mut seen = StrSet::new();
    let mut k: usize = 0;
    proof {
        assert(dviews(diags@) =~= dviews(d0) + choice_options_diags(options@.subrange(0, 0), last as int, cid@, i));
        assert(seen@ =~= texts_seen(options@.subrange(0, 0)));
    }
    while k < options.len()
        invariant
            k <= options@.len(),
            last + 1 == options@.len(),
            seen.wf(),
            vars_written.wf(),
            vars_read.wf(),
            seen@ == texts_seen(options@.subrange(0, k as int)),
            dviews(diags@) == dviews(d0) + choice_options_diags(options@.subrange(0, k as int), last as int, cid@, i),
            vars_written@ == options_written(w0, options@.subrange(0, k as int)),
            vars_read@ == options_read(r0, options@.subrange(0, k as int)),
        decreases options@.len() - k,
    {
        let ghost pre = options@.subrange(0, k + 1);
        proof {
            assert(pre.drop_last() =~= options@.subrange(0, k as int));
            assert(pre.last() == options@[k as int]);
        }
        check_choice_option(&options[k], k, last, &mut seen, cid, i, diags, vars_written, vars_read);
        proof {
            assert(dviews(diags@) =~= dviews(d0) + choice_options_diags(pre, last as int, cid@, i));
        }
        k = k + 1;
    }
    assert(options@.subrange(0, k as int) =~= options@);
}

// ---------- set_variable ----------

pub const MSG_SETVAR_NO_OPTIONS: &'static str = "「设置变量」需要 options 列表。注意它的形状是 options[].actions[]，不是直接写 name/value";
pub const MSG_SETVAR_EMPTY: &'static str = "赋值组是空的，这个事件什么都不做";

/// The diagnostics of one assignment group of a `set_variable` event.
pub open spec fn setvar_option_diags(opt: JsonValue, cid: Seq<char>, i: usize) -> Seq<DiagView> {
    match opt {
        JsonValue::Object(m) => (match get_str(m@, "condition"@) {
            Some(c) => condition_diags(c, cid, i),
            None => Seq::empty(),
        }) + (match get_array(m@, "actions"@) {
            Some(a) => actions_diags(a, "set_variable"@, cid, i),
            None => Seq::empty(),
        }),
        _ => Seq::empty(),
    }
}

pub open spec fn setvar_options_diags(opts: Seq<JsonValue>, cid: Seq<char>, i: usize) -> Seq<DiagView>
    decreases opts.len(),
{
    if opts.len() == 0 {
        Seq::empty()
    } else {
        setvar_options_diags(opts.drop_last(), cid, i) + setvar_option_diags(opts.last(), cid, i)
    }
}

/// The diagnostics of a `set_variable` event.
pub open spec fn set_variable_diags(m: Seq<(String, JsonValue)>, cid: Seq<char>, i: usize) -> Seq<DiagView> {
    match get_array(m, "options"@) {
        None => seq![event_diag(Severity::Error, "set_variable.no_options"@, cid, i, MSG_SETVAR_NO_OPTIONS@)],
        Some(o) => (if o.len() == 0 {
            seq![event_diag(Severity::Warn, "set_variable.empty"@, cid, i, MSG_SETVAR_EMPTY@)]
        } else {
            Seq::empty()
        }) + setvar_options_diags(o, cid, i),
    }
}

fn check_setvar_option(opt: &JsonValue, cid: &str, i: usize, diags: &mut Vec<Diagnostic>,
    vars_written: &mut StrSet, vars_read: &mut StrSet)
    requires
        old(vars_written).wf(),
        old(vars_read).wf(),
    ensures
        dviews(final(diags)@) == dviews(old(diags)@) + setvar_option_diags(*opt, cid@, i),
        final(vars_written).wf(),
        final(vars_read).wf(),
        final(vars_written)@ == option_written(old(vars_written)@, *opt),
        final(vars_read)@ == option_read(old(vars_read)@, *opt),
{
    let ghost d0 = diags@;
    match opt {
        JsonValue::Object(oo) => {
            match get_str_exec(oo, "condition") {
                Some(c) => {
                    check_condition(c, cid, i, diags, vars_read);
                },
                None => {},
            }
            let ghost d1 = diags@;
            match get_array_exec(oo, "actions") {
                Some(actions) => {
                    check_actions(actions, "set_variable", cid, i, diags, vars_written);
                },
                None => {},
            }
            proof {
                assert(dviews(diags@) =~= dviews(d0) + setvar_option_diags(*opt, cid@, i));
            }
        },
        _ => {
            proof {
                assert(dviews(diags@) =~= dviews(d0) + Seq::<DiagView>::empty());
            }
        },
    }
}

/// Checks a `set_variable` event (shape `options[].actions[]`).
pub fn check_set_variable(obj: &Vec<(String, JsonValue)>, cid: &str, i: usize, diags: &mut Vec<Diagnostic>,
    vars_written: &mut StrSet, vars_read: &mut StrSet)
    requires
        old(vars_written).wf(),
        old(vars_read).wf(),
    ensures
        dviews(final(diags)@) == dviews(old(diags)@) + set_variable_diags(obj@, cid@, i),
        final(vars_written).wf(),
        final(vars_read).wf(),
        final(vars_written)@ == choices_written(old(vars_written)@, obj@),
        final(vars_read)@ == choices_read(old(vars_read)@, obj@),
{
    let ghost d0 = diags@;
    let ghost w0 = vars_written@;
    let ghost r0 = vars_read@;
    let options = match get_array_exec(obj, "options") {
        Some(o) => o,
        None => {
            push_diag(diags, Diagnostic::event(Severity::Error, "set_variable.no_options", cid, i, owned(MSG_SETVAR_NO_OPTIONS)));
            return;
        },
    };
    if options.len() == 0 {
        push_diag(diags, Diagnostic::event(Severity::Warn, "set_variable.empty", cid, i, owned(MSG_SETVAR_EMPTY)));
    }
    let ghost d1 = diags@;
    let mut k: usize = 0;
    proof {
        assert(dviews(diags@) =~= dviews(d1) + setvar_options_diags(options@.subrange(0, 0), cid@, i));
    }
    while k < options.len()
        invariant
            k <= options@.len(),
            vars_written.wf(),
            vars_read.wf(),
            dviews(diags@) == dviews(d1) + setvar_options_diags(options@.subrange(0, k as int), cid@, i),
            vars_written@ == options_written(w0, options@.subrange(0, k as int)),
            vars_read@ == options_read(r0, options@.subrange(0, k as int)),
        decreases options@.len() - k,
    {
        let ghost pre = options@.subrange(0, k + 1);
        proof {
            assert(pre.drop_last() =~= options@.subrange(0, k as int));
            assert(pre.last() == options@[k as int]);
        }
        check_setvar_option(&options[k], cid, i, diags, vars_written, vars_read);
        proof {
            assert(dviews(diags@) =~= dviews(d1) + setvar_options_diags(pre, cid@, i));
        }
        k = k + 1;
    }
    proof {
        assert(options@.subrange(0, k as int) =~= options@);
        assert(dviews(diags@) =~= dviews(d0) + set_variable_diags(obj@, cid@, i));
    }
}

// ---------- modify_character ----------

pub const MSG_ACTION_UNKNOWN_PRE: &'static str = "动作「";
pub const MSG_ACTION_UNKNOWN_POST: &'static str = "」引擎不识别，会被静默忽略。可用值：show_character（登场）/ hide_character（退场）";

/// The diagnostics of a `modify_character` event's action.
pub open spec fn modify_character_diags(m: Seq<(String, JsonValue)>, cid: Seq<char>, i: usize) -> Seq<DiagView> {
    match get_str(m, "action"@) {
        Some(a) => if a != "show_character"@ && a != "hide_character"@ {
            seq![with_field(event_diag(Severity::Warn, "character.action_unknown"@, cid, i,
                MSG_ACTION_UNKNOWN_PRE@ + a + MSG_ACTION_UNKNOWN_POST@), "action"@)]
        } else {
            Seq::empty()
        },
        None => Seq::empty(),
    }
}

/// The engine only knows `show_character` and `hide_character`; anything else
/// is silently ignored.
pub fn check_modify_character_action(obj: &Vec<(String, JsonValue)>, cid: &str, i: usize, diags: &mut Vec<Diagnostic>)
    ensures
        dviews(final(diags)@) == dviews(old(diags)@) + modify_character_diags(obj@, cid@, i),
{
    let ghost d0 = diags@;
    match get_str_exec(obj, "action") {
        Some(action) => {
            if !str_eq(action, "show_character") && !str_eq(action, "hide_character") {
                push_diag(diags, Diagnostic::event(Severity::Warn, "character.action_unknown", cid, i,
                    cat3(MSG_ACTION_UNKNOWN_PRE, action, MSG_ACTION_UNKNOWN_POST)).with_field("action"));
                proof {
                    assert(dviews(diags@) =~= dviews(d0) + modify_character_diags(obj@, cid@, i));
                }
            } else {
                proof {
                    assert(dviews(diags@) =~= dviews(d0) + modify_character_diags(obj@, cid@, i));
                }
            }
        },
        None => {
            proof {
                assert(dviews(diags@) =~= dviews(d0) + modify_character_diags(obj@, cid@, i));
            }
        },
    }
}

// ---------- assets ----------

/// The kinds of media a script event can reference.
#[derive(Debug, Clone, Copy, PartialEq, Eq, Structural)]
pub enum MediaType {
    Background,
    Pic,
    Music,
    Sound,
    Ambient,
}

/// The field holding the media path of an event type, and its media kind.
pub open spec fn media_field(ty: Seq<char>) -> (Seq<char>, MediaType) {
    if ty == "background"@ {
        ("imagePath"@, MediaType::Background)
    } else if ty == "present_pic"@ {
        ("imagePath"@, MediaType::Pic)
    } else if ty == "music"@ {
        ("musicPath"@, MediaType::Music)
    } else if ty == "sound"@ {
        ("soundPath"@, MediaType::Sound)
    } else {
        ("ambientPath"@, MediaType::Ambient)
    }
}

/// The field holding the media path of an event type, and its media kind.
pub fn media_field_of(ty: &str) -> (r: (&'static str, MediaType))
    ensures
        (r.0@, r.1) == media_field(ty@),
{
    if str_eq(ty, "background") {
        ("imagePath", MediaType::Background)
    } else if str_eq(ty, "present_pic") {
        ("imagePath", MediaType::Pic)
    } else if str_eq(ty, "music") {
        ("musicPath", MediaType::Music)
    } else if str_eq(ty, "sound") {
        ("soundPath", MediaType::Sound)
    } else {
        ("ambientPath", MediaType::Ambient)
    }
}

pub const MSG_AMBIENT_NO_PATH: &'static str = "播放环境音但没有给路径，运行时只会发出空事件、没有声音；要停掉全部轨道请开启「停止该轨」";
pub const MSG_ASSET_MISSING_PRE: &'static str = "找不到素材「";
pub const MSG_ASSET_MISSING_POST: &'static str = "」。运行时不会报错，只会静默把画面/声音清空";

/// The media path an event asks to be resolved, if any: its path field when
/// non-empty, unless it is an ambient event that stops playback.
pub open spec fn asset_ref(m: Seq<(String, JsonValue)>, ty: Seq<char>) -> Option<(Seq<char>, MediaType)> {
    let (key, media) = media_field(ty);
    let path = str_or_empty(get_str(m, key));
    if ty == "ambient"@ && get_flag(m, "stop"@) {
        None
    } else if path.len() == 0 {
        None
    } else {
        Some((path, media))
    }
}

/// The diagnostics of a media event, given whether its path resolved.
pub open spec fn asset_diags(m: Seq<(String, JsonValue)>, ty: Seq<char>, cid: Seq<char>, i: usize, resolved: bool) -> Seq<DiagView> {
    let (key, media) = media_field(ty);
    let path = str_or_empty(get_str(m, key));
    if ty == "ambient"@ && get_flag(m, "stop"@) {
        Seq::empty()
    } else if ty == "ambient"@ && path.len() == 0 {
        seq![with_field(event_diag(Severity::Warn, "ambient.no_path"@, cid, i, MSG_AMBIENT_NO_PATH@), key)]
    } else if path.len() == 0 || resolved {
        Seq::empty()
    } else {
        seq![with_field(event_diag(Severity::Error, "asset.missing"@, cid, i,
            MSG_ASSET_MISSING_PRE@ + path + MSG_ASSET_MISSING_POST@), key)]
    }
}

/// The media path of an event that has to be looked up on disk, and its kind.
pub fn asset_reference(obj: &Vec<(String, JsonValue)>, ty: &str) -> (r: Option<(String, MediaType)>)
    ensures
        r is Some <==> asset_ref(obj@, ty@) is Some,
        r is Some ==> ((r->0).0@, (r->0).1) == asset_ref(obj@, ty@)->0,
{
    let (key, media) = media_field_of(ty);
    let path: &str = match get_str_exec(obj, key) {
        Some(p) => p,
        None => "",
    };
    proof {
        reveal_strlit("");
        assert(path@ =~= str_or_empty(get_str(obj@, key@)));
    }
    if str_eq(ty, "ambient") && get_flag_exec(obj, "stop") {
        return None;
    }
    if is_empty_str(path) {
        return None;
    }
    Some((owned(path), media))
}

/// Checks a media event: an ambient event that plays without a path, and a
/// path that did not resolve to a file (`resolved` says whether the path of
/// `asset_reference` was found; it is ignored when there is none).
pub fn check_asset(obj: &Vec<(String, JsonValue)>, ty: &str, cid: &str, i: usize, diags: &mut Vec<Diagnostic>, resolved: bool)
    ensures
        dviews(final(diags)@) == dviews(old(diags)@) + asset_diags(obj@, ty@, cid@, i, resolved),
{
    let ghost d0 = diags@;
    let (key, _media) = media_field_of(ty);
    let path: &str = match get_str_exec(obj, key) {
        Some(p) => p,
        None => "",
    };
    proof {
        reveal_strlit("");
        assert(path@ =~= str_or_empty(get_str(obj@, key@)));
    }
    if str_eq(ty, "ambient") {
        if get_flag_exec(obj, "stop") {
            proof {
                assert(dviews(diags@) =~= dviews(d0) + asset_diags(obj@, ty@, cid@, i, resolved));
            }
            return;
        }
        if is_empty_str(path) {
            push_diag(diags, Diagnostic::event(Severity::Warn, "ambient.no_path", cid, i, owned(MSG_AMBIENT_NO_PATH)).with_field(key));
            proof {
                assert(dviews(diags@) =~= dviews(d0) + asset_diags(obj@, ty@, cid@, i, resolved));
            }
            return;
        }
    }
    if is_empty_str(path) || resolved {
        proof {
            assert(dviews(diags@) =~= dviews(d0) + asset_diags(obj@, ty@, cid@, i, resolved));
        }
        return;
    }
    push_diag(diags, Diagnostic::event(Severity::Error, "asset.missing", cid, i,
        cat3(MSG_ASSET_MISSING_PRE, path, MSG_ASSET_MISSING_POST)).with_field(key));
    proof {
        assert(dviews(diags@) =~= dviews(d0) + asset_diags(obj@, ty@, cid@, i, resolved));
    }
}

// ---------- chapter_end ----------

pub const MSG_END_SUFFIX_1: &'static str = "写了「";
pub const MSG_END_SUFFIX_2: &'static str = "」：引擎只认字面量 end，这里会尝试读取 Chapters/";
pub const MSG_END_SUFFIX_3: &'static str = ".yaml。请直接写 end";
pub const MSG_EMPTY_TARGET: &'static str = "没有指定目标章节";
pub const MSG_DANGLING_1: &'static str = "指向的章节「";
pub const MSG_DANGLING_2: &'static str = "」不存在";

/// The diagnostics of a jump to `raw` (described as `label`).
pub open spec fn target_diags(raw: Seq<char>, label: Seq<char>, cid: Seq<char>, i: usize, chapters: Set<Seq<char>>) -> Seq<DiagView> {
    let target = chapter_id(raw);
    if target == "end"@ {
        if trim(raw) != "end"@ {
            seq![event_diag(Severity::Error, "chapter_end.end_suffix"@, cid, i,
                label + MSG_END_SUFFIX_1@ + raw + MSG_END_SUFFIX_2@ + target + MSG_END_SUFFIX_3@)]
        } else {
            Seq::empty()
        }
    } else if target.len() == 0 {
        seq![event_diag(Severity::Error, "chapter_end.empty_target"@, cid, i, label + MSG_EMPTY_TARGET@)]
    } else if !chapters.contains(target) {
        seq![event_diag(Severity::Error, "chapter_end.dangling"@, cid, i, label + MSG_DANGLING_1@ + target + MSG_DANGLING_2@)]
    } else {
        Seq::empty()
    }
}

/// The edge a jump to `raw` contributes to the chapter graph.
pub open spec fn target_edges(raw: Seq<char>, edge_label: Seq<char>, end_type: Seq<char>, cid: Seq<char>, chapters: Set<Seq<char>>) -> Seq<EdgeView> {
    let target = chapter_id(raw);
    if target == "end"@ {
        if trim(raw) != "end"@ {
            Seq::empty()
        } else {
            seq![EdgeView { from: cid, to: "end"@, is_end: true, label: edge_label, end_type }]
        }
    } else if target.len() == 0 || !chapters.contains(target) {
        Seq::empty()
    } else {
        seq![EdgeView { from: cid, to: target, is_end: false, label: edge_label, end_type }]
    }
}

/// Records a chapter jump and checks that its target exists.
pub fn push_target(raw: &str, label: &str, edge_label: &str, end_type: &str, cid: &str, i: usize,
    chapter_set: &StrSet, edges: &mut Vec<ChapterEdge>, diags: &mut Vec<Diagnostic>)
    requires
        chapter_set.wf(),
    ensures
        dviews(final(diags)@) == dviews(old(diags)@) + target_diags(raw@, label@, cid@, i, chapter_set@),
        eviews(final(edges)@) == eviews(old(edges)@) + target_edges(raw@, edge_label@, end_type@, cid@, chapter_set@),
{
    let ghost d0 = diags@;
    let ghost e0 = edges@;
    let target = chapter_id_of(raw);
    if str_eq(target.as_str(), "end") {
        let t = trim_str(raw);
        if !str_eq(t.as_str(), "end") {
            let mut m = cat3(label, MSG_END_SUFFIX_1, raw);
            m.append(MSG_END_SUFFIX_2);
            m.append(target.as_str());
            m.append(MSG_END_SUFFIX_3);
            push_diag(diags, Diagnostic::event(Severity::Error, "chapter_end.end_suffix", cid, i, m));
            proof {
                assert(eviews(edges@) =~= eviews(e0) + Seq::<EdgeView>::empty());
            }
            return;
        }
        let e = ChapterEdge { from: owned(cid), to: owned("end"), is_end: true, label: owned(edge_label), end_type: owned(end_type) };
        edges.push(e);
        proof {
            lemma_eviews_push(e0, e);
            assert(dviews(diags@) =~= dviews(d0) + Seq::<DiagView>::empty());
        }
        return;
    }
    if is_empty_str(target.as_str()) {
        push_diag(diags, Diagnostic::event(Severity::Error, "chapter_end.empty_target", cid, i, cat(label, MSG_EMPTY_TARGET)));
        proof {
            assert(eviews(edges@) =~= eviews(e0) + Seq::<EdgeView>::empty());
        }
        return;
    }
    if !chapter_set.contains(target.as_str()) {
        push_diag(diags, Diagnostic::event(Severity::Error, "chapter_end.dangling", cid, i,
            cat5(label, MSG_DANGLING_1, target.as_str(), MSG_DANGLING_2, "")));
        proof {
            reveal_strlit("");
            assert(eviews(edges@) =~= eviews(e0) + Seq::<EdgeView>::empty());
        }
        return;
    }
    let e = ChapterEdge { from: owned(cid), to: target, is_end: false, label: owned(edge_label), end_type: owned(end_type) };
    edges.push(e);
    proof {
        lemma_eviews_push(e0, e);
        assert(dviews(diags@) =~= dviews(d0) + Seq::<DiagView>::empty());
    }
}

pub const LABEL_DEFAULT: &'static str = "默认";
pub const LABEL_BRANCH: &'static str = "分支 ";

/// The label of a branch edge: its condition, else its AI branch name, else
/// "默认" for the default branch, else "分支 n".
pub open spec fn branch_label_spec(m: Seq<(String, JsonValue)>, index: int) -> Seq<char> {
    if get_str(m, "condition"@) is Some && trim(get_str(m, "condition"@)->0).len() != 0 {
        trim(get_str(m, "condition"@)->0)
    } else if get_str(m, "name"@) is Some && trim(get_str(m, "name"@)->0).len() != 0 {
        trim(get_str(m, "name"@)->0)
    } else if get_flag(m, "default"@) {
        LABEL_DEFAULT@
    } else {
        LABEL_BRANCH@ + decimal((index + 1) as nat)
    }
}

/// The label shown on a branch edge of the flow chart.
pub fn branch_label(opt: &Vec<(String, JsonValue)>, index: usize) -> (r: String)
    requires
        index < usize::MAX,
    ensures
        r@ == branch_label_spec(opt@, index as int),
{
    match get_str_exec(opt, "condition") {
        Some(c) => {
            if !is_blank(c) {
                return trim_str(c);
            }
        },
        None => {},
    }
    match get_str_exec(opt, "name") {
        Some(n) => {
            if !is_blank(n) {
                return trim_str(n);
            }
        },
        None => {},
    }
    if get_flag_exec(opt, "default") {
        return owned(LABEL_DEFAULT);
    }
    let n = decimal_string(index + 1);
    cat(LABEL_BRANCH, n.as_str())
}

pub const MSG_BRANCH_LABEL_POST: &'static str = " 个分支";
pub const MSG_CHOICE_SHAPED_POST: &'static str = " 个分支写成了选项的形状（text/actions）。章节结束的分支只认 condition / next / default（ai_judged 用 name / next / default）";
pub const MSG_AI_NO_NAME_POST: &'static str = " 个分支没有 name，AI 判定时无法命中它（除非它设了 default 兜底）";
pub const MSG_AI_COND_IGNORED: &'static str = "AI 判定分支不读 condition（按 name 匹配），这个条件会被忽略";
pub const MSG_BRANCH_NO_COND_POST: &'static str = " 个分支没有条件：若它带 next 会无条件命中、后面的分支都选不到；不带 next 则会被跳过";
pub const MSG_BRANCH_NO_NEXT_POST: &'static str = " 个分支没有 next：命中后它不会生效（引擎会跳过它继续尝试后面的分支）；若这是唯一分支则会直接结束剧本";
pub const MSG_NO_DEFAULT: &'static str = "没有设 default 兜底分支。所有条件都不满足时会直接结束整个剧本";
pub const MSG_NO_OPTIONS_POST: &'static str = " 需要分支列表，否则一定落到「剧本结束」";
pub const MSG_EMPTY_OPTIONS_POST: &'static str = " 的分支列表是空的，一定落到「剧本结束」";
pub const MSG_BOTH_NEXT: &'static str = "同时写了 next 和 next_chapter，引擎只会用 next";
pub const MSG_NO_NEXT: &'static str = "linear 但没写下一章，运行时会直接结束整个剧本";
pub const MSG_NEXT_LABEL: &'static str = "下一章";
pub const MSG_UNKNOWN_END_PRE: &'static str = "未知的结束方式「";
pub const MSG_UNKNOWN_END_POST: &'static str = "」，运行时会直接结束整个剧本；可用值：linear / branching / ai_judged";

/// The checks of one branch (everything but its jump).
pub open spec fn branch_checks(m: Seq<(String, JsonValue)>, oi: int, et: Seq<char>, cid: Seq<char>, i: usize) -> Seq<DiagView> {
    let is_default = get_flag(m, "default"@);
    let a = if has_key(m, "text"@) || has_key(m, "actions"@) {
        seq![event_diag(Severity::Error, "chapter_end.choice_shaped_option"@, cid, i, nth(oi) + MSG_CHOICE_SHAPED_POST@)]
    } else {
        Seq::empty()
    };
    let c = if et == "ai_judged"@ && !is_default && !has_key(m, "name"@) {
        seq![event_diag(Severity::Warn, "chapter_end.ai_option_no_name"@, cid, i, nth(oi) + MSG_AI_NO_NAME_POST@)]
    } else {
        Seq::empty()
    };
    let d = if et == "ai_judged"@ && get_str(m, "condition"@) is Some && trim(get_str(m, "condition"@)->0).len() != 0 {
        seq![with_field(event_diag(Severity::Info, "chapter_end.ai_condition_ignored"@, cid, i, MSG_AI_COND_IGNORED@), "condition"@)]
    } else {
        Seq::empty()
    };
    let e = if et == "branching"@ {
        match get_str(m, "condition"@) {
            Some(cnd) => condition_diags(cnd, cid, i),
            None => if !is_default {
                seq![event_diag(Severity::Warn, "chapter_end.branch_no_condition"@, cid, i, nth(oi) + MSG_BRANCH_NO_COND_POST@)]
            } else {
                Seq::empty()
            },
        }
    } else {
        Seq::empty()
    };
    a + c + d + e
}

/// The diagnostics of one branch of a branching / ai_judged chapter end.
pub open spec fn branch_diags(opt: JsonValue, oi: int, et: Seq<char>, cid: Seq<char>, i: usize, chapters: Set<Seq<char>>) -> Seq<DiagView> {
    match opt {
        JsonValue::Object(m) => branch_checks(m@, oi, et, cid, i) + match get_str(m@, "next"@) {
            Some(t) => target_diags(t, nth(oi) + MSG_BRANCH_LABEL_POST@, cid, i, chapters),
            None => seq![event_diag(Severity::Warn, "chapter_end.branch_no_next"@, cid, i, nth(oi) + MSG_BRANCH_NO_NEXT_POST@)],
        },
        _ => Seq::empty(),
    }
}

/// The edges of one branch.
pub open spec fn branch_edges(opt: JsonValue, oi: int, et: Seq<char>, cid: Seq<char>, chapters: Set<Seq<char>>) -> Seq<EdgeView> {
    match opt {
        JsonValue::Object(m) => match get_str(m@, "next"@) {
            Some(t) => target_edges(t, branch_label_spec(m@, oi), et, cid, chapters),
            None => Seq::empty(),
        },
        _ => Seq::empty(),
    }
}

/// The variables one branch's condition reads (only `branching` reads them).
pub open spec fn branch_read(vars: Set<Seq<char>>, opt: JsonValue, et: Seq<char>) -> Set<Seq<char>> {
    if et == "branching"@ { option_read(vars, opt) } else { vars }
}

pub open spec fn branches_diags(opts: Seq<JsonValue>, et: Seq<char>, cid: Seq<char>, i: usize, chapters: Set<Seq<char>>) -> Seq<DiagView>
    decreases opts.len(),
{
    if opts.len() == 0 {
        Seq::empty()
    } else {
        branches_diags(opts.drop_last(), et, cid, i, chapters) + branch_diags(opts.last(), opts.len() - 1, et, cid, i, chapters)
    }
}

pub open spec fn branches_edges(opts: Seq<JsonValue>, et: Seq<char>, cid: Seq<char>, chapters: Set<Seq<char>>) -> Seq<EdgeView>
    decreases opts.len(),
{
    if opts.len() == 0 {
        Seq::empty()
    } else {
        branches_edges(opts.drop_last(), et, cid, chapters) + branch_edges(opts.last(), opts.len() - 1, et, cid, chapters)
    }
}

pub open spec fn branches_read(vars: Set<Seq<char>>, opts: Seq<JsonValue>, et: Seq<char>) -> Set<Seq<char>>
    decreases opts.len(),
{
    if opts.len() == 0 { vars } else { branch_read(branches_read(vars, opts.drop_last(), et), opts.last(), et) }
}

/// Some branch is marked `default: true`.
pub open spec fn any_default(opts: Seq<JsonValue>) -> bool {
    exists|k: int| 0 <= k < opts.len() && (#[trigger] object_of(Some(opts[k]))) is Some
        && get_flag(object_of(Some(opts[k]))->0, "default"@)
}

/// The end type of a chapter end (`linear` when absent).
pub open spec fn end_type_of(m: Seq<(String, JsonValue)>) -> Seq<char> {
    match get_str(m, "end_type"@) {
        Some(t) => t,
        None => "linear"@,
    }
}

/// The jump target of a linear chapter end: `next`, else `next_chapter`.
pub open spec fn linear_next(m: Seq<(String, JsonValue)>) -> Option<Seq<char>> {
    match get_str(m, "next"@) {
        Some(t) => Some(t),
        None => get_str(m, "next_chapter"@),
    }
}

/// The diagnostics of a `chapter_end` event.
pub open spec fn chapter_end_diags(m: Seq<(String, JsonValue)>, cid: Seq<char>, i: usize, chapters: Set<Seq<char>>) -> Seq<DiagView> {
    let et = end_type_of(m);
    if et == "linear"@ {
        (if get_str(m, "next"@) is Some && get_str(m, "next_chapter"@) is Some {
            seq![event_diag(Severity::Warn, "chapter_end.both_next_fields"@, cid, i, MSG_BOTH_NEXT@)]
        } else {
            Seq::empty()
        }) + match linear_next(m) {
            Some(t) => target_diags(t, MSG_NEXT_LABEL@, cid, i, chapters),
            None => seq![event_diag(Severity::Warn, "chapter_end.no_next"@, cid, i, MSG_NO_NEXT@)],
        }
    } else if et == "branching"@ || et == "ai_judged"@ {
        match get_array(m, "options"@) {
            None => seq![event_diag(Severity::Error, "chapter_end.no_options"@, cid, i, et + MSG_NO_OPTIONS_POST@)],
            Some(o) => (if o.len() == 0 {
                seq![event_diag(Severity::Error, "chapter_end.no_options"@, cid, i, et + MSG_EMPTY_OPTIONS_POST@)]
            } else {
                Seq::empty()
            }) + branches_diags(o, et, cid, i, chapters) + (if !any_default(o) {
                seq![event_diag(Severity::Warn, "chapter_end.no_default_branch"@, cid, i, MSG_NO_DEFAULT@)]
            } else {
                Seq::empty()
            }),
        }
    } else {
        seq![with_field(event_diag(Severity::Error, "chapter_end.unknown_end_type"@, cid, i,
            MSG_UNKNOWN_END_PRE@ + et + MSG_UNKNOWN_END_POST@), "end_type"@)]
    }
}

/// The edges a `chapter_end` event contributes.
pub open spec fn chapter_end_edges(m: Seq<(String, JsonValue)>, cid: Seq<char>, chapters: Set<Seq<char>>) -> Seq<EdgeView> {
    let et = end_type_of(m);
    if et == "linear"@ {
        match linear_next(m) {
            Some(t) => target_edges(t, Seq::empty(), et, cid, chapters),
            None => Seq::empty(),
        }
    } else if et == "branching"@ || et == "ai_judged"@ {
        match get_array(m, "options"@) {
            None => Seq::empty(),
            Some(o) => branches_edges(o, et, cid, chapters),
        }
    } else {
        Seq::empty()
    }
}

/// The variables a `chapter_end` event reads.
pub open spec fn chapter_end_read(vars: Set<Seq<char>>, m: Seq<(String, JsonValue)>) -> Set<Seq<char>> {
    let et = end_type_of(m);
    if et == "branching"@ || et == "ai_judged"@ {
        match get_array(m, "options"@) {
            None => vars,
            Some(o) => branches_read(vars, o, et),
        }
    } else {
        vars
    }
}

fn check_branch_checks(oo: &Vec<(String, JsonValue)>, oi: usize, end_type: &str, cid: &str, i: usize,
    diags: &mut Vec<Diagnostic>, vars_read: &mut StrSet)
    requires
        oi < usize::MAX,
        old(vars_read).wf(),
    ensures
        dviews(final(diags)@) == dviews(old(diags)@) + branch_checks(oo@, oi as int, end_type@, cid@, i),
        final(vars_read).wf(),
        final(vars_read)@ == branch_read(old(vars_read)@, JsonValue::Object(*oo), end_type@),
{
    let ghost d0 = diags@;
    if contains_key(oo, "text") || contains_key(oo, "actions") {
        push_diag(diags, Diagnostic::event(Severity::Error, "chapter_end.choice_shaped_option", cid, i, nth_msg(oi, MSG_CHOICE_SHAPED_POST)));
    }
    let is_default = get_flag_exec(oo, "default");
    let ghost d1 = diags@;
    let ai = str_eq(end_type, "ai_judged");
    if ai && !is_default && !contains_key(oo, "name") {
        push_diag(diags, Diagnostic::event(Severity::Warn, "chapter_end.ai_option_no_name", cid, i, nth_msg(oi, MSG_AI_NO_NAME_POST)));
    }
    let ghost d2 = diags@;
    if ai {
        match get_str_exec(oo, "condition") {
            Some(c) => {
                if !is_blank(c) {
                    push_diag(diags, Diagnostic::event(Severity::Info, "chapter_end.ai_condition_ignored", cid, i, owned(MSG_AI_COND_IGNORED)).with_field("condition"));
                }
            },
            None => {},
        }
    }
    let ghost d3 = diags@;
    if str_eq(end_type, "branching") {
        match get_str_exec(oo, "condition") {
            Some(c) => {
                check_condition(c, cid, i, diags, vars_read);
            },
            None => {
                if !is_default {
                    push_diag(diags, Diagnostic::event(Severity::Warn, "chapter_end.branch_no_condition", cid, i, nth_msg(oi, MSG_BRANCH_NO_COND_POST)));
                }
            },
        }
    }
    proof {
        assert(dviews(diags@) =~= dviews(d0) + branch_checks(oo@, oi as int, end_type@, cid@, i));
    }
}

fn check_branch(opt: &JsonValue, oi: usize, end_type: &str, cid: &str, i: usize, chapter_set: &StrSet,
    edges: &mut Vec<ChapterEdge>, diags: &mut Vec<Diagnostic>, vars_read: &mut StrSet) -> (is_default: bool)
    requires
        oi < usize::MAX,
        chapter_set.wf(),
        old(vars_read).wf(),
    ensures
        dviews(final(diags)@) == dviews(old(diags)@) + branch_diags(*opt, oi as int, end_type@, cid@, i, chapter_set@),
        eviews(final(edges)@) == eviews(old(edges)@) + branch_edges(*opt, oi as int, end_type@, cid@, chapter_set@),
        final(vars_read).wf(),
        final(vars_read)@ == branch_read(old(vars_read)@, *opt, end_type@),
        is_default == (object_of(Some(*opt)) is Some && get_flag(object_of(Some(*opt))->0, "default"@)),
{
    let ghost d0 = diags@;
    let ghost e0 = edges@;
    let oo = match opt {
        JsonValue::Object(m) => m,
        _ => {
            proof {
                assert(dviews(diags@) =~= dviews(d0) + Seq::<DiagView>::empty());
                assert(eviews(edges@) =~= eviews(e0) + Seq::<EdgeView>::empty());
            }
            return false;
        },
    };
    check_branch_checks(oo, oi, end_type, cid, i, diags, vars_read);
    let ghost d1 = diags@;
    match get_str_exec(oo, "next") {
        Some(t) => {
            let label = nth_msg(oi, MSG_BRANCH_LABEL_POST);
            let edge_label = branch_label(oo, oi);
            push_target(t, label.as_str(), edge_label.as_str(), end_type, cid, i, chapter_set, edges, diags);
        },
        None => {
            push_diag(diags, Diagnostic::event(Severity::Warn, "chapter_end.branch_no_next", cid, i, nth_msg(oi, MSG_BRANCH_NO_NEXT_POST)));
            proof {
                assert(eviews(edges@) =~= eviews(e0) + Seq::<EdgeView>::empty());
            }
        },
    }
    proof {
        assert(dviews(diags@) =~= dviews(d0) + branch_diags(*opt, oi as int, end_type@, cid@, i, chapter_set@));
    }
    get_flag_exec(oo, "default")
}

fn check_branches(options: &Vec<JsonValue>, end_type: &str, cid: &str, i: usize, chapter_set: &StrSet,
    edges: &mut Vec<ChapterEdge>, diags: &mut Vec<Diagnostic>, vars_read: &mut StrSet) -> (has_default: bool)
    requires
        chapter_set.wf(),
        old(vars_read).wf(),
    ensures
        dviews(final(diags)@) == dviews(old(diags)@) + branches_diags(options@, end_type@, cid@, i, chapter_set@),
        eviews(final(edges)@) == eviews(old(edges)@) + branches_edges(options@, end_type@, cid@, chapter_set@),
        final(vars_read).wf(),
        final(vars_read)@ == branches_read(old(vars_read)@, options@, end_type@),
        has_default == any_default(options@),
{
    let ghost d0 = diags@;
    let ghost e0 = edges@;
    let ghost r0 = vars_read@;
    let mut has_default = false;
    let mut k: usize = 0;
    proof {
        assert(dviews(diags@) =~= dviews(d0) + branches_diags(options@.subrange(0, 0), end_type@, cid@, i, chapter_set@));
        assert(eviews(edges@) =~= eviews(e0) + branches_edges(options@.subrange(0, 0), end_type@, cid@, chapter_set@));
    }
    while k < options.len()
        invariant
            k <= options@.len(),
            chapter_set.wf(),
            vars_read.wf(),
            dviews(diags@) == dviews(d0) + branches_diags(options@.subrange(0, k as int), end_type@, cid@, i, chapter_set@),
            eviews(edges@) == eviews(e0) + branches_edges(options@.subrange(0, k as int), end_type@, cid@, chapter_set@),
            vars_read@ == branches_read(r0, options@.subrange(0, k as int), end_type@),
            has_default == any_default(options@.subrange(0, k as int)),
        decreases options@.len() - k,
    {
        let ghost pre = options@.subrange(0, k + 1);
        proof {
            assert(pre.drop_last() =~= options@.subrange(0, k as int));
            assert(pre.last() == options@[k as int]);
        }
        let d = check_branch(&options[k], k, end_type, cid, i, chapter_set, edges, diags, vars_read);
        proof {
            assert(dviews(diags@) =~= dviews(d0) + branches_diags(pre, end_type@, cid@, i, chapter_set@));
            assert(eviews(edges@) =~= eviews(e0) + branches_edges(pre, end_type@, cid@, chapter_set@));
            let old_pre = options@.subrange(0, k as int);
            if has_default {
                let w = choose|w: int| 0 <= w < old_pre.len() && (#[trigger] object_of(Some(old_pre[w]))) is Some
                    && get_flag(object_of(Some(old_pre[w]))->0, "default"@);
                assert(pre[w] == old_pre[w]);
            }
            if d {
                assert(pre[k as int] == options@[k as int]);
            }
            if any_default(pre) {
                let w = choose|w: int| 0 <= w < pre.len() && (#[trigger] object_of(Some(pre[w]))) is Some
                    && get_flag(object_of(Some(pre[w]))->0, "default"@);
                if w < k {
                    assert(old_pre[w] == pre[w]);
                }
            }
        }
        has_default = has_default || d;
        k = k + 1;
    }
    assert(options@.subrange(0, k as int) =~= options@);
    has_default
}

/// Checks a `chapter_end` event and records the edges it contributes.
pub fn check_chapter_end(obj: &Vec<(String, JsonValue)>, cid: &str, i: usize, chapter_set: &StrSet,
    edges: &mut Vec<ChapterEdge>, diags: &mut Vec<Diagnostic>, vars_read: &mut StrSet)
    requires
        chapter_set.wf(),
        old(vars_read).wf(),
    ensures
        dviews(final(diags)@) == dviews(old(diags)@) + chapter_end_diags(obj@, cid@, i, chapter_set@),
        eviews(final(edges)@) == eviews(old(edges)@) + chapter_end_edges(obj@, cid@, chapter_set@),
        final(vars_read).wf(),
        final(vars_read)@ == chapter_end_read(old(vars_read)@, obj@),
{
    let ghost d0 = diags@;
    let ghost e0 = edges@;
    let end_type: &str = match get_str_exec(obj, "end_type") {
        Some(t) => t,
        None => "linear",
    };
    if str_eq(end_type, "linear") {
        proof {
            reveal_strlit("linear");
            reveal_strlit("branching");
            reveal_strlit("ai_judged");
        }
        let next = get_str_exec(obj, "next");
        let next_chapter = get_str_exec(obj, "next_chapter");
        if next.is_some() && next_chapter.is_some() {
            push_diag(diags, Diagnostic::event(Severity::Warn, "chapter_end.both_next_fields", cid, i, owned(MSG_BOTH_NEXT)));
        }
        let ghost d1 = diags@;
        let target = match next {
            Some(t) => Some(t),
            None => next_chapter,
        };
        match target {
            Some(t) => {
                push_target(t, MSG_NEXT_LABEL, "", end_type, cid, i, chapter_set, edges, diags);
                proof {
                    reveal_strlit("");
                    assert(""@ =~= Seq::<char>::empty());
                }
            },
            None => {
                push_diag(diags, Diagnostic::event(Severity::Warn, "chapter_end.no_next", cid, i, owned(MSG_NO_NEXT)));
                proof {
                    assert(eviews(edges@) =~= eviews(e0) + Seq::<EdgeView>::empty());
                }
            },
        }
        proof {
            assert(dviews(diags@) =~= dviews(d0) + chapter_end_diags(obj@, cid@, i, chapter_set@));
        }
    } else if str_eq(end_type, "branching") || str_eq(end_type, "ai_judged") {
        let options = match get_array_exec(obj, "options") {
            Some(o) => o,
            None => {
                push_diag(diags, Diagnostic::event(Severity::Error, "chapter_end.no_options", cid, i, cat(end_type, MSG_NO_OPTIONS_POST)));
                proof {
                    assert(eviews(edges@) =~= eviews(e0) + Seq::<EdgeView>::empty());
                }
                return;
            },
        };
        if options.len() == 0 {
            push_diag(diags, Diagnostic::event(Severity::Error, "chapter_end.no_options", cid, i, cat(end_type, MSG_EMPTY_OPTIONS_POST)));
        }
        let ghost d1 = diags@;
        let has_default = check_branches(options, end_type, cid, i, chapter_set, edges, diags, vars_read);
        let ghost d2 = diags@;
        if !has_default {
            push_diag(diags, Diagnostic::event(Severity::Warn, "chapter_end.no_default_branch", cid, i, owned(MSG_NO_DEFAULT)));
        }
        proof {
            assert(dviews(diags@) =~= dviews(d0) + chapter_end_diags(obj@, cid@, i, chapter_set@));
        }
    } else {
        push_diag(diags, Diagnostic::event(Severity::Error, "chapter_end.unknown_end_type", cid, i,
            cat3(MSG_UNKNOWN_END_PRE, end_type, MSG_UNKNOWN_END_POST)).with_field("end_type"));
        proof {
            assert(eviews(edges@) =~= eviews(e0) + Seq::<EdgeView>::empty());
        }
    }
}

/// What checking a condition reports, by what it reads: a blank condition
/// reports nothing; a condition whose variable is accepted (the one
/// recorded as read) reports no error, and exactly one warning, coded
/// `condition.placeholder_not_replaced`, when its text holds `%player%`
/// (which is never replaced there), else nothing; any other condition
/// reports exactly one error. Every report is on the `condition` field of
/// that event.
pub proof fn law_condition_reports_follow_what_is_read(cond: Seq<char>, cid: Seq<char>, i: usize)
    ensures
        trim(cond).len() == 0 ==> condition_diags(cond, cid, i).len() == 0,
        condition_read(cond) is Some ==> {
            let d = condition_diags(cond, cid, i);
            &&& (d.len() == 1) == contains(trim(cond), "%player%"@)
            &&& d.len() <= 1
            &&& d.len() == 1 ==> d[0].severity == Severity::Warn
                && d[0].code == "condition.placeholder_not_replaced"@
                && d[0].message == MSG_PLACEHOLDER@
        },
        trim(cond).len() > 0 && condition_read(cond) is None ==> {
            let d = condition_diags(cond, cid, i);
            &&& d.len() == 1
            &&& d[0].severity == Severity::Error
        },
        forall|k: int| 0 <= k < condition_diags(cond, cid, i).len() ==> {
            let d = #[trigger] condition_diags(cond, cid, i)[k];
            &&& d.field == Some("condition"@)
            &&& d.chapter == Some(cid)
            &&& d.event_index == Some(i)
        },
{
}

} // verus!
