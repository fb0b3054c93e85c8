//! The tool executor's checks: the JSON Schema subset that tool arguments
//! are validated against, the order in which a call is refused, and the
//! stable JSON of a refusal.
use vstd::prelude::*;
use crate::json::{JsonValue, lookup, str_of, bool_of, array_of, object_of, has_key};
use crate::editor::value_get;
use crate::text::{cat, cat3, owned, str_eq, decimal, decimal_string};
use crate::notes::{ToolError, tool_error_text};
use crate::strset::StrSet;

verus! {

pub const MSG_MUST_BE: &'static str = " 必须是 ";
pub const MSG_MISSING_FIELD: &'static str = " 缺少必填字段 ";
pub const MSG_UNKNOWN_FIELD: &'static str = " 包含未知字段 ";

/// The properties a schema declares (none when it declares no object of them).
pub open spec fn schema_props(schema: JsonValue) -> Seq<(String, JsonValue)> {
    match object_of(value_get(schema, "properties"@)) {
        Some(p) => p,
        None => Seq::empty(),
    }
}

/// The first required key (a string of `required`, in order) that the
/// object lacks.
pub open spec fn first_missing(required: Seq<JsonValue>, obj: Seq<(String, JsonValue)>) -> Option<Seq<char>>
    decreases required.len(),
{
    if required.len() == 0 {
        None
    } else {
        match required[0] {
            JsonValue::Str(k) => if !has_key(obj, k@) { Some(k@) } else { first_missing(required.drop_first(), obj) },
            _ => first_missing(required.drop_first(), obj),
        }
    }
}

/// The first key of the object that the properties do not declare.
pub open spec fn first_unknown(obj: Seq<(String, JsonValue)>, props: Seq<(String, JsonValue)>) -> Option<Seq<char>>
    decreases obj.len(),
{
    if obj.len() == 0 {
        None
    } else if !has_key(props, obj[0].0@) {
        Some(obj[0].0@)
    } else {
        first_unknown(obj.drop_first(), props)
    }
}

/// Whether the schema forbids undeclared keys (`additionalProperties: false`).
pub open spec fn closed_schema(schema: JsonValue) -> bool {
    bool_of(value_get(schema, "additionalProperties"@)) == Some(false)
}

/// The first error of the entries from `i` on: each entry whose key the
/// properties declare is checked against its property, at `path.key`.
pub open spec fn entries_error(path: Seq<char>, props: Seq<(String, JsonValue)>, value: JsonValue, i: int) -> Option<Seq<char>>
    decreases value, 1int, if value is Object { value->Object_0@.len() - i } else { 0 },
{
    match value {
        JsonValue::Object(m) => {
            if 0 <= i < m@.len() {
                let key = m@[i].0@;
                let child = m@[i].1;
                proof {
                    assert(decreases_to!(value => child));
                }
                let here = match lookup(props, key) {
                    Some(s) => value_error(path + "."@ + key, s, child),
                    None => None,
                };
                if here is Some { here } else { entries_error(path, props, value, i + 1) }
            } else {
                None
            }
        },
        _ => None,
    }
}

/// The first error of the items from `i` on, each checked against `items`
/// at `path[i]`.
pub open spec fn items_error(path: Seq<char>, item_schema: JsonValue, value: JsonValue, i: int) -> Option<Seq<char>>
    decreases value, 1int, if value is Array { value->Array_0@.len() - i } else { 0 },
{
    match value {
        JsonValue::Array(a) => {
            if 0 <= i < a@.len() {
                let item = a@[i];
                proof {
                    assert(decreases_to!(value => item));
                }
                let here = value_error(path + "["@ + decimal(i as nat) + "]"@, item_schema, item);
                if here is Some { here } else { items_error(path, item_schema, value, i + 1) }
            } else {
                None
            }
        },
        _ => None,
    }
}

/// The first error of `value` against the schema subset the built-in tools
/// use, `None` when it conforms. A schema without a `type` accepts anything;
/// an object needs every required key, no undeclared key when the schema is
/// closed, and each declared entry valid; an array needs each item valid
/// against `items`; strings, integers, numbers and booleans need that kind.
pub open spec fn value_error(path: Seq<char>, schema: JsonValue, value: JsonValue) -> Option<Seq<char>>
    decreases value, 2int, 0int,
{
    match str_of(value_get(schema, "type"@)) {
        None => None,
        Some(t) => if t == "object"@ {
            match value {
                JsonValue::Object(m) => {
                    let props = schema_props(schema);
                    let missing = match array_of(value_get(schema, "required"@)) {
                        Some(req) => first_missing(req, m@),
                        None => None,
                    };
                    if missing is Some {
                        Some(path + MSG_MISSING_FIELD@ + missing->0)
                    } else if closed_schema(schema) && first_unknown(m@, props) is Some {
                        Some(path + MSG_UNKNOWN_FIELD@ + first_unknown(m@, props)->0)
                    } else {
                        entries_error(path, props, value, 0)
                    }
                },
                _ => Some(path + MSG_MUST_BE@ + "object"@),
            }
        } else if t == "array"@ {
            match value {
                JsonValue::Array(_) => match value_get(schema, "items"@) {
                    Some(item_schema) => items_error(path, item_schema, value, 0),
                    None => None,
                },
                _ => Some(path + MSG_MUST_BE@ + "array"@),
            }
        } else if t == "string"@ {
            if value is Str { None } else { Some(path + MSG_MUST_BE@ + "string"@) }
        } else if t == "integer"@ {
            if value matches JsonValue::Number(_, true) { None } else { Some(path + MSG_MUST_BE@ + "integer"@) }
        } else if t == "number"@ {
            if value is Number { None } else { Some(path + MSG_MUST_BE@ + "number"@) }
        } else if t == "boolean"@ {
            if value is Bool { None } else { Some(path + MSG_MUST_BE@ + "boolean"@) }
        } else {
            None
        }
    }
}

fn get_in<'a>(v: &'a JsonValue, key: &str) -> (r: Option<&'a JsonValue>)
    ensures
        match value_get(*v, key@) {
            Some(x) => r is Some && *r->0 == x,
            None => r is None,
        },
{
    match v {
        JsonValue::Object(m) => crate::json::get(m, key),
        _ => None,
    }
}

fn first_missing_exec(required: &Vec<JsonValue>, obj: &Vec<(String, JsonValue)>) -> (r: Option<String>)
    ensures
        crate::diag::opt_view(r) == first_missing(required@, obj@),
{
    let mut i: usize = 0;
    assert(required@.subrange(0, required@.len() as int) =~= required@);
    while i < required.len()
        invariant
            i <= required@.len(),
            first_missing(required@, obj@) == first_missing(required@.subrange(i as int, required@.len() as int), obj@),
        decreases required@.len() - i,
    {
        let ghost rest = required@.subrange(i as int, required@.len() as int);
        proof {
            assert(rest[0] == required@[i as int]);
            assert(rest.drop_first() =~= required@.subrange(i + 1, required@.len() as int));
        }
        match &required[i] {
            JsonValue::Str(k) => {
                if !crate::json::contains_key(obj, k.as_str()) {
                    return Some(owned(k.as_str()));
                }
            },
            _ => {},
        }
        i = i + 1;
    }
    None
}

fn first_unknown_exec(obj: &Vec<(String, JsonValue)>, props: &Vec<(String, JsonValue)>) -> (r: Option<String>)
    ensures
        crate::diag::opt_view(r) == first_unknown(obj@, props@),
{
    let mut i: usize = 0;
    assert(obj@.subrange(0, obj@.len() as int) =~= obj@);
    while i < obj.len()
        invariant
            i <= obj@.len(),
            first_unknown(obj@, props@) == first_unknown(obj@.subrange(i as int, obj@.len() as int), props@),
        decreases obj@.len() - i,
    {
        let ghost rest = obj@.subrange(i as int, obj@.len() as int);
        proof {
            assert(rest[0] == obj@[i as int]);
            assert(rest.drop_first() =~= obj@.subrange(i + 1, obj@.len() as int));
        }
        if !crate::json::contains_key(props, obj[i].0.as_str()) {
            return Some(owned(obj[i].0.as_str()));
        }
        i = i + 1;
    }
    None
}

/// Checks a value against the schema subset of the built-in tools; the
/// error names the path of the first offending part.
pub fn validate_value(path: &str, schema: &JsonValue, value: &JsonValue) -> (r: Result<(), String>)
    ensures
        match value_error(path@, *schema, *value) {
            None => r is Ok,
            Some(m) => r is Err && r->Err_0@ == m,
        },
    decreases *value,
{
    let t = match get_in(schema, "type") {
        Some(JsonValue::Str(t)) => t.as_str(),
        _ => { return Ok(()); },
    };
    if str_eq(t, "object") {
        let m = match value {
            JsonValue::Object(m) => m,
            _ => { return Err(cat3(path, MSG_MUST_BE, "object")); },
        };
        let empty: Vec<(String, JsonValue)> = Vec::new();
        let props: &Vec<(String, JsonValue)> = match get_in(schema, "properties") {
            Some(JsonValue::Object(p)) => p,
            _ => &empty,
        };
        assert(props@ == schema_props(*schema));
        let missing = match get_in(schema, "required") {
            Some(JsonValue::Array(req)) => first_missing_exec(req, m),
            _ => None,
        };
        match missing {
            Some(k) => { return Err(cat3(path, MSG_MISSING_FIELD, k.as_str())); },
            None => {},
        }
        let closed = match get_in(schema, "additionalProperties") {
            Some(JsonValue::Bool(b)) => !*b,
            _ => false,
        };
        if closed {
            match first_unknown_exec(m, props) {
                Some(k) => { return Err(cat3(path, MSG_UNKNOWN_FIELD, k.as_str())); },
                None => {},
            }
        }
        assert(value_error(path@, *schema, *value) == entries_error(path@, props@, *value, 0));
        let mut i: usize = 0;
        while i < m.len()
            invariant
                i <= m@.len(),
                value_error(path@, *schema, *value) == entries_error(path@, props@, *value, 0),
                *value == JsonValue::Object(*m),
                props@ == schema_props(*schema),
                entries_error(path@, props@, *value, 0) == entries_error(path@, props@, *value, i as int),
            decreases m@.len() - i,
        {
            let key = m[i].0.as_str();
            let child = &m[i].1;
            proof {
                assert(decreases_to!(*value => *child));
            }
            match crate::json::get(props, key) {
                Some(s) => {
                    let child_path = cat3(path, ".", key);
                    assert(child_path@ == path@ + "."@ + m@[i as int].0@);
                    match validate_value(child_path.as_str(), s, child) {
                        Ok(()) => {},
                        Err(e) => {
                            assert(entries_error(path@, props@, *value, i as int) == Some(e@));
                            return Err(e);
                        },
                    }
                },
                None => {},
            }
            i = i + 1;
        }
        Ok(())
    } else if str_eq(t, "array") {
        let a = match value {
            JsonValue::Array(a) => a,
            _ => { return Err(cat3(path, MSG_MUST_BE, "array")); },
        };
        let item_schema = match get_in(schema, "items") {
            Some(s) => s,
            None => { return Ok(()); },
        };
        assert(value_error(path@, *schema, *value) == items_error(path@, *item_schema, *value, 0));
        let mut i: usize = 0;
        while i < a.len()
            invariant
                i <= a@.len(),
                value_error(path@, *schema, *value) == items_error(path@, *item_schema, *value, 0),
                *value == JsonValue::Array(*a),
                value_get(*schema, "items"@) == Some(*item_schema),
                items_error(path@, *item_schema, *value, 0) == items_error(path@, *item_schema, *value, i as int),
            decreases a@.len() - i,
        {
            let item = &a[i];
            proof {
                assert(decreases_to!(*value => *item));
            }
            let index = decimal_string(i);
            let head = cat3(path, "[", index.as_str());
            let item_path = cat(head.as_str(), "]");
            assert(item_path@ == path@ + "["@ + decimal(i as nat) + "]"@);
            match validate_value(item_path.as_str(), item_schema, item) {
                Ok(()) => {},
                Err(e) => {
                    assert(items_error(path@, *item_schema, *value, i as int) == Some(e@));
                    return Err(e);
                },
            }
            i = i + 1;
        }
        Ok(())
    } else if str_eq(t, "string") {
        match value {
            JsonValue::Str(_) => Ok(()),
            _ => Err(cat3(path, MSG_MUST_BE, "string")),
        }
    } else if str_eq(t, "integer") {
        match value {
            JsonValue::Number(_, true) => Ok(()),
            _ => Err(cat3(path, MSG_MUST_BE, "integer")),
        }
    } else if str_eq(t, "number") {
        match value {
            JsonValue::Number(_, _) => Ok(()),
            _ => Err(cat3(path, MSG_MUST_BE, "number")),
        }
    } else if str_eq(t, "boolean") {
        match value {
            JsonValue::Bool(_) => Ok(()),
            _ => Err(cat3(path, MSG_MUST_BE, "boolean")),
        }
    } else {
        Ok(())
    }
}

// ---------- refusals ----------

/// The stable JSON of a refusal: `{"error": {"code": code, "message":
/// message}, "ok": false}`, keys in sorted order.
pub open spec fn is_error_json(r: JsonValue, code: Seq<char>, message: Seq<char>) -> bool {
    &&& r is Object
    &&& crate::editor::entry_keys(r->Object_0@) == seq!["error"@, "ok"@]
    &&& object_of(lookup(r->Object_0@, "error"@)) is Some
    &&& crate::editor::entry_keys(object_of(lookup(r->Object_0@, "error"@))->0) == seq!["code"@, "message"@]
    &&& str_of(lookup(object_of(lookup(r->Object_0@, "error"@))->0, "code"@)) == Some(code)
    &&& str_of(lookup(object_of(lookup(r->Object_0@, "error"@))->0, "message"@)) == Some(message)
    &&& bool_of(lookup(r->Object_0@, "ok"@)) == Some(false)
}

/// Builds the JSON of a refusal.
pub fn error_result(code: &str, message: &str) -> (r: JsonValue)
    ensures
        is_error_json(r, code@, message@),
{
    proof {
        reveal_strlit("error");
        reveal_strlit("ok");
        reveal_strlit("code");
        reveal_strlit("message");
        assert("error"@.len() == 5 && "ok"@.len() == 2);
        assert("code"@.len() == 4 && "message"@.len() == 7);
        reveal_with_fuel(lookup, 3);
    }
    let mut inner: Vec<(String, JsonValue)> = Vec::new();
    inner.push((owned("code"), JsonValue::Str(owned(code))));
    inner.push((owned("message"), JsonValue::Str(owned(message))));
    assert(crate::editor::entry_keys(inner@) =~= seq!["code"@, "message"@]);
    let mut outer: Vec<(String, JsonValue)> = Vec::new();
    outer.push((owned("error"), JsonValue::Object(inner)));
    outer.push((owned("ok"), JsonValue::Bool(false)));
    assert(crate::editor::entry_keys(outer@) =~= seq!["error"@, "ok"@]);
    JsonValue::Object(outer)
}

pub const MSG_NOT_ALLOWED: &'static str = "当前调用上下文不允许工具: ";
pub const MSG_UNKNOWN_TOOL: &'static str = "未知工具: ";
pub const MSG_BAD_JSON: &'static str = "工具参数不是合法 JSON: ";
pub const MSG_NOT_OBJECT: &'static str = "工具参数必须是 JSON object";
pub const MSG_TIMEOUT: &'static str = "工具执行超时";

/// How a call is checked before the tool runs: the tool must be allowed in
/// the context, registered, and given arguments that parse to a JSON object
/// conforming to its parameter schema; each refusal has its own code.
pub open spec fn precheck_ok(name: Seq<char>, allowed: Set<Seq<char>>, schema: Option<JsonValue>,
    parsed: Result<JsonValue, String>, r: Result<JsonValue, JsonValue>) -> bool {
    if !allowed.contains(name) {
        r is Err && is_error_json(r->Err_0, "tool_not_allowed"@, MSG_NOT_ALLOWED@ + name)
    } else if schema is None {
        r is Err && is_error_json(r->Err_0, "unknown_tool"@, MSG_UNKNOWN_TOOL@ + name)
    } else {
        match parsed {
            Err(e) => r is Err && is_error_json(r->Err_0, "invalid_json"@, MSG_BAD_JSON@ + e@),
            Ok(v) => if !(v is Object) {
                r is Err && is_error_json(r->Err_0, "invalid_arguments"@, MSG_NOT_OBJECT@)
            } else {
                match value_error(name, schema->0, v) {
                    Some(m) => r is Err && is_error_json(r->Err_0, "invalid_arguments"@, m),
                    None => r == Ok::<JsonValue, JsonValue>(v),
                }
            },
        }
    }
}

/// Checks a tool call before it runs: `schema` is the tool's parameter
/// schema, none when no tool of that name is registered; `parsed` is the
/// arguments as parsed from JSON, or the parser's error.
pub fn precheck_call(name: &str, allowed: &StrSet, schema: Option<&JsonValue>, parsed: Result<JsonValue, String>)
    -> (r: Result<JsonValue, JsonValue>)
    requires
        allowed.wf(),
    ensures
        precheck_ok(name@, allowed@, match schema { Some(s) => Some(*s), None => None }, parsed, r),
{
    if !allowed.contains(name) {
        let msg = cat(MSG_NOT_ALLOWED, name);
        return Err(error_result("tool_not_allowed", msg.as_str()));
    }
    let schema = match schema {
        Some(s) => s,
        None => {
            let msg = cat(MSG_UNKNOWN_TOOL, name);
            return Err(error_result("unknown_tool", msg.as_str()));
        },
    };
    let args = match parsed {
        Ok(v) => v,
        Err(e) => {
            let msg = cat(MSG_BAD_JSON, e.as_str());
            return Err(error_result("invalid_json", msg.as_str()));
        },
    };
    match &args {
        JsonValue::Object(_) => {},
        _ => { return Err(error_result("invalid_arguments", MSG_NOT_OBJECT)); },
    }
    match validate_value(name, schema, &args) {
        Ok(()) => Ok(args),
        Err(m) => Err(error_result("invalid_arguments", m.as_str())),
    }
}

/// How a tool run ended.
pub enum ToolRunOutcome {
    /// It returned a result.
    Done(JsonValue),
    /// It failed.
    Failed(ToolError),
    /// It ran out of time.
    TimedOut,
}

/// What the model is handed after a run: the result, or the refusal for a
/// failure (`tool_error`, with the error's text) or a timeout (`timeout`).
pub fn finish_call(outcome: ToolRunOutcome) -> (r: Result<JsonValue, JsonValue>)
    ensures
        match outcome {
            ToolRunOutcome::Done(v) => r == Ok::<JsonValue, JsonValue>(v),
            ToolRunOutcome::Failed(e) => r is Err && is_error_json(r->Err_0, "tool_error"@, tool_error_text(e)),
            ToolRunOutcome::TimedOut => r is Err && is_error_json(r->Err_0, "timeout"@, MSG_TIMEOUT@),
        },
{
    match outcome {
        ToolRunOutcome::Done(v) => Ok(v),
        ToolRunOutcome::Failed(e) => {
            let m = e.message();
            Err(error_result("tool_error", m.as_str()))
        },
        ToolRunOutcome::TimedOut => Err(error_result("timeout", MSG_TIMEOUT)),
    }
}

/// A call that passes the checks names a tool the context allows and that
/// is registered, and hands it exactly the parsed arguments: an object that
/// conforms to the tool's schema.
pub proof fn law_checked_calls_are_allowed_and_valid(name: Seq<char>, allowed: Set<Seq<char>>, schema: Option<JsonValue>,
    parsed: Result<JsonValue, String>, r: Result<JsonValue, JsonValue>)
    requires
        precheck_ok(name, allowed, schema, parsed, r),
    ensures
        r is Ok ==> allowed.contains(name) && schema is Some && parsed == Ok::<JsonValue, String>(r->Ok_0)
            && r->Ok_0 is Object && value_error(name, schema->0, r->Ok_0) is None,
{
}

} // verus!
