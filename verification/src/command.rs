//! The decisions of the `execute_command` and `delete_file` tools: reading
//! their arguments, bounding the run time, and choosing whether the user has
//! to approve the call first.
use vstd::prelude::*;
use crate::json::{JsonValue, str_of, bool_of};
use crate::editor::value_get;
use crate::notes::{ToolError, invalid};
use crate::text::{cat3, owned, trim, trim_str, is_blank};
use crate::tool_text::{may_delete, command_may_delete_files};

verus! {

/// Run time of a foreground command when none is asked for, and its bound.
pub const FOREGROUND_DEFAULT_SECS: u64 = 60;
pub const FOREGROUND_MAX_SECS: u64 = 300;
/// Run time of a background command when none is asked for, and its bound.
pub const BACKGROUND_DEFAULT_SECS: u64 = 600;
pub const BACKGROUND_MAX_SECS: u64 = 3600;

pub const MSG_MISSING_PRE: &'static str = "缺少 ";
pub const MSG_MISSING_POST: &'static str = " 参数";
pub const MSG_BACKGROUND_NEEDS_DESCRIPTION: &'static str = "run_in_background=true 时必须提供非空 description";
pub const MSG_BACKGROUND_NO_UAC: &'static str = "后台命令不支持 uac=true；需要提权时请以前台方式执行";

/// The text of the argument `key`, empty when it is absent or not a string.
pub open spec fn arg_text(args: JsonValue, key: Seq<char>) -> Seq<char> {
    match str_of(value_get(args, key)) {
        Some(s) => s,
        None => Seq::empty(),
    }
}

/// The flag `key`, false when it is absent or not a boolean.
pub open spec fn arg_flag(args: JsonValue, key: Seq<char>) -> bool {
    bool_of(value_get(args, key)) == Some(true)
}

pub(crate) fn arg_text_exec<'a>(args: &'a JsonValue, key: &str) -> (r: &'a str)
    ensures
        r@ == arg_text(*args, key@),
{
    proof {
        reveal_strlit("");
        assert(""@ =~= Seq::<char>::empty());
    }
    match args {
        JsonValue::Object(m) => match crate::json::get(m, key) {
            Some(JsonValue::Str(s)) => s.as_str(),
            _ => "",
        },
        _ => "",
    }
}

fn arg_flag_exec(args: &JsonValue, key: &str) -> (r: bool)
    ensures
        r == arg_flag(*args, key@),
{
    match args {
        JsonValue::Object(m) => match crate::json::get(m, key) {
            Some(JsonValue::Bool(b)) => *b,
            _ => false,
        },
        _ => false,
    }
}

/// A required text argument: missing or blank is refused.
pub fn arg_str<'a>(args: &'a JsonValue, key: &str) -> (r: Result<&'a str, ToolError>)
    ensures
        trim(arg_text(*args, key@)).len() == 0 ==> r is Err && invalid(r->Err_0, MSG_MISSING_PRE@ + key@ + MSG_MISSING_POST@),
        trim(arg_text(*args, key@)).len() > 0 ==> r is Ok && r->Ok_0@ == arg_text(*args, key@),
{
    let v = arg_text_exec(args, key);
    if is_blank(v) {
        Err(ToolError::InvalidArguments(cat3(MSG_MISSING_PRE, key, MSG_MISSING_POST)))
    } else {
        Ok(v)
    }
}

/// `v` clamped into `[1, max]`.
pub open spec fn clamp_secs(v: int, max: u64) -> u64 {
    if v < 1 { 1 } else if v > max { max } else { v as u64 }
}

/// The run time `timeout_seconds` asks for, as `as_u64` reads it, clamped
/// into `[1, max]`; `default` when it is absent, negative or not an integer.
/// (An integer that does not fit in `i64` is one above it, so it clamps to `max`.)
pub open spec fn timeout_secs(v: Option<JsonValue>, default: u64, max: u64) -> u64 {
    match v {
        Some(JsonValue::Number(Some(n), _)) => if n >= 0 { clamp_secs(n as int, max) } else { clamp_secs(default as int, max) },
        Some(JsonValue::Number(None, true)) => max,
        _ => clamp_secs(default as int, max),
    }
}

fn clamp_exec(v: u64, max: u64) -> (r: u64)
    requires
        max >= 1,
    ensures
        r == clamp_secs(v as int, max),
{
    if v < 1 { 1 } else if v > max { max } else { v }
}

/// An `execute_command` call, read from its arguments.
#[derive(Debug, Clone)]
pub struct CommandRequest {
    pub command: String,
    /// The working folder; empty for the sandbox root.
    pub cwd: String,
    /// Run with administrator rights (Windows only).
    pub uac: bool,
    pub run_in_background: bool,
    /// What a background task is for, trimmed.
    pub description: String,
    pub timeout_secs: u64,
}

/// What `execute_command` makes of its arguments: the command is required;
/// a background run needs a description and cannot be elevated; the run
/// time defaults and is bounded by whether it runs in the background.
pub open spec fn command_request_ok(args: JsonValue, r: Result<CommandRequest, ToolError>) -> bool {
    let command = arg_text(args, "command"@);
    let background = arg_flag(args, "run_in_background"@);
    let uac = arg_flag(args, "uac"@);
    let description = trim(arg_text(args, "description"@));
    if trim(command).len() == 0 {
        r is Err && invalid(r->Err_0, MSG_MISSING_PRE@ + "command"@ + MSG_MISSING_POST@)
    } else if background && description.len() == 0 {
        r is Err && invalid(r->Err_0, MSG_BACKGROUND_NEEDS_DESCRIPTION@)
    } else if background && uac {
        r is Err && invalid(r->Err_0, MSG_BACKGROUND_NO_UAC@)
    } else {
        &&& r is Ok
        &&& r->Ok_0.command@ == command
        &&& r->Ok_0.cwd@ == arg_text(args, "cwd"@)
        &&& r->Ok_0.uac == uac
        &&& r->Ok_0.run_in_background == background
        &&& r->Ok_0.description@ == description
        &&& r->Ok_0.timeout_secs == if background {
                timeout_secs(value_get(args, "timeout_seconds"@), BACKGROUND_DEFAULT_SECS, BACKGROUND_MAX_SECS)
            } else {
                timeout_secs(value_get(args, "timeout_seconds"@), FOREGROUND_DEFAULT_SECS, FOREGROUND_MAX_SECS)
            }
    }
}

/// Reads the arguments of `execute_command`.
pub fn parse_command_request(args: &JsonValue) -> (r: Result<CommandRequest, ToolError>)
    ensures
        command_request_ok(*args, r),
{
    let command = match arg_str(args, "command") {
        Ok(c) => c,
        Err(e) => { return Err(e); },
    };
    let cwd = arg_text_exec(args, "cwd");
    let uac = arg_flag_exec(args, "uac");
    let background = arg_flag_exec(args, "run_in_background");
    let description = trim_str(arg_text_exec(args, "description"));
    proof {
        reveal_strlit("");
    }
    if background && crate::validate::is_empty_str(description.as_str()) {
        return Err(ToolError::InvalidArguments(owned(MSG_BACKGROUND_NEEDS_DESCRIPTION)));
    }
    if background && uac {
        return Err(ToolError::InvalidArguments(owned(MSG_BACKGROUND_NO_UAC)));
    }
    let (default, max) = if background {
        (BACKGROUND_DEFAULT_SECS, BACKGROUND_MAX_SECS)
    } else {
        (FOREGROUND_DEFAULT_SECS, FOREGROUND_MAX_SECS)
    };
    let requested = match args {
        JsonValue::Object(m) => crate::json::get(m, "timeout_seconds"),
        _ => None,
    };
    let timeout = match requested {
        Some(JsonValue::Number(Some(n), _)) => if *n >= 0 { clamp_exec(*n as u64, max) } else { clamp_exec(default, max) },
        Some(JsonValue::Number(None, true)) => max,
        _ => clamp_exec(default, max),
    };
    Ok(CommandRequest {
        command: owned(command),
        cwd: owned(cwd),
        uac,
        run_in_background: background,
        description,
        timeout_secs: timeout,
    })
}

// ---------- approvals ----------

/// Whether a call has to wait for the user.
#[derive(Debug, Clone, Copy, PartialEq, Eq, Structural)]
pub enum Approval {
    /// Ask with the file-deletion prompt.
    DeleteCommand,
    /// Ask with the command prompt.
    Command,
    /// Run without asking.
    Auto,
}

/// The approval a command needs: a command that may delete files asks
/// unless deleting commands are approved automatically; any other command
/// (and a deleting one approved automatically) asks unless commands are.
pub open spec fn command_approval_spec(command: Seq<char>, auto_approve: bool, delete_auto_approve: bool) -> Approval {
    if may_delete(command) && !delete_auto_approve {
        Approval::DeleteCommand
    } else if !auto_approve {
        Approval::Command
    } else {
        Approval::Auto
    }
}

/// The approval a command needs under the given settings.
pub fn command_approval(command: &str, auto_approve: bool, delete_auto_approve: bool) -> (r: Approval)
    ensures
        r == command_approval_spec(command@, auto_approve, delete_auto_approve),
{
    if command_may_delete_files(command) && !delete_auto_approve {
        Approval::DeleteCommand
    } else if !auto_approve {
        Approval::Command
    } else {
        Approval::Auto
    }
}

/// The event the front end listens to for an approval, and what is named
/// in its prompt; none when no approval is asked.
pub fn approval_event(a: Approval) -> (r: Option<(&'static str, &'static str)>)
    ensures
        match r {
            Some((event, label)) => (a == Approval::DeleteCommand && event@ == "chat:command_delete_approval"@ && label@ == "删除命令"@)
                || (a == Approval::Command && event@ == "chat:command_approval"@ && label@ == "命令"@),
            None => a == Approval::Auto,
        },
{
    match a {
        Approval::DeleteCommand => Some(("chat:command_delete_approval", "删除命令")),
        Approval::Command => Some(("chat:command_approval", "命令")),
        Approval::Auto => None,
    }
}

/// Whether deleting a file has to wait for the user.
pub fn file_delete_needs_approval(file_delete_auto_approve: bool) -> (r: bool)
    ensures
        r == !file_delete_auto_approve,
{
    !file_delete_auto_approve
}

/// The value of the `i`-th entry of an object.
pub open spec fn value_at(m: Seq<(String, JsonValue)>, i: int) -> JsonValue {
    m[i].1
}

/// What a finished foreground command reports: whether it succeeded (exit
/// code 0), the exit code, and its output, under keys in sorted order.
pub fn command_result(exit_code: i32, output: String) -> (r: JsonValue)
    ensures
        r is Object,
        crate::editor::entry_keys(r->Object_0@) == seq!["exit_code"@, "ok"@, "output"@],
        value_at(r->Object_0@, 0) == JsonValue::Number(Some(exit_code as i64), true),
        value_at(r->Object_0@, 1) == JsonValue::Bool(exit_code == 0),
        value_at(r->Object_0@, 2) is Str && value_at(r->Object_0@, 2)->Str_0 == output,
{
    let mut m: Vec<(String, JsonValue)> = Vec::new();
    m.push((owned("exit_code"), JsonValue::Number(Some(exit_code as i64), true)));
    m.push((owned("ok"), JsonValue::Bool(exit_code == 0)));
    m.push((owned("output"), JsonValue::Str(output)));
    assert(crate::editor::entry_keys(m@) =~= seq!["exit_code"@, "ok"@, "output"@]);
    JsonValue::Object(m)
}

} // verus!
