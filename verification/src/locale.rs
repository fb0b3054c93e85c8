//! Interface language files, and the argument checks of the tools that take
//! no arguments.
use vstd::prelude::*;
use crate::json::{JsonValue, str_of};
use crate::editor::value_get;
use crate::notes::{ToolError, invalid};
use crate::text::{cat, cat3, owned, is_ascii_alnum, chars_of};

verus! {

pub const MSG_BAD_LOCALE: &'static str = "非法 locale 名: ";

/// A locale name that may name a file: non-empty, ASCII letters, digits and `-` only.
pub open spec fn locale_name_ok(locale: Seq<char>) -> bool {
    locale.len() > 0 && forall|i: int| 0 <= i < locale.len() ==> is_ascii_alnum(#[trigger] locale[i]) || locale[i] == '-'
}

/// Checks a locale name before it becomes a file name.
pub fn check_locale_name(locale: &str) -> (r: Result<(), String>)
    ensures
        locale_name_ok(locale@) ==> r is Ok,
        !locale_name_ok(locale@) ==> r is Err && r->Err_0@ == MSG_BAD_LOCALE@ + locale@,
{
    let v = chars_of(locale);
    if v.len() == 0 {
        return Err(cat(MSG_BAD_LOCALE, locale));
    }
    let mut i: usize = 0;
    while i < v.len()
        invariant
            i <= v@.len(),
            v@ == locale@,
            forall|j: int| 0 <= j < i ==> is_ascii_alnum(#[trigger] v@[j]) || v@[j] == '-',
        decreases v@.len() - i,
    {
        let c = v[i];
        let ok = ('a' <= c && c <= 'z') || ('A' <= c && c <= 'Z') || ('0' <= c && c <= '9') || c == '-';
        if !ok {
            return Err(cat(MSG_BAD_LOCALE, locale));
        }
        i = i + 1;
    }
    Ok(())
}

/// The version mark of built-in entries in a language file (`__locale_version`),
/// given the file parsed as JSON (none when it did not parse).
pub open spec fn version_of(parsed: Option<JsonValue>) -> Option<Seq<char>> {
    match parsed {
        Some(v) => str_of(value_get(v, "__locale_version"@)),
        None => None,
    }
}

/// Reads the version mark of a parsed language file.
pub fn locale_version_of(parsed: Option<&JsonValue>) -> (r: Option<String>)
    ensures
        crate::diag::opt_view(r) == version_of(match parsed { Some(v) => Some(*v), None => None }),
{
    match parsed {
        Some(JsonValue::Object(m)) => match crate::json::get(m, "__locale_version") {
            Some(JsonValue::Str(s)) => Some(owned(s.as_str())),
            _ => None,
        },
        _ => None,
    }
}

/// What happens to a language file.
#[derive(Debug, Clone, Copy, PartialEq, Eq, Structural)]
pub enum LocaleAction {
    /// Write the built-in entries (the file is missing) and use them.
    Seed,
    /// Overwrite the file with the built-in entries (they changed) and use them.
    Reseed,
    /// Use the file as it is (with the user's edits).
    Keep,
}

/// A missing file is seeded; a file whose version differs from the built-in
/// entries' version is seeded again; otherwise the file is kept. Built-in
/// entries without a version never replace a file.
pub open spec fn locale_action_spec(exists: bool, seed_version: Option<Seq<char>>, file_version: Option<Seq<char>>) -> LocaleAction {
    if !exists {
        LocaleAction::Seed
    } else if seed_version is Some && file_version != seed_version {
        LocaleAction::Reseed
    } else {
        LocaleAction::Keep
    }
}

/// Decides what happens to a language file.
pub fn locale_action(exists: bool, seed_version: Option<&str>, file_version: Option<&str>) -> (r: LocaleAction)
    ensures
        r == locale_action_spec(exists, crate::archive::opt_text(seed_version), crate::archive::opt_text(file_version)),
{
    if !exists {
        return LocaleAction::Seed;
    }
    match seed_version {
        Some(s) => {
            let same = match file_version {
                Some(f) => crate::text::str_eq(f, s),
                None => false,
            };
            if same { LocaleAction::Keep } else { LocaleAction::Reseed }
        },
        None => LocaleAction::Keep,
    }
}

// ---------- tools without arguments ----------

pub const MSG_ARGS_NOT_OBJECT: &'static str = " 参数必须是 JSON object";
pub const MSG_TAKES_NO_ARGS: &'static str = " 不接受参数";

/// The check of a tool that takes no arguments: the arguments have to be an
/// empty object.
pub open spec fn no_args_error(args: JsonValue, tool: Seq<char>) -> Option<Seq<char>> {
    match args {
        JsonValue::Object(m) => if m@.len() == 0 { None } else { Some(tool + MSG_TAKES_NO_ARGS@) },
        _ => Some(tool + MSG_ARGS_NOT_OBJECT@),
    }
}

/// Checks that a tool is called without arguments.
pub fn ensure_no_args(args: &JsonValue, tool: &str) -> (r: Result<(), String>)
    ensures
        match no_args_error(*args, tool@) {
            None => r is Ok,
            Some(m) => r is Err && r->Err_0@ == m,
        },
{
    match args {
        JsonValue::Object(m) => if m.len() == 0 { Ok(()) } else { Err(cat(tool, MSG_TAKES_NO_ARGS)) },
        _ => Err(cat(tool, MSG_ARGS_NOT_OBJECT)),
    }
}

pub const MSG_CLOCK_NOT_OBJECT: &'static str = "参数必须是 JSON object";
pub const MSG_CLOCK_NO_ARGS: &'static str = "get_current_time 不接受参数";

/// Checks the arguments of `get_current_time` (it reports its refusals as
/// invalid arguments).
pub fn clock_args(args: &JsonValue) -> (r: Result<(), ToolError>)
    ensures
        match *args {
            JsonValue::Object(m) => if m@.len() == 0 { r is Ok } else { r is Err && invalid(r->Err_0, MSG_CLOCK_NO_ARGS@) },
            _ => r is Err && invalid(r->Err_0, MSG_CLOCK_NOT_OBJECT@),
        },
{
    match args {
        JsonValue::Object(m) => if m.len() == 0 {
            Ok(())
        } else {
            Err(ToolError::InvalidArguments(owned(MSG_CLOCK_NO_ARGS)))
        },
        _ => Err(ToolError::InvalidArguments(owned(MSG_CLOCK_NOT_OBJECT))),
    }
}

} // verus!
