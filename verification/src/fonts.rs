//! Imported fonts: which files are accepted, and the names a font is known by.
use vstd::prelude::*;
use crate::diag::opt_view;
use crate::text::{cat, cat3, owned, str_eq};
use crate::editor::{lower_ext, lower_ext_of};
use crate::scene::{path_file_name, path_file_stem, file_stem_of};

verus! {

pub const MSG_BAD_FONT_PRE: &'static str = "不支持的字体格式: .";
pub const MSG_BAD_FONT_POST: &'static str = "——仅支持 .ttf 和 .woff2";
pub const MSG_BAD_FILE_NAME: &'static str = "无效的文件名";
pub const MSG_BAD_FONT_NAME: &'static str = "无法解析字体名称";
pub const MSG_FONT_EXISTS_PRE: &'static str = "字体 \"";
pub const MSG_FONT_EXISTS_POST: &'static str = "\" 已存在，不能重复导入";

/// A font file the app accepts: TrueType or WOFF2, in any case.
pub open spec fn font_file(path: Seq<char>) -> bool {
    lower_ext(path) == "ttf"@ || lower_ext(path) == "woff2"@
}

/// An imported font: the family name (the file's stem) and the file name.
#[derive(Debug, Clone)]
pub struct ImportedFontInfo {
    pub name: String,
    pub file_name: String,
    pub file_path: String,
}

/// What importing the font at `path` is named: refused unless it is a font
/// file; then its file name, and its stem as the family name.
pub open spec fn font_names_ok(path: Seq<char>, r: Result<(String, String), String>) -> bool {
    if !font_file(path) {
        r is Err && r->Err_0@ == MSG_BAD_FONT_PRE@ + lower_ext(path) + MSG_BAD_FONT_POST@
    } else {
        match path_file_name(path) {
            None => r is Err && r->Err_0@ == MSG_BAD_FILE_NAME@,
            Some(f) => match path_file_stem(f) {
                None => r is Err && r->Err_0@ == MSG_BAD_FONT_NAME@,
                Some(stem) => r is Ok && r->Ok_0.0@ == stem && r->Ok_0.1@ == f,
            },
        }
    }
}

/// The family name and file name of a font to import.
pub fn font_names(path: &str) -> (r: Result<(String, String), String>)
    ensures
        font_names_ok(path@, r),
{
    let ext = lower_ext_of(path);
    if !str_eq(ext.as_str(), "ttf") && !str_eq(ext.as_str(), "woff2") {
        return Err(cat3(MSG_BAD_FONT_PRE, ext.as_str(), MSG_BAD_FONT_POST));
    }
    let file = match crate::scene::file_name_of(path) {
        Some(f) => f,
        None => { return Err(owned(MSG_BAD_FILE_NAME)); },
    };
    let stem = match file_stem_of(file.as_str()) {
        Some(s) => s,
        None => { return Err(owned(MSG_BAD_FONT_NAME)); },
    };
    Ok((stem, file))
}

/// The refusal of a font whose file is imported already.
pub fn font_exists_message(name: &str) -> (r: String)
    ensures
        r@ == MSG_FONT_EXISTS_PRE@ + name@ + MSG_FONT_EXISTS_POST@,
{
    cat3(MSG_FONT_EXISTS_PRE, name, MSG_FONT_EXISTS_POST)
}

pub const MSG_BAD_FONT_FILE: &'static str = "无效的字体文件名";
pub const MSG_FONT_MISSING: &'static str = "字体文件不存在: ";

/// The file a font deletion may touch: only the file name of what is given.
pub fn font_file_to_delete(name: &str) -> (r: Result<String, String>)
    ensures
        match path_file_name(name@) {
            Some(f) => r is Ok && r->Ok_0@ == f,
            None => r is Err && r->Err_0@ == MSG_BAD_FONT_FILE@,
        },
{
    match crate::scene::file_name_of(name) {
        Some(f) => Ok(f),
        None => Err(owned(MSG_BAD_FONT_FILE)),
    }
}

} // verus!
