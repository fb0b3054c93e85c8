//! The tool definitions handed to the model: each tool's name, description
//! and the strict JSON schema of its parameters, and how long a call may run.
use vstd::prelude::*;
use crate::json::JsonValue;
use crate::editor::entry_keys;
use crate::text::{owned, str_eq};
use crate::tools::{
    CharacterList, CharacterSwitch, CurrentTimeTool, SceneList, SceneSwitch, CurrentStatus, SceneStatus, ListSkills,
    ReadSkill, DeleteFile, ExecuteCommand, BiliSearchTool, BiliLearnTool, BiliKnowledgeTool, NetMusicSearchTool,
    NetMusicRecommendTool,
};
use crate::notes::{GetCurrentMemory, GetNotes, AddNote, UpdateNote, DeleteNote};

verus! {

/// A function the model may call: its name, what it does, and the JSON
/// schema of its arguments.
#[derive(Debug)]
pub struct FunctionSchema {
    pub name: String,
    pub description: String,
    pub parameters: JsonValue,
}

/// A tool definition as the chat API takes it (`type` is `function`).
#[derive(Debug)]
pub struct ToolDefinition {
    pub type_: String,
    pub function: FunctionSchema,
}

impl ToolDefinition {
    /// A function definition.
    pub fn new(name: &str, description: &str, parameters: JsonValue) -> (r: ToolDefinition)
        ensures
            r.type_@ == "function"@,
            r.function.name@ == name@,
            r.function.description@ == description@,
            r.function.parameters == parameters,
    {
        ToolDefinition {
            type_: owned("function"),
            function: FunctionSchema { name: owned(name), description: owned(description), parameters },
        }
    }
}

/// A parameter as plain values: name, JSON type, description, and the
/// longest string it accepts when bounded.
pub open spec fn param_view(p: (&str, &str, &str, Option<i64>)) -> (Seq<char>, Seq<char>, Seq<char>, Option<i64>) {
    (p.0@, p.1@, p.2@, p.3)
}

/// The parameters as plain values.
pub open spec fn params_view(ps: Seq<(&str, &str, &str, Option<i64>)>) -> Seq<(Seq<char>, Seq<char>, Seq<char>, Option<i64>)> {
    ps.map_values(|p: (&str, &str, &str, Option<i64>)| param_view(p))
}

/// `v` is a string holding `t`.
pub open spec fn text_value(v: JsonValue, t: Seq<char>) -> bool {
    v matches JsonValue::Str(s) && s@ == t
}

/// The keys of a parameter's schema, in sorted order: `description`,
/// `items` for an array, `maxLength` when bounded, `type`.
pub open spec fn param_keys(p: (Seq<char>, Seq<char>, Seq<char>, Option<i64>)) -> Seq<Seq<char>> {
    seq!["description"@]
        + (if p.1 == "array"@ { seq!["items"@] } else { Seq::empty() })
        + (if p.3 is Some { seq!["maxLength"@] } else { Seq::empty() })
        + seq!["type"@]
}

/// The schema of one parameter: its description and type; an array holds
/// strings; a bounded string has its `maxLength`.
pub open spec fn param_schema_ok(v: JsonValue, p: (Seq<char>, Seq<char>, Seq<char>, Option<i64>)) -> bool {
    &&& v is Object
    &&& entry_keys(v->Object_0@) == param_keys(p)
    &&& text_value(v->Object_0@[0].1, p.2)
    &&& text_value(v->Object_0@.last().1, p.1)
    &&& p.1 == "array"@ ==> (v->Object_0@[1].1 is Object
            && entry_keys(v->Object_0@[1].1->Object_0@) == seq!["type"@]
            && text_value(v->Object_0@[1].1->Object_0@[0].1, "string"@))
    &&& p.3 is Some ==> v->Object_0@[v->Object_0@.len() - 2].1 == JsonValue::Number(Some(p.3->0), true)
}

/// The keys of a parameters schema, in sorted order.
pub open spec fn schema_keys(with_required: bool) -> Seq<Seq<char>> {
    if with_required {
        seq!["additionalProperties"@, "properties"@, "required"@, "type"@]
    } else {
        seq!["additionalProperties"@, "properties"@, "type"@]
    }
}

/// A strict parameters schema: an object that declares exactly `params`
/// (in that order), requires `required` (no `required` key when `None`),
/// and refuses any other argument.
pub open spec fn strict_params(v: JsonValue, params: Seq<(Seq<char>, Seq<char>, Seq<char>, Option<i64>)>,
    required: Option<Seq<Seq<char>>>) -> bool {
    &&& v is Object
    &&& entry_keys(v->Object_0@) == schema_keys(required is Some)
    &&& v->Object_0@[0].1 == JsonValue::Bool(false)
    &&& v->Object_0@[1].1 is Object
    &&& entry_keys(v->Object_0@[1].1->Object_0@) == params.map_values(|p: (Seq<char>, Seq<char>, Seq<char>, Option<i64>)| p.0)
    &&& forall|i: int| 0 <= i < params.len() ==> param_schema_ok(#[trigger] v->Object_0@[1].1->Object_0@[i].1, params[i])
    &&& required is Some ==> (v->Object_0@[2].1 is Array
            && v->Object_0@[2].1->Array_0@.len() == required->0.len()
            && forall|i: int| 0 <= i < required->0.len() ==> text_value(#[trigger] v->Object_0@[2].1->Array_0@[i], required->0[i]))
    &&& text_value(v->Object_0@.last().1, "object"@)
}

/// `d` defines the function `name` with `description` and strict
/// parameters.
pub open spec fn defines(d: ToolDefinition, name: Seq<char>, description: Seq<char>,
    params: Seq<(Seq<char>, Seq<char>, Seq<char>, Option<i64>)>, required: Option<Seq<Seq<char>>>) -> bool {
    &&& d.type_@ == "function"@
    &&& d.function.name@ == name
    &&& d.function.description@ == description
    &&& strict_params(d.function.parameters, params, required)
}

fn param_schema(p: (&str, &str, &str, Option<i64>)) -> (r: JsonValue)
    ensures
        param_schema_ok(r, param_view(p)),
{
    let ghost pv = param_view(p);
    let (_, kind, description, max_length) = p;
    let mut m: Vec<(String, JsonValue)> = Vec::new();
    m.push((owned("description"), JsonValue::Str(owned(description))));
    let is_array = str_eq(kind, "array");
    if is_array {
        let mut items: Vec<(String, JsonValue)> = Vec::new();
        items.push((owned("type"), JsonValue::Str(owned("string"))));
        assert(entry_keys(items@) =~= seq!["type"@]);
        m.push((owned("items"), JsonValue::Object(items)));
    }
    match max_length {
        Some(n) => { m.push((owned("maxLength"), JsonValue::Number(Some(n), true))); },
        None => {},
    }
    m.push((owned("type"), JsonValue::Str(owned(kind))));
    assert(entry_keys(m@) =~= param_keys(pv));
    JsonValue::Object(m)
}

/// The strict schema of a tool's parameters.
pub fn strict_schema(params: &Vec<(&str, &str, &str, Option<i64>)>, required: Option<&Vec<&str>>) -> (r: JsonValue)
    ensures
        strict_params(r, params_view(params@), match required { Some(v) => Some(v@.map_values(|s: &str| s@)), None => None }),
{
    let ghost pv = params_view(params@);
    let mut props: Vec<(String, JsonValue)> = Vec::new();
    let mut i: usize = 0;
    while i < params.len()
        invariant
            i <= params@.len(),
            pv == params_view(params@),
            props@.len() == i,
            entry_keys(props@) == pv.subrange(0, i as int).map_values(|p: (Seq<char>, Seq<char>, Seq<char>, Option<i64>)| p.0),
            forall|j: int| 0 <= j < i ==> param_schema_ok(#[trigger] props@[j].1, pv[j]),
        decreases params@.len() - i,
    {
        let p = params[i];
        let v = param_schema(p);
        let ghost before = props@;
        props.push((owned(p.0), v));
        proof {
            assert(pv[i as int] == param_view(params@[i as int]));
            let ghost ks = pv.subrange(0, i + 1).map_values(|p: (Seq<char>, Seq<char>, Seq<char>, Option<i64>)| p.0);
            let ghost ks0 = pv.subrange(0, i as int).map_values(|p: (Seq<char>, Seq<char>, Seq<char>, Option<i64>)| p.0);
            assert forall|j: int| 0 <= j < i + 1 implies entry_keys(props@)[j] == ks[j] by {
                if j < i {
                    assert(props@[j] == before[j]);
                    assert(entry_keys(before)[j] == ks0[j]);
                }
            }
            assert(entry_keys(props@) =~= ks);
            assert forall|j: int| 0 <= j < i + 1 implies param_schema_ok(#[trigger] props@[j].1, pv[j]) by {
                if j < i { assert(props@[j] == before[j]); }
            }
        }
        i = i + 1;
    }
    assert(pv.subrange(0, params@.len() as int) =~= pv);
    let mut m: Vec<(String, JsonValue)> = Vec::new();
    m.push((owned("additionalProperties"), JsonValue::Bool(false)));
    m.push((owned("properties"), JsonValue::Object(props)));
    let ghost req = match required { Some(v) => Some(v@.map_values(|s: &str| s@)), None => None::<Seq<Seq<char>>> };
    match required {
        Some(names) => {
            let mut arr: Vec<JsonValue> = Vec::new();
            let mut k: usize = 0;
            while k < names.len()
                invariant
                    k <= names@.len(),
                    arr@.len() == k,
                    forall|j: int| 0 <= j < k ==> text_value(#[trigger] arr@[j], names@[j]@),
                decreases names@.len() - k,
            {
                arr.push(JsonValue::Str(owned(names[k])));
                k = k + 1;
            }
            m.push((owned("required"), JsonValue::Array(arr)));
        },
        None => {},
    }
    m.push((owned("type"), JsonValue::Str(owned("object"))));
    assert(entry_keys(m@) =~= schema_keys(required is Some));
    JsonValue::Object(m)
}

fn define(name: &str, description: &str, params: &Vec<(&str, &str, &str, Option<i64>)>, required: Option<&Vec<&str>>)
    -> (r: ToolDefinition)
    ensures
        defines(r, name@, description@, params_view(params@), match required { Some(v) => Some(v@.map_values(|s: &str| s@)), None => None }),
{
    let parameters = strict_schema(params, required);
    ToolDefinition::new(name, description, parameters)
}


// ---------- the file tools ----------

/// `list_files`, inside the file sandbox.
pub struct ListFiles<S> {
    pub settings: S,
}

/// `read_file`, inside the file sandbox.
pub struct ReadFile<S> {
    pub settings: S,
}

/// `write_file`, inside the file sandbox.
pub struct WriteFile<S> {
    pub settings: S,
}

/// `edit_file`, inside the file sandbox.
pub struct EditFile<S> {
    pub settings: S,
}

/// `search_files`, inside the file sandbox.
pub struct SearchFiles<S> {
    pub settings: S,
}

/// `grep_files`, inside the file sandbox.
pub struct GrepFiles<S> {
    pub settings: S,
}

// ---------- definitions ----------

pub const DESC_GET_CURRENT_TIME: &'static str = "查询当前设备的本地日期和时间";
pub const DESC_SCENE_LIST: &'static str = "列出所有可用场景的 ID、名称、描述与背景";
pub const DESC_SCENE_SWITCH: &'static str = "切换到指定场景，可按场景 ID 或场景名称指定";
pub const DESC_STATUS_GET_CURRENT: &'static str = "查询当前角色的运行时状态：玩家名、当前角色、在场/舞台角色、背景、立绘、音乐、特效、当前场景、全局变量等";
pub const DESC_STATUS_GET_SCENE: &'static str = "查询当前场景的描述、背景与场景 ID";
pub const DESC_CHARACTER_LIST: &'static str = "列出所有可用角色的 ID 与名称";
pub const DESC_CHARACTER_SWITCH: &'static str = "切换到指定角色作为当前对话角色（仅切换，不重置对话历史）";
pub const DESC_MEMORY_GET_CURRENT: &'static str = "获取当前角色的自动记忆库文本（关于用户的信息、重要约定、长期经历）";
pub const DESC_MEMORY_GET_NOTES: &'static str = "获取手动记忆笔记（含 id、内容、标签）。默认读取当前角色的笔记；可传 role 指定读取其他角色的笔记（只读，不能写入）";
pub const DESC_MEMORY_ADD_NOTE: &'static str = "向当前角色添加一条手动记忆笔记，可附带标签（仅能写入当前角色的笔记）";
pub const DESC_MEMORY_UPDATE_NOTE: &'static str = "按 ID 更新当前角色的手动记忆笔记的内容或标签，至少提供一项（仅能修改当前角色的笔记）";
pub const DESC_MEMORY_DELETE_NOTE: &'static str = "按 ID 删除当前角色的手动记忆笔记（仅能删除当前角色的笔记）";
pub const DESC_BILIBILI_SEARCH_VIDEOS: &'static str = "搜索B站视频（返回标题/UP主/播放/点赞/简介）。当用户想找B站视频、学习某个主题、或要看某个内容时使用。";
pub const DESC_BILIBILI_LEARN_VIDEO: &'static str = "学习一个B站视频（拉取视频信息、重复弹幕、高赞评论并存入学习库）。当用户给了一个 bvid/链接、或想学习某个视频的弹幕文化和大家看法时使用。";
pub const DESC_BILIBILI_SEARCH_KNOWLEDGE: &'static str = "查询已学B站知识库（通过关键词搜标题/UP主/弹幕梗）。当你已学过一个视频、或用户问起之前学过的内容时使用。";
pub const DESC_NETMUSIC_SEARCH: &'static str = "搜索网易云歌曲（返回歌名/歌手/专辑/时长/播放链接）。当用户想听某首歌、找音乐，或要求点歌时使用。";
pub const DESC_NETMUSIC_RECOMMEND: &'static str = "按心情推荐网易云歌曲（happy/sad/angry/sleepy/calm/nostalgic）。当用户想听适配当前心情、氛围的歌，或要求推歌时使用。";
pub const DESC_LIST_SKILLS: &'static str = "列出所有可用技能的名称、描述与位置。";
pub const DESC_READ_SKILL: &'static str = "加载某个技能的 SKILL.md 指令到上下文。当任务匹配某个可用技能的描述时，在执行任务前调用它。";
pub const DESC_LIST_FILES: &'static str = "列出指定目录下的文件与子目录。";
pub const DESC_READ_FILE: &'static str = "读取文本文件的内容。";
pub const DESC_WRITE_FILE: &'static str = "向文件写入内容，自动创建父目录。默认覆盖整个文件；append=true 时追加。单次调用写完整内容；仅当一次写入因参数过长而失败（报错会附带 [诊断] 提示）后才用 append=true 分段补齐。";
pub const DESC_DELETE_FILE: &'static str = "删除一个文件。默认会先向用户显示目标路径并请求确认；用户拒绝或审批超时则不会删除。";
pub const DESC_EDIT_FILE: &'static str = "精确替换文件中的文本：old_string 必须唯一匹配（除非 replace_all=true）。修改前先用 read_file 确认内容；替换失败会说明原因（无匹配/多处匹配）。";
pub const DESC_SEARCH_FILES: &'static str = "按文件名通配符（* 匹配任意序列、? 匹配单字符，大小写不敏感）在目录中递归查找文件，返回路径列表。";
pub const DESC_GREP_FILES: &'static str = "用正则表达式在目录的文本文件中搜索内容，返回 文件:行号: 内容 列表（大文件与二进制自动跳过）。";

impl CurrentTimeTool {
    /// The definition of `get_current_time`.
    pub fn definition(&self) -> (r: ToolDefinition)
        ensures
            defines(r, "get_current_time"@, DESC_GET_CURRENT_TIME@, Seq::empty(),
                Some(Seq::empty())),
    {
        let params: Vec<(&str, &str, &str, Option<i64>)> = Vec::new();
        let required: Vec<&str> = Vec::new();
        let r = define("get_current_time", DESC_GET_CURRENT_TIME, &params, Some(&required));
        assert(params_view(params@) =~= Seq::<(Seq<char>, Seq<char>, Seq<char>, Option<i64>)>::empty());
        assert(required@.map_values(|s: &str| s@) =~= Seq::<Seq<char>>::empty());
        r
    }
}

impl SceneList {
    /// The definition of `scene_list`.
    pub fn definition(&self) -> (r: ToolDefinition)
        ensures
            defines(r, "scene_list"@, DESC_SCENE_LIST@, Seq::empty(),
                Some(Seq::empty())),
    {
        let params: Vec<(&str, &str, &str, Option<i64>)> = Vec::new();
        let required: Vec<&str> = Vec::new();
        let r = define("scene_list", DESC_SCENE_LIST, &params, Some(&required));
        assert(params_view(params@) =~= Seq::<(Seq<char>, Seq<char>, Seq<char>, Option<i64>)>::empty());
        assert(required@.map_values(|s: &str| s@) =~= Seq::<Seq<char>>::empty());
        r
    }
}

impl SceneSwitch {
    /// The definition of `scene_switch`.
    pub fn definition(&self) -> (r: ToolDefinition)
        ensures
            defines(r, "scene_switch"@, DESC_SCENE_SWITCH@, seq![("id"@, "string"@, "场景 ID"@, None), ("name"@, "string"@, "场景名称"@, None)],
                Some(Seq::empty())),
    {
        let params: Vec<(&str, &str, &str, Option<i64>)> = vec![
            ("id", "string", "场景 ID", None),
            ("name", "string", "场景名称", None),
        ];
        let required: Vec<&str> = Vec::new();
        let r = define("scene_switch", DESC_SCENE_SWITCH, &params, Some(&required));
        assert(params_view(params@) =~= seq![("id"@, "string"@, "场景 ID"@, None), ("name"@, "string"@, "场景名称"@, None)]);
        assert(required@.map_values(|s: &str| s@) =~= Seq::<Seq<char>>::empty());
        r
    }
}

impl CurrentStatus {
    /// The definition of `status_get_current`.
    pub fn definition(&self) -> (r: ToolDefinition)
        ensures
            defines(r, "status_get_current"@, DESC_STATUS_GET_CURRENT@, Seq::empty(),
                Some(Seq::empty())),
    {
        let params: Vec<(&str, &str, &str, Option<i64>)> = Vec::new();
        let required: Vec<&str> = Vec::new();
        let r = define("status_get_current", DESC_STATUS_GET_CURRENT, &params, Some(&required));
        assert(params_view(params@) =~= Seq::<(Seq<char>, Seq<char>, Seq<char>, Option<i64>)>::empty());
        assert(required@.map_values(|s: &str| s@) =~= Seq::<Seq<char>>::empty());
        r
    }
}

impl SceneStatus {
    /// The definition of `status_get_scene`.
    pub fn definition(&self) -> (r: ToolDefinition)
        ensures
            defines(r, "status_get_scene"@, DESC_STATUS_GET_SCENE@, Seq::empty(),
                Some(Seq::empty())),
    {
        let params: Vec<(&str, &str, &str, Option<i64>)> = Vec::new();
        let required: Vec<&str> = Vec::new();
        let r = define("status_get_scene", DESC_STATUS_GET_SCENE, &params, Some(&required));
        assert(params_view(params@) =~= Seq::<(Seq<char>, Seq<char>, Seq<char>, Option<i64>)>::empty());
        assert(required@.map_values(|s: &str| s@) =~= Seq::<Seq<char>>::empty());
        r
    }
}

impl CharacterList {
    /// The definition of `character_list`.
    pub fn definition(&self) -> (r: ToolDefinition)
        ensures
            defines(r, "character_list"@, DESC_CHARACTER_LIST@, Seq::empty(),
                Some(Seq::empty())),
    {
        let params: Vec<(&str, &str, &str, Option<i64>)> = Vec::new();
        let required: Vec<&str> = Vec::new();
        let r = define("character_list", DESC_CHARACTER_LIST, &params, Some(&required));
        assert(params_view(params@) =~= Seq::<(Seq<char>, Seq<char>, Seq<char>, Option<i64>)>::empty());
        assert(required@.map_values(|s: &str| s@) =~= Seq::<Seq<char>>::empty());
        r
    }
}

impl CharacterSwitch {
    /// The definition of `character_switch`.
    pub fn definition(&self) -> (r: ToolDefinition)
        ensures
            defines(r, "character_switch"@, DESC_CHARACTER_SWITCH@, seq![("id"@, "integer"@, "角色 ID"@, None)],
                Some(seq!["id"@])),
    {
        let params: Vec<(&str, &str, &str, Option<i64>)> = vec![
            ("id", "integer", "角色 ID", None),
        ];
        let required: Vec<&str> = vec!["id"];
        let r = define("character_switch", DESC_CHARACTER_SWITCH, &params, Some(&required));
        assert(params_view(params@) =~= seq![("id"@, "integer"@, "角色 ID"@, None)]);
        assert(required@.map_values(|s: &str| s@) =~= seq!["id"@]);
        r
    }
}

impl GetCurrentMemory {
    /// The definition of `memory_get_current`.
    pub fn definition(&self) -> (r: ToolDefinition)
        ensures
            defines(r, "memory_get_current"@, DESC_MEMORY_GET_CURRENT@, Seq::empty(),
                Some(Seq::empty())),
    {
        let params: Vec<(&str, &str, &str, Option<i64>)> = Vec::new();
        let required: Vec<&str> = Vec::new();
        let r = define("memory_get_current", DESC_MEMORY_GET_CURRENT, &params, Some(&required));
        assert(params_view(params@) =~= Seq::<(Seq<char>, Seq<char>, Seq<char>, Option<i64>)>::empty());
        assert(required@.map_values(|s: &str| s@) =~= Seq::<Seq<char>>::empty());
        r
    }
}

impl GetNotes {
    /// The definition of `memory_get_notes`.
    pub fn definition(&self) -> (r: ToolDefinition)
        ensures
            defines(r, "memory_get_notes"@, DESC_MEMORY_GET_NOTES@, seq![("role"@, "string"@, "要读取其笔记的角色名；不传时读取当前角色"@, None)],
                Some(Seq::empty())),
    {
        let params: Vec<(&str, &str, &str, Option<i64>)> = vec![
            ("role", "string", "要读取其笔记的角色名；不传时读取当前角色", None),
        ];
        let required: Vec<&str> = Vec::new();
        let r = define("memory_get_notes", DESC_MEMORY_GET_NOTES, &params, Some(&required));
        assert(params_view(params@) =~= seq![("role"@, "string"@, "要读取其笔记的角色名；不传时读取当前角色"@, None)]);
        assert(required@.map_values(|s: &str| s@) =~= Seq::<Seq<char>>::empty());
        r
    }
}

impl AddNote {
    /// The definition of `memory_add_note`.
    pub fn definition(&self) -> (r: ToolDefinition)
        ensures
            defines(r, "memory_add_note"@, DESC_MEMORY_ADD_NOTE@, seq![("content"@, "string"@, "笔记内容"@, None), ("tags"@, "array"@, "标签，可选"@, None)],
                Some(seq!["content"@])),
    {
        let params: Vec<(&str, &str, &str, Option<i64>)> = vec![
            ("content", "string", "笔记内容", None),
            ("tags", "array", "标签，可选", None),
        ];
        let required: Vec<&str> = vec!["content"];
        let r = define("memory_add_note", DESC_MEMORY_ADD_NOTE, &params, Some(&required));
        assert(params_view(params@) =~= seq![("content"@, "string"@, "笔记内容"@, None), ("tags"@, "array"@, "标签，可选"@, None)]);
        assert(required@.map_values(|s: &str| s@) =~= seq!["content"@]);
        r
    }
}

impl UpdateNote {
    /// The definition of `memory_update_note`.
    pub fn definition(&self) -> (r: ToolDefinition)
        ensures
            defines(r, "memory_update_note"@, DESC_MEMORY_UPDATE_NOTE@, seq![("content"@, "string"@, "新的笔记内容，可选"@, None), ("id"@, "string"@, "笔记 ID"@, None), ("tags"@, "array"@, "新的标签，可选"@, None)],
                Some(seq!["id"@])),
    {
        let params: Vec<(&str, &str, &str, Option<i64>)> = vec![
            ("content", "string", "新的笔记内容，可选", None),
            ("id", "string", "笔记 ID", None),
            ("tags", "array", "新的标签，可选", None),
        ];
        let required: Vec<&str> = vec!["id"];
        let r = define("memory_update_note", DESC_MEMORY_UPDATE_NOTE, &params, Some(&required));
        assert(params_view(params@) =~= seq![("content"@, "string"@, "新的笔记内容，可选"@, None), ("id"@, "string"@, "笔记 ID"@, None), ("tags"@, "array"@, "新的标签，可选"@, None)]);
        assert(required@.map_values(|s: &str| s@) =~= seq!["id"@]);
        r
    }
}

impl DeleteNote {
    /// The definition of `memory_delete_note`.
    pub fn definition(&self) -> (r: ToolDefinition)
        ensures
            defines(r, "memory_delete_note"@, DESC_MEMORY_DELETE_NOTE@, seq![("id"@, "string"@, "笔记 ID"@, None)],
                Some(seq!["id"@])),
    {
        let params: Vec<(&str, &str, &str, Option<i64>)> = vec![
            ("id", "string", "笔记 ID", None),
        ];
        let required: Vec<&str> = vec!["id"];
        let r = define("memory_delete_note", DESC_MEMORY_DELETE_NOTE, &params, Some(&required));
        assert(params_view(params@) =~= seq![("id"@, "string"@, "笔记 ID"@, None)]);
        assert(required@.map_values(|s: &str| s@) =~= seq!["id"@]);
        r
    }
}

impl BiliSearchTool {
    /// The definition of `bilibili_search_videos`.
    pub fn definition(&self) -> (r: ToolDefinition)
        ensures
            defines(r, "bilibili_search_videos"@, DESC_BILIBILI_SEARCH_VIDEOS@, seq![("keyword"@, "string"@, "搜索关键词"@, None), ("limit"@, "integer"@, "返回数量，默认 8"@, None)],
                Some(seq!["keyword"@])),
    {
        let params: Vec<(&str, &str, &str, Option<i64>)> = vec![
            ("keyword", "string", "搜索关键词", None),
            ("limit", "integer", "返回数量，默认 8", None),
        ];
        let required: Vec<&str> = vec!["keyword"];
        let r = define("bilibili_search_videos", DESC_BILIBILI_SEARCH_VIDEOS, &params, Some(&required));
        assert(params_view(params@) =~= seq![("keyword"@, "string"@, "搜索关键词"@, None), ("limit"@, "integer"@, "返回数量，默认 8"@, None)]);
        assert(required@.map_values(|s: &str| s@) =~= seq!["keyword"@]);
        r
    }

    /// How many seconds a call of `bilibili_search_videos` may run.
    pub fn timeout_hint(&self) -> (r: Option<u64>)
        ensures
            r == Some(25u64),
    {
        Some(25)
    }
}

impl BiliLearnTool {
    /// The definition of `bilibili_learn_video`.
    pub fn definition(&self) -> (r: ToolDefinition)
        ensures
            defines(r, "bilibili_learn_video"@, DESC_BILIBILI_LEARN_VIDEO@, seq![("bvid"@, "string"@, "视频 bvid，例 BV1xx411c7mD"@, None)],
                Some(seq!["bvid"@])),
    {
        let params: Vec<(&str, &str, &str, Option<i64>)> = vec![
            ("bvid", "string", "视频 bvid，例 BV1xx411c7mD", None),
        ];
        let required: Vec<&str> = vec!["bvid"];
        let r = define("bilibili_learn_video", DESC_BILIBILI_LEARN_VIDEO, &params, Some(&required));
        assert(params_view(params@) =~= seq![("bvid"@, "string"@, "视频 bvid，例 BV1xx411c7mD"@, None)]);
        assert(required@.map_values(|s: &str| s@) =~= seq!["bvid"@]);
        r
    }

    /// How many seconds a call of `bilibili_learn_video` may run.
    pub fn timeout_hint(&self) -> (r: Option<u64>)
        ensures
            r == Some(25u64),
    {
        Some(25)
    }
}

impl BiliKnowledgeTool {
    /// The definition of `bilibili_search_knowledge`.
    pub fn definition(&self) -> (r: ToolDefinition)
        ensures
            defines(r, "bilibili_search_knowledge"@, DESC_BILIBILI_SEARCH_KNOWLEDGE@, seq![("limit"@, "integer"@, "返回数量，默认 20"@, None), ("query"@, "string"@, "搜索关键词，可为空(返回最新)"@, None)],
                Some(Seq::empty())),
    {
        let params: Vec<(&str, &str, &str, Option<i64>)> = vec![
            ("limit", "integer", "返回数量，默认 20", None),
            ("query", "string", "搜索关键词，可为空(返回最新)", None),
        ];
        let required: Vec<&str> = Vec::new();
        let r = define("bilibili_search_knowledge", DESC_BILIBILI_SEARCH_KNOWLEDGE, &params, Some(&required));
        assert(params_view(params@) =~= seq![("limit"@, "integer"@, "返回数量，默认 20"@, None), ("query"@, "string"@, "搜索关键词，可为空(返回最新)"@, None)]);
        assert(required@.map_values(|s: &str| s@) =~= Seq::<Seq<char>>::empty());
        r
    }

    /// How many seconds a call of `bilibili_search_knowledge` may run.
    pub fn timeout_hint(&self) -> (r: Option<u64>)
        ensures
            r == Some(25u64),
    {
        Some(25)
    }
}

impl NetMusicSearchTool {
    /// The definition of `netmusic_search`.
    pub fn definition(&self) -> (r: ToolDefinition)
        ensures
            defines(r, "netmusic_search"@, DESC_NETMUSIC_SEARCH@, seq![("keyword"@, "string"@, "搜索关键词（歌名/歌手）"@, None), ("limit"@, "integer"@, "返回数量，默认 8"@, None)],
                Some(seq!["keyword"@])),
    {
        let params: Vec<(&str, &str, &str, Option<i64>)> = vec![
            ("keyword", "string", "搜索关键词（歌名/歌手）", None),
            ("limit", "integer", "返回数量，默认 8", None),
        ];
        let required: Vec<&str> = vec!["keyword"];
        let r = define("netmusic_search", DESC_NETMUSIC_SEARCH, &params, Some(&required));
        assert(params_view(params@) =~= seq![("keyword"@, "string"@, "搜索关键词（歌名/歌手）"@, None), ("limit"@, "integer"@, "返回数量，默认 8"@, None)]);
        assert(required@.map_values(|s: &str| s@) =~= seq!["keyword"@]);
        r
    }

    /// How many seconds a call of `netmusic_search` may run.
    pub fn timeout_hint(&self) -> (r: Option<u64>)
        ensures
            r == Some(25u64),
    {
        Some(25)
    }
}

impl NetMusicRecommendTool {
    /// The definition of `netmusic_recommend`.
    pub fn definition(&self) -> (r: ToolDefinition)
        ensures
            defines(r, "netmusic_recommend"@, DESC_NETMUSIC_RECOMMEND@, seq![("limit"@, "integer"@, "返回数量，默认 10"@, None), ("mood"@, "string"@, "心情关键词，可选 happy/sad/angry/sleepy/calm/nostalgic"@, None)],
                Some(Seq::empty())),
    {
        let params: Vec<(&str, &str, &str, Option<i64>)> = vec![
            ("limit", "integer", "返回数量，默认 10", None),
            ("mood", "string", "心情关键词，可选 happy/sad/angry/sleepy/calm/nostalgic", None),
        ];
        let required: Vec<&str> = Vec::new();
        let r = define("netmusic_recommend", DESC_NETMUSIC_RECOMMEND, &params, Some(&required));
        assert(params_view(params@) =~= seq![("limit"@, "integer"@, "返回数量，默认 10"@, None), ("mood"@, "string"@, "心情关键词，可选 happy/sad/angry/sleepy/calm/nostalgic"@, None)]);
        assert(required@.map_values(|s: &str| s@) =~= Seq::<Seq<char>>::empty());
        r
    }

    /// How many seconds a call of `netmusic_recommend` may run.
    pub fn timeout_hint(&self) -> (r: Option<u64>)
        ensures
            r == Some(25u64),
    {
        Some(25)
    }
}

impl ListSkills {
    /// The definition of `list_skills`.
    pub fn definition(&self) -> (r: ToolDefinition)
        ensures
            defines(r, "list_skills"@, DESC_LIST_SKILLS@, Seq::empty(),
                None),
    {
        let params: Vec<(&str, &str, &str, Option<i64>)> = Vec::new();
        let r = define("list_skills", DESC_LIST_SKILLS, &params, None);
        assert(params_view(params@) =~= Seq::<(Seq<char>, Seq<char>, Seq<char>, Option<i64>)>::empty());
        r
    }

    /// How many seconds a call of `list_skills` may run.
    pub fn timeout_hint(&self) -> (r: Option<u64>)
        ensures
            r == Some(5u64),
    {
        Some(5)
    }
}

impl ReadSkill {
    /// The definition of `read_skill`.
    pub fn definition(&self) -> (r: ToolDefinition)
        ensures
            defines(r, "read_skill"@, DESC_READ_SKILL@, seq![("name"@, "string"@, "要加载的技能名（kebab-case）"@, None)],
                Some(seq!["name"@])),
    {
        let params: Vec<(&str, &str, &str, Option<i64>)> = vec![
            ("name", "string", "要加载的技能名（kebab-case）", None),
        ];
        let required: Vec<&str> = vec!["name"];
        let r = define("read_skill", DESC_READ_SKILL, &params, Some(&required));
        assert(params_view(params@) =~= seq![("name"@, "string"@, "要加载的技能名（kebab-case）"@, None)]);
        assert(required@.map_values(|s: &str| s@) =~= seq!["name"@]);
        r
    }

    /// How many seconds a call of `read_skill` may run.
    pub fn timeout_hint(&self) -> (r: Option<u64>)
        ensures
            r == Some(5u64),
    {
        Some(5)
    }
}

impl<S> ListFiles<S> {
    /// The definition of `list_files`.
    pub fn definition(&self) -> (r: ToolDefinition)
        ensures
            defines(r, "list_files"@, DESC_LIST_FILES@, seq![("path"@, "string"@, "目录路径，绝对路径或相对于文件沙箱根目录"@, None)],
                Some(seq!["path"@])),
    {
        let params: Vec<(&str, &str, &str, Option<i64>)> = vec![
            ("path", "string", "目录路径，绝对路径或相对于文件沙箱根目录", None),
        ];
        let required: Vec<&str> = vec!["path"];
        let r = define("list_files", DESC_LIST_FILES, &params, Some(&required));
        assert(params_view(params@) =~= seq![("path"@, "string"@, "目录路径，绝对路径或相对于文件沙箱根目录"@, None)]);
        assert(required@.map_values(|s: &str| s@) =~= seq!["path"@]);
        r
    }

    /// How many seconds a call of `list_files` may run.
    pub fn timeout_hint(&self) -> (r: Option<u64>)
        ensures
            r == Some(15u64),
    {
        Some(15)
    }
}

impl<S> ReadFile<S> {
    /// The definition of `read_file`.
    pub fn definition(&self) -> (r: ToolDefinition)
        ensures
            defines(r, "read_file"@, DESC_READ_FILE@, seq![("path"@, "string"@, "文件路径，绝对路径或相对于文件沙箱根目录"@, None)],
                Some(seq!["path"@])),
    {
        let params: Vec<(&str, &str, &str, Option<i64>)> = vec![
            ("path", "string", "文件路径，绝对路径或相对于文件沙箱根目录", None),
        ];
        let required: Vec<&str> = vec!["path"];
        let r = define("read_file", DESC_READ_FILE, &params, Some(&required));
        assert(params_view(params@) =~= seq![("path"@, "string"@, "文件路径，绝对路径或相对于文件沙箱根目录"@, None)]);
        assert(required@.map_values(|s: &str| s@) =~= seq!["path"@]);
        r
    }

    /// How many seconds a call of `read_file` may run.
    pub fn timeout_hint(&self) -> (r: Option<u64>)
        ensures
            r == Some(15u64),
    {
        Some(15)
    }
}

impl<S> WriteFile<S> {
    /// The definition of `write_file`.
    pub fn definition(&self) -> (r: ToolDefinition)
        ensures
            defines(r, "write_file"@, DESC_WRITE_FILE@, seq![("append"@, "boolean"@, "true 表示追加到已有文件末尾，仅用于修复被截断的写入"@, None), ("content"@, "string"@, "要写入的内容（append=true 时为要追加的内容）"@, None), ("path"@, "string"@, "文件路径，绝对路径或相对于文件沙箱根目录"@, None)],
                Some(seq!["path"@, "content"@])),
    {
        let params: Vec<(&str, &str, &str, Option<i64>)> = vec![
            ("append", "boolean", "true 表示追加到已有文件末尾，仅用于修复被截断的写入", None),
            ("content", "string", "要写入的内容（append=true 时为要追加的内容）", None),
            ("path", "string", "文件路径，绝对路径或相对于文件沙箱根目录", None),
        ];
        let required: Vec<&str> = vec!["path", "content"];
        let r = define("write_file", DESC_WRITE_FILE, &params, Some(&required));
        assert(params_view(params@) =~= seq![("append"@, "boolean"@, "true 表示追加到已有文件末尾，仅用于修复被截断的写入"@, None), ("content"@, "string"@, "要写入的内容（append=true 时为要追加的内容）"@, None), ("path"@, "string"@, "文件路径，绝对路径或相对于文件沙箱根目录"@, None)]);
        assert(required@.map_values(|s: &str| s@) =~= seq!["path"@, "content"@]);
        r
    }

    /// How many seconds a call of `write_file` may run.
    pub fn timeout_hint(&self) -> (r: Option<u64>)
        ensures
            r == Some(15u64),
    {
        Some(15)
    }
}

impl<S> DeleteFile<S> {
    /// The definition of `delete_file`.
    pub fn definition(&self) -> (r: ToolDefinition)
        ensures
            defines(r, "delete_file"@, DESC_DELETE_FILE@, seq![("path"@, "string"@, "要删除的文件路径"@, None)],
                Some(seq!["path"@])),
    {
        let params: Vec<(&str, &str, &str, Option<i64>)> = vec![
            ("path", "string", "要删除的文件路径", None),
        ];
        let required: Vec<&str> = vec!["path"];
        let r = define("delete_file", DESC_DELETE_FILE, &params, Some(&required));
        assert(params_view(params@) =~= seq![("path"@, "string"@, "要删除的文件路径"@, None)]);
        assert(required@.map_values(|s: &str| s@) =~= seq!["path"@]);
        r
    }

    /// How many seconds a call of `delete_file` may run.
    pub fn timeout_hint(&self) -> (r: Option<u64>)
        ensures
            r == Some(135u64),
    {
        Some(135)
    }
}

impl<S> EditFile<S> {
    /// The definition of `edit_file`.
    pub fn definition(&self) -> (r: ToolDefinition)
        ensures
            defines(r, "edit_file"@, DESC_EDIT_FILE@, seq![("new_string"@, "string"@, "替换成的新文本"@, None), ("old_string"@, "string"@, "要被替换的原文（须唯一匹配）"@, None), ("path"@, "string"@, "文件路径，绝对路径或相对于文件沙箱根目录"@, None), ("replace_all"@, "boolean"@, "true 时替换全部匹配处"@, None)],
                Some(seq!["path"@, "old_string"@, "new_string"@])),
    {
        let params: Vec<(&str, &str, &str, Option<i64>)> = vec![
            ("new_string", "string", "替换成的新文本", None),
            ("old_string", "string", "要被替换的原文（须唯一匹配）", None),
            ("path", "string", "文件路径，绝对路径或相对于文件沙箱根目录", None),
            ("replace_all", "boolean", "true 时替换全部匹配处", None),
        ];
        let required: Vec<&str> = vec!["path", "old_string", "new_string"];
        let r = define("edit_file", DESC_EDIT_FILE, &params, Some(&required));
        assert(params_view(params@) =~= seq![("new_string"@, "string"@, "替换成的新文本"@, None), ("old_string"@, "string"@, "要被替换的原文（须唯一匹配）"@, None), ("path"@, "string"@, "文件路径，绝对路径或相对于文件沙箱根目录"@, None), ("replace_all"@, "boolean"@, "true 时替换全部匹配处"@, None)]);
        assert(required@.map_values(|s: &str| s@) =~= seq!["path"@, "old_string"@, "new_string"@]);
        r
    }

    /// How many seconds a call of `edit_file` may run.
    pub fn timeout_hint(&self) -> (r: Option<u64>)
        ensures
            r == Some(15u64),
    {
        Some(15)
    }
}

impl<S> SearchFiles<S> {
    /// The definition of `search_files`.
    pub fn definition(&self) -> (r: ToolDefinition)
        ensures
            defines(r, "search_files"@, DESC_SEARCH_FILES@, seq![("path"@, "string"@, "要搜索的目录，绝对路径或相对于文件沙箱根目录"@, None), ("pattern"@, "string"@, "文件名通配符，如 *.txt、report_????.csv"@, None)],
                Some(seq!["path"@, "pattern"@])),
    {
        let params: Vec<(&str, &str, &str, Option<i64>)> = vec![
            ("path", "string", "要搜索的目录，绝对路径或相对于文件沙箱根目录", None),
            ("pattern", "string", "文件名通配符，如 *.txt、report_????.csv", None),
        ];
        let required: Vec<&str> = vec!["path", "pattern"];
        let r = define("search_files", DESC_SEARCH_FILES, &params, Some(&required));
        assert(params_view(params@) =~= seq![("path"@, "string"@, "要搜索的目录，绝对路径或相对于文件沙箱根目录"@, None), ("pattern"@, "string"@, "文件名通配符，如 *.txt、report_????.csv"@, None)]);
        assert(required@.map_values(|s: &str| s@) =~= seq!["path"@, "pattern"@]);
        r
    }

    /// How many seconds a call of `search_files` may run.
    pub fn timeout_hint(&self) -> (r: Option<u64>)
        ensures
            r == Some(15u64),
    {
        Some(15)
    }
}

impl<S> GrepFiles<S> {
    /// The definition of `grep_files`.
    pub fn definition(&self) -> (r: ToolDefinition)
        ensures
            defines(r, "grep_files"@, DESC_GREP_FILES@, seq![("max_results"@, "integer"@, "最多返回多少条匹配（默认 50，上限 100）"@, None), ("path"@, "string"@, "要搜索的目录，绝对路径或相对于文件沙箱根目录"@, None), ("pattern"@, "string"@, "正则表达式"@, None)],
                Some(seq!["path"@, "pattern"@])),
    {
        let params: Vec<(&str, &str, &str, Option<i64>)> = vec![
            ("max_results", "integer", "最多返回多少条匹配（默认 50，上限 100）", None),
            ("path", "string", "要搜索的目录，绝对路径或相对于文件沙箱根目录", None),
            ("pattern", "string", "正则表达式", None),
        ];
        let required: Vec<&str> = vec!["path", "pattern"];
        let r = define("grep_files", DESC_GREP_FILES, &params, Some(&required));
        assert(params_view(params@) =~= seq![("max_results"@, "integer"@, "最多返回多少条匹配（默认 50，上限 100）"@, None), ("path"@, "string"@, "要搜索的目录，绝对路径或相对于文件沙箱根目录"@, None), ("pattern"@, "string"@, "正则表达式"@, None)]);
        assert(required@.map_values(|s: &str| s@) =~= seq!["path"@, "pattern"@]);
        r
    }

    /// How many seconds a call of `grep_files` may run.
    pub fn timeout_hint(&self) -> (r: Option<u64>)
        ensures
            r == Some(15u64),
    {
        Some(15)
    }
}


pub const DESC_WEB_SEARCH_HIDDEN: &'static str = "联网搜索网页信息。当用户询问新闻时事、你不确定的事实、或明确要求查资料时使用。返回内容已按用户设置隐藏来源与网址，请把事实自然融入回答，不要编造或输出链接。";
pub const DESC_WEB_SEARCH_CITED: &'static str = "联网搜索网页信息。当用户询问新闻时事、你不确定的事实、或明确要求查资料时使用。返回联网搜索得到的摘要，回答时必须以来源链接标注出处。";

/// The definition of `web_search`: a required query of at most 500
/// characters; the description says whether sources are hidden.
pub fn web_search_definition(hide_search_results: bool) -> (r: ToolDefinition)
    ensures
        defines(r, "web_search"@, if hide_search_results { DESC_WEB_SEARCH_HIDDEN@ } else { DESC_WEB_SEARCH_CITED@ },
            seq![("query"@, "string"@, "搜索关键词"@, Some(500i64))], Some(seq!["query"@])),
{
    let params: Vec<(&str, &str, &str, Option<i64>)> = vec![("query", "string", "搜索关键词", Some(500))];
    let required: Vec<&str> = vec!["query"];
    let description = if hide_search_results { DESC_WEB_SEARCH_HIDDEN } else { DESC_WEB_SEARCH_CITED };
    let r = define("web_search", description, &params, Some(&required));
    assert(params_view(params@) =~= seq![("query"@, "string"@, "搜索关键词"@, Some(500i64))]);
    assert(required@.map_values(|s: &str| s@) =~= seq!["query"@]);
    r
}

/// How many seconds a web search may run: the model's built-in search
/// takes longer than a search endpoint.
pub fn web_search_timeout(use_builtin: bool) -> (r: u64)
    ensures
        r == if use_builtin { 90u64 } else { 15u64 },
{
    if use_builtin { 90 } else { 15 }
}

pub const DESC_COMMAND_PRE: &'static str = "在本机运行 shell 命令。";
pub const DESC_COMMAND_POST: &'static str = "执行前通常会弹窗请用户确认；uac=true 时以管理员权限运行（仅 Windows，会再弹系统 UAC 确认框）。耗时任务可设 run_in_background=true 并提供 description：工具会立即返回任务 ID，完成后自动通知，无需轮询。";
pub const SHELL_HINT_WINDOWS: &'static str = "当前运行环境是 Windows，命令由 cmd.exe /D /C 执行且没有交互输入；需要 PowerShell 语法时请显式调用 powershell -NoProfile -Command，延时请使用 PowerShell Start-Sleep 而不是依赖控制台输入的 timeout。";
pub const SHELL_HINT_SH: &'static str = "当前命令由 sh -c 执行。";

/// The parameters of `execute_command`, in sorted order.
pub open spec fn command_params() -> Seq<(Seq<char>, Seq<char>, Seq<char>, Option<i64>)> {
    seq![
        ("command"@, "string"@, "要运行的 shell 命令"@, None),
        ("cwd"@, "string"@, "工作目录，绝对路径或相对于文件沙箱根目录。留空表示沙箱根目录。"@, None),
        ("description"@, "string"@, "后台任务的简短说明；run_in_background=true 时必填"@, None),
        ("run_in_background"@, "boolean"@, "true 时在后台运行并立即返回任务 ID；完成后会自动通知模型，无需轮询。不能与 uac=true 同时使用"@, None),
        ("timeout_seconds"@, "integer"@, "命令最长运行秒数（前台默认 60/最大 300；后台默认 600/最大 3600；最小 1）"@, None),
        ("uac"@, "boolean"@, "true 时请求管理员权限运行（仅 Windows，弹 UAC 确认框）"@, None),
    ]
}

impl<S> ExecuteCommand<S> {
    /// The definition of `execute_command`; its description names the shell
    /// that runs commands on this platform (`windows` or not).
    pub fn definition(&self, windows: bool) -> (r: ToolDefinition)
        ensures
            defines(r, "execute_command"@,
                DESC_COMMAND_PRE@ + (if windows { SHELL_HINT_WINDOWS@ } else { SHELL_HINT_SH@ }) + DESC_COMMAND_POST@,
                command_params(), Some(seq!["command"@])),
    {
        let params: Vec<(&str, &str, &str, Option<i64>)> = vec![
            ("command", "string", "要运行的 shell 命令", None),
            ("cwd", "string", "工作目录，绝对路径或相对于文件沙箱根目录。留空表示沙箱根目录。", None),
            ("description", "string", "后台任务的简短说明；run_in_background=true 时必填", None),
            ("run_in_background", "boolean", "true 时在后台运行并立即返回任务 ID；完成后会自动通知模型，无需轮询。不能与 uac=true 同时使用", None),
            ("timeout_seconds", "integer", "命令最长运行秒数（前台默认 60/最大 300；后台默认 600/最大 3600；最小 1）", None),
            ("uac", "boolean", "true 时请求管理员权限运行（仅 Windows，弹 UAC 确认框）", None),
        ];
        let required: Vec<&str> = vec!["command"];
        let hint = if windows { SHELL_HINT_WINDOWS } else { SHELL_HINT_SH };
        let description = crate::text::cat3(DESC_COMMAND_PRE, hint, DESC_COMMAND_POST);
        let r = define("execute_command", description.as_str(), &params, Some(&required));
        assert(params_view(params@) =~= command_params());
        assert(required@.map_values(|s: &str| s@) =~= seq!["command"@]);
        r
    }

    /// How many seconds a call may run: the approval wait (120), the
    /// longest foreground command (300), and room to clean up.
    pub fn timeout_hint(&self) -> (r: Option<u64>)
        ensures
            r == Some(430u64),
    {
        Some(430)
    }
}

} // verus!
