//! Messages exchanged with the language model, script lines, the memory bank
//! and the player.
use vstd::prelude::*;
use crate::text::{owned, str_eq};
use crate::json::JsonValue;

verus! {

// ---------- LLM messages & function calling ----------

/// The arguments of a function call (a JSON string).
pub struct FunctionCall {
    pub name: String,
    pub arguments: String,
}

/// A tool call the model returns.
pub struct ToolCall {
    pub id: String,
    pub type_: String,
    pub function: FunctionCall,
}

/// The type a tool call has when the model leaves it out.
pub fn default_tool_type() -> (r: String)
    ensures
        r@ == "function"@,
{
    owned("function")
}

/// One message of a conversation with the model.
pub struct LlmMessage {
    pub role: String,
    pub content: String,
    pub tool_calls: Option<Vec<ToolCall>>,
    pub tool_call_id: Option<String>,
}

/// A message with the given role and content and no tool data.
pub open spec fn plain_message(m: LlmMessage, role: Seq<char>, content: Seq<char>) -> bool {
    m.role@ == role && m.content@ == content && m.tool_calls is None && m.tool_call_id is None
}

impl LlmMessage {
    /// A system message.
    pub fn system(content: &str) -> (r: Self)
        ensures
            plain_message(r, "system"@, content@),
    {
        LlmMessage { role: owned("system"), content: owned(content), tool_calls: None, tool_call_id: None }
    }

    /// A user message.
    pub fn user(content: &str) -> (r: Self)
        ensures
            plain_message(r, "user"@, content@),
    {
        LlmMessage { role: owned("user"), content: owned(content), tool_calls: None, tool_call_id: None }
    }

    /// An assistant message.
    pub fn assistant(content: &str) -> (r: Self)
        ensures
            plain_message(r, "assistant"@, content@),
    {
        LlmMessage { role: owned("assistant"), content: owned(content), tool_calls: None, tool_call_id: None }
    }

    /// An assistant message that asks for tool calls.
    pub fn tool(tool_calls: Vec<ToolCall>) -> (r: Self)
        ensures
            r.role@ == "assistant"@,
            r.content@ == Seq::<char>::empty(),
            r.tool_calls == Some(tool_calls),
            r.tool_call_id is None,
    {
        LlmMessage { role: owned("assistant"), content: String::new(), tool_calls: Some(tool_calls), tool_call_id: None }
    }

    /// The result of a tool call (`role = "tool"`).
    pub fn tool_result(tool_call_id: &str, content: &str) -> (r: Self)
        ensures
            r.role@ == "tool"@,
            r.content@ == content@,
            r.tool_calls is None,
            r.tool_call_id is Some,
            r.tool_call_id->0@ == tool_call_id@,
    {
        LlmMessage { role: owned("tool"), content: owned(content), tool_calls: None, tool_call_id: Some(owned(tool_call_id)) }
    }
}

// ---------- script lines ----------

/// Who a line is attributed to.
#[derive(Debug, Clone, Copy, PartialEq, Eq, Structural)]
pub enum LineAttribute {
    User,
    System,
    Assistant,
    Tool,
}

/// A line attribute whose default is `System`.
#[derive(Debug, Clone, Copy, PartialEq, Eq, Structural)]
pub struct LineAttributeExt(pub LineAttribute);

/// The name of an attribute.
pub open spec fn attribute_name(a: LineAttribute) -> Seq<char> {
    match a {
        LineAttribute::User => "user"@,
        LineAttribute::System => "system"@,
        LineAttribute::Assistant => "assistant"@,
        LineAttribute::Tool => "tool"@,
    }
}

impl Default for LineAttributeExt {
    fn default() -> (r: Self)
        ensures
            r.0 == LineAttribute::System,
    {
        LineAttributeExt(LineAttribute::System)
    }
}

impl LineAttributeExt {
    /// The wrapped attribute.
    pub fn inner(&self) -> (r: &LineAttribute)
        ensures
            *r == self.0,
    {
        &self.0
    }

    /// The attribute's name.
    pub fn as_str(&self) -> (r: &'static str)
        ensures
            r@ == attribute_name(self.0),
    {
        match &self.0 {
            LineAttribute::User => "user",
            LineAttribute::System => "system",
            LineAttribute::Assistant => "assistant",
            LineAttribute::Tool => "tool",
        }
    }
}

/// What every line holds.
pub struct LineBase {
    pub id: Option<i32>,
    pub content: String,
    pub original_emotion: Option<String>,
    pub predicted_emotion: Option<String>,
    pub tts_content: Option<String>,
    pub action_content: Option<String>,
    pub audio_file: Option<String>,
    /// The chain of thought of a turn (on the turn's last assistant line only).
    pub thinking: Option<String>,
    pub tool_call: Option<String>,
    pub attribute: LineAttributeExt,
    pub sender_role_id: Option<i32>,
    pub display_name: Option<String>,
}

impl Default for LineBase {
    fn default() -> (r: Self)
        ensures
            r.id is None,
            r.content@ == Seq::<char>::empty(),
            r.original_emotion is None,
            r.predicted_emotion is None,
            r.tts_content is None,
            r.action_content is None,
            r.audio_file is None,
            r.thinking is None,
            r.tool_call is None,
            r.attribute.0 == LineAttribute::System,
            r.sender_role_id is None,
            r.display_name is None,
    {
        LineBase {
            id: None,
            content: String::new(),
            original_emotion: None,
            predicted_emotion: None,
            tts_content: None,
            action_content: None,
            audio_file: None,
            thinking: None,
            tool_call: None,
            attribute: LineAttributeExt::default(),
            sender_role_id: None,
            display_name: None,
        }
    }
}

/// A line as it moves through a running script.
pub struct GameLine {
    pub base: LineBase,
    pub perceived_role_ids: Vec<i32>,
}

impl GameLine {
    /// A line from its base and the roles that perceive it.
    pub fn from_base(base: LineBase, perceived_role_ids: Vec<i32>) -> (r: Self)
        ensures
            r.base == base,
            r.perceived_role_ids == perceived_role_ids,
    {
        GameLine { base, perceived_role_ids }
    }

    /// The text of the line.
    pub fn content(&self) -> (r: &str)
        ensures
            r@ == self.base.content@,
    {
        self.base.content.as_str()
    }

    /// The role that said the line.
    pub fn sender_role_id(&self) -> (r: Option<i32>)
        ensures
            r == self.base.sender_role_id,
    {
        self.base.sender_role_id
    }

    /// Who the line is attributed to.
    pub fn attribute(&self) -> (r: &LineAttribute)
        ensures
            *r == self.base.attribute.0,
    {
        self.base.attribute.inner()
    }
}

// ---------- memory bank ----------

/// Bookkeeping of the memory bank.
pub struct GameMemoryBankMeta {
    pub last_processed_global_idx: i64,
    pub updated_at: String,
}

impl Default for GameMemoryBankMeta {
    fn default() -> (r: Self)
        ensures
            r.last_processed_global_idx == 0,
            r.updated_at@ == Seq::<char>::empty(),
    {
        GameMemoryBankMeta { last_processed_global_idx: 0, updated_at: String::new() }
    }
}

/// The four sections of the memory bank.
pub struct GameMemoryBankData {
    pub short_term: String,
    pub long_term: String,
    pub user_info: String,
    pub promises: String,
}

pub const NO_SHORT_TERM: &'static str = "暂无近期对话摘要。";
pub const NO_LONG_TERM: &'static str = "暂无长期关键经历。";
pub const NO_USER_INFO: &'static str = "暂无用户特征记录。";
pub const NO_PROMISES: &'static str = "暂无未完成的约定。";

impl Default for GameMemoryBankData {
    fn default() -> (r: Self)
        ensures
            r.short_term@ == NO_SHORT_TERM@,
            r.long_term@ == NO_LONG_TERM@,
            r.user_info@ == NO_USER_INFO@,
            r.promises@ == NO_PROMISES@,
    {
        GameMemoryBankData {
            short_term: owned(NO_SHORT_TERM),
            long_term: owned(NO_LONG_TERM),
            user_info: owned(NO_USER_INFO),
            promises: owned(NO_PROMISES),
        }
    }
}

/// A role's memory bank.
pub struct GameMemoryBank {
    pub schema_version: u32,
    pub meta: GameMemoryBankMeta,
    pub data: GameMemoryBankData,
}

/// The schema version of a memory bank that does not give one.
pub fn default_schema_version() -> (r: u32)
    ensures
        r == 1,
{
    1
}

impl Default for GameMemoryBank {
    fn default() -> (r: Self)
        ensures
            r.schema_version == 1,
            r.meta.last_processed_global_idx == 0,
            r.meta.updated_at@ == Seq::<char>::empty(),
            r.data.short_term@ == NO_SHORT_TERM@,
            r.data.long_term@ == NO_LONG_TERM@,
            r.data.user_info@ == NO_USER_INFO@,
            r.data.promises@ == NO_PROMISES@,
    {
        GameMemoryBank { schema_version: 1, meta: GameMemoryBankMeta::default(), data: GameMemoryBankData::default() }
    }
}

pub const BANK_HEAD: &'static str = "\n\n====== 核心记忆库 (Memory Bank) ======\n【用户信息】：";
pub const BANK_PROMISES: &'static str = "\n【重要约定】：";
pub const BANK_LONG_TERM: &'static str = "\n【长期经历】：";
pub const BANK_SHORT_TERM: &'static str = "\n【近期回顾】：";
pub const BANK_TAIL: &'static str = "\n====================================\n";

/// The memory bank as it is put into a prompt: user info, promises, long
/// term, short term, in that order between fixed headings.
pub open spec fn bank_prompt(d: GameMemoryBankData) -> Seq<char> {
    BANK_HEAD@ + d.user_info@ + BANK_PROMISES@ + d.promises@ + BANK_LONG_TERM@ + d.long_term@
        + BANK_SHORT_TERM@ + d.short_term@ + BANK_TAIL@
}

impl GameMemoryBank {
    /// The memory bank as prompt text.
    pub fn to_prompt_text(&self) -> (r: String)
        ensures
            r@ == bank_prompt(self.data),
    {
        let mut r = owned(BANK_HEAD);
        r.append(self.data.user_info.as_str());
        r.append(BANK_PROMISES);
        r.append(self.data.promises.as_str());
        r.append(BANK_LONG_TERM);
        r.append(self.data.long_term.as_str());
        r.append(BANK_SHORT_TERM);
        r.append(self.data.short_term.as_str());
        r.append(BANK_TAIL);
        r
    }
}

// ---------- character settings defaults ----------

/// The AI name of a character whose settings give none.
pub fn default_ai_name() -> (r: String)
    ensures
        r@ == "ai_name未设定"@,
{
    owned("ai_name未设定")
}

/// The user name of settings that give none.
pub fn default_user_name() -> (r: String)
    ensures
        r@ == "user_name未设定"@,
{
    owned("user_name未设定")
}

/// The message shown while the character thinks.
pub fn default_thinking_message() -> (r: String)
    ensures
        r@ == "正在思考中..."@,
{
    owned("正在思考中...")
}

/// The default top offset of the speech bubble.
pub fn default_bubble_top() -> (r: i32)
    ensures
        r == 5,
{
    5
}

/// The default left offset of the speech bubble.
pub fn default_bubble_left() -> (r: i32)
    ensures
        r == 20,
{
    20
}

// ---------- player ----------

/// The player.
pub struct Player {
    pub user_name: String,
    pub user_subtitle: String,
    pub user_prompt: String,
}

impl Default for Player {
    fn default() -> (r: Self)
        ensures
            r.user_name@ == Seq::<char>::empty(),
            r.user_subtitle@ == Seq::<char>::empty(),
            r.user_prompt@ == Seq::<char>::empty(),
    {
        Player { user_name: String::new(), user_subtitle: String::new(), user_prompt: String::new() }
    }
}

// ---------- tool call arguments ----------

/// The arguments of a tool call before they are defaulted: the call's
/// text parsed as JSON (`parsed`, none when it is not JSON; when it is a
/// JSON string, `reparsed` is that string parsed in turn, none when it is
/// not JSON), with an object whose only entry is an `arguments` or
/// `params` object unwrapped.
pub open spec fn unwrapped_args(parsed: Option<JsonValue>, reparsed: Option<JsonValue>) -> JsonValue {
    let a = match parsed {
        None => JsonValue::Null,
        Some(v) => if v is Str && reparsed is Some { reparsed->0 } else { v },
    };
    let b = match a {
        JsonValue::Object(m) => if m@.len() == 1 && (m@[0].0@ == "arguments"@ || m@[0].0@ == "params"@) && m@[0].1 is Object {
            m@[0].1
        } else {
            a
        },
        _ => a,
    };
    b
}

/// Normalises the arguments of a tool call, as models write them in
/// several shapes: anything that is not an object after unwrapping becomes `{}`.
pub fn normalize_tool_args(parsed: Option<JsonValue>, reparsed: Option<JsonValue>) -> (r: JsonValue)
    ensures
        unwrapped_args(parsed, reparsed) is Object ==> r == unwrapped_args(parsed, reparsed),
        !(unwrapped_args(parsed, reparsed) is Object) ==> r is Object && r->Object_0@.len() == 0,
{
    let a = match parsed {
        None => JsonValue::Null,
        Some(JsonValue::Str(s)) => match reparsed {
            Some(x) => x,
            None => JsonValue::Str(s),
        },
        Some(v) => v,
    };
    let ghost ga = a;
    let b = match a {
        JsonValue::Object(mut m) => {
            let unwrap = m.len() == 1 && (str_eq(m[0].0.as_str(), "arguments") || str_eq(m[0].0.as_str(), "params"))
                && match &m[0].1 { JsonValue::Object(_) => true, _ => false };
            if unwrap {
                let (_, inner) = m.pop().unwrap();
                inner
            } else {
                JsonValue::Object(m)
            }
        },
        other => other,
    };
    match b {
        JsonValue::Object(m) => JsonValue::Object(m),
        _ => JsonValue::Object(Vec::new()),
    }
}

} // verus!
