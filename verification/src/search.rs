//! The web search tool's decisions: checking a call, choosing the backend,
//! turning search results into text for the model, and reading each round
//! of the built-in search protocol.
use vstd::prelude::*;
use crate::json::{JsonValue, str_of, array_of};
use crate::editor::{value_get, opt_value_get};
use crate::command::arg_text;
use crate::notes::{ToolError, invalid, failed};
use crate::settings::WebSearchSettings;
use crate::text::{cat, owned, str_eq, trim, trim_str, is_blank, chars_of, string_of_range, push_char, ends_with, ends_with_str};
use crate::tool_text::{truncated_output, truncate_output, take_chars, bounded_query, MAX_QUERY_CHARS};
use crate::adapters::{strip_slashes, trim_end_slashes};

verus! {

// ---------- checking a call ----------

pub const MSG_SEARCH_OFF: &'static str = "网页搜索未启用，请用户在「高级设置 → 工具设置 → 网页搜索」开启";
pub const MSG_NEEDS_QUERY: &'static str = "缺少必填参数 query";

/// What a search call searches for: nothing when the search is switched
/// off; otherwise the trimmed `query`, which is required, cut to 500 characters.
pub open spec fn search_query_result(enabled: bool, args: JsonValue, r: Result<String, ToolError>) -> bool {
    let q = trim(arg_text(args, "query"@));
    if !enabled {
        r is Err && failed(r->Err_0, MSG_SEARCH_OFF@)
    } else if q.len() == 0 {
        r is Err && invalid(r->Err_0, MSG_NEEDS_QUERY@)
    } else {
        r is Ok && r->Ok_0@ == take_chars(q, MAX_QUERY_CHARS as nat)
    }
}

/// Checks a search call and reads its query.
pub fn search_query(enabled: bool, args: &JsonValue) -> (r: Result<String, ToolError>)
    ensures
        search_query_result(enabled, *args, r),
{
    if !enabled {
        return Err(ToolError::Execution(owned(MSG_SEARCH_OFF)));
    }
    let raw = match args {
        JsonValue::Object(m) => match crate::json::get(m, "query") {
            Some(JsonValue::Str(s)) => s.as_str(),
            _ => "",
        },
        _ => "",
    };
    proof {
        reveal_strlit("");
        assert(""@ =~= Seq::<char>::empty());
        assert(raw@ == arg_text(*args, "query"@));
    }
    if is_blank(raw) {
        return Err(ToolError::InvalidArguments(owned(MSG_NEEDS_QUERY)));
    }
    let q = trim_str(raw);
    Ok(bounded_query(q.as_str()))
}

// ---------- choosing the backend ----------

/// Where a search goes.
#[derive(Debug, Clone, Copy, PartialEq, Eq, Structural)]
pub enum SearchRoute {
    /// The chat model's built-in `$web_search`.
    Builtin,
    /// The BoCha web-search endpoint.
    Bocha,
    /// A Kimi-style `/search` endpoint (the official one, or a custom one).
    Kimi,
}

pub const MSG_NO_KEY: &'static str = "网页搜索未配置 API Key，请用户在「高级设置 → 工具配置」填写，或改用「模型 API 内置联网」模式";

/// The backend of a search: the built-in search when chosen; otherwise a
/// key is required, and the provider `bocha` picks BoCha, any other Kimi.
pub open spec fn route_result(cfg: WebSearchSettings, r: Result<SearchRoute, ToolError>) -> bool {
    if cfg.use_builtin {
        r is Ok && r->Ok_0 == SearchRoute::Builtin
    } else if trim(cfg.api_key@).len() == 0 {
        r is Err && failed(r->Err_0, MSG_NO_KEY@)
    } else if cfg.provider@ == "bocha"@ {
        r is Ok && r->Ok_0 == SearchRoute::Bocha
    } else {
        r is Ok && r->Ok_0 == SearchRoute::Kimi
    }
}

/// Chooses the backend of a search.
pub fn search_route(cfg: &WebSearchSettings) -> (r: Result<SearchRoute, ToolError>)
    ensures
        route_result(*cfg, r),
{
    if cfg.use_builtin {
        Ok(SearchRoute::Builtin)
    } else if is_blank(cfg.api_key.as_str()) {
        Err(ToolError::Execution(owned(MSG_NO_KEY)))
    } else if str_eq(cfg.provider.as_str(), "bocha") {
        Ok(SearchRoute::Bocha)
    } else {
        Ok(SearchRoute::Kimi)
    }
}

pub const KIMI_SEARCH_URL: &'static str = "https://api.kimi.com/coding/v1/search";
pub const BOCHA_SEARCH_URL: &'static str = "https://api.bochaai.com/v1/web-search";
pub const MSG_CUSTOM_NEEDS_URL: &'static str = "自定义端点模式需要填写搜索服务地址";

/// The URL of a Kimi-style search: the user's trimmed address for the
/// provider `custom` (required then), the official endpoint otherwise.
pub open spec fn kimi_url_result(cfg: WebSearchSettings, r: Result<String, ToolError>) -> bool {
    if cfg.provider@ == "custom"@ {
        if trim(cfg.base_url@).len() == 0 {
            r is Err && failed(r->Err_0, MSG_CUSTOM_NEEDS_URL@)
        } else {
            r is Ok && r->Ok_0@ == trim(cfg.base_url@)
        }
    } else {
        r is Ok && r->Ok_0@ == KIMI_SEARCH_URL@
    }
}

/// The URL a Kimi-style search goes to.
pub fn kimi_search_url(cfg: &WebSearchSettings) -> (r: Result<String, ToolError>)
    ensures
        kimi_url_result(*cfg, r),
{
    if str_eq(cfg.provider.as_str(), "custom") {
        if is_blank(cfg.base_url.as_str()) {
            Err(ToolError::Execution(owned(MSG_CUSTOM_NEEDS_URL)))
        } else {
            Ok(trim_str(cfg.base_url.as_str()))
        }
    } else {
        Ok(owned(KIMI_SEARCH_URL))
    }
}

/// How many results a search asks for and shows: the setting, at least one.
pub fn result_limit(max_results: usize) -> (r: usize)
    ensures
        r == if max_results < 1 { 1 } else { max_results },
{
    if max_results < 1 { 1 } else { max_results }
}

// ---------- results as text ----------

pub const MAX_SNIPPET_CHARS: usize = 800;
pub const NO_RESULTS_PRE: &'static str = "No search results found for: ";
pub const HIDE_NOTE: &'static str = "以上是联网搜索到的信息。请把关键内容自然地融入你的回答，绝对不要在回复中输出来源名称、网址、链接列表或原始搜索结果。\n";
pub const CITE_NOTE: &'static str = "以上是联网搜索到的摘要。回答时请基于这些信息，并以 Markdown 链接形式标注来源，例如 [标题](URL)。\n";

/// The trimmed text of a field of a result, empty when it is missing.
pub open spec fn field(item: JsonValue, key: Seq<char>) -> Seq<char> {
    trim(arg_text(item, key))
}

fn field_exec(item: &JsonValue, key: &str) -> (r: String)
    ensures
        r@ == field(*item, key@),
{
    let raw = match item {
        JsonValue::Object(m) => match crate::json::get(m, key) {
            Some(JsonValue::Str(s)) => s.as_str(),
            _ => "",
        },
        _ => "",
    };
    proof {
        reveal_strlit("");
        assert(""@ =~= Seq::<char>::empty());
    }
    trim_str(raw)
}

/// The snippet of a result: its `snippet`, else its `content`, cut to 800
/// characters with an ellipsis.
pub open spec fn snippet_of(item: JsonValue) -> Seq<char> {
    let s = if field(item, "snippet"@).len() == 0 { field(item, "content"@) } else { field(item, "snippet"@) };
    if s.len() > MAX_SNIPPET_CHARS { s.subrange(0, MAX_SNIPPET_CHARS as int).push('…') } else { s }
}

/// A labelled line, present only when `cond` holds.
pub open spec fn line_if(cond: bool, label: Seq<char>, v: Seq<char>) -> Seq<char> {
    if cond { label + v + "\n"@ } else { Seq::empty() }
}

/// One result as text: title, site (unless hidden), date, URL (unless
/// hidden), snippet, then a separator.
pub open spec fn result_block(item: JsonValue, hide: bool) -> Seq<char> {
    let site = field(item, "site_name"@);
    let date = field(item, "date"@);
    let snippet = snippet_of(item);
    "Title: "@ + field(item, "title"@) + "\n"@
        + line_if(!hide && site.len() > 0, "Site: "@, site)
        + line_if(date.len() > 0, "Date: "@, date)
        + line_if(!hide, "URL: "@, field(item, "url"@))
        + line_if(snippet.len() > 0, "Snippet: "@, snippet)
        + "\n---\n\n"@
}

/// A result is shown when it has a title or a URL.
pub open spec fn shown(item: JsonValue) -> bool {
    field(item, "title"@).len() > 0 || field(item, "url"@).len() > 0
}

/// The shown results as text, in order.
pub open spec fn result_blocks(items: Seq<JsonValue>, hide: bool) -> Seq<char>
    decreases items.len(),
{
    if items.len() == 0 {
        Seq::empty()
    } else {
        result_blocks(items.drop_last(), hide) + if shown(items.last()) { result_block(items.last(), hide) } else { Seq::empty() }
    }
}

/// The text of a search: the first `max` results as text and a closing
/// instruction (to weave the facts in, or to cite the sources), cut to the
/// output bound; a note naming the query when nothing is shown.
pub open spec fn formatted_results(query: Seq<char>, results: Seq<JsonValue>, max: nat, hide: bool) -> Seq<char> {
    let items = if results.len() <= max { results } else { results.subrange(0, max as int) };
    let body = result_blocks(items, hide);
    if body.len() == 0 {
        NO_RESULTS_PRE@ + query
    } else {
        truncated_output(body + if hide { HIDE_NOTE@ } else { CITE_NOTE@ })
    }
}

fn snippet_exec(item: &JsonValue) -> (r: String)
    ensures
        r@ == snippet_of(*item),
{
    let s0 = field_exec(item, "snippet");
    let s = if is_blank(s0.as_str()) {
        proof {
            crate::text::lemma_trim_idempotent(arg_text(*item, "snippet"@));
        }
        field_exec(item, "content")
    } else {
        proof {
            crate::text::lemma_trim_idempotent(arg_text(*item, "snippet"@));
        }
        s0
    };
    let v = chars_of(s.as_str());
    if v.len() > MAX_SNIPPET_CHARS {
        let mut t = string_of_range(&v, 0, MAX_SNIPPET_CHARS);
        push_char(&mut t, '…');
        t
    } else {
        s
    }
}

fn append_line_if(out: &mut String, cond: bool, label: &str, v: &str)
    ensures
        final(out)@ == old(out)@ + line_if(cond, label@, v@),
{
    if cond {
        out.append(label);
        out.append(v);
        out.append("\n");
    } else {
        assert(old(out)@ + Seq::<char>::empty() =~= old(out)@);
    }
}

fn result_block_exec(item: &JsonValue, hide: bool) -> (r: String)
    ensures
        r@ == result_block(*item, hide),
{
    let title = field_exec(item, "title");
    let url = field_exec(item, "url");
    let site = field_exec(item, "site_name");
    let date = field_exec(item, "date");
    let snippet = snippet_exec(item);
    proof {
        reveal_strlit("");
    }
    let mut out = owned("Title: ");
    out.append(title.as_str());
    out.append("\n");
    let site_shown = !hide && !crate::validate::is_empty_str(site.as_str());
    append_line_if(&mut out, site_shown, "Site: ", site.as_str());
    let date_shown = !crate::validate::is_empty_str(date.as_str());
    append_line_if(&mut out, date_shown, "Date: ", date.as_str());
    append_line_if(&mut out, !hide, "URL: ", url.as_str());
    let snippet_shown = !crate::validate::is_empty_str(snippet.as_str());
    append_line_if(&mut out, snippet_shown, "Snippet: ", snippet.as_str());
    out.append("\n---\n\n");
    assert(site_shown == (!hide && site@.len() > 0)) by {
        if site@.len() == 0 { assert(site@ =~= ""@); }
    }
    assert(date_shown == (date@.len() > 0)) by {
        if date@.len() == 0 { assert(date@ =~= ""@); }
    }
    assert(snippet_shown == (snippet@.len() > 0)) by {
        if snippet@.len() == 0 { assert(snippet@ =~= ""@); }
    }
    out
}

/// Search results as text for the model.
pub fn format_results(query: &str, results: &Vec<JsonValue>, max_results: usize, hide: bool) -> (r: String)
    ensures
        r@ == formatted_results(query@, results@, max_results as nat, hide),
{
    let n: usize = if results.len() <= max_results { results.len() } else { max_results };
    let ghost items = if results@.len() <= max_results { results@ } else { results@.subrange(0, max_results as int) };
    assert(items.len() == n);
    let mut out = String::new();
    let mut i: usize = 0;
    while i < n
        invariant
            i <= n,
            n <= results@.len(),
            items.len() == n,
            forall|k: int| 0 <= k < n ==> items[k] == results@[k],
            out@ == result_blocks(items.subrange(0, i as int), hide),
        decreases n - i,
    {
        let item = &results[i];
        proof {
            assert(items.subrange(0, i + 1).drop_last() =~= items.subrange(0, i as int));
            assert(items.subrange(0, i + 1).last() == *item);
        }
        let title = field_exec(item, "title");
        let url = field_exec(item, "url");
        proof {
            reveal_strlit("");
        }
        let is_shown = !crate::validate::is_empty_str(title.as_str()) || !crate::validate::is_empty_str(url.as_str());
        assert(is_shown == shown(*item)) by {
            if title@.len() == 0 { assert(title@ =~= ""@); }
            if url@.len() == 0 { assert(url@ =~= ""@); }
        }
        if is_shown {
            let block = result_block_exec(item, hide);
            out.append(block.as_str());
        } else {
            assert(out@ + Seq::<char>::empty() =~= out@);
        }
        i = i + 1;
    }
    assert(items.subrange(0, n as int) =~= items);
    proof {
        reveal_strlit("");
    }
    if crate::validate::is_empty_str(out.as_str()) {
        assert(out@.len() == 0) by {
            assert(""@ =~= Seq::<char>::empty());
        }
        return cat(NO_RESULTS_PRE, query);
    }
    assert(out@.len() != 0) by {
        if out@.len() == 0 { assert(out@ =~= ""@); }
    }
    if hide {
        out.append(HIDE_NOTE);
    } else {
        out.append(CITE_NOTE);
    }
    truncate_output(&mut out);
    out
}

// ---------- the built-in search protocol ----------

pub const DEFAULT_CHAT_BASE: &'static str = "https://api.moonshot.cn/v1";
pub const CHAT_COMPLETIONS: &'static str = "/chat/completions";
pub const MAX_BUILTIN_ROUNDS: usize = 3;
pub const BUILTIN_PROMPT_HIDE: &'static str = "你是联网搜索助手。需要时使用 $web_search 工具获取信息，然后把关键内容自然地融入回答，绝对不要输出来源名称、网址或链接列表。";
pub const BUILTIN_PROMPT_CITE: &'static str = "你是联网搜索助手。需要时使用 $web_search 工具获取信息，然后用简洁的中文总结搜索结果，保留关键事实与来源链接。";
pub const MSG_NO_MESSAGE: &'static str = "搜索响应缺少 choices[0].message";
pub const MSG_NO_CONTENT: &'static str = "搜索服务未返回有效内容";
pub const MSG_TOO_MANY_ROUNDS: &'static str = "内置联网搜索超过 3 轮仍未返回结果";

/// The chat completions endpoint of a provider: its trimmed base URL without
/// trailing slashes (Moonshot's when blank), with `/chat/completions` added
/// unless it ends with it.
pub open spec fn chat_endpoint_of(base_url: Seq<char>) -> Seq<char> {
    let base = if trim(base_url).len() == 0 { DEFAULT_CHAT_BASE@ } else { strip_slashes(trim(base_url)) };
    if ends_with(base, CHAT_COMPLETIONS@) { base } else { base + CHAT_COMPLETIONS@ }
}

/// The endpoint the built-in search posts to.
pub fn chat_endpoint(base_url: &str) -> (r: String)
    ensures
        r@ == chat_endpoint_of(base_url@),
{
    let base = if is_blank(base_url) {
        owned(DEFAULT_CHAT_BASE)
    } else {
        let t = trim_str(base_url);
        trim_end_slashes(t.as_str())
    };
    if ends_with_str(base.as_str(), CHAT_COMPLETIONS) {
        base
    } else {
        cat(base.as_str(), CHAT_COMPLETIONS)
    }
}

/// The system prompt of the built-in search.
pub fn builtin_system_prompt(hide: bool) -> (r: &'static str)
    ensures
        r@ == if hide { BUILTIN_PROMPT_HIDE@ } else { BUILTIN_PROMPT_CITE@ },
{
    if hide { BUILTIN_PROMPT_HIDE } else { BUILTIN_PROMPT_CITE }
}

/// What one answer of the built-in search asks of the client.
#[derive(Debug, Clone)]
pub enum BuiltinStep {
    /// Echo each tool call back as a tool message: its id and its arguments.
    Echo(Vec<(String, String)>),
    /// The final answer, cut to the output bound.
    Answer(String),
}

/// The first choice's message of a chat answer.
pub open spec fn first_message(payload: JsonValue) -> Option<JsonValue> {
    match array_of(value_get(payload, "choices"@)) {
        Some(a) => if a.len() > 0 { value_get(a[0], "message"@) } else { None },
        None => None,
    }
}

/// A tool call echoed back: its id (empty when missing) and the text of its
/// `function.arguments` (`{}` when missing).
pub open spec fn echo_of(call: JsonValue) -> (Seq<char>, Seq<char>) {
    let args = str_of(opt_value_get(value_get(call, "function"@), "arguments"@));
    (arg_text(call, "id"@), match args { Some(a) => a, None => "{}"@ })
}

/// The step one answer calls for: echo its tool calls when it has any;
/// otherwise its trimmed content is the answer, and an empty one is refused.
pub open spec fn builtin_step_ok(payload: JsonValue, r: Result<BuiltinStep, ToolError>) -> bool {
    match first_message(payload) {
        None => r is Err && failed(r->Err_0, MSG_NO_MESSAGE@),
        Some(message) => {
            let calls = array_of(value_get(message, "tool_calls"@));
            if calls is Some && calls->0.len() > 0 {
                r is Ok && r->Ok_0 is Echo
                    && r->Ok_0->Echo_0@.map_values(|p: (String, String)| (p.0@, p.1@)) == calls->0.map_values(|c: JsonValue| echo_of(c))
            } else if trim(arg_text(message, "content"@)).len() == 0 {
                r is Err && failed(r->Err_0, MSG_NO_CONTENT@)
            } else {
                r is Ok && r->Ok_0 is Answer && r->Ok_0->Answer_0@ == truncated_output(trim(arg_text(message, "content"@)))
            }
        },
    }
}

fn get_in<'a>(v: &'a JsonValue, key: &str) -> (r: Option<&'a JsonValue>)
    ensures
        match value_get(*v, key@) {
            Some(x) => r is Some && *r->0 == x,
            None => r is None,
        },
{
    match v {
        JsonValue::Object(m) => crate::json::get(m, key),
        _ => None,
    }
}

fn echo_exec(call: &JsonValue) -> (r: (String, String))
    ensures
        (r.0@, r.1@) == echo_of(*call),
{
    let id = owned(crate::command::arg_text_exec(call, "id"));
    let args = match get_in(call, "function") {
        Some(f) => match get_in(f, "arguments") {
            Some(JsonValue::Str(a)) => owned(a.as_str()),
            _ => owned("{}"),
        },
        None => owned("{}"),
    };
    (id, args)
}

/// Reads one answer of the built-in search.
pub fn builtin_step(payload: &JsonValue) -> (r: Result<BuiltinStep, ToolError>)
    ensures
        builtin_step_ok(*payload, r),
{
    let choices = match get_in(payload, "choices") {
        Some(JsonValue::Array(a)) => a,
        _ => { return Err(ToolError::Execution(owned(MSG_NO_MESSAGE))); },
    };
    if choices.len() == 0 {
        return Err(ToolError::Execution(owned(MSG_NO_MESSAGE)));
    }
    let message = match get_in(&choices[0], "message") {
        Some(m) => m,
        None => { return Err(ToolError::Execution(owned(MSG_NO_MESSAGE))); },
    };
    match get_in(message, "tool_calls") {
        Some(JsonValue::Array(calls)) => {
            if calls.len() > 0 {
                let mut echoes: Vec<(String, String)> = Vec::new();
                let mut i: usize = 0;
                while i < calls.len()
                    invariant
                        i <= calls@.len(),
                        echoes@.map_values(|p: (String, String)| (p.0@, p.1@))
                            == calls@.subrange(0, i as int).map_values(|c: JsonValue| echo_of(c)),
                    decreases calls@.len() - i,
                {
                    let e = echo_exec(&calls[i]);
                    let ghost e0 = echoes@;
                    echoes.push(e);
                    proof {
                        assert(echoes@.map_values(|p: (String, String)| (p.0@, p.1@))
                            =~= e0.map_values(|p: (String, String)| (p.0@, p.1@)).push((e.0@, e.1@)));
                        assert(calls@.subrange(0, i + 1).map_values(|c: JsonValue| echo_of(c))
                            =~= calls@.subrange(0, i as int).map_values(|c: JsonValue| echo_of(c)).push(echo_of(calls@[i as int])));
                    }
                    i = i + 1;
                }
                assert(calls@.subrange(0, calls@.len() as int) =~= calls@);
                return Ok(BuiltinStep::Echo(echoes));
            }
        },
        _ => {},
    }
    let content = crate::command::arg_text_exec(message, "content");
    if is_blank(content) {
        return Err(ToolError::Execution(owned(MSG_NO_CONTENT)));
    }
    let mut answer = trim_str(content);
    truncate_output(&mut answer);
    Ok(BuiltinStep::Answer(answer))
}

// ---------- BoCha results ----------

/// A BoCha row in the shape the formatter reads (keys in sorted order):
/// `name` as the title, `siteName` as the site, `datePublished` as the date,
/// and `summary` (else `snippet`) as the snippet.
pub open spec fn bocha_entries(row: JsonValue) -> Seq<(Seq<char>, Seq<char>)> {
    let summary = arg_text(row, "summary"@);
    seq![
        ("date"@, arg_text(row, "datePublished"@)),
        ("site_name"@, arg_text(row, "siteName"@)),
        ("snippet"@, if summary.len() == 0 { arg_text(row, "snippet"@) } else { summary }),
        ("title"@, arg_text(row, "name"@)),
        ("url"@, arg_text(row, "url"@)),
    ]
}

/// The text entries of an object whose values are all strings.
pub open spec fn text_entries(m: Seq<(String, JsonValue)>) -> Seq<(Seq<char>, Seq<char>)> {
    m.map_values(|e: (String, JsonValue)| (e.0@, match e.1 { JsonValue::Str(s) => s@, _ => Seq::empty() }))
}

/// Converts a BoCha row into a search result.
pub fn bocha_result(row: &JsonValue) -> (r: JsonValue)
    ensures
        r is Object,
        text_entries(r->Object_0@) == bocha_entries(*row),
        forall|i: int| 0 <= i < r->Object_0@.len() ==> (#[trigger] r->Object_0@[i]).1 is Str,
{
    let summary = crate::command::arg_text_exec(row, "summary");
    proof {
        reveal_strlit("");
    }
    let snippet = if crate::validate::is_empty_str(summary) {
        crate::command::arg_text_exec(row, "snippet")
    } else {
        summary
    };
    assert(snippet@ == (if arg_text(*row, "summary"@).len() == 0 { arg_text(*row, "snippet"@) } else { arg_text(*row, "summary"@) })) by {
        if summary@.len() == 0 { assert(summary@ =~= ""@); }
    }
    let mut m: Vec<(String, JsonValue)> = Vec::new();
    m.push((owned("date"), JsonValue::Str(owned(crate::command::arg_text_exec(row, "datePublished")))));
    m.push((owned("site_name"), JsonValue::Str(owned(crate::command::arg_text_exec(row, "siteName")))));
    m.push((owned("snippet"), JsonValue::Str(owned(snippet))));
    m.push((owned("title"), JsonValue::Str(owned(crate::command::arg_text_exec(row, "name")))));
    m.push((owned("url"), JsonValue::Str(owned(crate::command::arg_text_exec(row, "url")))));
    assert(text_entries(m@) =~= bocha_entries(*row));
    JsonValue::Object(m)
}

/// Two results that differ at most in their URL and site name (and agree
/// on whether they are shown, which a missing title leaves to the URL).
pub open spec fn same_but_sources(a: JsonValue, b: JsonValue) -> bool {
    &&& field(a, "title"@) == field(b, "title"@)
    &&& field(a, "date"@) == field(b, "date"@)
    &&& field(a, "snippet"@) == field(b, "snippet"@)
    &&& field(a, "content"@) == field(b, "content"@)
    &&& shown(a) == shown(b)
}

proof fn lemma_blocks_hide_sources(r1: Seq<JsonValue>, r2: Seq<JsonValue>)
    requires
        r1.len() == r2.len(),
        forall|i: int| 0 <= i < r1.len() ==> same_but_sources(#[trigger] r1[i], r2[i]),
    ensures
        result_blocks(r1, true) == result_blocks(r2, true),
    decreases r1.len(),
{
    if r1.len() > 0 {
        let (d1, d2) = (r1.drop_last(), r2.drop_last());
        assert forall|i: int| 0 <= i < d1.len() implies same_but_sources(#[trigger] d1[i], d2[i]) by {
            assert(d1[i] == r1[i] && d2[i] == r2[i]);
        }
        lemma_blocks_hide_sources(d1, d2);
        assert(same_but_sources(r1[r1.len() - 1], r2[r2.len() - 1]));
        assert(result_block(r1.last(), true) == result_block(r2.last(), true));
    }
}

/// With sources hidden, no URL or site name reaches the text: two searches
/// whose results differ only there give the same text.
pub proof fn law_hidden_sources_never_shown(query: Seq<char>, r1: Seq<JsonValue>, r2: Seq<JsonValue>, max: nat)
    requires
        r1.len() == r2.len(),
        forall|i: int| 0 <= i < r1.len() ==> same_but_sources(#[trigger] r1[i], r2[i]),
    ensures
        formatted_results(query, r1, max, true) == formatted_results(query, r2, max, true),
{
    let i1 = if r1.len() <= max { r1 } else { r1.subrange(0, max as int) };
    let i2 = if r2.len() <= max { r2 } else { r2.subrange(0, max as int) };
    assert forall|i: int| 0 <= i < i1.len() implies same_but_sources(#[trigger] i1[i], i2[i]) by {
        assert(i1[i] == r1[i] && i2[i] == r2[i]);
    }
    lemma_blocks_hide_sources(i1, i2);
}

} // verus!
