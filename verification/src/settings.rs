//! The user's tool settings (how tools work), kept apart from the permission
//! matrix (which tools may be offered), and how they feed the matrix.
use vstd::prelude::*;
use crate::permissions::{ToolPermissionConfig, GroupView, allow_in_default};
use crate::strmap::StrMap;
use crate::text::{owned, trim, is_blank};

verus! {

pub const SETTINGS_FILE_NAME: &'static str = "tool_settings.toml";

/// The tool groups of the settings page and the registered tools in each.
/// `web_search` is not among them: it has its own switch and readiness.
pub open spec fn tool_groups_spec() -> Seq<(Seq<char>, Seq<Seq<char>>)> {
    seq![
        ("schedule"@, seq!["schedule_get_all"@, "schedule_add_todo"@, "schedule_update_todo"@, "schedule_delete_todo"@]),
        ("memory"@, seq!["memory_get_current"@, "memory_get_notes"@, "memory_add_note"@, "memory_update_note"@, "memory_delete_note"@]),
        ("character"@, seq!["character_list"@, "character_switch"@]),
        ("scene"@, seq!["scene_list"@, "scene_switch"@]),
        ("status"@, seq!["status_get_current"@, "status_get_scene"@]),
        ("clock"@, seq!["get_current_time"@]),
        ("skills"@, seq!["list_skills"@, "read_skill"@]),
        ("file_ops"@, seq!["list_files"@, "read_file"@, "write_file"@, "delete_file"@, "edit_file"@, "search_files"@, "grep_files"@]),
        ("command"@, seq!["execute_command"@]),
    ]
}

/// The plain values of a group table.
pub open spec fn groups_view(t: Seq<(&'static str, Vec<&'static str>)>) -> Seq<(Seq<char>, Seq<Seq<char>>)> {
    t.map_values(|p: (&'static str, Vec<&'static str>)| (p.0@, p.1@.map_values(|x: &'static str| x@)))
}

/// The tool groups (`TOOL_GROUPS`).
pub fn tool_groups() -> (r: Vec<(&'static str, Vec<&'static str>)>)
    ensures
        groups_view(r@) == tool_groups_spec(),
{
    let r = vec![
        ("schedule", vec!["schedule_get_all", "schedule_add_todo", "schedule_update_todo", "schedule_delete_todo"]),
        ("memory", vec!["memory_get_current", "memory_get_notes", "memory_add_note", "memory_update_note", "memory_delete_note"]),
        ("character", vec!["character_list", "character_switch"]),
        ("scene", vec!["scene_list", "scene_switch"]),
        ("status", vec!["status_get_current", "status_get_scene"]),
        ("clock", vec!["get_current_time"]),
        ("skills", vec!["list_skills", "read_skill"]),
        ("file_ops", vec!["list_files", "read_file", "write_file", "delete_file", "edit_file", "search_files", "grep_files"]),
        ("command", vec!["execute_command"]),
    ];
    assert(groups_view(r@) =~~= tool_groups_spec());
    r
}

/// Settings of the web search tool.
pub struct WebSearchSettings {
    /// Master switch: when off the tool is neither offered nor run.
    pub enabled: bool,
    /// Use the chat model's built-in web search instead of a separate endpoint.
    pub use_builtin: bool,
    /// Provider of the separate endpoint (`kimi` or `bocha`).
    pub provider: String,
    /// Bearer key of the separate endpoint.
    pub api_key: String,
    pub base_url: String,
    pub proxy_enabled: bool,
    pub proxy_addr: String,
    /// Most results handed to the model (separate endpoint only).
    pub max_results: usize,
    /// Hide URLs and sources from the model and ask it to weave the results in.
    pub hide_search_results: bool,
}

impl Default for WebSearchSettings {
    fn default() -> (r: Self)
        ensures
            !r.enabled,
            r.use_builtin,
            r.provider@ == "kimi"@,
            r.api_key@ == Seq::<char>::empty(),
            r.base_url@ == "https://api.kimi.com/coding/v1/search"@,
            !r.proxy_enabled,
            r.proxy_addr@ == "http://127.0.0.1:10808"@,
            r.max_results == 8,
            !r.hide_search_results,
    {
        WebSearchSettings {
            enabled: false,
            use_builtin: true,
            provider: owned("kimi"),
            api_key: String::new(),
            base_url: owned("https://api.kimi.com/coding/v1/search"),
            proxy_enabled: false,
            proxy_addr: owned("http://127.0.0.1:10808"),
            max_results: 8,
            hide_search_results: false,
        }
    }
}

/// The web search can be offered: it is switched on and either uses the
/// built-in search or has a key.
pub open spec fn ready(s: WebSearchSettings) -> bool {
    s.enabled && (s.use_builtin || trim(s.api_key@).len() > 0)
}

impl WebSearchSettings {
    /// Whether the web search can be offered to the model.
    pub fn is_ready(&self) -> (r: bool)
        ensures
            r == ready(*self),
    {
        self.enabled && (self.use_builtin || !is_blank(self.api_key.as_str()))
    }
}

/// The tool settings.
pub struct ToolSettings {
    pub web_search: WebSearchSettings,
    /// Group name (see `tool_groups`) to switch; missing groups are off.
    pub groups: StrMap<bool>,
    /// Run shell commands without asking (dangerous).
    pub command_auto_approve: bool,
    /// Run commands that delete files without asking (dangerous).
    pub command_delete_auto_approve: bool,
    /// Delete files without asking (dangerous).
    pub file_delete_auto_approve: bool,
    /// Let file tools reach paths outside the sandbox.
    pub file_ops_allow_any_path: bool,
}

impl Default for ToolSettings {
    fn default() -> (r: Self)
        ensures
            r.groups.wf(),
            r.groups.map() == Map::<Seq<char>, bool>::empty(),
            !r.web_search.enabled,
            !r.command_auto_approve,
            !r.command_delete_auto_approve,
            !r.file_delete_auto_approve,
            !r.file_ops_allow_any_path,
    {
        ToolSettings {
            web_search: WebSearchSettings::default(),
            groups: StrMap::new(),
            command_auto_approve: false,
            command_delete_auto_approve: false,
            file_delete_auto_approve: false,
            file_ops_allow_any_path: false,
        }
    }
}

/// Whether the group `g` is switched on.
pub open spec fn group_on(s: ToolSettings, g: Seq<char>) -> bool {
    s.groups.map().dom().contains(g) && s.groups.map()[g]
}

/// The (tool, allowed) pairs the groups of `t` give, group by group.
pub open spec fn group_pairs(s: ToolSettings, t: Seq<(Seq<char>, Seq<Seq<char>>)>) -> Seq<(Seq<char>, bool)>
    decreases t.len(),
{
    if t.len() == 0 {
        Seq::empty()
    } else {
        group_pairs(s, t.drop_last()) + t.last().1.map_values(|x: Seq<char>| (x, group_on(s, t.last().0)))
    }
}

/// The (tool, allowed) pairs the settings give the default role group, in
/// the order they are applied.
pub open spec fn sync_pairs(s: ToolSettings) -> Seq<(Seq<char>, bool)> {
    seq![("web_search"@, ready(s.web_search))] + group_pairs(s, tool_groups_spec())
}

/// The role groups after applying the pairs one by one.
pub open spec fn apply_allow(rv: Map<Seq<char>, GroupView>, pairs: Seq<(Seq<char>, bool)>) -> Map<Seq<char>, GroupView>
    decreases pairs.len(),
{
    if pairs.len() == 0 {
        rv
    } else {
        allow_in_default(apply_allow(rv, pairs.drop_last()), pairs.last().0, pairs.last().1)
    }
}

impl ToolSettings {
    /// Writes the settings into the default role group of the permissions:
    /// the web search when it is ready, and every tool of a group by the
    /// group's switch.
    pub fn sync_to_permissions(&self, permissions: &mut ToolPermissionConfig)
        requires
            self.groups.wf(),
            old(permissions).wf(),
        ensures
            final(permissions).wf(),
            final(permissions).roles() == apply_allow(old(permissions).roles(), sync_pairs(*self)),
            final(permissions).scene_groups == old(permissions).scene_groups,
            final(permissions).scene_mapping == old(permissions).scene_mapping,
            final(permissions).available_tools == old(permissions).available_tools,
    {
        let ghost rv0 = permissions.roles();
        let ghost all = sync_pairs(*self);
        permissions.set_tool_allowed_for_default_group("web_search", self.web_search.is_ready());
        proof {
            let first = seq![("web_search"@, ready(self.web_search))];
            assert(first.drop_last() =~= Seq::<(Seq<char>, bool)>::empty());
            assert(apply_allow(rv0, Seq::<(Seq<char>, bool)>::empty()) == rv0);
            assert(permissions.roles() == apply_allow(rv0, first));
            assert(group_pairs(*self, tool_groups_spec().subrange(0, 0)) =~= Seq::<(Seq<char>, bool)>::empty());
            assert(first + group_pairs(*self, tool_groups_spec().subrange(0, 0)) =~= first);
        }
        let table = tool_groups();
        let ghost tv = groups_view(table@);
        let mut g: usize = 0;
        while g < table.len()
            invariant
                g <= table@.len(),
                tv == groups_view(table@),
                tv == tool_groups_spec(),
                all == sync_pairs(*self),
                self.groups.wf(),
                permissions.wf(),
                permissions.roles() == apply_allow(rv0, seq![("web_search"@, ready(self.web_search))] + group_pairs(*self, tv.subrange(0, g as int))),
                permissions.scene_groups == old(permissions).scene_groups,
                permissions.scene_mapping == old(permissions).scene_mapping,
                permissions.available_tools == old(permissions).available_tools,
            decreases table@.len() - g,
        {
            let name = table[g].0;
            let enabled = match self.groups.get(name) {
                Some(b) => *b,
                None => false,
            };
            let tools = &table[g].1;
            let ghost head = seq![("web_search"@, ready(self.web_search))] + group_pairs(*self, tv.subrange(0, g as int));
            let ghost chunk = tv[g as int].1.map_values(|x: Seq<char>| (x, group_on(*self, tv[g as int].0)));
            proof {
                assert(tv[g as int].0 == name@);
                assert(enabled == group_on(*self, name@));
                assert(tv.subrange(0, g + 1).drop_last() =~= tv.subrange(0, g as int));
                assert(tv.subrange(0, g + 1).last() == tv[g as int]);
                assert(tools@.map_values(|x: &'static str| x@) == tv[g as int].1);
            }
            let mut t: usize = 0;
            while t < tools.len()
                invariant
                    t <= tools@.len(),
                    g < tv.len(),
                    tools@.map_values(|x: &'static str| x@) == tv[g as int].1,
                    chunk == tv[g as int].1.map_values(|x: Seq<char>| (x, group_on(*self, tv[g as int].0))),
                    enabled == group_on(*self, tv[g as int].0),
                    permissions.wf(),
                    permissions.roles() == apply_allow(rv0, head + chunk.subrange(0, t as int)),
                    permissions.scene_groups == old(permissions).scene_groups,
                    permissions.scene_mapping == old(permissions).scene_mapping,
                    permissions.available_tools == old(permissions).available_tools,
                decreases tools@.len() - t,
            {
                permissions.set_tool_allowed_for_default_group(tools[t], enabled);
                proof {
                    let before = head + chunk.subrange(0, t as int);
                    let after = head + chunk.subrange(0, t + 1);
                    assert(after.drop_last() =~= before);
                    assert(after.last() == (tools@[t as int]@, enabled));
                }
                t = t + 1;
            }
            proof {
                assert(chunk.subrange(0, tools@.len() as int) =~= chunk);
                assert(head + chunk =~= seq![("web_search"@, ready(self.web_search))] + group_pairs(*self, tv.subrange(0, g + 1)));
            }
            g = g + 1;
        }
        proof {
            assert(tv.subrange(0, table@.len() as int) =~= tv);
        }
    }
}

// ---------- the switches decide ----------

/// There is a default role group and it lists `t`.
pub open spec fn default_allows(rv: Map<Seq<char>, GroupView>, t: Seq<char>) -> bool {
    rv.dom().contains(crate::permissions::DEFAULT_ROLE_GROUP@) && rv[crate::permissions::DEFAULT_ROLE_GROUP@].tools.contains(t)
}

/// The last pair for a tool decides whether the default role group allows it.
proof fn lemma_apply_last(rv: Map<Seq<char>, GroupView>, pairs: Seq<(Seq<char>, bool)>, t: Seq<char>, i: int)
    requires
        0 <= i < pairs.len(),
        pairs[i].0 == t,
        forall|j: int| i < j < pairs.len() ==> (#[trigger] pairs[j]).0 != t,
    ensures
        default_allows(apply_allow(rv, pairs), t) == pairs[i].1,
    decreases pairs.len(),
{
    let d = pairs.drop_last();
    if i < pairs.len() - 1 {
        assert forall|j: int| i < j < d.len() implies (#[trigger] d[j]).0 != t by {
            assert(d[j] == pairs[j]);
        }
        lemma_apply_last(rv, d, t, i);
        assert(pairs.last() == pairs[pairs.len() - 1]);
    }
}

/// Where the tools of group `g` start among the pairs of a group table.
pub open spec fn group_offset(t: Seq<(Seq<char>, Seq<Seq<char>>)>, g: int) -> int
    decreases g,
{
    if g <= 0 { 0 } else { group_offset(t, g - 1) + t[g - 1].1.len() }
}

proof fn lemma_group_offset_mono(t: Seq<(Seq<char>, Seq<Seq<char>>)>, a: int, b: int)
    requires
        0 <= a <= b,
    ensures
        group_offset(t, a) <= group_offset(t, b),
    decreases b - a,
{
    if a < b {
        lemma_group_offset_mono(t, a, b - 1);
    }
}

proof fn lemma_group_offset_prefix(t: Seq<(Seq<char>, Seq<Seq<char>>)>, n: int, g: int)
    requires
        0 <= g <= n <= t.len(),
    ensures
        group_offset(t.subrange(0, n), g) == group_offset(t, g),
    decreases g,
{
    if g > 0 {
        lemma_group_offset_prefix(t, n, g - 1);
    }
}

/// The `k`-th tool of group `g` and its group's switch stand at
/// `group_offset(t, g) + k` among the pairs of the table.
proof fn lemma_group_pairs_at(s: ToolSettings, t: Seq<(Seq<char>, Seq<Seq<char>>)>, g: int, k: int)
    requires
        0 <= g < t.len(),
        0 <= k < t[g].1.len(),
    ensures
        group_pairs(s, t).len() == group_offset(t, t.len() as int),
        group_pairs(s, t)[group_offset(t, g) + k] == (t[g].1[k], group_on(s, t[g].0)),
    decreases t.len(),
{
    let d = t.drop_last();
    let tail = t.last().1.map_values(|x: Seq<char>| (x, group_on(s, t.last().0)));
    assert(group_pairs(s, t) == group_pairs(s, d) + tail);
    lemma_group_pairs_len(s, d);
    lemma_group_pairs_len(s, t);
    assert(d == t.subrange(0, t.len() - 1));
    lemma_group_offset_prefix(t, t.len() - 1, t.len() - 1);
    if g < t.len() - 1 {
        lemma_group_pairs_at(s, d, g, k);
        lemma_group_offset_prefix(t, t.len() - 1, g);
        lemma_group_offset_mono(t, g + 1, t.len() - 1);
        lemma_group_offset_mono(t, 0, g);
        assert(d[g] == t[g]);
        assert(group_offset(t, g + 1) == group_offset(t, g) + t[g].1.len());
        assert(group_offset(t, g) + k < group_pairs(s, d).len());
        assert(group_offset(d, g) == group_offset(t, g));
        assert((group_pairs(s, d) + tail)[group_offset(t, g) + k] == group_pairs(s, d)[group_offset(t, g) + k]);
    } else {
        lemma_group_offset_prefix(t, t.len() - 1, g);
        assert(t.last() == t[g]);
        assert(group_offset(t, g) == group_pairs(s, d).len());
        assert(tail[k] == (t[g].1[k], group_on(s, t[g].0)));
        assert((group_pairs(s, d) + tail)[group_offset(t, g) + k] == tail[k]);
    }
}

proof fn lemma_group_pairs_len(s: ToolSettings, t: Seq<(Seq<char>, Seq<Seq<char>>)>)
    ensures
        group_pairs(s, t).len() == group_offset(t, t.len() as int),
    decreases t.len(),
{
    if t.len() > 0 {
        let d = t.drop_last();
        lemma_group_pairs_len(s, d);
        lemma_group_offset_prefix(t, t.len() - 1, t.len() - 1);
        assert(d == t.subrange(0, t.len() - 1));
    }
}

/// The position of the `k`-th tool of group `g` among the pairs.
pub open spec fn at_offset(t: Seq<(Seq<char>, Seq<Seq<char>>)>, g: int, k: int) -> int {
    group_offset(t, g) + k
}

/// No tool is listed twice in a group table, nor named `web_search`.
pub open spec fn distinct_tools(t: Seq<(Seq<char>, Seq<Seq<char>>)>) -> bool {
    &&& forall|g: int, k: int| 0 <= g < t.len() && 0 <= k < t[g].1.len() ==> #[trigger] t[g].1[k] != "web_search"@
    &&& forall|g1: int, k1: int, g2: int, k2: int|
            0 <= g1 < t.len() && 0 <= k1 < t[g1].1.len() && 0 <= g2 < t.len() && 0 <= k2 < t[g2].1.len()
            && (g1 != g2 || k1 != k2) ==> #[trigger] t[g1].1[k1] != #[trigger] t[g2].1[k2]
}

/// The pairs that syncing with a group table applies: the web search
/// first, then each group's tools with the group's switch.
pub open spec fn sync_pairs_with(s: ToolSettings, t: Seq<(Seq<char>, Seq<Seq<char>>)>) -> Seq<(Seq<char>, bool)> {
    seq![("web_search"@, ready(s.web_search))] + group_pairs(s, t)
}

proof fn lemma_offset_split(t: Seq<(Seq<char>, Seq<Seq<char>>)>, p: int)
    requires
        0 <= p < group_offset(t, t.len() as int),
    ensures
        exists|g: int, k: int| 0 <= g < t.len() && 0 <= k < t[g].1.len() && p == #[trigger] at_offset(t, g, k),
    decreases t.len(),
{
    let n = t.len() as int;
    let d = t.subrange(0, n - 1);
    lemma_group_offset_prefix(t, n - 1, n - 1);
    if p < group_offset(t, n - 1) {
        lemma_offset_split(d, p);
        let (g, k) = choose|g: int, k: int| 0 <= g < d.len() && 0 <= k < d[g].1.len() && p == #[trigger] at_offset(d, g, k);
        lemma_group_offset_prefix(t, n - 1, g);
        assert(d[g] == t[g]);
        assert(p == at_offset(t, g, k));
    } else {
        assert(p == at_offset(t, n - 1, p - group_offset(t, n - 1)));
    }
}

/// Syncing decides each switched tool by its own switch: with a table in
/// which no tool appears twice, there is a default role group listing the
/// web search exactly when it is ready, and one listing each tool of a group
/// exactly when the group is on (`sync_pairs` is this with the built-in
/// table).
pub proof fn law_sync_follows_switches(s: ToolSettings, rv: Map<Seq<char>, GroupView>, t: Seq<(Seq<char>, Seq<Seq<char>>)>)
    requires
        distinct_tools(t),
    ensures
        default_allows(apply_allow(rv, sync_pairs_with(s, t)), "web_search"@) == ready(s.web_search),
        forall|g: int, k: int| 0 <= g < t.len() && 0 <= k < t[g].1.len() ==>
            default_allows(apply_allow(rv, sync_pairs_with(s, t)), #[trigger] t[g].1[k]) == group_on(s, t[g].0),
        sync_pairs(s) == sync_pairs_with(s, tool_groups_spec()),
{
    let pairs = sync_pairs_with(s, t);
    lemma_group_pairs_len(s, t);
    assert forall|j: int| 0 < j < pairs.len() implies (#[trigger] pairs[j]).0 != "web_search"@ by {
        lemma_offset_split(t, j - 1);
        let (g, k) = choose|g: int, k: int| 0 <= g < t.len() && 0 <= k < t[g].1.len() && j - 1 == #[trigger] at_offset(t, g, k);
        lemma_group_pairs_at(s, t, g, k);
        assert(pairs[j] == group_pairs(s, t)[j - 1]);
    }
    lemma_apply_last(rv, pairs, "web_search"@, 0);
    assert forall|g: int, k: int| 0 <= g < t.len() && 0 <= k < t[g].1.len() implies
        default_allows(apply_allow(rv, pairs), #[trigger] t[g].1[k]) == group_on(s, t[g].0) by {
        let i = 1 + group_offset(t, g) + k;
        lemma_group_pairs_at(s, t, g, k);
        lemma_group_offset_mono(t, 0, g);
        lemma_group_offset_mono(t, g + 1, t.len() as int);
        assert(group_offset(t, g + 1) == group_offset(t, g) + t[g].1.len());
        assert(pairs[i] == group_pairs(s, t)[i - 1]);
        assert forall|j: int| i < j < pairs.len() implies (#[trigger] pairs[j]).0 != t[g].1[k] by {
            lemma_offset_split(t, j - 1);
            let (g2, k2) = choose|g2: int, k2: int| 0 <= g2 < t.len() && 0 <= k2 < t[g2].1.len() && j - 1 == #[trigger] at_offset(t, g2, k2);
            lemma_group_pairs_at(s, t, g2, k2);
            assert(pairs[j] == group_pairs(s, t)[j - 1]);
            if g2 == g && k2 == k {
                assert(false);
            }
            assert(t[g2].1[k2] != t[g].1[k]);
        }
        lemma_apply_last(rv, pairs, t[g].1[k], i);
    }
}

/// The default group is enabled after applying pairs one of which allows a
/// tool: only allowing enables it, and nothing later disables it.
pub proof fn law_an_allowed_tool_enables_the_default_group(rv: Map<Seq<char>, GroupView>, pairs: Seq<(Seq<char>, bool)>, i: int)
    requires
        0 <= i < pairs.len(),
        pairs[i].1,
    ensures
        apply_allow(rv, pairs).dom().contains(crate::permissions::DEFAULT_ROLE_GROUP@),
        apply_allow(rv, pairs)[crate::permissions::DEFAULT_ROLE_GROUP@].enabled,
    decreases pairs.len(),
{
    let d = pairs.drop_last();
    if i < pairs.len() - 1 {
        assert(d[i] == pairs[i]);
        law_an_allowed_tool_enables_the_default_group(rv, d, i);
    }
}

/// Applying pairs that allow nothing leaves the default group's enabled
/// flag as it was, and makes no default group when there was none.
pub proof fn law_withdrawals_keep_the_enabled_flag(rv: Map<Seq<char>, GroupView>, pairs: Seq<(Seq<char>, bool)>)
    requires
        forall|i: int| 0 <= i < pairs.len() ==> !(#[trigger] pairs[i]).1,
    ensures
        apply_allow(rv, pairs).dom().contains(crate::permissions::DEFAULT_ROLE_GROUP@)
            == rv.dom().contains(crate::permissions::DEFAULT_ROLE_GROUP@),
        rv.dom().contains(crate::permissions::DEFAULT_ROLE_GROUP@) ==>
            apply_allow(rv, pairs)[crate::permissions::DEFAULT_ROLE_GROUP@].enabled == rv[crate::permissions::DEFAULT_ROLE_GROUP@].enabled,
    decreases pairs.len(),
{
    if pairs.len() > 0 {
        let d = pairs.drop_last();
        assert forall|i: int| 0 <= i < d.len() implies !(#[trigger] d[i]).1 by {
            assert(d[i] == pairs[i]);
        }
        law_withdrawals_keep_the_enabled_flag(rv, d);
        assert(!pairs[pairs.len() - 1].1);
        crate::permissions::law_withdraw_only_removes_the_tool(apply_allow(rv, d), pairs.last().0);
    }
}

/// After syncing settings in which the web search is ready, or in which
/// some group that lists a tool is on, the default role group is enabled.
pub proof fn law_sync_with_something_on_enables_the_default_group(s: ToolSettings, rv: Map<Seq<char>, GroupView>,
    t: Seq<(Seq<char>, Seq<Seq<char>>)>, g: int, k: int)
    requires
        ready(s.web_search) || (0 <= g < t.len() && 0 <= k < t[g].1.len() && group_on(s, t[g].0)),
    ensures
        apply_allow(rv, sync_pairs_with(s, t)).dom().contains(crate::permissions::DEFAULT_ROLE_GROUP@),
        apply_allow(rv, sync_pairs_with(s, t))[crate::permissions::DEFAULT_ROLE_GROUP@].enabled,
{
    let pairs = sync_pairs_with(s, t);
    if ready(s.web_search) {
        law_an_allowed_tool_enables_the_default_group(rv, pairs, 0);
    } else {
        lemma_group_pairs_at(s, t, g, k);
        let i = 1 + group_offset(t, g) + k;
        lemma_group_offset_mono(t, 0, g);
        lemma_group_offset_mono(t, g + 1, t.len() as int);
        assert(group_offset(t, g + 1) == group_offset(t, g) + t[g].1.len());
        assert(pairs[i] == group_pairs(s, t)[i - 1]);
        law_an_allowed_tool_enables_the_default_group(rv, pairs, i);
    }
}

} // verus!

