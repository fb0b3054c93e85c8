//! Tool permissions: a matrix of scene groups and role groups.
//!
//! A call source maps to a scene group, which lists the tools allowed in that
//! scene; a role belongs to a role group, which lists the tools allowed to
//! its roles. A role gets tools only through a role group.
use vstd::prelude::*;
use crate::strmap::{StrMap, entry_keys, lemma_entry_keys_dom, lemma_entry_in_map};
use crate::strset::{StrSet, item_views};
use crate::text::{cat3, owned, str_eq};

verus! {

pub const CONFIG_FILE_NAME: &'static str = "tool_permissions.toml";

/// The role group new roles join.
pub const DEFAULT_ROLE_GROUP: &'static str = "default";

/// Where a generation request comes from; the key of the scene mapping.
#[derive(Debug, Clone, Copy, PartialEq, Eq, Structural)]
pub enum GeneratorSourceKey {
    UserChat,
    Proactive,
    ScriptAiDialogue,
    ScriptFreeDialogue,
    EntryGreeting,
}

/// The tools of a scene group.
pub struct ToolPermission {
    pub enabled: bool,
    pub tools: StrSet,
    /// Allows every tool, whatever `tools` lists.
    pub all_tools: bool,
}

/// The tools of a role group and the roles that belong to it.
pub struct GroupPermission {
    pub enabled: bool,
    pub tools: StrSet,
    /// Allows every tool, whatever `tools` lists.
    pub all_tools: bool,
    pub roles: StrSet,
}

/// The permission configuration.
pub struct ToolPermissionConfig {
    /// Every tool the software offers; shown to the user, never read here.
    pub available_tools: Vec<String>,
    /// Call source to scene group.
    pub scene_mapping: Vec<(GeneratorSourceKey, String)>,
    pub scene_groups: StrMap<ToolPermission>,
    pub role_groups: StrMap<GroupPermission>,
}

/// What a scene group holds.
pub struct PermView {
    pub enabled: bool,
    pub tools: Set<Seq<char>>,
    pub all_tools: bool,
}

/// What a role group holds.
pub struct GroupView {
    pub enabled: bool,
    pub tools: Set<Seq<char>>,
    pub all_tools: bool,
    pub roles: Set<Seq<char>>,
}

impl View for ToolPermission {
    type V = PermView;

    open spec fn view(&self) -> PermView {
        PermView { enabled: self.enabled, tools: self.tools@, all_tools: self.all_tools }
    }
}

impl View for GroupPermission {
    type V = GroupView;

    open spec fn view(&self) -> GroupView {
        GroupView { enabled: self.enabled, tools: self.tools@, all_tools: self.all_tools, roles: self.roles@ }
    }
}

impl ToolPermission {
    pub open spec fn wf(&self) -> bool {
        self.tools.wf()
    }
}

impl GroupPermission {
    pub open spec fn wf(&self) -> bool {
        self.tools.wf() && self.roles.wf()
    }
}

/// `ToolPermission::default()`: enabled, no tools.
pub open spec fn default_perm() -> PermView {
    PermView { enabled: true, tools: Set::empty(), all_tools: false }
}

/// `GroupPermission::default()`: enabled, no tools, no roles.
pub open spec fn default_group() -> GroupView {
    GroupView { enabled: true, tools: Set::empty(), all_tools: false, roles: Set::empty() }
}

/// The group a role is put in when no group holds it yet: disabled, empty.
pub open spec fn closed_group() -> GroupView {
    GroupView { enabled: false, tools: Set::empty(), all_tools: false, roles: Set::empty() }
}

impl Default for ToolPermission {
    fn default() -> (r: Self)
        ensures
            r.wf(),
            r@ == default_perm(),
    {
        ToolPermission { enabled: true, tools: StrSet::new(), all_tools: false }
    }
}

impl Default for GroupPermission {
    fn default() -> (r: Self)
        ensures
            r.wf(),
            r@ == default_group(),
    {
        GroupPermission { enabled: true, tools: StrSet::new(), all_tools: false, roles: StrSet::new() }
    }
}

/// The serde default of `enabled`.
pub fn default_enabled() -> (r: bool)
    ensures
        r,
{
    true
}

/// Whether a flag is unset (flags that are unset are not written out).
pub fn is_false(b: &bool) -> (r: bool)
    ensures
        r == !*b,
{
    !*b
}

/// The scene group a call source maps to, if the mapping names one.
pub open spec fn mapping_get(m: Seq<(GeneratorSourceKey, String)>, k: GeneratorSourceKey) -> Option<Seq<char>>
    decreases m.len(),
{
    if m.len() == 0 {
        None
    } else if m[0].0 == k {
        Some(m[0].1@)
    } else {
        mapping_get(m.drop_first(), k)
    }
}

/// Some role group holds `role`.
pub open spec fn in_some_group(rv: Map<Seq<char>, GroupView>, role: Seq<char>) -> bool {
    exists|k: Seq<char>| rv.dom().contains(k) && (#[trigger] rv[k]).roles.contains(role)
}

/// The tools a role group and a scene group allow together; `all` is every tool.
pub open spec fn combine(s: PermView, g: GroupView, all: Set<Seq<char>>) -> Set<Seq<char>> {
    if !g.enabled {
        Set::empty()
    } else if g.all_tools {
        if s.all_tools || s.tools == Set::<Seq<char>>::empty() { all } else { s.tools }
    } else if s.all_tools {
        if g.tools == Set::<Seq<char>>::empty() { all } else { g.tools }
    } else {
        s.tools.intersect(g.tools)
    }
}

/// The default group after allowing (or withdrawing) one tool. Withdrawing
/// from a default group that does not exist leaves the groups as they are.
pub open spec fn allow_in_default(rv: Map<Seq<char>, GroupView>, tool: Seq<char>, allowed: bool) -> Map<Seq<char>, GroupView> {
    if !allowed && !rv.dom().contains(DEFAULT_ROLE_GROUP@) {
        rv
    } else {
        allow_in_default_group(rv, tool, allowed)
    }
}

/// Allowing or withdrawing a tool in the default group, which is made
/// (enabled, empty) when it does not exist.
pub open spec fn allow_in_default_group(rv: Map<Seq<char>, GroupView>, tool: Seq<char>, allowed: bool) -> Map<Seq<char>, GroupView> {
    let g0 = if rv.dom().contains(DEFAULT_ROLE_GROUP@) { rv[DEFAULT_ROLE_GROUP@] } else { default_group() };
    let g1 = if allowed {
        GroupView { enabled: true, tools: g0.tools.insert(tool), ..g0 }
    } else {
        GroupView { tools: g0.tools.remove(tool), ..g0 }
    };
    rv.insert(DEFAULT_ROLE_GROUP@, g1)
}

/// The role groups after placing the roles that no group holds in the default group.
pub open spec fn place_roles(rv: Map<Seq<char>, GroupView>, roles: Seq<Seq<char>>) -> Map<Seq<char>, GroupView>
    decreases roles.len(),
{
    if roles.len() == 0 {
        rv
    } else {
        let prev = place_roles(rv, roles.drop_last());
        let role = roles.last();
        if in_some_group(prev, role) {
            prev
        } else {
            let g0 = if prev.dom().contains(DEFAULT_ROLE_GROUP@) { prev[DEFAULT_ROLE_GROUP@] } else { closed_group() };
            prev.insert(DEFAULT_ROLE_GROUP@, GroupView { roles: g0.roles.insert(role), ..g0 })
        }
    }
}

/// Whether placing the roles had to place one.
pub open spec fn placed_any(rv: Map<Seq<char>, GroupView>, roles: Seq<Seq<char>>) -> bool
    decreases roles.len(),
{
    if roles.len() == 0 {
        false
    } else {
        placed_any(rv, roles.drop_last()) || !in_some_group(place_roles(rv, roles.drop_last()), roles.last())
    }
}

impl ToolPermissionConfig {
    /// The scene groups, by name.
    pub open spec fn scenes(&self) -> Map<Seq<char>, PermView> {
        self.scene_groups.map().map_values(|p: ToolPermission| p@)
    }

    /// The role groups, by name.
    pub open spec fn roles(&self) -> Map<Seq<char>, GroupView> {
        self.role_groups.map().map_values(|g: GroupPermission| g@)
    }

    /// The maps have distinct keys and every set is well formed.
    pub open spec fn wf(&self) -> bool {
        &&& self.scene_groups.wf()
        &&& self.role_groups.wf()
        &&& forall|k: Seq<char>| #[trigger] self.scene_groups.map().dom().contains(k) ==> self.scene_groups.map()[k].wf()
        &&& forall|k: Seq<char>| #[trigger] self.role_groups.map().dom().contains(k) ==> self.role_groups.map()[k].wf()
    }

    /// An empty configuration.
    pub fn empty() -> (r: Self)
        ensures
            r.wf(),
            r.available_tools@.len() == 0,
            r.scene_mapping@.len() == 0,
            r.scenes() == Map::<Seq<char>, PermView>::empty(),
            r.roles() == Map::<Seq<char>, GroupView>::empty(),
    {
        let r = ToolPermissionConfig {
            available_tools: Vec::new(),
            scene_mapping: Vec::new(),
            scene_groups: StrMap::new(),
            role_groups: StrMap::new(),
        };
        assert(r.scenes() =~= Map::<Seq<char>, PermView>::empty());
        assert(r.roles() =~= Map::<Seq<char>, GroupView>::empty());
        r
    }
}

impl ToolPermissionConfig {
    /// Allows the default role group one tool (enabling the group), or
    /// withdraws it (leaving the group and its other tools alone, and the
    /// groups as they are when there is no default group).
    pub fn set_tool_allowed_for_default_group(&mut self, tool: &str, allowed: bool)
        requires
            old(self).wf(),
        ensures
            final(self).wf(),
            final(self).roles() == allow_in_default(old(self).roles(), tool@, allowed),
            final(self).scene_groups == old(self).scene_groups,
            final(self).scene_mapping == old(self).scene_mapping,
            final(self).available_tools == old(self).available_tools,
    {
        let ghost rv = self.roles();
        let ghost m0 = self.role_groups.map();
        if !allowed && !self.role_groups.contains_key(DEFAULT_ROLE_GROUP) {
            return;
        }
        let mut g = match self.role_groups.remove(DEFAULT_ROLE_GROUP) {
            Some(g) => g,
            None => GroupPermission::default(),
        };
        proof {
            if m0.dom().contains(DEFAULT_ROLE_GROUP@) {
                assert(g@ == rv[DEFAULT_ROLE_GROUP@]);
                assert(g.wf());
            }
        }
        if allowed {
            g.enabled = true;
            g.tools.insert(tool);
        } else {
            g.tools.remove(tool);
        }
        self.role_groups.insert(DEFAULT_ROLE_GROUP, g);
        proof {
            assert(self.role_groups.map() == m0.remove(DEFAULT_ROLE_GROUP@).insert(DEFAULT_ROLE_GROUP@, g));
            assert(self.roles() =~= allow_in_default(rv, tool@, allowed));
        }
    }

    /// Replaces the list of available tools (shown to the user only).
    pub fn set_available_tools(&mut self, tools: Vec<String>)
        ensures
            final(self).available_tools == tools,
            final(self).scene_mapping == old(self).scene_mapping,
            final(self).scene_groups == old(self).scene_groups,
            final(self).role_groups == old(self).role_groups,
    {
        self.available_tools = tools;
    }
}

/// The scene mapping of a new configuration.
pub open spec fn default_mapping() -> Seq<(GeneratorSourceKey, Seq<char>)> {
    seq![
        (GeneratorSourceKey::UserChat, "scene_admin"@),
        (GeneratorSourceKey::Proactive, "scene_normal"@),
        (GeneratorSourceKey::ScriptFreeDialogue, "scene_normal"@),
        (GeneratorSourceKey::ScriptAiDialogue, "scene_default"@),
        (GeneratorSourceKey::EntryGreeting, "scene_default"@),
    ]
}

/// The mapping as plain values.
pub open spec fn mapping_view(m: Seq<(GeneratorSourceKey, String)>) -> Seq<(GeneratorSourceKey, Seq<char>)> {
    m.map_values(|p: (GeneratorSourceKey, String)| (p.0, p.1@))
}

/// The scene groups of a new configuration: the admin scene allows every
/// tool, the normal scene the listed ones, the default scene none.
pub open spec fn default_scenes(tools: Set<Seq<char>>) -> Map<Seq<char>, PermView> {
    map![
        "scene_admin"@ => PermView { enabled: true, tools, all_tools: true },
        "scene_normal"@ => PermView { enabled: true, tools, all_tools: false },
        "scene_default"@ => PermView { enabled: false, tools: Set::empty(), all_tools: false },
    ]
}

impl ToolPermissionConfig {
    /// A new configuration for the given tools.
    pub fn with_default_tools(tool_names: &Vec<String>) -> (r: Self)
        ensures
            r.wf(),
            r.available_tools@.len() == 0,
            mapping_view(r.scene_mapping@) == default_mapping(),
            r.scenes() == default_scenes(item_views(tool_names@).to_set()),
            r.roles() == map![DEFAULT_ROLE_GROUP@ => closed_group()],
    {
        let mut scene_mapping: Vec<(GeneratorSourceKey, String)> = Vec::new();
        scene_mapping.push((GeneratorSourceKey::UserChat, owned("scene_admin")));
        scene_mapping.push((GeneratorSourceKey::Proactive, owned("scene_normal")));
        scene_mapping.push((GeneratorSourceKey::ScriptFreeDialogue, owned("scene_normal")));
        scene_mapping.push((GeneratorSourceKey::ScriptAiDialogue, owned("scene_default")));
        scene_mapping.push((GeneratorSourceKey::EntryGreeting, owned("scene_default")));
        let mut scene_groups: StrMap<ToolPermission> = StrMap::new();
        scene_groups.insert("scene_admin", ToolPermission { enabled: true, tools: StrSet::from_vec(tool_names), all_tools: true });
        scene_groups.insert("scene_normal", ToolPermission { enabled: true, tools: StrSet::from_vec(tool_names), all_tools: false });
        scene_groups.insert("scene_default", ToolPermission { enabled: false, tools: StrSet::new(), all_tools: false });
        let mut role_groups: StrMap<GroupPermission> = StrMap::new();
        role_groups.insert(DEFAULT_ROLE_GROUP, GroupPermission { enabled: false, tools: StrSet::new(), all_tools: false, roles: StrSet::new() });
        let r = ToolPermissionConfig { available_tools: Vec::new(), scene_mapping, scene_groups, role_groups };
        proof {
            reveal_strlit("scene_admin");
            reveal_strlit("scene_normal");
            reveal_strlit("scene_default");
            assert(mapping_view(r.scene_mapping@) =~= default_mapping());
            assert(r.scenes() =~= default_scenes(item_views(tool_names@).to_set()));
            assert(r.roles() =~= map![DEFAULT_ROLE_GROUP@ => closed_group()]);
        }
        r
    }

    /// The configuration to use: the one read from disk if there was one,
    /// else a new one for the given tools, which then has to be saved
    /// (the second component).
    pub fn load_or_create(existing: Option<ToolPermissionConfig>, tool_names: &Vec<String>) -> (r: (ToolPermissionConfig, bool))
        ensures
            match existing {
                Some(c) => r.0 == c && !r.1,
                None => r.1 && r.0.wf() && r.0.available_tools@.len() == 0
                    && mapping_view(r.0.scene_mapping@) == default_mapping()
                    && r.0.scenes() == default_scenes(item_views(tool_names@).to_set())
                    && r.0.roles() == map![DEFAULT_ROLE_GROUP@ => closed_group()],
            },
    {
        match existing {
            Some(c) => (c, false),
            None => (Self::with_default_tools(tool_names), true),
        }
    }
}

/// The scene group a call source uses (`scene_default` when the mapping names none).
pub open spec fn scene_of(c: ToolPermissionConfig, source: GeneratorSourceKey) -> Seq<char> {
    match mapping_get(c.scene_mapping@, source) {
        Some(n) => n,
        None => "scene_default"@,
    }
}

/// `r` is the set of tools a role may use for a call from `source`: none
/// when the scene group is missing or disabled, when no role is given, or
/// when no role group holds the role; otherwise what the scene group and the
/// role's group allow together.
pub open spec fn allowed_ok(c: ToolPermissionConfig, source: GeneratorSourceKey, role: Option<Seq<char>>,
    all: Set<Seq<char>>, r: Set<Seq<char>>) -> bool {
    let name = scene_of(c, source);
    if !c.scenes().dom().contains(name) || !c.scenes()[name].enabled {
        r == Set::<Seq<char>>::empty()
    } else {
        match role {
            None => r == Set::<Seq<char>>::empty(),
            Some(role) => if !in_some_group(c.roles(), role) {
                r == Set::<Seq<char>>::empty()
            } else {
                exists|k: Seq<char>| c.roles().dom().contains(k) && (#[trigger] c.roles()[k]).roles.contains(role)
                    && r == combine(c.scenes()[name], c.roles()[k], all)
            },
        }
    }
}

/// The view of an optional string.
pub open spec fn opt_str(o: Option<&str>) -> Option<Seq<char>> {
    match o {
        Some(s) => Some(s@),
        None => None,
    }
}

impl ToolPermissionConfig {
    /// Index of the first role group that holds `role`.
    fn group_holding(&self, role: &str) -> (r: Option<usize>)
        requires
            self.wf(),
        ensures
            match r {
                Some(i) => i < self.role_groups.entries@.len()
                    && self.roles().dom().contains(self.role_groups.entries@[i as int].0@)
                    && self.roles()[self.role_groups.entries@[i as int].0@].roles.contains(role@),
                None => !in_some_group(self.roles(), role@),
            },
    {
        let mut i: usize = 0;
        while i < self.role_groups.entries.len()
            invariant
                self.wf(),
                i <= self.role_groups.entries@.len(),
                forall|j: int| 0 <= j < i ==> !(#[trigger] self.role_groups.entries@[j]).1.roles@.contains(role@),
            decreases self.role_groups.entries@.len() - i,
        {
            proof {
                lemma_entry_in_map(self.role_groups, i as int);
            }
            if self.role_groups.entries[i].1.roles.contains(role) {
                return Some(i);
            }
            i = i + 1;
        }
        proof {
            if in_some_group(self.roles(), role@) {
                let k = choose|k: Seq<char>| self.roles().dom().contains(k) && (#[trigger] self.roles()[k]).roles.contains(role@);
                let j = choose|j: int| 0 <= j < self.role_groups.entries@.len() && #[trigger] self.role_groups.entries@[j].0@ == k;
                lemma_entry_in_map(self.role_groups, j);
                assert(!self.role_groups.entries@[j].1.roles@.contains(role@));
            }
        }
        None
    }

    /// The name of the role group that holds `role`, if any.
    pub fn find_role_group(&self, role: &str) -> (r: Option<String>)
        requires
            self.wf(),
        ensures
            match r {
                Some(name) => self.roles().dom().contains(name@) && self.roles()[name@].roles.contains(role@),
                None => !in_some_group(self.roles(), role@),
            },
    {
        match self.group_holding(role) {
            Some(i) => Some(owned(self.role_groups.entries[i].0.as_str())),
            None => None,
        }
    }

    /// Puts every role that no group holds into the default group (creating
    /// it disabled if needed); returns whether any role was placed, in which
    /// case the configuration has to be saved.
    pub fn initialize_characters(&mut self, role_names: &Vec<String>) -> (changed: bool)
        requires
            old(self).wf(),
        ensures
            final(self).wf(),
            final(self).roles() == place_roles(old(self).roles(), item_views(role_names@)),
            changed == placed_any(old(self).roles(), item_views(role_names@)),
            final(self).scene_groups == old(self).scene_groups,
            final(self).scene_mapping == old(self).scene_mapping,
            final(self).available_tools == old(self).available_tools,
    {
        let ghost rv0 = self.roles();
        let ghost names = item_views(role_names@);
        let mut changed = false;
        let mut i: usize = 0;
        while i < role_names.len()
            invariant
                i <= role_names@.len(),
                names == item_views(role_names@),
                self.wf(),
                self.roles() == place_roles(rv0, names.subrange(0, i as int)),
                changed == placed_any(rv0, names.subrange(0, i as int)),
                self.scene_groups == old(self).scene_groups,
                self.scene_mapping == old(self).scene_mapping,
                self.available_tools == old(self).available_tools,
            decreases role_names@.len() - i,
        {
            let role = role_names[i].as_str();
            let ghost prev = self.roles();
            proof {
                assert(names.subrange(0, i + 1).drop_last() =~= names.subrange(0, i as int));
                assert(names.subrange(0, i + 1).last() == role@);
            }
            if self.group_holding(role).is_none() {
                let ghost m0 = self.role_groups.map();
                let mut g = match self.role_groups.remove(DEFAULT_ROLE_GROUP) {
                    Some(g) => g,
                    None => GroupPermission { enabled: false, tools: StrSet::new(), all_tools: false, roles: StrSet::new() },
                };
                proof {
                    if m0.dom().contains(DEFAULT_ROLE_GROUP@) {
                        assert(g@ == prev[DEFAULT_ROLE_GROUP@]);
                        assert(g.wf());
                    }
                }
                g.roles.insert(role);
                self.role_groups.insert(DEFAULT_ROLE_GROUP, g);
                changed = true;
                proof {
                    assert(self.role_groups.map() == m0.remove(DEFAULT_ROLE_GROUP@).insert(DEFAULT_ROLE_GROUP@, g));
                    assert(self.roles() =~= place_roles(rv0, names.subrange(0, i + 1)));
                }
            }
            i = i + 1;
        }
        proof {
            assert(names.subrange(0, role_names@.len() as int) =~= names);
        }
        changed
    }

    /// The scene group a call from `source` uses.
    fn scene_name_for(&self, source: GeneratorSourceKey) -> (r: &str)
        ensures
            r@ == scene_of(*self, source),
    {
        let ghost m = self.scene_mapping@;
        let mut k: usize = 0;
        proof {
            assert(m.subrange(0, m.len() as int) =~= m);
        }
        while k < self.scene_mapping.len()
            invariant
                k <= m.len(),
                m == self.scene_mapping@,
                mapping_get(m, source) == mapping_get(m.subrange(k as int, m.len() as int), source),
            decreases m.len() - k,
        {
            let ghost rest = m.subrange(k as int, m.len() as int);
            proof {
                assert(rest[0] == m[k as int]);
                assert(rest.drop_first() =~= m.subrange(k + 1, m.len() as int));
            }
            if self.scene_mapping[k].0 == source {
                return self.scene_mapping[k].1.as_str();
            }
            k = k + 1;
        }
        proof {
            reveal_strlit("scene_default");
            assert(m.subrange(k as int, m.len() as int) =~= Seq::<(GeneratorSourceKey, String)>::empty());
        }
        "scene_default"
    }

    /// The tools a role may use for a call from `source`; `all_names` is
    /// every tool, used when a group allows all tools.
    pub fn allowed_tools(&self, source: GeneratorSourceKey, role_name: Option<&str>, all_names: &StrSet) -> (r: StrSet)
        requires
            self.wf(),
            all_names.wf(),
        ensures
            r.wf(),
            allowed_ok(*self, source, opt_str(role_name), all_names@, r@),
    {
        let scene_name = self.scene_name_for(source);
        let scene = match self.scene_groups.get(scene_name) {
            Some(s) => s,
            None => { return StrSet::new(); },
        };
        proof {
            assert(scene_name@ == scene_of(*self, source));
            assert(scene@ == self.scenes()[scene_name@]);
            assert(scene.wf());
        }
        if !scene.enabled {
            return StrSet::new();
        }
        let role = match role_name {
            Some(r) => r,
            None => { return StrSet::new(); },
        };
        let gi = match self.group_holding(role) {
            Some(i) => i,
            None => { return StrSet::new(); },
        };
        let group = &self.role_groups.entries[gi].1;
        proof {
            lemma_entry_in_map(self.role_groups, gi as int);
            assert(group.wf());
        }
        let ghost gk = self.role_groups.entries@[gi as int].0@;
        let r = if !group.enabled {
            StrSet::new()
        } else if group.all_tools {
            if scene.all_tools || scene.tools.is_empty() { all_names.copy() } else { scene.tools.copy() }
        } else if scene.all_tools {
            if group.tools.is_empty() { all_names.copy() } else { group.tools.copy() }
        } else {
            scene.tools.intersection(&group.tools)
        };
        proof {
            assert(self.roles()[gk] == group@);
            assert(r@ == combine(self.scenes()[scene_name@], self.roles()[gk], all_names@));
        }
        r
    }
}

pub const MSG_SCENE_GROUP_PRE: &'static str = "场景组 '";
pub const MSG_ROLE_GROUP_PRE: &'static str = "角色组 '";
pub const MSG_MISSING_POST: &'static str = "' 不存在";
pub const MSG_EXISTS_POST: &'static str = "' 已存在";
pub const MSG_DEFAULT_UNDELETABLE: &'static str = "不能删除默认角色组 'default'";
pub const MSG_ROLE_PRE: &'static str = "角色 '";
pub const MSG_NOT_IN_GROUP_MID: &'static str = "' 不在组 '";
pub const MSG_NOT_IN_GROUP_POST: &'static str = "' 中";

/// A role group without `role`.
pub open spec fn without_role(g: GroupView, role: Seq<char>) -> GroupView {
    GroupView { roles: g.roles.remove(role), ..g }
}

/// The role groups after moving `role` into `group`: no other group holds it.
pub open spec fn moved_role(rv: Map<Seq<char>, GroupView>, group: Seq<char>, role: Seq<char>) -> Map<Seq<char>, GroupView> {
    Map::new(|k: Seq<char>| rv.dom().contains(k), |k: Seq<char>|
        if k == group {
            GroupView { roles: rv[k].roles.remove(role).insert(role), ..rv[k] }
        } else {
            without_role(rv[k], role)
        })
}

impl ToolPermissionConfig {
    /// The scene group `name`.
    pub fn get_scene_group(&self, name: &str) -> (r: Option<&ToolPermission>)
        requires
            self.wf(),
        ensures
            r is Some <==> self.scenes().dom().contains(name@),
            r is Some ==> r->0@ == self.scenes()[name@],
    {
        self.scene_groups.get(name)
    }

    /// Creates or replaces the scene group `name`.
    pub fn set_scene_group(&mut self, name: &str, permission: ToolPermission)
        requires
            old(self).wf(),
            permission.wf(),
        ensures
            final(self).wf(),
            final(self).scenes() == old(self).scenes().insert(name@, permission@),
            final(self).role_groups == old(self).role_groups,
            final(self).scene_mapping == old(self).scene_mapping,
            final(self).available_tools == old(self).available_tools,
    {
        let ghost p = permission@;
        self.scene_groups.insert(name, permission);
        assert(self.scenes() =~= old(self).scenes().insert(name@, p));
    }

    /// Deletes the scene group `name`; fails when there is none.
    pub fn delete_scene_group(&mut self, name: &str) -> (r: Result<(), String>)
        requires
            old(self).wf(),
        ensures
            final(self).wf(),
            r is Ok <==> old(self).scenes().dom().contains(name@),
            r is Ok ==> final(self).scenes() == old(self).scenes().remove(name@),
            r is Err ==> final(self).scenes() == old(self).scenes()
                && r->Err_0@ == MSG_SCENE_GROUP_PRE@ + name@ + MSG_MISSING_POST@,
            final(self).role_groups == old(self).role_groups,
            final(self).scene_mapping == old(self).scene_mapping,
            final(self).available_tools == old(self).available_tools,
    {
        match self.scene_groups.remove(name) {
            Some(_) => {
                assert(self.scenes() =~= old(self).scenes().remove(name@));
                Ok(())
            },
            None => {
                assert(self.scenes() =~= old(self).scenes());
                Err(cat3(MSG_SCENE_GROUP_PRE, name, MSG_MISSING_POST))
            },
        }
    }

    /// Creates the role group `name`; fails when it exists.
    pub fn create_role_group(&mut self, name: &str, permission: GroupPermission) -> (r: Result<(), String>)
        requires
            old(self).wf(),
            permission.wf(),
        ensures
            final(self).wf(),
            r is Ok <==> !old(self).roles().dom().contains(name@),
            r is Ok ==> final(self).roles() == old(self).roles().insert(name@, permission@),
            r is Err ==> final(self).roles() == old(self).roles()
                && r->Err_0@ == MSG_ROLE_GROUP_PRE@ + name@ + MSG_EXISTS_POST@,
            final(self).scene_groups == old(self).scene_groups,
            final(self).scene_mapping == old(self).scene_mapping,
            final(self).available_tools == old(self).available_tools,
    {
        if self.role_groups.contains_key(name) {
            return Err(cat3(MSG_ROLE_GROUP_PRE, name, MSG_EXISTS_POST));
        }
        let ghost p = permission@;
        self.role_groups.insert(name, permission);
        assert(self.roles() =~= old(self).roles().insert(name@, p));
        Ok(())
    }

    /// Deletes the role group `name`; the default group cannot be deleted.
    pub fn delete_role_group(&mut self, name: &str) -> (r: Result<(), String>)
        requires
            old(self).wf(),
        ensures
            final(self).wf(),
            r is Ok <==> name@ != DEFAULT_ROLE_GROUP@ && old(self).roles().dom().contains(name@),
            r is Ok ==> final(self).roles() == old(self).roles().remove(name@),
            r is Err ==> final(self).roles() == old(self).roles(),
            r is Err && name@ == DEFAULT_ROLE_GROUP@ ==> r->Err_0@ == MSG_DEFAULT_UNDELETABLE@,
            r is Err && name@ != DEFAULT_ROLE_GROUP@ ==> r->Err_0@ == MSG_ROLE_GROUP_PRE@ + name@ + MSG_MISSING_POST@,
            final(self).scene_groups == old(self).scene_groups,
            final(self).scene_mapping == old(self).scene_mapping,
            final(self).available_tools == old(self).available_tools,
    {
        if str_eq(name, DEFAULT_ROLE_GROUP) {
            return Err(owned(MSG_DEFAULT_UNDELETABLE));
        }
        match self.role_groups.remove(name) {
            Some(_) => {
                assert(self.roles() =~= old(self).roles().remove(name@));
                Ok(())
            },
            None => {
                assert(self.roles() =~= old(self).roles());
                Err(cat3(MSG_ROLE_GROUP_PRE, name, MSG_MISSING_POST))
            },
        }
    }

    /// The roles of the role group `name`.
    pub fn get_role_group_roles(&self, name: &str) -> (r: Option<&StrSet>)
        requires
            self.wf(),
        ensures
            r is Some <==> self.roles().dom().contains(name@),
            r is Some ==> r->0@ == self.roles()[name@].roles,
    {
        match self.role_groups.get(name) {
            Some(g) => Some(&g.roles),
            None => None,
        }
    }

    /// The names of all role groups, each once.
    pub fn get_all_role_groups(&self) -> (r: Vec<String>)
        requires
            self.wf(),
        ensures
            item_views(r@).to_set() == self.roles().dom(),
            item_views(r@).no_duplicates(),
    {
        let r = self.role_groups.keys();
        proof {
            lemma_entry_keys_dom(self.role_groups);
            assert(item_views(r@) =~= entry_keys(self.role_groups.entries@));
            assert(self.roles().dom() =~= self.role_groups.map().dom());
            assert forall|i: int, j: int| 0 <= i < item_views(r@).len() && 0 <= j < item_views(r@).len() && i != j
                implies item_views(r@)[i] != item_views(r@)[j] by {
                assert(item_views(r@)[i] == self.role_groups.entries@[i].0@);
                assert(item_views(r@)[j] == self.role_groups.entries@[j].0@);
            }
        }
        r
    }

    /// Moves `role` into the role group `group`, out of every other group;
    /// fails when there is no such group.
    pub fn add_role_to_group(&mut self, group: &str, role: &str) -> (r: Result<(), String>)
        requires
            old(self).wf(),
        ensures
            final(self).wf(),
            r is Ok <==> old(self).roles().dom().contains(group@),
            r is Ok ==> final(self).roles() == moved_role(old(self).roles(), group@, role@),
            r is Err ==> final(self).roles() == old(self).roles()
                && r->Err_0@ == MSG_ROLE_GROUP_PRE@ + group@ + MSG_MISSING_POST@,
            final(self).scene_groups == old(self).scene_groups,
            final(self).scene_mapping == old(self).scene_mapping,
            final(self).available_tools == old(self).available_tools,
    {
        if !self.role_groups.contains_key(group) {
            return Err(cat3(MSG_ROLE_GROUP_PRE, group, MSG_MISSING_POST));
        }
        let ghost rv0 = self.roles();
        let keys = self.role_groups.keys();
        let ghost kv = item_views(keys@);
        proof {
            lemma_entry_keys_dom(self.role_groups);
            assert(kv =~= entry_keys(self.role_groups.entries@));
            assert(kv.to_set() =~= rv0.dom());
            assert forall|a: int, b: int| 0 <= a < kv.len() && 0 <= b < kv.len() && a != b implies kv[a] != kv[b] by {
                assert(kv[a] == self.role_groups.entries@[a].0@);
                assert(kv[b] == self.role_groups.entries@[b].0@);
            }
            assert(self.roles() =~= Map::new(|k: Seq<char>| rv0.dom().contains(k), |k: Seq<char>|
                if kv.subrange(0, 0).contains(k) { without_role(rv0[k], role@) } else { rv0[k] }));
        }
        let mut i: usize = 0;
        while i < keys.len()
            invariant
                i <= keys@.len(),
                kv == item_views(keys@),
                kv.to_set() == rv0.dom(),
                forall|a: int, b: int| 0 <= a < kv.len() && 0 <= b < kv.len() && a != b ==> kv[a] != kv[b],
                self.wf(),
                self.roles() == Map::new(|k: Seq<char>| rv0.dom().contains(k), |k: Seq<char>|
                    if kv.subrange(0, i as int).contains(k) { without_role(rv0[k], role@) } else { rv0[k] }),
                self.scene_groups == old(self).scene_groups,
                self.scene_mapping == old(self).scene_mapping,
                self.available_tools == old(self).available_tools,
            decreases keys@.len() - i,
        {
            let key = keys[i].as_str();
            let ghost m0 = self.role_groups.map();
            let ghost cur = self.roles();
            proof {
                assert(kv[i as int] == key@);
                assert(kv.to_set().contains(key@));
                assert(cur.dom().contains(key@));
                assert(!kv.subrange(0, i as int).contains(key@)) by {
                    if kv.subrange(0, i as int).contains(key@) {
                        let q = choose|q: int| 0 <= q < i && kv.subrange(0, i as int)[q] == key@;
                        assert(kv[q] == kv[i as int]);
                    }
                }
            }
            match self.role_groups.remove(key) {
                Some(g0) => {
                    let mut g = g0;
                    proof {
                        assert(g.wf());
                        assert(cur[key@] == m0[key@]@);
                        assert(cur[key@] == rv0[key@]);
                        assert(g@ == rv0[key@]);
                    }
                    let ghost gbefore = g@;
                    g.roles.remove(role);
                    self.role_groups.insert(key, g);
                    proof {
                        assert(g@ == without_role(gbefore, role@));
                        assert(self.role_groups.map() == m0.remove(key@).insert(key@, g));
                        assert forall|k: Seq<char>| self.roles().dom().contains(k) && k != key@ implies self.roles()[k] == cur[k] by {
                            assert(self.role_groups.map()[k] == m0[k]);
                        }
                        assert(kv.subrange(0, i + 1) =~= kv.subrange(0, i as int).push(key@));
                        assert forall|k: Seq<char>| kv.subrange(0, i + 1).contains(k) <==> (kv.subrange(0, i as int).contains(k) || k == key@) by {
                            kv.subrange(0, i as int).lemma_push_to_set_commute(key@);
                            assert(kv.subrange(0, i + 1).to_set().contains(k) == kv.subrange(0, i + 1).contains(k));
                            assert(kv.subrange(0, i as int).to_set().contains(k) == kv.subrange(0, i as int).contains(k));
                        }
                        let target = Map::new(|k: Seq<char>| rv0.dom().contains(k), |k: Seq<char>|
                            if kv.subrange(0, i + 1).contains(k) { without_role(rv0[k], role@) } else { rv0[k] });
                        assert(self.roles().dom() =~= target.dom());
                        assert forall|k: Seq<char>| target.dom().contains(k) implies self.roles()[k] == target[k] by {
                            if k == key@ {
                                assert(kv.subrange(0, i + 1).contains(k));
                                assert(self.roles()[k] == g@);
                            } else {
                                assert(self.roles()[k] == cur[k]);
                            }
                        }
                        assert(self.roles() =~= target);
                    }
                },
                None => {
                    proof {
                        assert(false);
                    }
                },
            }
            i = i + 1;
        }
        let ghost m1 = self.role_groups.map();
        let ghost cur = self.roles();
        proof {
            assert(kv.subrange(0, keys@.len() as int) =~= kv);
            assert(cur.dom().contains(group@));
        }
        match self.role_groups.remove(group) {
            Some(g0) => {
                let mut g = g0;
                proof {
                    assert(g.wf());
                }
                proof {
                    assert(cur[group@] == m1[group@]@);
                }
                let ghost gbefore = g@;
                g.roles.insert(role);
                self.role_groups.insert(group, g);
                proof {
                    assert(self.role_groups.map() == m1.remove(group@).insert(group@, g));
                    assert forall|k: Seq<char>| self.roles().dom().contains(k) && k != group@ implies self.roles()[k] == cur[k] by {
                        assert(self.role_groups.map()[k] == m1[k]);
                    }
                    assert(self.roles()[group@] == g@);
                    assert(g@ == GroupView { roles: gbefore.roles.insert(role@), ..gbefore });
                    assert forall|k: Seq<char>| rv0.dom().contains(k) implies cur[k] == without_role(rv0[k], role@) by {
                        assert(kv.to_set().contains(k));
                        assert(kv.contains(k));
                    }
                    let target = moved_role(rv0, group@, role@);
                    assert(self.roles().dom() =~= target.dom());
                    assert forall|k: Seq<char>| target.dom().contains(k) implies self.roles()[k] == target[k] by {
                        assert(cur[k] == without_role(rv0[k], role@));
                        if k == group@ {
                            assert(self.roles()[k] == g@);
                        } else {
                            assert(self.roles()[k] == cur[k]);
                        }
                    }
                    assert(self.roles() =~= target);
                }
            },
            None => {
                proof {
                    assert(false);
                }
            },
        }
        Ok(())
    }

    /// Takes `role` out of the role group `group`; fails when there is no
    /// such group or it does not hold the role.
    pub fn remove_role_from_group(&mut self, group: &str, role: &str) -> (r: Result<(), String>)
        requires
            old(self).wf(),
        ensures
            final(self).wf(),
            r is Ok <==> old(self).roles().dom().contains(group@) && old(self).roles()[group@].roles.contains(role@),
            r is Ok ==> final(self).roles() == old(self).roles().insert(group@, without_role(old(self).roles()[group@], role@)),
            r is Err ==> final(self).roles() == old(self).roles(),
            r is Err && !old(self).roles().dom().contains(group@) ==> r->Err_0@ == MSG_ROLE_GROUP_PRE@ + group@ + MSG_MISSING_POST@,
            r is Err && old(self).roles().dom().contains(group@) ==>
                r->Err_0@ == MSG_ROLE_PRE@ + role@ + MSG_NOT_IN_GROUP_MID@ + group@ + MSG_NOT_IN_GROUP_POST@,
            final(self).scene_groups == old(self).scene_groups,
            final(self).scene_mapping == old(self).scene_mapping,
            final(self).available_tools == old(self).available_tools,
    {
        let ghost m0 = self.role_groups.map();
        let ghost rv0 = self.roles();
        match self.role_groups.get(group) {
            None => {
                return Err(cat3(MSG_ROLE_GROUP_PRE, group, MSG_MISSING_POST));
            },
            Some(g) => {
                if !g.roles.contains(role) {
                    let mut msg = cat3(MSG_ROLE_PRE, role, MSG_NOT_IN_GROUP_MID);
                    msg.append(group);
                    msg.append(MSG_NOT_IN_GROUP_POST);
                    return Err(msg);
                }
            },
        }
        match self.role_groups.remove(group) {
            Some(g0) => {
                let mut g = g0;
                g.roles.remove(role);
                self.role_groups.insert(group, g);
                proof {
                    assert(self.role_groups.map() == m0.remove(group@).insert(group@, g));
                    assert(self.roles() =~= rv0.insert(group@, without_role(rv0[group@], role@)));
                }
            },
            None => {},
        }
        Ok(())
    }
}

// ---------- laws ----------

/// A role gets no tools unless a role group holds it: with no role, or with
/// a role that no group holds, the allowed set is empty.
pub proof fn law_no_group_no_tools(c: ToolPermissionConfig, source: GeneratorSourceKey, role: Option<Seq<char>>,
    all: Set<Seq<char>>, r: Set<Seq<char>>)
    requires
        allowed_ok(c, source, role, all, r),
        role is None || !in_some_group(c.roles(), role->0),
    ensures
        r == Set::<Seq<char>>::empty(),
{
}

/// Without `all_tools` on either side, a role may use exactly the tools
/// that both its scene group and its role group list.
pub proof fn law_allowed_is_intersection(s: PermView, g: GroupView, all: Set<Seq<char>>)
    requires
        g.enabled,
        !g.all_tools,
        !s.all_tools,
    ensures
        combine(s, g, all) == s.tools.intersect(g.tools),
{
}

/// Moving a role into a group leaves it in that group and in no other.
pub proof fn law_role_in_one_group(rv: Map<Seq<char>, GroupView>, group: Seq<char>, role: Seq<char>)
    requires
        rv.dom().contains(group),
    ensures
        forall|k: Seq<char>| #[trigger] moved_role(rv, group, role).dom().contains(k) ==>
            (moved_role(rv, group, role)[k].roles.contains(role) <==> k == group),
        moved_role(rv, group, role).dom() == rv.dom(),
{
    assert(moved_role(rv, group, role).dom() =~= rv.dom());
}

proof fn lemma_place_keeps(rv: Map<Seq<char>, GroupView>, roles: Seq<Seq<char>>, x: Seq<char>)
    requires
        in_some_group(rv, x),
    ensures
        in_some_group(place_roles(rv, roles), x),
    decreases roles.len(),
{
    if roles.len() > 0 {
        lemma_place_keeps(rv, roles.drop_last(), x);
        let prev = place_roles(rv, roles.drop_last());
        let role = roles.last();
        if !in_some_group(prev, role) {
            let k = choose|k: Seq<char>| prev.dom().contains(k) && (#[trigger] prev[k]).roles.contains(x);
            let next = place_roles(rv, roles);
            assert(next.dom().contains(k));
            assert(next[k].roles.contains(x));
        }
    }
}

/// After initialisation every listed role belongs to some role group.
pub proof fn law_initialize_places_every_role(rv: Map<Seq<char>, GroupView>, roles: Seq<Seq<char>>)
    ensures
        forall|i: int| 0 <= i < roles.len() ==> in_some_group(place_roles(rv, roles), #[trigger] roles[i]),
    decreases roles.len(),
{
    if roles.len() > 0 {
        let init = roles.drop_last();
        law_initialize_places_every_role(rv, init);
        let prev = place_roles(rv, init);
        let role = roles.last();
        assert forall|i: int| 0 <= i < roles.len() implies in_some_group(place_roles(rv, roles), #[trigger] roles[i]) by {
            if i < roles.len() - 1 {
                assert(roles[i] == init[i]);
                assert(in_some_group(prev, init[i]));
                lemma_place_keeps(prev, seq![role], roles[i]);
                assert(place_roles(prev, seq![role]) == place_roles(rv, roles)) by {
                    assert(seq![role].drop_last() =~= Seq::<Seq<char>>::empty());
                    assert(place_roles(prev, Seq::<Seq<char>>::empty()) == prev);
                    assert(seq![role].last() == role);
                }
            } else {
                let next = place_roles(rv, roles);
                if !in_some_group(prev, role) {
                    assert(next.dom().contains(DEFAULT_ROLE_GROUP@));
                    assert(next[DEFAULT_ROLE_GROUP@].roles.contains(role));
                }
            }
        }
    }
}

/// Placing roles that every group already places changes nothing and
/// places none.
proof fn lemma_place_all_held(rv: Map<Seq<char>, GroupView>, roles: Seq<Seq<char>>)
    requires
        forall|i: int| 0 <= i < roles.len() ==> in_some_group(rv, #[trigger] roles[i]),
    ensures
        place_roles(rv, roles) == rv,
        !placed_any(rv, roles),
    decreases roles.len(),
{
    if roles.len() > 0 {
        let init = roles.drop_last();
        assert forall|i: int| 0 <= i < init.len() implies in_some_group(rv, #[trigger] init[i]) by {
            assert(init[i] == roles[i]);
        }
        lemma_place_all_held(rv, init);
        assert(in_some_group(rv, roles[roles.len() - 1]));
    }
}

/// Initialising the same roles a second time changes nothing and reports
/// no change, so nothing has to be saved.
pub proof fn law_initialize_twice_changes_nothing(rv: Map<Seq<char>, GroupView>, roles: Seq<Seq<char>>)
    ensures
        place_roles(place_roles(rv, roles), roles) == place_roles(rv, roles),
        !placed_any(place_roles(rv, roles), roles),
{
    law_initialize_places_every_role(rv, roles);
    lemma_place_all_held(place_roles(rv, roles), roles);
}

/// Withdrawing a tool from the default role group only takes that tool off
/// its list: the group stays as enabled (or disabled) as it was, keeps its
/// other tools, its all-tools flag and its roles, and every other group is
/// untouched; with no default group nothing changes.
pub proof fn law_withdraw_only_removes_the_tool(rv: Map<Seq<char>, GroupView>, tool: Seq<char>)
    ensures
        rv.dom().contains(DEFAULT_ROLE_GROUP@) ==> {
            let r = allow_in_default(rv, tool, false);
            &&& r.dom() == rv.dom()
            &&& r[DEFAULT_ROLE_GROUP@].enabled == rv[DEFAULT_ROLE_GROUP@].enabled
            &&& r[DEFAULT_ROLE_GROUP@].tools == rv[DEFAULT_ROLE_GROUP@].tools.remove(tool)
            &&& r[DEFAULT_ROLE_GROUP@].all_tools == rv[DEFAULT_ROLE_GROUP@].all_tools
            &&& r[DEFAULT_ROLE_GROUP@].roles == rv[DEFAULT_ROLE_GROUP@].roles
            &&& forall|k: Seq<char>| k != DEFAULT_ROLE_GROUP@ && #[trigger] rv.dom().contains(k) ==> r[k] == rv[k]
        },
        !rv.dom().contains(DEFAULT_ROLE_GROUP@) ==> allow_in_default(rv, tool, false) == rv,
{
    if rv.dom().contains(DEFAULT_ROLE_GROUP@) {
        let r = allow_in_default(rv, tool, false);
        assert(r.dom() =~= rv.dom());
    }
}

/// Allowing a tool in the default role group enables the group (making it,
/// with no tools or roles, when it does not exist) and adds the tool to its
/// list; its other tools, flags and roles and every other group stay.
pub proof fn law_allow_enables_and_adds(rv: Map<Seq<char>, GroupView>, tool: Seq<char>)
    ensures
        ({
            let r = allow_in_default(rv, tool, true);
            &&& r.dom() == rv.dom().insert(DEFAULT_ROLE_GROUP@)
            &&& r[DEFAULT_ROLE_GROUP@].enabled
            &&& r[DEFAULT_ROLE_GROUP@].tools.contains(tool)
            &&& forall|k: Seq<char>| k != DEFAULT_ROLE_GROUP@ && #[trigger] rv.dom().contains(k) ==> r[k] == rv[k]
        }),
        rv.dom().contains(DEFAULT_ROLE_GROUP@) ==> {
            let r = allow_in_default(rv, tool, true);
            &&& r[DEFAULT_ROLE_GROUP@].tools == rv[DEFAULT_ROLE_GROUP@].tools.insert(tool)
            &&& r[DEFAULT_ROLE_GROUP@].all_tools == rv[DEFAULT_ROLE_GROUP@].all_tools
            &&& r[DEFAULT_ROLE_GROUP@].roles == rv[DEFAULT_ROLE_GROUP@].roles
        },
        !rv.dom().contains(DEFAULT_ROLE_GROUP@) ==> {
            let r = allow_in_default(rv, tool, true);
            &&& r[DEFAULT_ROLE_GROUP@].tools == Set::<Seq<char>>::empty().insert(tool)
            &&& !r[DEFAULT_ROLE_GROUP@].all_tools
            &&& r[DEFAULT_ROLE_GROUP@].roles == Set::<Seq<char>>::empty()
        },
{
    let r = allow_in_default(rv, tool, true);
    assert(r.dom() =~= rv.dom().insert(DEFAULT_ROLE_GROUP@));
}

} // verus!
