//! The tool registry's bookkeeping: the names of the registered tools in
//! registration order, and the permission configuration it starts with.
use vstd::prelude::*;
use crate::text::{owned, str_eq, views};
use crate::strset::{StrSet, item_views};
use crate::tools::RegistryError;
use crate::permissions::{ToolPermissionConfig, place_roles, mapping_view, default_mapping, default_scenes, closed_group, DEFAULT_ROLE_GROUP};
use crate::settings::{ToolSettings, apply_allow, sync_pairs};

verus! {

/// The built-in tools, in the order they are registered.
pub open spec fn builtin_names() -> Seq<Seq<char>> {
    seq![
        "get_current_time"@, "bilibili_search_videos"@, "bilibili_learn_video"@, "bilibili_search_knowledge"@,
        "netmusic_search"@, "netmusic_recommend"@, "web_search"@,
        "schedule_get_all"@, "schedule_add_todo"@, "schedule_update_todo"@, "schedule_delete_todo"@,
        "memory_get_current"@, "memory_get_notes"@, "memory_add_note"@, "memory_update_note"@, "memory_delete_note"@,
        "status_get_current"@, "status_get_scene"@, "scene_list"@, "scene_switch"@,
        "character_list"@, "character_switch"@, "list_skills"@, "read_skill"@,
        "list_files"@, "read_file"@, "write_file"@, "delete_file"@, "edit_file"@, "search_files"@, "grep_files"@,
        "execute_command"@,
    ]
}

/// The names of the built-in tools, in registration order.
pub fn built_in_tool_names() -> (r: Vec<&'static str>)
    ensures
        crate::editor::texts(r@) == builtin_names(),
{
    let r: Vec<&'static str> = vec![
        "get_current_time", "bilibili_search_videos", "bilibili_learn_video", "bilibili_search_knowledge",
        "netmusic_search", "netmusic_recommend", "web_search",
        "schedule_get_all", "schedule_add_todo", "schedule_update_todo", "schedule_delete_todo",
        "memory_get_current", "memory_get_notes", "memory_add_note", "memory_update_note", "memory_delete_note",
        "status_get_current", "status_get_scene", "scene_list", "scene_switch",
        "character_list", "character_switch", "list_skills", "read_skill",
        "list_files", "read_file", "write_file", "delete_file", "edit_file", "search_files", "grep_files",
        "execute_command",
    ];
    assert(crate::editor::texts(r@) =~= builtin_names());
    r
}

/// The names of `s` other than `name`, in order.
pub open spec fn without_name(s: Seq<Seq<char>>, name: Seq<char>) -> Seq<Seq<char>>
    decreases s.len(),
{
    if s.len() == 0 {
        s
    } else if s.last() == name {
        without_name(s.drop_last(), name)
    } else {
        without_name(s.drop_last(), name).push(s.last())
    }
}

/// The names of `s` that `allowed` holds, in order.
pub open spec fn allowed_names(s: Seq<Seq<char>>, allowed: Set<Seq<char>>) -> Seq<Seq<char>>
    decreases s.len(),
{
    if s.len() == 0 {
        s
    } else if allowed.contains(s.last()) {
        allowed_names(s.drop_last(), allowed).push(s.last())
    } else {
        allowed_names(s.drop_last(), allowed)
    }
}

proof fn lemma_without_name_props(s: Seq<Seq<char>>, name: Seq<char>)
    ensures
        forall|x: Seq<char>| without_name(s, name).contains(x) <==> (s.contains(x) && x != name),
        s.no_duplicates() ==> without_name(s, name).no_duplicates(),
    decreases s.len(),
{
    if s.len() > 0 {
        let t = s.drop_last();
        lemma_without_name_props(t, name);
        assert forall|x: Seq<char>| s.contains(x) <==> (t.contains(x) || x == s.last()) by {
            if s.contains(x) {
                let k = choose|k: int| 0 <= k < s.len() && s[k] == x;
                if k < t.len() {
                    assert(t[k] == x);
                }
            }
            if t.contains(x) {
                let k = choose|k: int| 0 <= k < t.len() && t[k] == x;
                assert(s[k] == x);
            }
            if x == s.last() {
                assert(s[s.len() - 1] == x);
            }
        }
        let w = without_name(t, name);
        if s.last() != name {
            assert forall|x: Seq<char>| w.push(s.last()).contains(x) <==> (w.contains(x) || x == s.last()) by {
                if w.push(s.last()).contains(x) {
                    let k = choose|k: int| 0 <= k < w.push(s.last()).len() && w.push(s.last())[k] == x;
                    if k < w.len() {
                        assert(w[k] == x);
                    }
                }
                if w.contains(x) {
                    let k = choose|k: int| 0 <= k < w.len() && w[k] == x;
                    assert(w.push(s.last())[k] == x);
                }
                if x == s.last() {
                    assert(w.push(s.last())[w.len() as int] == x);
                }
            }
            if s.no_duplicates() {
                assert(t.no_duplicates()) by {
                    assert forall|i: int, j: int| 0 <= i < t.len() && 0 <= j < t.len() && i != j implies t[i] != t[j] by {
                        assert(s[i] == t[i] && s[j] == t[j]);
                    }
                }
                assert(!t.contains(s.last())) by {
                    if t.contains(s.last()) {
                        let k = choose|k: int| 0 <= k < t.len() && t[k] == s.last();
                        assert(s[k] == s[s.len() - 1]);
                    }
                }
                assert(!w.contains(s.last()));
                let p = w.push(s.last());
                assert forall|i: int, j: int| 0 <= i < p.len() && 0 <= j < p.len() && i != j implies p[i] != p[j] by {
                    if i < w.len() && j < w.len() {
                        assert(p[i] == w[i] && p[j] == w[j]);
                    } else if i < w.len() {
                        assert(p[i] == w[i]);
                        assert(w.contains(w[i]));
                    } else if j < w.len() {
                        assert(p[j] == w[j]);
                        assert(w.contains(w[j]));
                    }
                }
            }
        } else {
            if s.no_duplicates() {
                assert forall|i: int, j: int| 0 <= i < t.len() && 0 <= j < t.len() && i != j implies t[i] != t[j] by {
                    assert(s[i] == t[i] && s[j] == t[j]);
                }
            }
        }
    }
}

/// The names of the registered tools, in registration order.
pub struct ToolNames {
    pub order: Vec<String>,
}

impl ToolNames {
    /// The names, in order.
    pub open spec fn names(&self) -> Seq<Seq<char>> {
        views(self.order@)
    }

    /// No name is registered twice.
    pub open spec fn wf(&self) -> bool {
        self.names().no_duplicates()
    }

    /// An empty registry.
    pub fn new() -> (r: ToolNames)
        ensures
            r.wf(),
            r.names() == Seq::<Seq<char>>::empty(),
    {
        let r = ToolNames { order: Vec::new() };
        assert(r.names() =~= Seq::<Seq<char>>::empty());
        r
    }

    /// Whether a tool of that name is registered.
    pub fn contains(&self, name: &str) -> (r: bool)
        ensures
            r == self.names().contains(name@),
    {
        let mut i: usize = 0;
        while i < self.order.len()
            invariant
                i <= self.order@.len(),
                forall|j: int| 0 <= j < i ==> self.names()[j] != name@,
            decreases self.order@.len() - i,
        {
            if str_eq(self.order[i].as_str(), name) {
                assert(self.names()[i as int] == name@);
                return true;
            }
            i = i + 1;
        }
        false
    }

    /// Registers a tool name at the end; a name already registered is refused.
    pub fn register(&mut self, name: &str) -> (r: Result<(), RegistryError>)
        requires
            old(self).wf(),
        ensures
            final(self).wf(),
            old(self).names().contains(name@) ==> r is Err && final(self).names() == old(self).names()
                && (match r { Err(RegistryError::DuplicateName(n)) => n@ == name@, _ => false }),
            !old(self).names().contains(name@) ==> r is Ok && final(self).names() == old(self).names().push(name@),
    {
        if self.contains(name) {
            return Err(RegistryError::DuplicateName(owned(name)));
        }
        let ghost n0 = self.names();
        self.order.push(owned(name));
        proof {
            assert(self.names() =~= n0.push(name@));
            let p = self.names();
            assert forall|i: int, j: int| 0 <= i < p.len() && 0 <= j < p.len() && i != j implies p[i] != p[j] by {
                if i < n0.len() && j < n0.len() {
                    assert(p[i] == n0[i] && p[j] == n0[j]);
                } else if i < n0.len() {
                    assert(p[i] == n0[i]);
                    assert(n0.contains(n0[i]));
                } else if j < n0.len() {
                    assert(p[j] == n0[j]);
                    assert(n0.contains(n0[j]));
                }
            }
        }
        Ok(())
    }

    /// Removes a tool name (nothing happens when it is not registered); the
    /// other names keep their order.
    pub fn unregister(&mut self, name: &str)
        requires
            old(self).wf(),
        ensures
            final(self).wf(),
            final(self).names() == without_name(old(self).names(), name@),
    {
        let ghost n0 = self.names();
        let mut kept: Vec<String> = Vec::new();
        let mut i: usize = 0;
        while i < self.order.len()
            invariant
                i <= self.order@.len(),
                n0 == self.names(),
                views(kept@) == without_name(n0.subrange(0, i as int), name@),
            decreases self.order@.len() - i,
        {
            proof {
                assert(n0.subrange(0, i + 1).drop_last() =~= n0.subrange(0, i as int));
                assert(n0.subrange(0, i + 1).last() == self.order@[i as int]@);
            }
            if !str_eq(self.order[i].as_str(), name) {
                let ghost k0 = kept@;
                kept.push(owned(self.order[i].as_str()));
                assert(views(kept@) =~= views(k0).push(self.order@[i as int]@));
            }
            i = i + 1;
        }
        assert(n0.subrange(0, n0.len() as int) =~= n0);
        self.order = kept;
        proof {
            lemma_without_name_props(n0, name@);
        }
    }

    /// The registered names that `allowed` holds, in registration order.
    pub fn names_for_allowed(&self, allowed: &StrSet) -> (r: Vec<String>)
        requires
            allowed.wf(),
        ensures
            views(r@) == allowed_names(self.names(), allowed@),
    {
        let ghost n0 = self.names();
        let mut out: Vec<String> = Vec::new();
        let mut i: usize = 0;
        while i < self.order.len()
            invariant
                i <= self.order@.len(),
                allowed.wf(),
                n0 == self.names(),
                views(out@) == allowed_names(n0.subrange(0, i as int), allowed@),
            decreases self.order@.len() - i,
        {
            proof {
                assert(n0.subrange(0, i + 1).drop_last() =~= n0.subrange(0, i as int));
                assert(n0.subrange(0, i + 1).last() == self.order@[i as int]@);
            }
            if allowed.contains(self.order[i].as_str()) {
                let ghost o0 = out@;
                out.push(owned(self.order[i].as_str()));
                assert(views(out@) =~= views(o0).push(self.order@[i as int]@));
            }
            i = i + 1;
        }
        assert(n0.subrange(0, n0.len() as int) =~= n0);
        out
    }

    /// The registered names, as a set.
    pub fn all_names(&self) -> (r: StrSet)
        ensures
            r.wf(),
            r@ == self.names().to_set(),
    {
        let r = StrSet::from_vec(&self.order);
        assert(item_views(self.order@) =~= self.names());
        r
    }
}

/// The permission configuration the registry starts with: the one read
/// from disk (else a new one for the registered tools), listing the
/// registered tools as available, with every role placed in a group, and
/// with the tool settings written into the default role group.
pub fn startup_permissions(existing: Option<ToolPermissionConfig>, tool_names: &Vec<String>, role_names: &Vec<String>,
    settings: &ToolSettings) -> (r: ToolPermissionConfig)
    requires
        existing is Some ==> existing->0.wf(),
        settings.groups.wf(),
    ensures
        r.wf(),
        views(r.available_tools@) == views(tool_names@),
        match existing {
            Some(c) => r.roles() == apply_allow(place_roles(c.roles(), item_views(role_names@)), sync_pairs(*settings))
                && r.scene_groups == c.scene_groups && r.scene_mapping == c.scene_mapping,
            None => r.roles() == apply_allow(place_roles(map![DEFAULT_ROLE_GROUP@ => closed_group()], item_views(role_names@)), sync_pairs(*settings))
                && r.scenes() == default_scenes(item_views(tool_names@).to_set())
                && mapping_view(r.scene_mapping@) == default_mapping(),
        },
{
    let (mut c, _) = ToolPermissionConfig::load_or_create(existing, tool_names);
    let mut listed: Vec<String> = Vec::new();
    let mut i: usize = 0;
    while i < tool_names.len()
        invariant
            i <= tool_names@.len(),
            views(listed@) == views(tool_names@).subrange(0, i as int),
        decreases tool_names@.len() - i,
    {
        let ghost l0 = listed@;
        listed.push(owned(tool_names[i].as_str()));
        assert(views(listed@) =~= views(l0).push(tool_names@[i as int]@));
        assert(views(tool_names@).subrange(0, i + 1) =~= views(tool_names@).subrange(0, i as int).push(tool_names@[i as int]@));
        i = i + 1;
    }
    assert(views(tool_names@).subrange(0, tool_names@.len() as int) =~= views(tool_names@));
    c.set_available_tools(listed);
    c.initialize_characters(role_names);
    settings.sync_to_permissions(&mut c);
    c
}

/// Adds plugin tools to the list of available tools shown to the user; the
/// list holds each name once (its order is not meaningful).
pub fn add_available_tools(perms: &mut ToolPermissionConfig, names: &Vec<String>)
    ensures
        views(final(perms).available_tools@).to_set() == views(old(perms).available_tools@).to_set() + views(names@).to_set(),
        views(final(perms).available_tools@).no_duplicates(),
        final(perms).scene_groups == old(perms).scene_groups,
        final(perms).role_groups == old(perms).role_groups,
        final(perms).scene_mapping == old(perms).scene_mapping,
{
    let mut merged = StrSet::from_vec(&perms.available_tools);
    let mut i: usize = 0;
    while i < names.len()
        invariant
            i <= names@.len(),
            merged.wf(),
            merged@ == views(old(perms).available_tools@).to_set() + views(names@).subrange(0, i as int).to_set(),
            perms.available_tools == old(perms).available_tools,
        decreases names@.len() - i,
    {
        merged.insert(names[i].as_str());
        proof {
            assert(views(names@).subrange(0, i + 1) =~= views(names@).subrange(0, i as int).push(names@[i as int]@));
            views(names@).subrange(0, i as int).lemma_push_to_set_commute(names@[i as int]@);
            assert(merged@ =~= views(old(perms).available_tools@).to_set() + views(names@).subrange(0, i + 1).to_set());
        }
        i = i + 1;
    }
    assert(views(names@).subrange(0, names@.len() as int) =~= views(names@));
    assert(item_views(perms.available_tools@) =~= views(perms.available_tools@));
    let list = merged.to_vec();
    proof {
        crate::strset::lemma_sorted_no_duplicates(item_views(list@));
        assert(item_views(list@) =~= views(list@));
    }
    perms.set_available_tools(list);
}

/// Removes plugin tools from the list of available tools shown to the user;
/// the list holds each name once (its order is not meaningful).
pub fn remove_available_tools(perms: &mut ToolPermissionConfig, names: &Vec<String>)
    ensures
        views(final(perms).available_tools@).to_set() == views(old(perms).available_tools@).to_set() - views(names@).to_set(),
        views(final(perms).available_tools@).no_duplicates(),
        final(perms).scene_groups == old(perms).scene_groups,
        final(perms).role_groups == old(perms).role_groups,
        final(perms).scene_mapping == old(perms).scene_mapping,
{
    let mut set = StrSet::from_vec(&perms.available_tools);
    let mut i: usize = 0;
    while i < names.len()
        invariant
            i <= names@.len(),
            set.wf(),
            set@ == views(old(perms).available_tools@).to_set() - views(names@).subrange(0, i as int).to_set(),
            perms.available_tools == old(perms).available_tools,
        decreases names@.len() - i,
    {
        set.remove(names[i].as_str());
        proof {
            assert(views(names@).subrange(0, i + 1) =~= views(names@).subrange(0, i as int).push(names@[i as int]@));
            views(names@).subrange(0, i as int).lemma_push_to_set_commute(names@[i as int]@);
            assert(set@ =~= views(old(perms).available_tools@).to_set() - views(names@).subrange(0, i + 1).to_set());
        }
        i = i + 1;
    }
    assert(views(names@).subrange(0, names@.len() as int) =~= views(names@));
    assert(item_views(perms.available_tools@) =~= views(perms.available_tools@));
    let list = set.to_vec();
    proof {
        crate::strset::lemma_sorted_no_duplicates(item_views(list@));
        assert(item_views(list@) =~= views(list@));
    }
    perms.set_available_tools(list);
}

proof fn lemma_without_absent(s: Seq<Seq<char>>, name: Seq<char>)
    requires
        !s.contains(name),
    ensures
        without_name(s, name) == s,
    decreases s.len(),
{
    if s.len() > 0 {
        assert(!s.drop_last().contains(name)) by {
            if s.drop_last().contains(name) {
                let k = choose|k: int| 0 <= k < s.drop_last().len() && s.drop_last()[k] == name;
                assert(s[k] == name);
            }
        }
        lemma_without_absent(s.drop_last(), name);
        assert(s.last() != name) by {
            assert(s[s.len() - 1] == s.last());
        }
        assert(s.drop_last().push(s.last()) =~= s);
    }
}

/// Unregistering a tool right after registering it gives back the tools
/// as they were, and the name is free to register again.
pub proof fn law_unregister_undoes_register(s: Seq<Seq<char>>, name: Seq<char>)
    requires
        !s.contains(name),
    ensures
        without_name(s.push(name), name) == s,
        !without_name(s.push(name), name).contains(name),
{
    assert(s.push(name).drop_last() =~= s);
    lemma_without_absent(s, name);
}

} // verus!
