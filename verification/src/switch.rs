//! The decisions of the switching tools: the role that `character_switch`
//! names and whether that role still needs its persona line, and the scene
//! that `scene_switch` names.
use vstd::prelude::*;
use crate::diag::opt_view;
use crate::json::{JsonValue, lookup, int_of, str_of};
use crate::notes::{ToolError, invalid, failed};
use crate::text::{cat, cat3, owned, str_eq, decimal, decimal_u64, join, join_strings, views};
use crate::types::{GameLine, LineAttribute};
use crate::scene::Scene;


verus! {

// ---------- character_switch ----------

pub const MSG_ROLE_ARGS_NOT_OBJECT: &'static str = "character_switch 参数必须是 JSON object";
pub const MSG_ROLE_NEEDS_ID: &'static str = "character_switch 需要整数 id";
pub const MSG_ROLE_ID_RANGE: &'static str = "character_switch 的 id 超出 i32 范围";

/// What `character_switch` makes of its arguments: an integer `id` that fits in `i32`.
pub open spec fn role_id_result(args: JsonValue, r: Result<i32, ToolError>) -> bool {
    match args {
        JsonValue::Object(m) => match int_of(lookup(m@, "id"@)) {
            None => r is Err && invalid(r->Err_0, MSG_ROLE_NEEDS_ID@),
            Some(n) => if i32::MIN <= n <= i32::MAX {
                r is Ok && r->Ok_0 == n
            } else {
                r is Err && invalid(r->Err_0, MSG_ROLE_ID_RANGE@)
            },
        },
        _ => r is Err && invalid(r->Err_0, MSG_ROLE_ARGS_NOT_OBJECT@),
    }
}

/// Reads the role id of `character_switch`.
pub fn parse_role_id(args: &JsonValue) -> (r: Result<i32, ToolError>)
    ensures
        role_id_result(*args, r),
{
    let m = match args {
        JsonValue::Object(m) => m,
        _ => { return Err(ToolError::InvalidArguments(owned(MSG_ROLE_ARGS_NOT_OBJECT))); },
    };
    let n = match crate::json::get(m, "id") {
        Some(JsonValue::Number(Some(n), _)) => *n,
        _ => { return Err(ToolError::InvalidArguments(owned(MSG_ROLE_NEEDS_ID))); },
    };
    if n < i32::MIN as i64 || n > i32::MAX as i64 {
        return Err(ToolError::InvalidArguments(owned(MSG_ROLE_ID_RANGE)));
    }
    Ok(n as i32)
}

/// A main role, as the switch lists it.
#[derive(Debug, Clone)]
pub struct RoleEntry {
    pub id: i32,
    pub name: String,
}

/// An integer in decimal, with a leading `-` when negative.
pub open spec fn signed_decimal(n: int) -> Seq<char> {
    if n < 0 { "-"@ + decimal((-n) as nat) } else { decimal(n as nat) }
}

fn signed_decimal_string(n: i32) -> (r: String)
    ensures
        r@ == signed_decimal(n as int),
{
    if n < 0 {
        let m: i64 = -(n as i64);
        let digits = decimal_u64(m as u64);
        cat("-", digits.as_str())
    } else {
        decimal_u64(n as u64)
    }
}

/// A role as `id=name`.
pub open spec fn role_label(r: RoleEntry) -> Seq<char> {
    signed_decimal(r.id as int) + "="@ + r.name@
}

pub const MSG_ROLE_MISSING_PRE: &'static str = "角色 id ";
pub const MSG_ROLE_MISSING_MID: &'static str = " 不存在，可用角色: ";

/// The refusal of a switch to a role that does not exist, listing the roles.
pub open spec fn missing_role(id: i32, roles: Seq<RoleEntry>) -> Seq<char> {
    MSG_ROLE_MISSING_PRE@ + signed_decimal(id as int) + MSG_ROLE_MISSING_MID@
        + join(roles.map_values(|r: RoleEntry| role_label(r)), ", "@)
}

/// The position of the first role with id `id`.
pub open spec fn first_role(roles: Seq<RoleEntry>, id: i32, k: int) -> bool {
    &&& 0 <= k < roles.len()
    &&& roles[k].id == id
    &&& forall|j: int| 0 <= j < k ==> (#[trigger] roles[j]).id != id
}

/// The name of the role to switch to; an execution error listing the
/// roles when none has the id.
pub fn find_role_name(roles: &Vec<RoleEntry>, id: i32) -> (r: Result<String, ToolError>)
    ensures
        (exists|k: int| first_role(roles@, id, k)) <==> r is Ok,
        r is Ok ==> exists|k: int| first_role(roles@, id, k) && r->Ok_0@ == roles@[k].name@,
        r is Err ==> failed(r->Err_0, missing_role(id, roles@)),
{
    let mut i: usize = 0;
    while i < roles.len()
        invariant
            i <= roles@.len(),
            forall|j: int| 0 <= j < i ==> (#[trigger] roles@[j]).id != id,
        decreases roles@.len() - i,
    {
        if roles[i].id == id {
            assert(first_role(roles@, id, i as int));
            return Ok(owned(roles[i].name.as_str()));
        }
        i = i + 1;
    }
    let mut labels: Vec<String> = Vec::new();
    let mut j: usize = 0;
    while j < roles.len()
        invariant
            j <= roles@.len(),
            views(labels@) == roles@.subrange(0, j as int).map_values(|r: RoleEntry| role_label(r)),
        decreases roles@.len() - j,
    {
        let head = signed_decimal_string(roles[j].id);
        let label = cat3(head.as_str(), "=", roles[j].name.as_str());
        let ghost l0 = labels@;
        labels.push(label);
        proof {
            assert(views(labels@) =~= views(l0).push(label@));
            assert(roles@.subrange(0, j + 1).map_values(|r: RoleEntry| role_label(r))
                =~= roles@.subrange(0, j as int).map_values(|r: RoleEntry| role_label(r)).push(role_label(roles@[j as int])));
        }
        j = j + 1;
    }
    proof {
        assert(roles@.subrange(0, roles@.len() as int) =~= roles@);
        assert forall|k: int| !first_role(roles@, id, k) by {
            if 0 <= k < roles@.len() {
                assert(roles@[k].id != id);
            }
        }
    }
    let list = join_strings(&labels, ", ");
    let head = signed_decimal_string(id);
    let msg = cat3(MSG_ROLE_MISSING_PRE, head.as_str(), MSG_ROLE_MISSING_MID);
    Err(ToolError::Execution(cat(msg.as_str(), list.as_str())))
}

/// Some system line of the history was said by the role: its persona is in
/// the conversation already.
pub open spec fn has_persona_line(lines: Seq<GameLine>, role_id: i32) -> bool {
    exists|i: int| 0 <= i < lines.len()
        && (#[trigger] lines[i]).base.attribute.0 == LineAttribute::System
        && lines[i].base.sender_role_id == Some(role_id)
}

/// Whether switching to the role has to add its persona line first.
pub fn needs_persona_line(lines: &Vec<GameLine>, role_id: i32) -> (r: bool)
    ensures
        r == !has_persona_line(lines@, role_id),
{
    let mut i: usize = 0;
    while i < lines.len()
        invariant
            i <= lines@.len(),
            forall|j: int| 0 <= j < i ==> !((#[trigger] lines@[j]).base.attribute.0 == LineAttribute::System
                && lines@[j].base.sender_role_id == Some(role_id)),
        decreases lines@.len() - i,
    {
        let line = &lines[i];
        let is_system = match line.attribute() {
            LineAttribute::System => true,
            _ => false,
        };
        let by_role = match line.sender_role_id() {
            Some(s) => s == role_id,
            None => false,
        };
        if is_system && by_role {
            return false;
        }
        i = i + 1;
    }
    true
}

// ---------- scene_switch ----------

pub const MSG_SCENE_ARGS_NOT_OBJECT: &'static str = "scene_switch 参数必须是 JSON object";
pub const MSG_SCENE_NEEDS_TARGET: &'static str = "scene_switch 需要提供 id 或 name";
pub const MSG_SCENE_NOT_FOUND: &'static str = "未找到场景: ";

/// What `scene_switch` makes of its arguments: its `id` and `name`, at least one given.
pub open spec fn scene_target_result(args: JsonValue, r: Result<(Option<String>, Option<String>), ToolError>) -> bool {
    match args {
        JsonValue::Object(m) => {
            let id = str_of(lookup(m@, "id"@));
            let name = str_of(lookup(m@, "name"@));
            if id is None && name is None {
                r is Err && invalid(r->Err_0, MSG_SCENE_NEEDS_TARGET@)
            } else {
                r is Ok && opt_view(r->Ok_0.0) == id && opt_view(r->Ok_0.1) == name
            }
        },
        _ => r is Err && invalid(r->Err_0, MSG_SCENE_ARGS_NOT_OBJECT@),
    }
}

fn str_arg(m: &Vec<(String, JsonValue)>, key: &str) -> (r: Option<String>)
    ensures
        opt_view(r) == str_of(lookup(m@, key@)),
{
    match crate::json::get(m, key) {
        Some(JsonValue::Str(s)) => Some(owned(s.as_str())),
        _ => None,
    }
}

/// Reads the target of `scene_switch`.
pub fn parse_scene_target(args: &JsonValue) -> (r: Result<(Option<String>, Option<String>), ToolError>)
    ensures
        scene_target_result(*args, r),
{
    let m = match args {
        JsonValue::Object(m) => m,
        _ => { return Err(ToolError::InvalidArguments(owned(MSG_SCENE_ARGS_NOT_OBJECT))); },
    };
    let id = str_arg(m, "id");
    let name = str_arg(m, "name");
    if id.is_none() && name.is_none() {
        return Err(ToolError::InvalidArguments(owned(MSG_SCENE_NEEDS_TARGET)));
    }
    Ok((id, name))
}

/// The first scene whose id (or, without an id, whose name) is the target.
pub open spec fn scene_matches<L>(s: Scene<L>, id: Option<Seq<char>>, name: Option<Seq<char>>) -> bool {
    match id {
        Some(i) => s.id@ == i,
        None => match name {
            Some(n) => s.name@ == n,
            None => false,
        },
    }
}

/// What a missing scene is called in the refusal: its id, else its name.
pub open spec fn target_text(id: Option<Seq<char>>, name: Option<Seq<char>>) -> Seq<char> {
    match id {
        Some(i) => i,
        None => match name {
            Some(n) => n,
            None => Seq::empty(),
        },
    }
}

/// What looking up the scene to switch to gives: the position of the first
/// scene that matches the target, or a refusal naming the target when none
/// does.
pub open spec fn switch_found<L>(scenes: Seq<Scene<L>>, id: Option<Seq<char>>, name: Option<Seq<char>>, r: Result<usize, ToolError>) -> bool {
    match r {
        Ok(k) => k < scenes.len()
            && scene_matches(scenes[k as int], id, name)
            && forall|j: int| 0 <= j < k ==> !scene_matches(#[trigger] scenes[j], id, name),
        Err(e) => failed(e, MSG_SCENE_NOT_FOUND@ + target_text(id, name))
            && forall|j: int| 0 <= j < scenes.len() ==> !scene_matches(#[trigger] scenes[j], id, name),
    }
}

/// Switching by name (no id given) picks the first scene of that name, and
/// does not fail when some scene has it; switching by id picks the first
/// scene with that id, whatever name is given, and does not fail when some
/// scene has it.
pub proof fn law_switch_picks_by_id_else_by_name<L>(scenes: Seq<Scene<L>>, id: Option<Seq<char>>, name: Option<Seq<char>>, r: Result<usize, ToolError>)
    requires
        switch_found(scenes, id, name, r),
    ensures
        id is None && name is Some ==> {
            &&& r matches Ok(k) ==> scenes[k as int].name@ == name->0
                && forall|j: int| 0 <= j < k ==> (#[trigger] scenes[j]).name@ != name->0
            &&& (exists|j: int| 0 <= j < scenes.len() && (#[trigger] scenes[j]).name@ == name->0) ==> r is Ok
        },
        id is Some ==> {
            &&& r matches Ok(k) ==> scenes[k as int].id@ == id->0
                && forall|j: int| 0 <= j < k ==> (#[trigger] scenes[j]).id@ != id->0
            &&& (exists|j: int| 0 <= j < scenes.len() && (#[trigger] scenes[j]).id@ == id->0) ==> r is Ok
        },
        id is None && name is None ==> r is Err,
{
    if id is None && name is Some {
        if exists|j: int| 0 <= j < scenes.len() && (#[trigger] scenes[j]).name@ == name->0 {
            let j = choose|j: int| 0 <= j < scenes.len() && (#[trigger] scenes[j]).name@ == name->0;
            assert(scene_matches(scenes[j], id, name));
        }
        if r is Ok {
            let k = r->Ok_0;
            assert forall|j: int| 0 <= j < k implies (#[trigger] scenes[j]).name@ != name->0 by {
                assert(!scene_matches(scenes[j], id, name));
            }
        }
    }
    if id is Some {
        if exists|j: int| 0 <= j < scenes.len() && (#[trigger] scenes[j]).id@ == id->0 {
            let j = choose|j: int| 0 <= j < scenes.len() && (#[trigger] scenes[j]).id@ == id->0;
            assert(scene_matches(scenes[j], id, name));
        }
        if r is Ok {
            let k = r->Ok_0;
            assert forall|j: int| 0 <= j < k implies (#[trigger] scenes[j]).id@ != id->0 by {
                assert(!scene_matches(scenes[j], id, name));
            }
        }
    }
}

/// The position of the scene to switch to: the first one with the id when
/// an id is given, else the first one with the name.
pub fn find_switch_scene<L>(scenes: &Vec<Scene<L>>, id: Option<&str>, name: Option<&str>) -> (r: Result<usize, ToolError>)
    ensures
        switch_found(scenes@, crate::archive::opt_text(id), crate::archive::opt_text(name), r),
{
    let ghost oid = crate::archive::opt_text(id);
    let ghost oname = crate::archive::opt_text(name);
    let mut i: usize = 0;
    while i < scenes.len()
        invariant
            i <= scenes@.len(),
            oid == crate::archive::opt_text(id),
            oname == crate::archive::opt_text(name),
            forall|j: int| 0 <= j < i ==> !scene_matches(#[trigger] scenes@[j], oid, oname),
        decreases scenes@.len() - i,
    {
        let hit = match id {
            Some(x) => str_eq(scenes[i].id.as_str(), x),
            None => match name {
                Some(n) => str_eq(scenes[i].name.as_str(), n),
                None => false,
            },
        };
        if hit {
            return Ok(i);
        }
        i = i + 1;
    }
    proof {
        reveal_strlit("");
    }
    let what: &str = match id {
        Some(x) => x,
        None => match name {
            Some(n) => n,
            None => "",
        },
    };
    assert(what@ == target_text(oid, oname)) by {
        if id is None && name is None {
            assert(""@ =~= Seq::<char>::empty());
        }
    }
    Err(ToolError::Execution(cat(MSG_SCENE_NOT_FOUND, what)))
}

} // verus!
