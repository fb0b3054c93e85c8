//! Scenes: the background file name a scene stores, the path shown for it,
//! and the edits of the scene list. The lighting of a scene is carried
//! through unread, as the type parameter `L`.
use vstd::prelude::*;
use crate::diag::opt_view;
use crate::text::{cat3, owned, str_eq};
use crate::tts_local::{join_path, path_joined};
use crate::editor::{lower_ext, texts};
use crate::text::views;

verus! {

// ---------- outside calls ----------

/// What `Path::file_name` gives for the path `p`, as text.
pub uninterp spec fn path_file_name(p: Seq<char>) -> Option<Seq<char>>;

/// What `Path::file_stem` gives for the path `p`, as text.
pub uninterp spec fn path_file_stem(p: Seq<char>) -> Option<Seq<char>>;

/// `Path::file_name` of `p`, converted to text; the result is named and not
/// spelled out (it depends on how the platform splits paths).
#[verifier::external_body]
pub(crate) fn file_name_of(p: &str) -> (r: Option<String>)
    ensures
        opt_view(r) == path_file_name(p@),
{
    std::path::Path::new(p).file_name().map(|n| n.to_string_lossy().into_owned())
}

/// `Path::file_stem` of `p`, converted to text; the result is named and not
/// spelled out.
#[verifier::external_body]
pub(crate) fn file_stem_of(p: &str) -> (r: Option<String>)
    ensures
        opt_view(r) == path_file_stem(p@),
{
    std::path::Path::new(p).file_stem().map(|n| n.to_string_lossy().into_owned())
}

/// A lower-case hexadecimal digit.
pub open spec fn lower_hex(c: char) -> bool {
    ('0' <= c && c <= '9') || ('a' <= c && c <= 'f')
}

/// The text of a random (version 4) UUID in the hyphenated form: 36
/// characters, hyphens at 8, 13, 18 and 23, lower-case hex digits
/// elsewhere, the version digit `4` at 14 and the variant digit (8, 9, a or
/// b) at 19.
pub open spec fn uuid_v4_text(s: Seq<char>) -> bool {
    &&& s.len() == 36
    &&& forall|i: int| #![trigger s[i]] 0 <= i < 36 ==> ((s[i] == '-') <==> (i == 8 || i == 13 || i == 18 || i == 23))
    &&& forall|i: int| 0 <= i < 36 && i != 8 && i != 13 && i != 18 && i != 23 ==> lower_hex(#[trigger] s[i])
    &&& s[14] == '4'
    &&& (s[19] == '8' || s[19] == '9' || s[19] == 'a' || s[19] == 'b')
}

/// `Uuid::new_v4().to_string()`: a random version-4 UUID, written by its
/// `Display` (lower-case hex, hyphenated). Its shape is stated; its digits
/// are random.
#[verifier::external_body]
fn new_scene_id() -> (r: String)
    ensures
        uuid_v4_text(r@),
{
    uuid::Uuid::new_v4().to_string()
}

/// The current time as RFC 3339 text: `SystemTime::now()` converted by
/// chrono's `From<SystemTime> for DateTime<Utc>` (which also takes a clock
/// set before 1970), then `to_rfc3339`. Nothing is stated of the value: it
/// is the time.
#[verifier::external_body]
fn now_iso() -> (r: String)
{
    chrono::DateTime::<chrono::Utc>::from(std::time::SystemTime::now()).to_rfc3339()
}

// ---------- background paths ----------

/// The file name a scene stores for a background given as any path: the
/// path's file name, the text itself when it has none, empty for empty text.
pub open spec fn background_filename(raw: Seq<char>) -> Seq<char> {
    if raw.len() == 0 {
        raw
    } else {
        match path_file_name(raw) {
            Some(n) => n,
            None => raw,
        }
    }
}

/// Extracts the file name of a background.
pub fn to_background_filename(raw: &str) -> (r: String)
    ensures
        r@ == background_filename(raw@),
{
    if str_eq(raw, "") {
        proof {
            reveal_strlit("");
            assert(raw@ =~= ""@);
        }
        return owned(raw);
    }
    assert(raw@.len() != 0) by {
        reveal_strlit("");
        if raw@.len() == 0 {
            assert(raw@ =~= ""@);
        }
    }
    match file_name_of(raw) {
        Some(n) => n,
        None => owned(raw),
    }
}

/// The path shown for a stored background: its file name inside the
/// backgrounds folder, empty when there is none. Old entries that hold a
/// whole path are reduced to their file name first.
pub open spec fn background_fullpath(backgrounds_dir: Seq<char>, stored: Seq<char>) -> Seq<char> {
    let name = background_filename(stored);
    if stored.len() == 0 || name.len() == 0 {
        Seq::empty()
    } else {
        path_joined(backgrounds_dir, name)
    }
}

/// Resolves a stored background to the path shown for it.
pub fn to_background_fullpath(backgrounds_dir: &str, stored: &str) -> (r: String)
    ensures
        r@ == background_fullpath(backgrounds_dir@, stored@),
{
    proof {
        reveal_strlit("");
    }
    if str_eq(stored, "") {
        return owned("");
    }
    let name = to_background_filename(stored);
    if str_eq(name.as_str(), "") {
        return owned("");
    }
    assert(name@.len() != 0) by {
        if name@.len() == 0 {
            assert(name@ =~= ""@);
        }
    }
    assert(stored@.len() != 0) by {
        if stored@.len() == 0 {
            assert(stored@ =~= ""@);
        }
    }
    join_path(backgrounds_dir, name.as_str())
}

/// The path shown for a background, whatever form it was stored in.
pub fn normalize_background(backgrounds_dir: &str, raw: &str) -> (r: String)
    ensures
        r@ == background_fullpath(backgrounds_dir@, raw@),
{
    to_background_fullpath(backgrounds_dir, raw)
}

// ---------- scenes ----------

/// A scene as it is stored.
#[derive(Debug, Clone)]
pub struct Scene<L> {
    pub id: String,
    pub name: String,
    pub description: String,
    /// The background's file name, inside the backgrounds folder.
    pub background: String,
    pub lighting: Option<L>,
    pub created_at: String,
    pub updated_at: String,
}

/// A scene as the front end sees it.
#[derive(Debug, Clone)]
pub struct SceneInfo<L> {
    pub id: String,
    pub scene_name: String,
    pub scene_description: String,
    /// The full path of the background, if the scene has one.
    pub background: Option<String>,
    pub lighting: Option<L>,
    pub created_at: String,
    pub updated_at: String,
}

/// What the front end sends to create a scene.
#[derive(Debug, Clone)]
pub struct CreateSceneRequest<L> {
    pub scene_name: String,
    pub scene_description: String,
    pub background: String,
    pub lighting: Option<L>,
}

/// What the front end sends to change a scene.
#[derive(Debug, Clone)]
pub struct UpdateSceneRequest<L> {
    pub id: String,
    pub scene_name: String,
    pub scene_description: String,
    pub background: String,
    pub lighting: Option<L>,
}

/// The front end's view of a scene: its background resolved to a full path,
/// none when it resolves to nothing.
pub fn model_to_info<L>(s: Scene<L>, backgrounds_dir: &str) -> (r: SceneInfo<L>)
    ensures
        r.id == s.id,
        r.scene_name == s.name,
        r.scene_description == s.description,
        background_fullpath(backgrounds_dir@, s.background@).len() == 0 ==> r.background is None,
        background_fullpath(backgrounds_dir@, s.background@).len() > 0 ==>
            r.background is Some && r.background->0@ == background_fullpath(backgrounds_dir@, s.background@),
        r.lighting == s.lighting,
        r.created_at == s.created_at,
        r.updated_at == s.updated_at,
{
    let bg = normalize_background(backgrounds_dir, s.background.as_str());
    proof {
        reveal_strlit("");
    }
    let background = if str_eq(bg.as_str(), "") {
        None
    } else {
        assert(bg@.len() != 0) by {
            if bg@.len() == 0 {
                assert(bg@ =~= ""@);
            }
        }
        Some(bg)
    };
    SceneInfo {
        id: s.id,
        scene_name: s.name,
        scene_description: s.description,
        background,
        lighting: s.lighting,
        created_at: s.created_at,
        updated_at: s.updated_at,
    }
}

/// A new scene from a request, with the given id and creation time.
pub fn scene_from_request<L>(id: String, now: String, req: CreateSceneRequest<L>) -> (r: Scene<L>)
    ensures
        r.id == id,
        r.name == req.scene_name,
        r.description == req.scene_description,
        r.background@ == background_filename(req.background@),
        r.lighting == req.lighting,
        r.created_at@ == now@,
        r.updated_at@ == now@,
{
    let background = to_background_filename(req.background.as_str());
    let created = owned(now.as_str());
    Scene {
        id,
        name: req.scene_name,
        description: req.scene_description,
        background,
        lighting: req.lighting,
        created_at: created,
        updated_at: now,
    }
}

/// A new scene from a request, with a fresh random id, created now.
pub fn create_scene_record<L>(req: CreateSceneRequest<L>) -> (r: Scene<L>)
    ensures
        uuid_v4_text(r.id@),
        r.name == req.scene_name,
        r.description == req.scene_description,
        r.background@ == background_filename(req.background@),
        r.lighting == req.lighting,
        r.created_at@ == r.updated_at@,
{
    let id = new_scene_id();
    let now = now_iso();
    scene_from_request(id, now, req)
}

pub const MSG_SCENE_PRE: &'static str = "场景 ";
pub const MSG_SCENE_MISSING: &'static str = " 不存在";

/// The refusal of an edit of a scene that does not exist.
pub open spec fn missing_scene(id: Seq<char>) -> Seq<char> {
    MSG_SCENE_PRE@ + id + MSG_SCENE_MISSING@
}

/// Some scene has the id `id`.
pub open spec fn has_scene<L>(scenes: Seq<Scene<L>>, id: Seq<char>) -> bool {
    exists|i: int| 0 <= i < scenes.len() && (#[trigger] scenes[i]).id@ == id
}

/// The position of the first scene with id `id`.
pub open spec fn first_scene<L>(scenes: Seq<Scene<L>>, id: Seq<char>, k: int) -> bool {
    &&& 0 <= k < scenes.len()
    &&& scenes[k].id@ == id
    &&& forall|j: int| 0 <= j < k ==> (#[trigger] scenes[j]).id@ != id
}

/// Applies an edit to the first scene with the request's id, stamped with
/// `now`; returns its position. Refused when no scene has that id; the list
/// is then unchanged.
pub fn update_scene_at<L>(scenes: &mut Vec<Scene<L>>, req: UpdateSceneRequest<L>, now: String) -> (r: Result<usize, String>)
    ensures
        final(scenes)@.len() == old(scenes)@.len(),
        has_scene(old(scenes)@, req.id@) <==> r is Ok,
        r is Err ==> r->Err_0@ == missing_scene(req.id@) && final(scenes)@ == old(scenes)@,
        r is Ok ==> {
            let k = r->Ok_0 as int;
            &&& first_scene(old(scenes)@, req.id@, k)
            &&& forall|j: int| 0 <= j < old(scenes)@.len() && j != k ==> final(scenes)@[j] == old(scenes)@[j]
            &&& final(scenes)@[k].id == old(scenes)@[k].id
            &&& final(scenes)@[k].name == req.scene_name
            &&& final(scenes)@[k].description == req.scene_description
            &&& final(scenes)@[k].background@ == background_filename(req.background@)
            &&& final(scenes)@[k].lighting == req.lighting
            &&& final(scenes)@[k].created_at == old(scenes)@[k].created_at
            &&& final(scenes)@[k].updated_at == now
        },
{
    let mut i: usize = 0;
    while i < scenes.len() && !str_eq(scenes[i].id.as_str(), req.id.as_str())
        invariant
            i <= scenes@.len(),
            scenes@ == old(scenes)@,
            forall|j: int| 0 <= j < i ==> (#[trigger] scenes@[j]).id@ != req.id@,
        decreases scenes@.len() - i,
    {
        i = i + 1;
    }
    if i == scenes.len() {
        return Err(cat3(MSG_SCENE_PRE, req.id.as_str(), MSG_SCENE_MISSING));
    }
    assert(scenes@[i as int].id@ == req.id@);
    let background = to_background_filename(req.background.as_str());
    let old_scene = scenes.remove(i);
    let updated = Scene {
        id: old_scene.id,
        name: req.scene_name,
        description: req.scene_description,
        background,
        lighting: req.lighting,
        created_at: old_scene.created_at,
        updated_at: now,
    };
    scenes.insert(i, updated);
    Ok(i)
}

/// The scenes whose id is not `id`, in order.
pub open spec fn without_scene<L>(scenes: Seq<Scene<L>>, id: Seq<char>) -> Seq<Scene<L>>
    decreases scenes.len(),
{
    if scenes.len() == 0 {
        scenes
    } else if scenes[0].id@ == id {
        without_scene(scenes.drop_first(), id)
    } else {
        seq![scenes[0]] + without_scene(scenes.drop_first(), id)
    }
}

proof fn lemma_without_absent<L>(scenes: Seq<Scene<L>>, id: Seq<char>)
    requires
        !has_scene(scenes, id),
    ensures
        without_scene(scenes, id) == scenes,
    decreases scenes.len(),
{
    if scenes.len() > 0 {
        assert(scenes[0].id@ != id);
        assert forall|i: int| 0 <= i < scenes.drop_first().len() implies (#[trigger] scenes.drop_first()[i]).id@ != id by {
            assert(scenes.drop_first()[i] == scenes[i + 1]);
        }
        lemma_without_absent(scenes.drop_first(), id);
        assert(scenes =~= seq![scenes[0]] + scenes.drop_first());
    }
}

/// After a delete, no scene has the deleted id, and every other scene is
/// still there.
pub proof fn law_delete_removes_only_that_scene<L>(scenes: Seq<Scene<L>>, id: Seq<char>)
    ensures
        !has_scene(without_scene(scenes, id), id),
        forall|i: int| 0 <= i < scenes.len() && (#[trigger] scenes[i]).id@ != id
            ==> without_scene(scenes, id).contains(scenes[i]),
        without_scene(scenes, id).len() <= scenes.len(),
    decreases scenes.len(),
{
    if scenes.len() > 0 {
        let rest = scenes.drop_first();
        law_delete_removes_only_that_scene(rest, id);
        let w = without_scene(rest, id);
        if scenes[0].id@ != id {
            let full = seq![scenes[0]] + w;
            assert(full[0] == scenes[0]);
            assert forall|k: int| 0 <= k < full.len() implies (#[trigger] full[k]).id@ != id by {
                if k > 0 {
                    assert(full[k] == w[k - 1]);
                    if w[k - 1].id@ == id {
                        assert(has_scene(w, id));
                    }
                }
            }
            assert forall|i: int| 0 <= i < scenes.len() && (#[trigger] scenes[i]).id@ != id implies full.contains(scenes[i]) by {
                if i > 0 {
                    assert(rest[i - 1] == scenes[i]);
                    assert(w.contains(rest[i - 1]));
                    let k = choose|k: int| 0 <= k < w.len() && w[k] == rest[i - 1];
                    assert(full[k + 1] == w[k]);
                }
            }
        } else {
            assert forall|i: int| 0 <= i < scenes.len() && (#[trigger] scenes[i]).id@ != id implies w.contains(scenes[i]) by {
                assert(i > 0);
                assert(rest[i - 1] == scenes[i]);
            }
        }
    }
}

/// Removes every scene with id `id`; refused when there is none, and the
/// list is then unchanged.
pub fn delete_scene_from<L>(scenes: &mut Vec<Scene<L>>, id: &str) -> (r: Result<(), String>)
    ensures
        has_scene(old(scenes)@, id@) <==> r is Ok,
        r is Ok ==> final(scenes)@ == without_scene(old(scenes)@, id@),
        r is Err ==> r->Err_0@ == missing_scene(id@) && final(scenes)@ == old(scenes)@,
{
    let ghost orig = scenes@;
    let mut rest: Vec<Scene<L>> = Vec::new();
    std::mem::swap(scenes, &mut rest);
    let mut kept: Vec<Scene<L>> = Vec::new();
    let mut removed = false;
    let ghost mut done: Seq<Scene<L>> = Seq::empty();
    assert(kept@ + without_scene(rest@, id@) =~= without_scene(orig, id@));
    assert(done + rest@ =~= orig);
    while rest.len() > 0
        invariant
            kept@ + without_scene(rest@, id@) == without_scene(orig, id@),
            done + rest@ == orig,
            removed == has_scene(done, id@),
        decreases rest@.len(),
    {
        let ghost r0 = rest@;
        let s = rest.remove(0);
        assert(rest@ =~= r0.drop_first());
        assert(r0[0] == s);
        let ghost d0 = done;
        proof {
            done = done.push(s);
            assert(done + rest@ =~= d0 + r0);
            assert(done[d0.len() as int] == s);
            if has_scene(d0, id@) {
                let k = choose|k: int| 0 <= k < d0.len() && (#[trigger] d0[k]).id@ == id@;
                assert(done[k] == d0[k]);
            }
            if has_scene(done, id@) && s.id@ != id@ {
                let k = choose|k: int| 0 <= k < done.len() && (#[trigger] done[k]).id@ == id@;
                assert(k < d0.len());
                assert(d0[k] == done[k]);
            }
        }
        if str_eq(s.id.as_str(), id) {
            removed = true;
        } else {
            let ghost k0 = kept@;
            kept.push(s);
            assert(kept@ + without_scene(rest@, id@) =~= k0 + without_scene(r0, id@));
        }
    }
    assert(done =~= orig);
    if removed {
        *scenes = kept;
        Ok(())
    } else {
        proof {
            lemma_without_absent(orig, id@);
        }
        assert(kept@ =~= orig);
        *scenes = kept;
        Err(cat3(MSG_SCENE_PRE, id, MSG_SCENE_MISSING))
    }
}

// ---------- registering the backgrounds folder ----------

/// The image extensions a file of the backgrounds folder may have.
pub open spec fn scene_image_exts() -> Seq<Seq<char>> {
    seq!["png"@, "jpg"@, "jpeg"@, "webp"@, "bmp"@, "svg"@, "tif"@, "gif"@]
}

/// The background file names that some scene uses.
pub open spec fn used_backgrounds<L>(scenes: Seq<Scene<L>>) -> Set<Seq<char>> {
    Set::new(|b: Seq<char>| b.len() > 0 && exists|i: int| 0 <= i < scenes.len()
        && background_filename((#[trigger] scenes[i]).background@) == b)
}

/// A file of the backgrounds folder that becomes a scene: an image that no
/// scene uses yet.
pub open spec fn registers(file: Seq<char>, used: Set<Seq<char>>) -> bool {
    scene_image_exts().contains(lower_ext(file)) && !used.contains(file)
}

/// The files that become scenes, in the order given.
pub open spec fn files_to_register(files: Seq<Seq<char>>, used: Set<Seq<char>>) -> Seq<Seq<char>>
    decreases files.len(),
{
    if files.len() == 0 {
        files
    } else if registers(files.last(), used) {
        files_to_register(files.drop_last(), used).push(files.last())
    } else {
        files_to_register(files.drop_last(), used)
    }
}

fn scene_image_extensions() -> (r: Vec<&'static str>)
    ensures
        texts(r@) == scene_image_exts(),
{
    let r: Vec<&'static str> = vec!["png", "jpg", "jpeg", "webp", "bmp", "svg", "tif", "gif"];
    assert(texts(r@) =~= scene_image_exts());
    r
}

fn is_used_background<L>(scenes: &Vec<Scene<L>>, file: &str) -> (r: bool)
    ensures
        r == used_backgrounds(scenes@).contains(file@),
{
    proof {
        reveal_strlit("");
    }
    if str_eq(file, "") {
        assert(file@ =~= ""@);
        return false;
    }
    assert(file@.len() > 0) by {
        if file@.len() == 0 {
            assert(file@ =~= ""@);
        }
    }
    let mut i: usize = 0;
    while i < scenes.len()
        invariant
            file@.len() > 0,
            i <= scenes@.len(),
            forall|j: int| 0 <= j < i ==> background_filename((#[trigger] scenes@[j]).background@) != file@,
        decreases scenes@.len() - i,
    {
        let b = to_background_filename(scenes[i].background.as_str());
        if str_eq(b.as_str(), file) {
            return true;
        }
        i = i + 1;
    }
    false
}

/// The files of the backgrounds folder (by file name) that become scenes:
/// images with one of the accepted extensions that no scene uses yet.
pub fn backgrounds_to_register<L>(scenes: &Vec<Scene<L>>, files: &Vec<String>) -> (r: Vec<String>)
    ensures
        views(r@) == files_to_register(views(files@), used_backgrounds(scenes@)),
{
    let allowed = scene_image_extensions();
    let ghost used = used_backgrounds(scenes@);
    let mut out: Vec<String> = Vec::new();
    let mut i: usize = 0;
    while i < files.len()
        invariant
            i <= files@.len(),
            texts(allowed@) == scene_image_exts(),
            used == used_backgrounds(scenes@),
            views(out@) == files_to_register(views(files@).subrange(0, i as int), used),
        decreases files@.len() - i,
    {
        let f = files[i].as_str();
        proof {
            let pre = views(files@).subrange(0, i + 1);
            assert(pre.drop_last() =~= views(files@).subrange(0, i as int));
            assert(pre.last() == f@);
        }
        let ext = crate::editor::lower_ext_of(f);
        if crate::editor::contains_text(&allowed, ext.as_str()) && !is_used_background(scenes, f) {
            let ghost o0 = out@;
            out.push(crate::text::owned(f));
            assert(views(out@) =~= views(o0).push(f@));
        }
        i = i + 1;
    }
    assert(views(files@).subrange(0, files@.len() as int) =~= views(files@));
    out
}

/// The name a registered background's scene gets: the file's stem, empty
/// when it has none.
pub open spec fn stem_or_empty(file: Seq<char>) -> Seq<char> {
    match path_file_stem(file) {
        Some(s) => s,
        None => Seq::empty(),
    }
}

/// Registers every image of the backgrounds folder that no scene uses yet as
/// a new scene named after the file, each with a fresh id, created now.
/// Returns whether any scene was added.
pub fn register_backgrounds<L>(scenes: &mut Vec<Scene<L>>, files: &Vec<String>) -> (added: bool)
    ensures
        ({
            let list = files_to_register(views(files@), used_backgrounds(old(scenes)@));
            let n = old(scenes)@.len();
            &&& final(scenes)@.len() == n + list.len()
            &&& final(scenes)@.subrange(0, n as int) == old(scenes)@
            &&& forall|k: int| 0 <= k < list.len() ==> {
                let s = #[trigger] final(scenes)@[n + k];
                &&& s.background@ == list[k]
                &&& s.name@ == stem_or_empty(list[k])
                &&& s.description@.len() == 0
                &&& s.lighting is None
                &&& uuid_v4_text(s.id@)
                &&& s.created_at@ == s.updated_at@
            }
            &&& added == (list.len() > 0)
        }),
{
    let names = backgrounds_to_register(scenes, files);
    let ghost n = scenes@.len();
    let ghost list = views(names@);
    let mut i: usize = 0;
    while i < names.len()
        invariant
            i <= names@.len(),
            list == views(names@),
            scenes@.len() == n + i,
            scenes@.subrange(0, n as int) == old(scenes)@,
            n == old(scenes)@.len(),
            forall|k: int| 0 <= k < i ==> {
                let s = #[trigger] scenes@[n + k];
                &&& s.background@ == list[k]
                &&& s.name@ == stem_or_empty(list[k])
                &&& s.description@.len() == 0
                &&& s.lighting is None
                &&& uuid_v4_text(s.id@)
                &&& s.created_at@ == s.updated_at@
            },
        decreases names@.len() - i,
    {
        let f = names[i].as_str();
        let name = match file_stem_of(f) {
            Some(s) => s,
            None => crate::text::owned(""),
        };
        proof {
            reveal_strlit("");
        }
        let now = now_iso();
        let scene = Scene {
            id: new_scene_id(),
            name,
            description: crate::text::owned(""),
            background: crate::text::owned(f),
            lighting: None,
            created_at: crate::text::owned(now.as_str()),
            updated_at: now,
        };
        assert(scene.created_at@ == scene.updated_at@);
        let ghost s0 = scenes@;
        scenes.push(scene);
        proof {
            assert(scenes@.subrange(0, n as int) =~= s0.subrange(0, n as int));
            assert(scenes@[n + i] == scene);
            assert forall|k: int| 0 <= k < i + 1 implies {
                let s = #[trigger] scenes@[n + k];
                &&& s.background@ == list[k]
                &&& s.name@ == stem_or_empty(list[k])
                &&& s.description@.len() == 0
                &&& s.lighting is None
                &&& uuid_v4_text(s.id@)
                &&& s.created_at@ == s.updated_at@
            } by {
                if k < i {
                    assert(scenes@[n + k] == s0[n + k]);
                }
            }
        }
        i = i + 1;
    }
    names.len() > 0
}

} // verus!
