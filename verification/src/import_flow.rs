//! The course of a role import. The caller extracts, resolves, moves and
//! registers; after each of those steps it reports what happened, and
//! `step` says what to do next and what a failure or a cancellation leaves
//! to clean up.
use vstd::prelude::*;
use crate::archive::{ArchiveFormat, ImportResult};
use crate::text::{cat, cat3, owned, str_eq, starts_with, starts_with_str};

verus! {

/// How the role folder was placed under the conflict policy.
#[derive(Debug, Clone, Copy, PartialEq, Eq, Structural)]
pub enum Placement {
    Imported,
    Renamed,
    Overwritten,
}

/// The word an import reports for a placement.
pub open spec fn placement_word(p: Placement) -> Seq<char> {
    match p {
        Placement::Imported => "imported"@,
        Placement::Renamed => "renamed"@,
        Placement::Overwritten => "overwritten"@,
    }
}

fn placement_text(p: Placement) -> (r: &'static str)
    ensures
        r@ == placement_word(p),
{
    match p {
        Placement::Imported => "imported",
        Placement::Renamed => "renamed",
        Placement::Overwritten => "overwritten",
    }
}

/// The name of a format in the mismatch refusal.
pub open spec fn format_label(f: ArchiveFormat) -> Seq<char> {
    match f {
        ArchiveFormat::Zip => "Zip"@,
        ArchiveFormat::SevenZ => "SevenZ"@,
    }
}

fn format_text(f: ArchiveFormat) -> (r: &'static str)
    ensures
        r@ == format_label(f),
{
    match f {
        ArchiveFormat::Zip => "Zip",
        ArchiveFormat::SevenZ => "SevenZ",
    }
}

/// What an import waits for.
#[derive(Debug, Clone)]
pub enum ImportPhase {
    /// The format read from the file's header.
    Detecting,
    /// The staging folder and the extraction into it.
    Extracting,
    /// The content root and the target folder.
    Resolving,
    /// The old folder removed (overwrite) and the target's parent created.
    Preparing,
    /// A rename of the content root to the target (the `attempt`-th).
    Moving { attempt: u64 },
    /// The copy that replaces a rename that kept failing.
    Copying { rename_error: String },
    /// The staging folder removed and `settings.yml` looked for.
    Verifying,
    /// The role folders registered.
    Syncing,
    /// The id of the new role.
    LookingUp,
    /// Nothing: the import has stopped.
    Finished,
}

/// An import in progress.
#[derive(Debug, Clone)]
pub struct ImportState {
    pub phase: ImportPhase,
    /// The format the user chose.
    pub format: ArchiveFormat,
    /// The target folder's name, once resolved.
    pub final_name: String,
    pub placement: Placement,
    pub warnings: Vec<String>,
    pub bytes_extracted: u64,
}

/// What has to be removed when an import stops.
#[derive(Debug, Clone, Copy, PartialEq, Eq, Structural)]
pub enum Cleanup {
    Nothing,
    /// The staging folder (with what was extracted into it).
    Staging,
    /// The role folder moved into place.
    Target,
}

/// How the extraction went.
#[derive(Debug, Clone)]
pub enum ExtractOutcome {
    /// The characters folder could not be created.
    RootFailed(String),
    /// The staging folder could not be created.
    StagingFailed(String),
    Done { bytes: u64, warnings: Vec<String> },
    /// The archive could not be extracted.
    Failed(String),
    /// The extraction task died.
    Crashed(String),
}

/// How the target folder was resolved.
#[derive(Debug, Clone)]
pub enum ResolveOutcome {
    Placed { final_name: String, placement: Placement },
    /// The folder exists and the policy skips it.
    Exists(String),
    Failed(String),
}

/// How the target was prepared.
#[derive(Debug, Clone)]
pub enum PrepareOutcome {
    Ready,
    /// The old folder (shown as `target`) could not be removed.
    ClearFailed { target: String, error: String },
    /// The target's parent could not be created.
    ParentFailed(String),
}

/// How the copy went.
#[derive(Debug, Clone)]
pub enum CopyOutcome {
    Copied,
    Failed(String),
    /// The copy task died.
    Crashed(String),
}

/// What the caller reports after a step; `cancelled` is whether the user
/// cancelled by then.
#[derive(Debug)]
pub enum ImportEvent {
    Detected(Result<ArchiveFormat, String>),
    Extracted { outcome: ExtractOutcome, cancelled: bool },
    Resolved { outcome: ResolveOutcome, cancelled: bool },
    Prepared { outcome: PrepareOutcome, cancelled: bool },
    Renamed(Result<(), String>),
    Copied(CopyOutcome),
    Verified { settings_exists: bool, cancelled: bool },
    Synced(Result<(), String>),
    LookedUp(Result<Option<i32>, String>),
}

/// What the caller does next.
#[derive(Debug, Clone)]
pub enum ImportAction {
    /// Create the staging folder and extract into it.
    Extract,
    /// Find the content root in the staging folder and resolve the target.
    Resolve,
    /// Remove the old folder when `clear`, then create the target's parent.
    Prepare { clear: bool },
    /// Rename the content root to the target after `delay_millis`.
    Rename { delay_millis: u64 },
    /// Copy the content root to the target.
    Copy,
    /// Remove the content root when it was `copied`, remove the staging
    /// folder, and look for `settings.yml`.
    Settle { copied: bool },
    /// Register the role folders.
    Sync,
    /// Find the id of the role in `folder`.
    LookUp { folder: String },
    /// Stop with the report, removing what `cleanup` names.
    Finish { result: ImportResult, cleanup: Cleanup },
    /// Stop with the refusal, removing what `cleanup` names.
    Fail { message: String, cleanup: Cleanup },
    /// The event does not belong to the phase: nothing changes.
    Ignore,
}

pub const MSG_MISMATCH_PRE: &'static str = "格式不匹配: 前端传 ";
pub const MSG_MISMATCH_MID: &'static str = ", 实际 ";
pub const MSG_ROOT_FAILED: &'static str = "创建 characters dir: ";
pub const MSG_STAGING_FAILED: &'static str = "创建 staging dir: ";
pub const MSG_JOIN_FAILED: &'static str = "spawn_blocking join: ";
pub const MSG_CANCELLED: &'static str = "导入已取消";
pub const MSG_CLEAR_PRE: &'static str = "无法覆盖已存在的角色目录 ";
pub const MSG_CLEAR_MID: &'static str = " (可能正在被使用, 请关闭相关界面后重试): ";
pub const MSG_PARENT_FAILED: &'static str = "创建目标父目录: ";
pub const MSG_COPY_PRE: &'static str = "移动角色目录失败 (rename: ";
pub const MSG_COPY_MID: &'static str = "; 复制回退: ";
pub const MSG_COPY_POST: &'static str = "). 可能目标正被其他进程占用.";
pub const MSG_COPY_CRASH_PRE: &'static str = "移动角色目录失败: rename=";
pub const MSG_COPY_CRASH_MID: &'static str = ", spawn=";
pub const MSG_NO_SETTINGS: &'static str = "压缩包缺少 settings.yml (角色配置文件不可缺少). 请确保压缩包内含 settings.yml 后重试.";
pub const MSG_SYNC_FAILED: &'static str = "sync roles: ";
/// Renames tried before the copy fallback.
pub const MAX_RENAME_ATTEMPTS: u64 = 3;
/// The pause after the `k`-th failed rename is `k` times this.
pub const RENAME_BACKOFF_MILLIS: u64 = 150;

impl ImportState {
    /// A new import of an archive the user says is in `format`.
    pub fn new(format: ArchiveFormat) -> (r: ImportState)
        ensures
            r.phase is Detecting,
            r.format == format,
            r.final_name@ == Seq::<char>::empty(),
            r.placement == Placement::Imported,
            r.warnings@.len() == 0,
            r.bytes_extracted == 0,
            import_wf(r),
    {
        ImportState {
            phase: ImportPhase::Detecting,
            format,
            final_name: String::new(),
            placement: Placement::Imported,
            warnings: Vec::new(),
            bytes_extracted: 0,
        }
    }
}

/// A rename attempt is always one of the allowed ones.
pub open spec fn import_wf(s: ImportState) -> bool {
    s.phase matches ImportPhase::Moving { attempt } ==> 1 <= attempt <= MAX_RENAME_ATTEMPTS
}

/// The import stops with `message`, removing what `c` names.
pub open spec fn stops_with(ns: ImportState, a: ImportAction, message: Seq<char>, c: Cleanup) -> bool {
    &&& ns.phase is Finished
    &&& a matches ImportAction::Fail { message: m, cleanup } && m@ == message && cleanup == c
}

/// What the import knows stays as it was.
pub open spec fn keeps_data(s: ImportState, ns: ImportState) -> bool {
    &&& ns.format == s.format
    &&& ns.final_name@ == s.final_name@
    &&& ns.placement == s.placement
    &&& ns.warnings@ == s.warnings@
    &&& ns.bytes_extracted == s.bytes_extracted
}

/// The step after the format was read.
pub open spec fn detected_ok(s: ImportState, r: Result<ArchiveFormat, String>, ns: ImportState, a: ImportAction) -> bool {
    match r {
        Err(e) => stops_with(ns, a, e@, Cleanup::Nothing),
        Ok(d) => if d != s.format {
            stops_with(ns, a, MSG_MISMATCH_PRE@ + format_label(s.format) + MSG_MISMATCH_MID@ + format_label(d), Cleanup::Nothing)
        } else {
            ns.phase is Extracting && keeps_data(s, ns) && a is Extract
        },
    }
}

/// The step after the extraction: a cancellation is honoured only once the
/// extraction succeeded.
pub open spec fn extracted_ok(s: ImportState, o: ExtractOutcome, cancelled: bool, ns: ImportState, a: ImportAction) -> bool {
    match o {
        ExtractOutcome::RootFailed(e) => stops_with(ns, a, MSG_ROOT_FAILED@ + e@, Cleanup::Nothing),
        ExtractOutcome::StagingFailed(e) => stops_with(ns, a, MSG_STAGING_FAILED@ + e@, Cleanup::Nothing),
        ExtractOutcome::Failed(e) => stops_with(ns, a, e@, Cleanup::Staging),
        ExtractOutcome::Crashed(e) => stops_with(ns, a, MSG_JOIN_FAILED@ + e@, Cleanup::Staging),
        ExtractOutcome::Done { bytes, warnings } => if cancelled {
            stops_with(ns, a, MSG_CANCELLED@, Cleanup::Staging)
        } else {
            &&& ns.phase is Resolving
            &&& a is Resolve
            &&& ns.format == s.format && ns.final_name@ == s.final_name@ && ns.placement == s.placement
            &&& ns.warnings@ == warnings@ && ns.bytes_extracted == bytes
        },
    }
}

/// The step after the target was resolved: an existing folder under the
/// skip policy ends the import as skipped.
pub open spec fn resolved_ok(s: ImportState, o: ResolveOutcome, cancelled: bool, ns: ImportState, a: ImportAction) -> bool {
    match o {
        ResolveOutcome::Exists(name) => {
            &&& ns.phase is Finished
            &&& a matches ImportAction::Finish { result, cleanup } && cleanup == Cleanup::Staging
                && result.role_id is None && result.role_name@ == name@ && result.conflict_action@ == "skipped"@
                && result.warnings@.len() == 0 && result.bytes_extracted == 0
        },
        ResolveOutcome::Failed(e) => stops_with(ns, a, e@, Cleanup::Staging),
        ResolveOutcome::Placed { final_name, placement } => if cancelled {
            stops_with(ns, a, MSG_CANCELLED@, Cleanup::Staging)
        } else {
            &&& ns.phase is Preparing
            &&& a matches ImportAction::Prepare { clear } && clear == (placement == Placement::Overwritten)
            &&& ns.format == s.format && ns.final_name@ == final_name@ && ns.placement == placement
            &&& ns.warnings@ == s.warnings@ && ns.bytes_extracted == s.bytes_extracted
        },
    }
}

/// The step after the target was prepared: the first rename follows at once.
pub open spec fn prepared_ok(s: ImportState, o: PrepareOutcome, cancelled: bool, ns: ImportState, a: ImportAction) -> bool {
    match o {
        PrepareOutcome::ClearFailed { target, error } =>
            stops_with(ns, a, MSG_CLEAR_PRE@ + target@ + MSG_CLEAR_MID@ + error@, Cleanup::Staging),
        PrepareOutcome::ParentFailed(e) => stops_with(ns, a, MSG_PARENT_FAILED@ + e@, Cleanup::Staging),
        PrepareOutcome::Ready => if cancelled {
            stops_with(ns, a, MSG_CANCELLED@, Cleanup::Staging)
        } else {
            ns.phase == (ImportPhase::Moving { attempt: 1 }) && keeps_data(s, ns) && a == (ImportAction::Rename { delay_millis: 0 })
        },
    }
}

/// The step after the `attempt`-th rename: a failed one is retried after a
/// growing pause, and after the last one the content is copied.
pub open spec fn renamed_ok(s: ImportState, attempt: u64, r: Result<(), String>, ns: ImportState, a: ImportAction) -> bool {
    match r {
        Ok(()) => ns.phase is Verifying && keeps_data(s, ns) && a == (ImportAction::Settle { copied: false }),
        Err(e) => if attempt < MAX_RENAME_ATTEMPTS {
            &&& ns.phase == (ImportPhase::Moving { attempt: (attempt + 1) as u64 })
            &&& keeps_data(s, ns)
            &&& a == (ImportAction::Rename { delay_millis: (RENAME_BACKOFF_MILLIS * attempt) as u64 })
        } else {
            &&& ns.phase matches ImportPhase::Copying { rename_error } && rename_error@ == e@
            &&& keeps_data(s, ns)
            &&& a is Copy
        },
    }
}

/// The step after the copy.
pub open spec fn copied_ok(s: ImportState, rename_error: Seq<char>, o: CopyOutcome, ns: ImportState, a: ImportAction) -> bool {
    match o {
        CopyOutcome::Copied => ns.phase is Verifying && keeps_data(s, ns) && a == (ImportAction::Settle { copied: true }),
        CopyOutcome::Failed(c) =>
            stops_with(ns, a, MSG_COPY_PRE@ + rename_error + MSG_COPY_MID@ + c@ + MSG_COPY_POST@, Cleanup::Staging),
        CopyOutcome::Crashed(j) =>
            stops_with(ns, a, MSG_COPY_CRASH_PRE@ + rename_error + MSG_COPY_CRASH_MID@ + j@, Cleanup::Staging),
    }
}

/// The step after the move was settled: a folder without `settings.yml`
/// is removed again.
pub open spec fn verified_ok(s: ImportState, settings_exists: bool, cancelled: bool, ns: ImportState, a: ImportAction) -> bool {
    if !settings_exists {
        stops_with(ns, a, MSG_NO_SETTINGS@, Cleanup::Target)
    } else if cancelled {
        stops_with(ns, a, MSG_CANCELLED@, Cleanup::Target)
    } else {
        ns.phase is Syncing && keeps_data(s, ns) && a is Sync
    }
}

/// The step after the registration: a failed one removes the new folder.
pub open spec fn synced_ok(s: ImportState, r: Result<(), String>, ns: ImportState, a: ImportAction) -> bool {
    match r {
        Err(e) => stops_with(ns, a, MSG_SYNC_FAILED@ + e@, Cleanup::Target),
        Ok(()) => {
            &&& ns.phase is LookingUp
            &&& keeps_data(s, ns)
            &&& a matches ImportAction::LookUp { folder } && folder@ == s.final_name@
        },
    }
}

/// The step after the lookup: the report of the import.
pub open spec fn looked_up_ok(s: ImportState, r: Result<Option<i32>, String>, ns: ImportState, a: ImportAction) -> bool {
    match r {
        Err(e) => stops_with(ns, a, e@, Cleanup::Nothing),
        Ok(id) => {
            &&& ns.phase is Finished
            &&& a matches ImportAction::Finish { result, cleanup } && cleanup == Cleanup::Nothing
                && result.role_id == id && result.role_name@ == s.final_name@
                && result.conflict_action@ == placement_word(s.placement)
                && result.warnings@ == s.warnings@ && result.bytes_extracted == s.bytes_extracted
        },
    }
}

/// One step of an import: what follows the event in the state's phase; an
/// event of another phase changes nothing.
pub open spec fn step_ok(s: ImportState, e: ImportEvent, ns: ImportState, a: ImportAction) -> bool {
    match (s.phase, e) {
        (ImportPhase::Detecting, ImportEvent::Detected(r)) => detected_ok(s, r, ns, a),
        (ImportPhase::Extracting, ImportEvent::Extracted { outcome, cancelled }) => extracted_ok(s, outcome, cancelled, ns, a),
        (ImportPhase::Resolving, ImportEvent::Resolved { outcome, cancelled }) => resolved_ok(s, outcome, cancelled, ns, a),
        (ImportPhase::Preparing, ImportEvent::Prepared { outcome, cancelled }) => prepared_ok(s, outcome, cancelled, ns, a),
        (ImportPhase::Moving { attempt }, ImportEvent::Renamed(r)) => renamed_ok(s, attempt, r, ns, a),
        (ImportPhase::Copying { rename_error }, ImportEvent::Copied(o)) => copied_ok(s, rename_error@, o, ns, a),
        (ImportPhase::Verifying, ImportEvent::Verified { settings_exists, cancelled }) => verified_ok(s, settings_exists, cancelled, ns, a),
        (ImportPhase::Syncing, ImportEvent::Synced(r)) => synced_ok(s, r, ns, a),
        (ImportPhase::LookingUp, ImportEvent::LookedUp(r)) => looked_up_ok(s, r, ns, a),
        _ => ns == s && a is Ignore,
    }
}

/// The staging folder exists and holds the extracted content.
pub open spec fn staged(p: ImportPhase) -> bool {
    p is Resolving || p is Preparing || p is Moving || p is Copying
}

/// The role folder has been moved into place.
pub open spec fn placed(p: ImportPhase) -> bool {
    p is Verifying || p is Syncing
}

/// A stopped import stays stopped, and every step that stops it (with a
/// report or a refusal) leaves it stopped.
pub proof fn law_import_stops_are_final(s: ImportState, e: ImportEvent, ns: ImportState, a: ImportAction)
    requires
        step_ok(s, e, ns, a),
    ensures
        s.phase is Finished ==> ns == s && a is Ignore,
        a is Fail || a is Finish ==> ns.phase is Finished,
{
}

/// A failure removes what the import has left on disk: the staging folder
/// while the content is still in it, the role folder once it was moved.
pub proof fn law_failures_clean_up(s: ImportState, e: ImportEvent, ns: ImportState, a: ImportAction)
    requires
        step_ok(s, e, ns, a),
    ensures
        a matches ImportAction::Fail { cleanup, .. } ==> (staged(s.phase) ==> cleanup == Cleanup::Staging),
        a matches ImportAction::Fail { cleanup, .. } ==> (placed(s.phase) ==> cleanup == Cleanup::Target),
{
}

/// A cancellation reported with a successful step stops the import with
/// the cancellation message and removes what was written so far.
pub proof fn law_cancellation_stops_the_import(s: ImportState, e: ImportEvent, ns: ImportState, a: ImportAction)
    requires
        step_ok(s, e, ns, a),
    ensures
        e matches ImportEvent::Extracted { outcome, cancelled } && s.phase is Extracting && cancelled && outcome is Done
            ==> stops_with(ns, a, MSG_CANCELLED@, Cleanup::Staging),
        e matches ImportEvent::Resolved { outcome, cancelled } && s.phase is Resolving && cancelled && outcome is Placed
            ==> stops_with(ns, a, MSG_CANCELLED@, Cleanup::Staging),
        e matches ImportEvent::Prepared { outcome, cancelled } && s.phase is Preparing && cancelled && outcome is Ready
            ==> stops_with(ns, a, MSG_CANCELLED@, Cleanup::Staging),
        e matches ImportEvent::Verified { settings_exists, cancelled } && s.phase is Verifying && cancelled && settings_exists
            ==> stops_with(ns, a, MSG_CANCELLED@, Cleanup::Target),
{
}

/// At most three renames are tried: every step keeps the attempt count
/// within bounds, and a failed third rename turns to the copy.
pub proof fn law_renames_are_bounded(s: ImportState, e: ImportEvent, ns: ImportState, a: ImportAction)
    requires
        import_wf(s),
        step_ok(s, e, ns, a),
    ensures
        import_wf(ns),
        e matches ImportEvent::Renamed(r) && s.phase == (ImportPhase::Moving { attempt: MAX_RENAME_ATTEMPTS }) && r is Err
            ==> ns.phase is Copying && a is Copy,
{
}

fn fail(format: ArchiveFormat, final_name: String, placement: Placement, warnings: Vec<String>, bytes_extracted: u64,
    message: String, cleanup: Cleanup) -> (r: (ImportState, ImportAction))
    ensures
        stops_with(r.0, r.1, message@, cleanup),
{
    (ImportState { phase: ImportPhase::Finished, format, final_name, placement, warnings, bytes_extracted },
        ImportAction::Fail { message, cleanup })
}

/// Advances an import by one reported event.
pub fn step(state: ImportState, event: ImportEvent) -> (r: (ImportState, ImportAction))
    requires
        import_wf(state),
    ensures
        step_ok(state, event, r.0, r.1),
        import_wf(r.0),
{
    let ghost s = state;
    let ImportState { phase, format, final_name, placement, warnings, bytes_extracted } = state;
    match phase {
        ImportPhase::Detecting => match event {
            ImportEvent::Detected(Err(e)) => fail(format, final_name, placement, warnings, bytes_extracted, e, Cleanup::Nothing),
            ImportEvent::Detected(Ok(d)) => if d != format {
                let head = cat3(MSG_MISMATCH_PRE, format_text(format), MSG_MISMATCH_MID);
                let msg = cat(head.as_str(), format_text(d));
                fail(format, final_name, placement, warnings, bytes_extracted, msg, Cleanup::Nothing)
            } else {
                (ImportState { phase: ImportPhase::Extracting, format, final_name, placement, warnings, bytes_extracted },
                    ImportAction::Extract)
            },
            _ => (ImportState { phase: ImportPhase::Detecting, format, final_name, placement, warnings, bytes_extracted },
                ImportAction::Ignore),
        },
        ImportPhase::Extracting => match event {
            ImportEvent::Extracted { outcome, cancelled } => match outcome {
                ExtractOutcome::RootFailed(e) => {
                    let msg = cat(MSG_ROOT_FAILED, e.as_str());
                    fail(format, final_name, placement, warnings, bytes_extracted, msg, Cleanup::Nothing)
                },
                ExtractOutcome::StagingFailed(e) => {
                    let msg = cat(MSG_STAGING_FAILED, e.as_str());
                    fail(format, final_name, placement, warnings, bytes_extracted, msg, Cleanup::Nothing)
                },
                ExtractOutcome::Failed(e) => fail(format, final_name, placement, warnings, bytes_extracted, e, Cleanup::Staging),
                ExtractOutcome::Crashed(e) => {
                    let msg = cat(MSG_JOIN_FAILED, e.as_str());
                    fail(format, final_name, placement, warnings, bytes_extracted, msg, Cleanup::Staging)
                },
                ExtractOutcome::Done { bytes, warnings: w } => if cancelled {
                    fail(format, final_name, placement, warnings, bytes_extracted, owned(MSG_CANCELLED), Cleanup::Staging)
                } else {
                    (ImportState { phase: ImportPhase::Resolving, format, final_name, placement, warnings: w, bytes_extracted: bytes },
                        ImportAction::Resolve)
                },
            },
            _ => (ImportState { phase: ImportPhase::Extracting, format, final_name, placement, warnings, bytes_extracted },
                ImportAction::Ignore),
        },
        ImportPhase::Resolving => match event {
            ImportEvent::Resolved { outcome, cancelled } => match outcome {
                ResolveOutcome::Exists(name) => {
                    let result = ImportResult::skipped(name);
                    (ImportState { phase: ImportPhase::Finished, format, final_name, placement, warnings, bytes_extracted },
                        ImportAction::Finish { result, cleanup: Cleanup::Staging })
                },
                ResolveOutcome::Failed(e) => fail(format, final_name, placement, warnings, bytes_extracted, e, Cleanup::Staging),
                ResolveOutcome::Placed { final_name: n, placement: p } => if cancelled {
                    fail(format, final_name, placement, warnings, bytes_extracted, owned(MSG_CANCELLED), Cleanup::Staging)
                } else {
                    let clear = p == Placement::Overwritten;
                    (ImportState { phase: ImportPhase::Preparing, format, final_name: n, placement: p, warnings, bytes_extracted },
                        ImportAction::Prepare { clear })
                },
            },
            _ => (ImportState { phase: ImportPhase::Resolving, format, final_name, placement, warnings, bytes_extracted },
                ImportAction::Ignore),
        },
        ImportPhase::Preparing => match event {
            ImportEvent::Prepared { outcome, cancelled } => match outcome {
                PrepareOutcome::ClearFailed { target, error } => {
                    let head = cat3(MSG_CLEAR_PRE, target.as_str(), MSG_CLEAR_MID);
                    let msg = cat(head.as_str(), error.as_str());
                    fail(format, final_name, placement, warnings, bytes_extracted, msg, Cleanup::Staging)
                },
                PrepareOutcome::ParentFailed(e) => {
                    let msg = cat(MSG_PARENT_FAILED, e.as_str());
                    fail(format, final_name, placement, warnings, bytes_extracted, msg, Cleanup::Staging)
                },
                PrepareOutcome::Ready => if cancelled {
                    fail(format, final_name, placement, warnings, bytes_extracted, owned(MSG_CANCELLED), Cleanup::Staging)
                } else {
                    (ImportState { phase: ImportPhase::Moving { attempt: 1 }, format, final_name, placement, warnings, bytes_extracted },
                        ImportAction::Rename { delay_millis: 0 })
                },
            },
            _ => (ImportState { phase: ImportPhase::Preparing, format, final_name, placement, warnings, bytes_extracted },
                ImportAction::Ignore),
        },
        ImportPhase::Moving { attempt } => match event {
            ImportEvent::Renamed(Ok(())) =>
                (ImportState { phase: ImportPhase::Verifying, format, final_name, placement, warnings, bytes_extracted },
                    ImportAction::Settle { copied: false }),
            ImportEvent::Renamed(Err(e)) => if attempt < MAX_RENAME_ATTEMPTS {
                (ImportState { phase: ImportPhase::Moving { attempt: attempt + 1 }, format, final_name, placement, warnings, bytes_extracted },
                    ImportAction::Rename { delay_millis: RENAME_BACKOFF_MILLIS * attempt })
            } else {
                (ImportState { phase: ImportPhase::Copying { rename_error: e }, format, final_name, placement, warnings, bytes_extracted },
                    ImportAction::Copy)
            },
            _ => (ImportState { phase: ImportPhase::Moving { attempt }, format, final_name, placement, warnings, bytes_extracted },
                ImportAction::Ignore),
        },
        ImportPhase::Copying { rename_error } => match event {
            ImportEvent::Copied(CopyOutcome::Copied) =>
                (ImportState { phase: ImportPhase::Verifying, format, final_name, placement, warnings, bytes_extracted },
                    ImportAction::Settle { copied: true }),
            ImportEvent::Copied(CopyOutcome::Failed(c)) => {
                let head = cat3(MSG_COPY_PRE, rename_error.as_str(), MSG_COPY_MID);
                let msg = cat3(head.as_str(), c.as_str(), MSG_COPY_POST);
                fail(format, final_name, placement, warnings, bytes_extracted, msg, Cleanup::Staging)
            },
            ImportEvent::Copied(CopyOutcome::Crashed(j)) => {
                let head = cat3(MSG_COPY_CRASH_PRE, rename_error.as_str(), MSG_COPY_CRASH_MID);
                let msg = cat(head.as_str(), j.as_str());
                fail(format, final_name, placement, warnings, bytes_extracted, msg, Cleanup::Staging)
            },
            _ => (ImportState { phase: ImportPhase::Copying { rename_error }, format, final_name, placement, warnings, bytes_extracted },
                ImportAction::Ignore),
        },
        ImportPhase::Verifying => match event {
            ImportEvent::Verified { settings_exists, cancelled } => if !settings_exists {
                fail(format, final_name, placement, warnings, bytes_extracted, owned(MSG_NO_SETTINGS), Cleanup::Target)
            } else if cancelled {
                fail(format, final_name, placement, warnings, bytes_extracted, owned(MSG_CANCELLED), Cleanup::Target)
            } else {
                (ImportState { phase: ImportPhase::Syncing, format, final_name, placement, warnings, bytes_extracted },
                    ImportAction::Sync)
            },
            _ => (ImportState { phase: ImportPhase::Verifying, format, final_name, placement, warnings, bytes_extracted },
                ImportAction::Ignore),
        },
        ImportPhase::Syncing => match event {
            ImportEvent::Synced(Err(e)) => {
                let msg = cat(MSG_SYNC_FAILED, e.as_str());
                fail(format, final_name, placement, warnings, bytes_extracted, msg, Cleanup::Target)
            },
            ImportEvent::Synced(Ok(())) => {
                let folder = owned(final_name.as_str());
                (ImportState { phase: ImportPhase::LookingUp, format, final_name, placement, warnings, bytes_extracted },
                    ImportAction::LookUp { folder })
            },
            _ => (ImportState { phase: ImportPhase::Syncing, format, final_name, placement, warnings, bytes_extracted },
                ImportAction::Ignore),
        },
        ImportPhase::LookingUp => match event {
            ImportEvent::LookedUp(Err(e)) => fail(format, final_name, placement, warnings, bytes_extracted, e, Cleanup::Nothing),
            ImportEvent::LookedUp(Ok(id)) => {
                let result = ImportResult {
                    role_id: id,
                    role_name: final_name,
                    conflict_action: owned(placement_text(placement)),
                    warnings,
                    bytes_extracted,
                };
                (ImportState { phase: ImportPhase::Finished, format, final_name: String::new(), placement, warnings: Vec::new(), bytes_extracted },
                    ImportAction::Finish { result, cleanup: Cleanup::Nothing })
            },
            _ => (ImportState { phase: ImportPhase::LookingUp, format, final_name, placement, warnings, bytes_extracted },
                ImportAction::Ignore),
        },
        ImportPhase::Finished => (ImportState { phase: ImportPhase::Finished, format, final_name, placement, warnings, bytes_extracted },
            ImportAction::Ignore),
    }
}

// ---------- the content root ----------

/// What an entry of the staging folder is.
#[derive(Debug, Clone, Copy, PartialEq, Eq, Structural)]
pub enum EntryKind {
    Dir,
    File,
    Other,
}

/// Archive debris that says nothing about the layout: `__MACOSX`, `._*`
/// and `.DS_Store`.
pub open spec fn layout_noise(name: Seq<char>) -> bool {
    name == "__MACOSX"@ || starts_with(name, "._"@) || name == ".DS_Store"@
}

/// The entry `k` wraps the role: it is the only folder and no file lies
/// beside it (debris aside).
pub open spec fn wrapper_at(entries: Seq<(Seq<char>, EntryKind)>, k: int) -> bool {
    &&& 0 <= k < entries.len()
    &&& !layout_noise(entries[k].0)
    &&& entries[k].1 == EntryKind::Dir
    &&& forall|j: int| 0 <= j < entries.len() && j != k && !layout_noise(#[trigger] entries[j].0)
            ==> entries[j].1 == EntryKind::Other
}

/// The plain values of staging entries.
pub open spec fn staging_views(v: Seq<(String, EntryKind)>) -> Seq<(Seq<char>, EntryKind)> {
    v.map_values(|e: (String, EntryKind)| (e.0@, e.1))
}

fn is_layout_noise(name: &str) -> (r: bool)
    ensures
        r == layout_noise(name@),
{
    str_eq(name, "__MACOSX") || starts_with_str(name, "._") || str_eq(name, ".DS_Store")
}

/// The entry of the staging folder that holds the role when the archive
/// wraps it in one folder; none when the content lies in the staging
/// folder itself.
pub fn locate_content_root(entries: &Vec<(String, EntryKind)>) -> (r: Option<usize>)
    ensures
        match r {
            Some(k) => wrapper_at(staging_views(entries@), k as int),
            None => forall|k: int| !wrapper_at(staging_views(entries@), k),
        },
{
    let ghost ev = staging_views(entries@);
    let mut first_dir: Option<usize> = None;
    let mut many = false;
    let mut has_files = false;
    let mut i: usize = 0;
    while i < entries.len()
        invariant
            i <= entries@.len(),
            ev == staging_views(entries@),
            ev.len() == entries@.len(),
            match first_dir {
                None => forall|j: int| 0 <= j < i && !layout_noise(#[trigger] ev[j].0) ==> ev[j].1 != EntryKind::Dir,
                Some(k) => k < i && !layout_noise(ev[k as int].0) && ev[k as int].1 == EntryKind::Dir
                    && (!many ==> forall|j: int| 0 <= j < i && j != k && !layout_noise(#[trigger] ev[j].0) ==> ev[j].1 != EntryKind::Dir)
                    && (many ==> exists|j: int| 0 <= j < i && j != k && !layout_noise(#[trigger] ev[j].0) && ev[j].1 == EntryKind::Dir),
            },
            first_dir is None ==> !many,
            has_files <==> exists|j: int| 0 <= j < i && !layout_noise(#[trigger] ev[j].0) && ev[j].1 == EntryKind::File,
        decreases entries@.len() - i,
    {
        let noise = is_layout_noise(entries[i].0.as_str());
        assert(ev[i as int] == (entries@[i as int].0@, entries@[i as int].1));
        if !noise {
            match entries[i].1 {
                EntryKind::Dir => {
                    match first_dir {
                        None => { first_dir = Some(i); },
                        Some(k) => {
                            assert(i as int != k as int && !layout_noise(ev[i as int].0) && ev[i as int].1 == EntryKind::Dir);
                            many = true;
                        },
                    }
                },
                EntryKind::File => {
                    assert(!layout_noise(ev[i as int].0) && ev[i as int].1 == EntryKind::File);
                    has_files = true;
                },
                EntryKind::Other => {},
            }
        }
        i = i + 1;
    }
    match first_dir {
        Some(k) => if !many && !has_files {
            Some(k)
        } else {
            proof {
                assert forall|x: int| !wrapper_at(ev, x) by {
                    if wrapper_at(ev, x) {
                        if many {
                            let j = choose|j: int| 0 <= j < ev.len() && j != k && !layout_noise(#[trigger] ev[j].0) && ev[j].1 == EntryKind::Dir;
                            if x != j {
                                assert(ev[j].1 == EntryKind::Other);
                            } else {
                                assert(ev[k as int].1 == EntryKind::Other);
                            }
                        } else {
                            let j = choose|j: int| 0 <= j < ev.len() && !layout_noise(#[trigger] ev[j].0) && ev[j].1 == EntryKind::File;
                            assert(j != x);
                            assert(ev[j].1 == EntryKind::Other);
                        }
                    }
                }
            }
            None
        },
        None => {
            proof {
                assert forall|x: int| !wrapper_at(ev, x) by {
                    if 0 <= x < ev.len() && !layout_noise(ev[x].0) {
                        assert(ev[x].1 != EntryKind::Dir);
                    }
                }
            }
            None
        },
    }
}

} // verus!
