use lingchat::archive::{
    check_export_request, check_import_request, export_folder, is_document_uri, suggested_archive_name, ArchiveFormat,
    ConflictPolicy,
};
use lingchat::import_flow::{
    locate_content_root, step, Cleanup, CopyOutcome, EntryKind, ExtractOutcome, ImportAction, ImportEvent,
    ImportPhase, ImportState, Placement, PrepareOutcome, ResolveOutcome,
};

fn fail_of(a: &ImportAction) -> (String, Cleanup) {
    match a {
        ImportAction::Fail { message, cleanup } => (message.clone(), *cleanup),
        other => panic!("expected a failure, got {:?}", other),
    }
}

fn extracted(state: ImportState) -> ImportState {
    let (s, a) = step(state, ImportEvent::Detected(Ok(ArchiveFormat::Zip)));
    assert!(matches!(a, ImportAction::Extract));
    let (s, a) = step(
        s,
        ImportEvent::Extracted {
            outcome: ExtractOutcome::Done { bytes: 42, warnings: vec!["w".to_string()] },
            cancelled: false,
        },
    );
    assert!(matches!(a, ImportAction::Resolve));
    s
}

fn placed(placement: Placement) -> ImportState {
    let s = extracted(ImportState::new(ArchiveFormat::Zip));
    let (s, a) = step(
        s,
        ImportEvent::Resolved {
            outcome: ResolveOutcome::Placed { final_name: "Alice".to_string(), placement },
            cancelled: false,
        },
    );
    match a {
        ImportAction::Prepare { clear } => assert_eq!(clear, placement == Placement::Overwritten),
        other => panic!("unexpected {:?}", other),
    }
    let (s, a) = step(s, ImportEvent::Prepared { outcome: PrepareOutcome::Ready, cancelled: false });
    assert!(matches!(a, ImportAction::Rename { delay_millis: 0 }));
    s
}

#[test]
fn an_import_runs_to_its_report() {
    let s = placed(Placement::Renamed);
    let (s, a) = step(s, ImportEvent::Renamed(Ok(())));
    assert!(matches!(a, ImportAction::Settle { copied: false }));
    let (s, a) = step(s, ImportEvent::Verified { settings_exists: true, cancelled: false });
    assert!(matches!(a, ImportAction::Sync));
    let (s, a) = step(s, ImportEvent::Synced(Ok(())));
    match &a {
        ImportAction::LookUp { folder } => assert_eq!(folder, "Alice"),
        other => panic!("unexpected {:?}", other),
    }
    let (s, a) = step(s, ImportEvent::LookedUp(Ok(Some(9))));
    match a {
        ImportAction::Finish { result, cleanup } => {
            assert_eq!(cleanup, Cleanup::Nothing);
            assert_eq!(result.role_id, Some(9));
            assert_eq!(result.role_name, "Alice");
            assert_eq!(result.conflict_action, "renamed");
            assert_eq!(result.warnings, vec!["w".to_string()]);
            assert_eq!(result.bytes_extracted, 42);
        }
        other => panic!("unexpected {:?}", other),
    }
    assert!(matches!(s.phase, ImportPhase::Finished));
    let (_, a) = step(s, ImportEvent::Synced(Ok(())));
    assert!(matches!(a, ImportAction::Ignore));
}

#[test]
fn a_mismatched_format_is_refused() {
    let (s, a) = step(ImportState::new(ArchiveFormat::Zip), ImportEvent::Detected(Ok(ArchiveFormat::SevenZ)));
    assert_eq!(fail_of(&a), ("格式不匹配: 前端传 Zip, 实际 SevenZ".to_string(), Cleanup::Nothing));
    assert!(matches!(s.phase, ImportPhase::Finished));
}

#[test]
fn an_existing_folder_is_skipped() {
    let s = extracted(ImportState::new(ArchiveFormat::Zip));
    let (_, a) = step(s, ImportEvent::Resolved { outcome: ResolveOutcome::Exists("Alice".to_string()), cancelled: true });
    match a {
        ImportAction::Finish { result, cleanup } => {
            assert_eq!(cleanup, Cleanup::Staging);
            assert_eq!(result.conflict_action, "skipped");
            assert_eq!(result.role_name, "Alice");
            assert_eq!(result.role_id, None);
        }
        other => panic!("unexpected {:?}", other),
    }
}

#[test]
fn renames_are_retried_then_copied() {
    let s = placed(Placement::Imported);
    let (s, a) = step(s, ImportEvent::Renamed(Err("busy".to_string())));
    assert!(matches!(a, ImportAction::Rename { delay_millis: 150 }));
    let (s, a) = step(s, ImportEvent::Renamed(Err("busy".to_string())));
    assert!(matches!(a, ImportAction::Rename { delay_millis: 300 }));
    let (s, a) = step(s, ImportEvent::Renamed(Err("denied".to_string())));
    assert!(matches!(a, ImportAction::Copy));
    let (_, a) = step(s.clone(), ImportEvent::Copied(CopyOutcome::Failed("disk full".to_string())));
    assert_eq!(
        fail_of(&a),
        ("移动角色目录失败 (rename: denied; 复制回退: disk full). 可能目标正被其他进程占用.".to_string(), Cleanup::Staging)
    );
    let (_, a) = step(s, ImportEvent::Copied(CopyOutcome::Copied));
    assert!(matches!(a, ImportAction::Settle { copied: true }));
}

#[test]
fn cancellations_clean_up_what_was_written() {
    let s = ImportState::new(ArchiveFormat::Zip);
    let (s, _) = step(s, ImportEvent::Detected(Ok(ArchiveFormat::Zip)));
    let (_, a) = step(
        s,
        ImportEvent::Extracted { outcome: ExtractOutcome::Done { bytes: 1, warnings: vec![] }, cancelled: true },
    );
    assert_eq!(fail_of(&a), ("导入已取消".to_string(), Cleanup::Staging));

    let s = placed(Placement::Overwritten);
    let (s, _) = step(s, ImportEvent::Renamed(Ok(())));
    let (_, a) = step(s, ImportEvent::Verified { settings_exists: true, cancelled: true });
    assert_eq!(fail_of(&a), ("导入已取消".to_string(), Cleanup::Target));
}

#[test]
fn failures_report_their_cause() {
    let (s, _) = step(ImportState::new(ArchiveFormat::SevenZ), ImportEvent::Detected(Ok(ArchiveFormat::SevenZ)));
    let (_, a) = step(s.clone(), ImportEvent::Extracted { outcome: ExtractOutcome::StagingFailed("ro".to_string()), cancelled: false });
    assert_eq!(fail_of(&a), ("创建 staging dir: ro".to_string(), Cleanup::Nothing));
    let (_, a) = step(s, ImportEvent::Extracted { outcome: ExtractOutcome::Crashed("panic".to_string()), cancelled: false });
    assert_eq!(fail_of(&a), ("spawn_blocking join: panic".to_string(), Cleanup::Staging));

    let s = extracted(ImportState::new(ArchiveFormat::Zip));
    let (s, _) = step(
        s,
        ImportEvent::Resolved {
            outcome: ResolveOutcome::Placed { final_name: "A".to_string(), placement: Placement::Overwritten },
            cancelled: false,
        },
    );
    let (_, a) = step(
        s,
        ImportEvent::Prepared {
            outcome: PrepareOutcome::ClearFailed { target: "/c/A".to_string(), error: "locked".to_string() },
            cancelled: false,
        },
    );
    assert_eq!(
        fail_of(&a),
        ("无法覆盖已存在的角色目录 /c/A (可能正在被使用, 请关闭相关界面后重试): locked".to_string(), Cleanup::Staging)
    );

    let s = placed(Placement::Imported);
    let (s, _) = step(s, ImportEvent::Renamed(Ok(())));
    let (_, a) = step(s.clone(), ImportEvent::Verified { settings_exists: false, cancelled: false });
    assert!(fail_of(&a).0.starts_with("压缩包缺少 settings.yml"));
    assert_eq!(fail_of(&a).1, Cleanup::Target);
    let (s, _) = step(s, ImportEvent::Verified { settings_exists: true, cancelled: false });
    let (_, a) = step(s, ImportEvent::Synced(Err("db".to_string())));
    assert_eq!(fail_of(&a), ("sync roles: db".to_string(), Cleanup::Target));
}

#[test]
fn events_of_another_phase_change_nothing() {
    let s = ImportState::new(ArchiveFormat::Zip);
    let (s, a) = step(s, ImportEvent::Synced(Ok(())));
    assert!(matches!(a, ImportAction::Ignore));
    assert!(matches!(s.phase, ImportPhase::Detecting));
}

#[test]
fn the_content_root_is_the_single_wrapping_folder() {
    let wrapped = vec![
        ("__MACOSX".to_string(), EntryKind::Dir),
        ("Alice".to_string(), EntryKind::Dir),
        (".DS_Store".to_string(), EntryKind::File),
    ];
    assert_eq!(locate_content_root(&wrapped), Some(1));
    let flat = vec![("settings.yml".to_string(), EntryKind::File), ("avatar".to_string(), EntryKind::Dir)];
    assert_eq!(locate_content_root(&flat), None);
    let two = vec![("a".to_string(), EntryKind::Dir), ("b".to_string(), EntryKind::Dir)];
    assert_eq!(locate_content_root(&two), None);
    assert_eq!(locate_content_root(&vec![]), None);
}

#[test]
fn import_requests_are_checked_in_order() {
    assert_eq!(check_import_request(true, true, true, "rar", "x"), Err("已有导入任务在进行中".to_string()));
    assert_eq!(check_import_request(false, true, true, "zip", "skip"), Err("path 为空".to_string()));
    assert_eq!(check_import_request(false, true, false, "zip", "skip"), Err("空文件".to_string()));
    assert_eq!(check_import_request(false, false, false, "rar", "x"), Err("不支持的 format: rar".to_string()));
    assert_eq!(check_import_request(false, false, false, "7z", "x"), Err("不支持的 conflict: x".to_string()));
    assert_eq!(
        check_import_request(false, false, true, "7z", "overwrite"),
        Ok((ArchiveFormat::SevenZ, ConflictPolicy::Overwrite))
    );
}

#[test]
fn export_requests_and_names() {
    assert_eq!(check_export_request("zip", None), Ok(ArchiveFormat::Zip));
    assert_eq!(check_export_request("zip", Some("")), Err("dest_path 为空".to_string()));
    assert_eq!(check_export_request("tar", Some("")), Err("不支持的 format: tar".to_string()));
    assert_eq!(check_export_request("7z", Some("/tmp/a.7z")), Ok(ArchiveFormat::SevenZ));
    assert!(is_document_uri("content://com.android/doc/1"));
    assert!(!is_document_uri("/sdcard/a.zip"));
    assert_eq!(export_folder(3, Some(Some("ling".to_string()))), Ok("ling".to_string()));
    assert_eq!(export_folder(3, Some(None)), Err("role #3 has no resource_folder".to_string()));
    assert_eq!(export_folder(-1, None), Err("role #-1 not found".to_string()));
    assert_eq!(suggested_archive_name("灵灵:1", 1700, ArchiveFormat::Zip), "灵灵_1_1700.zip");
    assert_eq!(ArchiveFormat::SevenZ.as_str(), "7z");
}
