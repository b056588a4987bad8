use pinora::geometry::PixelRect;
use pinora::history::{HistoryEntry, HistoryEntryState, HistoryOcrState};
use pinora::history_cleanup::{
    managed_history_png_path, managed_png_file_name, mark_all_deleted, mark_deleted,
    plan_cleanup, settle_cleanup, CleanupAction, RemovalOutcome,
};
use pinora::export_job::{ExportImageFormat, ExportJobInput};
use pinora::history_export::{
    check_history_digest, check_history_file, check_history_frame, history_candidate_for_export,
    history_image_path, history_png_buffer_len,
};
use pinora::model::{AssetGeneration, AssetRef, ImageId, JobOwner, SessionId};

fn history_entry(image_id: u64, file_name: &str) -> HistoryEntry {
    HistoryEntry {
        image_id: ImageId::from_raw(image_id),
        generation: AssetGeneration::from_raw(1).expect("generation"),
        created_at_ms: image_id,
        display: "display-1".into(),
        source_rect: PixelRect::new(40, 50, 2, 2),
        file_name: file_name.into(),
        byte_len: 3,
        digest: [7; 32],
        ocr: HistoryOcrState::Unknown,
        state: HistoryEntryState::Active,
    }
}

#[test]
fn only_managed_png_saves_produce_candidates() {
    let export_dir = "/data/exports";
    let image = ImageId::from_raw(42);
    let asset = AssetRef::new(image, AssetGeneration::from_raw(1).expect("generation"));
    let owner = JobOwner::Session(SessionId::from_raw(9));
    let save = |path: &str, format: ExportImageFormat| ExportJobInput::SaveImage {
        image,
        path: path.to_string(),
        format,
        jpeg_quality: 90,
    };
    let candidate = |input: &ExportJobInput| {
        history_candidate_for_export(export_dir, owner, asset, input, "display-1", PixelRect::new(40, 50, 2, 2), 1234)
    };

    assert!(candidate(&save("/data/external.png", ExportImageFormat::Png)).is_none());
    assert!(candidate(&save("/data/exports/nested/img-42.png", ExportImageFormat::Png)).is_none());
    assert!(candidate(&save("/data/exports/img-42.jpg", ExportImageFormat::Png)).is_none());
    assert!(candidate(&ExportJobInput::CopyImage { image }).is_none());
    assert!(candidate(&ExportJobInput::CopyText { text: "OCR text".into() }).is_none());

    let kept = candidate(&save("/data/exports/img-42.png", ExportImageFormat::Png)).expect("managed candidate");
    assert_eq!(kept.file_name, "img-42.png");
    assert_eq!(kept.path, "/data/exports/img-42.png");
    assert_eq!(kept.display, "display-1");
    assert_eq!(kept.source_rect, PixelRect::new(40, 50, 2, 2));
    assert_eq!(kept.created_at_ms, 1234);
    assert_eq!(kept.asset, asset);
    assert_eq!(kept.owner, owner);
}

#[test]
fn candidates_need_a_png_save_of_the_same_image() {
    let export_dir = "/data/exports";
    let asset = AssetRef::new(ImageId::from_raw(42), AssetGeneration::from_raw(1).expect("generation"));
    let owner = JobOwner::Session(SessionId::from_raw(9));
    let other_image = ExportJobInput::SaveImage {
        image: ImageId::from_raw(43),
        path: "/data/exports/img-42.png".into(),
        format: ExportImageFormat::Png,
        jpeg_quality: 90,
    };
    assert!(history_candidate_for_export(export_dir, owner, asset, &other_image, "d", PixelRect::new(0, 0, 1, 1), 1).is_none());
    let webp = ExportJobInput::SaveImage {
        image: ImageId::from_raw(42),
        path: "/data/exports/img-42.png".into(),
        format: ExportImageFormat::WebP,
        jpeg_quality: 90,
    };
    assert!(history_candidate_for_export(export_dir, owner, asset, &webp, "d", PixelRect::new(0, 0, 1, 1), 1).is_none());
}

#[test]
fn managed_file_names_come_from_direct_png_children() {
    let export_dir = "/data/exports";
    assert_eq!(
        managed_png_file_name(export_dir, "/data/exports/img-42.png"),
        Some("img-42.png".to_string())
    );
    assert_eq!(managed_png_file_name(export_dir, "/data/external.png"), None);
    assert_eq!(managed_png_file_name(export_dir, "/data/exports/nested/img-42.png"), None);
    assert_eq!(managed_png_file_name(export_dir, "/data/exports/img-42.jpg"), None);
    assert_eq!(managed_png_file_name(export_dir, "/data/exports/.png"), None);
}

#[test]
fn history_image_checks_refuse_mismatched_files_and_frames() {
    let entry = history_entry(5, "img-5.png");
    assert_eq!(history_image_path("/data/exports", &entry).unwrap(), "/data/exports/img-5.png");
    assert_eq!(
        history_image_path("/data/exports", &history_entry(6, "../img.png")).unwrap_err(),
        "history file name is invalid"
    );
    assert!(check_history_file(&entry, true, false, 3).is_ok());
    assert_eq!(check_history_file(&entry, false, false, 3).unwrap_err(), "history image is not a regular file");
    assert_eq!(check_history_file(&entry, true, true, 3).unwrap_err(), "history image is not a regular file");
    assert_eq!(check_history_file(&entry, true, false, 4).unwrap_err(), "history image length does not match index");
    let mut empty = history_entry(7, "img-7.png");
    empty.byte_len = 0;
    assert_eq!(check_history_file(&empty, true, false, 0).unwrap_err(), "history image exceeds read limit");
    assert!(check_history_digest(&entry, &[7; 32]).is_ok());
    assert_eq!(check_history_digest(&entry, &[8; 32]).unwrap_err(), "history image digest does not match index");
    assert_eq!(history_png_buffer_len(2, 2).unwrap(), 16);
    assert_eq!(history_png_buffer_len(0, 2).unwrap_err(), "history image dimensions exceed limit");
    assert_eq!(history_png_buffer_len(8192, 8192).unwrap_err(), "history image dimensions exceed limit");
    assert_eq!(history_png_buffer_len(u32::MAX, u32::MAX).unwrap_err(), "history image dimensions overflow");
    assert!(check_history_frame(&entry, true, 2, 2, 16, 16).is_ok());
    assert_eq!(
        check_history_frame(&entry, false, 2, 2, 16, 16).unwrap_err(),
        "history image PNG metadata does not match index"
    );
    assert!(check_history_frame(&entry, true, 3, 2, 24, 24).is_err());
    assert!(check_history_frame(&entry, true, 2, 2, 12, 16).is_err());
}

#[test]
fn managed_history_paths_reject_separators_and_other_extensions() {
    assert_eq!(
        managed_history_png_path("/data/exports", "old.png"),
        Some("/data/exports/old.png".to_string())
    );
    assert_eq!(managed_history_png_path("/data/exports", "../old.png"), None);
    assert_eq!(managed_history_png_path("/data/exports", "a\\b.png"), None);
    assert_eq!(managed_history_png_path("/data/exports", "old.jpg"), None);
    assert_eq!(managed_history_png_path("/data/exports", ""), None);
    assert_eq!(managed_history_png_path("/data/exports", ".png"), None);
}

#[test]
fn cleanup_removes_managed_tombstone_and_persists_compaction() {
    let mut entries = vec![history_entry(61, "old.png")];
    assert_eq!(mark_deleted(&mut entries, ImageId::from_raw(61)), Some(0));
    entries.push(history_entry(62, "active.png"));

    let steps = plan_cleanup(&entries, "/data/exports");
    assert_eq!(steps.len(), 1);
    assert_eq!(steps[0].action, CleanupAction::Remove("/data/exports/old.png".into()));
    let cleanup = settle_cleanup(&mut entries, &steps, &vec![RemovalOutcome::Removed]);

    assert_eq!(cleanup.removed_files, 1);
    assert_eq!(cleanup.missing_files, 0);
    assert_eq!(cleanup.protected_files, 0);
    assert_eq!(cleanup.failed_files, 0);
    assert_eq!(cleanup.compacted_entries, 1);
    assert_eq!(entries.len(), 1);
    assert_eq!(entries[0].file_name, "active.png");
}

#[test]
fn cleanup_compacts_missing_file_without_touching_active_same_name() {
    let mut entries = vec![history_entry(63, "missing.png")];
    mark_deleted(&mut entries, ImageId::from_raw(63)).expect("mark missing");
    entries.push(history_entry(64, "shared.png"));
    mark_deleted(&mut entries, ImageId::from_raw(64)).expect("mark shared tombstone");
    entries.push(history_entry(65, "shared.png"));

    let steps = plan_cleanup(&entries, "/data/exports");
    assert_eq!(steps.len(), 2);
    assert_eq!(steps[1].action, CleanupAction::Protected);
    let cleanup = settle_cleanup(
        &mut entries,
        &steps,
        &vec![RemovalOutcome::Missing, RemovalOutcome::Removed],
    );

    assert_eq!(cleanup.removed_files, 0);
    assert_eq!(cleanup.missing_files, 1);
    assert_eq!(cleanup.protected_files, 1);
    assert_eq!(cleanup.failed_files, 0);
    assert_eq!(cleanup.compacted_entries, 1);
    assert_eq!(entries.len(), 2);
    assert!(entries
        .iter()
        .any(|entry| entry.file_name == "shared.png" && entry.state == HistoryEntryState::Tombstone));
    assert!(entries
        .iter()
        .any(|entry| entry.file_name == "shared.png" && entry.state == HistoryEntryState::Active));
}

#[test]
fn cleanup_keeps_tombstone_when_file_is_not_removable() {
    let mut entries = vec![history_entry(66, "blocked.png")];
    mark_deleted(&mut entries, ImageId::from_raw(66)).expect("mark blocked");

    let steps = plan_cleanup(&entries, "/data/exports");
    let cleanup = settle_cleanup(&mut entries, &steps, &vec![RemovalOutcome::Failed]);

    assert_eq!(cleanup.failed_files, 1);
    assert_eq!(cleanup.compacted_entries, 0);
    assert_eq!(entries.len(), 1);
    assert_eq!(entries[0].state, HistoryEntryState::Tombstone);
}

#[test]
fn unmanaged_tombstone_names_are_never_touched() {
    let mut entries = vec![history_entry(67, "../escape.png"), history_entry(68, "x.png")];
    mark_deleted(&mut entries, ImageId::from_raw(67)).expect("mark");
    let steps = plan_cleanup(&entries, "/data/exports");
    assert_eq!(steps[0].action, CleanupAction::Unmanaged);
    let cleanup = settle_cleanup(&mut entries, &steps, &vec![RemovalOutcome::Removed]);
    assert_eq!(cleanup.failed_files, 1);
    assert_eq!(cleanup.compacted_entries, 0);
    assert_eq!(entries.len(), 2);
}

#[test]
fn delete_requires_an_active_entry() {
    let mut entries = vec![history_entry(71, "saved.png")];
    let before = entries.clone();
    assert_eq!(mark_deleted(&mut entries, ImageId::from_raw(99)), None);
    assert_eq!(entries, before);
    assert_eq!(mark_deleted(&mut entries, ImageId::from_raw(71)), Some(0));
    assert_eq!(mark_deleted(&mut entries, ImageId::from_raw(71)), None);
}

#[test]
fn history_clear_marks_all_then_compacts_managed_files() {
    let mut entries = vec![history_entry(81, "one.png"), history_entry(82, "two.png")];
    assert_eq!(mark_all_deleted(&mut entries), 2);
    let steps = plan_cleanup(&entries, "/data/exports");
    let cleanup = settle_cleanup(
        &mut entries,
        &steps,
        &vec![RemovalOutcome::Removed, RemovalOutcome::Removed],
    );
    assert_eq!(cleanup.removed_files, 2);
    assert_eq!(cleanup.compacted_entries, 2);
    assert!(entries.is_empty());
}
