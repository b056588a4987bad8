use pinora::desktop_shell::{
    current_history_load_asset, pending_asset_for_owner, require_tray, ActiveHistoryLoad,
    HistoryLoadIntent, HistoryLoadRequest, OverlayInitialSelection,
};
use pinora::export_job::{
    running_file_export_ids, tray_export_operation, PendingExportAction, TrayExportOperation,
};
use pinora::geometry::{PixelPoint, PixelRect};
use pinora::history::{HistoryEntry, HistoryEntryState, HistoryOcrState};
use pinora::job_supervisor::JobSupervisor;
use pinora::model::{
    AssetGeneration, AssetRef, CorrelationId, ErrorCode, ImageId, JobId, JobKind, JobOwner,
    JobSpec, PinId, SessionId,
};
use pinora::overlay_target::{
    history_edit_target, pin_edit_target, sample_overlay_source_color,
    window_capture_overlay_target, CaptureWindowInfo, OverlayPresentation,
};

fn history_entry(id: u64) -> HistoryEntry {
    HistoryEntry {
        image_id: ImageId::from_raw(id),
        generation: AssetGeneration::from_raw(1).expect("generation"),
        created_at_ms: id,
        display: "display-1".into(),
        source_rect: PixelRect::new(40, 50, 2, 2),
        file_name: format!("{id}.png"),
        byte_len: 3,
        digest: [1; 32],
        ocr: HistoryOcrState::Unknown,
        state: HistoryEntryState::Active,
    }
}

#[test]
fn color_picker_samples_the_original_pixel_from_selection_local_coordinates() {
    let mut pixels: Vec<u8> = [1u8, 2, 3, 255].repeat(5 * 4);
    let index = (2 * 5 + 3) * 4;
    pixels[index..index + 4].copy_from_slice(&[0xAA, 0xBB, 0xCC, 0x80]);

    assert_eq!(
        sample_overlay_source_color(&pixels, 5, 4, PixelRect::new(2, 1, 2, 2), PixelPoint::new(1, 1)),
        Some([0xAA, 0xBB, 0xCC, 0x80])
    );
    assert_eq!(
        sample_overlay_source_color(&pixels, 5, 4, PixelRect::new(2, 1, 2, 2), PixelPoint::new(2, 1)),
        None
    );
}

#[test]
fn window_capture_opens_a_full_image_editor_without_a_display_capture_target() {
    let window = CaptureWindowInfo {
        id: 3,
        app_name: "Example".into(),
        title: "Private window".into(),
        bounds: PixelRect::new(40, 50, 800, 600),
        display: "window-display".into(),
        is_minimized: false,
    };

    let target = window_capture_overlay_target(&window);

    assert_eq!(target.display_id, window.display);
    assert_eq!(target.display_origin, window.bounds.origin);
    assert_eq!(target.image_width, 800);
    assert_eq!(target.image_height, 600);
    assert_eq!(target.initial_selection, OverlayInitialSelection::FullImage);
    assert_eq!(target.presentation, OverlayPresentation::WindowCapture);
    assert_eq!(target.min_selection_edge, 1);
    assert_eq!(target.edit_pin_id, None);
}

#[test]
fn pin_edit_opens_a_full_image_editor_for_the_existing_pin() {
    let pin_id = PinId::from_raw(37);
    let source = PixelRect::new(240, -30, 800, 600);

    let target = pin_edit_target("pin-display", source, 800, 600, pin_id);

    assert_eq!(target.display_id, "pin-display");
    assert_eq!(target.display_origin, source.origin);
    assert_eq!(target.image_width, 800);
    assert_eq!(target.image_height, 600);
    assert_eq!(target.initial_selection, OverlayInitialSelection::FullImage);
    assert_eq!(target.presentation, OverlayPresentation::PinEditor);
    assert_eq!(target.min_selection_edge, 1);
    assert_eq!(target.edit_pin_id, Some(pin_id));
}

#[test]
fn history_image_opens_an_ordinary_full_image_editor() {
    let target = history_edit_target("historic-display", PixelRect::new(240, -30, 1, 1), 1, 1);

    assert_eq!(target.display_id, "historic-display");
    assert_eq!(target.display_origin, PixelPoint::new(240, -30));
    assert_eq!(target.initial_selection, OverlayInitialSelection::FullImage);
    assert_eq!(target.presentation, OverlayPresentation::HistoryEditor);
    assert_eq!(target.min_selection_edge, 1);
    assert_eq!(target.edit_pin_id, None);
}

#[test]
fn tray_initialization_failure_does_not_leave_an_unreachable_process() {
    let error = match require_tray::<()>(Err("status notifier unavailable".to_owned())) {
        Ok(_) => panic!("tray failure must prevent tray-only startup"),
        Err(error) => error,
    };

    assert_eq!(error.code, ErrorCode::CapabilityUnavailable);
    assert!(error.message.contains("tray-only mode"));
}

#[test]
fn history_load_result_requires_current_selected_entry() {
    let entry = history_entry(31);
    let active = ActiveHistoryLoad {
        job_id: JobId::from_raw(32),
        request: HistoryLoadRequest { entry: entry.clone(), intent: HistoryLoadIntent::Preview },
    };
    let asset = AssetRef::new(entry.image_id, entry.generation);

    assert_eq!(
        current_history_load_asset(
            Some(&active),
            Some(&entry),
            JobId::from_raw(32),
            JobOwner::History(entry.image_id),
        ),
        Some(asset)
    );
    assert_eq!(
        current_history_load_asset(
            Some(&active),
            Some(&entry),
            JobId::from_raw(33),
            JobOwner::History(entry.image_id),
        ),
        None
    );
    let changed = HistoryEntry {
        generation: entry.generation.advance().expect("advance generation"),
        ..entry
    };
    assert_eq!(
        current_history_load_asset(
            Some(&active),
            Some(&changed),
            JobId::from_raw(32),
            JobOwner::History(changed.image_id),
        ),
        None
    );
}

fn pending_asset_check() {
    let job_id = JobId::from_raw(7);
    let owner = JobOwner::Session(SessionId::from_raw(8));
    let asset = AssetRef::initial(ImageId::from_raw(9));
    let pending = vec![(job_id, owner, asset)];

    assert_eq!(pending_asset_for_owner(&pending, job_id, owner), Some(asset));
    assert_eq!(
        pending_asset_for_owner(&pending, job_id, JobOwner::Session(SessionId::from_raw(10))),
        None
    );
}

#[test]
fn export_session_pending_export_asset_requires_matching_owner() {
    pending_asset_check();
}

#[test]
fn export_coordination_pending_export_asset_requires_matching_owner() {
    pending_asset_check();
}

#[test]
fn export_coordination_pending_actions_map_to_their_stable_tray_operations() {
    assert_eq!(tray_export_operation(&PendingExportAction::CopyImage), TrayExportOperation::CopyImage);
    assert_eq!(tray_export_operation(&PendingExportAction::CopyText), TrayExportOperation::CopyText);
    assert_eq!(
        tray_export_operation(&PendingExportAction::SaveImage("export.png".into())),
        TrayExportOperation::SaveFile
    );
}

#[test]
fn export_coordination_file_export_cancellation_selects_only_running_save_jobs() {
    let asset = AssetRef::initial(ImageId::from_raw(93));
    let owner = JobOwner::Session(SessionId::from_raw(93));
    let mut supervisor = JobSupervisor::new();
    for id in 1..=4 {
        supervisor
            .submit(JobSpec::new(JobId::from_raw(id), CorrelationId::from_raw(id), asset, owner, JobKind::Export, 1000))
            .expect("submit");
    }
    supervisor.fail(JobId::from_raw(4)).expect("known job");
    let pending = vec![
        (JobId::from_raw(1), PendingExportAction::SaveImage("a.png".into())),
        (JobId::from_raw(2), PendingExportAction::CopyImage),
        (JobId::from_raw(3), PendingExportAction::CopyText),
        (JobId::from_raw(4), PendingExportAction::SaveImage("b.png".into())),
    ];

    assert_eq!(running_file_export_ids(&pending, &supervisor), vec![JobId::from_raw(1)]);
}
