use pinora::annotate::AnnotateTool;
use pinora::desktop_shell::{
    annotation_history_action, buf_rect_to_src, capture_failure_scope,
    initial_selection_for_capture, overlay_click_finishes_copy, pending_asset_for_owner,
    resolve_capture_target, snapshot_visible_ids, AnnotationHistoryAction, CaptureFailureScope,
    CaptureMode, CaptureTarget, DisplayBounds, OverlayInitialSelection,
};
use pinora::geometry::PixelRect;
use pinora::model::{AssetRef, ErrorCode, ImageId, JobId, JobOwner, SessionId};

#[test]
fn delayed_capture_snapshot_keeps_only_previously_visible_ids() {
    let snapshot = snapshot_visible_ids(&vec![(11_u8, true), (12_u8, false), (13_u8, true)]);

    assert_eq!(snapshot, vec![11, 13]);
}

#[test]
fn annotation_history_shortcuts_distinguish_undo_and_redo() {
    assert_eq!(
        annotation_history_action(true, false, "z"),
        Some(AnnotationHistoryAction::Undo)
    );
    assert_eq!(
        annotation_history_action(true, true, "Z"),
        Some(AnnotationHistoryAction::Redo)
    );
    assert_eq!(
        annotation_history_action(true, false, "y"),
        Some(AnnotationHistoryAction::Redo)
    );
    assert_eq!(annotation_history_action(false, false, "z"), None);
}

#[test]
fn sequence_tool_consumes_a_double_click_instead_of_copying_the_overlay() {
    assert!(overlay_click_finishes_copy(AnnotateTool::Rect, true));
    assert!(!overlay_click_finishes_copy(AnnotateTool::Rect, false));
    assert!(!overlay_click_finishes_copy(AnnotateTool::Number, true));
}

#[test]
fn buf_to_src_identity_when_1to1() {
    let r = buf_rect_to_src(PixelRect::new(10, 20, 100, 50), 3840, 2160, 3840, 2160);
    assert_eq!(r.origin.x, 10);
    assert_eq!(r.origin.y, 20);
    assert_eq!(r.size.width, 100);
    assert_eq!(r.size.height, 50);
}

#[test]
fn buf_to_src_maps_half_buffer() {
    let r = buf_rect_to_src(PixelRect::new(0, 0, 1920, 1080), 1920, 1080, 3840, 2160);
    assert_eq!(r.size.width, 3840);
    assert_eq!(r.size.height, 2160);
}

#[test]
fn capture_modes_map_to_their_overlay_initial_selection() {
    assert_eq!(
        initial_selection_for_capture(CaptureMode::Region),
        OverlayInitialSelection::Manual
    );
    assert_eq!(
        initial_selection_for_capture(CaptureMode::FullDisplay),
        OverlayInitialSelection::FullImage
    );
    assert_eq!(
        initial_selection_for_capture(CaptureMode::AllDisplays),
        OverlayInitialSelection::FullImage
    );
    assert_eq!(
        initial_selection_for_capture(CaptureMode::Window),
        OverlayInitialSelection::FullImage
    );
    assert_eq!(CaptureMode::FullDisplay.label(), "full-display");
}

#[test]
fn delayed_failure_recovery_precedes_window_and_standard_capture_scopes() {
    let window = CaptureTarget::Window(4);

    assert_eq!(
        capture_failure_scope(&CaptureTarget::DefaultLargest, false),
        CaptureFailureScope::Standard
    );
    assert_eq!(
        capture_failure_scope(&window, false),
        CaptureFailureScope::Window
    );
    assert_eq!(
        capture_failure_scope(&window, true),
        CaptureFailureScope::Delayed
    );
}

fn display(id: &str, bounds: PixelRect) -> DisplayBounds {
    DisplayBounds {
        id: id.to_string(),
        bounds,
    }
}

#[test]
fn explicit_capture_target_never_falls_back_to_another_display() {
    let displays = vec![
        display("left", PixelRect::new(-1920, 0, 1920, 1080)),
        display("right", PixelRect::new(0, 0, 2560, 1440)),
    ];

    let selected = resolve_capture_target(&displays, &CaptureTarget::Display("left".to_string()))
        .expect("selected display");
    assert_eq!(displays[selected].id, "left");

    let error = resolve_capture_target(
        &displays,
        &CaptureTarget::Display("unplugged".to_string()),
    )
    .expect_err("missing display must not fall back");
    assert_eq!(error.code, ErrorCode::NotFound);
}

#[test]
fn default_capture_target_keeps_largest_display_behavior() {
    let displays = vec![
        display("small", PixelRect::new(0, 0, 1920, 1080)),
        display("large", PixelRect::new(1920, 0, 2560, 1440)),
    ];

    let selected = resolve_capture_target(&displays, &CaptureTarget::DefaultLargest)
        .expect("largest display");
    assert_eq!(displays[selected].id, "large");
}

#[test]
fn desktop_shell_pending_export_asset_requires_matching_owner() {
    let job_id = JobId::from_raw(7);
    let owner = JobOwner::Session(SessionId::from_raw(8));
    let asset = AssetRef::initial(ImageId::from_raw(9));
    let pending = vec![(job_id, owner, asset)];

    assert_eq!(pending_asset_for_owner(&pending, job_id, owner), Some(asset));
    assert_eq!(
        pending_asset_for_owner(&pending, job_id, JobOwner::Session(SessionId::from_raw(10))),
        None
    );
}
