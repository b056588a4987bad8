use pinora::desktop_shell::{CaptureMode, CaptureTarget, DisplayBounds, OverlayInitialSelection};
use pinora::event_loop::{
    about_to_wait_step, tray_action_allowed, DelayedCapture, LoopAction, LoopState, LoopWait, ShellMode, TrayAction,
};
use pinora::export_job::{global_selection_rect, overlay_finish_plan, FinishExport, FinishJob, OverlayFinish};
use pinora::geometry::{PixelPoint, PixelRect};
use pinora::model::{JobOwner, PinId, SessionId};
use pinora::overlay_keys::{overlay_accepts_ime_text, overlay_window_key, OverlayWindowKey, OverlayWindowKeyAction};
use pinora::overlay_paint::{damage_region, plan_overlay_repaint, uses_annotation_cache, DamageRegion, RepaintPlan};
use pinora::overlay_pointer::{overlay_drag_move, DragMove};
use pinora::overlay_target::{
    cached_frame_lookup, cached_frame_overlay_target, display_overlay_target, overlay_window_style, CachedFrameLookup,
    OverlayPresentation,
};

#[test]
fn window_keys_finish_or_edit() {
    assert_eq!(overlay_window_key(OverlayWindowKey::Escape, true, false), OverlayWindowKeyAction::CancelDraft);
    assert_eq!(overlay_window_key(OverlayWindowKey::Escape, false, true), OverlayWindowKeyAction::CancelOverlay);
    assert_eq!(overlay_window_key(OverlayWindowKey::Enter, false, true), OverlayWindowKeyAction::CommitText);
    assert_eq!(overlay_window_key(OverlayWindowKey::Enter, true, false), OverlayWindowKeyAction::FinishPin);
    assert_eq!(overlay_window_key(OverlayWindowKey::Space, false, true), OverlayWindowKeyAction::TypeSpace);
    assert_eq!(overlay_window_key(OverlayWindowKey::Space, false, false), OverlayWindowKeyAction::FinishPin);
    assert_eq!(overlay_window_key(OverlayWindowKey::Other, true, true), OverlayWindowKeyAction::PassOn);
    assert!(overlay_accepts_ime_text(true, true, "文字"));
    assert!(!overlay_accepts_ime_text(true, true, ""));
    assert!(!overlay_accepts_ime_text(false, true, "a"));
}

#[test]
fn dragging_reselects_after_four_pixels_and_redraws_after_two() {
    let anchor = PixelPoint::new(100, 100);
    assert_eq!(overlay_drag_move(true, anchor, anchor, PixelPoint::new(103, 97), 0), DragMove::Wait);
    assert_eq!(overlay_drag_move(true, anchor, anchor, PixelPoint::new(96, 100), 0), DragMove::StartReselect);
    assert_eq!(overlay_drag_move(false, anchor, anchor, PixelPoint::new(101, 101), 5), DragMove::Follow { redraw: false });
    assert_eq!(overlay_drag_move(false, anchor, anchor, PixelPoint::new(101, 98), 5), DragMove::Follow { redraw: true });
    assert_eq!(overlay_drag_move(false, anchor, anchor, PixelPoint::new(100, 100), 32), DragMove::Follow { redraw: true });
    let far = PixelPoint::new(i32::MIN / 4, i32::MIN / 4);
    assert_eq!(overlay_drag_move(false, anchor, far, anchor, 0), DragMove::Follow { redraw: true });
}

#[test]
fn finishing_a_capture_or_a_pin_edit() {
    let session = SessionId::from_raw(7);
    let pin = PinId::from_raw(3);
    let copy = overlay_finish_plan(OverlayFinish::Copy, None, session);
    assert_eq!(copy.replace_pin, None);
    assert_eq!(copy.export, Some(FinishJob { owner: JobOwner::Session(session), export: FinishExport::Copy }));
    assert!(!copy.open_pin);
    let pinned = overlay_finish_plan(OverlayFinish::Pin, None, session);
    assert_eq!(pinned.export, None);
    assert!(pinned.open_pin);
    let edited = overlay_finish_plan(OverlayFinish::Save, Some(pin), session);
    assert_eq!(edited.replace_pin, Some(pin));
    assert_eq!(edited.export, Some(FinishJob { owner: JobOwner::Pin(pin), export: FinishExport::Save }));
    assert!(!edited.open_pin);
    let applied = overlay_finish_plan(OverlayFinish::Pin, Some(pin), session);
    assert_eq!((applied.replace_pin, applied.export, applied.open_pin), (Some(pin), None, false));
}

#[test]
fn selections_move_to_desktop_coordinates() {
    let r = global_selection_rect(PixelPoint::new(1920, -10), PixelRect::new(5, 6, 7, 8));
    assert_eq!(r, PixelRect::new(1925, -4, 7, 8));
    let saturated = global_selection_rect(PixelPoint::new(i32::MAX, i32::MIN), PixelRect::new(5, -6, 1, 1));
    assert_eq!(saturated.origin, PixelPoint::new(i32::MAX, i32::MIN));
}

#[test]
fn screen_grabs_use_cached_frames_only_for_displays() {
    assert_eq!(cached_frame_lookup(&CaptureTarget::DefaultLargest, true, None), CachedFrameLookup::Any);
    assert_eq!(
        cached_frame_lookup(&CaptureTarget::Display("DP-1".into()), true, Some("DP-1")),
        CachedFrameLookup::Display("DP-1".into())
    );
    assert_eq!(cached_frame_lookup(&CaptureTarget::AllDisplays, true, None), CachedFrameLookup::Skip);
    assert_eq!(cached_frame_lookup(&CaptureTarget::Window(4), true, None), CachedFrameLookup::Skip);
    assert_eq!(cached_frame_lookup(&CaptureTarget::DefaultLargest, false, None), CachedFrameLookup::Skip);

    let cached = cached_frame_overlay_target("DP-1", PixelPoint::new(10, 20), 0, 1080, CaptureMode::Region);
    assert_eq!((cached.image_width, cached.image_height), (1, 1080));
    assert_eq!(cached.initial_selection, OverlayInitialSelection::Manual);
    assert_eq!(cached.presentation, OverlayPresentation::ScreenCapture);
    assert_eq!(cached.min_selection_edge, 2);

    let display = DisplayBounds { id: "HDMI-1".into(), bounds: PixelRect::new(-1280, 0, 1280, 1024) };
    let fresh = display_overlay_target(&display, CaptureMode::FullDisplay);
    assert_eq!(fresh.display_id, "HDMI-1");
    assert_eq!(fresh.display_origin, PixelPoint::new(-1280, 0));
    assert_eq!((fresh.image_width, fresh.image_height), (1280, 1024));
    assert_eq!(fresh.initial_selection, OverlayInitialSelection::FullImage);
    assert_eq!(fresh.edit_pin_id, None);
}

#[test]
fn overlay_windows_follow_their_presentation() {
    let screen = overlay_window_style(OverlayPresentation::ScreenCapture);
    assert!(screen.fullscreen && !screen.decorations && !screen.always_on_top);
    let desktop = overlay_window_style(OverlayPresentation::VirtualDesktop);
    assert!(desktop.at_display_origin && !desktop.resizable && desktop.always_on_top);
    assert_eq!(desktop.title, "Pinora Virtual Desktop Capture");
    let editor = overlay_window_style(OverlayPresentation::PinEditor);
    assert!(editor.decorations && editor.resizable && editor.always_on_top && !editor.fullscreen);
    assert_eq!(editor.title, "Pinora Pin Edit");
}

#[test]
fn delayed_capture_takes_only_cancel_and_quit() {
    assert!(tray_action_allowed(false, &TrayAction::Settings));
    assert!(!tray_action_allowed(true, &TrayAction::Capture));
    assert!(!tray_action_allowed(true, &TrayAction::CaptureDisplay("DP-1".into())));
    assert!(tray_action_allowed(true, &TrayAction::CancelDelayedCapture));
    assert!(tray_action_allowed(true, &TrayAction::Quit));

    let delayed = DelayedCapture::new(1_000, 3_000, vec![1u64, 2]);
    assert_eq!(delayed.deadline_ms, 4_000);
    assert!(!delayed.is_due(3_999));
    assert!(delayed.is_due(4_000));
}

#[test]
fn the_loop_paces_work_and_sleep() {
    let idle = LoopState {
        quit: false,
        mode: ShellMode::Idle,
        loading: false,
        overlay_open: false,
        overlay_needs_redraw: false,
        since_present_us: 0,
    };
    let step = about_to_wait_step(idle);
    assert_eq!((step.action, step.wait), (LoopAction::Nothing, Some(LoopWait::Micros(50_000))));
    let step = about_to_wait_step(LoopState { quit: true, ..idle });
    assert_eq!((step.action, step.wait), (LoopAction::Exit, None));
    let step = about_to_wait_step(LoopState { mode: ShellMode::DelayedCapture, ..idle });
    assert_eq!((step.action, step.wait), (LoopAction::PollDelayedCapture, Some(LoopWait::Micros(30_000))));
    let step = about_to_wait_step(LoopState { mode: ShellMode::LoadingCapture, loading: true, ..idle });
    assert_eq!((step.action, step.wait), (LoopAction::Nothing, Some(LoopWait::Micros(30_000))));
    let drawing = LoopState { overlay_open: true, overlay_needs_redraw: true, since_present_us: 20_000, ..idle };
    let step = about_to_wait_step(drawing);
    assert_eq!((step.action, step.wait), (LoopAction::RequestOverlayRedraw, Some(LoopWait::UntilEvent)));
    let step = about_to_wait_step(LoopState { since_present_us: 6_666, ..drawing });
    assert_eq!((step.action, step.wait), (LoopAction::Nothing, Some(LoopWait::Micros(10_000))));
    let step = about_to_wait_step(LoopState { mode: ShellMode::StartCapture, ..idle });
    assert_eq!((step.action, step.wait), (LoopAction::TryStartCapture, Some(LoopWait::Micros(30_000))));
}

#[test]
fn repaints_follow_what_changed() {
    let sel = Some(PixelRect::new(10, 10, 20, 20));
    let tb = Some(PixelRect::new(10, 35, 100, 30));
    assert_eq!(plan_overlay_repaint(sel, sel, tb, tb, false, false, true, 200, 100), RepaintPlan::Nothing);
    assert_eq!(
        plan_overlay_repaint(sel, sel, tb, tb, true, false, true, 200, 100),
        RepaintPlan::ChromeOnly { region: tb }
    );
    assert_eq!(
        plan_overlay_repaint(sel, sel, None, tb, true, false, true, 200, 100),
        RepaintPlan::Full { restore: vec![PixelRect::new(7, 7, 26, 26)], selection: sel, damage: vec![PixelRect::new(7, 7, 26, 26), PixelRect::new(7, 7, 26, 26), tb.unwrap()] }
    );
    let moved = Some(PixelRect::new(0, 0, 5, 5));
    assert_eq!(
        plan_overlay_repaint(sel, moved, tb, None, false, false, true, 200, 100),
        RepaintPlan::Full {
            restore: vec![PixelRect::new(7, 7, 26, 26), tb.unwrap()],
            selection: moved,
            damage: vec![PixelRect::new(7, 7, 26, 26), tb.unwrap(), PixelRect::new(0, 0, 8, 8)],
        }
    );
    assert_eq!(
        plan_overlay_repaint(None, None, None, None, true, false, false, 200, 100),
        RepaintPlan::Full { restore: vec![], selection: None, damage: vec![] }
    );

    assert!(uses_annotation_cache(true, true, Some(PixelRect::new(0, 0, 4, 3)), 4, 3));
    assert!(!uses_annotation_cache(true, true, Some(PixelRect::new(0, 0, 4, 3)), 3, 4));
    assert!(!uses_annotation_cache(true, false, Some(PixelRect::new(0, 0, 4, 3)), 4, 3));
    assert!(!uses_annotation_cache(true, true, None, 4, 3));

    assert_eq!(damage_region(PixelRect::new(-5, 90, 20, 20), 200, 100), Some(DamageRegion { x: 0, y: 90, width: 15, height: 10 }));
    assert_eq!(damage_region(PixelRect::new(250, 10, 20, 20), 200, 100), None);
}
