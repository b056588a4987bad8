use pinora::annotate::AnnotateTool;
use pinora::geometry::{PixelPoint, PixelRect};
use pinora::overlay_pointer::{is_double_click, overlay_left_press, overlay_left_release, OverlayPress};
use pinora::overlay_toolbar::{layout_toolbar, ToolbarAction};
use pinora::pin_context_menu::PinMenuAction;
use pinora::pin_input::{pin_left_press, pin_window_key, LogicalKey, PhysicalKey, PinLeftPress, PinWindowCommand};

#[test]
fn pin_keys_map_to_their_commands() {
    let ch = |s: &str| LogicalKey::Character(s.to_string());
    assert_eq!(pin_window_key(true, &ch("q"), PhysicalKey::KeyQ), PinWindowCommand::Quit);
    assert_eq!(pin_window_key(false, &LogicalKey::Other, PhysicalKey::F3), PinWindowCommand::FullDisplayCapture);
    assert_eq!(pin_window_key(false, &LogicalKey::F2, PhysicalKey::Other), PinWindowCommand::NewCapture);
    assert_eq!(pin_window_key(true, &ch("n"), PhysicalKey::KeyN), PinWindowCommand::NewCapture);
    assert_eq!(pin_window_key(false, &LogicalKey::Escape, PhysicalKey::Other), PinWindowCommand::ClosePin);
    assert_eq!(pin_window_key(false, &ch("L"), PhysicalKey::Other), PinWindowCommand::ToggleLock);
    assert_eq!(pin_window_key(false, &ch("["), PhysicalKey::Other), PinWindowCommand::OpacityDown);
    assert_eq!(pin_window_key(false, &ch("]"), PhysicalKey::Other), PinWindowCommand::OpacityUp);
    assert_eq!(pin_window_key(false, &ch("o"), PhysicalKey::Other), PinWindowCommand::Ocr);
    assert_eq!(pin_window_key(false, &ch("t"), PhysicalKey::Other), PinWindowCommand::ToggleOcrBoxes);
    assert_eq!(pin_window_key(false, &ch("q"), PhysicalKey::KeyQ), PinWindowCommand::Nothing);
}

#[test]
fn pin_left_press_respects_the_open_menu() {
    assert_eq!(pin_left_press(None), PinLeftPress::Pin);
    assert_eq!(
        pin_left_press(Some((Some(PinMenuAction::Copy), true))),
        PinLeftPress::MenuAction(PinMenuAction::Copy)
    );
    assert_eq!(pin_left_press(Some((None, true))), PinLeftPress::Ignore);
    assert_eq!(pin_left_press(Some((None, false))), PinLeftPress::CloseMenu);
}

#[test]
fn double_clicks_need_a_short_pause_and_a_near_point() {
    let last = PixelPoint::new(100, 100);
    assert!(is_double_click(Some(399), last, PixelPoint::new(111, 89)));
    assert!(!is_double_click(Some(400), last, PixelPoint::new(100, 100)));
    assert!(!is_double_click(Some(10), last, PixelPoint::new(112, 100)));
    assert!(!is_double_click(None, last, last));
}

#[test]
fn overlay_presses_go_to_the_toolbar_then_the_selection() {
    let selection = PixelRect::new(100, 100, 200, 100);
    let toolbar = layout_toolbar(selection, 800, 600);
    let first = toolbar[0].rect;
    let on_button = PixelPoint::new(first.origin.x + 2, first.origin.y + 2);
    assert_eq!(
        overlay_left_press(true, &toolbar, Some(selection), on_button, false, AnnotateTool::Rect),
        OverlayPress::ToolbarPress(ToolbarAction::Copy)
    );
    let inside = PixelPoint::new(150, 150);
    assert_eq!(
        overlay_left_press(true, &toolbar, Some(selection), inside, false, AnnotateTool::Rect),
        OverlayPress::Annotate
    );
    assert_eq!(
        overlay_left_press(true, &toolbar, Some(selection), inside, true, AnnotateTool::Rect),
        OverlayPress::FinishCopy
    );
    assert_eq!(
        overlay_left_press(true, &toolbar, Some(selection), inside, true, AnnotateTool::Number),
        OverlayPress::Annotate
    );
    assert_eq!(
        overlay_left_press(true, &toolbar, Some(selection), PixelPoint::new(5, 5), false, AnnotateTool::Rect),
        OverlayPress::StartReselect
    );
    assert_eq!(
        overlay_left_press(false, &Vec::new(), None, PixelPoint::new(5, 5), false, AnnotateTool::Rect),
        OverlayPress::StartSelection
    );
    assert_eq!(
        overlay_left_release(Some(ToolbarAction::Pin), &toolbar, on_button),
        Some(ToolbarAction::Pin)
    );
    assert_eq!(overlay_left_release(Some(ToolbarAction::Pin), &toolbar, PixelPoint::new(5, 5)), None);
    assert_eq!(overlay_left_release(None, &toolbar, on_button), None);
}
