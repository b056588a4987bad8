use pinora::annotate::AnnotateTool;
use pinora::geometry::{PixelPoint, PixelRect};
use pinora::overlay_selection_readout::{layout_selection_readout, rects_overlap, SelectionReadout};
use pinora::overlay_toolbar::{hit_test, layout_toolbar, ToolbarAction};
use pinora::pin_context_menu::{PinContextMenu, PinMenuAction};

#[test]
fn layout_and_hit() {
    let sel = PixelRect::new(100, 100, 200, 100);
    let buttons = layout_toolbar(sel, 800, 600);
    assert!(!buttons.is_empty());
    let mid = buttons[0].rect;
    let p = PixelPoint::new(mid.origin.x + 2, mid.origin.y + 2);
    assert_eq!(hit_test(&buttons, p), Some(ToolbarAction::Copy));
}

#[test]
fn tool_hit() {
    let sel = PixelRect::new(50, 50, 400, 80);
    let buttons = layout_toolbar(sel, 1000, 800);
    let rect_btn = buttons
        .iter()
        .find(|b| b.action == ToolbarAction::Tool(AnnotateTool::Rect))
        .unwrap();
    let p = PixelPoint::new(rect_btn.rect.origin.x + 1, rect_btn.rect.origin.y + 1);
    assert_eq!(
        hit_test(&buttons, p),
        Some(ToolbarAction::Tool(AnnotateTool::Rect))
    );
}

#[test]
fn line_and_number_tools_are_available_and_hittable() {
    let buttons = layout_toolbar(PixelRect::new(50, 50, 400, 80), 1000, 800);
    for tool in [AnnotateTool::Line, AnnotateTool::Number] {
        let button = buttons
            .iter()
            .find(|button| button.action == ToolbarAction::Tool(tool))
            .expect("new tool button");
        let point = PixelPoint::new(button.rect.origin.x + 1, button.rect.origin.y + 1);
        assert_eq!(hit_test(&buttons, point), Some(ToolbarAction::Tool(tool)));
    }
}

#[test]
fn narrow_canvas_wraps_buttons_without_leaving_the_canvas() {
    let buttons = layout_toolbar(PixelRect::new(20, 20, 200, 100), 300, 200);
    assert!(buttons
        .iter()
        .any(|button| button.action == ToolbarAction::Tool(AnnotateTool::ColorPicker)));
    assert!(buttons
        .iter()
        .any(|button| button.rect.origin.y > buttons[0].rect.origin.y));
    for button in &buttons {
        assert!(button.rect.origin.x >= 0);
        assert!(button.rect.origin.y >= 0);
        assert!(button.rect.right() <= 300);
        assert!(button.rect.bottom() <= 200);
        let point = PixelPoint::new(button.rect.origin.x + 1, button.rect.origin.y + 1);
        assert_eq!(hit_test(&buttons, point), Some(button.action));
    }
}

#[test]
fn toolbar_hides_instead_of_rendering_clipped_controls() {
    assert!(layout_toolbar(PixelRect::new(0, 0, 50, 50), 70, 200).is_empty());
    assert!(layout_toolbar(PixelRect::new(0, 0, 50, 50), 300, 100).is_empty());
}

#[test]
fn menu_stays_within_the_current_pin_window() {
    let menu = PinContextMenu::open(PixelPoint::new(190, 115), 200, 120, false);

    assert!(menu.bounds.origin.x >= 0);
    assert!(menu.bounds.origin.y >= 0);
    assert!(menu.bounds.right() <= 200);
    assert!(menu.bounds.bottom() <= 120);
    assert_eq!(menu.items.len(), 10);
}

#[test]
fn locked_menu_keeps_copy_ocr_lock_and_close_but_disables_mutating_items() {
    let menu = PinContextMenu::open(PixelPoint::new(0, 0), 320, 320, true);
    let enabled = |action| {
        menu.items
            .iter()
            .find(|item| item.action == action)
            .unwrap()
            .enabled
    };

    assert!(enabled(PinMenuAction::Copy));
    assert!(enabled(PinMenuAction::Ocr));
    assert!(enabled(PinMenuAction::ToggleLock));
    assert!(enabled(PinMenuAction::Close));
    assert!(!enabled(PinMenuAction::Edit));
    assert!(!enabled(PinMenuAction::FitToImage));
    assert!(!enabled(PinMenuAction::OpacityDown));
    assert!(!enabled(PinMenuAction::OpacityUp));
}

#[test]
fn unlocked_menu_offers_fit_to_image() {
    let menu = PinContextMenu::open(PixelPoint::new(0, 0), 320, 320, false);

    assert!(menu
        .items
        .iter()
        .any(|item| item.action == PinMenuAction::FitToImage && item.enabled));
}

#[test]
fn hit_test_only_returns_enabled_items() {
    let menu = PinContextMenu::open(PixelPoint::new(0, 0), 320, 320, true);
    let copy = menu.items[0];
    let edit = menu.items[2];

    assert_eq!(
        menu.hit_test(PixelPoint::new(copy.rect.origin.x, copy.rect.origin.y)),
        Some(PinMenuAction::Copy)
    );
    assert_eq!(
        menu.hit_test(PixelPoint::new(edit.rect.origin.x, edit.rect.origin.y)),
        None
    );
    assert!(menu.contains(PixelPoint::new(edit.rect.origin.x, edit.rect.origin.y)));
    assert!(!menu.contains(PixelPoint::new(-1, -1)));
}

#[test]
fn readout_uses_source_pixels_and_preserves_negative_global_origin() {
    let readout = SelectionReadout::new(
        PixelRect::new(32, 18, 1920, 1080),
        PixelPoint::new(-2560, 120),
    );

    assert_eq!(readout.text(), "W1920 H1080 X-2528 Y138");
}

#[test]
fn layout_prefers_space_above_the_selection_when_toolbar_is_below() {
    let selection = PixelRect::new(150, 110, 180, 90);
    let toolbar = PixelRect::new(120, 210, 240, 42);
    let layout = layout_selection_readout(selection, 500, 400, Some(toolbar), "W180 H90 X150 Y110");

    assert!(layout.panel.bottom() <= selection.origin.y);
    assert!(!rects_overlap(layout.panel, toolbar));
}

#[test]
fn layout_remains_inside_a_tiny_overlay_without_an_auxiliary_surface() {
    let layout = layout_selection_readout(PixelRect::new(0, 0, 2, 2), 2, 2, None, "W2 H2 X0 Y0");

    assert_eq!(layout.panel, PixelRect::new(0, 0, 2, 2));
}
