use pinora::geometry::{PixelPoint, PixelRect};
use pinora::overlay_pointer::{
    overlay_release_step, refresh_overlay_ready, AnnotationEffects, AnnotationSize, OverlayFrame,
    OverlayPhase, OverlayPointerState, OverlayRelease,
};
use pinora::overlay_toolbar::{layout_toolbar, ToolbarAction};

const FRAME: OverlayFrame = OverlayFrame { buf_w: 800, buf_h: 600, src_w: 1600, src_h: 1200 };

const NONE: AnnotationEffects = AnnotationEffects { reset_to: None, new_asset: false, clear_caches: false, commit: false };

fn selection() -> PixelRect {
    PixelRect::new(100, 100, 200, 100)
}

fn ready() -> OverlayPointerState {
    OverlayPointerState {
        phase: OverlayPhase::Ready,
        toolbar_pressed: None,
        dragging: false,
        pending_reselect: false,
        annotate_dragging: false,
        toolbar: layout_toolbar(selection(), 800, 600),
        active_src_rect: Some(PixelRect::new(200, 200, 400, 200)),
        annotation_size: AnnotationSize { width: 400, height: 200 },
        annotate_dirty: false,
        needs_redraw: false,
    }
}

fn selecting() -> OverlayPointerState {
    OverlayPointerState {
        phase: OverlayPhase::Selecting,
        toolbar_pressed: None,
        dragging: true,
        pending_reselect: false,
        annotate_dragging: false,
        toolbar: Vec::new(),
        active_src_rect: None,
        annotation_size: AnnotationSize { width: 1600, height: 1200 },
        annotate_dirty: false,
        needs_redraw: false,
    }
}

fn far() -> PixelPoint {
    PixelPoint::new(700, 20)
}

#[test]
fn short_reselect_release_keeps_the_selection() {
    let mut s = ready();
    s.dragging = true;
    s.pending_reselect = true;
    let r = overlay_release_step(&mut s, far(), Some(PixelRect::new(5, 5, 1, 1)), FRAME, false);
    assert_eq!(r, OverlayRelease::Pointer(NONE));
    assert_eq!(s.phase, OverlayPhase::Ready);
    assert!(!s.dragging && !s.pending_reselect && !s.needs_redraw);
    assert_eq!(s.toolbar, layout_toolbar(selection(), 800, 600));
    assert_eq!(s.active_src_rect, Some(PixelRect::new(200, 200, 400, 200)));
}

#[test]
fn confirmed_drag_makes_the_overlay_ready() {
    let mut s = selecting();
    let sel = PixelRect::new(10, 20, 300, 150);
    let r = overlay_release_step(&mut s, far(), Some(sel), FRAME, false);
    let size = AnnotationSize { width: 600, height: 300 };
    assert_eq!(
        r,
        OverlayRelease::Pointer(AnnotationEffects { reset_to: Some(size), new_asset: true, clear_caches: true, commit: false })
    );
    assert_eq!(s.phase, OverlayPhase::Ready);
    assert!(!s.dragging && s.annotate_dirty && s.needs_redraw);
    assert_eq!(s.toolbar, layout_toolbar(sel, 800, 600));
    assert_eq!(s.toolbar.len(), 13);
    assert_eq!(s.active_src_rect, Some(PixelRect::new(20, 40, 600, 300)));
    assert_eq!(s.annotation_size, size);
}

#[test]
fn drag_without_selection_goes_back_to_selecting() {
    let mut s = ready();
    s.dragging = true;
    let r = overlay_release_step(&mut s, far(), None, FRAME, false);
    assert_eq!(r, OverlayRelease::Pointer(NONE));
    assert_eq!(s.phase, OverlayPhase::Selecting);
    assert!(s.toolbar.is_empty());
    assert_eq!(s.active_src_rect, None);
    assert!(!s.dragging && s.needs_redraw && !s.annotate_dirty);
}

#[test]
fn annotation_drag_is_committed_and_text_edits_redraw() {
    let mut s = ready();
    s.annotate_dragging = true;
    let r = overlay_release_step(&mut s, far(), Some(selection()), FRAME, true);
    assert_eq!(r, OverlayRelease::Pointer(AnnotationEffects { commit: true, ..NONE }));
    assert!(!s.annotate_dragging && s.annotate_dirty && s.needs_redraw);

    let mut s = ready();
    assert_eq!(overlay_release_step(&mut s, far(), Some(selection()), FRAME, true), OverlayRelease::Pointer(NONE));
    assert!(s.annotate_dirty && s.needs_redraw);

    let mut s = ready();
    assert_eq!(overlay_release_step(&mut s, far(), Some(selection()), FRAME, false), OverlayRelease::Pointer(NONE));
    assert!(!s.annotate_dirty && !s.needs_redraw);
}

#[test]
fn release_on_the_toolbar_applies_the_pressed_button() {
    let mut s = ready();
    s.dragging = true;
    s.toolbar_pressed = Some(ToolbarAction::Pin);
    let copy = s.toolbar[0].rect;
    let on_button = PixelPoint::new(copy.origin.x + 1, copy.origin.y + 1);
    assert_eq!(overlay_release_step(&mut s, on_button, None, FRAME, false), OverlayRelease::Toolbar(ToolbarAction::Pin));
    assert_eq!(s.toolbar_pressed, None);
    assert!(s.dragging);
    assert_eq!(s.phase, OverlayPhase::Ready);

    s.toolbar_pressed = Some(ToolbarAction::Pin);
    let r = overlay_release_step(&mut s, far(), None, FRAME, false);
    assert_eq!(r, OverlayRelease::Pointer(NONE));
    assert_eq!(s.toolbar_pressed, None);
    assert_eq!(s.phase, OverlayPhase::Selecting);
}

#[test]
fn refresh_follows_the_confirmed_selection() {
    let mut s = ready();
    assert_eq!(refresh_overlay_ready(&mut s, Some(selection()), FRAME), NONE);
    assert!(s.needs_redraw && !s.annotate_dirty);

    let moved = PixelRect::new(150, 100, 200, 100);
    let mut s = ready();
    let fx = refresh_overlay_ready(&mut s, Some(moved), FRAME);
    assert_eq!(fx, AnnotationEffects { reset_to: None, new_asset: true, clear_caches: true, commit: false });
    assert_eq!(s.active_src_rect, Some(PixelRect::new(300, 200, 400, 200)));
    assert_eq!(s.toolbar, layout_toolbar(moved, 800, 600));
    assert!(s.annotate_dirty && s.needs_redraw);

    let grown = PixelRect::new(100, 100, 250, 100);
    let mut s = ready();
    let fx = refresh_overlay_ready(&mut s, Some(grown), FRAME);
    let size = AnnotationSize { width: 500, height: 200 };
    assert_eq!(fx, AnnotationEffects { reset_to: Some(size), new_asset: true, clear_caches: true, commit: false });
    assert_eq!(s.annotation_size, size);

    let mut s = ready();
    s.annotation_size = AnnotationSize { width: 1, height: 1 };
    let fx = refresh_overlay_ready(&mut s, Some(selection()), FRAME);
    assert_eq!(fx, AnnotationEffects { reset_to: Some(AnnotationSize { width: 400, height: 200 }), new_asset: false, clear_caches: true, commit: false });
}

#[test]
fn refresh_without_a_ready_selection_only_redraws() {
    let mut s = selecting();
    assert_eq!(refresh_overlay_ready(&mut s, Some(selection()), FRAME), NONE);
    assert!(s.needs_redraw && s.toolbar.is_empty() && s.active_src_rect.is_none());
    let mut s = ready();
    assert_eq!(refresh_overlay_ready(&mut s, None, FRAME), NONE);
    assert!(s.needs_redraw);
    assert_eq!(s.toolbar, layout_toolbar(selection(), 800, 600));
}
