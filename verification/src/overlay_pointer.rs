//! What a left press and release on the capture overlay do: toolbar buttons act on release,
//! presses near the toolbar are swallowed, a press in the selection annotates it (or copies
//! it on a double click), and a press elsewhere starts a new selection. Moving the pointer
//! while dragging either starts a new selection or follows the pointer. A release ends the
//! drag: it confirms the selection and lays the toolbar out, or goes back to selecting; and
//! a refresh keeps the toolbar and the annotation frame in step with the confirmed selection.

use crate::annotate::AnnotateTool;
use crate::desktop_shell::{buf_rect_to_src, overlay_click_finishes_copy, source_rect_of};
use crate::geometry::{PixelPoint, PixelRect};
use crate::overlay_toolbar::{
    action_at, bounds_in_range, bounds_of, button_rect, first_hit, hit_in_range, hit_test,
    layout_toolbar, placement_in_range, toolbar_bounds, toolbar_fits, ToolbarAction,
    ToolbarButton, BUTTON_COUNT,
};
use vstd::prelude::*;

verus! {

/// How much the toolbar's outline grows for a press that must not start a selection.
pub const PRESS_MARGIN: i32 = 6;

/// How much it grows for a release that still triggers the pressed button.
pub const RELEASE_MARGIN: i32 = 8;

/// The longest pause between two clicks of a double click, in milliseconds.
pub const DOUBLE_CLICK_MS: u64 = 400;

/// The farthest two clicks of a double click may lie apart on either axis, exclusive.
pub const DOUBLE_CLICK_SLOP: i32 = 12;

/// What a left press on the overlay does.
#[derive(Debug, Clone, Copy, PartialEq, Eq, Structural)]
pub enum OverlayPress {
    /// Remember the button; it acts when the press is released over the toolbar.
    ToolbarPress(ToolbarAction),
    /// The press fell near the toolbar: nothing happens.
    Ignore,
    /// A double click in the selection finishes it with a copy.
    FinishCopy,
    /// Begin an annotation at the press.
    Annotate,
    /// Start dragging a new selection once the pointer moves far enough.
    StartReselect,
    /// Start dragging the first selection.
    StartSelection,
}

/// `r` grown by `margin` on each side, as a rectangle.
pub open spec fn grown(r: PixelRect, margin: int) -> PixelRect {
    PixelRect::rect(
        r.origin.x - margin,
        r.origin.y - margin,
        r.size.width + 2 * margin,
        r.size.height + 2 * margin,
    )
}

/// A press or release at `p` falls on the toolbar's outline grown by `margin`.
pub open spec fn near_toolbar(buttons: Seq<ToolbarButton>, margin: int, p: PixelPoint) -> bool {
    buttons.len() > 0 && grown(bounds_of(buttons), margin).spec_contains(p)
}

/// The toolbar's outline can grow by the release margin within `i32`.
pub open spec fn margins_in_range(buttons: Seq<ToolbarButton>) -> bool {
    buttons.len() > 0 ==> {
        &&& bounds_in_range(buttons)
        &&& bounds_of(buttons).origin.x >= i32::MIN + RELEASE_MARGIN
        &&& bounds_of(buttons).origin.y >= i32::MIN + RELEASE_MARGIN
        &&& bounds_of(buttons).size.width + 2 * RELEASE_MARGIN <= u32::MAX
        &&& bounds_of(buttons).size.height + 2 * RELEASE_MARGIN <= u32::MAX
    }
}

/// Two clicks make a double click when the second follows within `DOUBLE_CLICK_MS` and lies
/// closer than `DOUBLE_CLICK_SLOP` on both axes.
pub open spec fn double_click(elapsed_ms: Option<u64>, last: PixelPoint, p: PixelPoint) -> bool {
    &&& (elapsed_ms matches Some(ms) && ms < DOUBLE_CLICK_MS)
    &&& -DOUBLE_CLICK_SLOP < p.x - last.x < DOUBLE_CLICK_SLOP
    &&& -DOUBLE_CLICK_SLOP < p.y - last.y < DOUBLE_CLICK_SLOP
}

pub open spec fn press_outcome(
    ready: bool,
    buttons: Seq<ToolbarButton>,
    selection: Option<PixelRect>,
    p: PixelPoint,
    is_double: bool,
    tool: AnnotateTool,
) -> OverlayPress {
    if ready && first_hit(buttons, p) is Some {
        OverlayPress::ToolbarPress(buttons[first_hit(buttons, p).unwrap()].action)
    } else if ready && near_toolbar(buttons, PRESS_MARGIN as int, p) {
        OverlayPress::Ignore
    } else if ready && (selection matches Some(sel) && sel.spec_contains(p)) {
        if is_double && tool != AnnotateTool::Number {
            OverlayPress::FinishCopy
        } else {
            OverlayPress::Annotate
        }
    } else if ready {
        OverlayPress::StartReselect
    } else {
        OverlayPress::StartSelection
    }
}

fn grown_contains(b: PixelRect, margin: i32, p: PixelPoint) -> (inside: bool)
    requires
        0 <= margin <= RELEASE_MARGIN,
        b.origin.x >= i32::MIN + RELEASE_MARGIN,
        b.origin.y >= i32::MIN + RELEASE_MARGIN,
        b.size.width + 2 * RELEASE_MARGIN <= u32::MAX,
        b.size.height + 2 * RELEASE_MARGIN <= u32::MAX,
    ensures
        inside == grown(b, margin as int).spec_contains(p),
{
    let g = PixelRect::new(
        b.origin.x - margin,
        b.origin.y - margin,
        b.size.width + 2 * (margin as u32),
        b.size.height + 2 * (margin as u32),
    );
    g.contains_point(p)
}

/// Whether the click at `p` completes a double click with the one before it, given the
/// milliseconds since that click (`None` before the first click).
pub fn is_double_click(elapsed_ms: Option<u64>, last: PixelPoint, p: PixelPoint) -> (b: bool)
    ensures
        b == double_click(elapsed_ms, last, p),
{
    let recent = match elapsed_ms {
        Some(ms) => ms < DOUBLE_CLICK_MS,
        None => false,
    };
    let dx: i64 = p.x as i64 - last.x as i64;
    let dy: i64 = p.y as i64 - last.y as i64;
    recent && -12 < dx && dx < 12 && -12 < dy && dy < 12
}

/// What a left press at `p` does. `ready` is whether a selection is confirmed, `selection`
/// that selection where there is one, and `is_double` whether the press completes a double
/// click.
pub fn overlay_left_press(
    ready: bool,
    toolbar: &Vec<ToolbarButton>,
    selection: Option<PixelRect>,
    p: PixelPoint,
    is_double: bool,
    tool: AnnotateTool,
) -> (press: OverlayPress)
    requires
        hit_in_range(toolbar@),
        margins_in_range(toolbar@),
    ensures
        press == press_outcome(ready, toolbar@, selection, p, is_double, tool),
{
    if ready {
        match hit_test(toolbar, p) {
            Some(action) => {
                return OverlayPress::ToolbarPress(action);
            },
            None => {},
        }
        match toolbar_bounds(toolbar) {
            Some(b) => {
                if grown_contains(b, PRESS_MARGIN, p) {
                    return OverlayPress::Ignore;
                }
            },
            None => {},
        }
        match selection {
            Some(sel) => {
                if sel.contains_point(p) {
                    if overlay_click_finishes_copy(tool, is_double) {
                        return OverlayPress::FinishCopy;
                    }
                    return OverlayPress::Annotate;
                }
            },
            None => {},
        }
        OverlayPress::StartReselect
    } else {
        OverlayPress::StartSelection
    }
}

/// The toolbar action a release at `p` triggers: the pressed button's, while the release is
/// still on a button or near the toolbar; none otherwise.
pub open spec fn release_action(pressed: Option<ToolbarAction>, toolbar: Seq<ToolbarButton>, p: PixelPoint) -> Option<ToolbarAction> {
    match pressed {
        Some(a) => if first_hit(toolbar, p) is Some || near_toolbar(toolbar, RELEASE_MARGIN as int, p) {
            Some(a)
        } else {
            None
        },
        None => None,
    }
}

/// The toolbar action a release at `p` triggers (see `release_action`).
pub fn overlay_left_release(pressed: Option<ToolbarAction>, toolbar: &Vec<ToolbarButton>, p: PixelPoint) -> (action: Option<ToolbarAction>)
    requires
        hit_in_range(toolbar@),
        margins_in_range(toolbar@),
    ensures
        action == release_action(pressed, toolbar@, p),
{
    let pressed = match pressed {
        Some(a) => a,
        None => {
            return None;
        },
    };
    if hit_test(toolbar, p).is_some() {
        return Some(pressed);
    }
    match toolbar_bounds(toolbar) {
        Some(b) => if grown_contains(b, RELEASE_MARGIN, p) {
            Some(pressed)
        } else {
            None
        },
        None => None,
    }
}

/// How far the pointer must move from the press, on either axis, to start a new selection.
pub const RESELECT_DISTANCE: i32 = 4;

/// How far the pointer must move from where the selection was last drawn, on either axis, to
/// draw it again before the time below has passed.
pub const REDRAW_DISTANCE: i32 = 2;

/// The longest time, in milliseconds, a dragged selection goes without being drawn.
pub const REDRAW_INTERVAL_MS: u64 = 32;

/// What moving the pointer while dragging a selection does.
#[derive(Debug, Clone, Copy, PartialEq, Eq, Structural)]
pub enum DragMove {
    /// A press in the selection has moved far enough: drop the selection and its
    /// annotations and start a new selection at the press.
    StartReselect,
    /// The press has not moved far enough yet.
    Wait,
    /// Follow the pointer; `redraw` says whether to draw now.
    Follow { redraw: bool },
}

pub open spec fn abs_diff(a: i32, b: i32) -> int {
    if a >= b {
        a - b
    } else {
        b - a
    }
}

pub open spec fn moved_at_least(a: PixelPoint, b: PixelPoint, d: int) -> bool {
    abs_diff(a.x, b.x) >= d || abs_diff(a.y, b.y) >= d
}

pub open spec fn drag_move(
    pending_reselect: bool,
    anchor: PixelPoint,
    last_drawn: PixelPoint,
    p: PixelPoint,
    since_present_ms: u64,
) -> DragMove {
    if pending_reselect {
        if moved_at_least(p, anchor, RESELECT_DISTANCE as int) {
            DragMove::StartReselect
        } else {
            DragMove::Wait
        }
    } else {
        DragMove::Follow {
            redraw: moved_at_least(p, last_drawn, REDRAW_DISTANCE as int) || since_present_ms
                >= REDRAW_INTERVAL_MS,
        }
    }
}

fn at_least_apart(a: i32, b: i32, d: i32) -> (r: bool)
    requires
        d >= 0,
    ensures
        r == (abs_diff(a, b) >= d),
{
    let diff: i64 = a as i64 - b as i64;
    let magnitude: i64 = if diff < 0 {
        -diff
    } else {
        diff
    };
    magnitude >= d as i64
}

/// Decides a pointer move during a selection drag: a press waiting to reselect starts the new
/// selection once it has moved four pixels on either axis; otherwise the selection follows
/// the pointer and is drawn again after two pixels or 32 ms.
pub fn overlay_drag_move(
    pending_reselect: bool,
    anchor: PixelPoint,
    last_drawn: PixelPoint,
    p: PixelPoint,
    since_present_ms: u64,
) -> (m: DragMove)
    ensures
        m == drag_move(pending_reselect, anchor, last_drawn, p, since_present_ms),
{
    if pending_reselect {
        if at_least_apart(p.x, anchor.x, RESELECT_DISTANCE) || at_least_apart(
            p.y,
            anchor.y,
            RESELECT_DISTANCE,
        ) {
            DragMove::StartReselect
        } else {
            DragMove::Wait
        }
    } else {
        let redraw = at_least_apart(p.x, last_drawn.x, REDRAW_DISTANCE) || at_least_apart(
            p.y,
            last_drawn.y,
            REDRAW_DISTANCE,
        ) || since_present_ms >= REDRAW_INTERVAL_MS;
        DragMove::Follow { redraw }
    }
}

/// Whether the overlay is still choosing a selection or has a confirmed one.
#[derive(Debug, Clone, Copy, PartialEq, Eq, Structural)]
pub enum OverlayPhase {
    Selecting,
    Ready,
}

/// The sizes the overlay maps between: the display buffer the pointer moves over and the
/// source image the selection is cut from.
#[derive(Debug, Clone, Copy, PartialEq, Eq, Structural)]
pub struct OverlayFrame {
    pub buf_w: u32,
    pub buf_h: u32,
    pub src_w: u32,
    pub src_h: u32,
}

/// The part of the overlay's state that pointer releases and refreshes read and change.
#[derive(Debug, Clone)]
pub struct OverlayPointerState {
    pub phase: OverlayPhase,
    /// The toolbar button pressed and not yet released.
    pub toolbar_pressed: Option<ToolbarAction>,
    /// A selection drag is under way.
    pub dragging: bool,
    /// The drag began in a confirmed selection and has not yet moved far enough to replace it.
    pub pending_reselect: bool,
    /// An annotation shape is being dragged out.
    pub annotate_dragging: bool,
    pub toolbar: Vec<ToolbarButton>,
    /// The confirmed selection in source pixels.
    pub active_src_rect: Option<PixelRect>,
    /// The size of the annotation session's image.
    pub annotation_size: AnnotationSize,
    pub annotate_dirty: bool,
    pub needs_redraw: bool,
}

/// `OverlayPointerState` with the toolbar taken as its buttons' actions and rectangles.
#[verifier::ext_equal]
pub struct OverlayPointerView {
    pub phase: OverlayPhase,
    pub toolbar_pressed: Option<ToolbarAction>,
    pub dragging: bool,
    pub pending_reselect: bool,
    pub annotate_dragging: bool,
    pub toolbar: Seq<(ToolbarAction, PixelRect)>,
    pub active_src_rect: Option<PixelRect>,
    pub annotation_size: AnnotationSize,
    pub annotate_dirty: bool,
    pub needs_redraw: bool,
}

pub open spec fn button_view(b: ToolbarButton) -> (ToolbarAction, PixelRect) {
    (b.action, b.rect)
}

impl View for OverlayPointerState {
    type V = OverlayPointerView;

    open spec fn view(&self) -> OverlayPointerView {
        OverlayPointerView {
            phase: self.phase,
            toolbar_pressed: self.toolbar_pressed,
            dragging: self.dragging,
            pending_reselect: self.pending_reselect,
            annotate_dragging: self.annotate_dragging,
            toolbar: self.toolbar@.map_values(|b: ToolbarButton| button_view(b)),
            active_src_rect: self.active_src_rect,
            annotation_size: self.annotation_size,
            annotate_dirty: self.annotate_dirty,
            needs_redraw: self.needs_redraw,
        }
    }
}

/// The size of an annotation session's image.
#[derive(Debug, Clone, Copy, PartialEq, Eq, Structural)]
pub struct AnnotationSize {
    pub width: u32,
    pub height: u32,
}

/// What the annotation session and its caches must do after a step.
#[derive(Debug, Clone, Copy, PartialEq, Eq, Structural)]
pub struct AnnotationEffects {
    /// Start a new annotation session of this size, keeping the tool, colour, stroke width
    /// and shape fill.
    pub reset_to: Option<AnnotationSize>,
    /// Give the selection a new asset identity.
    pub new_asset: bool,
    /// Drop the cached annotation renderings.
    pub clear_caches: bool,
    /// Commit the shape being dragged.
    pub commit: bool,
}

/// What a left release on the overlay does.
#[derive(Debug, Clone, Copy, PartialEq, Eq, Structural)]
pub enum OverlayRelease {
    /// Apply the toolbar action whose button was pressed.
    Toolbar(ToolbarAction),
    /// The pointer step ran; the annotation session follows these effects.
    Pointer(AnnotationEffects),
}

pub open spec fn no_effects() -> AnnotationEffects {
    AnnotationEffects { reset_to: None, new_asset: false, clear_caches: false, commit: false }
}

/// The toolbar laid out for a selection, by action and rectangle (see `layout_toolbar`).
pub open spec fn toolbar_layout(sel: PixelRect, w: u32, h: u32) -> Seq<(ToolbarAction, PixelRect)> {
    if toolbar_fits(w, h) {
        Seq::new(BUTTON_COUNT as nat, |k: int| (action_at(k), button_rect(sel, w, h, k)))
    } else {
        Seq::empty()
    }
}

/// The toolbar a release can be tested against.
pub open spec fn toolbar_usable(toolbar: Seq<ToolbarButton>) -> bool {
    hit_in_range(toolbar) && margins_in_range(toolbar)
}

/// The confirmed selection, if any, admits a toolbar layout.
pub open spec fn layout_admissible(confirmed: Option<PixelRect>, f: OverlayFrame) -> bool {
    confirmed matches Some(sel) ==> (toolbar_fits(f.buf_w, f.buf_h) ==> placement_in_range(
        sel,
        f.buf_w,
        f.buf_h,
    ))
}

/// The state after the overlay's selection is confirmed as `sel`: ready, with the toolbar laid
/// out for it and the annotation frame set to its source rectangle.
pub open spec fn confirmed_view(s: OverlayPointerView, sel: PixelRect, f: OverlayFrame) -> OverlayPointerView {
    let src = source_rect_of(sel, f.buf_w, f.buf_h, f.src_w, f.src_h);
    OverlayPointerView {
        phase: OverlayPhase::Ready,
        toolbar_pressed: None,
        dragging: false,
        pending_reselect: s.pending_reselect,
        annotate_dragging: s.annotate_dragging,
        toolbar: toolbar_layout(sel, f.buf_w, f.buf_h),
        active_src_rect: Some(src),
        annotation_size: AnnotationSize { width: src.size.width, height: src.size.height },
        annotate_dirty: true,
        needs_redraw: true,
    }
}

/// A left release at `p`, with `confirmed` the selection the session confirms (if any) and
/// `text_editing` whether a text annotation is being edited. A pending toolbar press is
/// dropped; if the release is still on the toolbar, the pressed action is applied and nothing
/// else changes. Otherwise a selection drag ends: one that never moved far enough to replace
/// the confirmed selection keeps it; a confirmed selection makes the overlay ready, with a new
/// toolbar, source rectangle, asset and annotation session; no selection goes back to
/// selecting with no toolbar. Without a drag, a dragged annotation is committed, and a text
/// edit is drawn again.
pub open spec fn release_step(
    s: OverlayPointerView,
    buttons: Seq<ToolbarButton>,
    p: PixelPoint,
    confirmed: Option<PixelRect>,
    f: OverlayFrame,
    text_editing: bool,
) -> (OverlayPointerView, OverlayRelease) {
    let s0 = OverlayPointerView { toolbar_pressed: None, ..s };
    match release_action(s.toolbar_pressed, buttons, p) {
        Some(a) => (s0, OverlayRelease::Toolbar(a)),
        None => if s.dragging {
            if s.pending_reselect {
                (
                    OverlayPointerView { dragging: false, pending_reselect: false, ..s0 },
                    OverlayRelease::Pointer(no_effects()),
                )
            } else {
                match confirmed {
                    Some(sel) => {
                        let src = source_rect_of(sel, f.buf_w, f.buf_h, f.src_w, f.src_h);
                        (
                            confirmed_view(s0, sel, f),
                            OverlayRelease::Pointer(
                                AnnotationEffects {
                                    reset_to: Some(AnnotationSize { width: src.size.width, height: src.size.height }),
                                    new_asset: true,
                                    clear_caches: true,
                                    commit: false,
                                },
                            ),
                        )
                    },
                    None => (
                        OverlayPointerView {
                            phase: OverlayPhase::Selecting,
                            dragging: false,
                            toolbar: Seq::empty(),
                            active_src_rect: None,
                            needs_redraw: true,
                            ..s0
                        },
                        OverlayRelease::Pointer(no_effects()),
                    ),
                }
            }
        } else if s.annotate_dragging {
            (
                OverlayPointerView {
                    annotate_dragging: false,
                    annotate_dirty: true,
                    needs_redraw: true,
                    ..s0
                },
                OverlayRelease::Pointer(AnnotationEffects { commit: true, ..no_effects() }),
            )
        } else if text_editing {
            (
                OverlayPointerView { annotate_dirty: true, needs_redraw: true, ..s0 },
                OverlayRelease::Pointer(no_effects()),
            )
        } else {
            (s0, OverlayRelease::Pointer(no_effects()))
        },
    }
}

fn lay_out(sel: PixelRect, f: OverlayFrame) -> (t: Vec<ToolbarButton>)
    requires
        layout_admissible(Some(sel), f),
    ensures
        t@.map_values(|b: ToolbarButton| button_view(b)) == toolbar_layout(sel, f.buf_w, f.buf_h),
{
    let t = layout_toolbar(sel, f.buf_w, f.buf_h);
    assert(t@.map_values(|b: ToolbarButton| button_view(b)) =~= toolbar_layout(sel, f.buf_w, f.buf_h));
    t
}

/// Runs a left release on the overlay (see `release_step`).
pub fn overlay_release_step(
    s: &mut OverlayPointerState,
    p: PixelPoint,
    confirmed: Option<PixelRect>,
    f: OverlayFrame,
    text_editing: bool,
) -> (r: OverlayRelease)
    requires
        toolbar_usable(old(s).toolbar@),
        layout_admissible(confirmed, f),
    ensures
        (final(s)@, r) == release_step(old(s)@, old(s).toolbar@, p, confirmed, f, text_editing),
{
    let pressed = s.toolbar_pressed;
    s.toolbar_pressed = None;
    match overlay_left_release(pressed, &s.toolbar, p) {
        Some(a) => {
            return OverlayRelease::Toolbar(a);
        },
        None => {},
    }
    let none = AnnotationEffects { reset_to: None, new_asset: false, clear_caches: false, commit: false };
    if s.dragging {
        s.dragging = false;
        if s.pending_reselect {
            s.pending_reselect = false;
            return OverlayRelease::Pointer(none);
        }
        match confirmed {
            Some(sel) => {
                s.phase = OverlayPhase::Ready;
                s.toolbar = lay_out(sel, f);
                let src = buf_rect_to_src(sel, f.buf_w, f.buf_h, f.src_w, f.src_h);
                s.active_src_rect = Some(src);
                s.annotation_size = AnnotationSize { width: src.size.width, height: src.size.height };
                s.annotate_dirty = true;
                s.needs_redraw = true;
                OverlayRelease::Pointer(
                    AnnotationEffects {
                        reset_to: Some(AnnotationSize { width: src.size.width, height: src.size.height }),
                        new_asset: true,
                        clear_caches: true,
                        commit: false,
                    },
                )
            },
            None => {
                s.phase = OverlayPhase::Selecting;
                s.toolbar = Vec::new();
                s.active_src_rect = None;
                s.needs_redraw = true;
                assert(s.toolbar@.map_values(|b: ToolbarButton| button_view(b)) =~= Seq::empty());
                OverlayRelease::Pointer(none)
            },
        }
    } else if s.annotate_dragging {
        s.annotate_dragging = false;
        s.annotate_dirty = true;
        s.needs_redraw = true;
        OverlayRelease::Pointer(AnnotationEffects { commit: true, ..none })
    } else if text_editing {
        s.annotate_dirty = true;
        s.needs_redraw = true;
        OverlayRelease::Pointer(none)
    } else {
        OverlayRelease::Pointer(none)
    }
}

/// Brings a ready overlay in step with its confirmed selection: the toolbar is laid out again;
/// a changed source rectangle gets a new asset and drops the caches; an annotation session of
/// another size is started again at the selection's size. The overlay is always drawn again.
pub open spec fn refresh_step(s: OverlayPointerView, confirmed: Option<PixelRect>, f: OverlayFrame) -> (
    OverlayPointerView,
    AnnotationEffects,
) {
    match confirmed {
        Some(sel) => if s.phase == OverlayPhase::Ready {
            let src = source_rect_of(sel, f.buf_w, f.buf_h, f.src_w, f.src_h);
            let size = AnnotationSize { width: src.size.width, height: src.size.height };
            let changed = s.active_src_rect != Some(src);
            let resized = s.annotation_size != size;
            (
                OverlayPointerView {
                    toolbar: toolbar_layout(sel, f.buf_w, f.buf_h),
                    active_src_rect: Some(src),
                    annotation_size: size,
                    annotate_dirty: s.annotate_dirty || changed || resized,
                    needs_redraw: true,
                    ..s
                },
                AnnotationEffects {
                    reset_to: if resized {
                        Some(size)
                    } else {
                        None
                    },
                    new_asset: changed,
                    clear_caches: changed || resized,
                    commit: false,
                },
            )
        } else {
            (OverlayPointerView { needs_redraw: true, ..s }, no_effects())
        },
        None => (OverlayPointerView { needs_redraw: true, ..s }, no_effects()),
    }
}

fn same_rect(a: Option<PixelRect>, b: PixelRect) -> (r: bool)
    ensures
        r == (a == Some(b)),
{
    match a {
        Some(a) => a.origin.x == b.origin.x && a.origin.y == b.origin.y && a.size.width
            == b.size.width && a.size.height == b.size.height,
        None => false,
    }
}

/// Runs a refresh of the overlay (see `refresh_step`).
pub fn refresh_overlay_ready(s: &mut OverlayPointerState, confirmed: Option<PixelRect>, f: OverlayFrame) -> (fx:
    AnnotationEffects)
    requires
        layout_admissible(confirmed, f),
    ensures
        (final(s)@, fx) == refresh_step(old(s)@, confirmed, f),
{
    let mut fx = AnnotationEffects { reset_to: None, new_asset: false, clear_caches: false, commit: false };
    match confirmed {
        Some(sel) => {
            match s.phase {
                OverlayPhase::Ready => {
                    s.toolbar = lay_out(sel, f);
                    let src = buf_rect_to_src(sel, f.buf_w, f.buf_h, f.src_w, f.src_h);
                    if !same_rect(s.active_src_rect, src) {
                        s.active_src_rect = Some(src);
                        fx.new_asset = true;
                        fx.clear_caches = true;
                        s.annotate_dirty = true;
                    }
                    if s.annotation_size.width != src.size.width || s.annotation_size.height != src.size.height {
                        s.annotation_size = AnnotationSize { width: src.size.width, height: src.size.height };
                        fx.reset_to = Some(AnnotationSize { width: src.size.width, height: src.size.height });
                        fx.clear_caches = true;
                        s.annotate_dirty = true;
                    }
                },
                OverlayPhase::Selecting => {},
            }
        },
        None => {},
    }
    s.needs_redraw = true;
    fx
}

} // verus!
