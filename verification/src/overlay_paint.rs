//! What an overlay frame repaints: nothing, only the toolbar's chrome, or the selection and
//! the toolbar with the areas they left; which regions go to the screen; and whether the
//! selection is drawn from the annotation cache. Drawing the pixels happens with the pixel
//! helpers, presenting them outside.

use crate::desktop_shell::{expand_rect, expanded};
use crate::geometry::PixelRect;
use crate::pixels::blit_bounds;
use vstd::prelude::*;

verus! {

/// How far the repainted area reaches around a selection, for its border.
pub const SELECTION_PAD: i32 = 3;

/// What a frame repaints.
#[derive(Debug, Clone, PartialEq, Eq)]
pub enum RepaintPlan {
    /// Nothing changed.
    Nothing,
    /// Only the toolbar's look changed: restore and repaint the toolbar's area (if there is
    /// one) and nothing else.
    ChromeOnly { region: Option<PixelRect> },
    /// Restore the dimmed image under `restore`, draw the selection (if any) and the toolbar,
    /// and send `damage` to the screen.
    Full { restore: Vec<PixelRect>, selection: Option<PixelRect>, damage: Vec<PixelRect> },
}

/// Whether `r` can be widened by the selection pad within `i32` arithmetic.
pub open spec fn paddable(r: PixelRect) -> bool {
    &&& i32::MIN <= r.origin.x - SELECTION_PAD
    &&& i32::MIN <= r.origin.y - SELECTION_PAD
    &&& r.spec_right() + SELECTION_PAD <= i32::MAX
    &&& r.spec_bottom() + SELECTION_PAD <= i32::MAX
}

pub open spec fn opt_seq(r: Option<PixelRect>) -> Seq<PixelRect> {
    match r {
        Some(x) => seq![x],
        None => seq![],
    }
}

pub open spec fn padded(r: Option<PixelRect>, w: u32, h: u32) -> Option<PixelRect> {
    match r {
        Some(x) => Some(expanded(x, SELECTION_PAD, w, h)),
        None => None,
    }
}

/// Whether `p` is the plan for a frame in the given state (see `plan_overlay_repaint`).
pub open spec fn is_repaint_plan(
    p: RepaintPlan,
    last_selection: Option<PixelRect>,
    selection: Option<PixelRect>,
    last_toolbar: Option<PixelRect>,
    toolbar: Option<PixelRect>,
    chrome_dirty: bool,
    annotations_dirty: bool,
    buffer_synced: bool,
    w: u32,
    h: u32,
) -> bool {
    let selection_changed = last_selection != selection;
    let toolbar_moved = last_toolbar != toolbar;
    if chrome_dirty && !annotations_dirty && !selection_changed && !toolbar_moved && buffer_synced {
        p == RepaintPlan::ChromeOnly {
            region: match last_toolbar {
                Some(t) => Some(t),
                None => toolbar,
            },
        }
    } else if annotations_dirty || selection_changed || toolbar_moved || !buffer_synced {
        match p {
            RepaintPlan::Full { restore, selection: drawn, damage } => {
                &&& restore@ == opt_seq(padded(last_selection, w, h)) + opt_seq(last_toolbar)
                &&& drawn == selection
                &&& damage@ == opt_seq(padded(last_selection, w, h)) + opt_seq(last_toolbar) + opt_seq(
                    padded(selection, w, h),
                ) + opt_seq(toolbar)
            },
            _ => false,
        }
    } else {
        p == RepaintPlan::Nothing
    }
}

fn push_some(v: &mut Vec<PixelRect>, r: Option<PixelRect>)
    ensures
        final(v)@ == old(v)@ + opt_seq(r),
{
    match r {
        Some(x) => {
            v.push(x);
            assert(final(v)@ =~= old(v)@ + seq![x]);
        },
        None => {
            assert(v@ =~= v@ + Seq::<PixelRect>::empty());
        },
    }
}

fn padded_rect(r: Option<PixelRect>, w: u32, h: u32) -> (p: Option<PixelRect>)
    requires
        r matches Some(x) ==> paddable(x),
    ensures
        p == padded(r, w, h),
{
    match r {
        Some(x) => Some(expand_rect(x, SELECTION_PAD, w, h)),
        None => None,
    }
}

fn same_rect(a: Option<PixelRect>, b: Option<PixelRect>) -> (same: bool)
    ensures
        same == (a == b),
{
    match (a, b) {
        (Some(x), Some(y)) => x == y,
        (None, None) => true,
        _ => false,
    }
}

/// Plans an overlay frame. When only the toolbar's look changed on a screen that already
/// shows the frame, only the toolbar's area is repainted. When the annotations, the
/// selection or the toolbar's place changed, or the screen does not show the frame yet, the
/// old selection (widened for its border) and the old toolbar are restored, the selection and
/// toolbar are drawn anew, and all of those areas go to the screen. Otherwise nothing is
/// drawn. `toolbar` is the toolbar's outline where it is shown.
pub fn plan_overlay_repaint(
    last_selection: Option<PixelRect>,
    selection: Option<PixelRect>,
    last_toolbar: Option<PixelRect>,
    toolbar: Option<PixelRect>,
    chrome_dirty: bool,
    annotations_dirty: bool,
    buffer_synced: bool,
    w: u32,
    h: u32,
) -> (p: RepaintPlan)
    requires
        last_selection matches Some(r) ==> paddable(r),
        selection matches Some(r) ==> paddable(r),
    ensures
        is_repaint_plan(
            p,
            last_selection,
            selection,
            last_toolbar,
            toolbar,
            chrome_dirty,
            annotations_dirty,
            buffer_synced,
            w,
            h,
        ),
{
    let selection_changed = !same_rect(last_selection, selection);
    let toolbar_moved = !same_rect(last_toolbar, toolbar);
    if chrome_dirty && !annotations_dirty && !selection_changed && !toolbar_moved && buffer_synced {
        let region = match last_toolbar {
            Some(t) => Some(t),
            None => toolbar,
        };
        RepaintPlan::ChromeOnly { region }
    } else if annotations_dirty || selection_changed || toolbar_moved || !buffer_synced {
        let old_area = padded_rect(last_selection, w, h);
        let mut restore: Vec<PixelRect> = Vec::new();
        push_some(&mut restore, old_area);
        push_some(&mut restore, last_toolbar);
        let mut damage: Vec<PixelRect> = Vec::new();
        push_some(&mut damage, old_area);
        push_some(&mut damage, last_toolbar);
        push_some(&mut damage, padded_rect(selection, w, h));
        push_some(&mut damage, toolbar);
        RepaintPlan::Full { restore, selection, damage }
    } else {
        RepaintPlan::Nothing
    }
}

/// Whether the selection is drawn from the annotation cache: on a ready overlay that has
/// annotations or one being drawn, when the annotations were made for a selection of the
/// current size.
pub fn uses_annotation_cache(
    ready: bool,
    has_annotations: bool,
    active_selection: Option<PixelRect>,
    annotation_width: u32,
    annotation_height: u32,
) -> (b: bool)
    ensures
        b == (ready && has_annotations && (active_selection matches Some(r) && r.size.width
            == annotation_width && r.size.height == annotation_height)),
{
    ready && has_annotations && match active_selection {
        Some(r) => r.size.width == annotation_width && r.size.height == annotation_height,
        None => false,
    }
}

/// A region of the screen buffer to present.
#[derive(Debug, Clone, Copy, PartialEq, Eq, Structural)]
pub struct DamageRegion {
    pub x: u32,
    pub y: u32,
    pub width: u32,
    pub height: u32,
}

/// The part of `r` inside a `w`×`h` buffer, as a region to present, if any of it is inside.
pub fn damage_region(r: PixelRect, w: u32, h: u32) -> (d: Option<DamageRegion>)
    ensures
        ({
            let (x0, x1, y0, y1) = blit_bounds(r, w as int, h as int);
            if x0 < x1 && y0 < y1 {
                d == Some(
                    DamageRegion {
                        x: x0 as u32,
                        y: y0 as u32,
                        width: (x1 - x0) as u32,
                        height: (y1 - y0) as u32,
                    },
                )
            } else {
                d is None
            }
        }),
{
    let x0: i64 = if r.origin.x < 0 {
        0
    } else {
        r.origin.x as i64
    };
    let y0: i64 = if r.origin.y < 0 {
        0
    } else {
        r.origin.y as i64
    };
    let right = r.right() as i64;
    let bottom = r.bottom() as i64;
    let x1: i64 = if right < 0 || right > w as i64 {
        w as i64
    } else {
        right
    };
    let y1: i64 = if bottom < 0 || bottom > h as i64 {
        h as i64
    } else {
        bottom
    };
    if x1 <= x0 || y1 <= y0 {
        return None;
    }
    Some(
        DamageRegion {
            x: x0 as u32,
            y: y0 as u32,
            width: (x1 - x0) as u32,
            height: (y1 - y0) as u32,
        },
    )
}

} // verus!
