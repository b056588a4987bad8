//! The context menu drawn inside a pin's own window (no native window, so no taskbar entry).

use crate::geometry::{PixelPoint, PixelRect};
use vstd::prelude::*;

verus! {

pub const MENU_WIDTH: u32 = 152;
pub const ITEM_HEIGHT: u32 = 24;
pub const MENU_PADDING: u32 = 4;
/// Number of menu entries.
pub const MENU_ITEMS: usize = 10;

#[derive(Debug, Clone, Copy, PartialEq, Eq, Structural)]
pub enum PinMenuAction {
    Copy,
    Ocr,
    Edit,
    FitToImage,
    ToggleLock,
    OpacityDown,
    OpacityUp,
    ToggleAlwaysOnTop,
    Save,
    Close,
}

#[derive(Debug, Clone, Copy, PartialEq, Eq, Structural)]
pub struct PinMenuItem {
    pub action: PinMenuAction,
    pub rect: PixelRect,
    pub enabled: bool,
}

#[derive(Debug, Clone, PartialEq, Eq)]
pub struct PinContextMenu {
    pub bounds: PixelRect,
    pub items: Vec<PinMenuItem>,
}

/// The entry at position `k`.
pub open spec fn menu_action(k: int) -> PinMenuAction {
    if k == 0 {
        PinMenuAction::Copy
    } else if k == 1 {
        PinMenuAction::Ocr
    } else if k == 2 {
        PinMenuAction::Edit
    } else if k == 3 {
        PinMenuAction::FitToImage
    } else if k == 4 {
        PinMenuAction::ToggleLock
    } else if k == 5 {
        PinMenuAction::OpacityDown
    } else if k == 6 {
        PinMenuAction::OpacityUp
    } else if k == 7 {
        PinMenuAction::ToggleAlwaysOnTop
    } else if k == 8 {
        PinMenuAction::Save
    } else {
        PinMenuAction::Close
    }
}

/// Entries that change the pin are disabled while it is locked.
pub open spec fn changes_the_pin(a: PinMenuAction) -> bool {
    a == PinMenuAction::Edit || a == PinMenuAction::FitToImage || a == PinMenuAction::OpacityDown
        || a == PinMenuAction::OpacityUp
}

pub open spec fn menu_width(window_width: u32) -> int {
    let w = if window_width < 1 {
        1
    } else {
        window_width as int
    };
    if MENU_WIDTH < w {
        MENU_WIDTH as int
    } else {
        w
    }
}

pub open spec fn menu_height(window_height: u32) -> int {
    let desired = 2 * MENU_PADDING + ITEM_HEIGHT * MENU_ITEMS;
    let h = if window_height < 1 {
        1
    } else {
        window_height as int
    };
    if desired < h {
        desired
    } else {
        h
    }
}

pub open spec fn clamp_into(v: int, lo: int, hi: int) -> int {
    if v < lo {
        lo
    } else if v > hi {
        hi
    } else {
        v
    }
}

/// Furthest position that keeps a span of `len` inside `total`, capped at `i32::MAX`.
pub open spec fn max_offset(total: u32, len: int) -> int {
    let room = if total >= len {
        total - len
    } else {
        0
    };
    if room > i32::MAX {
        i32::MAX as int
    } else {
        room
    }
}

/// The menu's box: at the anchor, pushed back inside the window.
pub open spec fn menu_bounds(anchor: PixelPoint, window_width: u32, window_height: u32) -> PixelRect {
    let w = menu_width(window_width);
    let h = menu_height(window_height);
    PixelRect::rect(
        clamp_into(anchor.x as int, 0, max_offset(window_width, w)),
        clamp_into(anchor.y as int, 0, max_offset(window_height, h)),
        w,
        h,
    )
}

/// Height of one row: the content height shared by all entries, between 1 and
/// `ITEM_HEIGHT`.
pub open spec fn row_pitch(window_height: u32) -> int {
    let h = menu_height(window_height);
    let content = if h >= 2 * MENU_PADDING {
        h - 2 * MENU_PADDING
    } else {
        0
    };
    clamp_into(content / MENU_ITEMS as int, 1, ITEM_HEIGHT as int)
}

/// Top of the first row.
pub open spec fn first_row_y(anchor: PixelPoint, window_width: u32, window_height: u32) -> int {
    let h = menu_height(window_height);
    menu_bounds(anchor, window_width, window_height).origin.y + (if MENU_PADDING < h / 2 {
        MENU_PADDING as int
    } else {
        h / 2
    })
}

/// Number of rows that start inside the menu's box (at most `MENU_ITEMS`).
pub open spec fn row_count(anchor: PixelPoint, window_width: u32, window_height: u32) -> int {
    let b = menu_bounds(anchor, window_width, window_height);
    let y0 = first_row_y(anchor, window_width, window_height);
    let pitch = row_pitch(window_height);
    let room = b.spec_bottom() - y0;
    if room <= 0 {
        0
    } else {
        let n = (room + pitch - 1) / pitch;
        if n > MENU_ITEMS {
            MENU_ITEMS as int
        } else {
            n
        }
    }
}

/// Row `k` of the menu.
pub open spec fn menu_item(
    anchor: PixelPoint,
    window_width: u32,
    window_height: u32,
    locked: bool,
    k: int,
) -> PinMenuItem {
    let b = menu_bounds(anchor, window_width, window_height);
    let pitch = row_pitch(window_height);
    let y = first_row_y(anchor, window_width, window_height) + k * pitch;
    let room = b.spec_bottom() - y;
    let w = menu_width(window_width);
    PinMenuItem {
        action: menu_action(k),
        rect: PixelRect::rect(
            b.origin.x + MENU_PADDING,
            y,
            if w >= 2 * MENU_PADDING {
                w - 2 * MENU_PADDING
            } else {
                0
            },
            if pitch < room {
                pitch
            } else {
                room
            },
        ),
        enabled: !(locked && changes_the_pin(menu_action(k))),
    }
}

/// The inputs on which the menu's layout stays within `i32` arithmetic.
pub open spec fn menu_in_range(anchor: PixelPoint, window_width: u32, window_height: u32) -> bool {
    let b = menu_bounds(anchor, window_width, window_height);
    &&& b.origin.x + MENU_PADDING <= i32::MAX
    &&& b.origin.y + menu_height(window_height) + ITEM_HEIGHT <= i32::MAX
}

fn action_at(k: usize) -> (a: PinMenuAction)
    requires
        k < MENU_ITEMS,
    ensures
        a == menu_action(k as int),
{
    if k == 0 {
        PinMenuAction::Copy
    } else if k == 1 {
        PinMenuAction::Ocr
    } else if k == 2 {
        PinMenuAction::Edit
    } else if k == 3 {
        PinMenuAction::FitToImage
    } else if k == 4 {
        PinMenuAction::ToggleLock
    } else if k == 5 {
        PinMenuAction::OpacityDown
    } else if k == 6 {
        PinMenuAction::OpacityUp
    } else if k == 7 {
        PinMenuAction::ToggleAlwaysOnTop
    } else if k == 8 {
        PinMenuAction::Save
    } else {
        PinMenuAction::Close
    }
}

fn menu_box(anchor: PixelPoint, window_width: u32, window_height: u32) -> (b: PixelRect)
    ensures
        b == menu_bounds(anchor, window_width, window_height),
{
    let ww: u32 = if window_width < 1 {
        1
    } else {
        window_width
    };
    let width: u32 = if MENU_WIDTH < ww {
        MENU_WIDTH
    } else {
        ww
    };
    let desired: u32 = MENU_PADDING * 2 + ITEM_HEIGHT * MENU_ITEMS as u32;
    let wh: u32 = if window_height < 1 {
        1
    } else {
        window_height
    };
    let height: u32 = if desired < wh {
        desired
    } else {
        wh
    };
    let room_x: u32 = if window_width >= width {
        window_width - width
    } else {
        0
    };
    let room_y: u32 = if window_height >= height {
        window_height - height
    } else {
        0
    };
    let max_x: i32 = if room_x > i32::MAX as u32 {
        i32::MAX
    } else {
        room_x as i32
    };
    let max_y: i32 = if room_y > i32::MAX as u32 {
        i32::MAX
    } else {
        room_y as i32
    };
    let x: i32 = if anchor.x < 0 {
        0
    } else if anchor.x > max_x {
        max_x
    } else {
        anchor.x
    };
    let y: i32 = if anchor.y < 0 {
        0
    } else if anchor.y > max_y {
        max_y
    } else {
        anchor.y
    };
    PixelRect::new(x, y, width, height)
}

impl PinContextMenu {
    /// Opens the menu at `anchor`, kept inside a window of the given size. Rows shrink to fit
    /// a small window; rows that would start below the menu's box are left out. While the pin
    /// is locked, the entries that change it are disabled.
    pub fn open(anchor: PixelPoint, window_width: u32, window_height: u32, locked: bool) -> (menu:
        PinContextMenu)
        requires
            menu_in_range(anchor, window_width, window_height),
        ensures
            menu.bounds == menu_bounds(anchor, window_width, window_height),
            menu.items@.len() == row_count(anchor, window_width, window_height),
            forall|k: int|
                0 <= k < menu.items@.len() ==> #[trigger] menu.items@[k] == menu_item(
                    anchor,
                    window_width,
                    window_height,
                    locked,
                    k,
                ),
    {
        let bounds = menu_box(anchor, window_width, window_height);
        let width = bounds.size.width;
        let height = bounds.size.height;
        let x = bounds.origin.x;
        let content: u32 = if height >= MENU_PADDING * 2 {
            height - MENU_PADDING * 2
        } else {
            0
        };
        let per_row: u32 = content / MENU_ITEMS as u32;
        let pitch: u32 = if per_row < 1 {
            1
        } else if per_row > ITEM_HEIGHT {
            ITEM_HEIGHT
        } else {
            per_row
        };
        let top_pad: u32 = if MENU_PADDING < height / 2 {
            MENU_PADDING
        } else {
            height / 2
        };
        let first_y: i64 = bounds.origin.y as i64 + top_pad as i64;
        let item_width: u32 = if width >= MENU_PADDING * 2 {
            width - MENU_PADDING * 2
        } else {
            0
        };
        let bottom: i64 = bounds.bottom() as i64;
        let mut items: Vec<PinMenuItem> = Vec::new();
        let mut item_y: i64 = first_y;
        let mut k: usize = 0;
        while k < MENU_ITEMS
            invariant
                k <= MENU_ITEMS,
                items@.len() == k,
                bounds == menu_bounds(anchor, window_width, window_height),
                menu_in_range(anchor, window_width, window_height),
                pitch as int == row_pitch(window_height),
                1 <= pitch <= ITEM_HEIGHT,
                first_y == first_row_y(anchor, window_width, window_height),
                bottom == bounds.spec_bottom(),
                item_y == first_y + k * pitch,
                item_width as int == (if menu_width(window_width) >= 2 * MENU_PADDING {
                    menu_width(window_width) - 2 * MENU_PADDING
                } else {
                    0
                }),
                x == bounds.origin.x,
                k > 0 ==> item_y - pitch < bottom,
                forall|j: int|
                    0 <= j < k ==> #[trigger] items@[j] == menu_item(
                        anchor,
                        window_width,
                        window_height,
                        locked,
                        j,
                    ),
            ensures
                k < MENU_ITEMS ==> item_y >= bottom,
            decreases MENU_ITEMS - k,
        {
            if item_y >= bottom {
                break;
            }
            let remaining: i64 = bottom - item_y;
            let row_height: u32 = if (pitch as i64) < remaining {
                pitch
            } else {
                remaining as u32
            };
            let action = action_at(k);
            let enabled = !(locked && (matches!(action, PinMenuAction::Edit) || matches!(
                action,
                PinMenuAction::FitToImage
            ) || matches!(action, PinMenuAction::OpacityDown) || matches!(
                action,
                PinMenuAction::OpacityUp
            )));
            items.push(
                PinMenuItem {
                    action,
                    rect: PixelRect::new(
                        x + MENU_PADDING as i32,
                        item_y as i32,
                        item_width,
                        row_height,
                    ),
                    enabled,
                },
            );
            assert(first_y + (k + 1) * pitch == item_y + pitch) by (nonlinear_arith)
                requires
                    item_y == first_y + k * pitch,
            ;
            item_y = item_y + pitch as i64;
            k += 1;
        }
        proof {
            let room = bottom - first_y;
            if room <= 0 {
                assert(k == 0) by (nonlinear_arith)
                    requires
                        item_y == first_y + k * pitch,
                        k > 0 ==> item_y - pitch < bottom,
                        room == bottom - first_y,
                        room <= 0,
                        pitch >= 1,
                        k >= 0,
                ;
            } else if k < MENU_ITEMS {
                assert(k == (room + pitch - 1) / pitch as int) by (nonlinear_arith)
                    requires
                        item_y == first_y + k * pitch,
                        item_y >= bottom,
                        k > 0 ==> item_y - pitch < bottom,
                        room == bottom - first_y,
                        room > 0,
                        pitch >= 1,
                        k >= 0,
                ;
            } else {
                assert((room + pitch - 1) / pitch as int >= MENU_ITEMS) by (nonlinear_arith)
                    requires
                        item_y == first_y + k * pitch,
                        k == MENU_ITEMS,
                        item_y - pitch < bottom,
                        room == bottom - first_y,
                        pitch >= 1,
                ;
            }
        }
        PinContextMenu { bounds, items }
    }
}

/// The first enabled item, in order, that contains `p`.
pub open spec fn first_enabled_hit(items: Seq<PinMenuItem>, p: PixelPoint) -> Option<int>
    decreases items.len(),
{
    if items.len() == 0 {
        None
    } else {
        match first_enabled_hit(items.drop_last(), p) {
            Some(i) => Some(i),
            None => if items.last().enabled && items.last().rect.spec_contains(p) {
                Some(items.len() - 1)
            } else {
                None
            },
        }
    }
}

proof fn lemma_first_enabled_hit_prefix(items: Seq<PinMenuItem>, p: PixelPoint, n: int)
    requires
        0 < n <= items.len(),
        first_enabled_hit(items.subrange(0, n), p) is Some,
    ensures
        first_enabled_hit(items, p) == first_enabled_hit(items.subrange(0, n), p),
    decreases items.len() - n,
{
    if n < items.len() {
        assert(items.subrange(0, n + 1).drop_last() =~= items.subrange(0, n));
        lemma_first_enabled_hit_prefix(items, p, n + 1);
    } else {
        assert(items.subrange(0, n) =~= items);
    }
}

/// The caption of a menu entry; lock and stacking entries name what they switch to.
pub open spec fn menu_label(action: PinMenuAction, locked: bool, always_on_top: bool) -> Seq<char> {
    match action {
        PinMenuAction::Copy => "COPY"@,
        PinMenuAction::Ocr => "OCR"@,
        PinMenuAction::Edit => "EDIT"@,
        PinMenuAction::FitToImage => "100%"@,
        PinMenuAction::ToggleLock => if locked {
            "UNLOCK"@
        } else {
            "LOCK"@
        },
        PinMenuAction::OpacityDown => "DIM -"@,
        PinMenuAction::OpacityUp => "DIM +"@,
        PinMenuAction::ToggleAlwaysOnTop => if always_on_top {
            "TOP"@
        } else {
            "BASE"@
        },
        PinMenuAction::Save => "SAVE"@,
        PinMenuAction::Close => "CLOSE"@,
    }
}

pub fn label(action: PinMenuAction, locked: bool, always_on_top: bool) -> (l: &'static str)
    ensures
        l@ == menu_label(action, locked, always_on_top),
{
    match action {
        PinMenuAction::Copy => "COPY",
        PinMenuAction::Ocr => "OCR",
        PinMenuAction::Edit => "EDIT",
        PinMenuAction::FitToImage => "100%",
        PinMenuAction::ToggleLock => if locked {
            "UNLOCK"
        } else {
            "LOCK"
        },
        PinMenuAction::OpacityDown => "DIM -",
        PinMenuAction::OpacityUp => "DIM +",
        PinMenuAction::ToggleAlwaysOnTop => if always_on_top {
            "TOP"
        } else {
            "BASE"
        },
        PinMenuAction::Save => "SAVE",
        PinMenuAction::Close => "CLOSE",
    }
}

impl PinContextMenu {
    /// The action of the first enabled entry under `point`; disabled entries never answer.
    pub fn hit_test(&self, point: PixelPoint) -> (action: Option<PinMenuAction>)
        ensures
            action == (match first_enabled_hit(self.items@, point) {
                Some(i) => Some(self.items@[i].action),
                None => None,
            }),
    {
        let mut i: usize = 0;
        while i < self.items.len()
            invariant
                i <= self.items@.len(),
                first_enabled_hit(self.items@.subrange(0, i as int), point) is None,
            decreases self.items@.len() - i,
        {
            let item = self.items[i];
            assert(self.items@.subrange(0, i + 1).drop_last() =~= self.items@.subrange(0, i as int));
            if item.enabled && item.rect.contains_point(point) {
                proof {
                    lemma_first_enabled_hit_prefix(self.items@, point, i + 1);
                }
                return Some(item.action);
            }
            i += 1;
        }
        assert(self.items@.subrange(0, self.items@.len() as int) =~= self.items@);
        None
    }

    /// Whether `point` falls on the menu's box.
    pub fn contains(&self, point: PixelPoint) -> (b: bool)
        ensures
            b == self.bounds.spec_contains(point),
    {
        self.bounds.contains_point(point)
    }
}

/// The menu never leaves the pin's window, and, in a window at least as wide as the menu's
/// side padding, its rows never leave the menu.
pub proof fn menu_stays_within_the_window(
    anchor: PixelPoint,
    window_width: u32,
    window_height: u32,
    locked: bool,
    k: int,
)
    requires
        2 * MENU_PADDING <= window_width <= i32::MAX,
        1 <= window_height <= i32::MAX,
        0 <= k < row_count(anchor, window_width, window_height),
    ensures
        ({
            let b = menu_bounds(anchor, window_width, window_height);
            let r = menu_item(anchor, window_width, window_height, locked, k).rect;
            &&& 0 <= b.origin.x
            &&& b.origin.x + b.size.width <= window_width
            &&& 0 <= b.origin.y
            &&& b.origin.y + b.size.height <= window_height
            &&& b.origin.x <= r.origin.x
            &&& r.origin.x + r.size.width <= b.origin.x + b.size.width
            &&& b.origin.y <= r.origin.y
            &&& r.origin.y + r.size.height <= b.origin.y + b.size.height
        }),
{
    let b = menu_bounds(anchor, window_width, window_height);
    let pitch = row_pitch(window_height);
    let y0 = first_row_y(anchor, window_width, window_height);
    let room = b.spec_bottom() - y0;
    let n = row_count(anchor, window_width, window_height);
    assert(k * pitch < room) by (nonlinear_arith)
        requires
            0 <= k < n,
            n <= (room + pitch - 1) / pitch,
            pitch >= 1,
            room > 0,
    ;
    assert(0 <= k * pitch) by (nonlinear_arith)
        requires
            0 <= k,
            pitch >= 1,
    ;
    assert(0 <= b.origin.x);
    assert(b.origin.x + b.size.width <= window_width);
    assert(0 <= b.origin.y);
    assert(b.origin.y + b.size.height <= window_height);
    let r = menu_item(anchor, window_width, window_height, locked, k).rect;
    assert(r.origin.y == y0 + k * pitch);
    assert(r.origin.x == b.origin.x + MENU_PADDING);
}

/// A locked pin's menu keeps copy, OCR, lock, stacking, save and close, and disables every
/// entry that would change the pin.
pub proof fn locked_menu_disables_changes(
    anchor: PixelPoint,
    window_width: u32,
    window_height: u32,
    k: int,
)
    ensures
        menu_item(anchor, window_width, window_height, true, k).enabled == !changes_the_pin(
            menu_action(k),
        ),
        menu_item(anchor, window_width, window_height, false, k).enabled,
{
}

} // verus!
