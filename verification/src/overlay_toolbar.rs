//! The floating toolbar of the selection overlay: layout and hit testing, in image pixels.

use crate::annotate::AnnotateTool;
use crate::geometry::{PixelPoint, PixelRect};
use vstd::prelude::*;

verus! {

/// What a toolbar button does.
#[derive(Debug, Clone, Copy, PartialEq, Eq, Structural)]
pub enum ToolbarAction {
    Copy,
    Pin,
    Save,
    Ocr,
    Tool(AnnotateTool),
}

/// One button, in image pixels.
#[derive(Debug, Clone, Copy, PartialEq, Eq)]
pub struct ToolbarButton {
    pub action: ToolbarAction,
    pub label: &'static str,
    pub rect: PixelRect,
}

pub const BTN_W: u32 = 64;
pub const BTN_H: u32 = 36;
pub const GAP: u32 = 6;
pub const PAD: u32 = 8;
pub const BAR_MARGIN: i32 = 10;
/// How far a click may miss a button and still hit it.
pub const HIT_PAD: i32 = 4;
/// Number of buttons.
pub const BUTTON_COUNT: usize = 13;

/// The action of the button at position `k`.
pub open spec fn action_at(k: int) -> ToolbarAction {
    if k == 0 {
        ToolbarAction::Copy
    } else if k == 1 {
        ToolbarAction::Pin
    } else if k == 2 {
        ToolbarAction::Save
    } else if k == 3 {
        ToolbarAction::Ocr
    } else if k == 4 {
        ToolbarAction::Tool(AnnotateTool::Rect)
    } else if k == 5 {
        ToolbarAction::Tool(AnnotateTool::Line)
    } else if k == 6 {
        ToolbarAction::Tool(AnnotateTool::Arrow)
    } else if k == 7 {
        ToolbarAction::Tool(AnnotateTool::Pen)
    } else if k == 8 {
        ToolbarAction::Tool(AnnotateTool::Ellipse)
    } else if k == 9 {
        ToolbarAction::Tool(AnnotateTool::Number)
    } else if k == 10 {
        ToolbarAction::Tool(AnnotateTool::Mosaic)
    } else if k == 11 {
        ToolbarAction::Tool(AnnotateTool::Text)
    } else {
        ToolbarAction::Tool(AnnotateTool::ColorPicker)
    }
}

fn button_spec(k: usize) -> (spec: (ToolbarAction, &'static str))
    requires
        k < BUTTON_COUNT,
    ensures
        spec.0 == action_at(k as int),
{
    if k == 0 {
        (ToolbarAction::Copy, "复制")
    } else if k == 1 {
        (ToolbarAction::Pin, "贴图")
    } else if k == 2 {
        (ToolbarAction::Save, "保存")
    } else if k == 3 {
        (ToolbarAction::Ocr, "OCR")
    } else if k == 4 {
        (ToolbarAction::Tool(AnnotateTool::Rect), "矩形")
    } else if k == 5 {
        (ToolbarAction::Tool(AnnotateTool::Line), "直线")
    } else if k == 6 {
        (ToolbarAction::Tool(AnnotateTool::Arrow), "箭头")
    } else if k == 7 {
        (ToolbarAction::Tool(AnnotateTool::Pen), "画笔")
    } else if k == 8 {
        (ToolbarAction::Tool(AnnotateTool::Ellipse), "椭圆")
    } else if k == 9 {
        (ToolbarAction::Tool(AnnotateTool::Number), "序号")
    } else if k == 10 {
        (ToolbarAction::Tool(AnnotateTool::Mosaic), "马赛克")
    } else if k == 11 {
        (ToolbarAction::Tool(AnnotateTool::Text), "文本")
    } else {
        (ToolbarAction::Tool(AnnotateTool::ColorPicker), "取色")
    }
}

/// Number of button columns that fit the image width.
pub open spec fn columns_for(img_w: int) -> int {
    let available = if img_w - 16 > 1 {
        img_w - 16
    } else {
        1
    };
    let c = (available + GAP) / (BTN_W + GAP);
    if c < 1 {
        1
    } else if c > BUTTON_COUNT {
        BUTTON_COUNT as int
    } else {
        c
    }
}

pub open spec fn rows_for(columns: int) -> int {
    (BUTTON_COUNT + columns - 1) / columns
}

pub open spec fn bar_width(columns: int) -> int {
    2 * PAD + columns * BTN_W + (columns - 1) * GAP
}

pub open spec fn bar_height(rows: int) -> int {
    2 * PAD + rows * BTN_H + (rows - 1) * GAP
}

/// Whether the toolbar is shown at all: the image holds one button with padding, and all rows.
pub open spec fn toolbar_fits(img_w: u32, img_h: u32) -> bool {
    &&& img_w >= BTN_W + 2 * PAD
    &&& img_h >= BTN_H + 2 * PAD
    &&& bar_height(rows_for(columns_for(img_w as int))) <= img_h
}

/// Integer halving that rounds toward zero.
pub open spec fn half_toward_zero(a: int) -> int {
    if a >= 0 {
        a / 2
    } else {
        -((-a) / 2)
    }
}

pub open spec fn clamp_to(v: int, lo: int, hi: int) -> int {
    if v < lo {
        lo
    } else if v > hi {
        hi
    } else {
        v
    }
}

/// Left edge of the bar: centred on the selection, kept inside the image.
pub open spec fn bar_x(sel: PixelRect, img_w: u32) -> int {
    let bw = bar_width(columns_for(img_w as int));
    let raw = sel.origin.x + half_toward_zero((sel.size.width as i32) - bw);
    let hi = (img_w as i32) - bw;
    clamp_to(
        raw,
        0,
        if hi > 0 {
            hi
        } else {
            0
        },
    )
}

/// Top edge of the bar: below the selection if it fits, else above it, else straddling the
/// selection's bottom edge, kept inside the image.
pub open spec fn bar_y(sel: PixelRect, img_w: u32, img_h: u32) -> int {
    let bh = bar_height(rows_for(columns_for(img_w as int)));
    let below = sel.spec_bottom() + BAR_MARGIN;
    let above = sel.origin.y - bh - BAR_MARGIN;
    let hi = (img_h as i32) - bh;
    if below + bh <= (img_h as i32) {
        below
    } else if above >= 0 {
        above
    } else {
        clamp_to(
            sel.spec_bottom() - bh / 2,
            0,
            if hi > 0 {
                hi
            } else {
                0
            },
        )
    }
}

/// The inputs on which the bar's placement stays within `i32` arithmetic.
pub open spec fn placement_in_range(sel: PixelRect, img_w: u32, img_h: u32) -> bool {
    let bw = bar_width(columns_for(img_w as int));
    let bh = bar_height(rows_for(columns_for(img_w as int)));
    &&& i32::MIN <= (sel.size.width as i32) - bw
    &&& i32::MIN <= sel.origin.x + half_toward_zero((sel.size.width as i32) - bw) <= i32::MAX
    &&& sel.spec_bottom() + BAR_MARGIN + bh <= i32::MAX
    &&& i32::MIN <= sel.origin.y - bh - BAR_MARGIN
}

/// The rectangle of button `k`: buttons fill rows left to right inside the bar's padding.
pub open spec fn button_rect(sel: PixelRect, img_w: u32, img_h: u32, k: int) -> PixelRect {
    let c = columns_for(img_w as int);
    PixelRect::rect(
        bar_x(sel, img_w) + PAD + (k % c) * (BTN_W + GAP),
        bar_y(sel, img_w, img_h) + PAD + (k / c) * (BTN_H + GAP),
        BTN_W as int,
        BTN_H as int,
    )
}

fn half_toward_zero_i64(a: i64) -> (h: i64)
    requires
        a > i64::MIN,
    ensures
        h == half_toward_zero(a as int),
{
    if a >= 0 {
        a / 2
    } else {
        -((-a) / 2)
    }
}

/// Lays the toolbar out for a selection in an image of `img_w` by `img_h` pixels: below the
/// selection when there is room, else above it, else straddling its bottom edge; centred on
/// the selection and kept inside the image; wrapped onto as many rows as the width needs.
/// Empty when the image cannot hold a padded button or all the rows.
pub fn layout_toolbar(selection: PixelRect, img_w: u32, img_h: u32) -> (buttons: Vec<
    ToolbarButton,
>)
    requires
        toolbar_fits(img_w, img_h) ==> placement_in_range(selection, img_w, img_h),
    ensures
        !toolbar_fits(img_w, img_h) ==> buttons@.len() == 0,
        toolbar_fits(img_w, img_h) ==> buttons@.len() == BUTTON_COUNT && forall|k: int|
            0 <= k < BUTTON_COUNT ==> (#[trigger] buttons@[k]).action == action_at(k)
                && buttons@[k].rect == button_rect(selection, img_w, img_h, k),
{
    if img_w < BTN_W + PAD * 2 || img_h < BTN_H + PAD * 2 {
        return Vec::new();
    }
    let available: u32 = if img_w - 2 * PAD > 1 {
        img_w - 2 * PAD
    } else {
        1
    };
    let mut columns: u32 = (available + GAP) / (BTN_W + GAP);
    if columns < 1 {
        columns = 1;
    }
    if columns > 13 {
        columns = 13;
    }
    let rows: u32 = (13 + columns - 1) / columns;
    proof {
        assert(columns as int == columns_for(img_w as int));
        assert(rows as int == rows_for(columns as int));
        assert(1 <= rows <= 13) by (nonlinear_arith)
            requires
                1 <= columns <= 13,
                rows == (13 + columns - 1) / columns as int,
        ;
    }
    let bar_w: u32 = 2 * PAD + columns * BTN_W + (columns - 1) * GAP;
    let bar_h: u32 = 2 * PAD + rows * BTN_H + (rows - 1) * GAP;
    if bar_h > img_h {
        return Vec::new();
    }
    let raw: i64 = selection.origin.x as i64 + half_toward_zero_i64(
        (selection.size.width as i32) as i64 - bar_w as i64,
    );
    let hi_x: i64 = (img_w as i32) as i64 - bar_w as i64;
    let max_x: i64 = if hi_x > 0 {
        hi_x
    } else {
        0
    };
    let x: i64 = if raw < 0 {
        0
    } else if raw > max_x {
        max_x
    } else {
        raw
    };
    let bottom: i64 = selection.bottom() as i64;
    let below: i64 = bottom + BAR_MARGIN as i64;
    let above: i64 = selection.origin.y as i64 - bar_h as i64 - BAR_MARGIN as i64;
    let img_h_i: i64 = (img_h as i32) as i64;
    let y: i64 = if below + bar_h as i64 <= img_h_i {
        below
    } else if above >= 0 {
        above
    } else {
        let hi_y: i64 = img_h_i - bar_h as i64;
        let max_y: i64 = if hi_y > 0 {
            hi_y
        } else {
            0
        };
        let mid: i64 = bottom - (bar_h / 2) as i64;
        if mid < 0 {
            0
        } else if mid > max_y {
            max_y
        } else {
            mid
        }
    };
    proof {
        assert(x == bar_x(selection, img_w));
        assert(y == bar_y(selection, img_w, img_h));
    }
    let mut buttons: Vec<ToolbarButton> = Vec::new();
    let mut k: usize = 0;
    while k < BUTTON_COUNT
        invariant
            k <= BUTTON_COUNT,
            buttons@.len() == k,
            toolbar_fits(img_w, img_h),
            placement_in_range(selection, img_w, img_h),
            columns as int == columns_for(img_w as int),
            rows as int == rows_for(columns as int),
            1 <= columns <= 13,
            1 <= rows <= 13,
            bar_w as int == bar_width(columns as int),
            bar_h as int == bar_height(rows as int),
            x == bar_x(selection, img_w),
            y == bar_y(selection, img_w, img_h),
            forall|j: int|
                0 <= j < k ==> (#[trigger] buttons@[j]).action == action_at(j) && buttons@[j].rect
                    == button_rect(selection, img_w, img_h, j),
        decreases BUTTON_COUNT - k,
    {
        let column: u32 = k as u32 % columns;
        let row: u32 = k as u32 / columns;
        proof {
            assert(row < rows) by (nonlinear_arith)
                requires
                    k < 13,
                    1 <= columns,
                    row == k as int / columns as int,
                    rows == (13 + columns - 1) / columns as int,
            ;
            assert(column < columns);
            assert(column * (BTN_W + GAP) <= 12 * 70) by (nonlinear_arith)
                requires
                    column <= 12,
            ;
            assert(row * (BTN_H + GAP) <= 12 * 42) by (nonlinear_arith)
                requires
                    row <= 12,
            ;
            assert(bar_x(selection, img_w) + PAD + column * (BTN_W + GAP) <= i32::MAX);
            assert(bar_y(selection, img_w, img_h) + PAD + row * (BTN_H + GAP) <= i32::MAX);
        }
        let bx: i64 = x + PAD as i64 + (column * (BTN_W + GAP)) as i64;
        let by: i64 = y + PAD as i64 + (row * (BTN_H + GAP)) as i64;
        let (action, label) = button_spec(k);
        buttons.push(ToolbarButton {
            action,
            label,
            rect: PixelRect::new(bx as i32, by as i32, BTN_W, BTN_H),
        });
        k += 1;
    }
    buttons
}

/// A click at `p` lands on `b`, whose rectangle is widened by `HIT_PAD` on every side.
pub open spec fn lands_on(b: ToolbarButton, p: PixelPoint) -> bool {
    let r = b.rect;
    &&& p.x >= r.origin.x - HIT_PAD
    &&& p.y >= r.origin.y - HIT_PAD
    &&& p.x < r.spec_right() + HIT_PAD
    &&& p.y < r.spec_bottom() + HIT_PAD
}

/// The first button, in order, that a click at `p` lands on.
pub open spec fn first_hit(buttons: Seq<ToolbarButton>, p: PixelPoint) -> Option<int>
    decreases buttons.len(),
{
    if buttons.len() == 0 {
        None
    } else {
        match first_hit(buttons.drop_last(), p) {
            Some(i) => Some(i),
            None => if lands_on(buttons.last(), p) {
                Some(buttons.len() - 1)
            } else {
                None
            },
        }
    }
}

/// The widened rectangles stay within `i32` arithmetic.
pub open spec fn hit_in_range(buttons: Seq<ToolbarButton>) -> bool {
    forall|i: int|
        0 <= i < buttons.len() ==> (#[trigger] buttons[i]).rect.origin.x >= i32::MIN + HIT_PAD
            && buttons[i].rect.origin.y >= i32::MIN + HIT_PAD && buttons[i].rect.spec_right()
            <= i32::MAX - HIT_PAD && buttons[i].rect.spec_bottom() <= i32::MAX - HIT_PAD
}

/// The action of the first button a click at `p` lands on.
pub fn hit_test(buttons: &Vec<ToolbarButton>, p: PixelPoint) -> (action: Option<ToolbarAction>)
    requires
        hit_in_range(buttons@),
    ensures
        action == (match first_hit(buttons@, p) {
            Some(i) => Some(buttons@[i].action),
            None => None,
        }),
{
    let mut i: usize = 0;
    while i < buttons.len()
        invariant
            i <= buttons@.len(),
            hit_in_range(buttons@),
            first_hit(buttons@.subrange(0, i as int), p) is None,
        decreases buttons@.len() - i,
    {
        let r = buttons[i].rect;
        let x0 = r.origin.x - HIT_PAD;
        let y0 = r.origin.y - HIT_PAD;
        let x1 = r.right() + HIT_PAD;
        let y1 = r.bottom() + HIT_PAD;
        assert(buttons@.subrange(0, i + 1).drop_last() =~= buttons@.subrange(0, i as int));
        if p.x >= x0 && p.y >= y0 && p.x < x1 && p.y < y1 {
            proof {
                lemma_first_hit_prefix(buttons@, p, i + 1);
            }
            return Some(buttons[i].action);
        }
        i += 1;
    }
    assert(buttons@.subrange(0, buttons@.len() as int) =~= buttons@);
    None
}

/// A hit found in a prefix is the hit of the whole list.
proof fn lemma_first_hit_prefix(buttons: Seq<ToolbarButton>, p: PixelPoint, n: int)
    requires
        0 < n <= buttons.len(),
        first_hit(buttons.subrange(0, n), p) is Some,
    ensures
        first_hit(buttons, p) == first_hit(buttons.subrange(0, n), p),
    decreases buttons.len() - n,
{
    if n < buttons.len() {
        assert(buttons.subrange(0, n + 1).drop_last() =~= buttons.subrange(0, n));
        lemma_first_hit_prefix(buttons, p, n + 1);
    } else {
        assert(buttons.subrange(0, n) =~= buttons);
    }
}

pub open spec fn min_i(a: int, b: int) -> int {
    if a < b {
        a
    } else {
        b
    }
}

pub open spec fn max_i(a: int, b: int) -> int {
    if a > b {
        a
    } else {
        b
    }
}

/// Leftmost, topmost, rightmost and bottommost edges of the buttons (the list not empty).
pub open spec fn extent(buttons: Seq<ToolbarButton>) -> (int, int, int, int)
    decreases buttons.len(),
{
    if buttons.len() <= 1 {
        let r = buttons[0].rect;
        (r.origin.x as int, r.origin.y as int, r.spec_right(), r.spec_bottom())
    } else {
        let e = extent(buttons.drop_last());
        let r = buttons.last().rect;
        (
            min_i(e.0, r.origin.x as int),
            min_i(e.1, r.origin.y as int),
            max_i(e.2, r.spec_right()),
            max_i(e.3, r.spec_bottom()),
        )
    }
}

/// The outline around all buttons, `PAD` wider on every side.
pub open spec fn bounds_of(buttons: Seq<ToolbarButton>) -> PixelRect {
    let e = extent(buttons);
    PixelRect::rect(
        e.0 - PAD,
        e.1 - PAD,
        max_i(e.2 - e.0 + 2 * PAD, 0),
        max_i(e.3 - e.1 + 2 * PAD, 0),
    )
}

/// The outline stays within `i32` arithmetic.
pub open spec fn bounds_in_range(buttons: Seq<ToolbarButton>) -> bool {
    let e = extent(buttons);
    &&& e.0 - PAD >= i32::MIN
    &&& e.1 - PAD >= i32::MIN
    &&& e.2 - e.0 + 2 * PAD <= i32::MAX
    &&& e.3 - e.1 + 2 * PAD <= i32::MAX
}

/// The box around the whole toolbar, so that a press on it does not start a new selection.
pub fn toolbar_bounds(buttons: &Vec<ToolbarButton>) -> (b: Option<PixelRect>)
    requires
        buttons@.len() > 0 ==> bounds_in_range(buttons@),
    ensures
        buttons@.len() == 0 ==> b is None,
        buttons@.len() > 0 ==> b == Some(bounds_of(buttons@)),
{
    if buttons.len() == 0 {
        return None;
    }
    let mut x0: i32 = buttons[0].rect.origin.x;
    let mut y0: i32 = buttons[0].rect.origin.y;
    let mut x1: i32 = buttons[0].rect.right();
    let mut y1: i32 = buttons[0].rect.bottom();
    let mut i: usize = 1;
    while i < buttons.len()
        invariant
            1 <= i <= buttons@.len(),
            (x0 as int, y0 as int, x1 as int, y1 as int) == extent(buttons@.subrange(0, i as int)),
        decreases buttons@.len() - i,
    {
        let r = buttons[i].rect;
        assert(buttons@.subrange(0, i + 1).drop_last() =~= buttons@.subrange(0, i as int));
        if r.origin.x < x0 {
            x0 = r.origin.x;
        }
        if r.origin.y < y0 {
            y0 = r.origin.y;
        }
        let right = r.right();
        if right > x1 {
            x1 = right;
        }
        let bottom = r.bottom();
        if bottom > y1 {
            y1 = bottom;
        }
        i += 1;
    }
    assert(buttons@.subrange(0, buttons@.len() as int) =~= buttons@);
    let w: i64 = x1 as i64 - x0 as i64 + 2 * PAD as i64;
    let h: i64 = y1 as i64 - y0 as i64 + 2 * PAD as i64;
    Some(
        PixelRect::new(
            x0 - PAD as i32,
            y0 - PAD as i32,
            if w > 0 {
                w as u32
            } else {
                0
            },
            if h > 0 {
                h as u32
            } else {
                0
            },
        ),
    )
}

/// For a selection whose rows lie within the image, every button lies inside the image.
pub proof fn toolbar_stays_inside_the_image(sel: PixelRect, img_w: u32, img_h: u32, k: int)
    requires
        toolbar_fits(img_w, img_h),
        placement_in_range(sel, img_w, img_h),
        img_w <= i32::MAX,
        img_h <= i32::MAX,
        0 <= sel.origin.y,
        sel.spec_bottom() <= img_h,
        0 <= k < BUTTON_COUNT,
    ensures
        ({
            let r = button_rect(sel, img_w, img_h, k);
            &&& 0 <= r.origin.x
            &&& r.origin.x + r.size.width <= img_w
            &&& 0 <= r.origin.y
            &&& r.origin.y + r.size.height <= img_h
        }),
{
    let c = columns_for(img_w as int);
    let rows = rows_for(c);
    lemma_grid_cell(c, k);
    toolbar_x_in_range(sel, img_w, img_h, k);
    let available = if img_w - 16 > 1 {
        img_w - 16
    } else {
        1
    };
    assert(c * (BTN_W + GAP) <= available + GAP || c == 1) by (nonlinear_arith)
        requires
            c == (if (available + GAP) / (BTN_W + GAP) < 1 {
                1
            } else if (available + GAP) / (BTN_W + GAP) > 13 {
                13
            } else {
                (available + GAP) / (BTN_W + GAP)
            }),
            available >= 1,
    ;
    assert(bar_width(c) <= img_w);
    assert(bar_height(rows) <= img_h);
    assert((k % c) * (BTN_W + GAP) + BTN_W + PAD <= bar_width(c) - PAD) by (nonlinear_arith)
        requires
            0 <= k % c < c,
    ;
    assert((k / c) * (BTN_H + GAP) + BTN_H + PAD <= bar_height(rows) - PAD) by (nonlinear_arith)
        requires
            0 <= k / c < rows,
    ;
    let bx = bar_x(sel, img_w) + PAD + (k % c) * (BTN_W + GAP);
    let by = bar_y(sel, img_w, img_h) + PAD + (k / c) * (BTN_H + GAP);
    assert(0 <= bar_x(sel, img_w));
    assert(bar_x(sel, img_w) + bar_width(c) <= img_w);
    assert(0 <= bar_y(sel, img_w, img_h));
    assert(bar_y(sel, img_w, img_h) + bar_height(rows) <= img_h);
    assert(0 <= (k / c) * (BTN_H + GAP)) by (nonlinear_arith)
        requires
            0 <= k / c,
    ;
    assert(0 <= (k % c) * (BTN_W + GAP)) by (nonlinear_arith)
        requires
            0 <= k % c,
    ;
    let r = button_rect(sel, img_w, img_h, k);
    assert(r.origin.x == bx);
    assert(r.origin.y == by);
}

/// Cell `k` of a grid with `c` columns lies in row `k / c` and column `k % c`, within the rows
/// the thirteen buttons need.
proof fn lemma_grid_cell(c: int, k: int)
    requires
        1 <= c <= BUTTON_COUNT,
        0 <= k < BUTTON_COUNT,
    ensures
        0 <= k % c < c,
        0 <= k / c < rows_for(c),
        k == (k / c) * c + k % c,
{
    assert(0 <= k / c < rows_for(c)) by (nonlinear_arith)
        requires
            1 <= c <= 13,
            0 <= k < 13,
    ;
    assert(k == (k / c) * c + k % c) by (nonlinear_arith)
        requires
            1 <= c,
    ;
}

/// Earlier cells of the grid lie in an earlier row, or earlier in the same row.
proof fn lemma_grid_order(c: int, j: int, k: int)
    requires
        1 <= c,
        0 <= j < k,
    ensures
        j / c < k / c || (j / c == k / c && j % c < k % c),
{
    assert(j / c < k / c || (j / c == k / c && j % c < k % c)) by (nonlinear_arith)
        requires
            1 <= c,
            0 <= j < k,
    ;
}

/// A click one pixel inside a button's top-left corner selects that button: no earlier button's
/// widened rectangle reaches it.
pub proof fn each_button_is_hit_at_its_corner(
    buttons: Seq<ToolbarButton>,
    sel: PixelRect,
    img_w: u32,
    img_h: u32,
    k: int,
)
    requires
        toolbar_fits(img_w, img_h),
        placement_in_range(sel, img_w, img_h),
        buttons.len() == BUTTON_COUNT,
        forall|j: int| 0 <= j < BUTTON_COUNT ==> (#[trigger] buttons[j]).rect == button_rect(
            sel,
            img_w,
            img_h,
            j,
        ),
        0 <= k < BUTTON_COUNT,
    ensures
        ({
            let r = buttons[k].rect;
            first_hit(buttons, PixelPoint { x: (r.origin.x + 1) as i32, y: (r.origin.y + 1) as i32 })
                == Some(k)
        }),
{
    let c = columns_for(img_w as int);
    let r = buttons[k].rect;
    let p = PixelPoint { x: (r.origin.x + 1) as i32, y: (r.origin.y + 1) as i32 };
    lemma_grid_cell(c, k);
    assert(bar_x(sel, img_w) + PAD + (k % c) * (BTN_W + GAP) + BTN_W <= i32::MAX) by {
        toolbar_x_in_range(sel, img_w, img_h, k);
    }
    assert(bar_y(sel, img_w, img_h) + PAD + (k / c) * (BTN_H + GAP) + BTN_H <= i32::MAX) by {
        toolbar_x_in_range(sel, img_w, img_h, k);
    }
    assert forall|j: int| 0 <= j < k implies !lands_on(#[trigger] buttons[j], p) by {
        lemma_grid_cell(c, j);
        lemma_grid_order(c, j, k);
        toolbar_x_in_range(sel, img_w, img_h, j);
        if j / c < k / c {
            assert((j / c) * (BTN_H + GAP) + BTN_H + HIT_PAD < (k / c) * (BTN_H + GAP) + 1)
                by (nonlinear_arith)
                requires
                    j / c < k / c,
            ;
        } else {
            assert((j % c) * (BTN_W + GAP) + BTN_W + HIT_PAD < (k % c) * (BTN_W + GAP) + 1)
                by (nonlinear_arith)
                requires
                    j % c < k % c,
            ;
        }
    }
    lemma_first_hit_at(buttons, p, k);
}

/// The toolbar goes below the selection whenever it fits there: every button then starts at
/// least `BAR_MARGIN` below the selection's bottom edge. Only when it does not fit below but
/// fits above does it go above: every button then ends at least `BAR_MARGIN` above the
/// selection's top edge. (The image height is taken as an `i32`, so heights beyond
/// `i32::MAX` are left out.)
pub proof fn toolbar_prefers_below_the_selection(sel: PixelRect, img_w: u32, img_h: u32, k: int)
    requires
        img_h <= i32::MAX,
        toolbar_fits(img_w, img_h),
        placement_in_range(sel, img_w, img_h),
        0 <= k < BUTTON_COUNT,
    ensures
        ({
            let bh = bar_height(rows_for(columns_for(img_w as int)));
            let r = button_rect(sel, img_w, img_h, k);
            &&& sel.spec_bottom() + BAR_MARGIN + bh <= img_h ==> r.origin.y >= sel.spec_bottom()
                + BAR_MARGIN
            &&& sel.spec_bottom() + BAR_MARGIN + bh > img_h && sel.origin.y - bh - BAR_MARGIN >= 0
                ==> r.origin.y + r.size.height <= sel.origin.y - BAR_MARGIN
        }),
{
    let c = columns_for(img_w as int);
    lemma_grid_cell(c, k);
    toolbar_x_in_range(sel, img_w, img_h, k);
    let q = k / c;
    let rows = rows_for(c);
    assert(0 <= q * (BTN_H + GAP) <= (rows - 1) * (BTN_H + GAP)) by (nonlinear_arith)
        requires
            0 <= q <= rows - 1,
    ;
}

/// Every button's rectangle lies within `i32`.
proof fn toolbar_x_in_range(sel: PixelRect, img_w: u32, img_h: u32, k: int)
    requires
        toolbar_fits(img_w, img_h),
        placement_in_range(sel, img_w, img_h),
        0 <= k < BUTTON_COUNT,
    ensures
        ({
            let c = columns_for(img_w as int);
            &&& 0 <= bar_x(sel, img_w) + PAD + (k % c) * (BTN_W + GAP)
            &&& bar_x(sel, img_w) + PAD + (k % c) * (BTN_W + GAP) + BTN_W <= i32::MAX
            &&& i32::MIN < bar_y(sel, img_w, img_h) + PAD + (k / c) * (BTN_H + GAP)
            &&& bar_y(sel, img_w, img_h) + PAD + (k / c) * (BTN_H + GAP) + BTN_H <= i32::MAX
        }),
{
    let c = columns_for(img_w as int);
    let rows = rows_for(c);
    lemma_grid_cell(c, k);
    assert((k % c) * (BTN_W + GAP) + BTN_W + PAD <= bar_width(c) - PAD) by (nonlinear_arith)
        requires
            0 <= k % c < c,
    ;
    assert((k / c) * (BTN_H + GAP) + BTN_H + PAD <= bar_height(rows) - PAD) by (nonlinear_arith)
        requires
            0 <= k / c < rows,
    ;
    assert(0 <= (k / c) * (BTN_H + GAP)) by (nonlinear_arith)
        requires
            0 <= k / c,
    ;
}

/// If no earlier element is hit and element `k` is, the first hit is `k`.
proof fn lemma_first_hit_at(buttons: Seq<ToolbarButton>, p: PixelPoint, k: int)
    requires
        0 <= k < buttons.len(),
        lands_on(buttons[k], p),
        forall|j: int| 0 <= j < k ==> !lands_on(#[trigger] buttons[j], p),
    ensures
        first_hit(buttons, p) == Some(k),
{
    lemma_no_hit_before(buttons, p, k);
    assert(buttons.subrange(0, k + 1).drop_last() =~= buttons.subrange(0, k));
    assert(buttons.subrange(0, k + 1).last() == buttons[k]);
    assert(first_hit(buttons.subrange(0, k + 1), p) == Some(k));
    lemma_first_hit_prefix(buttons, p, k + 1);
}

proof fn lemma_no_hit_before(buttons: Seq<ToolbarButton>, p: PixelPoint, n: int)
    requires
        0 <= n <= buttons.len(),
        forall|j: int| 0 <= j < n ==> !lands_on(#[trigger] buttons[j], p),
    ensures
        first_hit(buttons.subrange(0, n), p) is None,
    decreases n,
{
    if n > 0 {
        lemma_no_hit_before(buttons, p, n - 1);
        assert(buttons.subrange(0, n).drop_last() =~= buttons.subrange(0, n - 1));
        assert(buttons.subrange(0, n).last() == buttons[n - 1]);
    }
}

} // verus!
