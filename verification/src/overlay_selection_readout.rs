//! The physical-pixel readout of the current overlay selection: what it says and where its
//! panel goes inside the overlay frame.

use crate::geometry::{clamp_i32, PixelPoint, PixelRect};
use crate::text::{padded_decimal, padded_signed, push_padded, push_padded_signed, push_text};
use vstd::prelude::*;

verus! {

pub const PANEL_HEIGHT: u32 = 19;
pub const PANEL_HORIZONTAL_PADDING: u32 = 6;
pub const PANEL_MARGIN: i32 = 9;
pub const PANEL_EDGE_GAP: i32 = 5;
pub const TEXT_Y_OFFSET: i32 = 7;

/// `a + b`, saturated to the `i32` range.
pub fn saturating_add_i32(a: i32, b: i32) -> (s: i32)
    ensures
        s == clamp_i32(a + b),
{
    let v: i64 = a as i64 + b as i64;
    if v > i32::MAX as i64 {
        i32::MAX
    } else if v < i32::MIN as i64 {
        i32::MIN
    } else {
        v as i32
    }
}

/// A selection's size in source pixels and its origin in global desktop pixels.
#[derive(Debug, Clone, Copy, PartialEq, Eq, Structural)]
pub struct SelectionReadout {
    pub source_rect: PixelRect,
    pub global_origin: PixelPoint,
}

/// `W<width> H<height> X<x> Y<y>`.
pub open spec fn readout_text(r: SelectionReadout) -> Seq<char> {
    "W"@ + padded_decimal(r.source_rect.size.width as nat, 0) + " H"@ + padded_decimal(
        r.source_rect.size.height as nat,
        0,
    ) + " X"@ + padded_signed(r.global_origin.x as int, 0) + " Y"@ + padded_signed(
        r.global_origin.y as int,
        0,
    )
}

impl SelectionReadout {
    /// The readout of a selection `source_rect` of a display whose origin on the desktop is
    /// `display_origin` (saturating).
    pub fn new(source_rect: PixelRect, display_origin: PixelPoint) -> (r: SelectionReadout)
        ensures
            r.source_rect == source_rect,
            r.global_origin.x == clamp_i32(display_origin.x + source_rect.origin.x),
            r.global_origin.y == clamp_i32(display_origin.y + source_rect.origin.y),
    {
        SelectionReadout {
            source_rect,
            global_origin: PixelPoint {
                x: saturating_add_i32(display_origin.x, source_rect.origin.x),
                y: saturating_add_i32(display_origin.y, source_rect.origin.y),
            },
        }
    }

    pub fn text(&self) -> (t: String)
        ensures
            t@ == readout_text(*self),
    {
        let mut t = String::new();
        push_text(&mut t, "W");
        push_padded(&mut t, self.source_rect.size.width as u64, 0);
        push_text(&mut t, " H");
        push_padded(&mut t, self.source_rect.size.height as u64, 0);
        push_text(&mut t, " X");
        push_padded_signed(&mut t, self.global_origin.x as i64, 0);
        push_text(&mut t, " Y");
        push_padded_signed(&mut t, self.global_origin.y as i64, 0);
        assert(t@ =~= readout_text(*self));
        t
    }
}

/// Where the readout panel and its text go.
#[derive(Debug, Clone, Copy, PartialEq, Eq, Structural)]
pub struct SelectionReadoutLayout {
    pub panel: PixelRect,
    pub text_origin: PixelPoint,
}

/// Whether two rectangles share a pixel.
pub open spec fn overlaps(a: PixelRect, b: PixelRect) -> bool {
    a.origin.x < b.spec_right() && b.origin.x < a.spec_right() && a.origin.y < b.spec_bottom()
        && b.origin.y < a.spec_bottom()
}

pub fn rects_overlap(left: PixelRect, right: PixelRect) -> (b: bool)
    ensures
        b == overlaps(left, right),
{
    left.origin.x < right.right() && right.origin.x < left.right() && left.origin.y
        < right.bottom() && right.origin.y < left.bottom()
}

pub open spec fn clamp_between(v: int, lo: int, hi: int) -> int {
    if v < lo {
        lo
    } else if v > hi {
        hi
    } else {
        v
    }
}

/// Width of the panel for a text of `chars` characters: six pixels per character plus the
/// padding, kept between one pixel and the image width.
pub open spec fn panel_width(chars: nat, image_width: u32) -> int {
    let count = if chars > u32::MAX {
        u32::MAX as int
    } else {
        chars as int
    };
    let scaled = if count * 6 > u32::MAX {
        u32::MAX as int
    } else {
        count * 6
    };
    let requested = if scaled + 2 * PANEL_HORIZONTAL_PADDING > u32::MAX {
        u32::MAX as int
    } else {
        scaled + 2 * PANEL_HORIZONTAL_PADDING
    };
    let w = if image_width < 1 {
        1
    } else {
        image_width as int
    };
    clamp_between(requested, 1, w)
}

pub open spec fn panel_height(image_height: u32) -> int {
    let h = if image_height < 1 {
        1
    } else {
        image_height as int
    };
    let c = if PANEL_HEIGHT < h {
        PANEL_HEIGHT as int
    } else {
        h
    };
    if c < 1 {
        1
    } else {
        c
    }
}

/// Left edge: centred on the selection, kept inside the image.
pub open spec fn panel_x(selection: PixelRect, image_width: u32, pw: int) -> int {
    let w = if image_width < 1 {
        1
    } else {
        image_width as int
    };
    clamp_between(
        clamp_i32(
            selection.origin.x + crate::overlay_toolbar::half_toward_zero(
                (selection.size.width as i32) - pw,
            ),
        ),
        0,
        w - pw,
    )
}

/// The candidate tops, in order of preference: above the selection, below it, just inside
/// its top edge, the image's top, the image's bottom.
pub open spec fn candidate_y(selection: PixelRect, image_height: u32, ph: int, k: int) -> int {
    let h = if image_height < 1 {
        1
    } else {
        image_height as int
    };
    if k == 0 {
        clamp_i32(clamp_i32(selection.origin.y - PANEL_MARGIN) - ph)
    } else if k == 1 {
        clamp_i32(selection.spec_bottom() + PANEL_MARGIN)
    } else if k == 2 {
        clamp_i32(selection.origin.y + PANEL_EDGE_GAP)
    } else if k == 3 {
        0
    } else {
        h - ph
    }
}

/// Whether a candidate panel is usable: inside the image and clear of the toolbar.
pub open spec fn usable(panel: PixelRect, image_width: u32, image_height: u32, toolbar: Option<
    PixelRect,
>) -> bool {
    let w = if image_width < 1 {
        1
    } else {
        image_width as int
    };
    let h = if image_height < 1 {
        1
    } else {
        image_height as int
    };
    &&& 0 <= panel.origin.x < w
    &&& 0 <= panel.origin.y < h
    &&& panel.spec_right() <= w
    &&& panel.spec_bottom() <= h
    &&& match toolbar {
        Some(t) => !overlaps(panel, t),
        None => true,
    }
}

/// The first usable candidate from position `k` on, or the image's top.
pub open spec fn chosen_panel(
    selection: PixelRect,
    image_width: u32,
    image_height: u32,
    toolbar: Option<PixelRect>,
    chars: nat,
    k: int,
) -> PixelRect
    decreases 5 - k,
{
    let pw = panel_width(chars, image_width);
    let ph = panel_height(image_height);
    let x = panel_x(selection, image_width, pw);
    if k >= 5 {
        PixelRect::rect(x, 0, pw, ph)
    } else {
        let c = PixelRect::rect(x, candidate_y(selection, image_height, ph, k), pw, ph);
        if usable(c, image_width, image_height, toolbar) {
            c
        } else {
            chosen_panel(selection, image_width, image_height, toolbar, chars, k + 1)
        }
    }
}

/// The inputs on which the layout stays within `i32` arithmetic.
pub open spec fn readout_in_range(
    selection: PixelRect,
    image_width: u32,
    image_height: u32,
    chars: nat,
) -> bool {
    &&& image_width <= i32::MAX
    &&& image_height <= i32::MAX
    &&& (selection.size.width as i32) - panel_width(chars, image_width) >= i32::MIN
}

fn candidate(selection: PixelRect, image_height: u32, ph: u32, k: usize) -> (y: i32)
    requires
        image_height <= i32::MAX,
        1 <= ph <= PANEL_HEIGHT,
        ph as int == panel_height(image_height),
        k < 5,
    ensures
        y == candidate_y(selection, image_height, ph as int, k as int),
{
    if k == 0 {
        saturating_add_i32(saturating_add_i32(selection.origin.y, -PANEL_MARGIN), -(ph as i32))
    } else if k == 1 {
        saturating_add_i32(selection.bottom(), PANEL_MARGIN)
    } else if k == 2 {
        saturating_add_i32(selection.origin.y, PANEL_EDGE_GAP)
    } else if k == 3 {
        0
    } else {
        let h: u32 = if image_height < 1 {
            1
        } else {
            image_height
        };
        (h - ph) as i32
    }
}

/// Places the readout panel: above the selection if it fits there, else below it, else just
/// inside its top edge, else at the image's top or bottom, taking the first place inside
/// the image that is clear of the toolbar (the image's top when none is); centred on the
/// selection horizontally and kept inside the image.
pub fn layout_selection_readout(
    selection: PixelRect,
    image_width: u32,
    image_height: u32,
    toolbar: Option<PixelRect>,
    text: &str,
) -> (layout: SelectionReadoutLayout)
    requires
        readout_in_range(selection, image_width, image_height, text@.len()),
    ensures
        layout.panel == chosen_panel(selection, image_width, image_height, toolbar, text@.len(), 0),
        layout.text_origin.x == clamp_i32(layout.panel.origin.x + PANEL_HORIZONTAL_PADDING),
        layout.text_origin.y == clamp_i32(layout.panel.origin.y + TEXT_Y_OFFSET),
{
    let w: u32 = if image_width < 1 {
        1
    } else {
        image_width
    };
    let h: u32 = if image_height < 1 {
        1
    } else {
        image_height
    };
    let chars: usize = vstd::string::StrSliceExecFns::unicode_len(text);
    let count: u32 = if chars > u32::MAX as usize {
        u32::MAX
    } else {
        chars as u32
    };
    let scaled: u32 = if count > u32::MAX / 6 {
        u32::MAX
    } else {
        count * 6
    };
    let requested: u32 = scaled.saturating_add(2 * PANEL_HORIZONTAL_PADDING);
    let pw: u32 = if requested < 1 {
        1
    } else if requested > w {
        w
    } else {
        requested
    };
    let capped: u32 = if PANEL_HEIGHT < h {
        PANEL_HEIGHT
    } else {
        h
    };
    let ph: u32 = if capped < 1 {
        1
    } else {
        capped
    };
    proof {
        assert(pw as int == panel_width(text@.len(), image_width));
        assert(ph as int == panel_height(image_height));
    }
    let offset: i64 = (selection.size.width as i32) as i64 - pw as i64;
    let half: i64 = if offset >= 0 {
        offset / 2
    } else {
        -((-offset) / 2)
    };
    let centred: i32 = saturating_add_i32(selection.origin.x, half as i32);
    let max_x: i32 = (w - pw) as i32;
    let x: i32 = if centred < 0 {
        0
    } else if centred > max_x {
        max_x
    } else {
        centred
    };
    proof {
        assert(x == panel_x(selection, image_width, pw as int));
    }
    let mut k: usize = 0;
    let mut panel = PixelRect::new(x, 0, pw, ph);
    while k < 5
        invariant_except_break
            panel == PixelRect::rect(x as int, 0, pw as int, ph as int),
        invariant
            k <= 5,
            image_width <= i32::MAX,
            image_height <= i32::MAX,
            pw as int == panel_width(text@.len(), image_width),
            ph as int == panel_height(image_height),
            1 <= ph <= PANEL_HEIGHT,
            1 <= pw <= w,
            w as int == (if image_width < 1 {
                1
            } else {
                image_width as int
            }),
            h as int == (if image_height < 1 {
                1
            } else {
                image_height as int
            }),
            x == panel_x(selection, image_width, pw as int),
            chosen_panel(selection, image_width, image_height, toolbar, text@.len(), 0)
                == chosen_panel(selection, image_width, image_height, toolbar, text@.len(), k as int),
        ensures
            panel == chosen_panel(selection, image_width, image_height, toolbar, text@.len(), 0),
        decreases 5 - k,
    {
        let y = candidate(selection, image_height, ph, k);
        let c = PixelRect::new(x, y, pw, ph);
        let inside = 0 <= c.origin.x && c.origin.x < w as i32 && 0 <= c.origin.y && c.origin.y
            < h as i32 && c.right() <= w as i32 && c.bottom() <= h as i32;
        let clear = match toolbar {
            Some(t) => !rects_overlap(c, t),
            None => true,
        };
        if inside && clear {
            panel = c;
            break;
        }
        k += 1;
    }
    SelectionReadoutLayout {
        panel,
        text_origin: PixelPoint {
            x: saturating_add_i32(panel.origin.x, PANEL_HORIZONTAL_PADDING as i32),
            y: saturating_add_i32(panel.origin.y, TEXT_Y_OFFSET),
        },
    }
}

/// The readout panel always lies inside the image, and stays clear of the toolbar whenever
/// one of its candidate places is.
pub proof fn readout_panel_stays_inside(
    selection: PixelRect,
    image_width: u32,
    image_height: u32,
    toolbar: Option<PixelRect>,
    chars: nat,
    k: int,
)
    requires
        readout_in_range(selection, image_width, image_height, chars),
        0 <= k <= 5,
    ensures
        ({
            let p = chosen_panel(selection, image_width, image_height, toolbar, chars, k);
            let w = if image_width < 1 {
                1
            } else {
                image_width as int
            };
            let h = if image_height < 1 {
                1
            } else {
                image_height as int
            };
            &&& 0 <= p.origin.x
            &&& p.spec_right() <= w
            &&& 0 <= p.origin.y
            &&& p.spec_bottom() <= h
        }),
        (exists|j: int|
            k <= j < 5 && usable(
                PixelRect::rect(
                    panel_x(selection, image_width, panel_width(chars, image_width)),
                    candidate_y(selection, image_height, panel_height(image_height), j),
                    panel_width(chars, image_width),
                    panel_height(image_height),
                ),
                image_width,
                image_height,
                toolbar,
            )) ==> usable(
            chosen_panel(selection, image_width, image_height, toolbar, chars, k),
            image_width,
            image_height,
            toolbar,
        ),
    decreases 5 - k,
{
    if k < 5 {
        readout_panel_stays_inside(selection, image_width, image_height, toolbar, chars, k + 1);
    }
}

} // verus!
