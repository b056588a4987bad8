//! What the selection overlay opens on (a display capture, a window, a history image or a pin
//! being edited) and the colour picker's reading of the captured pixels.

use crate::desktop_shell::{
    initial_selection_for_capture, CaptureMode, CaptureTarget, DisplayBounds, OverlayInitialSelection,
};
use crate::geometry::{PixelPoint, PixelRect};
use crate::model::PinId;
use vstd::prelude::*;

verus! {

/// How the overlay presents its image.
#[derive(Debug, Clone, Copy, PartialEq, Eq, Structural)]
pub enum OverlayPresentation {
    ScreenCapture,
    VirtualDesktop,
    WindowCapture,
    HistoryEditor,
    PinEditor,
}

/// Where an overlay opens and how.
#[derive(Debug, Clone, PartialEq, Eq)]
pub struct OverlayTarget {
    pub display_id: String,
    pub display_origin: PixelPoint,
    pub image_width: u32,
    pub image_height: u32,
    pub initial_selection: OverlayInitialSelection,
    pub presentation: OverlayPresentation,
    pub min_selection_edge: u32,
    pub edit_pin_id: Option<PinId>,
}

/// A window that can be captured, as the window list showed it.
#[derive(Debug, Clone, PartialEq, Eq)]
pub struct CaptureWindowInfo {
    pub id: u64,
    pub app_name: String,
    pub title: String,
    pub bounds: PixelRect,
    pub display: String,
    pub is_minimized: bool,
}

/// A window capture opens an editor over the whole window image, at the window's position.
pub fn window_capture_overlay_target(window: &CaptureWindowInfo) -> (t: OverlayTarget)
    ensures
        t.display_id@ == window.display@,
        t.display_origin == window.bounds.origin,
        t.image_width == window.bounds.size.width,
        t.image_height == window.bounds.size.height,
        t.initial_selection == OverlayInitialSelection::FullImage,
        t.presentation == OverlayPresentation::WindowCapture,
        t.min_selection_edge == 1,
        t.edit_pin_id is None,
{
    OverlayTarget {
        display_id: window.display.clone(),
        display_origin: window.bounds.origin,
        image_width: window.bounds.size.width,
        image_height: window.bounds.size.height,
        initial_selection: OverlayInitialSelection::FullImage,
        presentation: OverlayPresentation::WindowCapture,
        min_selection_edge: 1,
        edit_pin_id: None,
    }
}

/// A history image opens in an editor over the whole image, at its original source position
/// (the display it came from need not exist any more).
pub fn history_edit_target(display: &str, source_rect: PixelRect, width: u32, height: u32) -> (t:
    OverlayTarget)
    ensures
        t.display_id@ == display@,
        t.display_origin == source_rect.origin,
        t.image_width == width,
        t.image_height == height,
        t.initial_selection == OverlayInitialSelection::FullImage,
        t.presentation == OverlayPresentation::HistoryEditor,
        t.min_selection_edge == 1,
        t.edit_pin_id is None,
{
    OverlayTarget {
        display_id: display.to_owned(),
        display_origin: source_rect.origin,
        image_width: width,
        image_height: height,
        initial_selection: OverlayInitialSelection::FullImage,
        presentation: OverlayPresentation::HistoryEditor,
        min_selection_edge: 1,
        edit_pin_id: None,
    }
}

/// Editing a pin opens an editor over its whole image that writes back to the same pin.
pub fn pin_edit_target(
    display: &str,
    source_rect: PixelRect,
    width: u32,
    height: u32,
    pin_id: PinId,
) -> (t: OverlayTarget)
    ensures
        t.display_id@ == display@,
        t.display_origin == source_rect.origin,
        t.image_width == width,
        t.image_height == height,
        t.initial_selection == OverlayInitialSelection::FullImage,
        t.presentation == OverlayPresentation::PinEditor,
        t.min_selection_edge == 1,
        t.edit_pin_id == Some(pin_id),
{
    OverlayTarget {
        display_id: display.to_owned(),
        display_origin: source_rect.origin,
        image_width: width,
        image_height: height,
        initial_selection: OverlayInitialSelection::FullImage,
        presentation: OverlayPresentation::PinEditor,
        min_selection_edge: 1,
        edit_pin_id: Some(pin_id),
    }
}

/// The RGBA value at an image position of a `width`-pixel-wide row-major RGBA buffer, where the
/// position lies in the image and the buffer holds it.
pub open spec fn rgba_at(pixels: Seq<u8>, width: int, height: int, x: int, y: int) -> Option<
    [u8; 4],
> {
    let i = (y * width + x) * 4;
    if 0 <= x < width && 0 <= y < height && i + 4 <= pixels.len() {
        Some([pixels[i], pixels[i + 1], pixels[i + 2], pixels[i + 3]])
    } else {
        None
    }
}

/// What the colour picker reads at `local`, a point inside the selection `source_rect` of the
/// image: the pixel under it, or `None` outside the selection or the image.
pub open spec fn picked_color(
    pixels: Seq<u8>,
    width: int,
    height: int,
    source_rect: PixelRect,
    local: PixelPoint,
) -> Option<[u8; 4]> {
    let x = source_rect.origin.x + local.x;
    let y = source_rect.origin.y + local.y;
    if local.x < 0 || local.y < 0 || local.x >= source_rect.size.width as i32 || local.y
        >= source_rect.size.height as i32 || x > i32::MAX || y > i32::MAX || x < i32::MIN || y
        < i32::MIN {
        None
    } else {
        rgba_at(pixels, width, height, x, y)
    }
}

/// The colour picker's reading of the captured pixels at a selection-local point.
pub fn sample_overlay_source_color(
    pixels: &Vec<u8>,
    width: u32,
    height: u32,
    source_rect: PixelRect,
    local: PixelPoint,
) -> (c: Option<[u8; 4]>)
    ensures
        c == picked_color(pixels@, width as int, height as int, source_rect, local),
{
    if local.x < 0 || local.y < 0 || local.x >= source_rect.size.width as i32 || local.y
        >= source_rect.size.height as i32 {
        return None;
    }
    let x64: i64 = source_rect.origin.x as i64 + local.x as i64;
    let y64: i64 = source_rect.origin.y as i64 + local.y as i64;
    if x64 > i32::MAX as i64 || y64 > i32::MAX as i64 || x64 < i32::MIN as i64 || y64
        < i32::MIN as i64 {
        return None;
    }
    if x64 < 0 || y64 < 0 || x64 >= width as i64 || y64 >= height as i64 {
        return None;
    }
    let x = x64 as u128;
    let y = y64 as u128;
    assert(y * width + x < (height as int) * (width as int)) by (nonlinear_arith)
        requires
            x < width,
            y < height,
    ;
    assert((height as int) * (width as int) <= u32::MAX * u32::MAX) by (nonlinear_arith)
        requires
            width <= u32::MAX,
            height <= u32::MAX,
    ;
    let i: u128 = (y * width as u128 + x) * 4;
    if i > pixels.len() as u128 || pixels.len() as u128 - i < 4 {
        return None;
    }
    let k = i as usize;
    Some([pixels[k], pixels[k + 1], pixels[k + 2], pixels[k + 3]])
}

/// Which pre-captured frame a screen grab may start from.
#[derive(Debug, Clone, PartialEq, Eq)]
pub enum CachedFrameLookup {
    /// None: the grab captures afresh (all displays, a window, or no cache allowed).
    Skip,
    /// A frame of this display, a fresh one first.
    Display(String),
    /// A frame of any display, a fresh one first.
    Any,
}

/// Where a screen grab looks for a pre-captured frame. A window or the whole desktop never
/// takes one; a chosen display (`explicit_display`, as resolved) takes only its own.
pub fn cached_frame_lookup(target: &CaptureTarget, allow_cached: bool, explicit_display: Option<&str>) -> (l:
    CachedFrameLookup)
    ensures
        !allow_cached ==> l == CachedFrameLookup::Skip,
        allow_cached && (target is AllDisplays || target is Window) ==> l == CachedFrameLookup::Skip,
        allow_cached && !(target is AllDisplays || target is Window) ==> match explicit_display {
            Some(d) => l matches CachedFrameLookup::Display(id) && id@ == d@,
            None => l == CachedFrameLookup::Any,
        },
{
    if !allow_cached {
        return CachedFrameLookup::Skip;
    }
    match target {
        CaptureTarget::AllDisplays | CaptureTarget::Window(_) => CachedFrameLookup::Skip,
        _ => match explicit_display {
            Some(d) => CachedFrameLookup::Display(d.to_owned()),
            None => CachedFrameLookup::Any,
        },
    }
}

/// The overlay over a pre-captured frame: the frame's display, at its origin, with an image
/// at least one pixel on each side.
pub fn cached_frame_overlay_target(
    display_id: &str,
    display_origin: PixelPoint,
    width: u32,
    height: u32,
    capture_mode: CaptureMode,
) -> (t: OverlayTarget)
    ensures
        t.display_id@ == display_id@,
        t.display_origin == display_origin,
        t.image_width == (if width == 0 { 1 } else { width }),
        t.image_height == (if height == 0 { 1 } else { height }),
        t.initial_selection == (if capture_mode == CaptureMode::Region {
            OverlayInitialSelection::Manual
        } else {
            OverlayInitialSelection::FullImage
        }),
        t.presentation == OverlayPresentation::ScreenCapture,
        t.min_selection_edge == 2,
        t.edit_pin_id is None,
{
    OverlayTarget {
        display_id: display_id.to_owned(),
        display_origin,
        image_width: if width == 0 {
            1
        } else {
            width
        },
        image_height: if height == 0 {
            1
        } else {
            height
        },
        initial_selection: initial_selection_for_capture(capture_mode),
        presentation: OverlayPresentation::ScreenCapture,
        min_selection_edge: 2,
        edit_pin_id: None,
    }
}

/// The overlay over a fresh capture of one display: that display, at its origin and size.
pub fn display_overlay_target(display: &DisplayBounds, capture_mode: CaptureMode) -> (t: OverlayTarget)
    ensures
        t.display_id@ == display.id@,
        t.display_origin == display.bounds.origin,
        t.image_width == display.bounds.size.width,
        t.image_height == display.bounds.size.height,
        t.initial_selection == (if capture_mode == CaptureMode::Region {
            OverlayInitialSelection::Manual
        } else {
            OverlayInitialSelection::FullImage
        }),
        t.presentation == OverlayPresentation::ScreenCapture,
        t.min_selection_edge == 2,
        t.edit_pin_id is None,
{
    OverlayTarget {
        display_id: display.id.clone(),
        display_origin: display.bounds.origin,
        image_width: display.bounds.size.width,
        image_height: display.bounds.size.height,
        initial_selection: initial_selection_for_capture(capture_mode),
        presentation: OverlayPresentation::ScreenCapture,
        min_selection_edge: 2,
        edit_pin_id: None,
    }
}

/// How the overlay's window is made for each presentation.
#[derive(Debug, Clone, Copy, PartialEq, Eq)]
pub struct OverlayWindowStyle {
    pub title: &'static str,
    /// Borderless full screen on the current monitor.
    pub fullscreen: bool,
    /// Placed at the display origin of the target.
    pub at_display_origin: bool,
    pub decorations: bool,
    pub resizable: bool,
    pub always_on_top: bool,
}

pub open spec fn window_style_title(p: OverlayPresentation) -> Seq<char> {
    match p {
        OverlayPresentation::ScreenCapture => "Pinora — 拖选后工具栏 | 双击复制 中键贴图 Enter贴图 Esc取消"@,
        OverlayPresentation::VirtualDesktop => "Pinora Virtual Desktop Capture"@,
        OverlayPresentation::WindowCapture => "Pinora Window Capture"@,
        OverlayPresentation::HistoryEditor => "Pinora History Edit"@,
        OverlayPresentation::PinEditor => "Pinora Pin Edit"@,
    }
}

/// A screen capture covers its monitor borderless; the whole desktop gets a borderless,
/// fixed-size window at the desktop's origin, kept on top; window captures and the editors
/// get an ordinary decorated, resizable window kept on top. Each has its own title.
pub fn overlay_window_style(presentation: OverlayPresentation) -> (s: OverlayWindowStyle)
    ensures
        s.title@ == window_style_title(presentation),
        s.fullscreen == (presentation == OverlayPresentation::ScreenCapture),
        s.at_display_origin == (presentation == OverlayPresentation::VirtualDesktop),
        s.decorations == !(presentation == OverlayPresentation::ScreenCapture || presentation
            == OverlayPresentation::VirtualDesktop),
        s.resizable == (presentation != OverlayPresentation::VirtualDesktop),
        s.always_on_top == (presentation != OverlayPresentation::ScreenCapture),
{
    match presentation {
        OverlayPresentation::ScreenCapture => OverlayWindowStyle {
            title: "Pinora — 拖选后工具栏 | 双击复制 中键贴图 Enter贴图 Esc取消",
            fullscreen: true,
            at_display_origin: false,
            decorations: false,
            resizable: true,
            always_on_top: false,
        },
        OverlayPresentation::VirtualDesktop => OverlayWindowStyle {
            title: "Pinora Virtual Desktop Capture",
            fullscreen: false,
            at_display_origin: true,
            decorations: false,
            resizable: false,
            always_on_top: true,
        },
        OverlayPresentation::WindowCapture => OverlayWindowStyle {
            title: "Pinora Window Capture",
            fullscreen: false,
            at_display_origin: false,
            decorations: true,
            resizable: true,
            always_on_top: true,
        },
        OverlayPresentation::HistoryEditor => OverlayWindowStyle {
            title: "Pinora History Edit",
            fullscreen: false,
            at_display_origin: false,
            decorations: true,
            resizable: true,
            always_on_top: true,
        },
        OverlayPresentation::PinEditor => OverlayWindowStyle {
            title: "Pinora Pin Edit",
            fullscreen: false,
            at_display_origin: false,
            decorations: true,
            resizable: true,
            always_on_top: true,
        },
    }
}

} // verus!
