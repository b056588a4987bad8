//! Decisions of the desktop shell that do not need a window: capture modes and targets,
//! shortcuts, which job result still belongs to whom, and selection mapping.

use crate::annotate::AnnotateTool;
use crate::geometry::{PixelPoint, PixelRect};
use crate::history::HistoryEntry;
use crate::model::{
    AssetGeneration, AssetRef, ErrorCode, ImageId, JobId, JobOwner, PinId, PinoraError, SessionId,
};
use vstd::prelude::*;

verus! {

/// The ids whose window was visible, in order: what a delayed capture hides and later shows
/// again.
pub open spec fn visible_ids<T>(items: Seq<(T, bool)>) -> Seq<T>
    decreases items.len(),
{
    if items.len() == 0 {
        Seq::empty()
    } else {
        visible_ids(items.drop_last()) + (if items.last().1 {
            seq![items.last().0]
        } else {
            Seq::empty()
        })
    }
}

pub fn snapshot_visible_ids<T: Copy>(items: &Vec<(T, bool)>) -> (ids: Vec<T>)
    ensures
        ids@ == visible_ids(items@),
{
    let mut ids: Vec<T> = Vec::new();
    let mut i: usize = 0;
    while i < items.len()
        invariant
            i <= items@.len(),
            ids@ == visible_ids(items@.subrange(0, i as int)),
        decreases items@.len() - i,
    {
        let (id, visible) = items[i];
        assert(items@.subrange(0, i + 1).drop_last() =~= items@.subrange(0, i as int));
        if visible {
            ids.push(id);
        } else {
            assert(ids@ =~= ids@ + Seq::<T>::empty());
        }
        i += 1;
    }
    assert(items@.subrange(0, items@.len() as int) =~= items@);
    ids
}

#[derive(Debug, Clone, Copy, PartialEq, Eq, Structural)]
pub enum AnnotationHistoryAction {
    Undo,
    Redo,
}

/// Ctrl+Z undoes, Ctrl+Shift+Z and Ctrl+Y redo; nothing happens without Ctrl.
pub open spec fn history_shortcut(control: bool, shift: bool, key: Seq<char>) -> Option<
    AnnotationHistoryAction,
> {
    if !control {
        None
    } else if key == seq!['z'] || key == seq!['Z'] {
        if shift {
            Some(AnnotationHistoryAction::Redo)
        } else {
            Some(AnnotationHistoryAction::Undo)
        }
    } else if key == seq!['y'] || key == seq!['Y'] {
        Some(AnnotationHistoryAction::Redo)
    } else {
        None
    }
}

pub fn annotation_history_action(control_pressed: bool, shift_pressed: bool, character: &str) -> (a:
    Option<AnnotationHistoryAction>)
    ensures
        a == history_shortcut(control_pressed, shift_pressed, character@),
{
    if !control_pressed {
        return None;
    }
    let chars = crate::text::chars_of(character);
    if chars.len() != 1 {
        proof {
            assert(character@.len() != 1);
            assert(character@ != seq!['z'] && character@ != seq!['Z'] && character@ != seq!['y']
                && character@ != seq!['Y']);
        }
        return None;
    }
    let c = chars[0];
    proof {
        assert(character@ =~= seq![c]);
    }
    if c == 'z' || c == 'Z' {
        if shift_pressed {
            Some(AnnotationHistoryAction::Redo)
        } else {
            Some(AnnotationHistoryAction::Undo)
        }
    } else if c == 'y' || c == 'Y' {
        Some(AnnotationHistoryAction::Redo)
    } else {
        proof {
            assert(seq![c] != seq!['z'] && seq![c] != seq!['Z']) by {
                assert(seq!['z'][0] == 'z');
                assert(seq!['Z'][0] == 'Z');
            }
            assert(seq![c] != seq!['y'] && seq![c] != seq!['Y']) by {
                assert(seq!['y'][0] == 'y');
                assert(seq!['Y'][0] == 'Y');
            }
        }
        None
    }
}

/// How a new screen capture session takes its image.
#[derive(Debug, Clone, Copy, PartialEq, Eq, Structural)]
pub enum CaptureMode {
    Region,
    FullDisplay,
    AllDisplays,
    Window,
}

pub open spec fn capture_mode_label(mode: CaptureMode) -> Seq<char> {
    match mode {
        CaptureMode::Region => "region"@,
        CaptureMode::FullDisplay => "full-display"@,
        CaptureMode::AllDisplays => "all-displays"@,
        CaptureMode::Window => "window"@,
    }
}

impl CaptureMode {
    pub fn label(self) -> (l: &'static str)
        ensures
            l@ == capture_mode_label(self),
    {
        match self {
            CaptureMode::Region => "region",
            CaptureMode::FullDisplay => "full-display",
            CaptureMode::AllDisplays => "all-displays",
            CaptureMode::Window => "window",
        }
    }
}

/// The selection an overlay opens with.
#[derive(Debug, Clone, Copy, PartialEq, Eq, Structural)]
pub enum OverlayInitialSelection {
    Manual,
    FullImage,
}

/// Region captures start with no selection; every other mode selects the whole image.
pub fn initial_selection_for_capture(capture_mode: CaptureMode) -> (s: OverlayInitialSelection)
    ensures
        s == (if capture_mode == CaptureMode::Region {
            OverlayInitialSelection::Manual
        } else {
            OverlayInitialSelection::FullImage
        }),
{
    match capture_mode {
        CaptureMode::Region => OverlayInitialSelection::Manual,
        CaptureMode::FullDisplay | CaptureMode::AllDisplays | CaptureMode::Window => {
            OverlayInitialSelection::FullImage
        },
    }
}

/// What a capture session captures. A window is named by its id; the backend checks it again
/// right before capturing.
#[derive(Debug, Clone, PartialEq, Eq)]
pub enum CaptureTarget {
    DefaultLargest,
    Display(String),
    AllDisplays,
    Window(u64),
}

impl CaptureTarget {
    pub open spec fn log_text(&self) -> Seq<char> {
        match self {
            CaptureTarget::DefaultLargest => "default-display"@,
            CaptureTarget::Display(_) => "selected-display"@,
            CaptureTarget::AllDisplays => "all-displays"@,
            CaptureTarget::Window(_) => "selected-window"@,
        }
    }

    /// A label for logs that names no display or window.
    pub fn log_label(&self) -> (l: &'static str)
        ensures
            l@ == self.log_text(),
    {
        match self {
            CaptureTarget::DefaultLargest => "default-display",
            CaptureTarget::Display(_) => "selected-display",
            CaptureTarget::AllDisplays => "all-displays",
            CaptureTarget::Window(_) => "selected-window",
        }
    }
}

/// How a failed capture is recovered from.
#[derive(Debug, Clone, Copy, PartialEq, Eq, Structural)]
pub enum CaptureFailureScope {
    Standard,
    Window,
    Delayed,
}

/// A delayed capture owns the hidden pins to show again, so it is recovered first; then window
/// captures; everything else is a standard capture.
pub fn capture_failure_scope(target: &CaptureTarget, delayed_active: bool) -> (s:
    CaptureFailureScope)
    ensures
        s == (if delayed_active {
            CaptureFailureScope::Delayed
        } else if target is Window {
            CaptureFailureScope::Window
        } else {
            CaptureFailureScope::Standard
        }),
{
    if delayed_active {
        CaptureFailureScope::Delayed
    } else {
        match target {
            CaptureTarget::Window(_) => CaptureFailureScope::Window,
            _ => CaptureFailureScope::Standard,
        }
    }
}

/// A display as the capture target resolver sees it.
#[derive(Debug, Clone)]
pub struct DisplayBounds {
    pub id: String,
    pub bounds: PixelRect,
}

/// Position of the display with the largest area; the last one among equals.
pub open spec fn largest_display(displays: Seq<DisplayBounds>, n: int) -> int
    decreases n,
{
    if n <= 1 {
        0
    } else {
        let best = largest_display(displays, n - 1);
        if displays[n - 1].bounds.size.spec_area() >= displays[best].bounds.size.spec_area() {
            n - 1
        } else {
            best
        }
    }
}

/// The largest of the first `n` displays is one of them.
pub(crate) proof fn lemma_largest_in_range(displays: Seq<DisplayBounds>, n: int)
    requires
        1 <= n <= displays.len(),
    ensures
        0 <= largest_display(displays, n) < n,
    decreases n,
{
    if n > 1 {
        lemma_largest_in_range(displays, n - 1);
    }
}

/// Position of the first display with this identity.
pub open spec fn display_named(displays: Seq<DisplayBounds>, id: Seq<char>) -> Option<int> {
    if exists|i: int| 0 <= i < displays.len() && displays[i].id@ == id {
        Some(
            choose|i: int|
                0 <= i < displays.len() && displays[i].id@ == id && forall|j: int|
                    0 <= j < i ==> displays[j].id@ != id,
        )
    } else {
        None
    }
}

fn find_display(displays: &Vec<DisplayBounds>, id: &str) -> (found: Option<usize>)
    ensures
        match display_named(displays@, id@) {
            Some(i) => found == Some(i as usize),
            None => found is None,
        },
{
    let mut i: usize = 0;
    while i < displays.len()
        invariant
            i <= displays@.len(),
            forall|j: int| 0 <= j < i ==> displays@[j].id@ != id@,
        decreases displays@.len() - i,
    {
        if crate::text::same_text(displays[i].id.as_str(), id) {
            assert(displays@[i as int].id@ == id@);
            proof {
                let k = choose|k: int|
                    0 <= k < displays@.len() && displays@[k].id@ == id@ && forall|j: int|
                        0 <= j < k ==> displays@[j].id@ != id@;
                assert(forall|j: int| 0 <= j < i ==> displays@[j].id@ != id@);
                if k > i {
                    assert(displays@[i as int].id@ == id@);
                }
            }
            return Some(i);
        }
        i += 1;
    }
    None
}

/// The display a capture target names, as a position in `displays`. The default target is
/// the largest display; a named display must still be there, with no fallback to another
/// (`NotFound`); windows and the whole desktop are no single display (`InvalidState`).
pub fn resolve_capture_target(displays: &Vec<DisplayBounds>, target: &CaptureTarget) -> (res:
    Result<usize, PinoraError>)
    ensures
        match target {
            CaptureTarget::DefaultLargest => if displays@.len() == 0 {
                res is Err && res->Err_0.code == ErrorCode::NotFound
            } else {
                res == Ok::<usize, PinoraError>(largest_display(displays@, displays@.len() as int) as usize)
            },
            CaptureTarget::Display(id) => match display_named(displays@, id@) {
                Some(i) => res == Ok::<usize, PinoraError>(i as usize),
                None => res is Err && res->Err_0.code == ErrorCode::NotFound,
            },
            _ => res is Err && res->Err_0.code == ErrorCode::InvalidState,
        },
{
    match target {
        CaptureTarget::DefaultLargest => {
            if displays.len() == 0 {
                return Err(PinoraError::new(ErrorCode::NotFound, "no display for capture"));
            }
            let mut best: usize = 0;
            let mut best_area: u64 = displays[0].bounds.size.area();
            let mut i: usize = 1;
            while i < displays.len()
                invariant
                    1 <= i <= displays@.len(),
                    best < i,
                    best as int == largest_display(displays@, i as int),
                    best_area == displays@[best as int].bounds.size.spec_area(),
                decreases displays@.len() - i,
            {
                let area = displays[i].bounds.size.area();
                if area >= best_area {
                    best = i;
                    best_area = area;
                }
                i += 1;
            }
            Ok(best)
        },
        CaptureTarget::Display(id) => match find_display(displays, id.as_str()) {
            Some(i) => Ok(i),
            None => Err(
                PinoraError::new(ErrorCode::NotFound, "selected display is no longer available"),
            ),
        },
        _ => Err(
            PinoraError::new(
                ErrorCode::InvalidState,
                "non-display capture target cannot be resolved as a display",
            ),
        ),
    }
}

/// A double click finishes with a copy, except with the number tool, which takes double
/// clicks for itself.
pub fn overlay_click_finishes_copy(tool: AnnotateTool, is_double_click: bool) -> (b: bool)
    ensures
        b == (is_double_click && tool != AnnotateTool::Number),
{
    is_double_click && !tool.same_as(&AnnotateTool::Number)
}

/// Why a history image is being read.
#[derive(Debug, Clone, Copy, PartialEq, Eq, Structural)]
pub enum HistoryLoadIntent {
    Preview,
    Reopen,
    Edit,
}

#[derive(Debug)]
pub struct HistoryLoadRequest {
    pub entry: HistoryEntry,
    pub intent: HistoryLoadIntent,
}

/// The history read in flight.
#[derive(Debug)]
pub struct ActiveHistoryLoad {
    pub job_id: JobId,
    pub request: HistoryLoadRequest,
}

/// The asset a finished history read may still deliver to: only the read in flight, for the
/// history owner of its entry, while that same entry at that same generation is still
/// selected.
pub open spec fn history_load_target(
    active: Option<(JobId, ImageId, AssetGeneration)>,
    selected: Option<(ImageId, AssetGeneration)>,
    job_id: JobId,
    owner: JobOwner,
) -> Option<AssetRef> {
    match (active, selected) {
        (Some((active_job, image, generation)), Some((sel_image, sel_generation))) => if active_job
            == job_id && owner == JobOwner::History(image) && sel_image == image && sel_generation
            == generation {
            Some(AssetRef { image_id: sel_image, generation: sel_generation })
        } else {
            None
        },
        _ => None,
    }
}

pub fn current_history_load_asset(
    active: Option<&ActiveHistoryLoad>,
    selected: Option<&HistoryEntry>,
    job_id: JobId,
    owner: JobOwner,
) -> (asset: Option<AssetRef>)
    ensures
        asset == history_load_target(
            match active {
                Some(a) => Some((a.job_id, a.request.entry.image_id, a.request.entry.generation)),
                None => None,
            },
            match selected {
                Some(e) => Some((e.image_id, e.generation)),
                None => None,
            },
            job_id,
            owner,
        ),
{
    let active = match active {
        Some(a) => a,
        None => {
            return None;
        },
    };
    let selected = match selected {
        Some(e) => e,
        None => {
            return None;
        },
    };
    let entry = &active.request.entry;
    if active.job_id.raw == job_id.raw && owner.same_as(&JobOwner::History(entry.image_id))
        && selected.image_id.raw == entry.image_id.raw && selected.generation.raw
        == entry.generation.raw {
        Some(AssetRef { image_id: selected.image_id, generation: selected.generation })
    } else {
        None
    }
}

/// The asset registered for a job, provided it was registered for this owner.
pub open spec fn pending_asset(pending: Seq<(JobId, JobOwner, AssetRef)>, job_id: JobId, owner: JobOwner) -> Option<
    AssetRef,
> {
    if exists|i: int| 0 <= i < pending.len() && pending[i].0 == job_id {
        let i = choose|i: int|
            0 <= i < pending.len() && pending[i].0 == job_id && forall|j: int|
                0 <= j < i ==> pending[j].0 != job_id;
        if pending[i].1 == owner {
            Some(pending[i].2)
        } else {
            None
        }
    } else {
        None
    }
}

/// The job ids of the pending exports, in order. The pending exports act as a map from job
/// id: each id occurs at most once.
pub open spec fn pending_job_ids(pending: Seq<(JobId, JobOwner, AssetRef)>) -> Seq<JobId> {
    pending.map_values(|e: (JobId, JobOwner, AssetRef)| e.0)
}

/// Looks a job up among the pending exports. Where each job id occurs once, the entry for the
/// job decides: its asset if it was registered for `owner`, else nothing; a job with no entry
/// has no asset.
pub fn pending_asset_for_owner(
    pending: &Vec<(JobId, JobOwner, AssetRef)>,
    job_id: JobId,
    owner: JobOwner,
) -> (asset: Option<AssetRef>)
    ensures
        asset == pending_asset(pending@, job_id, owner),
        (forall|i: int| 0 <= i < pending@.len() ==> pending@[i].0 != job_id) ==> asset is None,
        pending_job_ids(pending@).no_duplicates() ==> forall|i: int|
            0 <= i < pending@.len() && #[trigger] pending@[i].0 == job_id ==> asset == (if pending@[i].1
                == owner {
                Some(pending@[i].2)
            } else {
                None
            }),
{
    let mut i: usize = 0;
    while i < pending.len()
        invariant
            i <= pending@.len(),
            forall|j: int| 0 <= j < i ==> pending@[j].0 != job_id,
        decreases pending@.len() - i,
    {
        let (id, pending_owner, asset) = pending[i];
        if id.raw == job_id.raw {
            proof {
                let k = choose|k: int|
                    0 <= k < pending@.len() && pending@[k].0 == job_id && forall|j: int|
                        0 <= j < k ==> pending@[j].0 != job_id;
                assert(pending@[i as int].0 == job_id);
                if k > i {
                    assert(pending@[i as int].0 == job_id);
                }
                assert forall|m: int|
                    0 <= m < pending@.len() && #[trigger] pending@[m].0 == job_id
                        && pending_job_ids(pending@).no_duplicates() implies m == i by {
                    let ids = pending_job_ids(pending@);
                    assert(ids[m] == pending@[m].0);
                    assert(ids[i as int] == pending@[i as int].0);
                }
            }
            if pending_owner.same_as(&owner) {
                return Some(asset);
            } else {
                return None;
            }
        }
        i += 1;
    }
    None
}

/// The asset of the first pin in `pins` with identity `pin`.
pub open spec fn pin_asset(pins: Seq<(PinId, AssetRef)>, pin: PinId) -> Option<AssetRef> {
    if exists|i: int| 0 <= i < pins.len() && pins[i].0 == pin {
        Some(
            pins[choose|i: int|
                0 <= i < pins.len() && pins[i].0 == pin && forall|j: int|
                    0 <= j < i ==> pins[j].0 != pin].1,
        )
    } else {
        None
    }
}

/// The asset an export job's result must still match: the pin's current asset, or the open
/// overlay's for its session, else what the job was submitted for while it is pending.
/// History-owned jobs never export.
pub open spec fn export_asset(
    pins: Seq<(PinId, AssetRef)>,
    overlay: Option<(SessionId, AssetRef)>,
    pending: Seq<(JobId, JobOwner, AssetRef)>,
    job_id: JobId,
    owner: JobOwner,
) -> Option<AssetRef> {
    match owner {
        JobOwner::Pin(pin) => match pin_asset(pins, pin) {
            Some(a) => Some(a),
            None => pending_asset(pending, job_id, owner),
        },
        JobOwner::Session(session) => match overlay {
            Some((id, a)) if id == session => Some(a),
            _ => pending_asset(pending, job_id, owner),
        },
        JobOwner::History(_) => None,
    }
}

fn find_pin_asset(pins: &Vec<(PinId, AssetRef)>, pin: PinId) -> (a: Option<AssetRef>)
    ensures
        a == pin_asset(pins@, pin),
{
    let mut i: usize = 0;
    while i < pins.len()
        invariant
            i <= pins@.len(),
            forall|j: int| 0 <= j < i ==> pins@[j].0 != pin,
        decreases pins@.len() - i,
    {
        if pins[i].0.raw == pin.raw {
            proof {
                let k = choose|k: int|
                    0 <= k < pins@.len() && pins@[k].0 == pin && forall|j: int|
                        0 <= j < k ==> pins@[j].0 != pin;
                assert(pins@[i as int].0 == pin);
                if k > i {
                    assert(pins@[i as int].0 == pin);
                }
            }
            return Some(pins[i].1);
        }
        i += 1;
    }
    None
}

/// Looks up the asset an export job's result is checked against (see `export_asset`).
pub fn current_export_asset(
    pins: &Vec<(PinId, AssetRef)>,
    overlay: Option<(SessionId, AssetRef)>,
    pending: &Vec<(JobId, JobOwner, AssetRef)>,
    job_id: JobId,
    owner: JobOwner,
) -> (asset: Option<AssetRef>)
    ensures
        asset == export_asset(pins@, overlay, pending@, job_id, owner),
{
    match owner {
        JobOwner::Pin(pin) => match find_pin_asset(pins, pin) {
            Some(a) => Some(a),
            None => pending_asset_for_owner(pending, job_id, owner),
        },
        JobOwner::Session(session) => match overlay {
            Some((id, a)) => {
                if id.raw == session.raw {
                    Some(a)
                } else {
                    pending_asset_for_owner(pending, job_id, owner)
                }
            },
            None => pending_asset_for_owner(pending, job_id, owner),
        },
        JobOwner::History(_) => None,
    }
}

/// Whether a completed save enters the history: it carried a history candidate, and the
/// pending save and the candidate were both made for the job's owner and asset.
pub fn records_history(
    candidate: Option<(JobOwner, AssetRef)>,
    pending_owner: JobOwner,
    pending_asset: AssetRef,
    job_owner: JobOwner,
    job_asset: AssetRef,
) -> (b: bool)
    ensures
        b == (candidate matches Some((o, a)) && pending_owner == job_owner && pending_asset
            == job_asset && o == job_owner && a == job_asset),
{
    match candidate {
        Some((o, a)) => pending_owner.same_as(&job_owner) && pending_asset.same_as(&job_asset)
            && o.same_as(&job_owner) && a.same_as(&job_asset),
        None => false,
    }
}

pub open spec fn clamp_int(v: int, lo: int, hi: int) -> int {
    if v < lo {
        lo
    } else if v > hi {
        hi
    } else {
        v
    }
}

/// `n / d` rounded toward zero, for a positive `d`.
pub open spec fn div_toward_zero(n: int, d: int) -> int {
    if n >= 0 {
        n / d
    } else {
        -((-n) / d)
    }
}

/// A rectangle of the display buffer mapped to source pixels: the start rounded down, the end
/// rounded up, clamped to the source, at least one pixel wide and high.
pub open spec fn source_rect_of(disp: PixelRect, buf_w: u32, buf_h: u32, src_w: u32, src_h: u32) -> PixelRect {
    let bw = if buf_w < 1 {
        1
    } else {
        buf_w as int
    };
    let bh = if buf_h < 1 {
        1
    } else {
        buf_h as int
    };
    let sw = if src_w < 1 {
        1
    } else {
        src_w as int
    };
    let sh = if src_h < 1 {
        1
    } else {
        src_h as int
    };
    let x0 = clamp_int(div_toward_zero(disp.origin.x * sw, bw), 0, sw - 1);
    let y0 = clamp_int(div_toward_zero(disp.origin.y * sh, bh), 0, sh - 1);
    let x1 = clamp_int(div_toward_zero(disp.spec_right() * sw + bw - 1, bw), x0 + 1, sw);
    let y1 = clamp_int(div_toward_zero(disp.spec_bottom() * sh + bh - 1, bh), y0 + 1, sh);
    PixelRect::rect(x0, y0, x1 - x0, y1 - y0)
}

fn scaled_edge(v: i32, num: u32, den: u32, round_up: bool, lo: i64, hi: i64) -> (e: i64)
    requires
        num >= 1,
        den >= 1,
        lo <= hi,
    ensures
        e == clamp_int(
            div_toward_zero(
                v * num + (if round_up {
                    den - 1
                } else {
                    0
                }),
                den as int,
            ),
            lo as int,
            hi as int,
        ),
{
    proof {
        assert(-2147483648 * 4294967295 <= v * num <= 2147483647 * 4294967295) by (nonlinear_arith)
            requires
                i32::MIN <= v <= i32::MAX,
                1 <= num <= u32::MAX,
        ;
    }
    let n: i64 = v as i64 * num as i64 + if round_up {
        den as i64 - 1
    } else {
        0
    };
    let q: i64 = if n >= 0 {
        n / den as i64
    } else {
        -((-n) / den as i64)
    };
    if q < lo {
        lo
    } else if q > hi {
        hi
    } else {
        q
    }
}

/// Maps a selection in the display buffer to the source image.
pub fn buf_rect_to_src(disp: PixelRect, buf_w: u32, buf_h: u32, src_w: u32, src_h: u32) -> (r:
    PixelRect)
    ensures
        r == source_rect_of(disp, buf_w, buf_h, src_w, src_h),
{
    let bw: u32 = if buf_w < 1 {
        1
    } else {
        buf_w
    };
    let bh: u32 = if buf_h < 1 {
        1
    } else {
        buf_h
    };
    let sw: u32 = if src_w < 1 {
        1
    } else {
        src_w
    };
    let sh: u32 = if src_h < 1 {
        1
    } else {
        src_h
    };
    let x0 = scaled_edge(disp.origin.x, sw, bw, false, 0, sw as i64 - 1);
    let y0 = scaled_edge(disp.origin.y, sh, bh, false, 0, sh as i64 - 1);
    let x1 = scaled_edge(disp.right(), sw, bw, true, x0 + 1, sw as i64);
    let y1 = scaled_edge(disp.bottom(), sh, bh, true, y0 + 1, sh as i64);
    PixelRect::new(x0 as i32, y0 as i32, (x1 - x0) as u32, (y1 - y0) as u32)
}

/// `r` widened by `pad` on every side and cut to the image.
pub open spec fn expanded(r: PixelRect, pad: i32, img_w: u32, img_h: u32) -> PixelRect {
    let x0 = if r.origin.x - pad > 0 {
        r.origin.x - pad
    } else {
        0
    };
    let y0 = if r.origin.y - pad > 0 {
        r.origin.y - pad
    } else {
        0
    };
    let x1 = if r.spec_right() + pad < (img_w as i32) {
        r.spec_right() + pad
    } else {
        (img_w as i32) as int
    };
    let y1 = if r.spec_bottom() + pad < (img_h as i32) {
        r.spec_bottom() + pad
    } else {
        (img_h as i32) as int
    };
    PixelRect::rect(
        x0,
        y0,
        if x1 - x0 > 0 {
            x1 - x0
        } else {
            0
        },
        if y1 - y0 > 0 {
            y1 - y0
        } else {
            0
        },
    )
}

/// Widens a rectangle by `pad`, within the image. The inputs stay within `i32` arithmetic.
pub fn expand_rect(r: PixelRect, pad: i32, img_w: u32, img_h: u32) -> (e: PixelRect)
    requires
        i32::MIN <= r.origin.x - pad <= i32::MAX,
        i32::MIN <= r.origin.y - pad <= i32::MAX,
        i32::MIN <= r.spec_right() + pad <= i32::MAX,
        i32::MIN <= r.spec_bottom() + pad <= i32::MAX,
    ensures
        e == expanded(r, pad, img_w, img_h),
{
    let x0 = if r.origin.x - pad > 0 {
        r.origin.x - pad
    } else {
        0
    };
    let y0 = if r.origin.y - pad > 0 {
        r.origin.y - pad
    } else {
        0
    };
    let x1 = if r.right() + pad < img_w as i32 {
        r.right() + pad
    } else {
        img_w as i32
    };
    let y1 = if r.bottom() + pad < img_h as i32 {
        r.bottom() + pad
    } else {
        img_h as i32
    };
    let w: i64 = x1 as i64 - x0 as i64;
    let h: i64 = y1 as i64 - y0 as i64;
    PixelRect::new(
        x0,
        y0,
        if w > 0 {
            w as u32
        } else {
            0
        },
        if h > 0 {
            h as u32
        } else {
            0
        },
    )
}

/// Both render buffers of a prepared preview have one pixel per image pixel.
pub fn preview_buffers_match_image(width: u32, height: u32, base_len: usize, dimmed_len: usize) -> (b:
    bool)
    ensures
        b == (width * height <= usize::MAX && base_len == width * height && dimmed_len == width
            * height),
{
    proof {
        vstd::arithmetic::mul::lemma_mul_upper_bound(
            width as int,
            u32::MAX as int,
            height as int,
            u32::MAX as int,
        );
    }
    let area: u64 = (width as u64) * (height as u64);
    if area > usize::MAX as u64 {
        return false;
    }
    base_len as u64 == area && dimmed_len as u64 == area
}

pub open spec fn tray_required_message(error: Seq<char>) -> Seq<char> {
    "system tray is required for tray-only mode: "@ + error
}

/// The desktop shell runs only in the tray; without a tray it refuses to start rather than
/// leave a process that nothing can reach.
pub fn require_tray<T>(result: Result<T, String>) -> (r: Result<T, PinoraError>)
    ensures
        match result {
            Ok(t) => r matches Ok(u) && u == t,
            Err(e) => r matches Err(err) && err.code == ErrorCode::CapabilityUnavailable
                && err.message@ == tray_required_message(e@),
        },
{
    match result {
        Ok(tray) => Ok(tray),
        Err(error) => {
            let mut message = String::new();
            crate::text::push_text(&mut message, "system tray is required for tray-only mode: ");
            crate::text::push_text(&mut message, error.as_str());
            Err(PinoraError { code: ErrorCode::CapabilityUnavailable, message })
        },
    }
}

} // verus!
