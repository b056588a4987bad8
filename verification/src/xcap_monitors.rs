//! What the xcap back end decides about monitors: how a monitor becomes a display, which
//! display a capture goes to, whether a grab takes the whole monitor or a region of it, how
//! xcap's errors are classified, and which back end start-up settles on. Asking xcap for
//! monitors and pixels happens outside; its answers come in as plain values.

use crate::capture::CaptureBackendKind;
use crate::geometry::PixelRect;
use crate::history_browser::{lower_chars, lower_text, occurs, occurs_in};
use crate::model::{ErrorCode, PinoraError};
use crate::text::{chars_of, decimal, push_decimal, push_text, same_text};
use vstd::prelude::*;

verus! {

/// A monitor as the capture code sees it.
#[derive(Debug, Clone)]
pub struct XcapDisplay {
    pub id: String,
    pub name: String,
    pub bounds: PixelRect,
}

/// The display identity of xcap monitor `id`.
pub open spec fn monitor_id_text(id: u32) -> Seq<char> {
    "xcap-"@ + decimal(id as nat)
}

/// The name shown for a monitor: its friendly name, else its system name, else
/// `Monitor-{id}`.
pub open spec fn monitor_name_text(id: u32, friendly: Option<Seq<char>>, name: Option<Seq<char>>) -> Seq<
    char,
> {
    match friendly {
        Some(f) => f,
        None => match name {
            Some(n) => n,
            None => "Monitor-"@ + decimal(id as nat),
        },
    }
}

/// Turns what xcap reported of one monitor into a display. `friendly_name` and `name` are
/// `None` where xcap could not give them.
pub fn monitor_to_display(
    id: u32,
    friendly_name: Option<String>,
    name: Option<String>,
    x: i32,
    y: i32,
    width: u32,
    height: u32,
) -> (d: XcapDisplay)
    ensures
        d.id@ == monitor_id_text(id),
        d.name@ == monitor_name_text(
            id,
            match friendly_name {
                Some(f) => Some(f@),
                None => None,
            },
            match name {
                Some(n) => Some(n@),
                None => None,
            },
        ),
        d.bounds == PixelRect::rect(x as int, y as int, width as int, height as int),
{
    let mut display_id = String::new();
    push_text(&mut display_id, "xcap-");
    push_decimal(&mut display_id, id as u64);
    let shown = match friendly_name {
        Some(f) => f,
        None => match name {
            Some(n) => n,
            None => {
                let mut fallback = String::new();
                push_text(&mut fallback, "Monitor-");
                push_decimal(&mut fallback, id as u64);
                fallback
            },
        },
    };
    XcapDisplay { id: display_id, name: shown, bounds: PixelRect::new(x, y, width, height) }
}

/// The displays of a monitor enumeration, or the error that there is none.
pub fn displays_or_error(monitors: Vec<XcapDisplay>) -> (r: Result<Vec<XcapDisplay>, PinoraError>)
    ensures
        monitors@.len() > 0 ==> (r matches Ok(v) && v@ == monitors@),
        monitors@.len() == 0 ==> (r matches Err(e) && e.code == ErrorCode::CapabilityUnavailable
            && e.message@ == "xcap: no monitors found"@),
{
    if monitors.len() == 0 {
        Err(PinoraError::new(ErrorCode::CapabilityUnavailable, "xcap: no monitors found"))
    } else {
        Ok(monitors)
    }
}

/// Position of the first display whose identity is `id`.
pub open spec fn first_with_id(displays: Seq<XcapDisplay>, id: Seq<char>, k: int) -> bool {
    &&& 0 <= k < displays.len()
    &&& displays[k].id@ == id
    &&& forall|j: int| 0 <= j < k ==> displays[j].id@ != id
}

/// The position of the monitor that shows display `id`, or a not-found error naming it.
pub fn find_monitor_for_display(displays: &Vec<XcapDisplay>, id: &str) -> (r: Result<usize, PinoraError>)
    ensures
        match r {
            Ok(k) => first_with_id(displays@, id@, k as int),
            Err(e) => {
                &&& forall|j: int| 0 <= j < displays@.len() ==> displays@[j].id@ != id@
                &&& e.code == ErrorCode::NotFound
                &&& e.message@ == "xcap monitor not found: "@ + id@
            },
        },
{
    let mut k: usize = 0;
    while k < displays.len()
        invariant
            k <= displays@.len(),
            forall|j: int| 0 <= j < k ==> displays@[j].id@ != id@,
        decreases displays@.len() - k,
    {
        if same_text(displays[k].id.as_str(), id) {
            return Ok(k);
        }
        k += 1;
    }
    let mut message = String::new();
    push_text(&mut message, "xcap monitor not found: ");
    push_text(&mut message, id);
    Err(PinoraError { code: ErrorCode::NotFound, message })
}

/// The identity of the primary display: the first monitor's, or `xcap-unknown` where the
/// enumeration failed or found none.
pub fn primary_display_id(displays: Option<&Vec<XcapDisplay>>) -> (id: String)
    ensures
        match displays {
            Some(v) if v@.len() > 0 => id@ == v@[0].id@,
            _ => id@ == "xcap-unknown"@,
        },
{
    match displays {
        Some(v) => {
            if v.len() > 0 {
                v[0].id.clone()
            } else {
                "xcap-unknown".to_owned()
            }
        },
        None => "xcap-unknown".to_owned(),
    }
}

/// How a capture is taken from its monitor.
#[derive(Debug, Clone, Copy, PartialEq, Eq, Structural)]
pub enum MonitorGrab {
    /// The whole monitor, in one grab.
    Whole,
    /// A region, in coordinates local to the monitor.
    Region { x: u32, y: u32, width: u32, height: u32 },
}

/// The offset of a capture edge from the monitor's edge, no less than zero.
pub open spec fn local_offset(capture: int, monitor: int) -> int {
    if capture - monitor < 0 {
        0
    } else {
        capture - monitor
    }
}

/// How `rect` (in desktop coordinates) is grabbed from a monitor covering `monitor`.
pub open spec fn grab_for(rect: PixelRect, monitor: PixelRect) -> MonitorGrab {
    let x = local_offset(rect.origin.x as int, monitor.origin.x as int);
    let y = local_offset(rect.origin.y as int, monitor.origin.y as int);
    if x == 0 && y == 0 && rect.size.width == monitor.size.width && rect.size.height
        == monitor.size.height {
        MonitorGrab::Whole
    } else {
        MonitorGrab::Region {
            x: x as u32,
            y: y as u32,
            width: rect.size.width,
            height: rect.size.height,
        }
    }
}

/// Decides whether a capture of `rect` takes the whole monitor or a region of it.
pub fn monitor_grab(rect: PixelRect, monitor: PixelRect) -> (g: MonitorGrab)
    requires
        i32::MIN <= rect.origin.x - monitor.origin.x <= i32::MAX,
        i32::MIN <= rect.origin.y - monitor.origin.y <= i32::MAX,
    ensures
        g == grab_for(rect, monitor),
{
    let dx = rect.origin.x - monitor.origin.x;
    let dy = rect.origin.y - monitor.origin.y;
    let x: u32 = if dx < 0 {
        0
    } else {
        dx as u32
    };
    let y: u32 = if dy < 0 {
        0
    } else {
        dy as u32
    };
    if x == 0 && y == 0 && rect.size.width == monitor.size.width && rect.size.height
        == monitor.size.height {
        MonitorGrab::Whole
    } else {
        MonitorGrab::Region { x, y, width: rect.size.width, height: rect.size.height }
    }
}

/// The error class of an xcap failure, from its lower-cased message.
pub open spec fn xcap_error_code(lower: Seq<char>) -> ErrorCode {
    if occurs_in(lower, "permission"@) || occurs_in(lower, "denied"@) || occurs_in(lower, "portal"@)
        || occurs_in(lower, "not authorized"@) {
        ErrorCode::PermissionDenied
    } else if occurs_in(lower, "not support"@) || occurs_in(lower, "unavailable"@) {
        ErrorCode::CapabilityUnavailable
    } else {
        ErrorCode::RetryablePlatform
    }
}

fn mentions(hay: &Vec<char>, needle: &str) -> (b: bool)
    ensures
        b == occurs_in(hay@, needle@),
{
    occurs(hay, &chars_of(needle))
}

/// Classifies an xcap failure by its message: permission problems, missing support, or a
/// platform error worth retrying. The message is kept behind an `xcap: ` prefix.
pub fn map_xcap(message: &str) -> (e: PinoraError)
    ensures
        e.code == xcap_error_code(lower_text(message@)),
        e.message@ == "xcap: "@ + message@,
{
    let lower = lower_chars(&chars_of(message));
    let code = if mentions(&lower, "permission") || mentions(&lower, "denied") || mentions(
        &lower,
        "portal",
    ) || mentions(&lower, "not authorized") {
        ErrorCode::PermissionDenied
    } else if mentions(&lower, "not support") || mentions(&lower, "unavailable") {
        ErrorCode::CapabilityUnavailable
    } else {
        ErrorCode::RetryablePlatform
    };
    let mut text = String::new();
    push_text(&mut text, "xcap: ");
    push_text(&mut text, message);
    PinoraError { code, message: text }
}

/// The note start-up records about the back end it picked.
pub open spec fn autodetect_note(probe: Result<Seq<XcapDisplay>, Seq<char>>) -> Seq<char> {
    match probe {
        Ok(displays) => if displays.len() > 0 {
            "xcap monitors="@ + decimal(displays.len()) + " primary="@ + displays[0].name@ + " "@
                + decimal(displays[0].bounds.size.width as nat) + "x"@ + decimal(
                displays[0].bounds.size.height as nat,
            ) + " (capture on confirm)"@
        } else {
            "xcap returned no monitors; using fake"@
        },
        Err(message) => "xcap unavailable ("@ + message + "); using fake"@,
    }
}

/// Settles the capture back end from xcap's monitor probe (taken without a trial grab):
/// xcap where it lists at least one monitor, the fake back end otherwise, with a note.
/// `probe` holds the monitors, or the text of the error that stopped the enumeration.
pub fn autodetect(probe: Result<Vec<XcapDisplay>, String>) -> (r: (CaptureBackendKind, String))
    ensures
        r.0 == (if probe matches Ok(v) && v@.len() > 0 {
            CaptureBackendKind::Xcap
        } else {
            CaptureBackendKind::Fake
        }),
        r.1@ == autodetect_note(
            match probe {
                Ok(v) => Ok(v@),
                Err(m) => Err(m@),
            },
        ),
{
    match probe {
        Ok(displays) => {
            if displays.len() > 0 {
                let first = &displays[0];
                let mut note = String::new();
                push_text(&mut note, "xcap monitors=");
                push_decimal(&mut note, displays.len() as u64);
                push_text(&mut note, " primary=");
                push_text(&mut note, first.name.as_str());
                push_text(&mut note, " ");
                push_decimal(&mut note, first.bounds.size.width as u64);
                push_text(&mut note, "x");
                push_decimal(&mut note, first.bounds.size.height as u64);
                push_text(&mut note, " (capture on confirm)");
                (CaptureBackendKind::Xcap, note)
            } else {
                (CaptureBackendKind::Fake, "xcap returned no monitors; using fake".to_owned())
            }
        },
        Err(message) => {
            let mut note = String::new();
            push_text(&mut note, "xcap unavailable (");
            push_text(&mut note, message.as_str());
            push_text(&mut note, "); using fake");
            (CaptureBackendKind::Fake, note)
        },
    }
}

} // verus!
