//! What the platform offers (capture, global hotkeys, the image clipboard), as a snapshot with
//! notes for diagnostics. The clipboard helper that was found and the build's platform come
//! from the caller.

use crate::capture::{backend_name, CaptureBackendKind};
use crate::text::push_text;
use vstd::prelude::*;

verus! {

/// The platform capabilities as diagnostics show them.
#[derive(Debug, Clone)]
pub struct CapabilitySnapshot {
    pub capture_available: bool,
    pub global_hotkey_available: bool,
    pub clipboard_image_available: bool,
    pub always_on_top_available: bool,
    pub notes: Vec<String>,
}

/// Facts about the build and the machine that the probe reports on.
#[derive(Debug, Clone, Copy)]
pub struct PlatformFacts {
    /// The build targets a Unix system.
    pub unix: bool,
    /// The build targets Linux, where the global-hotkey back end is available.
    pub linux: bool,
}

/// The probe over the capture back end that was selected.
#[derive(Debug, Clone)]
pub struct RuntimeCapabilityProbe {
    pub capture_backend: CaptureBackendKind,
    pub capture_note: Option<String>,
}

pub open spec fn clipboard_note(backend: Option<Seq<char>>, unix: bool) -> Seq<char> {
    match backend {
        Some(b) => "system clipboard: "@ + b + " (image/png)"@,
        None => if unix {
            "system clipboard: unavailable (install wl-clipboard or xclip)"@
        } else {
            "system clipboard: unavailable on this build; memory clipboard remains available"@
        },
    }
}

/// The notes of a probe: the capture note where there is one, the back end's name, the hotkey
/// route, the clipboard, and on platforms without the hotkey back end a note saying so.
pub open spec fn probe_notes(
    capture_note: Option<Seq<char>>,
    backend: CaptureBackendKind,
    clipboard: Option<Seq<char>>,
    facts: PlatformFacts,
) -> Seq<Seq<char>> {
    let first: Seq<Seq<char>> = match capture_note {
        Some(n) => seq![n],
        None => Seq::empty(),
    };
    let last: Seq<Seq<char>> = if facts.linux {
        Seq::empty()
    } else {
        seq!["global hotkey: unavailable on this build; use pinora capture IPC"@]
    };
    first + seq![
        "capture backend: "@ + backend_name(backend),
        "global hotkey: F2/Ctrl+N via global-hotkey when available; else `pinora capture` IPC"@,
        clipboard_note(clipboard, facts.unix),
    ] + last
}

pub open spec fn opt_text(o: Option<&str>) -> Option<Seq<char>> {
    match o {
        Some(t) => Some(t@),
        None => None,
    }
}

pub open spec fn opt_string(o: Option<String>) -> Option<Seq<char>> {
    match o {
        Some(t) => Some(t@),
        None => None,
    }
}

pub open spec fn notes_view(notes: Seq<String>) -> Seq<Seq<char>> {
    notes.map_values(|n: String| n@)
}

fn line(a: &str, b: &str, c: &str) -> (s: String)
    ensures
        s@ == a@ + b@ + c@,
{
    let mut s = String::new();
    push_text(&mut s, a);
    push_text(&mut s, b);
    push_text(&mut s, c);
    assert(s@ =~= a@ + b@ + c@);
    s
}

impl RuntimeCapabilityProbe {
    pub fn new(capture_backend: CaptureBackendKind, capture_note: Option<String>) -> (p:
        RuntimeCapabilityProbe)
        ensures
            p.capture_backend == capture_backend,
            p.capture_note == capture_note,
    {
        RuntimeCapabilityProbe { capture_backend, capture_note }
    }

    /// The snapshot, given the clipboard helper that was found (`None` where there is none).
    /// Capture is available unless no back end is; global hotkeys are available on Linux; the
    /// image clipboard where a helper was found; keeping windows on top is not offered.
    pub fn probe(&self, clipboard_backend: Option<&str>, facts: PlatformFacts) -> (s:
        CapabilitySnapshot)
        ensures
            s.capture_available == (self.capture_backend != CaptureBackendKind::Unavailable),
            s.global_hotkey_available == facts.linux,
            s.clipboard_image_available == clipboard_backend is Some,
            !s.always_on_top_available,
            notes_view(s.notes@) == probe_notes(
                opt_string(self.capture_note),
                self.capture_backend,
                opt_text(clipboard_backend),
                facts,
            ),
    {
        let mut notes: Vec<String> = Vec::new();
        match &self.capture_note {
            Some(note) => {
                notes.push(note.clone());
            },
            None => {},
        }
        notes.push(line("capture backend: ", self.capture_backend.as_str(), ""));
        notes.push(
            "global hotkey: F2/Ctrl+N via global-hotkey when available; else `pinora capture` IPC".to_owned(),
        );
        match clipboard_backend {
            Some(b) => {
                notes.push(line("system clipboard: ", b, " (image/png)"));
            },
            None => {
                if facts.unix {
                    notes.push(
                        "system clipboard: unavailable (install wl-clipboard or xclip)".to_owned(),
                    );
                } else {
                    notes.push(
                        "system clipboard: unavailable on this build; memory clipboard remains available".to_owned(),
                    );
                }
            },
        }
        if !facts.linux {
            notes.push(
                "global hotkey: unavailable on this build; use pinora capture IPC".to_owned(),
            );
        }
        proof {
            reveal_strlit("");
            assert("capture backend: "@ + backend_name(self.capture_backend) + ""@ =~= "capture backend: "@
                + backend_name(self.capture_backend));
        }
        assert(notes_view(notes@) =~= probe_notes(
            opt_string(self.capture_note),
            self.capture_backend,
            opt_text(clipboard_backend),
            facts,
        ));
        CapabilitySnapshot {
            capture_available: self.capture_backend != CaptureBackendKind::Unavailable,
            global_hotkey_available: facts.linux,
            clipboard_image_available: clipboard_backend.is_some(),
            always_on_top_available: false,
            notes,
        }
    }
}

/// A fixed probe for tests: the fake capture back end, with hotkeys and the image clipboard
/// reported as available.
#[derive(Debug, Default, Clone, Copy)]
pub struct FakeCapabilityProbe;

impl FakeCapabilityProbe {
    pub fn probe(&self, clipboard_backend: Option<&str>, facts: PlatformFacts) -> (s:
        CapabilitySnapshot)
        ensures
            s.capture_available,
            s.global_hotkey_available,
            s.clipboard_image_available,
            !s.always_on_top_available,
            notes_view(s.notes@) == probe_notes(
                Some("test probe: FakeCaptureProvider"@),
                CaptureBackendKind::Fake,
                opt_text(clipboard_backend),
                facts,
            ),
    {
        let probe = RuntimeCapabilityProbe::new(
            CaptureBackendKind::Fake,
            Some("test probe: FakeCaptureProvider".to_owned()),
        );
        let mut snapshot = probe.probe(clipboard_backend, facts);
        snapshot.global_hotkey_available = true;
        snapshot.clipboard_image_available = true;
        snapshot
    }
}

} // verus!
