//! Plain state of pinned images: how a pin session ends, the mouse mode asked of the
//! platform, the recency counter, and what the pin window's keys decide.

use vstd::prelude::*;

verus! {

/// Why a pin session ended.
#[derive(Debug, Clone, Copy, PartialEq, Eq, Structural)]
pub enum PinSessionEnd {
    /// Every pin was closed.
    AllClosed,
    /// The user asked for another capture (Ctrl+N or F2).
    NewCapture,
    /// The user asked to quit (Ctrl+Q).
    Quit,
}

/// The mouse hit-testing a pin window asks of the platform.
#[derive(Debug, Clone, Copy, PartialEq, Eq, Structural)]
pub enum PinMouseMode {
    Direct,
    Passthrough,
}

impl PinMouseMode {
    /// Whether the window receives the mouse itself.
    pub fn hittest_enabled(self) -> (b: bool)
        ensures
            b == (self == PinMouseMode::Direct),
    {
        match self {
            PinMouseMode::Direct => true,
            PinMouseMode::Passthrough => false,
        }
    }
}

/// The mode to remember after asking the platform for `requested`: a refused request leaves
/// the current mode in place.
pub fn pin_mouse_mode_after_platform_request(
    current: PinMouseMode,
    requested: PinMouseMode,
    platform_succeeded: bool,
) -> (mode: PinMouseMode)
    ensures
        mode == (if platform_succeeded {
            requested
        } else {
            current
        }),
{
    if platform_succeeded {
        requested
    } else {
        current
    }
}

/// The next most-recently-used number; it stays at the maximum instead of wrapping, so the
/// tray's order never turns around.
pub fn next_pin_recency(current: u64) -> (next: u64)
    ensures
        next == (if current == u64::MAX {
            u64::MAX
        } else {
            (current + 1) as u64
        }),
{
    current.saturating_add(1)
}

/// A key pressed in a pin window.
#[derive(Debug, Clone, Copy, PartialEq, Eq, Structural)]
pub enum PinKey {
    Escape,
    F2,
    Character(char),
    Other,
}

/// What a key press in a pin window does.
#[derive(Debug, Clone, Copy, PartialEq, Eq, Structural)]
pub enum PinKeyOutcome {
    /// Close this pin.
    CloseWindow,
    /// End the whole session.
    End(PinSessionEnd),
    Ignore,
}

pub open spec fn pin_key_outcome(key: PinKey, control: bool) -> PinKeyOutcome {
    match key {
        PinKey::Escape => PinKeyOutcome::CloseWindow,
        PinKey::F2 => PinKeyOutcome::End(PinSessionEnd::NewCapture),
        PinKey::Character(c) => if control && (c == 'n' || c == 'N') {
            PinKeyOutcome::End(PinSessionEnd::NewCapture)
        } else if control && (c == 'q' || c == 'Q') {
            PinKeyOutcome::End(PinSessionEnd::Quit)
        } else {
            PinKeyOutcome::Ignore
        },
        PinKey::Other => PinKeyOutcome::Ignore,
    }
}

/// Escape closes the pin; F2 or Ctrl+N asks for a new capture; Ctrl+Q quits.
pub fn pin_key(key: PinKey, control: bool) -> (outcome: PinKeyOutcome)
    ensures
        outcome == pin_key_outcome(key, control),
{
    match key {
        PinKey::Escape => PinKeyOutcome::CloseWindow,
        PinKey::F2 => PinKeyOutcome::End(PinSessionEnd::NewCapture),
        PinKey::Character(c) => if control && (c == 'n' || c == 'N') {
            PinKeyOutcome::End(PinSessionEnd::NewCapture)
        } else if control && (c == 'q' || c == 'Q') {
            PinKeyOutcome::End(PinSessionEnd::Quit)
        } else {
            PinKeyOutcome::Ignore
        },
        PinKey::Other => PinKeyOutcome::Ignore,
    }
}

/// The recency counter never goes backwards.
pub proof fn recency_never_decreases(current: u64)
    ensures
        (if current == u64::MAX {
            u64::MAX
        } else {
            (current + 1) as u64
        }) >= current,
{
}

} // verus!
