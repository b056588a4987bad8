//! The desktop shell's idle-time decisions: which tray actions run while a delayed capture
//! counts down, when a delayed capture is due, and what the event loop does and how long it
//! sleeps once the queued work is polled. The loop itself, its windows and its clock live
//! outside; they hand in the state and carry out the step.

use vstd::prelude::*;

verus! {

/// What the shell is doing between events.
#[derive(Debug, Clone, Copy, PartialEq, Eq, Structural)]
pub enum ShellMode {
    /// A capture starts at the next turn (no full-screen window yet, so none is captured).
    StartCapture,
    /// A capture runs in the background behind a small loading window.
    LoadingCapture,
    /// A delayed capture counts down with no window of its own.
    DelayedCapture,
    /// Only pins are open.
    Idle,
}

/// A tray menu action. Delays are in milliseconds; displays and windows go by their
/// identities.
#[derive(Debug, Clone, PartialEq, Eq)]
pub enum TrayAction {
    Capture,
    CaptureRegionAfter(u64),
    CancelDelayedCapture,
    CaptureFullDisplay,
    CaptureAllDisplays,
    CaptureDisplay(String),
    CaptureWindow(u64),
    Settings,
    History,
    ShowAllPins,
    HideAllPins,
    CloseAllPins,
    Quit,
}

/// While a delayed capture counts down only cancelling it and quitting are taken; every
/// other tray action is ignored.
pub fn tray_action_allowed(delayed_capture_active: bool, action: &TrayAction) -> (b: bool)
    ensures
        b == (!delayed_capture_active || action is CancelDelayedCapture || action is Quit),
{
    if !delayed_capture_active {
        return true;
    }
    match action {
        TrayAction::CancelDelayedCapture | TrayAction::Quit => true,
        _ => false,
    }
}

/// A delayed capture: when it is due, and the pins it hid, to be shown again afterwards.
#[derive(Debug, Clone, PartialEq, Eq)]
pub struct DelayedCapture<W> {
    pub deadline_ms: u64,
    pub hidden_pin_ids: Vec<W>,
}

impl<W> DelayedCapture<W> {
    /// A countdown of `delay_ms` starting at `now_ms`.
    pub fn new(now_ms: u64, delay_ms: u64, hidden_pin_ids: Vec<W>) -> (d: DelayedCapture<W>)
        requires
            now_ms + delay_ms <= u64::MAX,
        ensures
            d.deadline_ms == now_ms + delay_ms,
            d.hidden_pin_ids@ == hidden_pin_ids@,
    {
        DelayedCapture { deadline_ms: now_ms + delay_ms, hidden_pin_ids }
    }

    pub fn is_due(&self, now_ms: u64) -> (b: bool)
        ensures
            b == (now_ms >= self.deadline_ms),
    {
        now_ms >= self.deadline_ms
    }
}

/// The shortest time between two overlay frames, in microseconds (60 frames a second).
pub const MIN_FRAME_INTERVAL_US: u64 = 16666;

/// How long the loop sleeps while a capture is pending, in milliseconds.
pub const CAPTURE_POLL_MS: u64 = 30;

/// How long it sleeps otherwise, so the tray, global hotkeys and the instance socket are
/// polled often enough.
pub const IDLE_POLL_MS: u64 = 50;

/// The state the loop decides on once the tray, hotkeys, jobs and messages are polled.
#[derive(Debug, Clone, Copy, PartialEq, Eq, Structural)]
pub struct LoopState {
    pub quit: bool,
    pub mode: ShellMode,
    /// Whether a background capture is still pending (after polling it).
    pub loading: bool,
    /// Whether an overlay is open.
    pub overlay_open: bool,
    /// Whether the open overlay wants to be drawn again.
    pub overlay_needs_redraw: bool,
    /// Time since the overlay last presented a frame, in microseconds.
    pub since_present_us: u64,
}

/// What the loop does before it sleeps.
#[derive(Debug, Clone, Copy, PartialEq, Eq, Structural)]
pub enum LoopAction {
    /// Leave the event loop.
    Exit,
    /// Start the delayed capture if it is due.
    PollDelayedCapture,
    /// Ask the overlay window to draw.
    RequestOverlayRedraw,
    /// Try to open the capture that was asked for.
    TryStartCapture,
    Nothing,
}

/// How the loop sleeps.
#[derive(Debug, Clone, Copy, PartialEq, Eq, Structural)]
pub enum LoopWait {
    /// Until the next event.
    UntilEvent,
    /// At most this many microseconds.
    Micros(u64),
}

#[derive(Debug, Clone, Copy, PartialEq, Eq, Structural)]
pub struct LoopStep {
    pub action: LoopAction,
    pub wait: Option<LoopWait>,
}

pub open spec fn loop_step(s: LoopState) -> LoopStep {
    if s.quit {
        LoopStep { action: LoopAction::Exit, wait: None }
    } else if s.mode == ShellMode::DelayedCapture {
        LoopStep {
            action: LoopAction::PollDelayedCapture,
            wait: Some(LoopWait::Micros((CAPTURE_POLL_MS * 1000) as u64)),
        }
    } else if s.mode == ShellMode::LoadingCapture && s.loading {
        LoopStep { action: LoopAction::Nothing, wait: Some(LoopWait::Micros((CAPTURE_POLL_MS * 1000) as u64)) }
    } else if s.overlay_open && s.overlay_needs_redraw {
        if s.since_present_us >= MIN_FRAME_INTERVAL_US {
            LoopStep { action: LoopAction::RequestOverlayRedraw, wait: Some(LoopWait::UntilEvent) }
        } else {
            LoopStep {
                action: LoopAction::Nothing,
                wait: Some(LoopWait::Micros((MIN_FRAME_INTERVAL_US - s.since_present_us) as u64)),
            }
        }
    } else if s.mode == ShellMode::StartCapture && !s.overlay_open && !s.loading {
        LoopStep {
            action: LoopAction::TryStartCapture,
            wait: Some(LoopWait::Micros((CAPTURE_POLL_MS * 1000) as u64)),
        }
    } else {
        LoopStep { action: LoopAction::Nothing, wait: Some(LoopWait::Micros((IDLE_POLL_MS * 1000) as u64)) }
    }
}

/// Decides the loop's last step before it sleeps: leave on quit; poll a delayed capture every
/// 30 ms; keep polling a pending background capture every 30 ms; draw an overlay that wants
/// it at most once per frame interval (else sleep out the rest of the interval); try to start
/// a requested capture every 30 ms; otherwise wake every 50 ms. `wait` is `None` only on exit.
pub fn about_to_wait_step(s: LoopState) -> (step: LoopStep)
    ensures
        step == loop_step(s),
{
    if s.quit {
        LoopStep { action: LoopAction::Exit, wait: None }
    } else if matches!(s.mode, ShellMode::DelayedCapture) {
        LoopStep { action: LoopAction::PollDelayedCapture, wait: Some(LoopWait::Micros(CAPTURE_POLL_MS * 1000)) }
    } else if matches!(s.mode, ShellMode::LoadingCapture) && s.loading {
        LoopStep { action: LoopAction::Nothing, wait: Some(LoopWait::Micros(CAPTURE_POLL_MS * 1000)) }
    } else if s.overlay_open && s.overlay_needs_redraw {
        if s.since_present_us >= MIN_FRAME_INTERVAL_US {
            LoopStep { action: LoopAction::RequestOverlayRedraw, wait: Some(LoopWait::UntilEvent) }
        } else {
            LoopStep {
                action: LoopAction::Nothing,
                wait: Some(LoopWait::Micros(MIN_FRAME_INTERVAL_US - s.since_present_us)),
            }
        }
    } else if matches!(s.mode, ShellMode::StartCapture) && !s.overlay_open && !s.loading {
        LoopStep { action: LoopAction::TryStartCapture, wait: Some(LoopWait::Micros(CAPTURE_POLL_MS * 1000)) }
    } else {
        LoopStep { action: LoopAction::Nothing, wait: Some(LoopWait::Micros(IDLE_POLL_MS * 1000)) }
    }
}

/// The loop never sleeps past a frame interval while an overlay waits to be drawn, and
/// never sleeps longer than the idle poll period at all.
pub proof fn loop_sleeps_briefly(s: LoopState)
    ensures
        loop_step(s).wait matches Some(LoopWait::Micros(us)) ==> us <= IDLE_POLL_MS * 1000,
        !s.quit && s.mode != ShellMode::DelayedCapture && !(s.mode == ShellMode::LoadingCapture
            && s.loading) && s.overlay_open && s.overlay_needs_redraw ==> (loop_step(s).wait
            matches Some(LoopWait::Micros(us)) ==> us <= MIN_FRAME_INTERVAL_US),
{
}

} // verus!
