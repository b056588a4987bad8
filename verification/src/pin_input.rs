//! What keys and clicks on a pin window ask for. The desktop shell performs the command on
//! the pin: closing it, locking it, changing its opacity, running OCR, or starting a capture.

use crate::pin_context_menu::PinMenuAction;
use crate::text::chars_of;
use vstd::prelude::*;

verus! {

/// The key as the layout names it.
#[derive(Debug, Clone, PartialEq, Eq)]
pub enum LogicalKey {
    Escape,
    F2,
    F3,
    Character(String),
    Other,
}

/// The physical key position, which some Wayland layouts report where the logical name is
/// missing.
#[derive(Debug, Clone, Copy, PartialEq, Eq, Structural)]
pub enum PhysicalKey {
    KeyQ,
    KeyN,
    F2,
    F3,
    Other,
}

/// What a key press in a pin window asks for.
#[derive(Debug, Clone, Copy, PartialEq, Eq, Structural)]
pub enum PinWindowCommand {
    Quit,
    FullDisplayCapture,
    NewCapture,
    ClosePin,
    ToggleLock,
    OpacityDown,
    OpacityUp,
    Ocr,
    ToggleOcrBoxes,
    Nothing,
}

/// Ctrl+Q quits; F3 captures the full display; F2 or Ctrl+N starts a new capture (by logical
/// or physical key); Escape closes the pin; `L` locks, `[` and `]` change the opacity, `O`
/// runs OCR and `T` shows the word boxes.
pub open spec fn pin_window_command(control: bool, logical: LogicalKey, physical: PhysicalKey) -> PinWindowCommand {
    if control && physical == PhysicalKey::KeyQ {
        PinWindowCommand::Quit
    } else if logical == LogicalKey::F3 || physical == PhysicalKey::F3 {
        PinWindowCommand::FullDisplayCapture
    } else if logical == LogicalKey::F2 || physical == PhysicalKey::F2 || (control && physical
        == PhysicalKey::KeyN) {
        PinWindowCommand::NewCapture
    } else {
        match logical {
            LogicalKey::Escape => PinWindowCommand::ClosePin,
            LogicalKey::Character(t) => if t@.len() != 1 {
                PinWindowCommand::Nothing
            } else {
                let c = t@[0];
                if c == 'l' || c == 'L' {
                    PinWindowCommand::ToggleLock
                } else if c == '[' {
                    PinWindowCommand::OpacityDown
                } else if c == ']' {
                    PinWindowCommand::OpacityUp
                } else if c == 'o' || c == 'O' {
                    PinWindowCommand::Ocr
                } else if c == 't' || c == 'T' {
                    PinWindowCommand::ToggleOcrBoxes
                } else {
                    PinWindowCommand::Nothing
                }
            },
            _ => PinWindowCommand::Nothing,
        }
    }
}

pub fn pin_window_key(control: bool, logical: &LogicalKey, physical: PhysicalKey) -> (cmd:
    PinWindowCommand)
    ensures
        cmd == pin_window_command(control, *logical, physical),
{
    if control && physical == PhysicalKey::KeyQ {
        return PinWindowCommand::Quit;
    }
    let f3 = match logical {
        LogicalKey::F3 => true,
        _ => false,
    };
    if f3 || physical == PhysicalKey::F3 {
        return PinWindowCommand::FullDisplayCapture;
    }
    let f2 = match logical {
        LogicalKey::F2 => true,
        _ => false,
    };
    if f2 || physical == PhysicalKey::F2 || (control && physical == PhysicalKey::KeyN) {
        return PinWindowCommand::NewCapture;
    }
    match logical {
        LogicalKey::Escape => PinWindowCommand::ClosePin,
        LogicalKey::Character(t) => {
            let chars = chars_of(t.as_str());
            if chars.len() != 1 {
                return PinWindowCommand::Nothing;
            }
            let c = chars[0];
            if c == 'l' || c == 'L' {
                PinWindowCommand::ToggleLock
            } else if c == '[' {
                PinWindowCommand::OpacityDown
            } else if c == ']' {
                PinWindowCommand::OpacityUp
            } else if c == 'o' || c == 'O' {
                PinWindowCommand::Ocr
            } else if c == 't' || c == 'T' {
                PinWindowCommand::ToggleOcrBoxes
            } else {
                PinWindowCommand::Nothing
            }
        },
        _ => PinWindowCommand::Nothing,
    }
}

/// What a left press on a pin does, given what its open context menu (if any) says of the
/// cursor: the enabled item under it, and whether the menu covers it.
#[derive(Debug, Clone, Copy, PartialEq, Eq, Structural)]
pub enum PinLeftPress {
    /// No menu is open: the press goes to the pin (drag, text selection).
    Pin,
    /// Run the menu item.
    MenuAction(PinMenuAction),
    /// A disabled item or the menu's padding: nothing happens, and the pin is not dragged.
    Ignore,
    /// A press outside the open menu closes it.
    CloseMenu,
}

pub fn pin_left_press(menu_hit: Option<(Option<PinMenuAction>, bool)>) -> (p: PinLeftPress)
    ensures
        p == (match menu_hit {
            None => PinLeftPress::Pin,
            Some((Some(a), _)) => PinLeftPress::MenuAction(a),
            Some((None, true)) => PinLeftPress::Ignore,
            Some((None, false)) => PinLeftPress::CloseMenu,
        }),
{
    match menu_hit {
        None => PinLeftPress::Pin,
        Some((Some(a), _)) => PinLeftPress::MenuAction(a),
        Some((None, true)) => PinLeftPress::Ignore,
        Some((None, false)) => PinLeftPress::CloseMenu,
    }
}

} // verus!
