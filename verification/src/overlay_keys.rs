//! What a key press on the capture overlay asks for: editing the text being typed, undo and
//! redo, moving the selection, the stroke colour and width, shape fill, and the tool keys.
//! The caller applies the command to the overlay and redraws. Escape, Enter and Space are
//! decided first, by the overlay window.

use crate::annotate::AnnotateTool;
use crate::desktop_shell::{annotation_history_action, history_shortcut, AnnotationHistoryAction};
use crate::text::chars_of;
use vstd::prelude::*;

verus! {

/// A key as the overlay sees it.
#[derive(Debug, Clone, PartialEq, Eq)]
pub enum OverlayKey {
    Backspace,
    ArrowLeft,
    ArrowRight,
    ArrowUp,
    ArrowDown,
    /// A key that produces text, with that text.
    Character(String),
    Other,
}

/// The modifier keys held during a key press.
#[derive(Debug, Clone, Copy, PartialEq, Eq, Structural)]
pub struct KeyModifiers {
    pub shift: bool,
    pub control: bool,
    pub alt: bool,
}

/// What the overlay does with a key press.
#[derive(Debug, Clone, Copy, PartialEq, Eq, Structural)]
pub enum OverlayKeyCommand {
    /// Delete the last character of the text being typed.
    TextBackspace,
    /// Append the key's text to the text being typed.
    TextPush,
    /// Undo or redo an annotation.
    History(AnnotationHistoryAction),
    /// Move the selection by this many pixels.
    Nudge(i32, i32),
    CycleColor,
    StrokeUp,
    StrokeDown,
    ToggleShapeFill,
    SetTool(AnnotateTool),
    Nothing,
}

/// A control character (`char::is_control`: general category Cc).
pub open spec fn is_control_char(c: char) -> bool {
    let u = c as u32;
    u <= 0x1f || (0x7f <= u && u <= 0x9f)
}

pub open spec fn has_control_char(t: Seq<char>) -> bool {
    exists|i: int| 0 <= i < t.len() && is_control_char(#[trigger] t[i])
}

/// The tool that a single-character key selects.
pub open spec fn tool_key(c: char) -> Option<AnnotateTool> {
    if c == '1' || c == 'r' || c == 'R' {
        Some(AnnotateTool::Rect)
    } else if c == 'q' || c == 'Q' {
        Some(AnnotateTool::RoundedRect)
    } else if c == 'l' || c == 'L' {
        Some(AnnotateTool::Line)
    } else if c == '2' || c == 'a' || c == 'A' {
        Some(AnnotateTool::Arrow)
    } else if c == '3' {
        Some(AnnotateTool::Pen)
    } else if c == '4' || c == 'e' || c == 'E' {
        Some(AnnotateTool::Ellipse)
    } else if c == 'n' || c == 'N' {
        Some(AnnotateTool::Number)
    } else if c == '5' || c == 'm' || c == 'M' {
        Some(AnnotateTool::Mosaic)
    } else if c == 'b' || c == 'B' {
        Some(AnnotateTool::Blur)
    } else if c == '6' || c == 't' || c == 'T' {
        Some(AnnotateTool::Text)
    } else if c == 'i' || c == 'I' {
        Some(AnnotateTool::ColorPicker)
    } else {
        None
    }
}

/// The command of a text key outside text editing and the undo/redo shortcuts. Colour, width
/// and fill keys work only once the selection is ready (colour and fill not with Ctrl); the
/// tool keys work in every phase.
pub open spec fn character_command(t: Seq<char>, m: KeyModifiers, ready: bool) -> OverlayKeyCommand {
    if t.len() != 1 {
        OverlayKeyCommand::Nothing
    } else {
        let c = t[0];
        if (c == 'c' || c == 'C') && !m.control && ready {
            OverlayKeyCommand::CycleColor
        } else if (c == '+' || c == '=') && ready {
            OverlayKeyCommand::StrokeUp
        } else if (c == '-' || c == '_') && ready {
            OverlayKeyCommand::StrokeDown
        } else if (c == 'f' || c == 'F') && !m.control && ready {
            OverlayKeyCommand::ToggleShapeFill
        } else {
            match tool_key(c) {
                Some(tool) => OverlayKeyCommand::SetTool(tool),
                None => OverlayKeyCommand::Nothing,
            }
        }
    }
}

/// The command of a key press. While text is being typed on a ready overlay, Backspace edits
/// it and a text key without Ctrl or Alt and without control characters is typed. Else, on a
/// ready overlay, the undo/redo shortcuts apply. Else the arrows move the selection (ten pixels
/// with Shift, one without) and text keys go by `character_command`.
pub open spec fn overlay_key_command(
    m: KeyModifiers,
    ready: bool,
    text_editing: bool,
    key: OverlayKey,
) -> OverlayKeyCommand {
    let step: i32 = if m.shift {
        10
    } else {
        1
    };
    match key {
        OverlayKey::Backspace => if ready && text_editing {
            OverlayKeyCommand::TextBackspace
        } else {
            OverlayKeyCommand::Nothing
        },
        OverlayKey::Character(t) => if ready && text_editing && !m.control && !m.alt
            && !has_control_char(t@) {
            OverlayKeyCommand::TextPush
        } else if ready && history_shortcut(m.control, m.shift, t@) is Some {
            OverlayKeyCommand::History(history_shortcut(m.control, m.shift, t@).unwrap())
        } else {
            character_command(t@, m, ready)
        },
        OverlayKey::ArrowLeft => OverlayKeyCommand::Nudge((-step) as i32, 0),
        OverlayKey::ArrowRight => OverlayKeyCommand::Nudge(step, 0),
        OverlayKey::ArrowUp => OverlayKeyCommand::Nudge(0, (-step) as i32),
        OverlayKey::ArrowDown => OverlayKeyCommand::Nudge(0, step),
        OverlayKey::Other => OverlayKeyCommand::Nothing,
    }
}

fn control_char(c: char) -> (b: bool)
    ensures
        b == is_control_char(c),
{
    let u = c as u32;
    u <= 0x1f || (0x7f <= u && u <= 0x9f)
}

fn any_control_char(t: &str) -> (b: bool)
    ensures
        b == has_control_char(t@),
{
    let chars = chars_of(t);
    let mut i: usize = 0;
    while i < chars.len()
        invariant
            i <= chars@.len(),
            chars@ == t@,
            forall|k: int| 0 <= k < i ==> !is_control_char(#[trigger] chars@[k]),
        decreases chars@.len() - i,
    {
        if control_char(chars[i]) {
            return true;
        }
        i += 1;
    }
    false
}

fn tool_for_key(c: char) -> (t: Option<AnnotateTool>)
    ensures
        t == tool_key(c),
{
    if c == '1' || c == 'r' || c == 'R' {
        Some(AnnotateTool::Rect)
    } else if c == 'q' || c == 'Q' {
        Some(AnnotateTool::RoundedRect)
    } else if c == 'l' || c == 'L' {
        Some(AnnotateTool::Line)
    } else if c == '2' || c == 'a' || c == 'A' {
        Some(AnnotateTool::Arrow)
    } else if c == '3' {
        Some(AnnotateTool::Pen)
    } else if c == '4' || c == 'e' || c == 'E' {
        Some(AnnotateTool::Ellipse)
    } else if c == 'n' || c == 'N' {
        Some(AnnotateTool::Number)
    } else if c == '5' || c == 'm' || c == 'M' {
        Some(AnnotateTool::Mosaic)
    } else if c == 'b' || c == 'B' {
        Some(AnnotateTool::Blur)
    } else if c == '6' || c == 't' || c == 'T' {
        Some(AnnotateTool::Text)
    } else if c == 'i' || c == 'I' {
        Some(AnnotateTool::ColorPicker)
    } else {
        None
    }
}

fn character_key_command(t: &str, m: KeyModifiers, ready: bool) -> (cmd: OverlayKeyCommand)
    ensures
        cmd == character_command(t@, m, ready),
{
    let chars = chars_of(t);
    if chars.len() != 1 {
        return OverlayKeyCommand::Nothing;
    }
    let c = chars[0];
    if (c == 'c' || c == 'C') && !m.control && ready {
        OverlayKeyCommand::CycleColor
    } else if (c == '+' || c == '=') && ready {
        OverlayKeyCommand::StrokeUp
    } else if (c == '-' || c == '_') && ready {
        OverlayKeyCommand::StrokeDown
    } else if (c == 'f' || c == 'F') && !m.control && ready {
        OverlayKeyCommand::ToggleShapeFill
    } else {
        match tool_for_key(c) {
            Some(tool) => OverlayKeyCommand::SetTool(tool),
            None => OverlayKeyCommand::Nothing,
        }
    }
}

/// What the overlay does with a key press, given the held modifiers, whether the selection is
/// ready for annotation and whether text is being typed.
pub fn handle_overlay_key(
    modifiers: KeyModifiers,
    ready: bool,
    text_editing: bool,
    key: &OverlayKey,
) -> (cmd: OverlayKeyCommand)
    ensures
        cmd == overlay_key_command(modifiers, ready, text_editing, *key),
{
    let step: i32 = if modifiers.shift {
        10
    } else {
        1
    };
    if ready && text_editing {
        match key {
            OverlayKey::Backspace => {
                return OverlayKeyCommand::TextBackspace;
            },
            OverlayKey::Character(t) => {
                if !modifiers.control && !modifiers.alt && !any_control_char(t.as_str()) {
                    return OverlayKeyCommand::TextPush;
                }
            },
            _ => {},
        }
    }
    if ready {
        match key {
            OverlayKey::Character(t) => {
                match annotation_history_action(modifiers.control, modifiers.shift, t.as_str()) {
                    Some(action) => {
                        return OverlayKeyCommand::History(action);
                    },
                    None => {},
                }
            },
            _ => {},
        }
    }
    match key {
        OverlayKey::ArrowLeft => OverlayKeyCommand::Nudge(-step, 0),
        OverlayKey::ArrowRight => OverlayKeyCommand::Nudge(step, 0),
        OverlayKey::ArrowUp => OverlayKeyCommand::Nudge(0, -step),
        OverlayKey::ArrowDown => OverlayKeyCommand::Nudge(0, step),
        OverlayKey::Character(t) => character_key_command(t.as_str(), modifiers, ready),
        _ => OverlayKeyCommand::Nothing,
    }
}

/// A key that the overlay window handles before its per-key commands.
#[derive(Debug, Clone, Copy, PartialEq, Eq, Structural)]
pub enum OverlayWindowKey {
    Escape,
    Enter,
    Space,
    Other,
}

/// What the overlay window does with a key press before its per-key commands.
#[derive(Debug, Clone, Copy, PartialEq, Eq, Structural)]
pub enum OverlayWindowKeyAction {
    /// Drop the annotation being drawn.
    CancelDraft,
    /// Close the overlay.
    CancelOverlay,
    /// Commit the text being typed.
    CommitText,
    /// Type a space into the text being typed.
    TypeSpace,
    /// Pin the selection.
    FinishPin,
    /// Hand the key to the per-key commands.
    PassOn,
}

pub open spec fn window_key_action(key: OverlayWindowKey, has_draft: bool, text_editing: bool) -> OverlayWindowKeyAction {
    match key {
        OverlayWindowKey::Escape => if has_draft {
            OverlayWindowKeyAction::CancelDraft
        } else {
            OverlayWindowKeyAction::CancelOverlay
        },
        OverlayWindowKey::Enter => if text_editing {
            OverlayWindowKeyAction::CommitText
        } else {
            OverlayWindowKeyAction::FinishPin
        },
        OverlayWindowKey::Space => if text_editing {
            OverlayWindowKeyAction::TypeSpace
        } else {
            OverlayWindowKeyAction::FinishPin
        },
        OverlayWindowKey::Other => OverlayWindowKeyAction::PassOn,
    }
}

/// Escape drops the annotation being drawn, else closes the overlay; Enter commits the text
/// being typed, else pins the selection; Space types a space into that text, else pins too.
/// Quitting and the capture shortcuts are decided before this.
pub fn overlay_window_key(key: OverlayWindowKey, has_draft: bool, text_editing: bool) -> (a:
    OverlayWindowKeyAction)
    ensures
        a == window_key_action(key, has_draft, text_editing),
{
    match key {
        OverlayWindowKey::Escape => if has_draft {
            OverlayWindowKeyAction::CancelDraft
        } else {
            OverlayWindowKeyAction::CancelOverlay
        },
        OverlayWindowKey::Enter => if text_editing {
            OverlayWindowKeyAction::CommitText
        } else {
            OverlayWindowKeyAction::FinishPin
        },
        OverlayWindowKey::Space => if text_editing {
            OverlayWindowKeyAction::TypeSpace
        } else {
            OverlayWindowKeyAction::FinishPin
        },
        OverlayWindowKey::Other => OverlayWindowKeyAction::PassOn,
    }
}

/// Whether committed input-method text is typed: only into text being typed on a ready
/// overlay, and only when there is some.
pub fn overlay_accepts_ime_text(ready: bool, text_editing: bool, text: &str) -> (b: bool)
    ensures
        b == (ready && text_editing && text@.len() > 0),
{
    ready && text_editing && !text.is_empty()
}

} // verus!
