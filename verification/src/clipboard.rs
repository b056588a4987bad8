//! The system clipboard on Linux: which helper program takes the data (`wl-copy`, `xclip` or
//! `xsel`, in that order of preference) and with which arguments. Looking the programs up on
//! `PATH` and piping the bytes into them happen outside.

use vstd::prelude::*;

verus! {

/// A helper program that writes the system clipboard.
#[derive(Debug, Clone, Copy, PartialEq, Eq, Structural)]
pub enum ClipboardTool {
    WlCopy,
    Xclip,
    Xsel,
}

/// What goes to the clipboard.
#[derive(Debug, Clone, Copy, PartialEq, Eq, Structural)]
pub enum ClipboardContent {
    Text,
    Png,
}

pub open spec fn tool_name(t: ClipboardTool) -> Seq<char> {
    match t {
        ClipboardTool::WlCopy => "wl-copy"@,
        ClipboardTool::Xclip => "xclip"@,
        ClipboardTool::Xsel => "xsel"@,
    }
}

impl ClipboardTool {
    /// The program's name, as it is looked up on `PATH` and reported.
    pub fn name(self) -> (s: &'static str)
        ensures
            s@ == tool_name(self),
    {
        match self {
            ClipboardTool::WlCopy => "wl-copy",
            ClipboardTool::Xclip => "xclip",
            ClipboardTool::Xsel => "xsel",
        }
    }
}

/// The preferred tool among those found: `wl-copy`, then `xclip`, then `xsel`.
pub open spec fn preferred_tool(wl_copy_found: bool, xclip_found: bool, xsel_found: bool) -> Option<
    ClipboardTool,
> {
    if wl_copy_found {
        Some(ClipboardTool::WlCopy)
    } else if xclip_found {
        Some(ClipboardTool::Xclip)
    } else if xsel_found {
        Some(ClipboardTool::Xsel)
    } else {
        None
    }
}

fn pick_tool(wl_copy_found: bool, xclip_found: bool, xsel_found: bool) -> (t: Option<
    ClipboardTool,
>)
    ensures
        t == preferred_tool(wl_copy_found, xclip_found, xsel_found),
{
    if wl_copy_found {
        Some(ClipboardTool::WlCopy)
    } else if xclip_found {
        Some(ClipboardTool::Xclip)
    } else if xsel_found {
        Some(ClipboardTool::Xsel)
    } else {
        None
    }
}

/// The name of the clipboard helper that would be used, given which of them were found on
/// `PATH`; `None` where none was.
pub fn detect_system_clipboard_backend(
    wl_copy_found: bool,
    xclip_found: bool,
    xsel_found: bool,
) -> (name: Option<&'static str>)
    ensures
        match preferred_tool(wl_copy_found, xclip_found, xsel_found) {
            Some(t) => name matches Some(n) && n@ == tool_name(t),
            None => name is None,
        },
{
    match pick_tool(wl_copy_found, xclip_found, xsel_found) {
        Some(t) => Some(t.name()),
        None => None,
    }
}

pub open spec fn mime_type(c: ClipboardContent) -> Seq<char> {
    match c {
        ClipboardContent::Text => "text/plain"@,
        ClipboardContent::Png => "image/png"@,
    }
}

/// The arguments that make a tool read the clipboard content from its standard input.
pub open spec fn tool_args(t: ClipboardTool, c: ClipboardContent) -> Seq<Seq<char>> {
    match t {
        ClipboardTool::WlCopy => seq!["--type"@, mime_type(c)],
        ClipboardTool::Xclip => seq!["-selection"@, "clipboard"@, "-t"@, mime_type(c), "-i"@],
        ClipboardTool::Xsel => seq!["--clipboard"@, "--input"@],
    }
}

fn mime(c: ClipboardContent) -> (s: &'static str)
    ensures
        s@ == mime_type(c),
{
    match c {
        ClipboardContent::Text => "text/plain",
        ClipboardContent::Png => "image/png",
    }
}

/// A helper program to run, with its arguments.
#[derive(Debug, Clone)]
pub struct ClipboardCommand {
    pub tool: ClipboardTool,
    pub args: Vec<&'static str>,
}

pub open spec fn args_of(args: Seq<&'static str>) -> Seq<Seq<char>> {
    args.map_values(|a: &'static str| a@)
}

pub const DISABLED_MESSAGE: &'static str = "disabled by PINORA_NO_SYSTEM_CLIPBOARD";

pub const NO_TOOL_MESSAGE: &'static str = "no wl-copy/xclip/xsel in PATH";

/// Which program receives `content` for the system clipboard, and how: refused when the user
/// switched the system clipboard off (`PINORA_NO_SYSTEM_CLIPBOARD`), else the preferred tool
/// found, else an error. The caller pipes the bytes into the command and, where it succeeds,
/// reports the tool's name.
pub fn clipboard_command(
    content: ClipboardContent,
    disabled: bool,
    wl_copy_found: bool,
    xclip_found: bool,
    xsel_found: bool,
) -> (r: Result<ClipboardCommand, String>)
    ensures
        disabled ==> (r matches Err(e) && e@ == DISABLED_MESSAGE@),
        !disabled ==> match preferred_tool(wl_copy_found, xclip_found, xsel_found) {
            Some(t) => r matches Ok(cmd) && cmd.tool == t && args_of(cmd.args@) == tool_args(
                t,
                content,
            ),
            None => r matches Err(e) && e@ == NO_TOOL_MESSAGE@,
        },
{
    if disabled {
        return Err(DISABLED_MESSAGE.to_owned());
    }
    let tool = match pick_tool(wl_copy_found, xclip_found, xsel_found) {
        Some(t) => t,
        None => {
            return Err(NO_TOOL_MESSAGE.to_owned());
        },
    };
    let mut args: Vec<&'static str> = Vec::new();
    match tool {
        ClipboardTool::WlCopy => {
            args.push("--type");
            args.push(mime(content));
        },
        ClipboardTool::Xclip => {
            args.push("-selection");
            args.push("clipboard");
            args.push("-t");
            args.push(mime(content));
            args.push("-i");
        },
        ClipboardTool::Xsel => {
            args.push("--clipboard");
            args.push("--input");
        },
    }
    assert(args_of(args@) =~= tool_args(tool, content));
    Ok(ClipboardCommand { tool, args })
}

/// The command that puts plain text (such as recognised OCR text) on the system clipboard.
pub fn copy_text_to_system_clipboard(
    disabled: bool,
    wl_copy_found: bool,
    xclip_found: bool,
    xsel_found: bool,
) -> (r: Result<ClipboardCommand, String>)
    ensures
        disabled ==> (r matches Err(e) && e@ == DISABLED_MESSAGE@),
        !disabled ==> match preferred_tool(wl_copy_found, xclip_found, xsel_found) {
            Some(t) => r matches Ok(cmd) && cmd.tool == t && args_of(cmd.args@) == tool_args(
                t,
                ClipboardContent::Text,
            ),
            None => r matches Err(e) && e@ == NO_TOOL_MESSAGE@,
        },
{
    clipboard_command(ClipboardContent::Text, disabled, wl_copy_found, xclip_found, xsel_found)
}

} // verus!
