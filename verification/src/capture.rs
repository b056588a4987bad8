//! Screen capture back ends: which one is in use, how they are named, and the text handling
//! around the KDE one (session detection, terminal colour codes, the desktop origin).
//! Spawning `spectacle`, reading its PNG and asking xcap for monitors happen outside.

use crate::desktop_shell::DisplayBounds;
use crate::geometry::PixelRect;
use crate::history_browser::{occurs, occurs_in};
use crate::text::{chars_of, push_char};
use vstd::prelude::*;

verus! {

/// The capture back end in use.
#[derive(Debug, Clone, Copy, PartialEq, Eq, Structural)]
pub enum CaptureBackendKind {
    Xcap,
    Fake,
    Kde,
    Unavailable,
}

/// The stable name of a back end, as diagnostics print it.
pub open spec fn backend_name(kind: CaptureBackendKind) -> Seq<char> {
    match kind {
        CaptureBackendKind::Xcap => "xcap"@,
        CaptureBackendKind::Fake => "fake"@,
        CaptureBackendKind::Kde => "kde-spectacle"@,
        CaptureBackendKind::Unavailable => "unavailable"@,
    }
}

impl CaptureBackendKind {
    pub fn as_str(self) -> (s: &'static str)
        ensures
            s@ == backend_name(self),
    {
        match self {
            CaptureBackendKind::Xcap => "xcap",
            CaptureBackendKind::Fake => "fake",
            CaptureBackendKind::Kde => "kde-spectacle",
            CaptureBackendKind::Unavailable => "unavailable",
        }
    }
}

/// The KDE back end: captures go through the `spectacle` program found at this path.
#[derive(Debug, Clone)]
pub struct KdeSpectacleCaptureProvider {
    pub spectacle_bin: String,
}

impl KdeSpectacleCaptureProvider {
    pub fn new(spectacle_bin: String) -> (p: KdeSpectacleCaptureProvider)
        ensures
            p.spectacle_bin@ == spectacle_bin@,
    {
        KdeSpectacleCaptureProvider { spectacle_bin }
    }
}

/// The xcap back end; it holds no state.
#[derive(Debug, Default, Clone, Copy)]
pub struct XcapCaptureProvider;

impl XcapCaptureProvider {
    pub fn new() -> (p: XcapCaptureProvider) {
        XcapCaptureProvider
    }
}

pub const ESC: char = '\u{1b}';

pub open spec fn is_ascii_alpha(c: char) -> bool {
    ('a' <= c && c <= 'z') || ('A' <= c && c <= 'Z')
}

/// Where a colour-code scan stands: in plain text, just after an escape character, or inside
/// an `ESC [` sequence that runs up to its first ASCII letter.
pub enum AnsiState {
    Plain,
    Escape,
    Sequence,
}

/// The characters of `s` from position `i` on that survive colour-code removal, starting in
/// state `st`. An escape character is always dropped; after it, `[` opens a sequence that is
/// dropped up to and including its first ASCII letter (or the end of the text); any other
/// character after an escape is read as plain text.
pub open spec fn ansi_kept(s: Seq<char>, i: int, st: AnsiState) -> Seq<char>
    decreases s.len() - i,
{
    if i < 0 || i >= s.len() {
        Seq::empty()
    } else {
        match st {
            AnsiState::Sequence => if is_ascii_alpha(s[i]) {
                ansi_kept(s, i + 1, AnsiState::Plain)
            } else {
                ansi_kept(s, i + 1, AnsiState::Sequence)
            },
            AnsiState::Escape => if s[i] == '[' {
                ansi_kept(s, i + 1, AnsiState::Sequence)
            } else if s[i] == ESC {
                ansi_kept(s, i + 1, AnsiState::Escape)
            } else {
                seq![s[i]] + ansi_kept(s, i + 1, AnsiState::Plain)
            },
            AnsiState::Plain => if s[i] == ESC {
                ansi_kept(s, i + 1, AnsiState::Escape)
            } else {
                seq![s[i]] + ansi_kept(s, i + 1, AnsiState::Plain)
            },
        }
    }
}

pub open spec fn strip_ansi_text(s: Seq<char>) -> Seq<char> {
    ansi_kept(s, 0, AnsiState::Plain)
}

/// Removes the terminal colour codes that `kscreen-doctor` prints by default.
pub fn strip_ansi(s: &str) -> (out: String)
    ensures
        out@ == strip_ansi_text(s@),
{
    let chars = chars_of(s);
    let mut out = String::new();
    let mut st = AnsiState::Plain;
    let mut i: usize = 0;
    while i < chars.len()
        invariant
            i <= chars@.len(),
            chars@ == s@,
            out@ + ansi_kept(chars@, i as int, st) == strip_ansi_text(s@),
        decreases chars@.len() - i,
    {
        let c = chars[i];
        let ghost before = out@;
        match st {
            AnsiState::Sequence => {
                if ('a' <= c && c <= 'z') || ('A' <= c && c <= 'Z') {
                    st = AnsiState::Plain;
                }
            },
            AnsiState::Escape => {
                if c == '[' {
                    st = AnsiState::Sequence;
                } else if c == ESC {
                    st = AnsiState::Escape;
                } else {
                    push_char(&mut out, c);
                    st = AnsiState::Plain;
                    assert(out@ + ansi_kept(chars@, i + 1, st) =~= before + (seq![c]
                        + ansi_kept(chars@, i + 1, st)));
                }
            },
            AnsiState::Plain => {
                if c == ESC {
                    st = AnsiState::Escape;
                } else {
                    push_char(&mut out, c);
                    assert(out@ + ansi_kept(chars@, i + 1, st) =~= before + (seq![c]
                        + ansi_kept(chars@, i + 1, st)));
                }
            },
        }
        i += 1;
    }
    assert(ansi_kept(chars@, i as int, st) =~= Seq::<char>::empty());
    assert(out@ + Seq::<char>::empty() =~= out@);
    out
}

proof fn lemma_kept_has_no_escape(s: Seq<char>, i: int, st: AnsiState)
    ensures
        forall|k: int| 0 <= k < ansi_kept(s, i, st).len() ==> ansi_kept(s, i, st)[k] != ESC,
    decreases s.len() - i,
{
    if 0 <= i < s.len() {
        let next = if st is Sequence {
            if is_ascii_alpha(s[i]) {
                AnsiState::Plain
            } else {
                AnsiState::Sequence
            }
        } else if s[i] == ESC {
            AnsiState::Escape
        } else if st is Escape && s[i] == '[' {
            AnsiState::Sequence
        } else {
            AnsiState::Plain
        };
        lemma_kept_has_no_escape(s, i + 1, next);
        let rest = ansi_kept(s, i + 1, next);
        let pushes = !(st is Sequence) && s[i] != ESC && !(st is Escape && s[i] == '[');
        if pushes {
            assert(ansi_kept(s, i, st) == seq![s[i]] + rest);
            assert forall|k: int| 0 <= k < ansi_kept(s, i, st).len() implies ansi_kept(
                s,
                i,
                st,
            )[k] != ESC by {
                if k > 0 {
                    assert(ansi_kept(s, i, st)[k] == rest[k - 1]);
                }
            }
        } else {
            assert(ansi_kept(s, i, st) == rest);
        }
    }
}

/// Colour-code removal leaves no escape character behind.
pub proof fn stripped_text_has_no_escape(s: Seq<char>)
    ensures
        forall|k: int| 0 <= k < strip_ansi_text(s).len() ==> strip_ansi_text(s)[k] != ESC,
{
    lemma_kept_has_no_escape(s, 0, AnsiState::Plain);
}

proof fn lemma_plain_kept(s: Seq<char>, i: int)
    requires
        0 <= i <= s.len(),
        forall|k: int| 0 <= k < s.len() ==> s[k] != ESC,
    ensures
        ansi_kept(s, i, AnsiState::Plain) == s.subrange(i, s.len() as int),
    decreases s.len() - i,
{
    if i < s.len() {
        lemma_plain_kept(s, i + 1);
        assert(seq![s[i]] + s.subrange(i + 1, s.len() as int) =~= s.subrange(i, s.len() as int));
    } else {
        assert(s.subrange(i, s.len() as int) =~= Seq::<char>::empty());
    }
}

/// Text without escape characters comes out of colour-code removal unchanged.
pub proof fn plain_text_is_kept_whole(s: Seq<char>)
    requires
        forall|k: int| 0 <= k < s.len() ==> s[k] != ESC,
    ensures
        strip_ansi_text(s) == s,
{
    lemma_plain_kept(s, 0);
    assert(s.subrange(0, s.len() as int) =~= s);
}

/// The ASCII upper case of `c`.
pub open spec fn ascii_upper(c: char) -> char {
    if 'a' <= c && c <= 'z' {
        ((c as u32) - 32) as char
    } else {
        c
    }
}

pub open spec fn upper_text(s: Seq<char>) -> Seq<char> {
    s.map_values(|c: char| ascii_upper(c))
}

/// A KDE session: the desktop name and the session name, joined by `;` and upper-cased,
/// mention `KDE` or `PLASMA`.
pub open spec fn kde_session(desktop: Seq<char>, session: Seq<char>) -> bool {
    let joined = upper_text(desktop + seq![';'] + session);
    occurs_in(joined, "KDE"@) || occurs_in(joined, "PLASMA"@)
}

fn upper_char(c: char) -> (u: char)
    ensures
        u == ascii_upper(c),
{
    if 'a' <= c && c <= 'z' {
        let code: u8 = (c as u8) - 32;
        code as char
    } else {
        c
    }
}

fn push_upper(out: &mut Vec<char>, s: &str)
    ensures
        final(out)@ == old(out)@ + upper_text(s@),
{
    let chars = chars_of(s);
    let mut i: usize = 0;
    while i < chars.len()
        invariant
            i <= chars@.len(),
            chars@ == s@,
            out@ == old(out)@ + upper_text(s@.subrange(0, i as int)),
        decreases chars@.len() - i,
    {
        out.push(upper_char(chars[i]));
        assert(upper_text(s@.subrange(0, i + 1)) =~= upper_text(s@.subrange(0, i as int)).push(
            ascii_upper(chars@[i as int]),
        ));
        i += 1;
    }
    assert(s@.subrange(0, s@.len() as int) =~= s@);
}

/// Whether the desktop and session names (`XDG_CURRENT_DESKTOP`, `DESKTOP_SESSION`, read by
/// the caller) name a KDE Plasma session.
pub fn is_kde_session(desktop: &str, session: &str) -> (b: bool)
    ensures
        b == kde_session(desktop@, session@),
{
    let mut joined: Vec<char> = Vec::new();
    push_upper(&mut joined, desktop);
    joined.push(';');
    push_upper(&mut joined, session);
    assert(joined@ =~= upper_text(desktop@ + seq![';'] + session@));
    let kde = chars_of("KDE");
    let plasma = chars_of("PLASMA");
    occurs(&joined, &kde) || occurs(&joined, &plasma)
}

/// The top-left corner of the whole desktop: the least left edge and the least top edge
/// over all displays, or `(0, 0)` where there is none.
pub open spec fn is_workspace_origin(displays: Seq<DisplayBounds>, origin: (i32, i32)) -> bool {
    if displays.len() == 0 {
        origin == (0i32, 0i32)
    } else {
        &&& forall|i: int|
            0 <= i < displays.len() ==> origin.0 <= #[trigger] displays[i].bounds.origin.x
                && origin.1 <= displays[i].bounds.origin.y
        &&& exists|i: int| 0 <= i < displays.len() && #[trigger] displays[i].bounds.origin.x == origin.0
        &&& exists|i: int| 0 <= i < displays.len() && #[trigger] displays[i].bounds.origin.y == origin.1
    }
}

/// The top-left corner of the desktop that all displays together cover.
pub fn workspace_origin(displays: &Vec<DisplayBounds>) -> (origin: (i32, i32))
    ensures
        is_workspace_origin(displays@, origin),
{
    if displays.len() == 0 {
        return (0, 0);
    }
    let mut x = displays[0].bounds.origin.x;
    let mut y = displays[0].bounds.origin.y;
    let ghost mut ix: int = 0;
    let ghost mut iy: int = 0;
    let mut i: usize = 1;
    while i < displays.len()
        invariant
            1 <= i <= displays@.len(),
            0 <= ix < i,
            0 <= iy < i,
            displays@[ix].bounds.origin.x == x,
            displays@[iy].bounds.origin.y == y,
            forall|k: int|
                0 <= k < i ==> x <= #[trigger] displays@[k].bounds.origin.x && y
                    <= displays@[k].bounds.origin.y,
        decreases displays@.len() - i,
    {
        if displays[i].bounds.origin.x < x {
            x = displays[i].bounds.origin.x;
            proof {
                ix = i as int;
            }
        }
        if displays[i].bounds.origin.y < y {
            y = displays[i].bounds.origin.y;
            proof {
                iy = i as int;
            }
        }
        i += 1;
    }
    assert(displays@[ix].bounds.origin.x == x);
    assert(displays@[iy].bounds.origin.y == y);
    (x, y)
}

/// How much `spectacle` captures.
#[derive(Debug, Clone, Copy, PartialEq, Eq, Structural)]
pub enum SpectacleScope {
    /// The current monitor (`-m`), quicker than the whole desktop.
    Monitor,
    /// The whole desktop, all screens (`-f`).
    Workspace,
}

/// A full-display capture that covers exactly its display's bounds takes the quick
/// current-monitor path; a region, or anything that needs desktop coordinates, captures the
/// whole desktop.
pub fn spectacle_scope(full_display_request: bool, rect: PixelRect, display_bounds: PixelRect) -> (s:
    SpectacleScope)
    ensures
        s == (if full_display_request && rect == display_bounds {
            SpectacleScope::Monitor
        } else {
            SpectacleScope::Workspace
        }),
{
    if full_display_request && rect == display_bounds {
        SpectacleScope::Monitor
    } else {
        SpectacleScope::Workspace
    }
}

pub open spec fn scope_flag(scope: SpectacleScope) -> Seq<char> {
    match scope {
        SpectacleScope::Monitor => "-m"@,
        SpectacleScope::Workspace => "-f"@,
    }
}

/// The arguments before the output path: in the background (`-b`), without a notification
/// (`-n`), the scope's flag, then `-o` for the output file.
pub fn spectacle_args(scope: SpectacleScope) -> (args: Vec<&'static str>)
    ensures
        args@.len() == 4,
        args@[0]@ == "-b"@,
        args@[1]@ == "-n"@,
        args@[2]@ == scope_flag(scope),
        args@[3]@ == "-o"@,
{
    let flag = match scope {
        SpectacleScope::Monitor => "-m",
        SpectacleScope::Workspace => "-f",
    };
    vec!["-b", "-n", flag, "-o"]
}

/// The part of a whole-desktop image (`width`×`height`, its top-left corner at `origin` in
/// desktop coordinates) that a capture of `rect` keeps, in image coordinates; `None` where
/// it keeps the whole image.
pub fn workspace_crop(rect: PixelRect, origin: (i32, i32), width: u32, height: u32) -> (c: Option<
    PixelRect,
>)
    requires
        i32::MIN <= rect.origin.x - origin.0 <= i32::MAX,
        i32::MIN <= rect.origin.y - origin.1 <= i32::MAX,
    ensures
        ({
            let x = rect.origin.x - origin.0;
            let y = rect.origin.y - origin.1;
            if x == 0 && y == 0 && rect.size.width == width && rect.size.height == height {
                c is None
            } else {
                c == Some(PixelRect::rect(x, y, rect.size.width as int, rect.size.height as int))
            }
        }),
{
    let x = rect.origin.x - origin.0;
    let y = rect.origin.y - origin.1;
    if x == 0 && y == 0 && rect.size.width == width && rect.size.height == height {
        None
    } else {
        Some(PixelRect::new(x, y, rect.size.width, rect.size.height))
    }
}

} // verus!
