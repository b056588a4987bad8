//! Global hotkeys: which pressed keys become capture actions, what the status notes say, and
//! the user-level desktop entry through which KDE can bind `pinora capture`. Registering keys
//! with the operating system and writing the file happen outside.

use crate::model::PinoraError;
use crate::text::push_text;
use vstd::prelude::*;

verus! {

/// What a hotkey asks the application to do.
#[derive(Debug, Clone, Copy, PartialEq, Eq, Hash, Structural)]
pub enum ActionId {
    CaptureRegionAndPin,
    CaptureFullDisplay,
    Quit,
}

/// A key combination bound to an action.
#[derive(Debug, Clone, PartialEq, Eq)]
pub struct KeyBinding {
    pub action: ActionId,
    pub accelerator: String,
}

impl KeyBinding {
    pub fn new(action: ActionId, accelerator: &str) -> (b: KeyBinding)
        ensures
            b.action == action,
            b.accelerator@ == accelerator@,
    {
        KeyBinding { action, accelerator: accelerator.to_owned() }
    }
}

/// Whether a hotkey event is a press or a release.
#[derive(Debug, Clone, Copy, PartialEq, Eq, Structural)]
pub enum KeyState {
    Pressed,
    Released,
}

/// The operating system the program was built for; it decides the wording of the notes and
/// whether a desktop entry is written.
#[derive(Debug, Clone, Copy, PartialEq, Eq, Structural)]
pub enum TargetPlatform {
    Linux,
    Windows,
    MacOs,
    Other,
}

/// Identifiers of the hotkeys that registered: F2 and Ctrl+N always, Ctrl+Shift+S and F3 when
/// their registration succeeded.
#[derive(Debug, Clone, Copy, PartialEq, Eq)]
pub struct RegisteredHotkeys {
    pub region_ids: [u32; 2],
    pub alternate_region_id: Option<u32>,
    pub full_display_id: Option<u32>,
}

/// Only presses of registered keys become actions: a region key asks for a region capture,
/// the F3 key for a full-display capture.
pub open spec fn action_for(reg: RegisteredHotkeys, id: u32, state: KeyState) -> Option<ActionId> {
    if state != KeyState::Pressed {
        None
    } else if reg.region_ids@[0] == id || reg.region_ids@[1] == id || reg.alternate_region_id
        == Some(id) {
        Some(ActionId::CaptureRegionAndPin)
    } else if reg.full_display_id == Some(id) {
        Some(ActionId::CaptureFullDisplay)
    } else {
        None
    }
}

impl RegisteredHotkeys {
    pub fn action_for_pressed_event(self, id: u32, state: KeyState) -> (a: Option<ActionId>)
        ensures
            a == action_for(self, id, state),
    {
        if state != KeyState::Pressed {
            return None;
        }
        if self.region_ids[0] == id || self.region_ids[1] == id || self.alternate_region_id == Some(
            id,
        ) {
            return Some(ActionId::CaptureRegionAndPin);
        }
        if self.full_display_id == Some(id) {
            Some(ActionId::CaptureFullDisplay)
        } else {
            None
        }
    }
}

/// The actions of a batch of events, in order.
pub open spec fn actions_of(reg: RegisteredHotkeys, events: Seq<(u32, KeyState)>) -> Seq<ActionId>
    decreases events.len(),
{
    if events.len() == 0 {
        Seq::empty()
    } else {
        let before = actions_of(reg, events.drop_last());
        match action_for(reg, events.last().0, events.last().1) {
            Some(a) => before.push(a),
            None => before,
        }
    }
}

/// `s` with each run of equal neighbours kept once.
pub open spec fn dedup(s: Seq<ActionId>) -> Seq<ActionId>
    decreases s.len(),
{
    if s.len() == 0 {
        Seq::empty()
    } else {
        let d = dedup(s.drop_last());
        if d.len() > 0 && d.last() == s.last() {
            d
        } else {
            d.push(s.last())
        }
    }
}

/// The actions that a batch of hotkey events asks for: presses of registered keys, with
/// repeats in a row kept once (several F2 presses in one frame make one capture).
pub fn pressed_actions(reg: RegisteredHotkeys, events: &Vec<(u32, KeyState)>) -> (out: Vec<
    ActionId,
>)
    ensures
        out@ == dedup(actions_of(reg, events@)),
{
    let mut out: Vec<ActionId> = Vec::new();
    let mut i: usize = 0;
    while i < events.len()
        invariant
            i <= events@.len(),
            out@ == dedup(actions_of(reg, events@.subrange(0, i as int))),
        decreases events@.len() - i,
    {
        let (id, state) = events[i];
        let ghost sub = events@.subrange(0, i + 1);
        assert(sub.drop_last() =~= events@.subrange(0, i as int));
        match reg.action_for_pressed_event(id, state) {
            Some(a) => {
                let ghost s = actions_of(reg, sub);
                assert(s.drop_last() =~= actions_of(reg, events@.subrange(0, i as int)));
                let n = out.len();
                if n == 0 || out[n - 1] != a {
                    out.push(a);
                }
            },
            None => {},
        }
        i += 1;
    }
    assert(events@.subrange(0, events@.len() as int) =~= events@);
    out
}

/// No two neighbours of `s` are equal.
pub open spec fn no_back_to_back(s: Seq<ActionId>) -> bool {
    forall|i: int| 0 <= i < s.len() - 1 ==> #[trigger] s[i] != s[i + 1]
}

proof fn lemma_dedup_no_repeats(s: Seq<ActionId>)
    ensures
        no_back_to_back(dedup(s)),
        s.len() > 0 ==> dedup(s).len() > 0 && dedup(s).last() == s.last(),
    decreases s.len(),
{
    if s.len() > 0 {
        let d = dedup(s.drop_last());
        lemma_dedup_no_repeats(s.drop_last());
        if !(d.len() > 0 && d.last() == s.last()) {
            let r = d.push(s.last());
            assert forall|i: int| 0 <= i < r.len() - 1 implies #[trigger] r[i] != r[i + 1] by {
                if i < d.len() - 1 {
                    assert(r[i] == d[i] && r[i + 1] == d[i + 1]);
                } else {
                    assert(r[i] == d.last());
                }
            }
        }
    }
}

/// The actions of one batch of hotkey events never repeat back to back.
pub proof fn batch_actions_never_repeat(reg: RegisteredHotkeys, events: Seq<(u32, KeyState)>)
    ensures
        no_back_to_back(dedup(actions_of(reg, events))),
{
    lemma_dedup_no_repeats(actions_of(reg, events));
}

/// Whether global hotkeys work, with notes for diagnostics.
#[derive(Debug, Clone)]
pub struct GlobalHotkeyStatus {
    pub available: bool,
    pub notes: Vec<String>,
}

pub open spec fn active_platform_text(p: TargetPlatform) -> Seq<char> {
    match p {
        TargetPlatform::Linux =>
            "global-hotkey backend: Linux X11; pure Wayland requires a system binding or future Portal adapter"@,
        TargetPlatform::Windows =>
            "global-hotkey backend: Windows native registration on the GUI event-loop thread"@,
        TargetPlatform::MacOs =>
            "global-hotkey backend: macOS native registration on the main GUI thread"@,
        TargetPlatform::Other => "global-hotkey backend: unsupported platform"@,
    }
}

pub open spec fn unavailable_platform_text(p: TargetPlatform) -> Seq<char> {
    match p {
        TargetPlatform::Linux =>
            "Linux Wayland needs a system binding or future Portal adapter; tray and IPC remain available"@,
        TargetPlatform::Windows => "Windows registration failed; tray and IPC remain available"@,
        TargetPlatform::MacOs => "macOS registration failed; tray and IPC remain available"@,
        TargetPlatform::Other =>
            "this platform has no supported global-hotkey backend; tray and IPC remain available"@,
    }
}

/// The note on the hotkey back end of a platform where registration worked.
pub fn active_platform_note(p: TargetPlatform) -> (s: &'static str)
    ensures
        s@ == active_platform_text(p),
{
    match p {
        TargetPlatform::Linux =>
            "global-hotkey backend: Linux X11; pure Wayland requires a system binding or future Portal adapter",
        TargetPlatform::Windows =>
            "global-hotkey backend: Windows native registration on the GUI event-loop thread",
        TargetPlatform::MacOs =>
            "global-hotkey backend: macOS native registration on the main GUI thread",
        TargetPlatform::Other => "global-hotkey backend: unsupported platform",
    }
}

/// The note on what still works on a platform where registration failed.
pub fn unavailable_platform_note(p: TargetPlatform) -> (s: &'static str)
    ensures
        s@ == unavailable_platform_text(p),
{
    match p {
        TargetPlatform::Linux =>
            "Linux Wayland needs a system binding or future Portal adapter; tray and IPC remain available",
        TargetPlatform::Windows => "Windows registration failed; tray and IPC remain available",
        TargetPlatform::MacOs => "macOS registration failed; tray and IPC remain available",
        TargetPlatform::Other =>
            "this platform has no supported global-hotkey backend; tray and IPC remain available",
    }
}

pub open spec fn notes_of(notes: Seq<String>) -> Seq<Seq<char>> {
    notes.map_values(|n: String| n@)
}

fn text_of(t: &str) -> (s: String)
    ensures
        s@ == t@,
{
    t.to_owned()
}

fn concat(a: &str, b: &str, c: &str) -> (s: String)
    ensures
        s@ == a@ + b@ + c@,
{
    let mut s = String::new();
    push_text(&mut s, a);
    push_text(&mut s, b);
    push_text(&mut s, c);
    assert(s@ =~= a@ + b@ + c@);
    s
}

/// The notes when hotkeys could not be registered at all.
pub open spec fn unavailable_notes(error: Seq<char>, p: TargetPlatform) -> Seq<Seq<char>> {
    seq![
        "global-hotkey unavailable: "@ + error,
        "fallback: use the tray menu or `pinora capture` IPC"@,
        unavailable_platform_text(p),
    ]
}

/// The status when registration failed with `error`: unavailable, with notes that point to the
/// tray menu and the `pinora capture` command.
pub fn unavailable_status(error: &str, p: TargetPlatform) -> (s: GlobalHotkeyStatus)
    ensures
        !s.available,
        notes_of(s.notes@) == unavailable_notes(error@, p),
{
    let mut notes: Vec<String> = Vec::new();
    notes.push(concat("global-hotkey unavailable: ", error, ""));
    notes.push(text_of("fallback: use the tray menu or `pinora capture` IPC"));
    notes.push(text_of(unavailable_platform_note(p)));
    proof {
        assert(("global-hotkey unavailable: "@ + error@ + ""@) =~= "global-hotkey unavailable: "@
            + error@) by {
            reveal_strlit("");
        }
    }
    assert(notes_of(notes@) =~= unavailable_notes(error@, p));
    GlobalHotkeyStatus { available: false, notes }
}

pub open spec fn optional_key_note(label: Seq<char>, error: Option<Seq<char>>) -> Seq<char> {
    match error {
        None => "global-hotkey: "@ + label + " registered"@,
        Some(e) => "global-hotkey: "@ + label + " unavailable ("@ + e + ")"@,
    }
}

/// The notes after F2 and Ctrl+N registered; the optional keys report their own outcome.
pub open spec fn registered_notes(
    alternate_error: Option<Seq<char>>,
    full_display_error: Option<Seq<char>>,
    p: TargetPlatform,
) -> Seq<Seq<char>> {
    seq![
        "global-hotkey: F2 and Ctrl+N region capture registered"@,
        optional_key_note("Ctrl+Shift+S alternate region capture"@, alternate_error),
        optional_key_note("F3 full-display"@, full_display_error),
        active_platform_text(p),
        "fallback: `pinora capture` keeps working through single-instance IPC"@,
    ]
}

pub open spec fn opt_view(e: Option<&str>) -> Option<Seq<char>> {
    match e {
        Some(t) => Some(t@),
        None => None,
    }
}

fn optional_key_line(label: &str, error: Option<&str>) -> (s: String)
    ensures
        s@ == optional_key_note(label@, opt_view(error)),
{
    let mut s = String::new();
    push_text(&mut s, "global-hotkey: ");
    push_text(&mut s, label);
    match error {
        None => {
            push_text(&mut s, " registered");
        },
        Some(e) => {
            push_text(&mut s, " unavailable (");
            push_text(&mut s, e);
            push_text(&mut s, ")");
        },
    }
    assert(s@ =~= optional_key_note(label@, opt_view(error)));
    s
}

/// The status once F2 and Ctrl+N registered: available, with one note per key group, the
/// platform note and the command-line fallback. `alternate_error` and `full_display_error`
/// carry the reason Ctrl+Shift+S or F3 could not be registered, where it could not.
pub fn registered_status(
    alternate_error: Option<&str>,
    full_display_error: Option<&str>,
    p: TargetPlatform,
) -> (s: GlobalHotkeyStatus)
    ensures
        s.available,
        notes_of(s.notes@) == registered_notes(
            opt_view(alternate_error),
            opt_view(full_display_error),
            p,
        ),
{
    let mut notes: Vec<String> = Vec::new();
    notes.push(text_of("global-hotkey: F2 and Ctrl+N region capture registered"));
    notes.push(optional_key_line("Ctrl+Shift+S alternate region capture", alternate_error));
    notes.push(optional_key_line("F3 full-display", full_display_error));
    notes.push(text_of(active_platform_note(p)));
    notes.push(text_of("fallback: `pinora capture` keeps working through single-instance IPC"));
    assert(notes_of(notes@) =~= registered_notes(
        opt_view(alternate_error),
        opt_view(full_display_error),
        p,
    ));
    GlobalHotkeyStatus { available: true, notes }
}

/// A hotkey source for tests and demonstrations: actions are injected by hand.
#[derive(Debug, Default)]
pub struct FakeHotkeySource {
    bindings: Vec<KeyBinding>,
    pending: Vec<ActionId>,
}

impl FakeHotkeySource {
    pub closed spec fn spec_bindings(&self) -> Seq<KeyBinding> {
        self.bindings@
    }

    pub closed spec fn spec_pending(&self) -> Seq<ActionId> {
        self.pending@
    }

    pub fn new() -> (s: FakeHotkeySource)
        ensures
            s.spec_bindings().len() == 0,
            s.spec_pending().len() == 0,
    {
        FakeHotkeySource { bindings: Vec::new(), pending: Vec::new() }
    }

    /// Records a binding; the fake source accepts every binding.
    pub fn register(&mut self, binding: KeyBinding) -> (r: Result<(), PinoraError>)
        ensures
            r is Ok,
            final(self).spec_bindings() == old(self).spec_bindings().push(binding),
            final(self).spec_pending() == old(self).spec_pending(),
    {
        self.bindings.push(binding);
        Ok(())
    }

    /// Simulates the user pressing the hotkey of `action`.
    pub fn inject(&mut self, action: ActionId)
        ensures
            final(self).spec_pending() == old(self).spec_pending().push(action),
            final(self).spec_bindings() == old(self).spec_bindings(),
    {
        self.pending.push(action);
    }

    /// Hands out the injected actions in order and forgets them.
    pub fn poll_actions(&mut self) -> (actions: Vec<ActionId>)
        ensures
            actions@ == old(self).spec_pending(),
            final(self).spec_pending().len() == 0,
            final(self).spec_bindings() == old(self).spec_bindings(),
    {
        let mut taken: Vec<ActionId> = Vec::new();
        std::mem::swap(&mut taken, &mut self.pending);
        taken
    }

    pub fn bindings(&self) -> (b: &Vec<KeyBinding>)
        ensures
            b@ == self.spec_bindings(),
    {
        &self.bindings
    }
}

/// The desktop entry that lets KDE bind `<exec> capture` to a shortcut.
pub open spec fn desktop_entry_text(exec: Seq<char>) -> Seq<char> {
    "[Desktop Entry]\nType=Application\nName=Pinora\nComment=Screenshot, pin and annotate\nExec="@
        + exec + "\nTryExec="@ + exec
        + "\nIcon=camera-photo\nTerminal=false\nCategories=Utility;Graphics;\nStartupNotify=false\nActions=Capture;Quit;\n# KWin 截图接口（与 Spectacle 同权）\nX-KDE-DBUS-Restricted-Interfaces=org.kde.KWin.ScreenShot2\n# 提示 KDE：可在系统设置中绑定下列动作\nX-KDE-Shortcuts=F2\n\n[Desktop Action Capture]\nName=Capture region\nName[zh_CN]=区域截图\nExec="@
        + exec
        + " capture\n# 系统设置 → 快捷键 → 自定义 可绑定此动作；部分 Plasma 会读取本行\nX-KDE-Shortcuts=F2;Ctrl+N\n\n[Desktop Action Quit]\nName=Quit\nName[zh_CN]=退出\nExec="@
        + exec + " quit\n"@
}

/// The content of the desktop entry for the program at `exec`.
pub fn desktop_entry_content(exec: &str) -> (content: String)
    ensures
        content@ == desktop_entry_text(exec@),
{
    let mut s = String::new();
    push_text(
        &mut s,
        "[Desktop Entry]\nType=Application\nName=Pinora\nComment=Screenshot, pin and annotate\nExec=",
    );
    push_text(&mut s, exec);
    push_text(&mut s, "\nTryExec=");
    push_text(&mut s, exec);
    push_text(
        &mut s,
        "\nIcon=camera-photo\nTerminal=false\nCategories=Utility;Graphics;\nStartupNotify=false\nActions=Capture;Quit;\n# KWin 截图接口（与 Spectacle 同权）\nX-KDE-DBUS-Restricted-Interfaces=org.kde.KWin.ScreenShot2\n# 提示 KDE：可在系统设置中绑定下列动作\nX-KDE-Shortcuts=F2\n\n[Desktop Action Capture]\nName=Capture region\nName[zh_CN]=区域截图\nExec=",
    );
    push_text(&mut s, exec);
    push_text(
        &mut s,
        " capture\n# 系统设置 → 快捷键 → 自定义 可绑定此动作；部分 Plasma 会读取本行\nX-KDE-Shortcuts=F2;Ctrl+N\n\n[Desktop Action Quit]\nName=Quit\nName[zh_CN]=退出\nExec=",
    );
    push_text(&mut s, exec);
    push_text(&mut s, " quit\n");
    assert(s@ =~= desktop_entry_text(exec@));
    s
}

/// `base` joined with a relative path as `Path::join` does on Unix: a `/` goes between them
/// unless `base` is empty or already ends with one.
pub open spec fn join_relative(base: Seq<char>, rel: Seq<char>) -> Seq<char> {
    if base.len() == 0 || base.last() == '/' {
        base + rel
    } else {
        base + seq!['/'] + rel
    }
}

/// Where the desktop entry goes: the applications directory under the home directory and the
/// file in it, with the file's content.
pub struct DesktopEntryPlan {
    pub applications_dir: String,
    pub path: String,
    pub content: String,
}

/// Decides where the user-level desktop entry is written and what it holds, from the platform,
/// the home directory (`HOME`, if it is set) and the program's path. Only Linux has a
/// freedesktop desktop entry; elsewhere nothing is planned. The caller creates the directory,
/// writes the file and refreshes the desktop database.
pub fn ensure_user_desktop_entry(bin_path: &str, home: Option<&str>, platform: TargetPlatform) -> (r:
    Result<DesktopEntryPlan, String>)
    ensures
        r is Ok <==> platform == TargetPlatform::Linux && home is Some,
        platform != TargetPlatform::Linux ==> (r matches Err(e) && e@
            == "desktop entry is only supported on Linux"@),
        platform == TargetPlatform::Linux && home is None ==> (r matches Err(e) && e@
            == "cannot resolve ~/.local/share/applications"@),
        r matches Ok(plan) ==> {
            let dir = join_relative(home.unwrap()@, ".local/share/applications"@);
            &&& plan.applications_dir@ == dir
            &&& plan.path@ == join_relative(dir, "pinora.desktop"@)
            &&& plan.content@ == desktop_entry_text(bin_path@)
        },
{
    match platform {
        TargetPlatform::Linux => {},
        _ => {
            return Err(text_of("desktop entry is only supported on Linux"));
        },
    }
    let home = match home {
        Some(h) => h,
        None => {
            return Err(text_of("cannot resolve ~/.local/share/applications"));
        },
    };
    let dir = join_path(home, ".local/share/applications");
    let path = join_path(dir.as_str(), "pinora.desktop");
    Ok(DesktopEntryPlan { applications_dir: dir, path, content: desktop_entry_content(bin_path) })
}

fn join_path(base: &str, rel: &str) -> (p: String)
    ensures
        p@ == join_relative(base@, rel@),
{
    let mut p = String::new();
    push_text(&mut p, base);
    let n = base.unicode_len();
    if n > 0 && base.get_char(n - 1) != '/' {
        push_text(&mut p, "/");
        proof {
            reveal_strlit("/");
        }
    }
    push_text(&mut p, rel);
    assert(p@ =~= join_relative(base@, rel@));
    p
}

} // verus!
