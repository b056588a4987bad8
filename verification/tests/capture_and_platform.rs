use pinora::capture::{
    is_kde_session, spectacle_args, spectacle_scope, strip_ansi, workspace_crop, workspace_origin,
    CaptureBackendKind, KdeSpectacleCaptureProvider, SpectacleScope, XcapCaptureProvider,
};
use pinora::clipboard::{
    clipboard_command, copy_text_to_system_clipboard, detect_system_clipboard_backend,
    ClipboardContent, ClipboardTool,
};
use pinora::desktop_shell::DisplayBounds;
use pinora::geometry::PixelRect;
use pinora::hotkey::{
    active_platform_note, desktop_entry_content, ensure_user_desktop_entry, pressed_actions,
    registered_status, unavailable_platform_note, unavailable_status, ActionId, FakeHotkeySource,
    KeyBinding, KeyState, RegisteredHotkeys, TargetPlatform,
};
use pinora::kscreen::parse_kscreen_doctor;
use pinora::model::ErrorCode;
use pinora::platform::{FakeCapabilityProbe, PlatformFacts, RuntimeCapabilityProbe};

const LINUX: PlatformFacts = PlatformFacts { unix: true, linux: true };

#[test]
fn parse_kscreen_sample() {
    let sample = r#"
Output: 1 HDMI-A-1 8fbf4e64-f741-4b39-a8eb-99b6ddff2b82
enabled
connected
priority 2
Geometry: 0,0 1440x2560
Scale: 1
Output: 2 DP-1 c14306ba-42bb-426b-a2e9-f14cc760525c
enabled
connected
priority 1
Geometry: 1440,0 3840x2160
Scale: 1
"#;
    let d = parse_kscreen_doctor(sample).unwrap();
    assert_eq!(d.len(), 2);
    assert_eq!(d[0].name, "HDMI-A-1");
    assert_eq!(d[0].bounds, PixelRect::new(0, 0, 1440, 2560));
    assert_eq!(d[1].name, "DP-1");
    assert_eq!(d[1].bounds, PixelRect::new(1440, 0, 3840, 2160));
}

#[test]
fn strip_ansi_and_parse() {
    let colored = "\u{1b}[01;32mOutput:\u{1b}[0;0m 1 HDMI-A-1 uuid\n\t\u{1b}[01;32menabled\u{1b}[0;0m\n\tGeometry: 0,0 1440x2560\n\tScale: 1\n";
    let plain = strip_ansi(colored);
    let d = parse_kscreen_doctor(&plain).unwrap();
    assert_eq!(d.len(), 1);
    assert_eq!(d[0].name, "HDMI-A-1");
    assert_eq!(d[0].bounds, PixelRect::new(0, 0, 1440, 2560));
}

#[test]
fn kscreen_ids_scales_and_disabled_outputs() {
    let text = "Output: 3 eDP-1 x\nenabled\nGeometry: -1920,-10 1920x1080\nScale: 1.5\nOutput: 4\ndisabled\nGeometry: 0,0 800x600\nOutput: 5\nGeometry: 7,8 640x480\n";
    let d = parse_kscreen_doctor(text).unwrap();
    assert_eq!(d.len(), 2);
    assert_eq!(d[0].id, "kde-3");
    assert_eq!(d[0].bounds, PixelRect::new(-1920, -10, 1920, 1080));
    assert_eq!(d[0].scale, "1.5");
    assert_eq!(d[1].id, "kde-5");
    assert_eq!(d[1].name, "Output-5");
    assert_eq!(d[1].scale, "1");
}

#[test]
fn kscreen_without_usable_outputs_is_an_error() {
    let err = parse_kscreen_doctor("Output: 1 DP-1\nenabled false\nGeometry: 0,0 10x10\n")
        .unwrap_err();
    assert_eq!(err.code, ErrorCode::CapabilityUnavailable);
    assert_eq!(err.message, "kscreen-doctor returned no enabled outputs");
    assert!(parse_kscreen_doctor("Output: 1 DP-1\nGeometry: 0,0 0x10\n").is_err());
    assert!(parse_kscreen_doctor("").is_err());
}

#[test]
fn strip_ansi_keeps_plain_text_and_drops_lone_escapes() {
    assert_eq!(strip_ansi("plain"), "plain");
    assert_eq!(strip_ansi("a\u{1b}b"), "ab");
    assert_eq!(strip_ansi("x\u{1b}[1;2"), "x");
}

#[test]
fn kde_session_is_detected_case_insensitively() {
    assert!(is_kde_session("KDE", ""));
    assert!(is_kde_session("", "plasmawayland"));
    assert!(!is_kde_session("GNOME", "ubuntu"));
    assert!(!is_kde_session("K", "DE"));
}

#[test]
fn workspace_origin_is_the_least_corner() {
    let displays = vec![
        DisplayBounds { id: "a".into(), bounds: PixelRect::new(0, -20, 100, 100) },
        DisplayBounds { id: "b".into(), bounds: PixelRect::new(-1440, 0, 100, 100) },
    ];
    assert_eq!(workspace_origin(&displays), (-1440, -20));
    assert_eq!(workspace_origin(&Vec::new()), (0, 0));
}

#[test]
fn backend_names_and_providers() {
    assert_eq!(CaptureBackendKind::Xcap.as_str(), "xcap");
    assert_eq!(CaptureBackendKind::Fake.as_str(), "fake");
    assert_eq!(CaptureBackendKind::Kde.as_str(), "kde-spectacle");
    let kde = KdeSpectacleCaptureProvider::new("/usr/bin/spectacle".to_string());
    assert_eq!(kde.spectacle_bin, "/usr/bin/spectacle");
    let _ = XcapCaptureProvider::new();
}

#[test]
fn runtime_probe_mentions_backend() {
    let snap = RuntimeCapabilityProbe::new(CaptureBackendKind::Kde, Some("ok".into()))
        .probe(Some("wl-copy"), LINUX);
    assert!(snap.capture_available);
    assert!(snap.notes.iter().any(|n| n.contains("kde-spectacle")));
}

#[test]
fn probe_notes_follow_the_clipboard_and_platform() {
    let snap = RuntimeCapabilityProbe::new(CaptureBackendKind::Unavailable, None)
        .probe(None, PlatformFacts { unix: false, linux: false });
    assert!(!snap.capture_available);
    assert!(!snap.global_hotkey_available);
    assert!(!snap.clipboard_image_available);
    assert_eq!(
        snap.notes,
        vec![
            "capture backend: unavailable".to_string(),
            "global hotkey: F2/Ctrl+N via global-hotkey when available; else `pinora capture` IPC"
                .to_string(),
            "system clipboard: unavailable on this build; memory clipboard remains available"
                .to_string(),
            "global hotkey: unavailable on this build; use pinora capture IPC".to_string(),
        ]
    );
    let fake = FakeCapabilityProbe.probe(None, LINUX);
    assert!(fake.global_hotkey_available && fake.clipboard_image_available);
    assert_eq!(fake.notes[0], "test probe: FakeCaptureProvider");
    assert_eq!(fake.notes[1], "capture backend: fake");
    assert_eq!(
        fake.notes[3],
        "system clipboard: unavailable (install wl-clipboard or xclip)"
    );
}

#[test]
fn clipboard_prefers_wl_copy_then_xclip_then_xsel() {
    assert_eq!(detect_system_clipboard_backend(true, true, true), Some("wl-copy"));
    assert_eq!(detect_system_clipboard_backend(false, true, true), Some("xclip"));
    assert_eq!(detect_system_clipboard_backend(false, false, true), Some("xsel"));
    assert_eq!(detect_system_clipboard_backend(false, false, false), None);
}

#[test]
fn clipboard_commands_carry_the_mime_type() {
    let cmd = copy_text_to_system_clipboard(false, false, true, false).unwrap();
    assert_eq!(cmd.tool, ClipboardTool::Xclip);
    assert_eq!(cmd.args, vec!["-selection", "clipboard", "-t", "text/plain", "-i"]);
    let png = clipboard_command(ClipboardContent::Png, false, true, false, false).unwrap();
    assert_eq!(png.args, vec!["--type", "image/png"]);
    assert_eq!(
        copy_text_to_system_clipboard(true, true, true, true).unwrap_err(),
        "disabled by PINORA_NO_SYSTEM_CLIPBOARD"
    );
    assert_eq!(
        copy_text_to_system_clipboard(false, false, false, false).unwrap_err(),
        "no wl-copy/xclip/xsel in PATH"
    );
}

#[test]
fn inject_and_poll() {
    let mut src = FakeHotkeySource::new();
    src.register(KeyBinding::new(ActionId::Quit, "Ctrl+Q")).unwrap();
    src.inject(ActionId::Quit);
    assert_eq!(src.poll_actions(), vec![ActionId::Quit]);
    assert!(src.poll_actions().is_empty());
    assert_eq!(src.bindings().len(), 1);
}

#[test]
fn only_registered_pressed_events_become_actions() {
    let bindings = RegisteredHotkeys {
        region_ids: [11, 12],
        alternate_region_id: Some(13),
        full_display_id: Some(14),
    };

    assert_eq!(
        bindings.action_for_pressed_event(11, KeyState::Pressed),
        Some(ActionId::CaptureRegionAndPin)
    );
    assert_eq!(
        bindings.action_for_pressed_event(13, KeyState::Pressed),
        Some(ActionId::CaptureRegionAndPin)
    );
    assert_eq!(
        bindings.action_for_pressed_event(14, KeyState::Pressed),
        Some(ActionId::CaptureFullDisplay)
    );
    assert_eq!(
        bindings.action_for_pressed_event(12, KeyState::Released),
        None
    );
    assert_eq!(
        bindings.action_for_pressed_event(99, KeyState::Pressed),
        None
    );
}

#[test]
fn repeated_presses_in_one_batch_make_one_capture() {
    let reg = RegisteredHotkeys { region_ids: [1, 2], alternate_region_id: None, full_display_id: Some(3) };
    let events = vec![
        (1, KeyState::Pressed),
        (2, KeyState::Pressed),
        (1, KeyState::Released),
        (3, KeyState::Pressed),
        (1, KeyState::Pressed),
        (9, KeyState::Pressed),
    ];
    assert_eq!(
        pressed_actions(reg, &events),
        vec![
            ActionId::CaptureRegionAndPin,
            ActionId::CaptureFullDisplay,
            ActionId::CaptureRegionAndPin
        ]
    );
}

#[test]
fn desktop_entry_contains_capture_action() {
    let content = desktop_entry_content("/usr/bin/pinora");
    assert!(content.contains("Exec=/usr/bin/pinora capture\n"));
    assert!(content.contains("capture"));
    assert!(content.contains("F2"));
    let plan = ensure_user_desktop_entry("/usr/bin/pinora", Some("/home/me"), TargetPlatform::Linux).unwrap();
    assert_eq!(plan.applications_dir, "/home/me/.local/share/applications");
    assert_eq!(plan.path, "/home/me/.local/share/applications/pinora.desktop");
    assert_eq!(plan.content, content);
    assert_eq!(
        ensure_user_desktop_entry("/usr/bin/pinora", Some("/root/"), TargetPlatform::Linux).unwrap().applications_dir,
        "/root/.local/share/applications"
    );
    assert_eq!(
        ensure_user_desktop_entry("/usr/bin/pinora", None, TargetPlatform::Linux).err(),
        Some("cannot resolve ~/.local/share/applications".to_string())
    );
}

#[test]
fn desktop_entry_is_refused_off_linux() {
    for platform in [TargetPlatform::Windows, TargetPlatform::MacOs, TargetPlatform::Other] {
        for home in [Some("/home/me"), None] {
            assert_eq!(
                ensure_user_desktop_entry("/usr/bin/pinora", home, platform).err(),
                Some("desktop entry is only supported on Linux".to_string())
            );
        }
    }
}

#[test]
fn unavailable_hub_keeps_external_actions_disabled() {
    let status = unavailable_status("test backend unavailable", TargetPlatform::Linux);
    assert!(!status.available);
    assert!(status
        .notes
        .iter()
        .any(|note| note.contains("tray") && note.contains("IPC")));
    assert_eq!(status.notes[0], "global-hotkey unavailable: test backend unavailable");
}

#[test]
fn registered_status_reports_each_optional_key() {
    let status = registered_status(None, Some("busy"), TargetPlatform::Windows);
    assert!(status.available);
    assert_eq!(status.notes.len(), 5);
    assert_eq!(
        status.notes[1],
        "global-hotkey: Ctrl+Shift+S alternate region capture registered"
    );
    assert_eq!(status.notes[2], "global-hotkey: F3 full-display unavailable (busy)");
    assert_eq!(status.notes[3], active_platform_note(TargetPlatform::Windows));
    assert!(unavailable_platform_note(TargetPlatform::MacOs).starts_with("macOS"));
}

#[test]
fn spectacle_takes_the_monitor_only_for_whole_displays() {
    let display = PixelRect::new(1920, 0, 2560, 1440);
    assert_eq!(spectacle_scope(true, display, display), SpectacleScope::Monitor);
    assert_eq!(spectacle_scope(true, PixelRect::new(1920, 0, 100, 100), display), SpectacleScope::Workspace);
    assert_eq!(spectacle_scope(false, display, display), SpectacleScope::Workspace);
    assert_eq!(spectacle_args(SpectacleScope::Monitor), vec!["-b", "-n", "-m", "-o"]);
    assert_eq!(spectacle_args(SpectacleScope::Workspace), vec!["-b", "-n", "-f", "-o"]);
    assert_eq!(workspace_crop(PixelRect::new(-1280, 0, 4480, 1440), (-1280, 0), 4480, 1440), None);
    assert_eq!(
        workspace_crop(PixelRect::new(100, 50, 300, 200), (-1280, 0), 4480, 1440),
        Some(PixelRect::new(1380, 50, 300, 200))
    );
}
