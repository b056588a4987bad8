use pinora::kwin_place::{escape_js, parse_script_id, place_script, script_object_path};
use pinora::pin_session::{
    next_pin_recency, pin_key, pin_mouse_mode_after_platform_request, PinKey, PinKeyOutcome,
    PinMouseMode, PinSessionEnd,
};

#[test]
fn mouse_mode_changes_only_after_the_platform_accepts_the_request() {
    assert!(PinMouseMode::Direct.hittest_enabled());
    assert!(!PinMouseMode::Passthrough.hittest_enabled());
    assert_eq!(
        pin_mouse_mode_after_platform_request(PinMouseMode::Direct, PinMouseMode::Passthrough, true),
        PinMouseMode::Passthrough
    );
    assert_eq!(
        pin_mouse_mode_after_platform_request(
            PinMouseMode::Direct,
            PinMouseMode::Passthrough,
            false
        ),
        PinMouseMode::Direct
    );
    assert_eq!(
        pin_mouse_mode_after_platform_request(
            PinMouseMode::Passthrough,
            PinMouseMode::Direct,
            false
        ),
        PinMouseMode::Passthrough
    );
}

#[test]
fn recency_counter_is_monotonic_and_saturates() {
    assert_eq!(next_pin_recency(0), 1);
    assert_eq!(next_pin_recency(41), 42);
    assert_eq!(next_pin_recency(u64::MAX), u64::MAX);
}

#[test]
fn escape_js_basic() {
    assert_eq!(escape_js(r#"a"b"#), r#"a\"b"#);
}

#[test]
fn parse_id() {
    assert_eq!(parse_script_id("i 7"), Some(7));
    assert_eq!(parse_script_id("i 0\n"), Some(0));
}

#[test]
fn escape_js_handles_backslashes_quotes_and_line_breaks() {
    assert_eq!(escape_js("a\\b'c\nd\re"), "a\\\\b\\'c d e");
}

#[test]
fn parse_id_falls_back_to_the_first_number_and_rejects_overflow() {
    assert_eq!(parse_script_id("  42 "), Some(42));
    assert_eq!(parse_script_id("x y 9"), Some(9));
    assert_eq!(parse_script_id("i nope"), None);
    assert_eq!(parse_script_id("4294967296"), None);
    assert_eq!(parse_script_id("+12"), Some(12));
    assert_eq!(parse_script_id(""), None);
}

#[test]
fn place_script_names_the_window_and_its_geometry() {
    let script = place_script("Pin \"1\"", -5, 7, 300, 200);
    assert!(script.contains("cap.indexOf(\"Pin \\\"1\\\"\")"));
    assert!(script.contains("x: -5,"));
    assert!(script.contains("y: 7,"));
    assert!(script.contains("width: 300,"));
    assert!(script.contains("height: 200\n"));
    assert_eq!(script_object_path(3), "/Scripting/Script3");
}

#[test]
fn pin_keys_close_capture_or_quit() {
    assert_eq!(pin_key(PinKey::Escape, false), PinKeyOutcome::CloseWindow);
    assert_eq!(
        pin_key(PinKey::F2, false),
        PinKeyOutcome::End(PinSessionEnd::NewCapture)
    );
    assert_eq!(
        pin_key(PinKey::Character('N'), true),
        PinKeyOutcome::End(PinSessionEnd::NewCapture)
    );
    assert_eq!(
        pin_key(PinKey::Character('q'), true),
        PinKeyOutcome::End(PinSessionEnd::Quit)
    );
    assert_eq!(pin_key(PinKey::Character('q'), false), PinKeyOutcome::Ignore);
}
