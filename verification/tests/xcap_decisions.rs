use pinora::capture::CaptureBackendKind;
use pinora::geometry::PixelRect;
use pinora::model::ErrorCode;
use pinora::xcap_monitors::{
    autodetect, displays_or_error, find_monitor_for_display, map_xcap, monitor_grab, monitor_to_display,
    primary_display_id, MonitorGrab, XcapDisplay,
};

fn display(id: u32, name: &str, width: u32, height: u32) -> XcapDisplay {
    monitor_to_display(id, Some(name.to_string()), None, 0, 0, width, height)
}

#[test]
fn monitors_become_displays_with_fallback_names() {
    let d = monitor_to_display(7, None, Some("DP-1".to_string()), -1920, 0, 1920, 1080);
    assert_eq!(d.id, "xcap-7");
    assert_eq!(d.name, "DP-1");
    assert_eq!(d.bounds, PixelRect::new(-1920, 0, 1920, 1080));
    let friendly = monitor_to_display(3, Some("Dell".to_string()), Some("DP-2".to_string()), 0, 0, 10, 10);
    assert_eq!(friendly.name, "Dell");
    let unnamed = monitor_to_display(42, None, None, 0, 0, 10, 10);
    assert_eq!(unnamed.name, "Monitor-42");
}

#[test]
fn empty_enumeration_is_an_error() {
    let err = displays_or_error(Vec::new()).unwrap_err();
    assert_eq!(err.code, ErrorCode::CapabilityUnavailable);
    assert_eq!(err.message, "xcap: no monitors found");
    assert_eq!(displays_or_error(vec![display(1, "A", 10, 10)]).unwrap().len(), 1);
}

#[test]
fn monitor_lookup_finds_the_first_match_or_names_the_missing_display() {
    let displays = vec![display(1, "A", 10, 10), display(2, "B", 20, 20), display(2, "C", 30, 30)];
    assert_eq!(find_monitor_for_display(&displays, "xcap-2").unwrap(), 1);
    let err = find_monitor_for_display(&displays, "xcap-9").unwrap_err();
    assert_eq!(err.code, ErrorCode::NotFound);
    assert_eq!(err.message, "xcap monitor not found: xcap-9");
}

#[test]
fn primary_display_is_the_first_or_unknown() {
    let displays = vec![display(5, "A", 10, 10), display(6, "B", 20, 20)];
    assert_eq!(primary_display_id(Some(&displays)), "xcap-5");
    assert_eq!(primary_display_id(Some(&Vec::new())), "xcap-unknown");
    assert_eq!(primary_display_id(None), "xcap-unknown");
}

#[test]
fn whole_monitor_or_local_region() {
    let monitor = PixelRect::new(1920, 0, 2560, 1440);
    assert_eq!(monitor_grab(PixelRect::new(1920, 0, 2560, 1440), monitor), MonitorGrab::Whole);
    assert_eq!(
        monitor_grab(PixelRect::new(2000, 100, 300, 200), monitor),
        MonitorGrab::Region { x: 80, y: 100, width: 300, height: 200 }
    );
    assert_eq!(
        monitor_grab(PixelRect::new(1800, -5, 2560, 1440), monitor),
        MonitorGrab::Whole
    );
}

#[test]
fn xcap_errors_are_classified_by_message() {
    let denied = map_xcap("Screen capture Permission was DENIED");
    assert_eq!(denied.code, ErrorCode::PermissionDenied);
    assert_eq!(denied.message, "xcap: Screen capture Permission was DENIED");
    assert_eq!(map_xcap("XDG Portal request failed").code, ErrorCode::PermissionDenied);
    assert_eq!(map_xcap("operation Not Supported here").code, ErrorCode::CapabilityUnavailable);
    assert_eq!(map_xcap("wayland unavailable").code, ErrorCode::CapabilityUnavailable);
    assert_eq!(map_xcap("broken pipe").code, ErrorCode::RetryablePlatform);
}

#[test]
fn autodetect_prefers_xcap_when_it_lists_monitors() {
    let (kind, note) = autodetect(Ok(vec![display(1, "Primary", 1920, 1080), display(2, "Side", 1280, 1024)]));
    assert_eq!(kind, CaptureBackendKind::Xcap);
    assert_eq!(note, "xcap monitors=2 primary=Primary 1920x1080 (capture on confirm)");

    let (kind, note) = autodetect(Ok(Vec::new()));
    assert_eq!(kind, CaptureBackendKind::Fake);
    assert_eq!(note, "xcap returned no monitors; using fake");

    let (kind, note) = autodetect(Err("xcap: no display".to_string()));
    assert_eq!(kind, CaptureBackendKind::Fake);
    assert_eq!(note, "xcap unavailable (xcap: no display); using fake");
}
