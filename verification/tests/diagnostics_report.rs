use pinora::diagnostics::{
    availability_label, capability_key, export_format_label, theme_label, AppSettings, DiagnosticsPanel,
    SanitizedDiagnosticReport, SanitizedSettings, ThemeMode,
};
use pinora::export_job::ExportImageFormat;
use pinora::model::ErrorCode;
use pinora::platform::CapabilitySnapshot;

fn settings(theme: ThemeMode) -> AppSettings {
    AppSettings {
        schema_version: 1,
        theme,
        history_limit: 100,
        history_retention_days: 30,
        history_max_bytes: 536_870_912,
        pin_limit: 32,
        default_pin_opacity_percent: 100,
        default_pin_always_on_top: true,
        ocr_confidence_threshold: 60,
        export_format: ExportImageFormat::Png,
        jpeg_quality: 90,
    }
}

fn runtime_with_notes(notes: Vec<String>) -> CapabilitySnapshot {
    CapabilitySnapshot {
        capture_available: false,
        global_hotkey_available: true,
        clipboard_image_available: false,
        always_on_top_available: true,
        notes,
    }
}

fn report() -> SanitizedDiagnosticReport {
    let capabilities = CapabilitySnapshot {
        capture_available: true,
        global_hotkey_available: false,
        clipboard_image_available: true,
        always_on_top_available: false,
        notes: Vec::new(),
    };
    let panel = DiagnosticsPanel::from_runtime(&capabilities, true, true, "LINUX", "READY", None);
    SanitizedDiagnosticReport::from_runtime(&capabilities, &panel, settings(ThemeMode::System))
}

#[test]
fn rendered_report_has_only_stable_sanitized_fields() {
    let rendered = report().render("0.1.0");
    assert!(rendered.starts_with("PINORA_DIAGNOSTICS_V1\n"));
    assert!(rendered.contains("capability.capture=true\n"));
    assert!(rendered.contains("error_code=none\n"));
    assert!(!rendered.contains("/home/"));
    assert!(!rendered.contains("ocr text"));
    assert!(rendered.contains("capability.image_clipboard=true\n"));
    assert!(!rendered.contains("clipboard_content"));
    assert!(!rendered.contains("token"));
}

#[test]
fn rendered_report_lists_every_field_in_order() {
    let rendered = report().render("0.1.0");
    let expected = "PINORA_DIAGNOSTICS_V1\n\
version=0.1.0\n\
platform=LINUX\n\
capability.capture=true\n\
capability.global_hotkey=true\n\
capability.image_clipboard=true\n\
capability.always_on_top=false\n\
capability.local_ocr=true\n\
feedback=READY\n\
error_code=none\n\
settings.schema_version=1\n\
settings.theme=system\n\
settings.history_limit=100\n\
settings.history_retention_days=30\n\
settings.history_max_bytes=536870912\n\
settings.pin_limit=32\n\
settings.default_pin_opacity_percent=100\n\
settings.default_pin_always_on_top=true\n\
settings.ocr_confidence_threshold=60\n\
settings.export_format=png\n\
settings.jpeg_quality=90\n";
    assert_eq!(rendered, expected);
}

#[test]
fn report_names_the_error_code_of_a_failure() {
    let capabilities = runtime_with_notes(Vec::new());
    let panel = DiagnosticsPanel::from_runtime(
        &capabilities,
        false,
        false,
        "LINUX",
        "CAPTURE FAILED",
        Some(ErrorCode::TimedOut),
    );
    let rendered =
        SanitizedDiagnosticReport::from_runtime(&capabilities, &panel, settings(ThemeMode::Light)).render("2.0.0");
    assert!(rendered.contains("error_code=timed_out\n"));
    assert!(rendered.contains("feedback=CAPTURE FAILED\n"));
    assert!(rendered.contains("settings.theme=light\n"));
}

#[test]
fn sanitized_settings_keep_enum_labels_stable() {
    let summary = SanitizedSettings::from_settings(settings(ThemeMode::Dark));
    assert_eq!(summary.theme, "dark");
    assert_eq!(summary.export_format, "png");
    assert_eq!(theme_label(ThemeMode::Light), "light");
    assert_eq!(export_format_label(ExportImageFormat::Jpeg), "jpeg");
    assert_eq!(export_format_label(ExportImageFormat::WebP), "webp");
}

#[test]
fn capability_keys_are_fixed() {
    assert_eq!(capability_key("GLOBAL HOTKEY"), "capability.global_hotkey");
    assert_eq!(capability_key("LOCAL OCR"), "capability.local_ocr");
    assert_eq!(capability_key("capture"), "capability.unknown");
    assert_eq!(availability_label(true), "AVAILABLE");
    assert_eq!(availability_label(false), "RESTRICTED");
}

#[test]
fn actual_hotkey_result_overrides_bootstrap_guess_and_notes_are_not_retained() {
    let panel = DiagnosticsPanel::from_runtime(
        &runtime_with_notes(vec!["/home/neo/secret.png\nbackend detail".into()]),
        false,
        true,
        "LINUX",
        "READY",
        None,
    );

    assert_eq!(
        panel.capability_rows(),
        [
            ("CAPTURE", false),
            ("GLOBAL HOTKEY", false),
            ("IMAGE CLIPBOARD", false),
            ("ALWAYS ON TOP", true),
            ("LOCAL OCR", true),
        ]
    );
    assert_eq!(panel.feedback_label(), "READY");
    assert_eq!(panel.error_code(), None);
    assert_ne!(panel.platform(), "/home/neo/secret.png\nbackend detail");
}

#[test]
fn failure_has_stable_code_and_fixed_recovery_without_raw_message() {
    let panel = DiagnosticsPanel::from_runtime(
        &runtime_with_notes(vec!["OCR text: private content".into()]),
        true,
        false,
        "LINUX",
        "EXPORT FAILED",
        Some(ErrorCode::ClipboardFailed),
    );

    assert_eq!(panel.feedback_label(), "EXPORT FAILED");
    assert_eq!(panel.error_code(), Some(ErrorCode::ClipboardFailed));
    assert_eq!(panel.recovery_suggestion(), Some("CHECK CLIPBOARD SERVICE THEN RETRY"));
}

#[test]
fn feedback_refresh_never_creates_an_error_for_successful_state() {
    let mut panel = DiagnosticsPanel::from_runtime(
        &runtime_with_notes(Vec::new()),
        false,
        false,
        "LINUX",
        "CAPTURE FAILED",
        Some(ErrorCode::TimedOut),
    );
    assert_eq!(panel.recovery_suggestion(), Some("RETRY LATER RESTART IF PERSISTENT"));
    panel.set_feedback("OCR COMPLETED", None);

    assert_eq!(panel.feedback_label(), "OCR COMPLETED");
    assert_eq!(panel.error_code(), None);
    assert_eq!(panel.recovery_suggestion(), None);
}
