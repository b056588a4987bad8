//! Local diagnostics: the panel's view model and the sanitized report that a user may
//! export. Both hold only fixed labels, booleans and numbers, never paths, pixels, OCR text
//! or raw platform messages.

use crate::export_job::ExportImageFormat;
use crate::model::ErrorCode;
use crate::platform::CapabilitySnapshot;
use crate::text::{decimal, push_decimal, push_text, same_text};
use vstd::prelude::*;

verus! {

/// How the user asked the interface to be themed.
#[derive(Debug, Clone, Copy, PartialEq, Eq, Structural)]
pub enum ThemeMode {
    System,
    Light,
    Dark,
}

/// The persisted application settings.
#[derive(Debug, Clone, Copy, PartialEq, Eq, Structural)]
pub struct AppSettings {
    pub schema_version: u16,
    pub theme: ThemeMode,
    pub history_limit: u32,
    pub history_retention_days: u16,
    pub history_max_bytes: u64,
    pub pin_limit: u16,
    pub default_pin_opacity_percent: u8,
    pub default_pin_always_on_top: bool,
    pub ocr_confidence_threshold: u8,
    pub export_format: ExportImageFormat,
    pub jpeg_quality: u8,
}

/// The word a row shows for a capability that is there or not.
pub open spec fn availability_text(available: bool) -> Seq<char> {
    if available {
        "AVAILABLE"@
    } else {
        "RESTRICTED"@
    }
}

pub fn availability_label(available: bool) -> (s: &'static str)
    ensures
        s@ == availability_text(available),
{
    if available {
        "AVAILABLE"
    } else {
        "RESTRICTED"
    }
}

/// The fixed advice shown for each error code.
pub open spec fn recovery_text(error: ErrorCode) -> Seq<char> {
    match error {
        ErrorCode::PermissionDenied => "CHECK SYSTEM PERMISSIONS THEN RETRY"@,
        ErrorCode::CapabilityUnavailable => "CHECK PLATFORM SUPPORT OR USE TRAY IPC"@,
        ErrorCode::RetryablePlatform | ErrorCode::TimedOut => "RETRY LATER RESTART IF PERSISTENT"@,
        ErrorCode::ClipboardFailed => "CHECK CLIPBOARD SERVICE THEN RETRY"@,
        ErrorCode::CommandRejected | ErrorCode::InvalidState => "FINISH CURRENT ACTION THEN RETRY"@,
        ErrorCode::ResourceLimitExceeded => "CLOSE UNUSED PINS THEN RETRY"@,
        ErrorCode::AlreadyRunning | ErrorCode::SingleInstanceBusy => "USE THE RUNNING PINORA INSTANCE"@,
        ErrorCode::NotRunning | ErrorCode::NotFound => "REOPEN THE REQUESTED ITEM"@,
        ErrorCode::Cancelled => "RUN THE ACTION AGAIN WHEN READY"@,
        ErrorCode::Internal => "RESTART PINORA IF THE ERROR PERSISTS"@,
    }
}

pub fn recovery_suggestion(error: ErrorCode) -> (s: &'static str)
    ensures
        s@ == recovery_text(error),
{
    match error {
        ErrorCode::PermissionDenied => "CHECK SYSTEM PERMISSIONS THEN RETRY",
        ErrorCode::CapabilityUnavailable => "CHECK PLATFORM SUPPORT OR USE TRAY IPC",
        ErrorCode::RetryablePlatform | ErrorCode::TimedOut => "RETRY LATER RESTART IF PERSISTENT",
        ErrorCode::ClipboardFailed => "CHECK CLIPBOARD SERVICE THEN RETRY",
        ErrorCode::CommandRejected | ErrorCode::InvalidState => "FINISH CURRENT ACTION THEN RETRY",
        ErrorCode::ResourceLimitExceeded => "CLOSE UNUSED PINS THEN RETRY",
        ErrorCode::AlreadyRunning | ErrorCode::SingleInstanceBusy => "USE THE RUNNING PINORA INSTANCE",
        ErrorCode::NotRunning | ErrorCode::NotFound => "REOPEN THE REQUESTED ITEM",
        ErrorCode::Cancelled => "RUN THE ACTION AGAIN WHEN READY",
        ErrorCode::Internal => "RESTART PINORA IF THE ERROR PERSISTS",
    }
}

/// The diagnostics panel's state. Global hotkeys are reported as actually registered, not
/// as the start-up probe guessed; the probe's free-form notes are never kept. The latest
/// tray feedback is held as the label and error code that the panel shows of it.
#[derive(Debug, Clone, Copy, PartialEq, Eq)]
pub struct DiagnosticsPanel {
    pub platform: &'static str,
    pub capabilities: [bool; 5],
    pub feedback_label: &'static str,
    pub error: Option<ErrorCode>,
}

impl DiagnosticsPanel {
    pub fn from_runtime(
        runtime: &CapabilitySnapshot,
        global_hotkey_registered: bool,
        ocr_available: bool,
        platform: &'static str,
        feedback_label: &'static str,
        error: Option<ErrorCode>,
    ) -> (panel: DiagnosticsPanel)
        ensures
            panel.platform == platform,
            panel.capabilities@ == seq![
                runtime.capture_available,
                global_hotkey_registered,
                runtime.clipboard_image_available,
                runtime.always_on_top_available,
                ocr_available,
            ],
            panel.feedback_label == feedback_label,
            panel.error == error,
    {
        let panel = DiagnosticsPanel {
            platform,
            capabilities: [
                runtime.capture_available,
                global_hotkey_registered,
                runtime.clipboard_image_available,
                runtime.always_on_top_available,
                ocr_available,
            ],
            feedback_label,
            error,
        };
        assert(panel.capabilities@ =~= seq![
            runtime.capture_available,
            global_hotkey_registered,
            runtime.clipboard_image_available,
            runtime.always_on_top_available,
            ocr_available,
        ]);
        panel
    }

    pub fn platform(&self) -> (s: &'static str)
        ensures
            s == self.platform,
    {
        self.platform
    }

    /// The five rows, in the panel's order, each with its fixed label.
    pub fn capability_rows(&self) -> (rows: [(&'static str, bool); 5])
        ensures
            rows[0].0@ == "CAPTURE"@ && rows[0].1 == self.capabilities[0],
            rows[1].0@ == "GLOBAL HOTKEY"@ && rows[1].1 == self.capabilities[1],
            rows[2].0@ == "IMAGE CLIPBOARD"@ && rows[2].1 == self.capabilities[2],
            rows[3].0@ == "ALWAYS ON TOP"@ && rows[3].1 == self.capabilities[3],
            rows[4].0@ == "LOCAL OCR"@ && rows[4].1 == self.capabilities[4],
    {
        [
            ("CAPTURE", self.capabilities[0]),
            ("GLOBAL HOTKEY", self.capabilities[1]),
            ("IMAGE CLIPBOARD", self.capabilities[2]),
            ("ALWAYS ON TOP", self.capabilities[3]),
            ("LOCAL OCR", self.capabilities[4]),
        ]
    }

    pub fn feedback_label(&self) -> (s: &'static str)
        ensures
            s == self.feedback_label,
    {
        self.feedback_label
    }

    pub fn error_code(&self) -> (e: Option<ErrorCode>)
        ensures
            e == self.error,
    {
        self.error
    }

    /// Advice for the error of the latest feedback; none while nothing failed.
    pub fn recovery_suggestion(&self) -> (s: Option<&'static str>)
        ensures
            match self.error {
                Some(e) => s matches Some(t) && t@ == recovery_text(e),
                None => s is None,
            },
    {
        match self.error {
            Some(e) => Some(recovery_suggestion(e)),
            None => None,
        }
    }

    /// Takes in the latest tray feedback; the capabilities stay as they were.
    pub fn set_feedback(&mut self, feedback_label: &'static str, error: Option<ErrorCode>)
        ensures
            final(self).platform == old(self).platform,
            final(self).capabilities == old(self).capabilities,
            final(self).feedback_label == feedback_label,
            final(self).error == error,
    {
        self.feedback_label = feedback_label;
        self.error = error;
    }
}

/// The report key of a capability row label.
pub open spec fn capability_key_text(label: Seq<char>) -> Seq<char> {
    if label == "CAPTURE"@ {
        "capability.capture"@
    } else if label == "GLOBAL HOTKEY"@ {
        "capability.global_hotkey"@
    } else if label == "IMAGE CLIPBOARD"@ {
        "capability.image_clipboard"@
    } else if label == "ALWAYS ON TOP"@ {
        "capability.always_on_top"@
    } else if label == "LOCAL OCR"@ {
        "capability.local_ocr"@
    } else {
        "capability.unknown"@
    }
}

pub fn capability_key(label: &str) -> (key: &'static str)
    ensures
        key@ == capability_key_text(label@),
{
    if same_text(label, "CAPTURE") {
        "capability.capture"
    } else if same_text(label, "GLOBAL HOTKEY") {
        "capability.global_hotkey"
    } else if same_text(label, "IMAGE CLIPBOARD") {
        "capability.image_clipboard"
    } else if same_text(label, "ALWAYS ON TOP") {
        "capability.always_on_top"
    } else if same_text(label, "LOCAL OCR") {
        "capability.local_ocr"
    } else {
        "capability.unknown"
    }
}

pub open spec fn theme_text(theme: ThemeMode) -> Seq<char> {
    match theme {
        ThemeMode::System => "system"@,
        ThemeMode::Light => "light"@,
        ThemeMode::Dark => "dark"@,
    }
}

pub fn theme_label(theme: ThemeMode) -> (s: &'static str)
    ensures
        s@ == theme_text(theme),
{
    match theme {
        ThemeMode::System => "system",
        ThemeMode::Light => "light",
        ThemeMode::Dark => "dark",
    }
}

pub open spec fn export_format_text(format: ExportImageFormat) -> Seq<char> {
    match format {
        ExportImageFormat::Png => "png"@,
        ExportImageFormat::Jpeg => "jpeg"@,
        ExportImageFormat::WebP => "webp"@,
    }
}

pub fn export_format_label(format: ExportImageFormat) -> (s: &'static str)
    ensures
        s@ == export_format_text(format),
{
    match format {
        ExportImageFormat::Png => "png",
        ExportImageFormat::Jpeg => "jpeg",
        ExportImageFormat::WebP => "webp",
    }
}

/// The settings as a report shows them: numbers as they are, enums by their fixed labels.
#[derive(Debug, Clone, Copy, PartialEq, Eq)]
pub struct SanitizedSettings {
    pub schema_version: u16,
    pub theme: &'static str,
    pub history_limit: u32,
    pub history_retention_days: u16,
    pub history_max_bytes: u64,
    pub pin_limit: u16,
    pub default_pin_opacity_percent: u8,
    pub default_pin_always_on_top: bool,
    pub ocr_confidence_threshold: u8,
    pub export_format: &'static str,
    pub jpeg_quality: u8,
}

impl SanitizedSettings {
    /// Whether `self` shows exactly `settings`.
    pub open spec fn shows(self, settings: AppSettings) -> bool {
        &&& self.schema_version == settings.schema_version
        &&& self.theme@ == theme_text(settings.theme)
        &&& self.history_limit == settings.history_limit
        &&& self.history_retention_days == settings.history_retention_days
        &&& self.history_max_bytes == settings.history_max_bytes
        &&& self.pin_limit == settings.pin_limit
        &&& self.default_pin_opacity_percent == settings.default_pin_opacity_percent
        &&& self.default_pin_always_on_top == settings.default_pin_always_on_top
        &&& self.ocr_confidence_threshold == settings.ocr_confidence_threshold
        &&& self.export_format@ == export_format_text(settings.export_format)
        &&& self.jpeg_quality == settings.jpeg_quality
    }

    pub fn from_settings(settings: AppSettings) -> (s: SanitizedSettings)
        ensures
            s.shows(settings),
    {
        SanitizedSettings {
            schema_version: settings.schema_version,
            theme: theme_label(settings.theme),
            history_limit: settings.history_limit,
            history_retention_days: settings.history_retention_days,
            history_max_bytes: settings.history_max_bytes,
            pin_limit: settings.pin_limit,
            default_pin_opacity_percent: settings.default_pin_opacity_percent,
            default_pin_always_on_top: settings.default_pin_always_on_top,
            ocr_confidence_threshold: settings.ocr_confidence_threshold,
            export_format: export_format_label(settings.export_format),
            jpeg_quality: settings.jpeg_quality,
        }
    }
}

/// Everything a diagnostic report may say.
#[derive(Debug, Clone, Copy, PartialEq, Eq)]
pub struct SanitizedDiagnosticReport {
    pub platform: &'static str,
    pub capabilities: [(&'static str, bool); 5],
    pub feedback: &'static str,
    pub error_code: Option<ErrorCode>,
    pub settings: SanitizedSettings,
}

/// One `key=value` line of a report.
pub open spec fn line(key: Seq<char>, value: Seq<char>) -> Seq<char> {
    key + "="@ + value + "\n"@
}

pub open spec fn bool_text(value: bool) -> Seq<char> {
    if value {
        "true"@
    } else {
        "false"@
    }
}

pub open spec fn error_text(error: Option<ErrorCode>) -> Seq<char> {
    match error {
        Some(e) => e.name(),
        None => "none"@,
    }
}

pub open spec fn capability_line(row: (&'static str, bool)) -> Seq<char> {
    line(capability_key_text(row.0@), bool_text(row.1))
}

/// The whole text of a report written by program version `version`.
pub open spec fn report_text(r: SanitizedDiagnosticReport, version: Seq<char>) -> Seq<char> {
    let s = r.settings;
    "PINORA_DIAGNOSTICS_V1\n"@
        + line("version"@, version)
        + line("platform"@, r.platform@)
        + capability_line(r.capabilities[0])
        + capability_line(r.capabilities[1])
        + capability_line(r.capabilities[2])
        + capability_line(r.capabilities[3])
        + capability_line(r.capabilities[4])
        + line("feedback"@, r.feedback@)
        + line("error_code"@, error_text(r.error_code))
        + line("settings.schema_version"@, decimal(s.schema_version as nat))
        + line("settings.theme"@, s.theme@)
        + line("settings.history_limit"@, decimal(s.history_limit as nat))
        + line("settings.history_retention_days"@, decimal(s.history_retention_days as nat))
        + line("settings.history_max_bytes"@, decimal(s.history_max_bytes as nat))
        + line("settings.pin_limit"@, decimal(s.pin_limit as nat))
        + line("settings.default_pin_opacity_percent"@, decimal(s.default_pin_opacity_percent as nat))
        + line("settings.default_pin_always_on_top"@, bool_text(s.default_pin_always_on_top))
        + line("settings.ocr_confidence_threshold"@, decimal(s.ocr_confidence_threshold as nat))
        + line("settings.export_format"@, s.export_format@)
        + line("settings.jpeg_quality"@, decimal(s.jpeg_quality as nat))
}

fn push_line(report: &mut String, key: &str, value: &str)
    ensures
        final(report)@ == old(report)@ + line(key@, value@),
{
    push_text(report, key);
    push_text(report, "=");
    push_text(report, value);
    push_text(report, "\n");
    assert(final(report)@ =~= old(report)@ + line(key@, value@));
}

fn push_bool_line(report: &mut String, key: &str, value: bool)
    ensures
        final(report)@ == old(report)@ + line(key@, bool_text(value)),
{
    push_line(report, key, if value { "true" } else { "false" });
}

fn push_number_line(report: &mut String, key: &str, value: u64)
    ensures
        final(report)@ == old(report)@ + line(key@, decimal(value as nat)),
{
    push_text(report, key);
    push_text(report, "=");
    push_decimal(report, value);
    push_text(report, "\n");
    assert(final(report)@ =~= old(report)@ + line(key@, decimal(value as nat)));
}

fn push_capability_line(report: &mut String, row: (&'static str, bool))
    ensures
        final(report)@ == old(report)@ + capability_line(row),
{
    push_bool_line(report, capability_key(row.0), row.1);
}

impl SanitizedDiagnosticReport {
    pub fn from_runtime(
        capabilities: &CapabilitySnapshot,
        panel: &DiagnosticsPanel,
        settings: AppSettings,
    ) -> (r: SanitizedDiagnosticReport)
        ensures
            r.platform == panel.platform,
            r.capabilities[0].0@ == "CAPTURE"@,
            r.capabilities[0].1 == capabilities.capture_available,
            r.capabilities[1].0@ == "GLOBAL HOTKEY"@,
            r.capabilities[1].1 == panel.capabilities[1],
            r.capabilities[2].0@ == "IMAGE CLIPBOARD"@,
            r.capabilities[2].1 == capabilities.clipboard_image_available,
            r.capabilities[3].0@ == "ALWAYS ON TOP"@,
            r.capabilities[3].1 == capabilities.always_on_top_available,
            r.capabilities[4].0@ == "LOCAL OCR"@,
            r.capabilities[4].1 == panel.capabilities[4],
            r.feedback == panel.feedback_label,
            r.error_code == panel.error,
            r.settings.shows(settings),
    {
        let rows = panel.capability_rows();
        SanitizedDiagnosticReport {
            platform: panel.platform(),
            capabilities: [
                (rows[0].0, capabilities.capture_available),
                (rows[1].0, rows[1].1),
                (rows[2].0, capabilities.clipboard_image_available),
                (rows[3].0, capabilities.always_on_top_available),
                (rows[4].0, rows[4].1),
            ],
            feedback: panel.feedback_label(),
            error_code: panel.error_code(),
            settings: SanitizedSettings::from_settings(settings),
        }
    }

    /// The report as text: a fixed first line, then one `key=value` line per field.
    /// `version` is the version of the program that writes it.
    pub fn render(&self, version: &str) -> (report: String)
        ensures
            report@ == report_text(*self, version@),
    {
        let s = self.settings;
        let mut report = String::new();
        push_text(&mut report, "PINORA_DIAGNOSTICS_V1\n");
        push_line(&mut report, "version", version);
        push_line(&mut report, "platform", self.platform);
        push_capability_line(&mut report, self.capabilities[0]);
        push_capability_line(&mut report, self.capabilities[1]);
        push_capability_line(&mut report, self.capabilities[2]);
        push_capability_line(&mut report, self.capabilities[3]);
        push_capability_line(&mut report, self.capabilities[4]);
        push_line(&mut report, "feedback", self.feedback);
        let code = match self.error_code {
            Some(e) => e.as_str(),
            None => "none",
        };
        push_line(&mut report, "error_code", code);
        push_number_line(&mut report, "settings.schema_version", s.schema_version as u64);
        push_line(&mut report, "settings.theme", s.theme);
        push_number_line(&mut report, "settings.history_limit", s.history_limit as u64);
        push_number_line(&mut report, "settings.history_retention_days", s.history_retention_days as u64);
        push_number_line(&mut report, "settings.history_max_bytes", s.history_max_bytes);
        push_number_line(&mut report, "settings.pin_limit", s.pin_limit as u64);
        push_number_line(
            &mut report,
            "settings.default_pin_opacity_percent",
            s.default_pin_opacity_percent as u64,
        );
        push_bool_line(&mut report, "settings.default_pin_always_on_top", s.default_pin_always_on_top);
        push_number_line(&mut report, "settings.ocr_confidence_threshold", s.ocr_confidence_threshold as u64);
        push_line(&mut report, "settings.export_format", s.export_format);
        push_number_line(&mut report, "settings.jpeg_quality", s.jpeg_quality as u64);
        report
    }
}

} // verus!
