//! Pinora: verified core logic of a screenshot, pin and annotate desktop tool.

pub mod text;
pub mod calendar;
pub mod export_name;
pub mod history;
pub mod history_store;
pub mod history_browser;
pub mod overlay_toolbar;
pub mod pin_context_menu;
pub mod overlay_selection_readout;
pub mod pin_session;
pub mod kwin_place;
pub mod desktop_shell;
pub mod frame_cache;
pub mod geometry;
pub mod annotate;
pub mod model;
pub mod cancellation;
pub mod job_supervisor;
pub mod capture;
pub mod hotkey;
pub mod clipboard;
pub mod platform;
pub mod overlay_keys;
pub mod scan;
pub mod kscreen;
pub mod ocr;
pub mod ipc;
pub mod export_job;
pub mod history_cleanup;
pub mod annotation_doc;
pub mod overlay_target;
pub mod pin_input;
pub mod overlay_pointer;
pub mod pixels;
pub mod diagnostics;
pub mod xcap_monitors;
pub mod history_export;
pub mod event_loop;
pub mod overlay_paint;
pub mod png_codec;
