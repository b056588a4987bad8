# pinora

Pinora is a screenshot tool for the Linux desktop: capture a region or a display, annotate
it on an overlay, pin it as a floating window, copy or save it, run OCR on it, and browse a
history of past captures.

This crate holds its logic as a library verified with Verus. Each public function states in
`requires`/`ensures` what it returns or changes, over spec functions and views, and Verus
proves the code against those contracts.

## Layout

- `src/` — the verified library. Among others:
  - `history_store.rs`, `history.rs`, `history_cleanup.rs`, `history_export.rs`: the
    history index, its binary format with a CRC-32 check, and the round trip between
    encoding and decoding;
  - `job_supervisor.rs`, `cancellation.rs`: the background job state machine (submit,
    cancel, expire, accept or reject results);
  - `overlay_*.rs`, `pin_*.rs`, `event_loop.rs`, `desktop_shell.rs`: the decisions of the
    capture overlay, pinned windows and the event loop, as functions from state and event
    to the next state and action;
  - `calendar.rs`, `export_name.rs`, `ipc.rs`, `scan.rs`, `kscreen.rs`, `ocr.rs`: parsers,
    names and formats;
  - `png_codec.rs`: PNG decoding and encoding through the `png` crate, behind two trusted
    wrappers whose results are named, with the conversions around them verified.
- `tests/` — tests that run the compiled library, outside crates linked.
- `app/` — ordinary Rust around the library: file and process I/O, global hotkeys,
  clipboard tools, KDE capture and window placement. It hands the library plain values
  and performs the actions the library decides on.

## Verification

Verus verifies `src/`; the tests in `tests/` build against the library like any other
crate.
