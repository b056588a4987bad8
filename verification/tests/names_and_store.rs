use std::collections::BTreeSet;

use pinora::annotation_doc::{overlay_asset_for_revision, AnnotationDoc, AnnotationRevision, OverlayAssetIdentity};
use pinora::export_name::{file_name, ExportNameAllocator};
use pinora::geometry::PixelRect;
use pinora::history::{HistoryEntry, HistoryEntryState, HistoryOcrState};
use pinora::history_cleanup::mark_deleted;
use pinora::history_store::{crc32, decode, encode, HistoryLoad, HistoryStore, HISTORY_SCHEMA_VERSION};
use pinora::job_supervisor::{JobResultDisposition, JobSupervisor};
use pinora::model::{
    AssetGeneration, CorrelationId, ErrorCode, ImageId, JobId, JobKind, JobOwner, JobResultRef,
    JobSpec, JobTerminalState, PinoraError, SessionId,
};

#[test]
fn filename_uses_sortable_utc_time_without_internal_identity() {
    assert_eq!(file_name(0, 0), "Pinora_19700101_000000.png");
    assert_eq!(file_name(951_782_400, 0), "Pinora_20000229_000000.png");
    assert_eq!(file_name(1_785_681_000, 7), "Pinora_20260802_143000_007.png");
    assert!(!file_name(1_785_681_000, 0).contains("ImageId"));
}

#[test]
fn same_second_and_existing_names_increment_without_overwrite() {
    let mut allocator = ExportNameAllocator::new();
    let mut existing = BTreeSet::from(["Pinora_20260802_143000.png".to_string()]);

    let first = allocator
        .allocate(1_785_681_000, |name| Ok(existing.contains(&name)))
        .expect("allocate first");
    existing.insert(first.clone());
    let second = allocator
        .allocate(1_785_681_000, |name| Ok(existing.contains(&name)))
        .expect("allocate second");

    assert_eq!(first, "Pinora_20260802_143000_001.png");
    assert_eq!(second, "Pinora_20260802_143000_002.png");
    assert_ne!(first, second);
}

#[test]
fn occupied_check_failure_is_returned_without_advancing_state() {
    let mut allocator = ExportNameAllocator::new();
    let error = allocator
        .allocate(0, |_| Err(PinoraError::new(ErrorCode::Internal, "occupied check failed")))
        .expect_err("must not allocate after failed check");
    assert_eq!(error.code, ErrorCode::Internal);

    let name = allocator.allocate(0, |_| Ok(false)).expect("state remains unadvanced");
    assert_eq!(name, "Pinora_19700101_000000.png");
}

#[test]
fn a_new_second_starts_over_without_a_sequence() {
    let mut allocator = ExportNameAllocator::new();
    assert_eq!(allocator.allocate(60, |_| Ok(false)).unwrap(), "Pinora_19700101_000100.png");
    assert_eq!(allocator.allocate(60, |_| Ok(false)).unwrap(), "Pinora_19700101_000100_001.png");
    assert_eq!(allocator.allocate(61, |_| Ok(false)).unwrap(), "Pinora_19700101_000101.png");
}

fn entry(id: u64, file: &str) -> HistoryEntry {
    HistoryEntry {
        image_id: ImageId::from_raw(id),
        generation: AssetGeneration::from_raw(1).expect("generation"),
        created_at_ms: id * 1000,
        display: "display-0".into(),
        source_rect: PixelRect::new(-5, 6, 20, 10),
        file_name: file.into(),
        byte_len: 42,
        digest: [id as u8; 32],
        ocr: HistoryOcrState::Unknown,
        state: HistoryEntryState::Active,
    }
}

fn store() -> HistoryStore {
    HistoryStore::new("/state/history.bin".into(), 10, 100_000)
}

#[test]
fn missing_and_corrupt_index_are_distinct_and_preserved() {
    let store = store();
    assert!(matches!(store.interpret(None), HistoryLoad::Missing(entries) if entries.is_empty()));
    assert!(matches!(store.interpret(Some(&b"corrupt"[..])), HistoryLoad::Invalid(_)));
}

#[test]
fn save_round_trips_tombstone_and_removes_temp_file() {
    let mut entries = vec![entry(7, "a.png"), entry(8, "b.png")];
    mark_deleted(&mut entries, ImageId::from_raw(8)).expect("mark");
    let bytes = encode(&entries).expect("encode");
    assert!(matches!(store().interpret(Some(bytes.as_slice())), HistoryLoad::Loaded(loaded) if loaded == entries));
}

#[test]
fn unknown_schema_and_checksum_are_rejected() {
    let entries = vec![entry(7, "a.png")];
    let mut bytes = encode(&entries).expect("encode");
    bytes[8] = 2;
    assert!(matches!(store().interpret(Some(bytes.as_slice())), HistoryLoad::Invalid(error) if error.contains("schema")));
    bytes[8] = HISTORY_SCHEMA_VERSION as u8;
    bytes[20] ^= 0xff;
    assert!(matches!(store().interpret(Some(bytes.as_slice())), HistoryLoad::Invalid(error) if error.contains("checksum")));
}

#[test]
fn store_limits_are_clamped_and_crc_matches_the_standard_check_value() {
    let s = HistoryStore::new("/state/history.bin".into(), 0, 0);
    assert_eq!(s.max_entries, 1);
    assert_eq!(s.max_bytes, 1);
    assert_eq!(s.path(), "/state/history.bin");
    assert_eq!(crc32(b"123456789"), 0xCBF4_3926);
}

fn annotation_revision_and_late_result(identity: OverlayAssetIdentity) {
    let mut doc: AnnotationDoc<&str> = AnnotationDoc::new();
    let submitted = identity.current(doc.revision());

    doc.push("rect");
    let current = identity.current(doc.revision());
    assert_eq!(submitted.image_id, current.image_id);
    assert_ne!(submitted.generation, current.generation);

    let spec = JobSpec::new(
        JobId::from_raw(11),
        CorrelationId::from_raw(12),
        submitted,
        JobOwner::Session(SessionId::from_raw(13)),
        JobKind::Ocr,
        100,
    );
    let mut supervisor = JobSupervisor::new();
    let ticket = supervisor.submit(spec).expect("submit overlay OCR");
    assert_eq!(
        supervisor
            .accept_result(JobResultRef::new(ticket.id, submitted), current, 1)
            .expect("known job"),
        JobResultDisposition::Rejected(JobTerminalState::StaleAsset)
    );

    let before_empty_undo = identity.current(doc.revision());
    assert!(doc.undo().is_some());
    assert_ne!(identity.current(doc.revision()), before_empty_undo);
    let after_undo = identity.current(doc.revision());
    assert_eq!(doc.undo(), None);
    assert_eq!(identity.current(doc.revision()), after_undo);
}

fn redo_fresh_generation(identity: OverlayAssetIdentity) {
    let mut doc: AnnotationDoc<&str> = AnnotationDoc::new();
    doc.push("rect");
    let committed = identity.current(doc.revision());
    assert!(doc.undo().is_some());
    let undone = identity.current(doc.revision());
    assert!(doc.redo().is_some());
    let redone = identity.current(doc.revision());

    assert_eq!(committed.image_id, undone.image_id);
    assert_eq!(undone.image_id, redone.image_id);
    assert_ne!(committed.generation, undone.generation);
    assert_ne!(undone.generation, redone.generation);
    assert_ne!(committed.generation, redone.generation);
    assert_eq!(doc.items(), &vec!["rect"]);
}

fn reselection_identity() {
    let first = OverlayAssetIdentity::new(ImageId::from_raw(1));
    let second = OverlayAssetIdentity::new(ImageId::from_raw(2));
    let revision = AnnotationRevision::initial();
    assert_ne!(first.current(revision).image_id, second.current(revision).image_id);
    assert_eq!(first.current(revision).generation, second.current(revision).generation);
    assert_eq!(overlay_asset_for_revision(Some(first), revision), Some(first.current(revision)));
    assert_eq!(overlay_asset_for_revision(None, revision), None);
}

#[test]
fn overlay_session_annotation_revision_changes_overlay_asset_and_rejects_late_result() {
    annotation_revision_and_late_result(OverlayAssetIdentity::new(ImageId::from_raw(40)));
}

#[test]
fn desktop_shell_annotation_revision_changes_overlay_asset_and_rejects_late_result() {
    annotation_revision_and_late_result(OverlayAssetIdentity::new(ImageId::from_raw(41)));
}

#[test]
fn overlay_session_redo_produces_a_fresh_overlay_asset_generation() {
    redo_fresh_generation(OverlayAssetIdentity::new(ImageId::from_raw(42)));
}

#[test]
fn desktop_shell_redo_produces_a_fresh_overlay_asset_generation() {
    redo_fresh_generation(OverlayAssetIdentity::new(ImageId::from_raw(43)));
}

#[test]
fn overlay_session_reselection_uses_a_new_image_identity_and_stamps_derived_image() {
    reselection_identity();
}

#[test]
fn desktop_shell_reselection_uses_a_new_image_identity_and_stamps_derived_image() {
    reselection_identity();
}

#[test]
fn header_refusals_name_what_is_wrong() {
    let entries = vec![entry(7, "a.png")];
    let good = encode(&entries).expect("encode");
    assert_eq!(decode(b"corrupt", 10).unwrap_err(), "history index length is invalid");
    assert!(matches!(store().interpret(Some(&b"corrupt"[..])), HistoryLoad::Invalid(e) if e == "history index length is invalid"));
    let mut magic = good.clone();
    magic[0] = b'X';
    assert_eq!(decode(&magic, 10).unwrap_err(), "history index magic is invalid");
    let mut schema = good.clone();
    schema[8] = 2;
    assert_eq!(decode(&schema, 10).unwrap_err(), "history index schema version is unsupported");
    let mut reserved = good.clone();
    reserved[11] = 1;
    assert_eq!(decode(&reserved, 10).unwrap_err(), "history index reserved bytes are invalid");
    assert_eq!(decode(&good, 0).unwrap_err(), "history entry count is invalid");
    let mut longer = good.clone();
    longer.push(0);
    assert_eq!(decode(&longer, 10).unwrap_err(), "history payload length is invalid");
    let mut checksum = good.clone();
    checksum[20] ^= 0xff;
    assert_eq!(decode(&checksum, 10).unwrap_err(), "history payload checksum is invalid");
}
