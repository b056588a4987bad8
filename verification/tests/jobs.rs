use pinora::export_job::{
    check_export_start, export_source_for_overlay_finish, running_file_export_ids,
    tray_export_operation, CaptureExportSource, ExportImageFormat, ExportJobInput,
    FrozenExportTarget, OverlayFinish, PendingExportAction, TrayExportOperation,
};
use pinora::job_supervisor::{AcceptedJobResult, JobResultDisposition, JobState, JobSupervisor};
use pinora::model::{
    AssetGeneration, AssetRef, CorrelationId, ErrorCode, ImageId, JobId, JobKind, JobOwner,
    JobResultRef, JobSpec, JobTerminalState, PinId, SessionId,
};

fn asset(image: u64, generation: u64) -> AssetRef {
    AssetRef::new(
        ImageId::from_raw(image),
        AssetGeneration::from_raw(generation).expect("non-zero generation"),
    )
}

fn spec(id: u64, owner: JobOwner, asset: AssetRef, deadline_at_ms: u64) -> JobSpec {
    JobSpec::new(
        JobId::from_raw(id),
        CorrelationId::from_raw(id + 100),
        asset,
        owner,
        JobKind::Ocr,
        deadline_at_ms,
    )
}

fn export_spec(id: u64, asset: AssetRef, kind: JobKind) -> JobSpec {
    JobSpec::new(
        JobId::from_raw(id),
        CorrelationId::from_raw(id),
        asset,
        JobOwner::Session(SessionId::from_raw(1)),
        kind,
        100,
    )
}

#[test]
fn accepts_matching_result_and_completes_job() {
    let asset = asset(1, 1);
    let job = spec(1, JobOwner::Pin(PinId::from_raw(9)), asset, 100);
    let mut supervisor = JobSupervisor::new();
    let ticket = supervisor.submit(job).expect("submit");

    let disposition = supervisor
        .accept_result(JobResultRef::new(ticket.id, asset), asset, 99)
        .expect("known job");

    assert_eq!(
        disposition,
        JobResultDisposition::Accepted(AcceptedJobResult {
            id: ticket.id,
            owner: job.owner,
            asset,
        })
    );
    assert_eq!(
        supervisor.state(ticket.id),
        Some(JobState::Finished(JobTerminalState::Completed))
    );
    assert!(!ticket.cancellation().is_cancelled());
}

#[test]
fn cancelled_job_rejects_late_result_and_signals_worker() {
    let asset = asset(2, 1);
    let job = spec(2, JobOwner::Pin(PinId::from_raw(10)), asset, 100);
    let mut supervisor = JobSupervisor::new();
    let ticket = supervisor.submit(job).expect("submit");

    assert_eq!(
        supervisor.cancel(ticket.id).expect("known job"),
        JobState::Finished(JobTerminalState::Cancelled)
    );
    assert!(ticket.cancellation().is_cancelled());
    assert_eq!(
        supervisor
            .accept_result(JobResultRef::new(ticket.id, asset), asset, 1)
            .expect("known job"),
        JobResultDisposition::Rejected(JobTerminalState::Cancelled)
    );
}

#[test]
fn worker_failure_only_transitions_a_running_job() {
    let asset = asset(8, 1);
    let job = spec(8, JobOwner::Pin(PinId::from_raw(8)), asset, 100);
    let mut supervisor = JobSupervisor::new();
    let ticket = supervisor.submit(job).expect("submit");

    assert_eq!(
        supervisor.fail(ticket.id).expect("known job"),
        JobState::Finished(JobTerminalState::Failed)
    );
    assert_eq!(
        supervisor.cancel(ticket.id).expect("known job"),
        JobState::Finished(JobTerminalState::Failed)
    );
    assert_eq!(supervisor.spec(ticket.id), Some(job));
}

#[test]
fn closing_owner_cancels_only_its_running_jobs() {
    let left_asset = asset(3, 1);
    let right_asset = asset(4, 1);
    let left_owner = JobOwner::Session(SessionId::from_raw(4));
    let right_owner = JobOwner::Pin(PinId::from_raw(5));
    let mut supervisor = JobSupervisor::new();
    let left = supervisor
        .submit(spec(3, left_owner, left_asset, 100))
        .expect("left submit");
    let right = supervisor
        .submit(spec(4, right_owner, right_asset, 100))
        .expect("right submit");

    assert_eq!(supervisor.close_owner(left_owner), 1);
    assert!(left.cancellation().is_cancelled());
    assert!(!right.cancellation().is_cancelled());
    assert_eq!(
        supervisor.state(left.id),
        Some(JobState::Finished(JobTerminalState::OwnerClosed))
    );
    assert_eq!(supervisor.state(right.id), Some(JobState::Running));
    assert_eq!(
        supervisor
            .submit(spec(5, left_owner, asset(5, 1), 100))
            .unwrap_err()
            .code,
        ErrorCode::InvalidState
    );
}

#[test]
fn timeout_rejects_result_at_deadline() {
    let asset = asset(6, 1);
    let job = spec(6, JobOwner::Pin(PinId::from_raw(6)), asset, 50);
    let mut supervisor = JobSupervisor::new();
    let ticket = supervisor.submit(job).expect("submit");

    assert_eq!(supervisor.expire_at(50), vec![ticket.id]);
    assert!(ticket.cancellation().is_cancelled());
    assert_eq!(
        supervisor
            .accept_result(JobResultRef::new(ticket.id, asset), asset, 50)
            .expect("known job"),
        JobResultDisposition::Rejected(JobTerminalState::TimedOut)
    );
}

#[test]
fn stale_asset_generation_is_rejected() {
    let captured_asset = asset(7, 1);
    let current_asset = captured_asset.advance().expect("generation advances");
    let job = spec(7, JobOwner::Pin(PinId::from_raw(7)), captured_asset, 100);
    let mut supervisor = JobSupervisor::new();
    let ticket = supervisor.submit(job).expect("submit");

    assert_eq!(
        supervisor
            .accept_result(
                JobResultRef::new(ticket.id, captured_asset),
                current_asset,
                1,
            )
            .expect("known job"),
        JobResultDisposition::Rejected(JobTerminalState::StaleAsset)
    );
    assert!(ticket.cancellation().is_cancelled());
    assert_eq!(
        supervisor.state(ticket.id),
        Some(JobState::Finished(JobTerminalState::StaleAsset))
    );
}

#[test]
fn rejects_kind_or_image_mismatch_before_worker_starts() {
    let image = ImageId::from_raw(2);
    let asset = AssetRef::initial(image);
    let err = check_export_start(
        &export_spec(2, asset, JobKind::Clipboard),
        &ExportJobInput::SaveImage {
            image,
            path: "/tmp/pinora-test.png".into(),
            format: ExportImageFormat::Png,
            jpeg_quality: 90,
        },
    )
    .unwrap_err();
    assert_eq!(err.code, ErrorCode::CommandRejected);
    assert_eq!(err.message, "export input requires Export, got Clipboard");
    let other = ImageId::from_raw(3);
    assert_eq!(
        check_export_start(
            &export_spec(3, asset, JobKind::Export),
            &ExportJobInput::SaveImage {
                image: other,
                path: "/tmp/pinora-test.png".into(),
                format: ExportImageFormat::Png,
                jpeg_quality: 90,
            },
        )
        .unwrap_err()
        .code,
        ErrorCode::InvalidState
    );
}

#[test]
fn rejects_mismatched_file_extension_or_invalid_jpeg_quality_before_worker_starts() {
    let image = ImageId::from_raw(12);
    let asset = AssetRef::initial(image);

    let extension_error = check_export_start(
        &export_spec(12, asset, JobKind::Export),
        &ExportJobInput::SaveImage {
            image,
            path: "/tmp/pinora-test.png".into(),
            format: ExportImageFormat::WebP,
            jpeg_quality: 90,
        },
    )
    .expect_err("mismatched extension must be rejected");
    assert_eq!(extension_error.code, ErrorCode::CommandRejected);

    let quality_error = check_export_start(
        &export_spec(13, asset, JobKind::Export),
        &ExportJobInput::SaveImage {
            image,
            path: "/tmp/pinora-test.jpg".into(),
            format: ExportImageFormat::Jpeg,
            jpeg_quality: 0,
        },
    )
    .expect_err("invalid JPEG quality must be rejected");
    assert_eq!(quality_error.code, ErrorCode::CommandRejected);
    assert_eq!(quality_error.message, "JPEG quality is outside the supported range");
}

#[test]
fn matching_requests_pass_the_start_checks() {
    let image = ImageId::from_raw(14);
    let asset = AssetRef::initial(image);
    assert!(check_export_start(
        &export_spec(14, asset, JobKind::Export),
        &ExportJobInput::SaveImage {
            image,
            path: "/home/me/Pictures/a.b.webp".into(),
            format: ExportImageFormat::WebP,
            jpeg_quality: 0,
        },
    )
    .is_ok());
    assert!(check_export_start(
        &export_spec(15, asset, JobKind::Clipboard),
        &ExportJobInput::CopyText { text: "hi".into() },
    )
    .is_ok());
    assert!(check_export_start(
        &export_spec(16, asset, JobKind::Export),
        &ExportJobInput::SaveImage {
            image,
            path: "/tmp/.png".into(),
            format: ExportImageFormat::Png,
            jpeg_quality: 1,
        },
    )
    .is_err());
}

#[test]
fn pin_finish_always_uses_the_annotated_export_source() {
    assert_eq!(
        export_source_for_overlay_finish(OverlayFinish::Copy, CaptureExportSource::Original),
        CaptureExportSource::Original
    );
    assert_eq!(
        export_source_for_overlay_finish(OverlayFinish::Save, CaptureExportSource::Original),
        CaptureExportSource::Original
    );
    assert_eq!(
        export_source_for_overlay_finish(OverlayFinish::Pin, CaptureExportSource::Original),
        CaptureExportSource::Annotated
    );
}

#[test]
fn export_session_pending_actions_map_to_their_stable_tray_operations() {
    assert_eq!(
        tray_export_operation(&PendingExportAction::CopyImage),
        TrayExportOperation::CopyImage
    );
    assert_eq!(
        tray_export_operation(&PendingExportAction::CopyText),
        TrayExportOperation::CopyText
    );
    assert_eq!(
        tray_export_operation(&PendingExportAction::SaveImage("export.png".into())),
        TrayExportOperation::SaveFile
    );
}

#[test]
fn export_session_file_export_cancellation_selects_only_running_save_jobs() {
    let asset = AssetRef::initial(ImageId::from_raw(93));
    let owner = JobOwner::Session(SessionId::from_raw(93));
    let mut supervisor = JobSupervisor::new();
    for id in 1..=4 {
        let job = JobSpec::new(
            JobId::from_raw(id),
            CorrelationId::from_raw(id),
            asset,
            owner,
            JobKind::Export,
            1000,
        );
        supervisor.submit(job).expect("submit");
    }
    supervisor.cancel(JobId::from_raw(4)).expect("known job");
    let pending = vec![
        (JobId::from_raw(1), PendingExportAction::SaveImage("a.png".into())),
        (JobId::from_raw(2), PendingExportAction::CopyImage),
        (JobId::from_raw(3), PendingExportAction::CopyText),
        (JobId::from_raw(4), PendingExportAction::SaveImage("b.png".into())),
        (JobId::from_raw(5), PendingExportAction::SaveImage("c.png".into())),
    ];

    let selected = running_file_export_ids(&pending, &supervisor);

    assert_eq!(selected, vec![JobId::from_raw(1)]);
}

#[test]
fn frozen_export_target_keeps_the_submission_parameters() {
    let target = FrozenExportTarget::new("capture.webp".into(), ExportImageFormat::WebP, 87);

    assert_eq!(target.path, "capture.webp");
    assert_eq!(target.format, ExportImageFormat::WebP);
    assert_eq!(target.jpeg_quality, 87);
}

#[test]
fn save_paths_are_read_like_std_paths() {
    let save = |path: &str| ExportJobInput::SaveImage {
        image: ImageId::from_raw(1),
        path: path.to_string(),
        format: ExportImageFormat::Png,
        jpeg_quality: 90,
    };
    assert!(save("/tmp/a.png").validate_file_target().is_ok());
    assert!(save("/tmp/a.png/").validate_file_target().is_ok());
    assert!(save("/tmp/a.png/.").validate_file_target().is_ok());
    assert!(save("/tmp/a.png/./").validate_file_target().is_ok());
    assert!(save("/tmp/..").validate_file_target().is_err());
    assert!(save("/").validate_file_target().is_err());
    assert!(save("/tmp/.png").validate_file_target().is_err());
}
