use cliniscribe::download::{
    artifact_intact, percentage, DownloadRegistry, DownloadTask, EnsurePlan, FailReason, FileAction,
    ModelKind, Phase,
};

#[test]
fn intact_checks_size() {
    assert!(artifact_intact(Some(10), Some(10)));
    assert!(!artifact_intact(Some(9), Some(10)));
    assert!(!artifact_intact(None, Some(10)));
    assert!(artifact_intact(Some(1), None));
    assert!(!artifact_intact(Some(0), None));
}

#[test]
fn present_artifact_needs_no_download() {
    let mut reg = DownloadRegistry::new();
    assert_eq!(reg.ensure_model(ModelKind::Speech, Some(42), Some(42)), EnsurePlan::UseExisting);
    assert_eq!(reg.ensure_model(ModelKind::Speech, None, Some(42)), EnsurePlan::Download);
}

#[test]
fn second_request_joins_first() {
    let mut reg = DownloadRegistry::new();
    let first = reg.ensure_model(ModelKind::Language, None, None);
    let second = reg.ensure_model(ModelKind::Language, Some(3), Some(42));
    assert_eq!(first, EnsurePlan::Download);
    assert_eq!(second, EnsurePlan::Join);
    assert_eq!(reg.ensure_model(ModelKind::Speech, None, None), EnsurePlan::Download);
}

#[test]
fn finished_download_can_start_again() {
    let mut reg = DownloadRegistry::new();
    assert_eq!(reg.ensure_model(ModelKind::Speech, None, None), EnsurePlan::Download);
    reg.finish(ModelKind::Speech);
    assert_eq!(reg.ensure_model(ModelKind::Speech, None, None), EnsurePlan::Download);
}

#[test]
fn percentage_values() {
    assert_eq!(percentage(50, Some(200)), Some(25));
    assert_eq!(percentage(199, Some(200)), Some(99));
    assert_eq!(percentage(300, Some(200)), Some(100));
    assert_eq!(percentage(0, Some(0)), Some(100));
    assert_eq!(percentage(u64::MAX - 1, Some(u64::MAX)), Some(99));
    assert_eq!(percentage(5, None), None);
}

#[test]
fn progress_is_rate_bounded_and_monotone() {
    let mut t = DownloadTask::new(ModelKind::Speech, Some(1000));
    assert!(t.record_chunk(100, 300).is_none());
    assert!(t.record_chunk(100, 300).is_none());
    let e = t.record_chunk(150, 300).unwrap();
    assert_eq!(e.transferred, 350);
    assert_eq!(e.percent, Some(35));
    assert!(t.record_chunk(100, 300).is_none());
    let last = t.record_chunk(550, 300).unwrap();
    assert_eq!(last.transferred, 1000);
    assert!(last.transferred >= e.transferred);
    assert_eq!(last.phase, Phase::Downloading);
}

#[test]
fn expected_size_reached_is_reported() {
    let mut t = DownloadTask::new(ModelKind::Speech, Some(10));
    let e = t.record_chunk(10, 1_000_000).unwrap();
    assert_eq!(e.percent, Some(100));
}

#[test]
fn verified_file_is_moved_into_place() {
    let mut t = DownloadTask::new(ModelKind::Language, Some(8));
    t.record_chunk(8, 1);
    t.finish_transfer();
    assert_eq!(t.phase, Phase::Verifying);
    assert_eq!(t.verify(8), FileAction::MoveIntoPlace);
    assert_eq!(t.phase, Phase::Complete);
}

#[test]
fn corrupt_file_is_removed() {
    let mut t = DownloadTask::new(ModelKind::Language, Some(8));
    t.record_chunk(7, 1);
    t.finish_transfer();
    assert_eq!(t.verify(7), FileAction::RemoveTemp);
    assert_eq!(t.phase, Phase::Failed(FailReason::IntegrityMismatch));
}

#[test]
fn verify_before_transfer_end_does_nothing() {
    let mut t = DownloadTask::new(ModelKind::Language, None);
    assert_eq!(t.verify(0), FileAction::Nothing);
    assert_eq!(t.phase, Phase::Downloading);
}

#[test]
fn cancelled_download_leaves_no_artifact() {
    let mut reg = DownloadRegistry::new();
    assert_eq!(reg.ensure_model(ModelKind::Speech, None, Some(100)), EnsurePlan::Download);
    let mut t = DownloadTask::new(ModelKind::Speech, Some(100));
    t.record_chunk(40, 10);
    assert_eq!(t.abort(FailReason::Cancelled), FileAction::RemoveTemp);
    assert_eq!(t.progress().phase, Phase::Failed(FailReason::Cancelled));
    t.finish_transfer();
    assert_eq!(t.verify(100), FileAction::Nothing);
    assert!(t.record_chunk(60, 10).is_none());
    reg.finish(ModelKind::Speech);
    assert_eq!(reg.ensure_model(ModelKind::Speech, None, Some(100)), EnsurePlan::Download);
    assert_eq!(DownloadTask::new(ModelKind::Speech, Some(100)).transferred, 0);
}

#[test]
fn abort_after_completion_keeps_artifact() {
    let mut t = DownloadTask::new(ModelKind::Speech, None);
    t.record_chunk(3, 1);
    t.finish_transfer();
    assert_eq!(t.verify(3), FileAction::MoveIntoPlace);
    assert_eq!(t.abort(FailReason::Network), FileAction::Nothing);
    assert_eq!(t.phase, Phase::Complete);
}

#[test]
fn network_failure_mid_stream() {
    let mut t = DownloadTask::new(ModelKind::Speech, Some(50));
    t.record_chunk(20, 100);
    assert_eq!(t.abort(FailReason::Network), FileAction::RemoveTemp);
    assert_eq!(t.phase, Phase::Failed(FailReason::Network));
}
