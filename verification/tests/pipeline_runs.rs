use mysql_backup::pipeline::{
    DeletionFailure, DumpOutcome, PipelineRun, RunOutcome, Stage, StageFailure, success_message,
};
use mysql_backup::scheduler::{next_wait_secs, RETRY_INTERVAL_SECS};
use mysql_backup::timestamp::Timestamp;

#[test]
fn upload_failure_fails_the_run_and_keeps_the_staging_file() {
    let mut run = PipelineRun::new();
    run.name_computed("mysql-2024-01-02:03:04:05.gz".to_string());
    run.dump_done(DumpOutcome::Dumped, true);
    run.upload_done(false);
    assert_eq!(run.outcome(), RunOutcome::Failed(StageFailure::Upload));
    assert!(run.staging_file_present);
    // the scheduler retries after the short interval, not the full one
    assert_eq!(next_wait_secs(run.outcome(), 86400, RETRY_INTERVAL_SECS), 60);
}

#[test]
fn one_failed_deletion_is_recorded_and_the_run_still_succeeds() {
    let mut run = PipelineRun::new();
    run.name_computed("mysql-2024-01-02:03:04:05.gz".to_string());
    run.dump_done(DumpOutcome::Dumped, true);
    run.upload_done(true);
    run.prune_done(vec![DeletionFailure {
        name: "mysql-2024-01-01:00:00:00.gz".to_string(),
        error: "remove command failed".to_string(),
    }]);
    assert_eq!(run.failed_deletions.len(), 1);
    assert_eq!(run.failed_deletions[0].name, "mysql-2024-01-01:00:00:00.gz");
    run.cleanup_done(true);
    // the run reaches the notification stage: the notifier is still invoked
    assert_eq!(run.stage, Stage::LocalCleanedUp);
    run.notify_done(true);
    run.finish();
    assert_eq!(run.outcome(), RunOutcome::Succeeded);
    assert!(!run.staging_file_present);
}

#[test]
fn dump_and_compression_failures_abort_with_their_own_errors() {
    let mut run = PipelineRun::new();
    run.name_computed("n".to_string());
    run.dump_done(DumpOutcome::DumpFailed, true);
    assert_eq!(run.outcome(), RunOutcome::Failed(StageFailure::Dump));

    let mut run = PipelineRun::new();
    run.name_computed("n".to_string());
    run.dump_done(DumpOutcome::CompressionFailed, true);
    assert_eq!(run.outcome(), RunOutcome::Failed(StageFailure::Compression));
}

#[test]
fn cleanup_and_notification_failures_never_fail_the_run() {
    let mut run = PipelineRun::new();
    run.name_computed("n".to_string());
    run.dump_done(DumpOutcome::Dumped, true);
    run.upload_done(true);
    run.prune_done(Vec::new());
    run.cleanup_done(false);
    assert!(run.staging_file_present);
    run.notify_done(false);
    run.finish();
    assert_eq!(run.outcome(), RunOutcome::Succeeded);
}

#[test]
fn successful_run_waits_the_full_interval() {
    assert_eq!(next_wait_secs(RunOutcome::Succeeded, 86400, 60), 86400);
    assert_eq!(
        next_wait_secs(RunOutcome::Failed(StageFailure::Dump), 86400, 60),
        60
    );
}

#[test]
fn clock_fields_pack_exactly_when_the_year_fits() {
    let t = Timestamp::from_fields(2024, 1, 2, 3, 4, 5).expect("the year fits");
    assert_eq!(
        t,
        Timestamp { year: 2024, month: 1, day: 2, hour: 3, minute: 4, second: 5 }
    );
    assert!(t.check_wf());
    assert!(Timestamp::from_fields(-1, 1, 2, 3, 4, 5).is_none());
    assert!(Timestamp::from_fields(10000, 1, 2, 3, 4, 5).is_none());
    assert!(Timestamp::from_fields(0, 1, 1, 0, 0, 0).is_some());
    assert!(Timestamp::from_fields(9999, 12, 31, 23, 59, 59).is_some());
    // a name computed from packed clock fields has the fixed shape
    let name = mysql_backup::naming::name_for(t);
    assert_eq!(name.len(), 28);
    assert!(name.starts_with("mysql-") && name.ends_with(".gz"));
}

#[test]
fn notifier_message_names_the_artifact() {
    assert_eq!(
        success_message("mysql-2024-01-02:03:04:05.gz"),
        "database backed up: mysql-2024-01-02:03:04:05.gz"
    );
}
