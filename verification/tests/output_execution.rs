use fixer::output::{
    completed_status, first_stale, operation_step, preflight, preflight_report, reflink_failure, step_error,
    validate_relative_target, ExecutionError, ExecutionPolicy, FileIdentity, FileKind, IoKind, OperationCheck,
    OperationKind, OperationStatus, OperationStep, OverwritePolicy, PathFingerprint, ReflinkFailure, ReflinkPolicy,
    SourceState, StepFailure, TargetState,
};

fn check(kind: OperationKind, target: TargetState, source: SourceState) -> OperationCheck {
    OperationCheck { kind, target, source }
}

#[test]
fn dry_run_previews_without_touching_the_filesystem() {
    let checks = vec![check(OperationKind::WriteBytes, TargetState::Missing, SourceState::Unresolved)];
    let steps = preflight(&checks, ExecutionPolicy::dry_run()).unwrap();
    assert_eq!(steps, vec![OperationStep::DryRun]);
    assert_eq!(completed_status(steps[0], OperationKind::WriteBytes), OperationStatus::DryRun);
}

#[test]
fn existing_targets_default_to_no_overwrite() {
    let checks = vec![check(OperationKind::WriteBytes, TargetState::Other, SourceState::Unresolved)];
    let (index, failure) = preflight(&checks, ExecutionPolicy::new()).unwrap_err();
    assert_eq!(index, 0);
    assert_eq!(failure, StepFailure::TargetExists);
    let error = step_error(failure, "library/movie.json".to_string(), String::new());
    assert!(matches!(error, ExecutionError::TargetExists { ref path } if path == "library/movie.json"));
}

#[test]
fn deserialized_traversal_is_rejected_again_at_the_sdk_boundary() {
    assert!(matches!(validate_relative_target("../escape"), Err(ExecutionError::UnsafeTarget { .. })));
}

#[test]
fn preflight_failure_reports_operation_without_partial_output() {
    let checks = vec![
        check(OperationKind::WriteBytes, TargetState::Missing, SourceState::Unresolved),
        check(OperationKind::Copy, TargetState::Missing, SourceState::NotFile),
    ];
    let (index, failure) = preflight(&checks, ExecutionPolicy::new()).unwrap_err();
    assert_eq!(index, 1);
    assert_eq!(failure, StepFailure::SourceUnavailable);
    let report = preflight_report(index, "library/movie.mkv".to_string());
    assert_eq!(report.operations().len(), 1);
    assert_eq!(report.operations()[0].index, 1);
    assert_eq!(report.operations()[0].status, OperationStatus::Failed);
}

#[test]
fn later_collision_is_found_before_any_write() {
    let checks = vec![
        check(OperationKind::Copy, TargetState::Missing, SourceState::File),
        check(OperationKind::WriteBytes, TargetState::Other, SourceState::Unresolved),
    ];
    assert_eq!(preflight(&checks, ExecutionPolicy::new()), Err((1, StepFailure::TargetExists)));
}

#[test]
fn existing_directory_counts_as_done() {
    let policy = ExecutionPolicy::new();
    assert_eq!(
        operation_step(OperationKind::CreateDirectory, policy, TargetState::Directory, SourceState::Unresolved),
        Ok(OperationStep::AlreadyDone)
    );
    assert_eq!(
        operation_step(OperationKind::CreateDirectory, policy, TargetState::Other, SourceState::Unresolved),
        Err(StepFailure::TargetExists)
    );
    assert_eq!(
        operation_step(OperationKind::CreateDirectory, policy, TargetState::Missing, SourceState::Unresolved),
        Ok(OperationStep::CreateDirectory)
    );
}

#[test]
fn replace_publishes_through_a_temporary_file() {
    let replace = ExecutionPolicy::new().with_overwrite(OverwritePolicy::Replace);
    assert_eq!(
        operation_step(OperationKind::WriteBytes, replace, TargetState::Other, SourceState::Unresolved),
        Ok(OperationStep::ThroughTemporary { publish: OverwritePolicy::Replace })
    );
    assert_eq!(
        operation_step(OperationKind::Hardlink, replace, TargetState::Other, SourceState::File),
        Ok(OperationStep::ThroughTemporary { publish: OverwritePolicy::Replace })
    );
    assert_eq!(
        operation_step(OperationKind::Symlink, ExecutionPolicy::new(), TargetState::Missing, SourceState::File),
        Ok(OperationStep::AtTarget)
    );
    assert_eq!(
        operation_step(OperationKind::Reflink, ExecutionPolicy::new(), TargetState::Missing, SourceState::File),
        Ok(OperationStep::ThroughTemporary { publish: OverwritePolicy::NoOverwrite })
    );
}

#[test]
fn sources_must_be_resolvable_files() {
    let policy = ExecutionPolicy::new();
    assert_eq!(
        operation_step(OperationKind::Copy, policy, TargetState::Other, SourceState::Unresolved),
        Err(StepFailure::NoSource)
    );
    let error = step_error(StepFailure::NoSource, String::new(), String::new());
    assert!(matches!(error, ExecutionError::InvalidPlan(ref m) if m == "operation has no source"));
    let error = step_error(StepFailure::SourceUnavailable, String::new(), "missing.mkv".to_string());
    assert!(matches!(error, ExecutionError::SourceUnavailable { ref path } if path == "missing.mkv"));
}

#[test]
fn failed_reflinks_follow_the_policy() {
    assert_eq!(reflink_failure(IoKind::Other, ReflinkPolicy::Required), (ReflinkFailure::Unsupported, true));
    assert_eq!(reflink_failure(IoKind::Other, ReflinkPolicy::FallbackToCopy), (ReflinkFailure::CopyInstead, true));
    assert_eq!(reflink_failure(IoKind::NotFound, ReflinkPolicy::FallbackToCopy), (ReflinkFailure::SourceUnavailable, true));
    assert_eq!(reflink_failure(IoKind::AlreadyExists, ReflinkPolicy::Required), (ReflinkFailure::TemporaryTaken, false));
    assert_eq!(completed_status(OperationStep::ThroughTemporary { publish: OverwritePolicy::NoOverwrite }, OperationKind::Reflink), OperationStatus::Reflinked);
}

#[test]
fn changed_path_makes_the_plan_stale() {
    let file = PathFingerprint::Present {
        kind: FileKind::File,
        len: 5,
        modified_unix_nanos: Some(10),
        identity: Some(FileIdentity { device: 1, inode: 2 }),
    };
    let grown = PathFingerprint::Present {
        kind: FileKind::File,
        len: 6,
        modified_unix_nanos: Some(10),
        identity: Some(FileIdentity { device: 1, inode: 2 }),
    };
    let observed = vec![PathFingerprint::Missing, file];
    assert_eq!(first_stale(&observed, &vec![PathFingerprint::Missing, file]), None);
    assert_eq!(first_stale(&observed, &vec![PathFingerprint::Missing, grown]), Some(1));
}

#[test]
fn taken_targets_map_to_target_exists() {
    use_map_target_io();
}

fn use_map_target_io() {
    let taken = fixer::output::map_target_io(
        "create symlink",
        "library/movie.mkv".to_string(),
        std::io::Error::new(std::io::ErrorKind::AlreadyExists, "exists"),
        IoKind::AlreadyExists,
    );
    assert!(matches!(taken, ExecutionError::TargetExists { ref path } if path == "library/movie.mkv"));
    let denied = fixer::output::map_target_io(
        "create symlink",
        "library/movie.mkv".to_string(),
        std::io::Error::new(std::io::ErrorKind::PermissionDenied, "denied"),
        IoKind::PermissionDenied,
    );
    assert!(matches!(denied, ExecutionError::Io { action: "create symlink", .. }));
}

#[test]
fn run_report_ends_with_the_first_failure() {
    let targets = vec!["a".to_string(), "b".to_string(), "c".to_string()];
    let outcomes = vec![Some(OperationStatus::Completed), None, Some(OperationStatus::Completed)];
    let (report, failed) = fixer::output::run_report(&targets, &outcomes);
    assert_eq!(failed, Some(1));
    let entries = report.operations();
    assert_eq!(entries.len(), 2);
    assert_eq!((entries[0].index, entries[0].target.as_str(), entries[0].status), (0, "a", OperationStatus::Completed));
    assert_eq!((entries[1].index, entries[1].target.as_str(), entries[1].status), (1, "b", OperationStatus::Failed));
}

#[test]
fn run_report_of_a_full_run_lists_every_operation() {
    let targets = vec!["a".to_string(), "b".to_string()];
    let outcomes = vec![Some(OperationStatus::Reflinked), Some(OperationStatus::CopiedFallback)];
    let (report, failed) = fixer::output::run_report(&targets, &outcomes);
    assert_eq!(failed, None);
    assert_eq!(report.operations()[1].status, OperationStatus::CopiedFallback);
    let mut stepwise = fixer::output::ExecutionReport::new();
    assert!(!fixer::output::record_outcome(&mut stepwise, 0, "a".to_string(), Some(OperationStatus::DryRun)));
    assert!(fixer::output::record_outcome(&mut stepwise, 1, "b".to_string(), None));
    assert_eq!(stepwise.operations()[1].status, OperationStatus::Failed);
}
