use fixer::job_model::{JobId, JobState};
use fixer::store::{
    StoreError, check_reservation_match, check_retry, check_transition, conflict_error, parse_state,
    timestamp_from_millis, validate_timestamps,
};

#[test]
fn corrupt_ids_timestamps_and_states_are_rejected() {
    for value in [i64::MIN, -1, 0] {
        assert!(matches!(
            JobId::from_database(value),
            Err(StoreError::CorruptRecord(_))
        ));
    }
    assert!(JobId::from_database(1).is_ok());

    assert!(matches!(
        validate_timestamps(-1, 0),
        Err(StoreError::CorruptRecord(_))
    ));
    assert!(matches!(
        validate_timestamps(2, 1),
        Err(StoreError::CorruptRecord(_))
    ));
    assert!(validate_timestamps(1, 1).is_ok());
    assert!(matches!(
        parse_state("unknown"),
        Err(StoreError::CorruptRecord(_))
    ));
}

#[test]
fn corrupt_record_messages_name_the_values() {
    assert_eq!(
        validate_timestamps(-5, 3),
        Err(StoreError::CorruptRecord(
            "invalid timestamps: created_at_ms=-5, updated_at_ms=3".to_owned()
        ))
    );
    assert_eq!(
        validate_timestamps(i64::MIN, 0),
        Err(StoreError::CorruptRecord(
            "invalid timestamps: created_at_ms=-9223372036854775808, updated_at_ms=0".to_owned()
        ))
    );
    assert_eq!(
        parse_state("paused"),
        Err(StoreError::CorruptRecord("unknown persistent job state `paused`".to_owned()))
    );
    assert_eq!(parse_state("writing"), Ok(JobState::Writing));
    assert_eq!(
        JobId::from_database(0).unwrap_err(),
        StoreError::CorruptRecord("job id must be positive".to_owned())
    );
    assert_eq!(JobId::from_database(42).unwrap().get(), 42);
}

#[test]
fn clock_readings_become_store_timestamps() {
    assert_eq!(timestamp_from_millis(None), Err(StoreError::ClockBeforeEpoch));
    assert_eq!(timestamp_from_millis(Some(1_700_000_000_000)), Ok(1_700_000_000_000));
    assert_eq!(
        timestamp_from_millis(Some(i64::MAX as u128 + 1)),
        Err(StoreError::TimestampOverflow)
    );
}

#[test]
fn transitions_are_checked_before_the_database() {
    let id = JobId::from_database(9).unwrap();
    assert_eq!(
        check_transition(id, JobState::Completed, JobState::Queued),
        Err(StoreError::InvalidTransition { from: JobState::Completed, to: JobState::Queued })
    );
    assert_eq!(
        check_transition(id, JobState::Planning, JobState::Writing),
        Err(StoreError::ExecutionReservationRequired { id: 9 })
    );
    assert_eq!(check_transition(id, JobState::Interrupted, JobState::Queued), Ok(true));
    assert_eq!(check_transition(id, JobState::Queued, JobState::Scanning), Ok(false));
    assert_eq!(check_retry(id, true), Err(StoreError::ReservedExecutionRetry { id: 9 }));
    assert_eq!(check_retry(id, false), Ok(()));
}

#[test]
fn refused_writes_are_explained() {
    let id = JobId::from_database(3).unwrap();
    assert_eq!(conflict_error(id, JobState::Queued, None), Ok(StoreError::NotFound { id: 3 }));
    assert_eq!(
        conflict_error(id, JobState::Queued, Some("failed")),
        Ok(StoreError::StateConflict { id: 3, expected: JobState::Queued, actual: JobState::Failed })
    );
    assert!(matches!(
        conflict_error(id, JobState::Queued, Some("bogus")),
        Err(StoreError::CorruptRecord(_))
    ));
    assert_eq!(check_reservation_match(id, "k", "f", "k", "f"), Ok(()));
    assert_eq!(
        check_reservation_match(id, "k", "f", "k", "g"),
        Err(StoreError::IdempotencyConflict { id: 3 })
    );
}
