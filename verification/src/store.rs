//! The rules the job store applies around its database: which records are
//! corrupt, which transitions it refuses before touching a row, and how it
//! explains a refused write.
use vstd::prelude::*;

use crate::job_model::{JobId, JobState, state_from_name, state_name, transition_allowed};
use crate::numbers::{format_signed, signed_decimal};
use crate::text::concat_str;

verus! {

broadcast use vstd::string::group_string_axioms;

/// Why the job store refused or failed an operation. Failures of the database
/// itself stay with the code that talks to it.
#[derive(Debug, Clone, PartialEq, Eq)]
pub enum StoreError {
    InvalidTransition { from: JobState, to: JobState },
    NotFound { id: i64 },
    StateConflict { id: i64, expected: JobState, actual: JobState },
    ExecutionReservationRequired { id: i64 },
    ReservedExecutionRetry { id: i64 },
    IdempotencyConflict { id: i64 },
    CorruptRecord(String),
    ClockBeforeEpoch,
    TimestampOverflow,
    AlreadyOpen { path: String },
    IngestionRuleLimit { limit: i64 },
}

/// The text of a corrupt-timestamp report.
pub open spec fn timestamps_message(created_at_ms: i64, updated_at_ms: i64) -> Seq<char> {
    "invalid timestamps: created_at_ms="@ + signed_decimal(created_at_ms as int)
        + ", updated_at_ms="@ + signed_decimal(updated_at_ms as int)
}

/// A record's timestamps must not be negative, and it cannot have been updated
/// before it was created.
pub fn validate_timestamps(created_at_ms: i64, updated_at_ms: i64) -> (result: Result<
    (),
    StoreError,
>)
    ensures
        result is Ok <==> 0 <= created_at_ms <= updated_at_ms,
        result is Err ==> result->Err_0 is CorruptRecord && result->Err_0->CorruptRecord_0@
            == timestamps_message(created_at_ms, updated_at_ms),
{
    if created_at_ms < 0 || updated_at_ms < created_at_ms {
        let head = concat_str(
            "invalid timestamps: created_at_ms=",
            format_signed(created_at_ms).as_str(),
        );
        let middle = concat_str(head.as_str(), ", updated_at_ms=");
        let message = concat_str(middle.as_str(), format_signed(updated_at_ms).as_str());
        return Err(StoreError::CorruptRecord(message));
    }
    Ok(())
}

/// The report for a state name that no state has.
pub open spec fn unknown_state_message(value: Seq<char>) -> Seq<char> {
    "unknown persistent job state `"@ + value + "`"@
}

/// Reads a persisted state name; an unknown one marks the record corrupt.
pub fn parse_state(value: &str) -> (result: Result<JobState, StoreError>)
    ensures
        match state_from_name(value@) {
            Some(state) => result == Ok::<JobState, StoreError>(state),
            None => result is Err && result->Err_0 is CorruptRecord
                && result->Err_0->CorruptRecord_0@ == unknown_state_message(value@),
        },
{
    match JobState::parse(value) {
        Ok(state) => Ok(state),
        Err(_) => {
            let head = concat_str("unknown persistent job state `", value);
            Err(StoreError::CorruptRecord(concat_str(head.as_str(), "`")))
        },
    }
}

/// The current time in milliseconds as the store keeps it, given the time
/// since the Unix epoch (`None` when the clock is before it).
pub fn timestamp_from_millis(millis: Option<u128>) -> (result: Result<i64, StoreError>)
    ensures
        match millis {
            None => result == Err::<i64, StoreError>(StoreError::ClockBeforeEpoch),
            Some(m) => if m <= i64::MAX {
                result == Ok::<i64, StoreError>(m as i64)
            } else {
                result == Err::<i64, StoreError>(StoreError::TimestampOverflow)
            },
        },
{
    match millis {
        None => Err(StoreError::ClockBeforeEpoch),
        Some(m) => if m <= 9223372036854775807u128 {
            Ok(m as i64)
        } else {
            Err(StoreError::TimestampOverflow)
        },
    }
}

/// What a transition request needs before the store may write it.
pub open spec fn transition_refusal(id: JobId, expected: JobState, next: JobState) -> Option<
    StoreError,
> {
    if !transition_allowed(expected, next) {
        Some(StoreError::InvalidTransition { from: expected, to: next })
    } else if expected == JobState::Planning && next == JobState::Writing {
        Some(StoreError::ExecutionReservationRequired { id: id.id() })
    } else {
        None
    }
}

/// The checks a transition passes before the store looks at the database:
/// the lifecycle must allow it, and writing only starts through an execution
/// reservation. `Ok(true)` means that the store must still make sure that an
/// interrupted job holds no reservation before it is queued again.
pub fn check_transition(id: JobId, expected: JobState, next: JobState) -> (result: Result<
    bool,
    StoreError,
>)
    ensures
        match transition_refusal(id, expected, next) {
            Some(e) => result == Err::<bool, StoreError>(e),
            None => result == Ok::<bool, StoreError>(
                expected == JobState::Interrupted && next == JobState::Queued,
            ),
        },
{
    if !expected.can_transition_to(next) {
        return Err(StoreError::InvalidTransition { from: expected, to: next });
    }
    if expected == JobState::Planning && next == JobState::Writing {
        return Err(StoreError::ExecutionReservationRequired { id: id.get() });
    }
    Ok(expected == JobState::Interrupted && next == JobState::Queued)
}

/// An interrupted job that holds an execution reservation is not queued again
/// automatically.
pub fn check_retry(id: JobId, has_reservation: bool) -> (result: Result<(), StoreError>)
    ensures
        has_reservation ==> result == Err::<(), StoreError>(
            StoreError::ReservedExecutionRetry { id: id.id() },
        ),
        !has_reservation ==> result is Ok,
{
    if has_reservation {
        return Err(StoreError::ReservedExecutionRetry { id: id.get() });
    }
    Ok(())
}

/// The error for a conditional write that matched no row, given the state
/// the row has now (`None` when the job does not exist).
pub fn conflict_error(id: JobId, expected: JobState, actual: Option<&str>) -> (result: Result<
    StoreError,
    StoreError,
>)
    ensures
        match actual {
            None => result == Ok::<StoreError, StoreError>(StoreError::NotFound { id: id.id() }),
            Some(a) => match state_from_name(a@) {
                Some(s) => result == Ok::<StoreError, StoreError>(
                    StoreError::StateConflict { id: id.id(), expected, actual: s },
                ),
                None => result is Err && result->Err_0 is CorruptRecord
                    && result->Err_0->CorruptRecord_0@ == unknown_state_message(a@),
            },
        },
{
    match actual {
        None => Ok(StoreError::NotFound { id: id.get() }),
        Some(a) => match parse_state(a) {
            Ok(s) => Ok(StoreError::StateConflict { id: id.get(), expected, actual: s }),
            Err(e) => Err(e),
        },
    }
}

/// A repeated execution request must carry the idempotency key and request
/// fingerprint of the one that reserved the execution.
pub fn check_reservation_match(
    id: JobId,
    existing_key: &str,
    existing_fingerprint: &str,
    key: &str,
    fingerprint: &str,
) -> (result: Result<(), StoreError>)
    ensures
        result is Ok <==> existing_key@ == key@ && existing_fingerprint@ == fingerprint@,
        result is Err ==> result == Err::<(), StoreError>(
            StoreError::IdempotencyConflict { id: id.id() },
        ),
{
    if !crate::text::str_equal(existing_key, key) || !crate::text::str_equal(
        existing_fingerprint,
        fingerprint,
    ) {
        return Err(StoreError::IdempotencyConflict { id: id.get() });
    }
    Ok(())
}

/// The states a job is in while a worker holds it; a restart interrupts them.
pub open spec fn active_state(state: JobState) -> bool {
    state == JobState::Scanning || state == JobState::Searching || state == JobState::Resolving
        || state == JobState::Planning || state == JobState::Writing
}

/// The names of the active states, in the order the store binds them.
pub fn active_state_names() -> (names: Vec<&'static str>)
    ensures
        names@.len() == 5,
        forall|i: int| 0 <= i < 5 ==> state_from_name(#[trigger] names@[i]@) is Some
            && active_state(state_from_name(names@[i]@)->Some_0),
{
    let names = vec![
        JobState::Scanning.as_str(),
        JobState::Searching.as_str(),
        JobState::Resolving.as_str(),
        JobState::Planning.as_str(),
        JobState::Writing.as_str(),
    ];
    proof {
        crate::job_model::law_state_name_round_trip(JobState::Scanning);
        crate::job_model::law_state_name_round_trip(JobState::Searching);
        crate::job_model::law_state_name_round_trip(JobState::Resolving);
        crate::job_model::law_state_name_round_trip(JobState::Planning);
        crate::job_model::law_state_name_round_trip(JobState::Writing);
    }
    names
}

} // verus!
