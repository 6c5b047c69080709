use vstd::prelude::*;

use crate::ingestion_model::RulePlacement;
use crate::store::StoreError;
use crate::text::str_equal;

verus! {

/// Media kind accepted by the persistent job API.
#[derive(Debug, Clone, Copy, PartialEq, Eq, Structural)]
pub enum JobMediaKind {
    Anime,
    Book,
    Movie,
    Music,
    Television,
}

/// Persistent worker lifecycle state.
#[derive(Debug, Clone, Copy, PartialEq, Eq, Structural)]
pub enum JobState {
    Queued,
    Scanning,
    Searching,
    Resolving,
    AwaitingConfirmation,
    Planning,
    Writing,
    Completed,
    Failed,
    Cancelled,
    Interrupted,
}

/// The transition relation of the job lifecycle.
pub open spec fn transition_allowed(from: JobState, to: JobState) -> bool {
    match from {
        JobState::Queued => to == JobState::Scanning || to == JobState::Cancelled,
        JobState::Scanning => to == JobState::Queued || to == JobState::Searching || to
            == JobState::Failed || to == JobState::Cancelled || to == JobState::Interrupted,
        JobState::Searching => to == JobState::Resolving || to == JobState::Failed || to
            == JobState::Cancelled || to == JobState::Interrupted,
        JobState::Resolving => to == JobState::AwaitingConfirmation || to == JobState::Failed || to
            == JobState::Cancelled || to == JobState::Interrupted,
        JobState::AwaitingConfirmation => to == JobState::Planning || to == JobState::Failed || to
            == JobState::Cancelled,
        JobState::Planning => to == JobState::Writing || to == JobState::Failed || to
            == JobState::Cancelled || to == JobState::Interrupted,
        JobState::Writing => to == JobState::Completed || to == JobState::Failed || to
            == JobState::Interrupted,
        JobState::Interrupted => to == JobState::Queued,
        _ => false,
    }
}

/// A state from which the lifecycle never moves again.
pub open spec fn is_terminal(state: JobState) -> bool {
    state == JobState::Completed || state == JobState::Failed || state == JobState::Cancelled
}

/// The persistent name of each state.
pub open spec fn state_name(state: JobState) -> Seq<char> {
    match state {
        JobState::Queued => "queued"@,
        JobState::Scanning => "scanning"@,
        JobState::Searching => "searching"@,
        JobState::Resolving => "resolving"@,
        JobState::AwaitingConfirmation => "awaiting_confirmation"@,
        JobState::Planning => "planning"@,
        JobState::Writing => "writing"@,
        JobState::Completed => "completed"@,
        JobState::Failed => "failed"@,
        JobState::Cancelled => "cancelled"@,
        JobState::Interrupted => "interrupted"@,
    }
}

/// The state whose persistent name is `name`, if any.
pub open spec fn state_from_name(name: Seq<char>) -> Option<JobState> {
    if name == "queued"@ {
        Some(JobState::Queued)
    } else if name == "scanning"@ {
        Some(JobState::Scanning)
    } else if name == "searching"@ {
        Some(JobState::Searching)
    } else if name == "resolving"@ {
        Some(JobState::Resolving)
    } else if name == "awaiting_confirmation"@ {
        Some(JobState::AwaitingConfirmation)
    } else if name == "planning"@ {
        Some(JobState::Planning)
    } else if name == "writing"@ {
        Some(JobState::Writing)
    } else if name == "completed"@ {
        Some(JobState::Completed)
    } else if name == "failed"@ {
        Some(JobState::Failed)
    } else if name == "cancelled"@ {
        Some(JobState::Cancelled)
    } else if name == "interrupted"@ {
        Some(JobState::Interrupted)
    } else {
        None
    }
}

/// The persistent state text was not one of the known state names.
#[derive(Debug, PartialEq, Eq)]
pub struct JobStateParseError(pub String);

impl JobState {
    /// Every state, in lifecycle order.
    pub fn all() -> (states: [JobState; 11])
        ensures
            states@ == seq![
                JobState::Queued,
                JobState::Scanning,
                JobState::Searching,
                JobState::Resolving,
                JobState::AwaitingConfirmation,
                JobState::Planning,
                JobState::Writing,
                JobState::Completed,
                JobState::Failed,
                JobState::Cancelled,
                JobState::Interrupted,
            ],
    {
        let states = [
            JobState::Queued,
            JobState::Scanning,
            JobState::Searching,
            JobState::Resolving,
            JobState::AwaitingConfirmation,
            JobState::Planning,
            JobState::Writing,
            JobState::Completed,
            JobState::Failed,
            JobState::Cancelled,
            JobState::Interrupted,
        ];
        assert(states@ =~= seq![
            JobState::Queued,
            JobState::Scanning,
            JobState::Searching,
            JobState::Resolving,
            JobState::AwaitingConfirmation,
            JobState::Planning,
            JobState::Writing,
            JobState::Completed,
            JobState::Failed,
            JobState::Cancelled,
            JobState::Interrupted,
        ]);
        states
    }

    pub fn can_transition_to(self, next: Self) -> (allowed: bool)
        ensures
            allowed == transition_allowed(self, next),
    {
        match self {
            JobState::Queued => matches!(next, JobState::Scanning | JobState::Cancelled),
            JobState::Scanning => matches!(
                next,
                JobState::Queued | JobState::Searching | JobState::Failed | JobState::Cancelled
                    | JobState::Interrupted
            ),
            JobState::Searching => matches!(
                next,
                JobState::Resolving | JobState::Failed | JobState::Cancelled | JobState::Interrupted
            ),
            JobState::Resolving => matches!(
                next,
                JobState::AwaitingConfirmation | JobState::Failed | JobState::Cancelled
                    | JobState::Interrupted
            ),
            JobState::AwaitingConfirmation => matches!(
                next,
                JobState::Planning | JobState::Failed | JobState::Cancelled
            ),
            JobState::Planning => matches!(
                next,
                JobState::Writing | JobState::Failed | JobState::Cancelled | JobState::Interrupted
            ),
            JobState::Writing => matches!(
                next,
                JobState::Completed | JobState::Failed | JobState::Interrupted
            ),
            JobState::Interrupted => matches!(next, JobState::Queued),
            _ => false,
        }
    }

    /// The persistent name of the state.
    pub fn as_str(self) -> (name: &'static str)
        ensures
            name@ == state_name(self),
    {
        match self {
            JobState::Queued => "queued",
            JobState::Scanning => "scanning",
            JobState::Searching => "searching",
            JobState::Resolving => "resolving",
            JobState::AwaitingConfirmation => "awaiting_confirmation",
            JobState::Planning => "planning",
            JobState::Writing => "writing",
            JobState::Completed => "completed",
            JobState::Failed => "failed",
            JobState::Cancelled => "cancelled",
            JobState::Interrupted => "interrupted",
        }
    }

    /// The persistent name of the state as an owned string.
    pub fn to_string(self) -> (name: String)
        ensures
            name@ == state_name(self),
    {
        self.as_str().to_owned()
    }

    /// Parses a persistent state name.
    pub fn parse(value: &str) -> (parsed: Result<JobState, JobStateParseError>)
        ensures
            match parsed {
                Ok(state) => state_from_name(value@) == Some(state),
                Err(JobStateParseError(text)) => state_from_name(value@) is None && text@
                    == value@,
            },
    {
        if str_equal(value, "queued") {
            Ok(JobState::Queued)
        } else if str_equal(value, "scanning") {
            Ok(JobState::Scanning)
        } else if str_equal(value, "searching") {
            Ok(JobState::Searching)
        } else if str_equal(value, "resolving") {
            Ok(JobState::Resolving)
        } else if str_equal(value, "awaiting_confirmation") {
            Ok(JobState::AwaitingConfirmation)
        } else if str_equal(value, "planning") {
            Ok(JobState::Planning)
        } else if str_equal(value, "writing") {
            Ok(JobState::Writing)
        } else if str_equal(value, "completed") {
            Ok(JobState::Completed)
        } else if str_equal(value, "failed") {
            Ok(JobState::Failed)
        } else if str_equal(value, "cancelled") {
            Ok(JobState::Cancelled)
        } else if str_equal(value, "interrupted") {
            Ok(JobState::Interrupted)
        } else {
            Err(JobStateParseError(value.to_owned()))
        }
    }
}

/// The first two characters and the length of every state name; no two
/// states agree on all three.
proof fn lemma_state_name_signatures()
    ensures
        forall|a: JobState, b: JobState| #![trigger state_name(a), state_name(b)]
            a != b ==> state_name(a) != state_name(b),
{
    reveal_strlit("queued");
    assert("queued"@.len() == 6 && "queued"@[0] == 'q' && "queued"@[1] == 'u');
    reveal_strlit("scanning");
    assert("scanning"@.len() == 8 && "scanning"@[0] == 's' && "scanning"@[1] == 'c');
    reveal_strlit("searching");
    assert("searching"@.len() == 9 && "searching"@[0] == 's' && "searching"@[1] == 'e');
    reveal_strlit("resolving");
    assert("resolving"@.len() == 9 && "resolving"@[0] == 'r' && "resolving"@[1] == 'e');
    reveal_strlit("awaiting_confirmation");
    assert("awaiting_confirmation"@.len() == 21 && "awaiting_confirmation"@[0] == 'a' && "awaiting_confirmation"@[1] == 'w');
    reveal_strlit("planning");
    assert("planning"@.len() == 8 && "planning"@[0] == 'p' && "planning"@[1] == 'l');
    reveal_strlit("writing");
    assert("writing"@.len() == 7 && "writing"@[0] == 'w' && "writing"@[1] == 'r');
    reveal_strlit("completed");
    assert("completed"@.len() == 9 && "completed"@[0] == 'c' && "completed"@[1] == 'o');
    reveal_strlit("failed");
    assert("failed"@.len() == 6 && "failed"@[0] == 'f' && "failed"@[1] == 'a');
    reveal_strlit("cancelled");
    assert("cancelled"@.len() == 9 && "cancelled"@[0] == 'c' && "cancelled"@[1] == 'a');
    reveal_strlit("interrupted");
    assert("interrupted"@.len() == 11 && "interrupted"@[0] == 'i' && "interrupted"@[1] == 'n');
    assert forall|a: JobState, b: JobState| a != b implies #[trigger] state_name(a) != #[trigger] state_name(b) by {
        if state_name(a) == state_name(b) {
            assert(state_name(a).len() == state_name(b).len());
            assert(state_name(a)[0] == state_name(b)[0]);
            assert(state_name(a)[1] == state_name(b)[1]);
        }
    }
}

/// Parsing the persistent name of any state gives that state back, and no two
/// states share a name.
pub proof fn law_state_name_round_trip(state: JobState)
    ensures
        state_from_name(state_name(state)) == Some(state),
        forall|other: JobState| state_name(other) == state_name(state) ==> other == state,
{
    lemma_state_name_signatures();
    assert(state_name(JobState::Queued) == "queued"@);
    assert(state_name(JobState::Scanning) == "scanning"@);
    assert(state_name(JobState::Searching) == "searching"@);
    assert(state_name(JobState::Resolving) == "resolving"@);
    assert(state_name(JobState::AwaitingConfirmation) == "awaiting_confirmation"@);
    assert(state_name(JobState::Planning) == "planning"@);
    assert(state_name(JobState::Writing) == "writing"@);
    assert(state_name(JobState::Completed) == "completed"@);
    assert(state_name(JobState::Failed) == "failed"@);
    assert(state_name(JobState::Cancelled) == "cancelled"@);
    assert(state_name(JobState::Interrupted) == "interrupted"@);
}

/// Completed, failed and cancelled jobs never change state again, and no state
/// moves to itself.
pub proof fn law_terminal_states_are_final(from: JobState, to: JobState)
    ensures
        is_terminal(from) ==> !transition_allowed(from, to),
        !transition_allowed(from, from),
{
}

/// Every non-terminal state reaches a terminal state in at most two steps.
pub proof fn law_every_state_can_finish(state: JobState)
    requires
        !is_terminal(state),
    ensures
        transition_allowed(state, JobState::Cancelled) || transition_allowed(state, JobState::Failed)
            || (transition_allowed(state, JobState::Queued) && transition_allowed(
            JobState::Queued,
            JobState::Cancelled,
        )),
{
}

/// Immutable organization settings captured when a job is created.
#[derive(Debug, Clone, PartialEq, Eq)]
pub struct JobOrganizationDto {
    pub destination_path: String,
    pub placement: RulePlacement,
    pub path_template: Option<String>,
    pub origin_rule_id: Option<i64>,
    pub auto_execute: bool,
}

/// Versioned bounded progress persisted between worker stages.
#[derive(Debug, Clone, PartialEq, Eq)]
pub struct ProgressSummary {
    pub stage: String,
    pub completed_items: u64,
    pub total_items: Option<u64>,
}

impl ProgressSummary {
    pub fn new(stage: String, completed_items: u64, total_items: Option<u64>) -> (progress: Self)
        ensures
            progress.stage@ == stage@,
            progress.completed_items == completed_items,
            progress.total_items == total_items,
    {
        ProgressSummary { stage, completed_items, total_items }
    }
}

/// Bounded reason automatic execution deferred to manual review.
#[derive(Debug, Clone, Copy, PartialEq, Eq, Structural)]
pub enum AutoReviewReason {
    ManualJob,
    CandidateListTruncated,
    NoCandidates,
    MetadataConflicts,
    ProviderEnrichmentFailed,
    DiagnosticsTruncated,
    InvalidPlan,
    DestinationCollision,
}

/// Versioned, bounded review choices persisted without resolved snapshots.
#[derive(Debug, Clone, PartialEq, Eq)]
pub struct ReviewDecisionDto {
    candidate_index: u64,
    accepted_conflict_indexes: Vec<u64>,
}

impl ReviewDecisionDto {
    pub fn new(candidate_index: u64, accepted_conflict_indexes: Vec<u64>) -> (decision: Self)
        ensures
            decision.candidate_index_spec() == candidate_index,
            decision.accepted_conflict_indexes_spec() == accepted_conflict_indexes@,
    {
        ReviewDecisionDto { candidate_index, accepted_conflict_indexes }
    }

    pub closed spec fn candidate_index_spec(&self) -> u64 {
        self.candidate_index
    }

    pub closed spec fn accepted_conflict_indexes_spec(&self) -> Seq<u64> {
        self.accepted_conflict_indexes@
    }

    pub fn candidate_index(&self) -> (index: u64)
        ensures
            index == self.candidate_index_spec(),
    {
        self.candidate_index
    }

    pub fn accepted_conflict_indexes(&self) -> (indexes: &[u64])
        ensures
            indexes@ == self.accepted_conflict_indexes_spec(),
    {
        self.accepted_conflict_indexes.as_slice()
    }
}

/// Versioned output-plan counts persisted without operation bytes.
#[derive(Debug, Clone, PartialEq, Eq)]
pub struct PlanSummary {
    operation_count: u64,
    requires_confirmation: bool,
    fingerprint: Option<String>,
}

impl PlanSummary {
    pub fn new(operation_count: u64, requires_confirmation: bool) -> (plan: Self)
        ensures
            plan.operation_count_spec() == operation_count,
            plan.requires_confirmation_spec() == requires_confirmation,
            plan.fingerprint_spec() is None,
    {
        PlanSummary { operation_count, requires_confirmation, fingerprint: None }
    }

    pub closed spec fn operation_count_spec(&self) -> u64 {
        self.operation_count
    }

    pub closed spec fn requires_confirmation_spec(&self) -> bool {
        self.requires_confirmation
    }

    pub closed spec fn fingerprint_spec(&self) -> Option<Seq<char>> {
        match self.fingerprint {
            Some(f) => Some(f@),
            None => None,
        }
    }

    pub fn with_fingerprint(self, fingerprint: String) -> (plan: Self)
        ensures
            plan.operation_count_spec() == self.operation_count_spec(),
            plan.requires_confirmation_spec() == self.requires_confirmation_spec(),
            plan.fingerprint_spec() == Some(fingerprint@),
    {
        PlanSummary { fingerprint: Some(fingerprint), ..self }
    }

    pub fn fingerprint(&self) -> (fingerprint: Option<&str>)
        ensures
            match fingerprint {
                Some(f) => self.fingerprint_spec() == Some(f@),
                None => self.fingerprint_spec() is None,
            },
    {
        match &self.fingerprint {
            Some(f) => Some(f.as_str()),
            None => None,
        }
    }

    pub fn operation_count(&self) -> (count: u64)
        ensures
            count == self.operation_count_spec(),
    {
        self.operation_count
    }

    pub fn requires_confirmation(&self) -> (required: bool)
        ensures
            required == self.requires_confirmation_spec(),
    {
        self.requires_confirmation
    }
}

/// Bounded, path-safe detail for one failed output operation.
#[derive(Debug, Clone, PartialEq, Eq)]
pub struct ExecutionFailureSummary {
    pub operation_index: Option<u64>,
    pub code: String,
    pub message: String,
}

impl ExecutionFailureSummary {
    pub fn new(operation_index: Option<u64>, code: String, message: String) -> (summary: Self)
        ensures
            summary.operation_index == operation_index,
            summary.code@ == code@,
            summary.message@ == message@,
    {
        ExecutionFailureSummary { operation_index, code, message }
    }
}

/// Stable database identity for a persisted job: always positive.
#[derive(Debug, Clone, Copy, PartialEq, Eq, Structural)]
pub struct JobId {
    value: i64,
}

impl JobId {
    #[verifier::type_invariant]
    spec fn positive(self) -> bool {
        self.value > 0
    }

    pub closed spec fn id(self) -> i64 {
        self.value
    }

    pub fn get(self) -> (value: i64)
        ensures
            value == self.id(),
            value > 0,
    {
        proof {
            use_type_invariant(&self);
        }
        self.value
    }

    /// Reads a job id from the database, where only positive values are valid.
    pub fn from_database(value: i64) -> (id: Result<JobId, StoreError>)
        ensures
            value > 0 ==> id is Ok && id->Ok_0.id() == value,
            value <= 0 ==> id is Err && id->Err_0 is CorruptRecord
                && id->Err_0->CorruptRecord_0@ == "job id must be positive"@,
    {
        if value <= 0 {
            return Err(StoreError::CorruptRecord("job id must be positive".to_owned()));
        }
        Ok(JobId { value })
    }
}

/// Bounded result retained after resolution.
#[derive(Debug, Clone, Copy, PartialEq, Eq, Structural)]
pub struct SearchSummary {
    pub candidate_count: u64,
    pub conflict_count: u64,
}

impl SearchSummary {
    pub fn new(candidate_count: u64, conflict_count: u64) -> (summary: Self)
        ensures
            summary.candidate_count == candidate_count,
            summary.conflict_count == conflict_count,
    {
        SearchSummary { candidate_count, conflict_count }
    }

    pub fn candidate_count(self) -> (count: u64)
        ensures
            count == self.candidate_count,
    {
        self.candidate_count
    }

    pub fn conflict_count(self) -> (count: u64)
        ensures
            count == self.conflict_count,
    {
        self.conflict_count
    }
}

/// Every step of `path` is an allowed transition.
pub open spec fn allowed_path(path: Seq<JobState>) -> bool {
    forall|i: int| 0 <= i < path.len() - 1 ==> #[trigger] transition_allowed(path[i], path[i + 1])
}

/// The lifecycle of a job that succeeds, from queue to completion.
pub open spec fn success_path() -> Seq<JobState> {
    seq![
        JobState::Queued,
        JobState::Scanning,
        JobState::Searching,
        JobState::Resolving,
        JobState::AwaitingConfirmation,
        JobState::Planning,
        JobState::Writing,
        JobState::Completed,
    ]
}

/// A job can complete: from every state that is not final, a path of
/// allowed transitions leads to `Completed`, and the whole successful
/// lifecycle is allowed.
pub proof fn law_every_open_state_can_complete(state: JobState)
    requires
        !is_terminal(state),
    ensures
        allowed_path(success_path()),
        exists|path: Seq<JobState>| #[trigger] allowed_path(path) && path.len() > 0 && path[0] == state
            && path.last() == JobState::Completed,
{
    let full = success_path();
    assert forall|i: int| 0 <= i < full.len() - 1 implies #[trigger] transition_allowed(full[i], full[i + 1]) by {}
    let path = if state == JobState::Interrupted {
        seq![JobState::Interrupted] + full
    } else {
        let k: int = if state == JobState::Queued {
            0
        } else if state == JobState::Scanning {
            1
        } else if state == JobState::Searching {
            2
        } else if state == JobState::Resolving {
            3
        } else if state == JobState::AwaitingConfirmation {
            4
        } else if state == JobState::Planning {
            5
        } else {
            6
        };
        full.skip(k)
    };
    assert forall|i: int| 0 <= i < path.len() - 1 implies #[trigger] transition_allowed(path[i], path[i + 1]) by {
        if state == JobState::Interrupted {
            if i > 0 {
                assert(path[i] == full[i - 1] && path[i + 1] == full[i]);
            }
        }
    }
    assert(allowed_path(path));
}

} // verus!
