//! The decisions of the ingestion runtime between its store and filesystem
//! steps: which folder rule a selected directory falls under, which media kind
//! a rule job scrapes, and which discovered work it queues.
use vstd::prelude::*;

use crate::api_jobs::RuntimeError;
use crate::fs_policy::FsPolicyError;
use crate::ingestion_model::{IngestionModelError, IngestionRuleId, MediaKindMode, RulePlacement, RuleStatus};
use crate::job_model::{JobMediaKind, JobOrganizationDto};
use crate::paths::{Component, starts_with, starts_with_spec};
use crate::store::StoreError;
use crate::workspace_errors::WorkspaceStateError;

verus! {

/// Why a job for a selected folder could not be created.
#[derive(Debug)]
pub enum RuleJobError {
    NoMatchingRule,
    NoWork,
    MultipleWorks,
    AmbiguousMedia,
    InvalidMediaKindOverride,
    Store(StoreError),
    Workspace(WorkspaceStateError),
    FilesystemPolicy(FsPolicyError),
    Discovery(String),
    Fingerprint(String),
    Join(String),
    Runtime(RuntimeError),
}

/// Why an ingestion runtime operation failed.
#[derive(Debug)]
pub enum IngestionRuntimeError {
    Store(StoreError),
    Workspace(WorkspaceStateError),
    FilesystemPolicy(FsPolicyError),
    Model(IngestionModelError),
    InvalidReviewMediaKind,
    ReviewRuleMissing,
    Jobs,
}

/// A rule can take a job for `selected` when it is enabled, its source
/// directory resolved, and `selected` lies inside that directory.
pub open spec fn rule_eligible(
    selected: Seq<crate::paths::ComponentView>,
    rule: (bool, Option<Vec<Component>>),
) -> bool {
    rule.0 && rule.1 is Some && starts_with_spec(selected, rule.1->Some_0.deep_view())
}

/// The depth of a rule's resolved source directory.
pub open spec fn rule_depth(rule: (bool, Option<Vec<Component>>)) -> int {
    rule.1->Some_0.deep_view().len() as int
}

/// The rule under which a selected directory is scraped: among the eligible
/// rules, the one whose source directory is deepest, the first of equals.
/// Each rule is given as whether it is enabled and its resolved source
/// directory (`None` when it could not be resolved).
pub fn select_rule(selected: &Vec<Component>, rules: &Vec<(bool, Option<Vec<Component>>)>) -> (chosen:
    Option<usize>)
    ensures
        match chosen {
            None => forall|j: int| 0 <= j < rules@.len() ==> !rule_eligible(selected.deep_view(), #[trigger] rules@[j]),
            Some(k) => {
                &&& k < rules@.len()
                &&& rule_eligible(selected.deep_view(), rules@[k as int])
                &&& forall|j: int|
                    0 <= j < rules@.len() && rule_eligible(selected.deep_view(), #[trigger] rules@[j])
                        ==> rule_depth(rules@[j]) <= rule_depth(rules@[k as int])
                &&& forall|j: int|
                    0 <= j < k && rule_eligible(selected.deep_view(), #[trigger] rules@[j])
                        ==> rule_depth(rules@[j]) < rule_depth(rules@[k as int])
            },
        },
{
    let mut chosen: Option<usize> = None;
    let mut best: usize = 0;
    let mut i: usize = 0;
    while i < rules.len()
        invariant
            i <= rules@.len(),
            match chosen {
                None => forall|j: int| 0 <= j < i ==> !rule_eligible(selected.deep_view(), #[trigger] rules@[j]),
                Some(k) => {
                    &&& k < i
                    &&& rule_eligible(selected.deep_view(), rules@[k as int])
                    &&& best == rule_depth(rules@[k as int])
                    &&& forall|j: int|
                        0 <= j < i && rule_eligible(selected.deep_view(), #[trigger] rules@[j])
                            ==> rule_depth(rules@[j]) <= best
                    &&& forall|j: int|
                        0 <= j < k && rule_eligible(selected.deep_view(), #[trigger] rules@[j])
                            ==> rule_depth(rules@[j]) < best
                },
            },
        decreases rules@.len() - i,
    {
        let rule = &rules[i];
        if rule.0 {
            match &rule.1 {
                Some(source) => {
                    if starts_with(selected, source) {
                        let depth = source.len();
                        assert(depth == rule_depth(rules@[i as int]));
                        let deeper = match chosen {
                            None => true,
                            Some(_) => depth > best,
                        };
                        if deeper {
                            chosen = Some(i);
                            best = depth;
                        }
                    }
                },
                None => {},
            }
        }
        i += 1;
    }
    chosen
}

/// The media kind mode of a rule job: a requested kind fixes an automatic
/// rule, and must agree with a fixed one.
pub open spec fn effective_mode_spec(mode: MediaKindMode, requested: Option<JobMediaKind>) -> Option<
    MediaKindMode,
> {
    match (mode, requested) {
        (MediaKindMode::Auto, Some(kind)) => Some(MediaKindMode::Fixed(kind)),
        (m, None) => Some(m),
        (MediaKindMode::Fixed(configured), Some(kind)) => if configured == kind {
            Some(MediaKindMode::Fixed(configured))
        } else {
            None
        },
    }
}

pub fn effective_media_kind_mode(mode: MediaKindMode, requested: Option<JobMediaKind>) -> (result:
    Result<MediaKindMode, RuleJobError>)
    ensures
        match effective_mode_spec(mode, requested) {
            Some(m) => result is Ok && result->Ok_0 == m,
            None => result is Err && result->Err_0 is InvalidMediaKindOverride,
        },
{
    match (mode, requested) {
        (MediaKindMode::Auto, Some(kind)) => Ok(MediaKindMode::Fixed(kind)),
        (m, None) => Ok(m),
        (MediaKindMode::Fixed(configured), Some(kind)) => if configured == kind {
            Ok(MediaKindMode::Fixed(configured))
        } else {
            Err(RuleJobError::InvalidMediaKindOverride)
        },
    }
}

/// The works a discovery found that are not ignored, by position.
pub open spec fn kept_works(items: Seq<(bool, Option<JobMediaKind>)>) -> Seq<int>
    decreases items.len(),
{
    if items.len() == 0 {
        seq![]
    } else {
        let rest = kept_works(items.drop_last());
        if items.last().0 {
            rest
        } else {
            rest.push(items.len() - 1)
        }
    }
}

/// The single work of a selected folder and its media kind. Each discovered
/// item is given as whether it was ignored and its media kind, if known.
pub fn select_single_work(items: &Vec<(bool, Option<JobMediaKind>)>) -> (result: Result<
    (usize, JobMediaKind),
    RuleJobError,
>)
    ensures
        kept_works(items@).len() == 0 ==> result is Err && result->Err_0 is NoWork,
        kept_works(items@).len() > 1 ==> result is Err && result->Err_0 is MultipleWorks,
        kept_works(items@).len() == 1 ==> match items@[kept_works(items@)[0]].1 {
            None => result is Err && result->Err_0 is AmbiguousMedia,
            Some(kind) => result is Ok && result->Ok_0 == (kept_works(items@)[0] as usize, kind),
        },
{
    let mut found: Option<usize> = None;
    let mut count: usize = 0;
    let mut i: usize = 0;
    assert(items@.take(0) =~= Seq::<(bool, Option<JobMediaKind>)>::empty());
    while i < items.len()
        invariant
            i <= items@.len(),
            count <= i,
            count == kept_works(items@.take(i as int)).len(),
            forall|k: int| 0 <= k < kept_works(items@.take(i as int)).len() ==> 0 <= #[trigger] kept_works(items@.take(i as int))[k] < i,
            count >= 1 ==> found == Some(kept_works(items@.take(i as int))[0] as usize),
            count == 0 ==> found is None,
        decreases items@.len() - i,
    {
        proof {
            assert(items@.take(i + 1).drop_last() =~= items@.take(i as int));
        }
        if !items[i].0 {
            if count == 0 {
                found = Some(i);
            }
            count += 1;
        }
        i += 1;
    }
    assert(items@.take(i as int) =~= items@);
    if count == 0 {
        return Err(RuleJobError::NoWork);
    }
    if count > 1 {
        return Err(RuleJobError::MultipleWorks);
    }
    let index = match found {
        Some(k) => k,
        None => return Err(RuleJobError::NoWork),
    };
    match items[index].1 {
        Some(kind) => Ok((index, kind)),
        None => Err(RuleJobError::AmbiguousMedia),
    }
}

/// The status of a rule that is decided without asking the store: a rule with
/// an error reports it, and a disabled rule is paused.
pub fn rule_status_without_store(has_error: bool, enabled: bool) -> (status: Option<RuleStatus>)
    ensures
        has_error ==> status == Some(RuleStatus::Error),
        !has_error && !enabled ==> status == Some(RuleStatus::Paused),
        !has_error && enabled ==> status is None,
{
    if has_error {
        return Some(RuleStatus::Error);
    }
    if !enabled {
        return Some(RuleStatus::Paused);
    }
    None
}

/// A review may only resolve to one of the media kinds it offered.
pub fn check_review_media_kind(offered: &Vec<JobMediaKind>, chosen: JobMediaKind) -> (result: Result<
    (),
    IngestionRuntimeError,
>)
    ensures
        result is Ok <==> offered@.contains(chosen),
        result is Err ==> result->Err_0 is InvalidReviewMediaKind,
{
    let mut i: usize = 0;
    while i < offered.len()
        invariant
            i <= offered@.len(),
            forall|j: int| 0 <= j < i ==> offered@[j] != chosen,
        decreases offered@.len() - i,
    {
        if offered[i] == chosen {
            assert(offered@[i as int] == chosen);
            return Ok(());
        }
        i += 1;
    }
    Err(IngestionRuntimeError::InvalidReviewMediaKind)
}

/// The organization of a job queued under a folder rule. Jobs from reviews
/// the user resolved execute automatically; jobs for a selected folder wait
/// for review.
pub fn rule_organization(
    destination_path: String,
    placement: RulePlacement,
    path_template: Option<String>,
    rule_id: i64,
    auto_execute: bool,
) -> (organization: JobOrganizationDto)
    ensures
        organization.destination_path == destination_path,
        organization.placement == placement,
        organization.path_template == path_template,
        organization.origin_rule_id == Some(rule_id),
        organization.auto_execute == auto_execute,
{
    JobOrganizationDto {
        destination_path,
        placement,
        path_template,
        origin_rule_id: Some(rule_id),
        auto_execute,
    }
}

/// A successful rule change that the ingestion supervisor must observe.
#[derive(Debug, Clone, Copy, PartialEq, Eq)]
pub enum IngestionNotification {
    Reload,
    Rescan(IngestionRuleId),
}

/// One millisecond, the shortest interval the supervisor accepts.
pub const MIN_INTERVAL_NANOS: u128 = 1_000_000;

/// Two seconds of quiet before a changed folder is considered stable.
pub const DEFAULT_DEBOUNCE_NANOS: u128 = 2_000_000_000;

/// A full rescan every minute to recover missed events.
pub const DEFAULT_RECONCILIATION_NANOS: u128 = 60_000_000_000;

/// Timings, in nanoseconds, for filesystem stability checks and periodic
/// missed-event recovery; each at least one millisecond.
#[derive(Debug, Clone, Copy, PartialEq, Eq, Structural)]
pub struct IngestionSupervisorConfig {
    pub debounce_nanos: u128,
    pub reconciliation_nanos: u128,
    pub poll_interval_nanos: Option<u128>,
}

pub open spec fn at_least_a_millisecond(nanos: u128) -> u128 {
    if nanos < MIN_INTERVAL_NANOS {
        MIN_INTERVAL_NANOS
    } else {
        nanos
    }
}

impl IngestionSupervisorConfig {
    pub fn new(debounce_nanos: u128, reconciliation_nanos: u128) -> (config: Self)
        ensures
            config.debounce_nanos == at_least_a_millisecond(debounce_nanos),
            config.reconciliation_nanos == at_least_a_millisecond(reconciliation_nanos),
            config.poll_interval_nanos is None,
    {
        IngestionSupervisorConfig {
            debounce_nanos: if debounce_nanos < MIN_INTERVAL_NANOS {
                MIN_INTERVAL_NANOS
            } else {
                debounce_nanos
            },
            reconciliation_nanos: if reconciliation_nanos < MIN_INTERVAL_NANOS {
                MIN_INTERVAL_NANOS
            } else {
                reconciliation_nanos
            },
            poll_interval_nanos: None,
        }
    }

    pub fn default() -> (config: Self)
        ensures
            config.debounce_nanos == DEFAULT_DEBOUNCE_NANOS,
            config.reconciliation_nanos == DEFAULT_RECONCILIATION_NANOS,
            config.poll_interval_nanos is None,
    {
        IngestionSupervisorConfig::new(DEFAULT_DEBOUNCE_NANOS, DEFAULT_RECONCILIATION_NANOS)
    }

    /// Uses the portable polling watcher instead of the platform-native one.
    pub fn with_polling_watcher(self, interval_nanos: u128) -> (config: Self)
        ensures
            config.debounce_nanos == self.debounce_nanos,
            config.reconciliation_nanos == self.reconciliation_nanos,
            config.poll_interval_nanos == Some(at_least_a_millisecond(interval_nanos)),
    {
        let interval = if interval_nanos < MIN_INTERVAL_NANOS {
            MIN_INTERVAL_NANOS
        } else {
            interval_nanos
        };
        IngestionSupervisorConfig { poll_interval_nanos: Some(interval), ..self }
    }
}

/// Asking for the kind a rule already fixes changes nothing; a request is
/// refused exactly when the rule fixes another kind; and a request that is
/// accepted is the kind the job gets.
pub proof fn law_requested_kind_agrees_with_the_rule(mode: MediaKindMode, requested: Option<JobMediaKind>, kind: JobMediaKind)
    ensures
        effective_mode_spec(MediaKindMode::Fixed(kind), Some(kind)) == effective_mode_spec(MediaKindMode::Fixed(kind), None),
        effective_mode_spec(mode, None) == Some(mode),
        (effective_mode_spec(mode, requested) is None) <==> (mode matches MediaKindMode::Fixed(k) && requested matches Some(r) && k != r),
        effective_mode_spec(mode, Some(kind)) matches Some(m) ==> m == MediaKindMode::Fixed(kind),
{
}

} // verus!
