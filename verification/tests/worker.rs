use fixer::api_jobs::JobFlowError;
use fixer::worker::{count, path_query_title};

#[test]
fn dotted_directories_keep_their_full_name_as_the_query_title() {
    assert_eq!(
        path_query_title("/tmp/library/In.The.Mood.For.Love", true).unwrap(),
        "In.The.Mood.For.Love"
    );
}

#[test]
fn files_are_searched_by_their_stem() {
    assert_eq!(path_query_title("/media/Alien (1979).mkv", false).unwrap(), "Alien (1979)");
    assert!(matches!(path_query_title("/", true), Err(JobFlowError::InvalidInput(_))));
    assert!(matches!(path_query_title("/media/   ", true), Err(JobFlowError::InvalidInput(_))));
}

#[test]
fn counts_fit_the_summary_range() {
    assert_eq!(count(7), Ok(7));
}

use fixer::job_model::{AutoReviewReason, JobState};
use fixer::paths::components;
use fixer::worker::{AutoDecision, ambiguous, auto_plan_decision, is_terminal, scan_root, select_rooted};

#[test]
fn inputs_are_matched_to_their_scanned_root() {
    let roots = vec![components("/m"), components("/m/a"), components("/m/b")];
    assert_eq!(select_rooted(3, &roots, &components("/m/a/x.mkv"), false), Ok(1));
    assert!(matches!(select_rooted(2, &roots, &components("/m/a"), false), Err(JobFlowError::InvalidInput(_))));
    assert!(select_rooted(3, &roots, &components("/other"), false).is_err());
    let twins = vec![components("/m/a"), components("/m/a")];
    assert!(select_rooted(2, &twins, &components("/m/a/x"), false).is_err());
    assert_eq!(select_rooted(1, &vec![components("/m")], &components("/m"), true), Ok(0));
    assert_eq!(
        select_rooted(3, &roots, &components("/m"), true),
        Err(ambiguous("media documents", 3))
    );
    assert_eq!(
        ambiguous("media documents", 3),
        JobFlowError::InvalidInput("expected one media documents, found 3".to_owned())
    );
}

#[test]
fn scans_start_from_the_containing_directory() {
    assert_eq!(scan_root(&components("/m/a/x.mkv"), false).unwrap(), "/m/a");
    assert_eq!(scan_root(&components("/m/a"), true).unwrap(), "/m/a");
    assert!(scan_root(&components("x.mkv"), false).is_err());
    assert!(scan_root(&components("/"), false).is_err());
}

#[test]
fn automatic_execution_needs_a_safe_plan() {
    let approved = AutoDecision::Execute { candidate_index: 0 };
    assert_eq!(
        auto_plan_decision(false, true, false, false, approved),
        AutoDecision::NeedsReview { reason: AutoReviewReason::InvalidPlan }
    );
    assert_eq!(
        auto_plan_decision(true, true, false, true, approved),
        AutoDecision::NeedsReview { reason: AutoReviewReason::DestinationCollision }
    );
    assert_eq!(auto_plan_decision(true, true, true, true, approved), approved);
    assert!(is_terminal(JobState::Interrupted));
    assert!(!is_terminal(JobState::Writing));
}
