use fixer::ingestion_model::MediaKindMode;
use fixer::ingestion_runtime::{
    IngestionSupervisorConfig, RuleJobError, effective_media_kind_mode, select_rule, select_single_work,
};
use fixer::job_model::JobMediaKind;
use fixer::paths::components;

#[test]
fn the_deepest_enabled_rule_wins() {
    let selected = components("/media/tv/Show/Season 1");
    let rules = vec![
        (true, Some(components("/media"))),
        (true, Some(components("/media/tv"))),
        (false, Some(components("/media/tv/Show"))),
        (true, None),
        (true, Some(components("/media/movies"))),
        (true, Some(components("/media/tv"))),
    ];
    assert_eq!(select_rule(&selected, &rules), Some(1));
    assert_eq!(select_rule(&components("/other"), &rules), None);
}

#[test]
fn requested_kinds_must_agree_with_fixed_rules() {
    assert_eq!(
        effective_media_kind_mode(MediaKindMode::Auto, Some(JobMediaKind::Book)).unwrap(),
        MediaKindMode::Fixed(JobMediaKind::Book)
    );
    assert!(matches!(
        effective_media_kind_mode(MediaKindMode::Fixed(JobMediaKind::Movie), Some(JobMediaKind::Book)),
        Err(RuleJobError::InvalidMediaKindOverride)
    ));
}

#[test]
fn exactly_one_work_is_queued() {
    assert!(matches!(select_single_work(&vec![(true, None)]), Err(RuleJobError::NoWork)));
    assert!(matches!(
        select_single_work(&vec![(false, Some(JobMediaKind::Movie)), (false, None)]),
        Err(RuleJobError::MultipleWorks)
    ));
    assert!(matches!(
        select_single_work(&vec![(true, None), (false, None)]),
        Err(RuleJobError::AmbiguousMedia)
    ));
    assert_eq!(
        select_single_work(&vec![(true, None), (false, Some(JobMediaKind::Music))]).unwrap(),
        (1, JobMediaKind::Music)
    );
}

#[test]
fn supervisor_intervals_are_at_least_a_millisecond() {
    let config = IngestionSupervisorConfig::new(0, 5_000_000).with_polling_watcher(10);
    assert_eq!(config.debounce_nanos, 1_000_000);
    assert_eq!(config.reconciliation_nanos, 5_000_000);
    assert_eq!(config.poll_interval_nanos, Some(1_000_000));
}
