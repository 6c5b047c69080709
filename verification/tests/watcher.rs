use fixer::ingestion_model::RuleStatus;
use fixer::job_model::JobMediaKind;
use fixer::paths::components;
use fixer::watcher::{
    ItemAction, ObservationTable, SupervisorError, failed_creation_status, is_temporary_path,
    item_action, path_signature, relative_source_path, system_time_ms,
};

#[test]
fn temporary_files_are_recognized() {
    assert!(is_temporary_path("/media/movie.mkv.part"));
    assert!(is_temporary_path("/media/notes.TMP"));
    assert!(is_temporary_path("/media/.fixer-write-1"));
    assert!(is_temporary_path("/media/backup~"));
    assert!(!is_temporary_path("/media/movie.mkv"));
    assert!(!is_temporary_path("/"));
}

#[test]
fn signatures_sum_sizes_and_keep_the_latest_time() {
    assert_eq!(path_signature(&vec![]), (0, 0));
    assert_eq!(
        path_signature(&vec![(false, 4096, 10), (true, 5, 30), (true, 7, 20)]),
        (12, 30)
    );
    assert_eq!(path_signature(&vec![(true, u64::MAX, 1), (true, 1, 2)]), (u64::MAX, 2));
    assert_eq!(system_time_ms(Some(5)), Ok(5));
    assert_eq!(system_time_ms(None), Err(SupervisorError::InvalidModifiedTime));
}

#[test]
fn relative_paths_are_recorded_beneath_the_source() {
    let source = components("/lib/tv");
    assert_eq!(relative_source_path(&source, &components("/lib/tv")).unwrap(), ".");
    assert_eq!(
        relative_source_path(&source, &components("/lib/tv/Show/Season 1")).unwrap(),
        "Show/Season 1"
    );
    assert_eq!(
        relative_source_path(&source, &components("/lib/movies")),
        Err(SupervisorError::EscapedSourceRoot)
    );
}

#[test]
fn sources_must_hold_still_for_the_debounce() {
    let mut table = ObservationTable::new();
    assert!(!table.observe(1, "/lib/a", "a", 10, 100, 1_000, 500));
    assert!(!table.observe(1, "/lib/a", "a", 10, 100, 1_400, 500));
    assert!(table.observe(1, "/lib/a", "a", 10, 100, 1_500, 500));
    assert!(!table.observe(1, "/lib/a", "a", 11, 100, 2_000, 500));
    assert!(!table.observe(1, "/lib/a", "a", 11, 100, 2_400, 500));
    assert!(table.observe(1, "/lib/a", "a", 11, 100, 2_600, 500));
    assert!(!table.observe(2, "/lib/a", "a", 11, 100, 2_600, 500));
}

#[test]
fn stable_items_lead_to_actions() {
    assert_eq!(item_action(true, None, None, false), Ok(ItemAction::Pause));
    assert_eq!(
        item_action(false, Some(vec![JobMediaKind::Movie]), None, false),
        Ok(ItemAction::Review(vec![JobMediaKind::Movie]))
    );
    assert_eq!(item_action(false, None, Some(JobMediaKind::Book), true), Ok(ItemAction::MarkProcessing));
    assert_eq!(
        item_action(false, None, Some(JobMediaKind::Book), false),
        Ok(ItemAction::CreateJob(JobMediaKind::Book))
    );
    assert_eq!(item_action(false, None, None, false), Err(SupervisorError::MissingMediaKind));
    assert_eq!(failed_creation_status(), RuleStatus::Error);
}

#[test]
fn unseen_sources_are_forgotten_for_their_rule_only() {
    let mut table = ObservationTable::new();
    table.observe(1, "/lib/a", "a", 1, 1, 0, 10);
    table.observe(1, "/lib/b", "b", 1, 1, 0, 10);
    table.observe(2, "/lib/c", "c", 1, 1, 0, 10);
    table.forget_unseen(1, &vec!["/lib/a".to_owned()]);
    assert!(table.observe(1, "/lib/a", "a", 1, 1, 20, 10));
    assert!(!table.observe(1, "/lib/b", "b", 1, 1, 20, 10));
    assert!(table.observe(2, "/lib/c", "c", 1, 1, 20, 10));
}
