use fixer::discovery::{
    DiscoveryError, DiscoveryOutcome, discover_items, media_kind_rank, ordered_media_kinds,
    reconcile_event,
};
use fixer::job_model::JobMediaKind;
use fixer::paths::{components, render};

#[test]
fn kinds_are_ranked_in_scanning_order() {
    let kinds = ordered_media_kinds();
    for (rank, kind) in kinds.iter().enumerate() {
        assert_eq!(media_kind_rank(*kind) as usize, rank);
    }
    assert_eq!(kinds[0], JobMediaKind::Movie);
    assert_eq!(kinds[4], JobMediaKind::Book);
}

#[test]
fn claims_are_grouped_per_root_with_ignored_entries() {
    let source = components("/lib");
    let claims = vec![
        (components("/lib/b"), JobMediaKind::Music),
        (components("/lib/a"), JobMediaKind::Movie),
        (components("/lib/b"), JobMediaKind::Movie),
        (components("/lib/a"), JobMediaKind::Movie),
    ];
    let entries = vec![components("/lib/a"), components("/lib/c"), components("/lib/b/x")];
    let items = discover_items(&source, &claims, &entries).unwrap();
    let roots: Vec<String> = items.iter().map(|item| render(&item.source_root)).collect();
    assert_eq!(roots, vec!["/lib/a", "/lib/b", "/lib/c"]);
    assert_eq!(items[0].outcome, DiscoveryOutcome::Ready(1));
    assert_eq!(
        items[1].outcome,
        DiscoveryOutcome::NeedsReview(vec![JobMediaKind::Movie, JobMediaKind::Music])
    );
    assert_eq!(items[2].outcome, DiscoveryOutcome::Ignored);
}

#[test]
fn a_claimed_source_ignores_nothing_and_escapes_are_refused() {
    let source = components("/lib");
    let claims = vec![(components("/lib"), JobMediaKind::Book)];
    let items = discover_items(&source, &claims, &vec![components("/lib/x")]).unwrap();
    assert_eq!(items.len(), 1);
    assert_eq!(items[0].outcome, DiscoveryOutcome::Ready(0));
    let escaped = vec![(components("/elsewhere"), JobMediaKind::Book)];
    assert_eq!(
        discover_items(&source, &escaped, &vec![]).unwrap_err(),
        DiscoveryError::EscapedSourceRoot
    );
}

#[test]
fn events_go_to_the_deepest_containing_root() {
    let roots = vec![components("/lib"), components("/lib/show"), components("/lib/show")];
    assert_eq!(reconcile_event(&roots, &components("/lib/show/s1/e1.mkv")), Some(2));
    assert_eq!(reconcile_event(&roots, &components("/lib/other")), Some(0));
    assert_eq!(reconcile_event(&roots, &components("/tmp")), None);
}
