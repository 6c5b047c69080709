use fixer::api_runs::{validated_selection, ScrapeSelection, TargetRequest};
use fixer::job_model::JobMediaKind;

fn reason(error: &fixer::api_error::ApiError) -> String {
    error.details.as_ref().unwrap()[0].1.clone()
}

fn target(provider: &str, namespace: &str, kind: JobMediaKind) -> TargetRequest {
    TargetRequest {
        provider: provider.to_string(),
        namespace: namespace.to_string(),
        value: "603".to_string(),
        media_kind: kind,
    }
}

#[test]
fn missing_target_selects_automatically() {
    assert!(matches!(
        validated_selection(JobMediaKind::Movie, None, false),
        Ok(ScrapeSelection::Automatic)
    ));
}

#[test]
fn tmdb_target_needs_the_tmdb_namespace() {
    let error = validated_selection(JobMediaKind::Movie, Some(target("tmdb", "imdb", JobMediaKind::Movie)), true)
        .unwrap_err();
    assert_eq!(error.status, 422);
    assert_eq!(error.details.as_ref().unwrap()[0].0, "target");
    assert_eq!(reason(&error), "TMDB IDs must use the tmdb namespace");
}

#[test]
fn unbuildable_target_is_refused() {
    let error = validated_selection(JobMediaKind::Movie, Some(target("bangumi", "bangumi", JobMediaKind::Movie)), false)
        .unwrap_err();
    assert_eq!(reason(&error), "must contain a valid provider and external ID");
}

#[test]
fn target_of_another_kind_is_refused() {
    let error = validated_selection(JobMediaKind::Movie, Some(target("tmdb", "tmdb", JobMediaKind::Television)), true)
        .unwrap_err();
    assert_eq!(reason(&error), "media kind must match the scrape");
}

#[test]
fn matching_target_selects_exactly() {
    match validated_selection(JobMediaKind::Anime, Some(target("anilist", "anilist", JobMediaKind::Anime)), true) {
        Ok(ScrapeSelection::Exact(chosen)) => {
            assert_eq!(chosen.provider, "anilist");
            assert_eq!(chosen.value, "603");
        }
        _ => panic!("expected an exact selection"),
    }
}
