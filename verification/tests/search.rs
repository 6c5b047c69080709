use fixer::job_model::JobMediaKind;
use fixer::search::{
    candidate_group, gather_results, normalize_title, note_selection, plan_search, same_work,
    CandidateFields, ExternalKey, Hit, ProviderTraits, SearchFailure, Warning,
};

fn provider(supports_kind: bool, requires_network: bool) -> ProviderTraits {
    ProviderTraits { supports_kind, requires_network }
}

fn hit(candidate: usize, kind: JobMediaKind) -> Hit {
    Hit { candidate, kind }
}

fn key(namespace: &str, value: &str) -> ExternalKey {
    ExternalKey { namespace: namespace.to_string(), value: value.to_string() }
}

fn candidate(provider: &str, id: &str, title: &str, year: Option<u16>, sequence: Option<&str>) -> CandidateFields {
    CandidateFields {
        provider: provider.to_string(),
        external_id: key(provider, id),
        title: title.to_string(),
        year,
        sequence: sequence.map(|s| s.to_string()),
    }
}

fn codes(warnings: &[Warning]) -> Vec<&str> {
    warnings.iter().map(|w| w.code.as_str()).collect()
}

#[test]
fn offline_search_skips_network_providers() {
    let providers = vec![provider(true, false), provider(true, true), provider(false, true), provider(true, false)];
    let plan = plan_search(&providers, true);
    assert_eq!(plan.queried, vec![0, 3]);
    assert!(plan.skipped_network);
    let online = plan_search(&providers, false);
    assert_eq!(online.queried, vec![0, 1, 3]);
    assert!(!online.skipped_network);
}

#[test]
fn offline_without_network_providers_skips_nothing() {
    let providers = vec![provider(true, false), provider(false, true)];
    let plan = plan_search(&providers, true);
    assert_eq!(plan.queried, vec![0]);
    assert!(!plan.skipped_network);
}

#[test]
fn gathered_candidates_keep_the_kind_and_order() {
    let results = vec![
        Ok(vec![hit(0, JobMediaKind::Movie), hit(1, JobMediaKind::Television)]),
        Err("tmdb timed out".to_string()),
        Ok(vec![hit(2, JobMediaKind::Movie)]),
    ];
    let gathered = gather_results(&results, JobMediaKind::Movie, true).unwrap();
    assert_eq!(gathered.candidates, vec![0, 2]);
    assert_eq!(codes(&gathered.warnings), vec!["offline_provider_skipped", "provider_search_failed"]);
    assert_eq!(gathered.warnings[1].message, "tmdb timed out");
}

#[test]
fn search_without_candidates_or_warnings_finds_none() {
    let results = vec![Ok(vec![hit(0, JobMediaKind::Book)]), Ok(vec![])];
    assert!(matches!(gather_results(&results, JobMediaKind::Music, false), Err(SearchFailure::NoCandidates)));
}

#[test]
fn search_without_candidates_reports_every_warning() {
    let results = vec![Err("first".to_string()), Err("second".to_string())];
    match gather_results(&results, JobMediaKind::Anime, true) {
        Err(SearchFailure::AllProvidersFailed(messages)) => assert_eq!(
            messages,
            vec!["offline mode skipped one or more network providers", "first", "second"]
        ),
        _ => panic!("expected every warning"),
    }
}

#[test]
fn shared_top_score_adds_a_warning() {
    let mut warnings = Vec::new();
    note_selection(&mut warnings, false);
    assert!(warnings.is_empty());
    note_selection(&mut warnings, true);
    assert_eq!(codes(&warnings), vec!["ambiguous_candidates"]);
    assert_eq!(
        warnings[0].message,
        "multiple candidates share the top score; provider order was used deterministically"
    );
}

#[test]
fn titles_collapse_white_space_and_case() {
    assert_eq!(normalize_title("  The   Matrix\tReloaded \n"), "the matrix reloaded");
    assert_eq!(normalize_title("ÉCOLE"), "école");
    assert_eq!(normalize_title("   "), "");
}

#[test]
fn same_work_by_identifier_or_compatible_title() {
    let a = candidate("tmdb", "1", "The Matrix", Some(1999), None);
    let same_id = candidate("tmdb", "1", "Something else", Some(2020), None);
    let same_title = candidate("bangumi", "9", "the  MATRIX", None, None);
    let other_year = candidate("bangumi", "9", "The Matrix", Some(2003), None);
    assert!(same_work(&a, &same_id));
    assert!(same_work(&a, &same_title));
    assert!(!same_work(&a, &other_year));
    let with_sequence = candidate("anilist", "3", "The Matrix", Some(1999), Some("2"));
    let other_sequence = candidate("tmdb", "4", "The Matrix", Some(1999), Some("3"));
    assert!(same_work(&a, &with_sequence));
    assert!(!same_work(&with_sequence, &other_sequence));
}

#[test]
fn group_holds_one_candidate_per_provider() {
    let candidates = vec![
        candidate("tmdb", "1", "Spirited Away", Some(2001), None),
        candidate("tmdb", "2", "Spirited Away", Some(2001), None),
        candidate("bangumi", "7", "spirited away", None, None),
        candidate("anilist", "8", "Sen to Chihiro", Some(2001), None),
        candidate("musicbrainz", "5", "Unrelated", None, None),
    ];
    let identity = vec![key("anilist", "8")];
    assert_eq!(candidate_group(&candidates, &identity), vec![0, 2, 3]);
    assert_eq!(candidate_group(&candidates, &Vec::new()), vec![0, 2]);
    assert!(candidate_group(&Vec::new(), &identity).is_empty());
}
