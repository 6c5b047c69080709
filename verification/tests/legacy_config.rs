use fixer::legacy_config::{field_paths, normalize_legacy_file, FlatEntry, Leaf};

fn entry(path: &[&str], leaf: Leaf) -> FlatEntry {
    FlatEntry {
        path: path.iter().map(|key| key.to_string()).collect(),
        leaf,
    }
}

fn holds(entries: &[FlatEntry], path: &[&str], leaf: &Leaf) -> bool {
    entries.iter().any(|e| {
        e.path.len() == path.len()
            && e.path.iter().zip(path.iter()).all(|(a, b)| a == b)
            && &e.leaf == leaf
    })
}

fn names(list: &[&str]) -> Leaf {
    Leaf::Providers(list.iter().map(|name| name.to_string()).collect())
}

#[test]
fn legacy_json_keys_move_to_their_nested_places() {
    let entries = vec![
        entry(&["proxy"], Leaf::Value(0)),
        entry(&["api_key"], Leaf::Value(1)),
        entry(&["tmdb_base_url"], Leaf::Value(2)),
        entry(&["anilist_enabled"], Leaf::Value(3)),
        entry(&["anilist_endpoint"], Leaf::Value(4)),
        entry(&["anilist_token"], Leaf::Value(5)),
        entry(&["secret_references", "bangumi_access_token"], Leaf::Value(6)),
    ];
    let normalized = normalize_legacy_file(entries, Ok(true)).unwrap();
    assert_eq!(normalized.len(), 6);
    assert!(holds(&normalized, &["proxy"], &Leaf::Value(0)));
    assert!(holds(&normalized, &["providers", "tmdb", "api_token"], &Leaf::Value(1)));
    assert!(holds(&normalized, &["providers", "tmdb", "base_url"], &Leaf::Value(2)));
    assert!(holds(&normalized, &["providers", "anilist", "base_url"], &Leaf::Value(4)));
    assert!(holds(&normalized, &["providers", "anilist", "access_token"], &Leaf::Value(5)));
    assert!(holds(
        &normalized,
        &["enabled_providers"],
        &names(&["local", "tmdb", "bangumi", "musicbrainz", "openlibrary", "anilist"]),
    ));
}

#[test]
fn nested_setting_wins_over_its_legacy_key() {
    let entries = vec![
        entry(&["providers", "tmdb", "api_token"], Leaf::Value(0)),
        entry(&["tmdb_api_token"], Leaf::Value(1)),
        entry(&["api_key"], Leaf::Value(2)),
    ];
    let normalized = normalize_legacy_file(entries, Ok(false)).unwrap();
    assert_eq!(normalized.len(), 1);
    assert!(holds(&normalized, &["providers", "tmdb", "api_token"], &Leaf::Value(0)));
}

#[test]
fn first_alias_present_is_the_one_moved() {
    let entries = vec![
        entry(&["anilist_access_token"], Leaf::Value(0)),
        entry(&["anilist_token"], Leaf::Value(1)),
    ];
    let normalized = normalize_legacy_file(entries, Ok(false)).unwrap();
    assert_eq!(normalized.len(), 1);
    assert!(holds(&normalized, &["providers", "anilist", "access_token"], &Leaf::Value(1)));
}

#[test]
fn anilist_switch_off_lists_the_default_providers() {
    let entries = vec![entry(&["anilist_enabled"], Leaf::Value(0))];
    let normalized = normalize_legacy_file(entries, Ok(false)).unwrap();
    assert_eq!(normalized.len(), 1);
    assert!(holds(
        &normalized,
        &["enabled_providers"],
        &names(&["local", "tmdb", "bangumi", "musicbrainz", "openlibrary"]),
    ));
}

#[test]
fn anilist_switch_that_is_no_boolean_is_refused() {
    let entries = vec![entry(&["anilist_enabled"], Leaf::Value(0))];
    let refused = normalize_legacy_file(entries, Err("invalid type".to_string()));
    assert_eq!(refused.unwrap_err(), "invalid type");
}

#[test]
fn given_provider_list_makes_the_switch_unread() {
    let entries = vec![
        entry(&["anilist_enabled"], Leaf::Value(0)),
        entry(&["enabled_providers"], Leaf::Value(1)),
    ];
    let normalized = normalize_legacy_file(entries, Err("never read".to_string())).unwrap();
    assert_eq!(normalized.len(), 1);
    assert!(holds(&normalized, &["enabled_providers"], &Leaf::Value(1)));
}

#[test]
fn secret_references_move_to_provider_settings() {
    let entries = vec![
        entry(&["bangumi_access_token"], Leaf::Value(0)),
        entry(&["secret_references", "tmdb_api_token"], Leaf::Value(1)),
        entry(&["secret_references", "anilist_access_token"], Leaf::Value(2)),
        entry(&["secret_references", "bangumi_access_token"], Leaf::Value(3)),
        entry(&["providers", "anilist", "access_token_env"], Leaf::Value(4)),
    ];
    let normalized = normalize_legacy_file(entries, Ok(false)).unwrap();
    assert_eq!(normalized.len(), 2);
    assert!(holds(&normalized, &["providers", "tmdb", "api_token_env"], &Leaf::Value(1)));
    assert!(holds(&normalized, &["providers", "anilist", "access_token_env"], &Leaf::Value(4)));
}

#[test]
fn secret_references_that_are_no_table_stay() {
    let entries = vec![entry(&["secret_references"], Leaf::Value(0))];
    let normalized = normalize_legacy_file(entries, Ok(false)).unwrap();
    assert_eq!(normalized.len(), 1);
    assert!(holds(&normalized, &["secret_references"], &Leaf::Value(0)));
}

#[test]
fn empty_table_on_the_way_takes_the_moved_value() {
    let entries = vec![
        entry(&["providers"], Leaf::EmptyTable),
        entry(&["tmdb_base_url"], Leaf::Value(0)),
    ];
    let normalized = normalize_legacy_file(entries, Ok(false)).unwrap();
    assert_eq!(normalized.len(), 1);
    assert!(holds(&normalized, &["providers", "tmdb", "base_url"], &Leaf::Value(0)));
}

#[test]
fn value_on_the_way_blocks_the_move() {
    let entries = vec![
        entry(&["providers"], Leaf::Value(0)),
        entry(&["tmdb_base_url"], Leaf::Value(1)),
    ];
    let normalized = normalize_legacy_file(entries, Ok(false)).unwrap();
    assert_eq!(normalized.len(), 1);
    assert!(holds(&normalized, &["providers"], &Leaf::Value(0)));
}

#[test]
fn field_paths_join_keys_with_dots() {
    let entries = vec![
        entry(&["offline"], Leaf::Value(0)),
        entry(&["providers", "tmdb", "base_url"], Leaf::Value(1)),
        entry(&["server"], Leaf::EmptyTable),
        entry(&["", "inner"], Leaf::Value(2)),
    ];
    let mut fields = field_paths(&entries);
    fields.sort();
    assert_eq!(fields, vec!["inner", "offline", "providers.tmdb.base_url"]);
}

#[test]
fn current_layout_passes_through_unchanged() {
    let entries = vec![
        entry(&["providers", "tmdb", "api_token_env"], Leaf::Value(0)),
        entry(&["enabled_providers"], Leaf::Value(1)),
        entry(&["server"], Leaf::EmptyTable),
        entry(&["secret_references"], Leaf::Value(2)),
    ];
    let normalized = normalize_legacy_file(entries, Err("unread".to_string())).unwrap();
    assert_eq!(normalized.len(), 4);
    assert!(holds(&normalized, &["providers", "tmdb", "api_token_env"], &Leaf::Value(0)));
    assert!(holds(&normalized, &["enabled_providers"], &Leaf::Value(1)));
    assert!(holds(&normalized, &["server"], &Leaf::EmptyTable));
    assert!(holds(&normalized, &["secret_references"], &Leaf::Value(2)));
}
