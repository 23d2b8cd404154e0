use schemetry::filter_rules::{SqliteFilterRuleRepository, SqliteHistoryNamingRuleRepository};
use schemetry::models::MatchType;
use schemetry::stores::{
    SqliteConnectionRepository, SqliteQueryHistoryRepository, SqliteSchemaFolderOverrideRepository, KEYRING_REF_MARKER,
    KEYRING_SERVICE,
};

#[test]
fn keyring_key_joins_group_and_name() {
    assert_eq!(SqliteConnectionRepository::keyring_key("prod", "db1"), "prod:db1");
    assert_eq!(SqliteConnectionRepository::keyring_key("", "db1"), ":db1");
    assert_eq!(KEYRING_SERVICE, "schemetry");
    assert_eq!(KEYRING_REF_MARKER, "__KEYRING__");
}

#[test]
fn history_skips_repeats_of_the_latest_query() {
    assert!(!SqliteQueryHistoryRepository::should_append(Some("select 1"), "select 1"));
    assert!(SqliteQueryHistoryRepository::should_append(Some("select 1"), "select 2"));
    assert!(SqliteQueryHistoryRepository::should_append(None, "select 1"));
    assert_eq!(SqliteQueryHistoryRepository::next_favorite_order(-1), 0);
    assert_eq!(SqliteQueryHistoryRepository::next_favorite_order(4), 5);
}

#[test]
fn seeded_rules() {
    let f = SqliteFilterRuleRepository::default_rules();
    assert_eq!(f.len(), 14);
    assert!(matches!(f[0], (MatchType::Prefix, "V_")));
    assert!(matches!(f[13], (MatchType::Contains, "_TMP_")));
    let h = SqliteHistoryNamingRuleRepository::default_rules();
    assert!(matches!(h[..], [(MatchType::Prefix, "HIST_"), (MatchType::Suffix, "_HIST")]));
    assert_eq!(SqliteSchemaFolderOverrideRepository::added_columns().len(), 8);
}
