use schemetry::history::{active_history_rules, history_pair_query, oracle_history_table_fix, pg_history_table_fix, Dialect};
use schemetry::models::{ConnectionRecord, HistoryNamingRule, MatchType, NameMap};
use schemetry::utils::{group_by_schema, summarize_fetch_errors};

fn rule(id: i64, m: MatchType, pattern: &str, enabled: bool) -> HistoryNamingRule {
    HistoryNamingRule { id, match_type: m, pattern: pattern.to_string(), enabled }
}

#[test]
fn only_enabled_prefix_suffix_rules_pair_tables() {
    let rules = vec![
        rule(1, MatchType::Prefix, "H_", true),
        rule(2, MatchType::Suffix, "_HIST", false),
        rule(3, MatchType::Contains, "X", true),
        rule(4, MatchType::Suffix, "  ", true),
        rule(5, MatchType::Suffix, "_LOG", true),
    ];
    let active = active_history_rules(&rules);
    assert_eq!(active.iter().map(|r| r.id).collect::<Vec<_>>(), vec![1, 5]);
}

#[test]
fn no_pair_query_without_rules() {
    assert!(history_pair_query(Dialect::Oracle, &[], "APP").is_none());
    assert!(history_pair_query(Dialect::Postgres, &[rule(1, MatchType::Exact, "X", true)], "app").is_none());
}

#[test]
fn pair_query_binds_patterns() {
    let q = history_pair_query(Dialect::Postgres, &[rule(1, MatchType::Prefix, " H_ ", true)], "app").unwrap();
    assert_eq!(q.binds, vec!["app".to_string(), "h_".to_string(), "h_%".to_string()]);
    assert_eq!(q.prefix_patterns, vec!["h_".to_string()]);
    assert!(q.sql.contains("lower($2 || t.table_name)"));
}

#[test]
fn oracle_history_fix_reports_missing_and_mismatch() {
    let main = vec![
        ("ID".to_string(), "NUMBER".to_string(), None),
        ("NAME".to_string(), "VARCHAR2".to_string(), Some("20".to_string())),
        ("CODE".to_string(), "CHAR".to_string(), Some("2".to_string())),
    ];
    let hist = vec![
        ("ID".to_string(), "NUMBER".to_string(), None),
        ("NAME".to_string(), "VARCHAR2".to_string(), Some("10".to_string())),
    ];
    let (issues, section) = oracle_history_table_fix("H_EMP", &main, &hist, &vec![]);
    assert_eq!(issues.len(), 2);
    assert_eq!(issues[0].issue_type, "TYPE_MISMATCH");
    assert_eq!(issues[0].main_type, "VARCHAR2(20)");
    assert_eq!(issues[0].history_type, "VARCHAR2(10)");
    assert_eq!(issues[1].issue_type, "MISSING");
    assert_eq!(
        section,
        "\n-- Alter table H_EMP\nALTER TABLE H_EMP MODIFY NAME VARCHAR2(20);\nALTER TABLE H_EMP ADD CODE CHAR;\n"
    );
}

#[test]
fn pg_history_fix_uses_prefixed_columns() {
    let main = vec![("name".to_string(), "text".to_string()), ("age".to_string(), "integer".to_string())];
    let hist = vec![("h_name".to_string(), "text".to_string()), ("age".to_string(), "bigint".to_string())];
    let (issues, section) = pg_history_table_fix("h_emp", &main, &hist, &vec!["h_".to_string()]);
    assert_eq!(issues.len(), 1);
    assert_eq!(issues[0].issue_type, "TYPE_MISMATCH");
    assert_eq!(section, "\n-- Alter table h_emp\nALTER TABLE h_emp ALTER COLUMN age TYPE integer;\n");
}

#[test]
fn history_fix_without_issues_is_empty() {
    let cols = vec![("id".to_string(), "integer".to_string())];
    let (issues, section) = pg_history_table_fix("h_t", &cols, &cols, &vec![]);
    assert!(issues.is_empty());
    assert_eq!(section, "");
}

fn conn(name: &str, group: &str) -> ConnectionRecord {
    ConnectionRecord {
        id: 0,
        name: name.to_string(),
        host: String::new(),
        port: 1521,
        service_name: String::new(),
        username: String::new(),
        password: String::new(),
        group_name: group.to_string(),
        password_broken: false,
    }
}

#[test]
fn groups_sorted_with_members_by_lower_name() {
    let groups = group_by_schema(&[conn("beta", "prod"), conn("Alpha", "prod"), conn("x", " "), conn("c", "dev")]);
    let names: Vec<(String, Vec<String>)> =
        groups.iter().map(|(g, cs)| (g.clone(), cs.iter().map(|c| c.name.clone()).collect())).collect();
    assert_eq!(
        names,
        vec![
            ("(no group)".to_string(), vec!["x".to_string()]),
            ("dev".to_string(), vec!["c".to_string()]),
            ("prod".to_string(), vec!["Alpha".to_string(), "beta".to_string()]),
        ]
    );
}

#[test]
fn fetch_error_summary() {
    let mut errors: NameMap<String> = NameMap::new();
    assert_eq!(summarize_fetch_errors(&errors, 3), "");
    errors.insert("s2".to_string(), "timeout".to_string());
    errors.insert("s1".to_string(), "ORA-1017".to_string());
    errors.insert("s3".to_string(), "down".to_string());
    assert_eq!(summarize_fetch_errors(&errors, 2), "s1: ORA-1017 | s2: timeout");
    assert_eq!(summarize_fetch_errors(&errors, 0), "s1: ORA-1017");
}
