use schemetry::models::{ColumnInfo, NameMap, SchemaFolderOverride, ServerTables, TableFilterRule, FilterAction, MatchType};
use schemetry::services::{
    active_filter_rules, assemble_server_tables, collect_fetch_outcomes, override_or, typed_override_or, OverrideField,
    SchemaFolderOverrideRepository, SchemaFolderOverrideService,
};
use schemetry::settings::{
    default_ddl_extension, load_client_lib_dir, load_ddl_extensions, load_output_folder, load_storage_modes,
    resolve_ddl_extension, resolve_storage_mode, save_output_folder, stored_setting,
};
use schemetry::state::FetchSnapshot;

fn over(schema: &str) -> SchemaFolderOverride {
    SchemaFolderOverride {
        id: 1,
        schema_name: schema.to_string(),
        folder_path: "D:/repo/hr".to_string(),
        encoding: " ".to_string(),
        extensions: r#"{"VIEW":"sql"}"#.to_string(),
        storage_modes: r#"{"TABLE":"migration"}"#.to_string(),
        naming_convention: "flyway".to_string(),
        code_folder_name: String::new(),
        migration_folder_name: "db".to_string(),
        migration_folder_mode: String::new(),
        migration_version_label: String::new(),
    }
}

struct OneOverride(SchemaFolderOverride);

impl SchemaFolderOverrideRepository for OneOverride {
    fn init_db(&self) -> Result<(), String> {
        Ok(())
    }
    fn list_overrides(&self) -> Result<Vec<SchemaFolderOverride>, String> {
        Ok(vec![self.0.clone()])
    }
    fn insert_override(&self, data: &SchemaFolderOverride) -> Result<SchemaFolderOverride, String> {
        Ok(data.clone())
    }
    fn update_override(&self, _id: i64, data: &SchemaFolderOverride) -> Result<SchemaFolderOverride, String> {
        Ok(data.clone())
    }
    fn delete_override(&self, _id: i64) -> Result<(), String> {
        Ok(())
    }
    fn find_for_schema(&self, schema_name: &str) -> Result<Option<SchemaFolderOverride>, String> {
        Ok(if self.0.schema_name.eq_ignore_ascii_case(schema_name) { Some(self.0.clone()) } else { None })
    }
}

#[test]
fn override_fields_fall_back_when_blank() {
    let o = Some(over("hr"));
    assert_eq!(override_or(&o, OverrideField::NamingConvention, "timestamp"), "flyway");
    assert_eq!(override_or(&o, OverrideField::Encoding, "utf8"), "utf8");
    assert_eq!(override_or(&None, OverrideField::FolderPath, "x"), "x");
    assert_eq!(typed_override_or(Some(&o.as_ref().unwrap().extensions), " view ", "vw"), "sql");
    assert_eq!(typed_override_or(Some(&o.as_ref().unwrap().extensions), "TABLE", "tab"), "tab");
    assert_eq!(typed_override_or(Some(&"not json".to_string()), "TABLE", "tab"), "tab");
}

#[test]
fn override_service_resolves_per_schema() {
    let svc = SchemaFolderOverrideService::new(OneOverride(over("hr")));
    assert_eq!(svc.resolve_naming_convention("HR", "timestamp"), Ok("flyway".to_string()));
    assert_eq!(svc.resolve_naming_convention("sales", "timestamp"), Ok("timestamp".to_string()));
    assert_eq!(svc.resolve_migration_folder_name("hr", "migration"), Ok("db".to_string()));
    assert_eq!(svc.resolve_storage_mode("hr", "table", "both"), Ok("migration".to_string()));
    assert_eq!(svc.resolve_extension("hr", "VIEW", "vw"), Ok("sql".to_string()));
    assert_eq!(svc.resolve_schema_dir("hr", "C:/schemas").unwrap(), std::path::PathBuf::from("D:/repo/hr"));
    assert_eq!(
        svc.resolve_schema_dir("SALES", "C:/schemas").unwrap(),
        std::path::PathBuf::from("C:/schemas").join("sales")
    );
}

#[test]
fn active_filter_rules_keep_enabled_in_order() {
    let r = |id: i64, enabled: bool| TableFilterRule {
        id,
        action: FilterAction::Exclude,
        match_type: MatchType::Prefix,
        pattern: "X".to_string(),
        enabled,
    };
    let active = active_filter_rules(vec![r(1, true), r(2, false), r(3, true)]);
    assert_eq!(active.iter().map(|x| x.id).collect::<Vec<_>>(), vec![1, 3]);
}

#[test]
fn fetch_outcomes_split_into_servers_and_errors() {
    let (servers, errors) = collect_fetch_outcomes(vec![
        ("s1".to_string(), Ok(ServerTables::new())),
        ("s2".to_string(), Err("ORA-12541".to_string())),
        ("s1".to_string(), Err("later".to_string())),
    ]);
    assert_eq!(servers.len(), 1);
    assert!(servers.contains_key("s1"));
    assert_eq!(errors.len(), 2);
    assert_eq!(errors.get("s2"), Some(&"ORA-12541".to_string()));
    assert_eq!(errors.get("s1"), Some(&"later".to_string()));
}

#[test]
fn setting_reads_back_what_was_written() {
    let mut snap: NameMap<String> = NameMap::new();
    assert_eq!(load_output_folder(&snap), None);
    let w = save_output_folder("C:/reports");
    snap.insert(w.key, w.value);
    assert_eq!(load_output_folder(&snap), Some("C:/reports".to_string()));
    let w = save_output_folder("   ");
    snap.insert(w.key, w.value);
    assert_eq!(load_output_folder(&snap), None);
}

#[test]
fn client_lib_dir_falls_back_to_environment() {
    let mut snap: NameMap<String> = NameMap::new();
    assert_eq!(load_client_lib_dir(&snap, Some("C:/ic".to_string())), Some("C:/ic".to_string()));
    assert_eq!(load_client_lib_dir(&snap, Some(" ".to_string())), None);
    snap.insert("client_lib_dir".to_string(), "D:/ic".to_string());
    assert_eq!(load_client_lib_dir(&snap, Some("C:/ic".to_string())), Some("D:/ic".to_string()));
}

#[test]
fn stored_setting_drops_blank() {
    assert_eq!(stored_setting(Some(" ".to_string())), None);
    assert_eq!(stored_setting(Some("x".to_string())), Some("x".to_string()));
}

#[test]
fn default_extensions_by_type() {
    assert_eq!(default_ddl_extension(" package body "), "pkb");
    assert_eq!(default_ddl_extension("TABLE"), "tab");
    assert_eq!(default_ddl_extension("DIRECTORY"), "sql");
}

#[test]
fn global_extension_and_mode_resolution() {
    let saved = Some(r#"{"view":" v2 ","VIEW":"  "}"#.to_string());
    assert_eq!(resolve_ddl_extension("View", &saved), "v2");
    assert_eq!(resolve_ddl_extension("PROCEDURE", &saved), "prc");
    assert_eq!(resolve_storage_mode("TABLE", &Some(r#"{"table":"code"}"#.to_string())), "code");
    assert_eq!(resolve_storage_mode("TABLE", &None), "both");
}

#[test]
fn extension_map_merges_overrides() {
    let mut snap: NameMap<String> = NameMap::new();
    snap.insert("ddl_file_extensions".to_string(), r#"{"job":" sch ","custom":"cst"}"#.to_string());
    let m = load_ddl_extensions(&snap);
    assert_eq!(m.len(), 13);
    assert!(m.contains(&("JOB".to_string(), "sch".to_string())));
    assert!(m.contains(&("CUSTOM".to_string(), "cst".to_string())));
    assert!(load_storage_modes(&snap).is_empty());
}

#[test]
fn fresh_snapshot_is_empty() {
    let s = FetchSnapshot::default();
    assert_eq!(s.servers.len(), 0);
    let loaded = FetchSnapshot::loaded(NameMap::new());
    assert_eq!(loaded.server_table_ddls.len(), 0);
}

fn col(name: &str, data_type: &str) -> ColumnInfo {
    ColumnInfo { column_name: Some(name.to_string()), data_type: Some(data_type.to_string()), ..ColumnInfo::default() }
}

#[test]
fn server_tables_group_rows_by_table_in_first_appearance_order() {
    let rows = vec![
        ("T2".to_string(), "B".to_string(), col("B", "NUMBER")),
        ("T1".to_string(), "A".to_string(), col("A", "DATE")),
        ("T2".to_string(), "C".to_string(), col("C", "VARCHAR2")),
        ("T2".to_string(), "B".to_string(), col("B", "CHAR")),
    ];
    let tables = assemble_server_tables(&rows);
    assert_eq!(tables.keys(), vec!["T2".to_string(), "T1".to_string()]);
    let t2 = tables.get("T2").unwrap();
    assert_eq!(t2.keys(), vec!["B".to_string(), "C".to_string()]);
    assert_eq!(t2.get("B").unwrap().data_type.as_deref(), Some("CHAR"));
    assert_eq!(tables.get("T1").unwrap().get("A").unwrap().data_type.as_deref(), Some("DATE"));
}

#[test]
fn blank_client_folder_initializes_nothing() {
    assert_eq!(schemetry::services::configure_client_lib_dir("   "), Ok(false));
    assert_eq!(schemetry::services::configure_client_lib_dir(""), Ok(false));
}

struct RecordingNamingRules(std::cell::RefCell<Vec<String>>);

impl schemetry::services::HistoryNamingRuleRepository for RecordingNamingRules {
    fn init_db(&self) -> Result<(), String> {
        Ok(())
    }
    fn list_rules(&self) -> Result<Vec<schemetry::models::HistoryNamingRule>, String> {
        Ok(vec![
            schemetry::models::HistoryNamingRule { id: 1, match_type: MatchType::Prefix, pattern: "H_".to_string(), enabled: true },
            schemetry::models::HistoryNamingRule { id: 2, match_type: MatchType::Suffix, pattern: "_H".to_string(), enabled: false },
        ])
    }
    fn insert_rule(&self, rule: &schemetry::models::HistoryNamingRule) -> Result<schemetry::models::HistoryNamingRule, String> {
        self.0.borrow_mut().push("insert".to_string());
        Ok(schemetry::models::HistoryNamingRule { id: 7, ..rule.clone() })
    }
    fn update_rule(&self, id: i64, rule: &schemetry::models::HistoryNamingRule) -> Result<schemetry::models::HistoryNamingRule, String> {
        self.0.borrow_mut().push(format!("update {id}"));
        Ok(rule.clone())
    }
    fn delete_rule(&self, _id: i64) -> Result<(), String> {
        Ok(())
    }
}

fn naming_rule(id: i64, match_type: MatchType) -> schemetry::models::HistoryNamingRule {
    schemetry::models::HistoryNamingRule { id, match_type, pattern: "HIST_".to_string(), enabled: true }
}

#[test]
fn naming_rules_save_by_id_and_refuse_other_match_types() {
    let svc = schemetry::services::HistoryNamingRuleService::new(RecordingNamingRules(std::cell::RefCell::new(Vec::new())));
    assert_eq!(svc.save_rule(&naming_rule(0, MatchType::Prefix)).unwrap().id, 7);
    assert_eq!(svc.save_rule(&naming_rule(3, MatchType::Suffix)).unwrap().id, 3);
    assert_eq!(
        svc.save_rule(&naming_rule(0, MatchType::Contains)),
        Err(schemetry::filter_rules::NAMING_MATCH_ERROR.to_string())
    );
    assert!(svc.save_rule(&naming_rule(4, MatchType::Exact)).is_err());
    let active = svc.list_active_rules().unwrap();
    assert_eq!(active.len(), 1);
    assert_eq!(active[0].id, 1);
}

#[test]
fn client_folder_argument_is_trimmed_or_none() {
    assert_eq!(schemetry::services::client_lib_dir_arg("  C:/instantclient \n"), Some("C:/instantclient".to_string()));
    assert_eq!(schemetry::services::client_lib_dir_arg(" \t"), None);
}
