use schemetry::commands::{
    fetch_rows, fetch_servers_response, get_settings, history_fix_results, lob_content, looks_like_text, pick_connections,
    plsql_userid, query_results, query_text, selected_connections, server_history_fix, settings_writes,
    sniff_mime, validated_override, SettingsForm, LOB_FETCH_LIMIT, MAX_BINARY, MAX_TEXT_CHARS,
};
use schemetry::models::{
    ConnectionRecord, HistoryFixResult, HistoryTableIssue, NameMap, SchemaFolderOverride,
};
use schemetry::services::{ConnectionCatalogService, ConnectionRepository, LobCell};

fn conn(id: i64, name: &str) -> ConnectionRecord {
    ConnectionRecord {
        id,
        name: name.to_string(),
        host: "db.local".to_string(),
        port: 1521,
        service_name: "ORCL".to_string(),
        username: "scott".to_string(),
        password: "tiger".to_string(),
        group_name: "prod".to_string(),
        password_broken: false,
    }
}

struct FixedConnections(Vec<ConnectionRecord>);

impl ConnectionRepository for FixedConnections {
    fn init_db(&self) -> Result<(), String> {
        Ok(())
    }
    fn get_all_connections(&self) -> Result<Vec<ConnectionRecord>, String> {
        Ok(self.0.clone())
    }
    fn insert_connection(&self, _data: &ConnectionRecord) -> Result<(), String> {
        Ok(())
    }
    fn update_connection(&self, _id: i64, _data: &ConnectionRecord) -> Result<(), String> {
        Ok(())
    }
    fn delete_connection(&self, _id: i64) -> Result<(), String> {
        Ok(())
    }
    fn delete_all_connections(&self) -> Result<(), String> {
        Ok(())
    }
    fn upsert_connection(&self, _data: &ConnectionRecord) -> Result<(), String> {
        Ok(())
    }
}

#[test]
fn pick_all_when_no_ids() {
    let all = vec![conn(1, "a"), conn(2, "b")];
    assert_eq!(pick_connections(all.clone(), &[]), Ok(all));
}

#[test]
fn pick_by_id_keeps_order() {
    let all = vec![conn(1, "a"), conn(2, "b"), conn(3, "a")];
    let picked = pick_connections(all, &[3, 1]).unwrap();
    assert_eq!(picked.iter().map(|c| c.id).collect::<Vec<_>>(), vec![1, 3]);
}

#[test]
fn pick_none_matching_is_an_error() {
    let all = vec![conn(1, "a")];
    assert_eq!(
        pick_connections(all, &[7]),
        Err("No matching server connections were selected.".to_string())
    );
}

#[test]
fn selected_connections_from_catalog() {
    let catalog = ConnectionCatalogService::new(FixedConnections(vec![conn(1, "a"), conn(2, "b")]));
    let picked = selected_connections(&catalog, &[2]).unwrap();
    assert_eq!(picked.len(), 1);
    assert_eq!(picked[0].name, "b");
    assert!(selected_connections(&catalog, &[9]).is_err());
}

#[test]
fn query_text_is_trimmed_and_required() {
    assert_eq!(query_text("  select 1 from dual \n"), Ok("select 1 from dual".to_string()));
    assert_eq!(query_text(" \t\n"), Err("SQL cannot be empty.".to_string()));
}

#[test]
fn sniffs_known_magic_bytes() {
    assert_eq!(sniff_mime(b"%PDF-1.7"), "application/pdf");
    assert_eq!(sniff_mime(&[0x89, b'P', b'N', b'G', 0x0D, 0x0A, 0x1A, 0x0A, 0]), "image/png");
    assert_eq!(sniff_mime(&[0xFF, 0xD8, 0xFF, 0xE0]), "image/jpeg");
    assert_eq!(sniff_mime(b"GIF89a..."), "image/gif");
    assert_eq!(sniff_mime(b"RIFF\0\0\0\0WEBPVP8 "), "image/webp");
    assert_eq!(sniff_mime(b"BM\x00\x01"), "image/bmp");
    assert_eq!(sniff_mime(b"plain words"), "text/plain");
    assert_eq!(sniff_mime(&[0x00, 0x01, 0x02]), "application/octet-stream");
    assert_eq!(sniff_mime(&[0xC3, 0x28]), "application/octet-stream");
}

#[test]
fn text_detection_samples_the_start() {
    assert!(looks_like_text("grüße".as_bytes()));
    assert!(!looks_like_text(b"a\0b"));
    let mut big = vec![b'a'; 8192];
    big.push(0);
    assert!(looks_like_text(&big));
}

#[test]
fn lob_text_is_capped_by_characters() {
    let c = lob_content(LobCell::Text(Some("héllo".to_string())));
    assert_eq!(c.kind, "text");
    assert_eq!(c.text, Some("héllo".to_string()));
    assert_eq!(c.size, 5);
    assert!(!c.truncated);
    assert_eq!(c.mime, None);
    assert_eq!(c.base64, None);

    let long = "x".repeat(MAX_TEXT_CHARS + 3);
    let c = lob_content(LobCell::Text(Some(long)));
    assert!(c.truncated);
    assert_eq!(c.size, MAX_TEXT_CHARS as u64);
    assert_eq!(c.text.unwrap().len(), MAX_TEXT_CHARS);

    let c = lob_content(LobCell::Text(None));
    assert_eq!(c.text, Some(String::new()));
    assert_eq!(c.size, 0);
}

#[test]
fn lob_binary_is_sniffed_and_encoded() {
    let c = lob_content(LobCell::Binary(b"abc".to_vec()));
    assert_eq!(c.kind, "binary");
    assert_eq!(c.base64, Some("YWJj".to_string()));
    assert_eq!(c.mime, Some("text/plain".to_string()));
    assert_eq!(c.size, 3);
    assert!(!c.truncated);
    assert_eq!(c.text, None);
}

#[test]
fn lob_binary_is_capped_by_bytes() {
    assert_eq!(LOB_FETCH_LIMIT, MAX_BINARY + 1);
    let c = lob_content(LobCell::Binary(vec![0u8; MAX_BINARY + 1]));
    assert!(c.truncated);
    assert_eq!(c.size, MAX_BINARY as u64);
    assert_eq!(c.mime, Some("application/octet-stream".to_string()));
}

fn override_with(schema: &str, encoding: &str) -> SchemaFolderOverride {
    SchemaFolderOverride {
        id: 4,
        schema_name: schema.to_string(),
        folder_path: String::new(),
        encoding: encoding.to_string(),
        extensions: String::new(),
        storage_modes: String::new(),
        naming_convention: String::new(),
        code_folder_name: String::new(),
        migration_folder_name: String::new(),
        migration_folder_mode: String::new(),
        migration_version_label: String::new(),
    }
}

#[test]
fn override_needs_a_schema_name() {
    assert_eq!(validated_override(&override_with("  ", "utf8")), Err("Schema name is required.".to_string()));
}

#[test]
fn override_needs_a_field() {
    assert_eq!(
        validated_override(&override_with("HR", "   ")),
        Err("Set at least one field to override.".to_string())
    );
}

#[test]
fn override_is_normalized() {
    let o = validated_override(&override_with("  ÄHR ", " windows-1257 ")).unwrap();
    assert_eq!(o.schema_name, "ähr");
    assert_eq!(o.encoding, "windows-1257");
    assert_eq!(o.id, 4);
}

#[test]
fn history_results_sorted_by_server() {
    let issue = HistoryTableIssue {
        history_table: "H_EMP".to_string(),
        column_name: "NAME".to_string(),
        issue_type: "MISSING".to_string(),
        main_type: "VARCHAR2(20)".to_string(),
        history_type: String::new(),
    };
    let ok = HistoryFixResult { issues: vec![issue.clone()], fix_sql: "ALTER ...".to_string() };
    let rows = history_fix_results(vec![
        ("zeta".to_string(), Ok(ok)),
        ("alpha".to_string(), Err("ORA-12541".to_string())),
    ]);
    assert_eq!(rows.len(), 2);
    assert_eq!(rows[0].server_name, "alpha");
    assert_eq!(rows[0].error, Some("ORA-12541".to_string()));
    assert!(rows[0].issues.is_empty());
    assert_eq!(rows[0].fix_sql, "");
    assert_eq!(rows[1].server_name, "zeta");
    assert_eq!(rows[1].issues, vec![issue]);
    assert_eq!(rows[1].error, None);
}

#[test]
fn history_row_of_an_error() {
    let r = server_history_fix("s1".to_string(), Err("boom".to_string()));
    assert_eq!(r.server_name, "s1");
    assert_eq!(r.error, Some("boom".to_string()));
}

#[test]
fn query_results_sorted_and_stable() {
    let rows = query_results(vec![
        ("b".to_string(), Ok((vec!["X".to_string()], vec!["NUMBER".to_string()], vec![vec![Some("1".to_string())]])), 5),
        ("a".to_string(), Err("down".to_string()), 7),
        ("b".to_string(), Err("second".to_string()), 9),
    ]);
    assert_eq!(rows.iter().map(|r| r.server_name.as_str()).collect::<Vec<_>>(), vec!["a", "b", "b"]);
    assert_eq!(rows[0].error, Some("down".to_string()));
    assert_eq!(rows[0].duration_ms, 7);
    assert_eq!(rows[1].columns, vec!["X".to_string()]);
    assert_eq!(rows[1].duration_ms, 5);
    assert_eq!(rows[2].error, Some("second".to_string()));
}

#[test]
fn fetch_response_names_and_sorts() {
    let names = vec![(1, "zulu".to_string()), (2, "alpha".to_string()), (3, "mike".to_string())];
    let r = fetch_servers_response(&vec![1, 2, 9], vec![(3, "timeout".to_string()), (8, "gone".to_string())], &names);
    assert_eq!(r.loaded_servers.iter().map(|l| (l.id, l.name.as_str())).collect::<Vec<_>>(), vec![(2, "alpha"), (1, "zulu")]);
    assert_eq!(r.errors.len(), 2);
    assert_eq!(r.errors[0].server, "");
    assert_eq!(r.errors[0].server_id, 8);
    assert_eq!(r.errors[1].server, "mike");
    assert_eq!(r.errors[1].error, "timeout");
}

#[test]
fn settings_defaults_and_values() {
    let mut snap: NameMap<String> = NameMap::new();
    snap.insert("output_folder".to_string(), "C:/out".to_string());
    snap.insert("ddl_file_encoding".to_string(), "   ".to_string());
    snap.insert("ddl_file_extensions".to_string(), r#"{"view":" sql ","TABLE":""}"#.to_string());
    snap.insert("ddl_storage_modes".to_string(), r#"{"table":"code"}"#.to_string());
    let s = get_settings(&snap, Some("C:/instantclient".to_string()));
    assert_eq!(s.output_folder, "C:/out");
    assert_eq!(s.client_lib_dir, "C:/instantclient");
    assert_eq!(s.ddl_file_encoding, "utf8");
    assert_eq!(s.naming_convention, "timestamp");
    assert_eq!(s.code_folder_name, "code");
    assert_eq!(s.migration_folder_name, "migration");
    assert_eq!(s.migration_folder_mode, "year");
    assert_eq!(s.migration_version_label, "");
    let view = s.ddl_file_extensions.iter().find(|(k, _)| k == "VIEW").unwrap();
    assert_eq!(view.1, "sql");
    let table = s.ddl_file_extensions.iter().find(|(k, _)| k == "TABLE").unwrap();
    assert_eq!(table.1, "tab");
    assert_eq!(s.ddl_file_extensions.len(), 12);
    assert_eq!(s.storage_modes, vec![("TABLE".to_string(), "code".to_string())]);
}

#[test]
fn settings_form_writes_trimmed_values() {
    let f = SettingsForm {
        output_folder: " out ".to_string(),
        client_lib_dir: "lib".to_string(),
        schema_root_folder: "root".to_string(),
        ddl_file_encoding: "utf8".to_string(),
        naming_convention: " flyway".to_string(),
        code_folder_name: "code".to_string(),
        migration_folder_name: "migration".to_string(),
        migration_folder_mode: "year".to_string(),
        migration_version_label: "".to_string(),
        plsql_dev_path: "".to_string(),
    };
    let w = settings_writes(&f);
    assert_eq!(w.len(), 10);
    assert_eq!((w[0].key.as_str(), w[0].value.as_str()), ("output_folder", "out"));
    assert_eq!((w[4].key.as_str(), w[4].value.as_str()), ("ddl_naming_convention", "flyway"));
}

#[test]
fn plsql_userid_format() {
    assert_eq!(plsql_userid(&conn(1, "a")), "userid=scott/tiger@//db.local:1521/ORCL");
}

#[test]
fn fetch_rows_map_outcomes_to_ids_in_selection_order() {
    let selected = vec![conn(3, "PROD"), conn(1, "DEV"), conn(2, "TEST")];
    let mut servers: NameMap<NameMap<NameMap<schemetry::models::ColumnInfo>>> = NameMap::new();
    servers.insert("DEV".to_string(), NameMap::new());
    servers.insert("PROD".to_string(), NameMap::new());
    let mut errors: NameMap<String> = NameMap::new();
    errors.insert("TEST".to_string(), "ORA-12541".to_string());
    let (loaded, failed, names) = fetch_rows(&selected, &servers, &errors);
    assert_eq!(loaded, vec![3, 1]);
    assert_eq!(failed, vec![(2, "ORA-12541".to_string())]);
    assert_eq!(names, vec![(3, "PROD".to_string()), (1, "DEV".to_string()), (2, "TEST".to_string())]);
}

#[test]
fn importing_nothing_imports_zero_records() {
    let catalog = ConnectionCatalogService::new(FixedConnections(vec![]));
    assert_eq!(catalog.import_records(&vec![]), Ok(0));
    assert_eq!(catalog.import_records(&vec![conn(1, "a"), conn(2, "b")]), Ok(2));
}

#[test]
fn lob_binary_base64_pads_short_groups() {
    assert_eq!(lob_content(LobCell::Binary(b"ab".to_vec())).base64, Some("YWI=".to_string()));
    assert_eq!(lob_content(LobCell::Binary(vec![0xFF])).base64, Some("/w==".to_string()));
    assert_eq!(lob_content(LobCell::Binary(vec![0xFB, 0xEF, 0x3E, 0x00])).base64, Some("++8+AA==".to_string()));
}
