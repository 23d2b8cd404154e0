use schemetry::ddl_files::{
    choose_migration_folder, code_file_name, encode_content, max_migration_version, migration_file_name,
    next_migration_version, normalize_storage_mode, parse_version, plan_ddl_save, primary_folder_name,
    DdlSaveSettings, MigrationFolder,
};

fn names(v: &[&str]) -> Vec<String> {
    v.iter().map(|s| s.to_string()).collect()
}

#[test]
fn parse_version_reads_flyway_names() {
    assert_eq!(parse_version("V12__app_add_col.sql"), Some(12));
    assert_eq!(parse_version("V007__x.sql"), Some(7));
    assert_eq!(parse_version("V4294967295__max.sql"), Some(u32::MAX));
}

#[test]
fn parse_version_rejects_other_shapes() {
    assert_eq!(parse_version("R__proc.sql"), None);
    assert_eq!(parse_version("V__x.sql"), None);
    assert_eq!(parse_version("V12_x.sql"), None);
    assert_eq!(parse_version("v12__x.sql"), None);
    assert_eq!(parse_version("V12"), None);
    assert_eq!(parse_version("V4294967296__too_big.sql"), None);
    assert_eq!(parse_version(""), None);
}

#[test]
fn next_version_is_one_past_the_highest() {
    let files = names(&["V1__a.sql", "notes.txt", "V10__b.sql", "V3__c.sql", "260101_1200_s$d.sql"]);
    assert_eq!(max_migration_version(&files), 10);
    assert_eq!(next_migration_version(&files), 11);
}

#[test]
fn next_version_starts_at_one() {
    assert_eq!(next_migration_version(&names(&[])), 1);
    assert_eq!(next_migration_version(&names(&["readme.md"])), 1);
}

#[test]
fn flyway_name_reads_back_its_version() {
    let name = migration_file_name("flyway", 42, "260101_1200", "app", "add_col", "sql");
    assert_eq!(name, "V42__app_add_col.sql");
    assert_eq!(parse_version(&name), Some(42));
    let next = next_migration_version(&vec![name]);
    assert_eq!(next, 43);
}

#[test]
fn timestamp_migration_name() {
    assert_eq!(
        migration_file_name("timestamp", 9, "260314_0915", "hr", "emp_fix", "tab"),
        "260314_0915_hr$emp_fix.tab"
    );
}

#[test]
fn code_file_names() {
    assert_eq!(code_file_name("EMP_PKG", "pck", "flyway"), "R__EMP_PKG.pck");
    assert_eq!(code_file_name("EMP_PKG", "pck", "timestamp"), "EMP_PKG.pck");
}

#[test]
fn storage_mode_normalization() {
    assert_eq!(normalize_storage_mode(" code "), "code");
    assert_eq!(normalize_storage_mode("migration"), "migration");
    assert_eq!(normalize_storage_mode("both"), "both");
    assert_eq!(normalize_storage_mode("Code"), "both");
    assert_eq!(normalize_storage_mode(""), "both");
}

#[test]
fn primary_folder_by_mode() {
    assert_eq!(primary_folder_name("version", " 1.4 ", "2026"), Some("1.4".to_string()));
    assert_eq!(primary_folder_name("version", "  ", "2026"), None);
    assert_eq!(primary_folder_name("year", "1.4", "2026"), Some("2026".to_string()));
    assert_eq!(primary_folder_name("year", "", ""), None);
}

#[test]
fn migration_folder_choice() {
    assert_eq!(choose_migration_folder(Some("2026".to_string()), true, true), MigrationFolder::Primary("2026".to_string()));
    assert_eq!(choose_migration_folder(Some("2026".to_string()), false, true), MigrationFolder::New);
    assert_eq!(choose_migration_folder(None, true, true), MigrationFolder::New);
    assert_eq!(choose_migration_folder(Some("2026".to_string()), false, false), MigrationFolder::Base);
}

#[test]
fn encode_content_variants() {
    assert_eq!(encode_content("ab", "utf8"), b"ab".to_vec());
    assert_eq!(encode_content("ab", " UTF8-BOM "), vec![0xEF, 0xBB, 0xBF, b'a', b'b']);
    assert_eq!(encode_content("ą", "windows-1257"), vec![0xE0]);
    assert_eq!(encode_content("ą", "unknown"), "ą".as_bytes().to_vec());
}

#[test]
fn save_plan_for_a_view_in_code_mode() {
    let settings = DdlSaveSettings {
        storage_mode: "code".to_string(),
        naming_convention: "flyway".to_string(),
        folder_mode: "year".to_string(),
        version_label: String::new(),
        extension: "vw".to_string(),
        encoding: "utf8".to_string(),
    };
    let plan = plan_ddl_save("EMP_V", "view", "create or replace view emp_v as select 1 from dual", &settings, "2026");
    assert!(plan.write_code);
    assert!(!plan.write_migration);
    assert_eq!(plan.code_file_name, "R__EMP_V.vw");
    assert_eq!(plan.code_content, b"create or replace view emp_v as select 1 from dual".to_vec());
    assert_eq!(plan.primary_folder, Some("2026".to_string()));
}

#[test]
fn save_plan_writes_a_file_for_any_mode() {
    for mode in ["code", "migration", "both", "junk", ""] {
        let settings = DdlSaveSettings {
            storage_mode: mode.to_string(),
            naming_convention: "timestamp".to_string(),
            folder_mode: "version".to_string(),
            version_label: "1.0".to_string(),
            extension: "sql".to_string(),
            encoding: "utf8".to_string(),
        };
        let plan = plan_ddl_save("X", "PROCEDURE", "create procedure x is begin null; end;", &settings, "2026");
        assert!(plan.write_code || plan.write_migration);
        assert_eq!(plan.primary_folder, Some("1.0".to_string()));
    }
}
