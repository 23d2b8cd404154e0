use schemetry::oracle_ddl::{
    cell_display, cell_read, connect_string, ddl_not_found, metadata_type, synonym_not_found, CellKind, CellRead,
    CellValue,
};

#[test]
fn metadata_type_names() {
    assert_eq!(metadata_type("PACKAGE BODY"), "PACKAGE_BODY");
    assert_eq!(metadata_type("TYPE BODY"), "TYPE_BODY");
    assert_eq!(metadata_type("MATERIALIZED VIEW"), "MATERIALIZED_VIEW");
    assert_eq!(metadata_type("JOB"), "PROCOBJ");
    assert_eq!(metadata_type("VIEW"), "VIEW");
}

#[test]
fn oracle_error_texts() {
    assert_eq!(ddl_not_found("VIEW", "V1"), "DDL not found for VIEW V1");
    assert_eq!(synonym_not_found("S1", "APP"), "Synonym S1 not found in schema APP");
    assert_eq!(connect_string("db", 1521, "ORCL"), "//db:1521/ORCL");
}

#[test]
fn lob_cells_read_only_when_materialized() {
    assert_eq!(cell_read(CellKind::BinaryLob, false), CellRead::Nothing);
    assert_eq!(cell_read(CellKind::BinaryLob, true), CellRead::Bytes);
    assert_eq!(cell_read(CellKind::TextLob, false), CellRead::Nothing);
    assert_eq!(cell_read(CellKind::Raw, false), CellRead::Bytes);
    assert_eq!(cell_read(CellKind::Text, false), CellRead::Text);
}

#[test]
fn cell_texts_by_kind() {
    assert_eq!(cell_display(CellKind::BinaryLob, false, CellValue::NotRead), Some("<BLOB>".to_string()));
    assert_eq!(cell_display(CellKind::BinaryLob, true, CellValue::Bytes(Some(b"hi".to_vec()))), Some("hi".to_string()));
    assert_eq!(cell_display(CellKind::BinaryLob, true, CellValue::Bytes(Some(vec![0, 255]))), Some("00FF".to_string()));
    assert_eq!(cell_display(CellKind::BinaryLob, true, CellValue::Unreadable), Some("<BLOB>".to_string()));
    assert_eq!(cell_display(CellKind::TextLob, false, CellValue::NotRead), Some("<CLOB>".to_string()));
    assert_eq!(cell_display(CellKind::TextLob, true, CellValue::Text(None)), None);
    assert_eq!(cell_display(CellKind::Raw, false, CellValue::Bytes(Some(vec![0xAB]))), Some("AB".to_string()));
    assert_eq!(cell_display(CellKind::Raw, false, CellValue::Unreadable), Some("<RAW>".to_string()));
    assert_eq!(cell_display(CellKind::Text, false, CellValue::Text(Some("x".to_string()))), Some("x".to_string()));
    assert_eq!(cell_display(CellKind::Text, false, CellValue::Unreadable), Some("<?>".to_string()));
}
