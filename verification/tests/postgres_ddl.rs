use schemetry::models::SchemaObject;
use schemetry::postgres_ddl::{
    build_deploy_script, build_table_deploy, build_table_model, bytea_text_decodable, cell_display, cell_kind,
    decode_bytea_hex, object_kind, object_not_found, probe_sql, render_table, sort_schema_objects,
    sequence_ddl, trigger_ddl, type_label, unsupported_type_error, view_ddl, CellKind, ColumnDef, ColumnRow,
    ConstraintDef, DbPostgresRepository, IndexDef, IndexRow, PgObjectKind, TableModel,
};

fn model() -> TableModel {
    TableModel {
        name: "emp".to_string(),
        columns: vec![
            ColumnDef { name: "id".to_string(), type_str: "integer".to_string(), not_null: true, default: None },
            ColumnDef {
                name: "name".to_string(),
                type_str: "character varying(20)".to_string(),
                not_null: false,
                default: Some("'x'::character varying".to_string()),
            },
        ],
        table_comment: Some("Staff's table".to_string()),
        column_comments: vec![("name".to_string(), "Full name".to_string())],
        indexes: vec![IndexDef { name: "emp_name_ix".to_string(), unique: false, parts: vec!["name".to_string(), "lower(name)".to_string()] }],
        constraints: vec![ConstraintDef { name: "emp_pk".to_string(), def: "PRIMARY KEY (id)".to_string() }],
    }
}

const RENDERED: &str = "create table emp (\n  id integer not null,\n  name character varying(20) default 'x'::character varying\n);\n\ncomment on table emp is 'Staff''s table';\ncomment on column emp.name is 'Full name';\ncreate index emp_name_ix on emp (name, lower(name));\nalter table emp add constraint emp_pk PRIMARY KEY (id);";

#[test]
fn renders_table() {
    assert_eq!(render_table(&model()), RENDERED);
}

#[test]
fn table_deploy_is_idempotent_form() {
    let out = build_table_deploy(RENDERED);
    let expected = "create table if not exists emp (\n  id integer not null,\n  name character varying(20) default 'x'::character varying\n);\n\ncomment on table emp is 'Staff''s table';\n\ncomment on column emp.name is 'Full name';\n\ncreate index if not exists emp_name_ix on emp (name, lower(name));\n\nDO $$\nBEGIN\n    IF NOT EXISTS (SELECT 1 FROM pg_constraint WHERE conname = 'emp_pk') THEN\n        alter table emp add constraint emp_pk PRIMARY KEY (id);;\n    END IF;\nEND $$;";
    assert_eq!(out, expected);
}

#[test]
fn deploy_scripts_by_type() {
    assert_eq!(
        build_deploy_script("SEQUENCE", "s", "  create sequence s increment by 1;  "),
        "CREATE SEQUENCE IF NOT EXISTS s increment by 1;"
    );
    assert_eq!(build_deploy_script("SEQUENCE", "s", "alter sequence s"), "alter sequence s");
    assert_eq!(build_deploy_script("MATERIALIZED VIEW", "mv1", " CREATE MATERIALIZED VIEW mv1 AS\nSELECT 1 "), "DROP MATERIALIZED VIEW IF EXISTS mv1;\nCREATE MATERIALIZED VIEW mv1 AS\nSELECT 1");
    assert_eq!(build_deploy_script("TRIGGER", "t", "CREATE TRIGGER t BEFORE INSERT ON x"), "CREATE OR REPLACE TRIGGER t BEFORE INSERT ON x");
    assert_eq!(build_deploy_script("VIEW", "v", "  CREATE OR REPLACE VIEW v AS SELECT 1 \n"), "CREATE OR REPLACE VIEW v AS SELECT 1");
}

#[test]
fn model_from_catalog_rows() {
    let cols = vec![
        ColumnRow { name: "id".to_string(), type_str: "integer".to_string(), not_null: true, default: Some("  ".to_string()) },
        ColumnRow { name: "name".to_string(), type_str: "text".to_string(), not_null: false, default: Some(" 'a' ".to_string()) },
    ];
    let comments = vec![
        ("name".to_string(), Some(" first ".to_string())),
        ("name".to_string(), Some("  second ".to_string())),
        ("id".to_string(), Some("   ".to_string())),
        ("gone".to_string(), Some("x".to_string())),
    ];
    let idx = vec![IndexRow { name: "ix".to_string(), unique: true, parts: vec![Some("name".to_string()), None] }];
    let cons = vec![("pk".to_string(), "PRIMARY KEY (id)".to_string())];
    let m = build_table_model("emp", "public", &cols, Some("  ".to_string()), &comments, &idx, &cons).unwrap();
    assert_eq!(m.name, "emp");
    assert_eq!(m.columns[0].default, None);
    assert_eq!(m.columns[1].default, Some("'a'".to_string()));
    assert_eq!(m.table_comment, None);
    assert_eq!(m.column_comments, vec![("name".to_string(), "second".to_string())]);
    assert_eq!(m.indexes[0].parts, vec!["name".to_string()]);
    assert!(m.indexes[0].unique);
    assert_eq!(m.constraints[0].def, "PRIMARY KEY (id)");
}

#[test]
fn model_of_missing_table() {
    let r = build_table_model("nope", "app", &vec![], None, &vec![], &vec![], &vec![]);
    assert_eq!(r.err(), Some("Table nope not found in schema app".to_string()));
}

#[test]
fn object_kinds() {
    assert_eq!(object_kind(" table "), PgObjectKind::Table);
    assert_eq!(object_kind("materialized view"), PgObjectKind::MaterializedView);
    assert_eq!(object_kind("Procedure"), PgObjectKind::Routine);
    assert_eq!(object_kind("PACKAGE"), PgObjectKind::Unsupported);
    assert_eq!(unsupported_type_error("PACKAGE"), "Object type 'PACKAGE' is not supported for PostgreSQL connections");
    assert_eq!(object_not_found("VIEW", "v1"), "VIEW v1 not found");
}

#[test]
fn object_ddl_texts() {
    assert_eq!(view_ddl(false, "v", "  SELECT 1;  "), "CREATE OR REPLACE VIEW v AS\nSELECT 1;");
    assert_eq!(view_ddl(true, "mv", "SELECT 2"), "CREATE MATERIALIZED VIEW mv AS\nSELECT 2");
    assert_eq!(
        sequence_ddl("s", -1, Some(-100), None, 20, false),
        "CREATE SEQUENCE s INCREMENT BY -1 MINVALUE -100 START WITH 1 CACHE 20 NO CYCLE;"
    );
    assert_eq!(
        sequence_ddl("s", 5, None, Some(9223372036854775807), 1, true),
        "CREATE SEQUENCE s INCREMENT BY 5 MAXVALUE 9223372036854775807 START WITH 1 CACHE 1 CYCLE;"
    );
    assert_eq!(trigger_ddl("CREATE TRIGGER t ...;;"), "CREATE TRIGGER t ...;");
    assert_eq!(trigger_ddl("CREATE TRIGGER t"), "CREATE TRIGGER t;");
}

#[test]
fn schema_defaults_to_public() {
    assert_eq!(DbPostgresRepository::schema_of("  "), "public");
    assert_eq!(DbPostgresRepository::schema_of(" app "), "app");
}

#[test]
fn bytea_decoding() {
    assert_eq!(decode_bytea_hex("\\xdeadBEEF"), vec![0xDE, 0xAD, 0xBE, 0xEF]);
    assert_eq!(decode_bytea_hex("0a0"), vec![0x0A]);
    assert_eq!(decode_bytea_hex("\\xzz01"), vec![0x01]);
    assert_eq!(decode_bytea_hex("+a"), vec![0x0A]);
    assert!(bytea_text_decodable("\\x00ff"));
    assert!(!bytea_text_decodable("a€"));
}

#[test]
fn cell_display_by_kind() {
    assert_eq!(cell_kind("bytea"), CellKind::Binary);
    assert_eq!(cell_kind("text"), CellKind::Text);
    assert_eq!(type_label("character varying"), "CHARACTER VARYING");
    assert_eq!(cell_display(None, CellKind::Text, true), None);
    assert_eq!(cell_display(Some("\\x0102"), CellKind::Binary, false), Some("<BYTEA>".to_string()));
    assert_eq!(cell_display(Some("\\x0102"), CellKind::Binary, true), Some("0102".to_string()));
    assert_eq!(cell_display(Some("abc"), CellKind::Text, false), Some("abc".to_string()));
}

#[test]
fn schema_objects_by_type_then_name() {
    let objs = vec![
        SchemaObject { name: "b".to_string(), object_type: "VIEW".to_string() },
        SchemaObject { name: "z".to_string(), object_type: "TABLE".to_string() },
        SchemaObject { name: "a".to_string(), object_type: "VIEW".to_string() },
        SchemaObject { name: "c".to_string(), object_type: "FUNCTION".to_string() },
    ];
    let sorted = sort_schema_objects(objs);
    let got: Vec<(&str, &str)> = sorted.iter().map(|o| (o.object_type.as_str(), o.name.as_str())).collect();
    assert_eq!(got, vec![("FUNCTION", "c"), ("TABLE", "z"), ("VIEW", "a"), ("VIEW", "b")]);
}

#[test]
fn probe_statement() {
    assert_eq!(probe_sql("  select 1;; "), "SELECT * FROM (select 1) AS __schemetry_probe LIMIT 0");
}
