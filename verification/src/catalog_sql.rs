//! The catalog queries whose name filter is spliced in from the filter rules.
use vstd::prelude::*;

verus! {

/// The column metadata query of schema compare, before its name filter.
pub const FETCH_SQL_BASE: &'static str = r#"
SELECT
    sys_context('USERENV', 'SERVER_HOST') AS SERVER_NAME,
    atc.TABLE_NAME,
    atc.COLUMN_NAME,
    atc.DATA_TYPE,
    TO_CHAR(
        CASE
            WHEN atc.DATA_TYPE = 'NUMBER'                      THEN atc.DATA_PRECISION
            WHEN atc.DATA_TYPE = 'DATE'                        THEN NULL
            WHEN atc.DATA_TYPE = 'NVARCHAR2'                   THEN atc.CHAR_LENGTH
            WHEN atc.DATA_TYPE IN ('CLOB', 'BLOB', 'LONG RAW') THEN NULL
            ELSE atc.DATA_LENGTH
        END
    ) AS DATA_LENGTH,
    atc.DATA_DEFAULT,
    acc.COMMENTS,
    ai.INDEX_NAME,
    aic.COLUMN_POSITION
FROM
    ALL_TAB_COLUMNS atc
JOIN
    ALL_COL_COMMENTS acc
        ON  atc.OWNER       = acc.OWNER
        AND atc.TABLE_NAME  = acc.TABLE_NAME
        AND atc.COLUMN_NAME = acc.COLUMN_NAME
LEFT JOIN
    ALL_IND_COLUMNS aic
        ON  atc.OWNER       = aic.INDEX_OWNER
        AND atc.TABLE_NAME  = aic.TABLE_NAME
        AND atc.COLUMN_NAME = aic.COLUMN_NAME
LEFT JOIN
    ALL_INDEXES ai
        ON  aic.INDEX_OWNER = ai.OWNER
        AND aic.INDEX_NAME  = ai.INDEX_NAME
CROSS JOIN DUAL
WHERE
    atc.OWNER = :1
    AND (atc.OWNER, atc.TABLE_NAME) NOT IN (
        SELECT vw.OWNER,  vw.VIEW_NAME   FROM ALL_VIEWS  vw
        UNION ALL
        SELECT mvw.OWNER, mvw.MVIEW_NAME FROM ALL_MVIEWS mvw
    )"#;

/// The ordering of the column metadata query.
pub const FETCH_SQL_ORDER_BY: &'static str = "\nORDER BY\n    atc.OWNER, atc.TABLE_NAME, atc.COLUMN_NAME, ai.INDEX_NAME, aic.COLUMN_POSITION\n";

/// The table DDL query, before its name filter.
pub const TABLE_DDL_SQL_BASE: &'static str = r#"
SELECT
    at.TABLE_NAME,
    DBMS_METADATA.GET_DDL('TABLE', at.TABLE_NAME, at.OWNER) AS TABLE_DDL
FROM
    ALL_TABLES at
WHERE
    at.OWNER = :1
    AND (at.OWNER, at.TABLE_NAME) NOT IN (
        SELECT vw.OWNER,  vw.VIEW_NAME   FROM ALL_VIEWS  vw
        UNION ALL
        SELECT mvw.OWNER, mvw.MVIEW_NAME FROM ALL_MVIEWS mvw
    )"#;

/// The ordering of the table DDL query.
pub const TABLE_DDL_SQL_ORDER_BY: &'static str = "\nORDER BY\n    at.TABLE_NAME\n";

/// The session settings that make `DBMS_METADATA` emit clean, schema-free DDL.
pub const DDL_TRANSFORM_SQL: &'static str = r#"
BEGIN
    DBMS_METADATA.SET_TRANSFORM_PARAM(DBMS_METADATA.SESSION_TRANSFORM, 'STORAGE', FALSE);
    DBMS_METADATA.SET_TRANSFORM_PARAM(DBMS_METADATA.SESSION_TRANSFORM, 'TABLESPACE', FALSE);
    DBMS_METADATA.SET_TRANSFORM_PARAM(DBMS_METADATA.SESSION_TRANSFORM, 'SEGMENT_ATTRIBUTES', FALSE);
    DBMS_METADATA.SET_TRANSFORM_PARAM(DBMS_METADATA.SESSION_TRANSFORM, 'SQLTERMINATOR', TRUE);
    DBMS_METADATA.SET_TRANSFORM_PARAM(DBMS_METADATA.SESSION_TRANSFORM, 'EMIT_SCHEMA', FALSE);
    DBMS_METADATA.SET_TRANSFORM_PARAM(DBMS_METADATA.SESSION_TRANSFORM, 'PRETTY', TRUE);
    DBMS_METADATA.SET_TRANSFORM_PARAM(DBMS_METADATA.SESSION_TRANSFORM, 'FORCE', FALSE);
END;
"#;

/// The schema objects query, before its name filter.
pub const OBJECTS_SQL_BASE: &'static str = "SELECT o.OBJECT_NAME, o.OBJECT_TYPE FROM ALL_OBJECTS o WHERE o.OWNER = :1 AND o.OBJECT_TYPE IN ('TABLE','VIEW','PROCEDURE','FUNCTION','PACKAGE','PACKAGE BODY','TRIGGER','SEQUENCE','SYNONYM','TYPE','MATERIALIZED VIEW','JOB') AND o.STATUS = 'VALID' AND NOT (o.OBJECT_TYPE = 'TABLE' AND EXISTS (SELECT 1 FROM ALL_MVIEWS m WHERE m.OWNER = o.OWNER AND m.MVIEW_NAME = o.OBJECT_NAME))";

/// The ordering of the schema objects query.
pub const OBJECTS_SQL_ORDER_BY: &'static str = " ORDER BY o.OBJECT_TYPE, o.OBJECT_NAME";

/// The PostgreSQL column metadata query, before its name filter.
pub const PG_FETCH_SQL_BASE: &'static str = "SELECT c.relname, a.attname, format_type(a.atttypid, a.atttypmod), pg_get_expr(ad.adbin, ad.adrelid), col_description(c.oid, a.attnum), (SELECT ic.relname FROM pg_index ix JOIN pg_class ic ON ic.oid = ix.indexrelid WHERE ix.indrelid = c.oid AND a.attnum = ANY(ix.indkey) ORDER BY ic.relname LIMIT 1) FROM pg_attribute a JOIN pg_class c ON c.oid = a.attrelid JOIN pg_namespace n ON n.oid = c.relnamespace LEFT JOIN pg_attrdef ad ON ad.adrelid = a.attrelid AND ad.adnum = a.attnum WHERE n.nspname = $1 AND c.relkind = 'r' AND a.attnum > 0 AND NOT a.attisdropped";

/// The ordering of the PostgreSQL column metadata query.
pub const PG_FETCH_SQL_ORDER_BY: &'static str = " ORDER BY c.relname, a.attname";

/// The PostgreSQL table list query, before its name filter.
pub const PG_TABLES_SQL_BASE: &'static str = "SELECT c.relname FROM pg_class c JOIN pg_namespace n ON n.oid = c.relnamespace WHERE n.nspname = $1 AND c.relkind = 'r'";

/// The ordering of the PostgreSQL table list query.
pub const PG_TABLES_SQL_ORDER_BY: &'static str = " ORDER BY c.relname";

/// The PostgreSQL relation objects query, before its name filter.
pub const PG_OBJECTS_SQL_BASE: &'static str = "SELECT c.relname, CASE c.relkind WHEN 'r' THEN 'TABLE' WHEN 'v' THEN 'VIEW' WHEN 'm' THEN 'MATERIALIZED VIEW' WHEN 'S' THEN 'SEQUENCE' END FROM pg_class c JOIN pg_namespace n ON n.oid = c.relnamespace WHERE n.nspname = $1 AND c.relkind IN ('r','v','m','S')";

/// The column metadata query of schema compare with its name filter.
pub fn oracle_fetch_sql(filter_clause: &str) -> (r: String)
    ensures
        r@ == FETCH_SQL_BASE@ + filter_clause@ + FETCH_SQL_ORDER_BY@,
{
    let mut s = FETCH_SQL_BASE.to_string();
    s.append(filter_clause);
    s.append(FETCH_SQL_ORDER_BY);
    s
}

/// The table DDL query with its name filter.
pub fn oracle_table_ddl_sql(filter_clause: &str) -> (r: String)
    ensures
        r@ == TABLE_DDL_SQL_BASE@ + filter_clause@ + TABLE_DDL_SQL_ORDER_BY@,
{
    let mut s = TABLE_DDL_SQL_BASE.to_string();
    s.append(filter_clause);
    s.append(TABLE_DDL_SQL_ORDER_BY);
    s
}

/// The schema objects query with its name filter.
pub fn oracle_objects_sql(filter_clause: &str) -> (r: String)
    ensures
        r@ == OBJECTS_SQL_BASE@ + filter_clause@ + OBJECTS_SQL_ORDER_BY@,
{
    let mut s = OBJECTS_SQL_BASE.to_string();
    s.append(filter_clause);
    s.append(OBJECTS_SQL_ORDER_BY);
    s
}

/// The PostgreSQL column metadata query with its name filter.
pub fn pg_fetch_sql(filter_clause: &str) -> (r: String)
    ensures
        r@ == PG_FETCH_SQL_BASE@ + filter_clause@ + PG_FETCH_SQL_ORDER_BY@,
{
    let mut s = PG_FETCH_SQL_BASE.to_string();
    s.append(filter_clause);
    s.append(PG_FETCH_SQL_ORDER_BY);
    s
}

/// The PostgreSQL table list query with its name filter.
pub fn pg_tables_sql(filter_clause: &str) -> (r: String)
    ensures
        r@ == PG_TABLES_SQL_BASE@ + filter_clause@ + PG_TABLES_SQL_ORDER_BY@,
{
    let mut s = PG_TABLES_SQL_BASE.to_string();
    s.append(filter_clause);
    s.append(PG_TABLES_SQL_ORDER_BY);
    s
}

/// The PostgreSQL relation objects query with its name filter.
pub fn pg_objects_sql(filter_clause: &str) -> (r: String)
    ensures
        r@ == PG_OBJECTS_SQL_BASE@ + filter_clause@,
{
    let mut s = PG_OBJECTS_SQL_BASE.to_string();
    s.append(filter_clause);
    s
}

} // verus!
