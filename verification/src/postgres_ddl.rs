//! PostgreSQL DDL: a table rendered from `pg_catalog` metadata, raw DDL wrapped in its
//! idempotent deploy form (leaning on `IF NOT EXISTS` / `CREATE OR REPLACE`), the DDL
//! of the other object kinds, and the display of query cells.
use vstd::prelude::*;
use vstd::utf8::encode_utf8;
use vstd::string::StrSliceExecFns;
use crate::models::{opt_view, SchemaObject};
use crate::text::{
    upper, lower, trim, trim_start, trim_end, starts_with, join, replace_char, texts, decimal, int_decimal, find,
    push_char, to_chars, trimmed, to_upper, to_lower, same_text, is_blank, join_exec, i64_decimal, str_starts_with,
    all_ascii, sorted_by, sort_by_keys,
};
use crate::oracle_ddl::{
    ddl_statements, split_ddl_statements, token_after_spec, token_after, replace_first, replace_first_exec,
    escape_sql, capped, cap_chars, hex_text, bytes_to_hex,
};

verus! {

/// The PostgreSQL repository; it owns the shaping of what `pg_catalog` returns.
pub struct DbPostgresRepository;

/// The schema of a connection: its configured schema when not blank, else `public`.
pub open spec fn schema_name_of(pg_schema: Seq<char>) -> Seq<char> {
    if trim(pg_schema).len() == 0 { "public"@ } else { trim(pg_schema) }
}

impl DbPostgresRepository {
    /// The schema to introspect: the configured one (trimmed) if set, else `public`.
    pub fn schema_of(pg_schema: &str) -> (r: String)
        ensures
            r@ == schema_name_of(pg_schema@),
    {
        let s = trimmed(pg_schema);
        if s.as_str().is_empty() { "public".to_string() } else { s }
    }
}

// ───────────────────────── table model ─────────────────────────

/// A column as `pg_attribute` describes it.
pub struct ColumnDef {
    pub name: String,
    /// `format_type` output, such as `character varying(20)`.
    pub type_str: String,
    pub not_null: bool,
    /// The trimmed default expression, when there is one.
    pub default: Option<String>,
}

/// An index that does not back a constraint.
pub struct IndexDef {
    pub name: String,
    pub unique: bool,
    /// The key column expressions, by position.
    pub parts: Vec<String>,
}

/// A constraint with its ready-made `pg_get_constraintdef` text.
pub struct ConstraintDef {
    pub name: String,
    /// Such as `PRIMARY KEY (id)`.
    pub def: String,
}

/// Everything the table export renders.
pub struct TableModel {
    pub name: String,
    pub columns: Vec<ColumnDef>,
    pub table_comment: Option<String>,
    /// Column comments in column order.
    pub column_comments: Vec<(String, String)>,
    pub indexes: Vec<IndexDef>,
    pub constraints: Vec<ConstraintDef>,
}

/// The line of column `i`: name, type, default, `not null`, and a comma unless last.
pub open spec fn pg_column_line(cols: Seq<ColumnDef>, i: int) -> Seq<char> {
    let c = cols[i];
    "  "@ + c.name@ + " "@ + c.type_str@
        + match c.default {
            Some(d) => " default "@ + d@,
            None => Seq::empty(),
        }
        + (if c.not_null { " not null"@ } else { Seq::empty() })
        + (if i + 1 < cols.len() { ","@ } else { Seq::empty() })
        + "\n"@
}

pub open spec fn pg_column_lines(cols: Seq<ColumnDef>, n: int) -> Seq<char>
    decreases n,
{
    if n <= 0 { Seq::empty() } else { pg_column_lines(cols, n - 1) + pg_column_line(cols, n - 1) }
}

pub open spec fn pg_column_comments(table: Seq<char>, comments: Seq<(String, String)>) -> Seq<char>
    decreases comments.len(),
{
    if comments.len() == 0 {
        Seq::empty()
    } else {
        pg_column_comments(table, comments.drop_last()) + "\ncomment on column "@ + table + "."@
            + comments.last().0@ + " is '"@ + replace_char(comments.last().1@, '\'', "''"@) + "';"@
    }
}

pub open spec fn pg_index_text(table: Seq<char>, indexes: Seq<IndexDef>) -> Seq<char>
    decreases indexes.len(),
{
    if indexes.len() == 0 {
        Seq::empty()
    } else {
        let idx = indexes.last();
        pg_index_text(table, indexes.drop_last()) + "\n"@
            + (if idx.unique { "create unique index"@ } else { "create index"@ }) + " "@ + idx.name@ + " on "@
            + table + " ("@ + join(texts(idx.parts@), ", "@) + ");"@
    }
}

pub open spec fn pg_constraint_text(table: Seq<char>, cs: Seq<ConstraintDef>) -> Seq<char>
    decreases cs.len(),
{
    if cs.len() == 0 {
        Seq::empty()
    } else {
        pg_constraint_text(table, cs.drop_last()) + "\nalter table "@ + table + " add constraint "@ + cs.last().name@
            + " "@ + cs.last().def@ + ";"@
    }
}

/// The readable table export: `create table`, the table and column comments, the
/// indexes and the constraints, assembled from catalog data.
pub open spec fn pg_table_text(m: TableModel) -> Seq<char> {
    "create table "@ + m.name@ + " (\n"@ + pg_column_lines(m.columns@, m.columns@.len() as int) + ");"@
        + match m.table_comment {
            Some(tc) => "\n\ncomment on table "@ + m.name@ + " is '"@ + replace_char(tc@, '\'', "''"@) + "';"@,
            None => Seq::empty(),
        }
        + pg_column_comments(m.name@, m.column_comments@) + pg_index_text(m.name@, m.indexes@)
        + pg_constraint_text(m.name@, m.constraints@)
}

/// The statement that creates index `idx` on `table`: `create unique index` for a
/// unique index, `create index` otherwise, then its name, the table and its key parts.
pub open spec fn pg_index_statement(table: Seq<char>, idx: IndexDef) -> Seq<char> {
    (if idx.unique { "create unique index "@ } else { "create index "@ }) + idx.name@ + " on "@ + table + " ("@
        + join(texts(idx.parts@), ", "@) + ");"@
}

proof fn lemma_index_text_has(table: Seq<char>, indexes: Seq<IndexDef>, i: int)
    requires
        0 <= i < indexes.len(),
    ensures
        crate::text::contains(pg_index_text(table, indexes), pg_index_statement(table, indexes[i])),
    decreases indexes.len(),
{
    let idx = indexes.last();
    let prev = pg_index_text(table, indexes.drop_last());
    let line = "\n"@ + (if idx.unique { "create unique index"@ } else { "create index"@ }) + " "@ + idx.name@ + " on "@
        + table + " ("@ + join(texts(idx.parts@), ", "@) + ");"@;
    assert(pg_index_text(table, indexes) == prev + line);
    if i == indexes.len() - 1 {
        reveal_strlit("create unique index ");
        reveal_strlit("create unique index");
        reveal_strlit("create index ");
        reveal_strlit("create index");
        reveal_strlit(" ");
        reveal_strlit("\n");
        assert(line =~= "\n"@ + pg_index_statement(table, idx));
        crate::text::lemma_text_contains_self(pg_index_statement(table, idx));
        crate::text::lemma_text_contains_right("\n"@, pg_index_statement(table, idx), pg_index_statement(table, idx));
        crate::text::lemma_text_contains_right(prev, line, pg_index_statement(table, idx));
    } else {
        assert(indexes.drop_last()[i] == indexes[i]);
        lemma_index_text_has(table, indexes.drop_last(), i);
        crate::text::lemma_text_contains_left(prev, line, pg_index_statement(table, indexes[i]));
    }
}

/// The table export creates every index of the model, unique ones with
/// `create unique index` and the others with `create index`, on the table, with its
/// key parts.
pub proof fn table_export_creates_each_index(m: TableModel, i: int)
    requires
        0 <= i < m.indexes@.len(),
    ensures
        crate::text::contains(pg_table_text(m), pg_index_statement(m.name@, m.indexes@[i])),
{
    let head = "create table "@ + m.name@ + " (\n"@ + pg_column_lines(m.columns@, m.columns@.len() as int) + ");"@
        + match m.table_comment {
            Some(tc) => "\n\ncomment on table "@ + m.name@ + " is '"@ + replace_char(tc@, '\'', "''"@) + "';"@,
            None => Seq::empty(),
        }
        + pg_column_comments(m.name@, m.column_comments@);
    let ix = pg_index_text(m.name@, m.indexes@);
    let tail = pg_constraint_text(m.name@, m.constraints@);
    assert(pg_table_text(m) == head + ix + tail);
    lemma_index_text_has(m.name@, m.indexes@, i);
    crate::text::lemma_text_contains_right(head, ix, pg_index_statement(m.name@, m.indexes@[i]));
    crate::text::lemma_text_contains_left(head + ix, tail, pg_index_statement(m.name@, m.indexes@[i]));
}

fn pg_column_line_exec(c: &ColumnDef, more: bool) -> (r: String)
    ensures
        r@ == "  "@ + c.name@ + " "@ + c.type_str@
            + match c.default {
                Some(d) => " default "@ + d@,
                None => Seq::empty(),
            }
            + (if c.not_null { " not null"@ } else { Seq::empty() })
            + (if more { ","@ } else { Seq::empty() })
            + "\n"@,
{
    let mut out = String::new();
    out.append("  ");
    out.append(c.name.as_str());
    out.append(" ");
    out.append(c.type_str.as_str());
    if let Some(d) = &c.default {
        out.append(" default ");
        out.append(d.as_str());
    }
    if c.not_null {
        out.append(" not null");
    }
    if more {
        out.append(",");
    }
    out.append("\n");
    out
}

/// Renders the table export from its model.
pub fn render_table(m: &TableModel) -> (r: String)
    ensures
        r@ == pg_table_text(*m),
{
    let cols = &m.columns;
    let mut out = String::new();
    out.append("create table ");
    out.append(m.name.as_str());
    out.append(" (\n");
    let ghost head = out@;
    let mut k: usize = 0;
    while k < cols.len()
        invariant
            k <= cols.len(),
            out@ == head + pg_column_lines(cols@, k as int),
        decreases cols.len() - k,
    {
        let ghost before = out@;
        let line = pg_column_line_exec(&cols[k], k + 1 < cols.len());
        out.append(line.as_str());
        assert(out@ =~= before + pg_column_line(cols@, k as int));
        k += 1;
    }
    out.append(");");
    if let Some(tc) = &m.table_comment {
        out.append("\n\ncomment on table ");
        out.append(m.name.as_str());
        out.append(" is '");
        out.append(escape_sql(tc.as_str()).as_str());
        out.append("';");
    }
    let ghost before_comments = out@;
    assert(m.column_comments@.take(0) =~= Seq::<(String, String)>::empty());
    let mut j: usize = 0;
    while j < m.column_comments.len()
        invariant
            j <= m.column_comments.len(),
            out@ == before_comments + pg_column_comments(m.name@, m.column_comments@.take(j as int)),
        decreases m.column_comments.len() - j,
    {
        assert(m.column_comments@.take(j + 1).drop_last() =~= m.column_comments@.take(j as int));
        let entry = &m.column_comments[j];
        out.append("\ncomment on column ");
        out.append(m.name.as_str());
        out.append(".");
        out.append(entry.0.as_str());
        out.append(" is '");
        out.append(escape_sql(entry.1.as_str()).as_str());
        out.append("';");
        j += 1;
    }
    assert(m.column_comments@.take(m.column_comments.len() as int) =~= m.column_comments@);
    let ghost before_indexes = out@;
    assert(m.indexes@.take(0) =~= Seq::<IndexDef>::empty());
    let mut x: usize = 0;
    while x < m.indexes.len()
        invariant
            x <= m.indexes.len(),
            out@ == before_indexes + pg_index_text(m.name@, m.indexes@.take(x as int)),
        decreases m.indexes.len() - x,
    {
        assert(m.indexes@.take(x + 1).drop_last() =~= m.indexes@.take(x as int));
        let idx = &m.indexes[x];
        out.append("\n");
        if idx.unique {
            out.append("create unique index");
        } else {
            out.append("create index");
        }
        out.append(" ");
        out.append(idx.name.as_str());
        out.append(" on ");
        out.append(m.name.as_str());
        out.append(" (");
        out.append(join_exec(&idx.parts, ", ").as_str());
        out.append(");");
        x += 1;
    }
    assert(m.indexes@.take(m.indexes.len() as int) =~= m.indexes@);
    let ghost before_cons = out@;
    assert(m.constraints@.take(0) =~= Seq::<ConstraintDef>::empty());
    let mut y: usize = 0;
    while y < m.constraints.len()
        invariant
            y <= m.constraints.len(),
            out@ == before_cons + pg_constraint_text(m.name@, m.constraints@.take(y as int)),
        decreases m.constraints.len() - y,
    {
        assert(m.constraints@.take(y + 1).drop_last() =~= m.constraints@.take(y as int));
        let c = &m.constraints[y];
        out.append("\nalter table ");
        out.append(m.name.as_str());
        out.append(" add constraint ");
        out.append(c.name.as_str());
        out.append(" ");
        out.append(c.def.as_str());
        out.append(";");
        y += 1;
    }
    assert(m.constraints@.take(m.constraints.len() as int) =~= m.constraints@);
    out
}

// ───────────────────────── deploy scripts ─────────────────────────

/// The deploy form of one generated table statement: creates get `IF NOT EXISTS`,
/// a constraint is added inside a `DO` block guarded by `pg_constraint`, comments are
/// reissued as they are.
pub open spec fn pg_statement_deploy(stmt: Seq<char>) -> Seq<char> {
    let l = lower(trim_start(stmt));
    if starts_with(l, "create table"@) {
        replace_first(stmt, "create table"@, "create table if not exists"@)
    } else if starts_with(l, "create unique index"@) {
        replace_first(stmt, "create unique index"@, "create unique index if not exists"@)
    } else if starts_with(l, "create index"@) {
        replace_first(stmt, "create index"@, "create index if not exists"@)
    } else if starts_with(l, "alter table"@) {
        let cons = match token_after_spec(stmt, "add constraint"@) { Some(t) => t, None => Seq::empty() };
        "DO $$\nBEGIN\n    IF NOT EXISTS (SELECT 1 FROM pg_constraint WHERE conname = '"@ + cons
            + "') THEN\n        "@ + stmt + ";\n    END IF;\nEND $$;"@
    } else {
        stmt
    }
}

/// The deploy script of a table: each statement of its generated DDL in deploy form,
/// separated by blank lines.
pub open spec fn pg_table_deploy(raw: Seq<char>) -> Seq<char> {
    join(ddl_statements(raw).map_values(|s: Seq<char>| pg_statement_deploy(s)), "\n\n"@)
}

fn statement_deploy(stmt: &str) -> (r: String)
    ensures
        r@ == pg_statement_deploy(stmt@),
{
    let l = to_lower(crate::text::trimmed_start(stmt).as_str());
    if str_starts_with(l.as_str(), "create table") {
        replace_first_exec(stmt, "create table", "create table if not exists")
    } else if str_starts_with(l.as_str(), "create unique index") {
        replace_first_exec(stmt, "create unique index", "create unique index if not exists")
    } else if str_starts_with(l.as_str(), "create index") {
        replace_first_exec(stmt, "create index", "create index if not exists")
    } else if str_starts_with(l.as_str(), "alter table") {
        let cons = match token_after(stmt, "add constraint") {
            Some(t) => t,
            None => String::new(),
        };
        let mut out = String::new();
        out.append("DO $$\nBEGIN\n    IF NOT EXISTS (SELECT 1 FROM pg_constraint WHERE conname = '");
        out.append(cons.as_str());
        out.append("') THEN\n        ");
        out.append(stmt);
        out.append(";\n    END IF;\nEND $$;");
        out
    } else {
        stmt.to_string()
    }
}

/// The deploy script of a table from its generated DDL.
pub fn build_table_deploy(raw: &str) -> (r: String)
    ensures
        r@ == pg_table_deploy(raw@),
{
    let stmts = split_ddl_statements(raw);
    let ghost sv = texts(stmts@);
    let mut out: Vec<String> = Vec::new();
    let mut i: usize = 0;
    while i < stmts.len()
        invariant
            i <= stmts.len(),
            sv == texts(stmts@),
            sv == ddl_statements(raw@),
            texts(out@) == sv.take(i as int).map_values(|s: Seq<char>| pg_statement_deploy(s)),
        decreases stmts.len() - i,
    {
        let ghost before = out@;
        out.push(statement_deploy(stmts[i].as_str()));
        assert(texts(out@) =~= sv.take(i + 1).map_values(|s: Seq<char>| pg_statement_deploy(s))) by {
            assert(texts(out@) =~= texts(before).push(pg_statement_deploy(stmts@[i as int]@)));
        }
        i += 1;
    }
    assert(sv.take(stmts.len() as int) =~= sv);
    assert(texts(out@) == out@.map_values(|p: String| p@));
    join_exec(&out, "\n\n")
}

/// The idempotent deploy form of raw DDL: tables statement by statement, a sequence
/// with `IF NOT EXISTS`, a materialized view dropped and recreated, a trigger as
/// `CREATE OR REPLACE`; everything else (already `CREATE OR REPLACE`) as is, trimmed.
pub open spec fn pg_deploy_script(object_type: Seq<char>, name: Seq<char>, raw_cleaned: Seq<char>) -> Seq<char> {
    let raw = trim(raw_cleaned);
    if object_type == "TABLE"@ {
        pg_table_deploy(raw)
    } else if object_type == "SEQUENCE"@ {
        match find(upper(raw), "CREATE SEQUENCE"@) {
            Some(pos) => raw.take(pos) + "CREATE SEQUENCE IF NOT EXISTS"@ + raw.skip(pos + 15),
            None => raw,
        }
    } else if object_type == "MATERIALIZED VIEW"@ {
        "DROP MATERIALIZED VIEW IF EXISTS "@ + name + ";\n"@ + raw
    } else if object_type == "TRIGGER"@ {
        replace_first(raw, "CREATE TRIGGER"@, "CREATE OR REPLACE TRIGGER"@)
    } else {
        raw
    }
}

fn sequence_deploy(raw: &str) -> (r: String)
    ensures
        r@ == match find(upper(raw@), "CREATE SEQUENCE"@) {
            Some(pos) => raw@.take(pos) + "CREATE SEQUENCE IF NOT EXISTS"@ + raw@.skip(pos + 15),
            None => raw@,
        },
{
    let v = to_chars(raw);
    let u = to_chars(to_upper(raw).as_str());
    let kw = to_chars("CREATE SEQUENCE");
    proof {
        reveal_strlit("CREATE SEQUENCE");
    }
    match crate::text::find_exec(&u, &kw) {
        Some(pos) => {
            proof { crate::text::lemma_find_bound(u@, kw@); }
            assert(pos + 15 <= v.len());
            let mut r = crate::text::slice_string(&v, 0, pos);
            r.append("CREATE SEQUENCE IF NOT EXISTS");
            let tail = crate::text::slice_string(&v, pos + 15, v.len());
            r.append(tail.as_str());
            assert(v@.subrange(0, pos as int) =~= raw@.take(pos as int));
            assert(v@.subrange(pos + 15, v@.len() as int) =~= raw@.skip(pos + 15));
            r
        },
        None => raw.to_string(),
    }
}

/// Wraps raw DDL in its idempotent deploy form.
pub fn build_deploy_script(object_type: &str, name: &str, raw_cleaned: &str) -> (r: String)
    ensures
        r@ == pg_deploy_script(object_type@, name@, raw_cleaned@),
{
    let raw = trimmed(raw_cleaned);
    if same_text(object_type, "TABLE") {
        build_table_deploy(raw.as_str())
    } else if same_text(object_type, "SEQUENCE") {
        sequence_deploy(raw.as_str())
    } else if same_text(object_type, "MATERIALIZED VIEW") {
        let mut out = String::new();
        out.append("DROP MATERIALIZED VIEW IF EXISTS ");
        out.append(name);
        out.append(";\n");
        out.append(raw.as_str());
        out
    } else if same_text(object_type, "TRIGGER") {
        replace_first_exec(raw.as_str(), "CREATE TRIGGER", "CREATE OR REPLACE TRIGGER")
    } else {
        raw
    }
}

// ───────────────────────── assembling the table model ─────────────────────────

/// A column row of the catalog query.
pub struct ColumnRow {
    pub name: String,
    pub type_str: String,
    pub not_null: bool,
    pub default: Option<String>,
}

/// An index of the catalog query with the expression of each key position, where the
/// catalog gave one.
pub struct IndexRow {
    pub name: String,
    pub unique: bool,
    pub parts: Vec<Option<String>>,
}

/// A default expression as kept: trimmed, none when that leaves nothing.
pub open spec fn kept_default(d: Option<String>) -> Option<Seq<char>> {
    match d {
        Some(x) => if trim(x@).len() > 0 { Some(trim(x@)) } else { None },
        None => None,
    }
}

/// The comment of a column: the last comment row for it whose text is not blank,
/// trimmed (a map filled from the rows in turn keeps the last).
pub open spec fn pg_comment_for(rows: Seq<(String, Option<String>)>, name: Seq<char>) -> Option<Seq<char>>
    decreases rows.len(),
{
    if rows.len() == 0 {
        None
    } else {
        let r = rows.last();
        if r.0@ == name && r.1 is Some && trim(r.1->0@).len() > 0 {
            Some(trim(r.1->0@))
        } else {
            pg_comment_for(rows.drop_last(), name)
        }
    }
}

/// The comments of the columns that have one, in column order.
pub open spec fn pg_column_comment_pairs(cols: Seq<ColumnRow>, rows: Seq<(String, Option<String>)>) -> Seq<(Seq<char>, Seq<char>)>
    decreases cols.len(),
{
    if cols.len() == 0 {
        Seq::empty()
    } else {
        let prev = pg_column_comment_pairs(cols.drop_last(), rows);
        match pg_comment_for(rows, cols.last().name@) {
            Some(t) => prev.push((cols.last().name@, t)),
            None => prev,
        }
    }
}

/// The key expressions the catalog gave, in position order.
pub open spec fn present_parts(parts: Seq<Option<String>>) -> Seq<Seq<char>>
    decreases parts.len(),
{
    if parts.len() == 0 {
        Seq::empty()
    } else {
        let prev = present_parts(parts.drop_last());
        match parts.last() {
            Some(p) => prev.push(p@),
            None => prev,
        }
    }
}

/// The model assembled from the catalog rows of one table.
pub open spec fn pg_model_holds(
    m: TableModel,
    table: Seq<char>,
    cols: Seq<ColumnRow>,
    table_comment: Option<String>,
    comment_rows: Seq<(String, Option<String>)>,
    index_rows: Seq<IndexRow>,
    cons_rows: Seq<(String, String)>,
) -> bool {
    &&& m.name@ == table
    &&& m.columns@.len() == cols.len()
    &&& forall|i: int| 0 <= i < cols.len() ==> {
        let c = #[trigger] m.columns@[i];
        &&& c.name@ == cols[i].name@
        &&& c.type_str@ == cols[i].type_str@
        &&& c.not_null == cols[i].not_null
        &&& opt_view(c.default) == kept_default(cols[i].default)
    }
    &&& opt_view(m.table_comment) == match table_comment {
        Some(t) => if trim(t@).len() > 0 { Some(t@) } else { None },
        None => None,
    }
    &&& m.column_comments@.map_values(|e: (String, String)| (e.0@, e.1@)) == pg_column_comment_pairs(cols, comment_rows)
    &&& m.indexes@.len() == index_rows.len()
    &&& forall|i: int| 0 <= i < index_rows.len() ==> {
        let x = #[trigger] m.indexes@[i];
        &&& x.name@ == index_rows[i].name@
        &&& x.unique == index_rows[i].unique
        &&& texts(x.parts@) == present_parts(index_rows[i].parts@)
    }
    &&& m.constraints@.len() == cons_rows.len()
    &&& forall|i: int| 0 <= i < cons_rows.len() ==>
        (#[trigger] m.constraints@[i]).name@ == cons_rows[i].0@ && m.constraints@[i].def@ == cons_rows[i].1@
}

fn kept_default_exec(d: &Option<String>) -> (r: Option<String>)
    ensures
        opt_view(r) == kept_default(*d),
{
    match d {
        Some(x) => if is_blank(x.as_str()) { None } else { Some(trimmed(x.as_str())) },
        None => None,
    }
}

fn comment_for_exec(rows: &Vec<(String, Option<String>)>, name: &str) -> (r: Option<String>)
    ensures
        opt_view(r) == pg_comment_for(rows@, name@),
{
    let mut i: usize = rows.len();
    assert(rows@.take(i as int) =~= rows@);
    while i > 0
        invariant
            i <= rows.len(),
            pg_comment_for(rows@.take(i as int), name@) == pg_comment_for(rows@, name@),
        decreases i,
    {
        assert(rows@.take(i as int).drop_last() =~= rows@.take(i - 1));
        let r = &rows[i - 1];
        if same_text(r.0.as_str(), name) {
            if let Some(t) = &r.1 {
                if !is_blank(t.as_str()) {
                    return Some(trimmed(t.as_str()));
                }
            }
        }
        i -= 1;
    }
    None
}

fn present_parts_exec(parts: &Vec<Option<String>>) -> (r: Vec<String>)
    ensures
        texts(r@) == present_parts(parts@),
{
    let mut out: Vec<String> = Vec::new();
    let mut i: usize = 0;
    while i < parts.len()
        invariant
            i <= parts.len(),
            texts(out@) == present_parts(parts@.take(i as int)),
        decreases parts.len() - i,
    {
        assert(parts@.take(i + 1).drop_last() =~= parts@.take(i as int));
        if let Some(p) = &parts[i] {
            let ghost before = out@;
            out.push(p.clone());
            assert(texts(out@) =~= texts(before).push(p@));
        }
        i += 1;
    }
    assert(parts@.take(parts.len() as int) =~= parts@);
    out
}

/// The message for a table the catalog has no columns of.
pub open spec fn table_not_found(table: Seq<char>, schema: Seq<char>) -> Seq<char> {
    "Table "@ + table + " not found in schema "@ + schema
}

/// Assembles the table model from the catalog rows of one table; a table without
/// columns does not exist.
pub fn build_table_model(
    table: &str,
    schema: &str,
    col_rows: &Vec<ColumnRow>,
    table_comment: Option<String>,
    comment_rows: &Vec<(String, Option<String>)>,
    index_rows: &Vec<IndexRow>,
    cons_rows: &Vec<(String, String)>,
) -> (r: Result<TableModel, String>)
    ensures
        match r {
            Ok(m) => col_rows@.len() > 0
                && pg_model_holds(m, table@, col_rows@, table_comment, comment_rows@, index_rows@, cons_rows@),
            Err(e) => col_rows@.len() == 0 && e@ == table_not_found(table@, schema@),
        },
{
    if col_rows.len() == 0 {
        let mut e = String::new();
        e.append("Table ");
        e.append(table);
        e.append(" not found in schema ");
        e.append(schema);
        return Err(e);
    }
    let mut columns: Vec<ColumnDef> = Vec::new();
    let mut i: usize = 0;
    while i < col_rows.len()
        invariant
            i <= col_rows.len(),
            columns@.len() == i,
            forall|j: int| 0 <= j < i ==> {
                let c = #[trigger] columns@[j];
                &&& c.name@ == col_rows@[j].name@
                &&& c.type_str@ == col_rows@[j].type_str@
                &&& c.not_null == col_rows@[j].not_null
                &&& opt_view(c.default) == kept_default(col_rows@[j].default)
            },
        decreases col_rows.len() - i,
    {
        let r = &col_rows[i];
        columns.push(ColumnDef {
            name: r.name.clone(),
            type_str: r.type_str.clone(),
            not_null: r.not_null,
            default: kept_default_exec(&r.default),
        });
        i += 1;
    }
    let kept_comment = match table_comment {
        Some(t) => if is_blank(t.as_str()) { None } else { Some(t) },
        None => None,
    };
    let mut comments: Vec<(String, String)> = Vec::new();
    let mut k: usize = 0;
    while k < col_rows.len()
        invariant
            k <= col_rows.len(),
            comments@.map_values(|e: (String, String)| (e.0@, e.1@)) == pg_column_comment_pairs(col_rows@.take(k as int), comment_rows@),
        decreases col_rows.len() - k,
    {
        assert(col_rows@.take(k + 1).drop_last() =~= col_rows@.take(k as int));
        let name = &col_rows[k].name;
        if let Some(t) = comment_for_exec(comment_rows, name.as_str()) {
            let ghost before = comments@;
            comments.push((name.clone(), t));
            assert(comments@.map_values(|e: (String, String)| (e.0@, e.1@))
                =~= before.map_values(|e: (String, String)| (e.0@, e.1@)).push((name@, comments@.last().1@)));
        }
        k += 1;
    }
    assert(col_rows@.take(col_rows.len() as int) =~= col_rows@);
    let mut indexes: Vec<IndexDef> = Vec::new();
    let mut x: usize = 0;
    while x < index_rows.len()
        invariant
            x <= index_rows.len(),
            indexes@.len() == x,
            forall|j: int| 0 <= j < x ==> {
                let d = #[trigger] indexes@[j];
                &&& d.name@ == index_rows@[j].name@
                &&& d.unique == index_rows@[j].unique
                &&& texts(d.parts@) == present_parts(index_rows@[j].parts@)
            },
        decreases index_rows.len() - x,
    {
        let r = &index_rows[x];
        indexes.push(IndexDef { name: r.name.clone(), unique: r.unique, parts: present_parts_exec(&r.parts) });
        x += 1;
    }
    let mut constraints: Vec<ConstraintDef> = Vec::new();
    let mut y: usize = 0;
    while y < cons_rows.len()
        invariant
            y <= cons_rows.len(),
            constraints@.len() == y,
            forall|j: int| 0 <= j < y ==>
                (#[trigger] constraints@[j]).name@ == cons_rows@[j].0@ && constraints@[j].def@ == cons_rows@[j].1@,
        decreases cons_rows.len() - y,
    {
        constraints.push(ConstraintDef { name: cons_rows[y].0.clone(), def: cons_rows[y].1.clone() });
        y += 1;
    }
    Ok(TableModel {
        name: table.to_string(),
        columns,
        table_comment: kept_comment,
        column_comments: comments,
        indexes,
        constraints,
    })
}

// ───────────────────────── other object kinds ─────────────────────────

/// The object kinds whose DDL can be produced for PostgreSQL.
#[derive(Clone, Copy, Debug, PartialEq, Eq, Structural)]
pub enum PgObjectKind {
    Table,
    View,
    MaterializedView,
    Sequence,
    Routine,
    Trigger,
    Unsupported,
}

/// The kind of an object type name, trimmed and upper-cased.
pub open spec fn pg_kind_of(object_type: Seq<char>) -> PgObjectKind {
    let t = upper(trim(object_type));
    if t == "TABLE"@ {
        PgObjectKind::Table
    } else if t == "VIEW"@ {
        PgObjectKind::View
    } else if t == "MATERIALIZED VIEW"@ {
        PgObjectKind::MaterializedView
    } else if t == "SEQUENCE"@ {
        PgObjectKind::Sequence
    } else if t == "FUNCTION"@ || t == "PROCEDURE"@ {
        PgObjectKind::Routine
    } else if t == "TRIGGER"@ {
        PgObjectKind::Trigger
    } else {
        PgObjectKind::Unsupported
    }
}

pub fn object_kind(object_type: &str) -> (r: PgObjectKind)
    ensures
        r == pg_kind_of(object_type@),
{
    let t = to_upper(trimmed(object_type).as_str());
    let s = t.as_str();
    if same_text(s, "TABLE") {
        PgObjectKind::Table
    } else if same_text(s, "VIEW") {
        PgObjectKind::View
    } else if same_text(s, "MATERIALIZED VIEW") {
        PgObjectKind::MaterializedView
    } else if same_text(s, "SEQUENCE") {
        PgObjectKind::Sequence
    } else if same_text(s, "FUNCTION") || same_text(s, "PROCEDURE") {
        PgObjectKind::Routine
    } else if same_text(s, "TRIGGER") {
        PgObjectKind::Trigger
    } else {
        PgObjectKind::Unsupported
    }
}

/// The error for an object type PostgreSQL connections do not export.
pub fn unsupported_type_error(upper_type: &str) -> (r: String)
    ensures
        r@ == "Object type '"@ + upper_type@ + "' is not supported for PostgreSQL connections"@,
{
    let mut e = String::new();
    e.append("Object type '");
    e.append(upper_type);
    e.append("' is not supported for PostgreSQL connections");
    e
}

/// The error for an object the catalog does not have.
pub fn object_not_found(label: &str, name: &str) -> (r: String)
    ensures
        r@ == label@ + " "@ + name@ + " not found"@,
{
    let mut e = String::new();
    e.append(label);
    e.append(" ");
    e.append(name);
    e.append(" not found");
    e
}

/// The DDL of a view (or materialized view) from its `pg_get_viewdef` text.
pub open spec fn pg_view_ddl(materialized: bool, name: Seq<char>, def: Seq<char>) -> Seq<char> {
    (if materialized { "CREATE MATERIALIZED VIEW"@ } else { "CREATE OR REPLACE VIEW"@ }) + " "@ + name + " AS\n"@ + trim(def)
}

pub fn view_ddl(materialized: bool, name: &str, def: &str) -> (r: String)
    ensures
        r@ == pg_view_ddl(materialized, name@, def@),
{
    let mut out = String::new();
    if materialized {
        out.append("CREATE MATERIALIZED VIEW");
    } else {
        out.append("CREATE OR REPLACE VIEW");
    }
    out.append(" ");
    out.append(name);
    out.append(" AS\n");
    out.append(trimmed(def).as_str());
    out
}

/// The DDL of a sequence from `pg_sequences`: always restarting at 1 on (re)deploy.
pub open spec fn pg_sequence_ddl(name: Seq<char>, increment: i64, min: Option<i64>, max: Option<i64>, cache: i64, cycle: bool) -> Seq<char> {
    "CREATE SEQUENCE "@ + name + " INCREMENT BY "@ + int_decimal(increment as int)
        + match min { Some(v) => " MINVALUE "@ + int_decimal(v as int), None => Seq::empty() }
        + match max { Some(v) => " MAXVALUE "@ + int_decimal(v as int), None => Seq::empty() }
        + " START WITH 1 CACHE "@ + int_decimal(cache as int)
        + (if cycle { " CYCLE"@ } else { " NO CYCLE"@ })
        + ";"@
}

pub fn sequence_ddl(name: &str, increment: i64, min: Option<i64>, max: Option<i64>, cache: i64, cycle: bool) -> (r: String)
    ensures
        r@ == pg_sequence_ddl(name@, increment, min, max, cache, cycle),
{
    let mut out = String::new();
    out.append("CREATE SEQUENCE ");
    out.append(name);
    out.append(" INCREMENT BY ");
    out.append(i64_decimal(increment).as_str());
    if let Some(v) = min {
        out.append(" MINVALUE ");
        out.append(i64_decimal(v).as_str());
    }
    if let Some(v) = max {
        out.append(" MAXVALUE ");
        out.append(i64_decimal(v).as_str());
    }
    out.append(" START WITH 1 CACHE ");
    out.append(i64_decimal(cache).as_str());
    if cycle {
        out.append(" CYCLE");
    } else {
        out.append(" NO CYCLE");
    }
    out.append(";");
    out
}

/// `s` without its trailing semicolons.
pub open spec fn without_trailing_semicolons(s: Seq<char>) -> Seq<char>
    decreases s.len(),
{
    if s.len() > 0 && s.last() == ';' { without_trailing_semicolons(s.drop_last()) } else { s }
}

/// The DDL of a trigger from `pg_get_triggerdef`: ended by exactly one semicolon.
pub fn trigger_ddl(def: &str) -> (r: String)
    ensures
        r@ == without_trailing_semicolons(def@) + ";"@,
{
    let v = to_chars(def);
    let mut e: usize = v.len();
    assert(v@.take(e as int) =~= def@);
    while e > 0 && v[e - 1] == ';'
        invariant
            e <= v.len(),
            v@ == def@,
            without_trailing_semicolons(v@.take(e as int)) == without_trailing_semicolons(def@),
        decreases e,
    {
        assert(v@.take(e as int).drop_last() =~= v@.take(e - 1));
        e -= 1;
    }
    let mut out = crate::text::slice_string(&v, 0, e);
    assert(v@.subrange(0, e as int) =~= v@.take(e as int));
    out.append(";");
    out
}

// ───────────────────────── query cells ─────────────────────────

/// How a result column is shown.
#[derive(Clone, Copy, Debug, PartialEq, Eq, Structural)]
pub enum CellKind {
    Text,
    /// `bytea`, PostgreSQL's one binary LOB-like type.
    Binary,
}

pub fn cell_kind(pg_type_name: &str) -> (r: CellKind)
    ensures
        r == (if pg_type_name@ == "bytea"@ { CellKind::Binary } else { CellKind::Text }),
{
    if same_text(pg_type_name, "bytea") { CellKind::Binary } else { CellKind::Text }
}

/// The type label shown for a column: the type name upper-cased.
pub fn type_label(pg_type: &str) -> (r: String)
    ensures
        r@ == upper(pg_type@),
{
    to_upper(pg_type)
}

/// The value of a hexadecimal digit byte.
pub open spec fn hex_value(b: u8) -> Option<u8> {
    if 0x30 <= b <= 0x39 {
        Some((b - 0x30) as u8)
    } else if 0x61 <= b <= 0x66 {
        Some((b - 0x61 + 10) as u8)
    } else if 0x41 <= b <= 0x46 {
        Some((b - 0x41 + 10) as u8)
    } else {
        None
    }
}

/// The byte a two-character hex pair denotes, as `u8::from_str_radix(pair, 16)` reads
/// it (which also accepts a `+` sign before one digit); none when it is not a number.
pub open spec fn pair_byte(a: u8, b: u8) -> Option<u8> {
    match (hex_value(a), hex_value(b)) {
        (Some(h), Some(l)) => Some((h * 16 + l) as u8),
        (None, Some(l)) => if a == 0x2B { Some(l) } else { None },
        _ => None,
    }
}

/// The bytes of consecutive hex pairs, pairs that are not numbers skipped, an odd last
/// character ignored.
pub open spec fn hex_pairs(h: Seq<u8>) -> Seq<u8>
    decreases h.len(),
{
    if h.len() < 2 {
        Seq::empty()
    } else {
        (match pair_byte(h[0], h[1]) { Some(x) => seq![x], None => Seq::empty() }) + hex_pairs(h.skip(2))
    }
}

/// The hex digits of a `bytea` text: its UTF-8 bytes after a leading `\x`.
pub open spec fn bytea_digits(text: Seq<char>) -> Seq<u8> {
    let b = encode_utf8(text);
    if b.len() >= 2 && b[0] == 0x5Cu8 && b[1] == 0x78u8 { b.skip(2) } else { b }
}

/// Position `i` of UTF-8 bytes is where a character starts or the end: the byte there
/// is no continuation byte (`0x80..=0xBF`), as `str::is_char_boundary` tests.
pub open spec fn on_char_boundary(h: Seq<u8>, i: int) -> bool {
    i == h.len() || (0 <= i < h.len() && !(0x80 <= h[i] && h[i] < 0xC0))
}

/// Every pair the decoder slices out starts and ends on a character boundary (always
/// so for the ASCII text PostgreSQL writes).
pub open spec fn pairs_sliceable(h: Seq<u8>) -> bool {
    forall|i: int| 0 <= i && i % 2 == 0 && i + 1 < h.len() ==> #[trigger] on_char_boundary(h, i) && on_char_boundary(h, i + 2)
}

fn hex_value_exec(b: u8) -> (r: Option<u8>)
    ensures
        r == hex_value(b),
{
    if 0x30 <= b && b <= 0x39 {
        Some(b - 0x30)
    } else if 0x61 <= b && b <= 0x66 {
        Some(b - 0x61 + 10)
    } else if 0x41 <= b && b <= 0x46 {
        Some(b - 0x41 + 10)
    } else {
        None
    }
}

fn pair_byte_exec(a: u8, b: u8) -> (r: Option<u8>)
    ensures
        r == pair_byte(a, b),
{
    match (hex_value_exec(a), hex_value_exec(b)) {
        (Some(h), Some(l)) => Some(h * 16 + l),
        (None, Some(l)) => if a == 0x2B { Some(l) } else { None },
        _ => None,
    }
}

/// The digits of a `bytea` text, and whether decoding it slices only on character
/// boundaries.
pub fn bytea_text_decodable(text: &str) -> (r: bool)
    ensures
        r == pairs_sliceable(bytea_digits(text@)),
{
    let b = text.as_bytes_vec();
    let start: usize = if b.len() >= 2 && b[0] == 0x5C && b[1] == 0x78 { 2 } else { 0 };
    let ghost h = b@.skip(start as int);
    assert(h == bytea_digits(text@));
    let n = b.len() - start;
    let mut i: usize = 0;
    while i < n && 1 < n - i
        invariant
            n == h.len(),
            h == b@.skip(start as int),
            h == bytea_digits(text@),
            start + n == b.len(),
            i % 2 == 0,
            i <= n,
            forall|j: int| 0 <= j < i && j % 2 == 0 && j + 1 < h.len() ==> #[trigger] on_char_boundary(h, j) && on_char_boundary(h, j + 2),
        decreases n - i,
    {
        if !(boundary_at(&b, start, i) && boundary_at(&b, start, i + 2)) {
            assert(!(on_char_boundary(h, i as int) && on_char_boundary(h, i + 2)));
            assert(!pairs_sliceable(h));
            return false;
        }
        i += 2;
    }
    assert forall|j: int| 0 <= j && j % 2 == 0 && j + 1 < h.len() implies #[trigger] on_char_boundary(h, j)
        && on_char_boundary(h, j + 2) by {
        assert(j < i);
    }
    true
}

fn boundary_at(b: &Vec<u8>, start: usize, i: usize) -> (r: bool)
    requires
        start <= b.len(),
        i <= b.len() - start,
    ensures
        r == on_char_boundary(b@.skip(start as int), i as int),
{
    if i == b.len() - start {
        true
    } else {
        let x = b[start + i];
        !(0x80 <= x && x < 0xC0)
    }
}

/// The bytes a text-format `bytea` value (`\x`-prefixed hex) denotes.
pub fn decode_bytea_hex(text: &str) -> (r: Vec<u8>)
    requires
        pairs_sliceable(bytea_digits(text@)),
    ensures
        r@ == hex_pairs(bytea_digits(text@)),
{
    let b = text.as_bytes_vec();
    let start: usize = if b.len() >= 2 && b[0] == 0x5C && b[1] == 0x78 { 2 } else { 0 };
    let ghost h = b@.skip(start as int);
    assert(h == bytea_digits(text@));
    let n = b.len() - start;
    let mut out: Vec<u8> = Vec::new();
    let mut i: usize = 0;
    assert(h.skip(0) =~= h);
    while i < n && 1 < n - i
        invariant
            n == h.len(),
            h == b@.skip(start as int),
            start + n == b.len(),
            i <= n,
            out@ + hex_pairs(h.skip(i as int)) == hex_pairs(h),
        decreases n - i,
    {
        let ghost rest = h.skip(i as int);
        assert(rest[0] == b@[start + i] && rest[1] == b@[start + i + 1]);
        assert(rest.skip(2) =~= h.skip(i + 2));
        if let Some(x) = pair_byte_exec(b[start + i], b[start + i + 1]) {
            out.push(x);
            assert(out@ + hex_pairs(h.skip(i + 2)) =~= hex_pairs(h)) by {
                assert(hex_pairs(rest) == seq![x] + hex_pairs(rest.skip(2)));
            }
        } else {
            assert(hex_pairs(rest) == hex_pairs(rest.skip(2)));
        }
        i += 2;
    }
    assert(hex_pairs(h.skip(i as int)) == Seq::<u8>::empty());
    assert(out@ =~= hex_pairs(h));
    out
}

/// The most characters of text shown in a result cell.
pub const MATERIALIZE_TEXT_CAP: usize = 1000000;

/// What a result cell shows: nothing for NULL; `<BYTEA>` for a binary cell unless
/// LOBs are materialized, then its bytes in hex; text capped.
pub open spec fn pg_cell_display(text: Option<Seq<char>>, kind: CellKind, materialize: bool) -> Option<Seq<char>> {
    match text {
        None => None,
        Some(t) => match kind {
            CellKind::Binary => if materialize {
                Some(hex_text(hex_pairs(bytea_digits(t)), 8192))
            } else {
                Some("<BYTEA>"@)
            },
            CellKind::Text => Some(capped(t, MATERIALIZE_TEXT_CAP as nat)),
        },
    }
}

pub fn cell_display(text: Option<&str>, kind: CellKind, materialize: bool) -> (r: Option<String>)
    requires
        kind == CellKind::Binary && materialize ==> (text matches Some(t) ==> pairs_sliceable(bytea_digits(t@))),
    ensures
        opt_view(r) == pg_cell_display(match text { Some(t) => Some(t@), None => None }, kind, materialize),
{
    match text {
        None => None,
        Some(t) => match kind {
            CellKind::Binary => if materialize {
                let bytes = decode_bytea_hex(t);
                Some(bytes_to_hex(bytes.as_slice(), 8192))
            } else {
                Some("<BYTEA>".to_string())
            },
            CellKind::Text => Some(cap_chars(t.to_string(), MATERIALIZE_TEXT_CAP)),
        },
    }
}

// ───────────────────────── schema objects ─────────────────────────

pub open spec fn object_name_key() -> spec_fn(SchemaObject) -> Seq<char> {
    |o: SchemaObject| o.name@
}

pub open spec fn object_type_key() -> spec_fn(SchemaObject) -> Seq<char> {
    |o: SchemaObject| o.object_type@
}

/// Schema objects ordered by type, then by name: a stable sort by name followed by a
/// stable sort by type.
pub open spec fn objects_by_type_and_name(objs: Seq<SchemaObject>) -> Seq<SchemaObject> {
    sorted_by(sorted_by(objs, object_name_key()), object_type_key())
}

fn name_keys(objs: &Vec<SchemaObject>) -> (r: Vec<String>)
    ensures
        r@.len() == objs@.len(),
        forall|i: int| 0 <= i < objs@.len() ==> #[trigger] r@[i]@ == (object_name_key())(objs@[i]),
{
    let mut r: Vec<String> = Vec::new();
    let mut i: usize = 0;
    while i < objs.len()
        invariant
            i <= objs.len(),
            r@.len() == i,
            forall|j: int| 0 <= j < i ==> #[trigger] r@[j]@ == (object_name_key())(objs@[j]),
        decreases objs.len() - i,
    {
        r.push(objs[i].name.clone());
        i += 1;
    }
    r
}

fn type_keys(objs: &Vec<SchemaObject>) -> (r: Vec<String>)
    ensures
        r@.len() == objs@.len(),
        forall|i: int| 0 <= i < objs@.len() ==> #[trigger] r@[i]@ == (object_type_key())(objs@[i]),
{
    let mut r: Vec<String> = Vec::new();
    let mut i: usize = 0;
    while i < objs.len()
        invariant
            i <= objs.len(),
            r@.len() == i,
            forall|j: int| 0 <= j < i ==> #[trigger] r@[j]@ == (object_type_key())(objs@[j]),
        decreases objs.len() - i,
    {
        r.push(objs[i].object_type.clone());
        i += 1;
    }
    r
}

/// Orders the objects of a schema by type, then by name.
pub fn sort_schema_objects(objects: Vec<SchemaObject>) -> (r: Vec<SchemaObject>)
    ensures
        r@ == objects_by_type_and_name(objects@),
{
    let nk = name_keys(&objects);
    let by_name = sort_by_keys(objects, nk, Ghost(object_name_key()));
    let tk = type_keys(&by_name);
    sort_by_keys(by_name, tk, Ghost(object_type_key()))
}

/// The statement that probes a query's result columns without fetching rows: the
/// query (trimmed, trailing semicolons dropped) as a subquery with `LIMIT 0`.
pub open spec fn probe_statement(sql: Seq<char>) -> Seq<char> {
    "SELECT * FROM ("@ + without_trailing_semicolons(trim(sql)) + ") AS __schemetry_probe LIMIT 0"@
}

pub fn probe_sql(sql: &str) -> (r: String)
    ensures
        r@ == probe_statement(sql@),
{
    let t = trimmed(sql);
    let v = to_chars(t.as_str());
    let mut e: usize = v.len();
    assert(v@.take(e as int) =~= t@);
    while e > 0 && v[e - 1] == ';'
        invariant
            e <= v.len(),
            v@ == t@,
            without_trailing_semicolons(v@.take(e as int)) == without_trailing_semicolons(t@),
        decreases e,
    {
        assert(v@.take(e as int).drop_last() =~= v@.take(e - 1));
        e -= 1;
    }
    assert(v@.subrange(0, e as int) =~= v@.take(e as int));
    let mut out = String::new();
    out.append("SELECT * FROM (");
    out.append(crate::text::slice_string(&v, 0, e).as_str());
    out.append(") AS __schemetry_probe LIMIT 0");
    out
}

} // verus!
