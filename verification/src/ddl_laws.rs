//! Laws of the table exports: every column, index and constraint of the model is
//! written into the exported text.
use vstd::prelude::*;
use crate::text::{contains, join, texts, unicode_lower, spaces};
use crate::text::{lemma_text_contains_left, lemma_text_contains_right, lemma_text_contains_self, lemma_text_contains_within};
use crate::oracle_ddl::{
    ColumnDef, IndexDef, ConstraintDef, ConstraintKind, TableModel, table_raw, column_line, column_lines, index_text,
    constraints_text, constraint_text, column_comment_text, or_empty, max_lower_len, lemma_max_lower_len,
};
use crate::oracle_ddl::{ColumnRow, IndexRow, ConstraintRow, assembled_model, constraint_def, constraint_defs, column_type_spec};
use crate::models::opt_view;
use crate::oracle_ddl::{table_deploy, deploy_parts, ddl_statements, guarded_text, nonblank, execute_immediate_text};
use crate::text::trim;
use crate::postgres_ddl::{pg_table_text, pg_column_line, pg_column_lines, pg_column_comments, pg_index_text, pg_constraint_text};

verus! {

proof fn lemma_in_middle(a: Seq<char>, p: Seq<char>, b: Seq<char>)
    ensures
        contains(a + p + b, p),
{
    lemma_text_contains_self(p);
    lemma_text_contains_right(a, p, p);
    lemma_text_contains_left(a + p, b, p);
}

// ───────────────────────── Oracle layout ─────────────────────────

/// The part of a column's line after its padded name: the type, ` default` and the
/// default expression when there is one, ` not null` for a mandatory column, a comma
/// unless it is the last column, and the line break.
pub open spec fn column_tail(c: ColumnDef, last: bool) -> Seq<char> {
    c.type_str@
        + (match c.default {
            Some(d) => " default "@ + d@,
            None => Seq::empty(),
        })
        + (if c.not_null { " not null"@ } else { Seq::empty() })
        + (if last { Seq::empty() } else { seq![','] })
        + seq!['\n']
}

proof fn lemma_column_lines_has(cols: Seq<ColumnDef>, n: int, i: int)
    requires
        0 <= i < n <= cols.len(),
    ensures
        contains(column_lines(cols, n), column_line(cols, i)),
    decreases n,
{
    if i == n - 1 {
        lemma_text_contains_self(column_line(cols, i));
        lemma_text_contains_right(column_lines(cols, n - 1), column_line(cols, i), column_line(cols, i));
    } else {
        lemma_column_lines_has(cols, n - 1, i);
        lemma_text_contains_left(column_lines(cols, n - 1), column_line(cols, n - 1), column_line(cols, i));
    }
}

/// The text before the column comments in the Oracle layout.
spec fn raw_head(m: TableModel) -> Seq<char> {
    "create table "@ + m.name@ + "\n(\n"@ + column_lines(m.columns@, m.columns@.len() as int) + ")\n;"@
        + match m.table_comment {
            Some(tc) => "\ncomment on table "@ + m.name@ + "\n  is '"@ + crate::text::replace_char(tc@, '\'', "''"@)
                + "';"@,
            None => Seq::empty(),
        }
}

proof fn lemma_table_raw_parts(m: TableModel)
    ensures
        table_raw(m) == raw_head(m) + column_comment_text(m.name@, m.column_comments@) + index_text(m.name@, m.indexes@)
            + constraints_text(m.name@, m.constraints@),
{
}

/// Every column of the model is listed in the Oracle table export: its lower-cased
/// name indented by two spaces and followed by padding, then its type, its default,
/// `not null` when it is mandatory, and a comma unless it is the last column.
pub proof fn raw_export_lists_each_column(m: TableModel, i: int)
    requires
        0 <= i < m.columns@.len(),
    ensures
        contains(table_raw(m), "  "@ + unicode_lower(m.columns@[i].name@) + seq![' ']),
        contains(table_raw(m), column_tail(m.columns@[i], i + 1 == m.columns@.len())),
{
    let cols = m.columns@;
    let c = cols[i];
    let lc = unicode_lower(c.name@);
    lemma_max_lower_len(cols, i);
    let k = (max_lower_len(cols) - lc.len() + 1) as nat;
    let tail = column_tail(c, i + 1 == cols.len());
    let line = column_line(cols, i);
    assert(line =~= "  "@ + lc + spaces(k) + tail);
    assert(spaces(k) =~= seq![' '] + spaces((k - 1) as nat));
    assert(line =~= ("  "@ + lc + seq![' ']) + (spaces((k - 1) as nat) + tail));
    lemma_text_contains_self("  "@ + lc + seq![' ']);
    lemma_text_contains_left("  "@ + lc + seq![' '], spaces((k - 1) as nat) + tail, "  "@ + lc + seq![' ']);
    lemma_text_contains_self(tail);
    lemma_text_contains_right("  "@ + lc + spaces(k), tail, tail);
    lemma_column_lines_has(cols, cols.len() as int, i);
    let pre = "create table "@ + m.name@ + "\n(\n"@;
    let lines = column_lines(cols, cols.len() as int);
    let post = ")\n;"@ + match m.table_comment {
        Some(tc) => "\ncomment on table "@ + m.name@ + "\n  is '"@ + crate::text::replace_char(tc@, '\'', "''"@)
            + "';"@,
        None => Seq::empty(),
    };
    assert(raw_head(m) =~= pre + lines + post);
    lemma_in_middle(pre, lines, post);
    lemma_table_raw_parts(m);
    let rest = column_comment_text(m.name@, m.column_comments@) + index_text(m.name@, m.indexes@)
        + constraints_text(m.name@, m.constraints@);
    assert(table_raw(m) =~= raw_head(m) + rest);
    lemma_text_contains_left(raw_head(m), rest, lines);
    lemma_text_contains_within(table_raw(m), lines, line);
    lemma_text_contains_within(table_raw(m), line, "  "@ + lc + seq![' ']);
    lemma_text_contains_within(table_raw(m), line, tail);
}

/// The statement that creates index `idx` on `table` in the Oracle layout:
/// `create unique index` for a unique index, `create index` otherwise, then its name,
/// the table and its key parts.
pub open spec fn raw_index_statement(table: Seq<char>, idx: IndexDef) -> Seq<char> {
    (if idx.unique { "create unique index "@ } else { "create index "@ }) + idx.name@ + " on "@ + table + " ("@
        + join(texts(idx.parts@), ", "@) + ");"@
}

proof fn lemma_raw_index_text_has(table: Seq<char>, indexes: Seq<IndexDef>, i: int)
    requires
        0 <= i < indexes.len(),
    ensures
        contains(index_text(table, indexes), raw_index_statement(table, indexes[i])),
    decreases indexes.len(),
{
    let idx = indexes.last();
    let prev = index_text(table, indexes.drop_last());
    let line = seq!['\n'] + (if idx.unique { "create unique index"@ } else { "create index"@ }) + seq![' ']
        + idx.name@ + " on "@ + table + " ("@ + join(texts(idx.parts@), ", "@) + ");"@;
    assert(index_text(table, indexes) == prev + line);
    if i == indexes.len() - 1 {
        reveal_strlit("create unique index ");
        reveal_strlit("create unique index");
        reveal_strlit("create index ");
        reveal_strlit("create index");
        assert(line =~= seq!['\n'] + raw_index_statement(table, idx));
        lemma_text_contains_self(raw_index_statement(table, idx));
        lemma_text_contains_right(seq!['\n'], raw_index_statement(table, idx), raw_index_statement(table, idx));
        lemma_text_contains_right(prev, line, raw_index_statement(table, idx));
    } else {
        assert(indexes.drop_last()[i] == indexes[i]);
        lemma_raw_index_text_has(table, indexes.drop_last(), i);
        lemma_text_contains_left(prev, line, raw_index_statement(table, indexes[i]));
    }
}

/// The Oracle table export creates every index of the model, unique ones with
/// `create unique index` and the others with `create index`, on the table, with its
/// key parts.
pub proof fn raw_export_creates_each_index(m: TableModel, i: int)
    requires
        0 <= i < m.indexes@.len(),
    ensures
        contains(table_raw(m), raw_index_statement(m.name@, m.indexes@[i])),
{
    lemma_table_raw_parts(m);
    let head = raw_head(m) + column_comment_text(m.name@, m.column_comments@);
    let ix = index_text(m.name@, m.indexes@);
    let tail = constraints_text(m.name@, m.constraints@);
    assert(table_raw(m) =~= head + ix + tail);
    lemma_raw_index_text_has(m.name@, m.indexes@, i);
    lemma_text_contains_right(head, ix, raw_index_statement(m.name@, m.indexes@[i]));
    lemma_text_contains_left(head + ix, tail, raw_index_statement(m.name@, m.indexes@[i]));
}

/// What follows `add constraint <name> ` for each kind of constraint: the primary
/// key or unique columns, the check condition, or the foreign key columns, the table
/// and columns it references, `on delete cascade` or `on delete set null` for those
/// delete rules (in any case), and `novalidate` when it is not validated.
pub open spec fn constraint_clause(c: ConstraintDef) -> Seq<char> {
    match c.kind {
        ConstraintKind::Primary => "primary key ("@ + join(texts(c.cols@), ", "@) + ");"@,
        ConstraintKind::Unique => "unique ("@ + join(texts(c.cols@), ", "@) + ");"@,
        ConstraintKind::Check => "check ("@ + or_empty(c.check_cond) + ");"@,
        ConstraintKind::ForeignKey => "foreign key ("@ + join(texts(c.cols@), ", "@) + ")\n  references "@
            + or_empty(c.ref_table) + " ("@ + join(texts(c.ref_cols@), ", "@) + seq![')']
            + (match c.delete_rule {
                Some(r) => if crate::text::unicode_upper(r@) == "CASCADE"@ {
                    "\n  on delete cascade"@
                } else if crate::text::unicode_upper(r@) == "SET NULL"@ {
                    "\n  on delete set null"@
                } else {
                    Seq::empty()
                },
                None => Seq::empty(),
            })
            + (if c.novalidate { "\n  novalidate"@ } else { Seq::empty() }) + seq![';'],
    }
}

proof fn lemma_constraints_text_has(table: Seq<char>, cs: Seq<ConstraintDef>, i: int)
    requires
        0 <= i < cs.len(),
    ensures
        contains(constraints_text(table, cs), constraint_text(table, cs[i])),
    decreases cs.len(),
{
    let prev = constraints_text(table, cs.drop_last());
    let last = constraint_text(table, cs.last());
    if i == cs.len() - 1 {
        lemma_text_contains_self(last);
        lemma_text_contains_right(prev, last, last);
    } else {
        assert(cs.drop_last()[i] == cs[i]);
        lemma_constraints_text_has(table, cs.drop_last(), i);
        lemma_text_contains_left(prev, last, constraint_text(table, cs[i]));
    }
}

/// The Oracle table export adds every constraint of the model to the table with an
/// `alter table <table> add constraint <name>` statement of its kind.
pub proof fn raw_export_adds_each_constraint(m: TableModel, i: int)
    requires
        0 <= i < m.constraints@.len(),
    ensures
        contains(table_raw(m), "\nalter table "@ + m.name@ + "\n  add constraint "@ + m.constraints@[i].name@
            + seq![' '] + constraint_clause(m.constraints@[i])),
{
    let c = m.constraints@[i];
    let stmt = "\nalter table "@ + m.name@ + "\n  add constraint "@ + c.name@ + seq![' '] + constraint_clause(c);
    let full = constraint_text(m.name@, c);
    assert(full =~= stmt);
    lemma_text_contains_self(stmt);
    lemma_constraints_text_has(m.name@, m.constraints@, i);
    lemma_table_raw_parts(m);
    let head = raw_head(m) + column_comment_text(m.name@, m.column_comments@) + index_text(m.name@, m.indexes@);
    let cs = constraints_text(m.name@, m.constraints@);
    assert(table_raw(m) =~= head + cs);
    lemma_text_contains_right(head, cs, full);
    lemma_text_contains_within(table_raw(m), full, stmt);
}

proof fn lemma_constraint_defs_has(rows: Seq<ConstraintRow>, j: int)
    requires
        0 <= j < rows.len(),
        constraint_def(rows[j]) is Some,
    ensures
        constraint_defs(rows).contains(constraint_def(rows[j])->0),
    decreases rows.len(),
{
    let prev = constraint_defs(rows.drop_last());
    if j == rows.len() - 1 {
        let c = constraint_def(rows[j])->0;
        assert(constraint_defs(rows) == prev.push(c));
        assert(prev.push(c)[prev.len() as int] == c);
    } else {
        assert(rows.drop_last()[j] == rows[j]);
        lemma_constraint_defs_has(rows.drop_last(), j);
        let k = choose|k: int| 0 <= k < prev.len() && prev[k] == constraint_def(rows[j])->0;
        match constraint_def(rows.last()) {
            Some(c) => assert(prev.push(c)[k] == prev[k]),
            None => {},
        }
    }
}

/// The Oracle table model follows its catalog rows: a table without column rows is an
/// error naming the table and the schema; otherwise every column row becomes a column
/// of the same name, in order, mandatory exactly when `NULLABLE` is `N`, with its
/// trimmed non-blank default and its formatted type; every index row becomes an index
/// of the same name, unique exactly when `UNIQUENESS` is `UNIQUE`; and every primary
/// key (`P`), unique (`U`) and foreign key (`R`) row becomes a constraint of that name
/// and kind.
pub proof fn model_follows_catalog_rows(
    schema: Seq<char>,
    table: Seq<char>,
    cols: Seq<ColumnRow>,
    table_comment: Option<String>,
    comments: Seq<(Option<String>, Option<String>)>,
    indexes: Seq<IndexRow>,
    constraints: Seq<ConstraintRow>,
)
    ensures
        cols.len() == 0 ==> assembled_model(schema, table, cols, table_comment, comments, indexes, constraints)
            == Err::<crate::oracle_ddl::TableModelView, Seq<char>>("Table "@ + table + " not found in schema "@ + schema),
        cols.len() > 0 ==> assembled_model(schema, table, cols, table_comment, comments, indexes, constraints) is Ok,
        cols.len() > 0 ==> ({
            let m = assembled_model(schema, table, cols, table_comment, comments, indexes, constraints)->Ok_0;
            &&& m.name == table
            &&& m.columns.len() == cols.len()
            &&& forall|i: int| 0 <= i < cols.len() ==> {
                &&& (#[trigger] m.columns[i]).name == cols[i].name@
                &&& (m.columns[i].not_null <==> opt_view(cols[i].nullable) == Some("N"@))
                &&& m.columns[i].default == (match cols[i].data_default {
                    Some(d) => if trim(d@).len() > 0 { Some(trim(d@)) } else { None },
                    None => None,
                })
                &&& m.columns[i].type_str == column_type_spec(cols[i].data_type@, cols[i].data_length,
                    cols[i].data_precision, cols[i].data_scale, cols[i].char_length, opt_view(cols[i].char_used))
            }
            &&& m.indexes.len() == indexes.len()
            &&& forall|i: int| 0 <= i < indexes.len() ==> {
                &&& (#[trigger] m.indexes[i]).name == indexes[i].name@
                &&& (m.indexes[i].unique <==> opt_view(indexes[i].uniqueness) == Some("UNIQUE"@))
            }
            &&& forall|j: int| 0 <= j < constraints.len() && (constraints[j].constraint_type@ == "P"@
                || constraints[j].constraint_type@ == "U"@ || constraints[j].constraint_type@ == "R"@)
                ==> exists|k: int| 0 <= k < m.constraints.len() && #[trigger] m.constraints[k].name == constraints[j].name@
                    && m.constraints[k].kind == (if constraints[j].constraint_type@ == "P"@ {
                        ConstraintKind::Primary
                    } else if constraints[j].constraint_type@ == "U"@ {
                        ConstraintKind::Unique
                    } else {
                        ConstraintKind::ForeignKey
                    })
        }),
{
    if cols.len() > 0 {
        let m = assembled_model(schema, table, cols, table_comment, comments, indexes, constraints)->Ok_0;
        assert forall|j: int| 0 <= j < constraints.len() && (constraints[j].constraint_type@ == "P"@
            || constraints[j].constraint_type@ == "U"@ || constraints[j].constraint_type@ == "R"@)
            implies exists|k: int| 0 <= k < m.constraints.len() && #[trigger] m.constraints[k].name == constraints[j].name@
                && m.constraints[k].kind == (if constraints[j].constraint_type@ == "P"@ {
                    ConstraintKind::Primary
                } else if constraints[j].constraint_type@ == "U"@ {
                    ConstraintKind::Unique
                } else {
                    ConstraintKind::ForeignKey
                }) by {
            lemma_constraint_defs_has(constraints, j);
            let k = choose|k: int| 0 <= k < m.constraints.len() && m.constraints[k] == constraint_def(constraints[j])->0;
            assert(m.constraints[k].name == constraints[j].name@);
        }
    }
}

proof fn lemma_nonblank_has(ss: Seq<Seq<char>>, k: int)
    requires
        0 <= k < ss.len(),
        trim(ss[k]).len() > 0,
    ensures
        nonblank(ss).contains(ss[k]),
    decreases ss.len(),
{
    let prev = nonblank(ss.drop_last());
    if k == ss.len() - 1 {
        assert(nonblank(ss) == prev.push(ss[k]));
        assert(prev.push(ss[k])[prev.len() as int] == ss[k]);
    } else {
        assert(ss.drop_last()[k] == ss[k]);
        lemma_nonblank_has(ss.drop_last(), k);
        let i = choose|i: int| 0 <= i < prev.len() && prev[i] == ss[k];
        if trim(ss.last()).len() > 0 {
            assert(prev.push(ss.last())[i] == ss[k]);
        }
    }
}

proof fn lemma_guarded_runs(view: Seq<char>, col: Seq<char>, name: Seq<char>, ss: Seq<Seq<char>>, k: int)
    requires
        0 <= k < ss.len(),
        trim(ss[k]).len() > 0,
    ensures
        contains(guarded_text(view, col, name, ss), execute_immediate_text(ss[k])),
{
    lemma_nonblank_has(ss, k);
    let nb = nonblank(ss);
    let i = choose|i: int| 0 <= i < nb.len() && nb[i] == ss[k];
    let parts = nb.map_values(|st: Seq<char>| execute_immediate_text(st));
    assert(parts[i] == execute_immediate_text(ss[k]));
    crate::text::lemma_join_has(parts, "\n\n"@, i);
    let pre = "DECLARE\n    v_count NUMBER;\nBEGIN\n    SELECT COUNT(*) INTO v_count FROM "@ + view + "\n    WHERE "@ + col
        + " = '"@ + name + "';\n\n    IF v_count = 0 THEN\n"@;
    let body = join(parts, "\n\n"@);
    let post = "\n    END IF;\nEND;\n/"@;
    assert(guarded_text(view, col, name, ss) == pre + body + post);
    lemma_in_middle(pre, body, post);
    lemma_text_contains_within(guarded_text(view, col, name, ss), body, execute_immediate_text(ss[k]));
}

/// Where statement `j` of a table's DDL goes in its deploy: into the group run by the
/// table block, or into a block of its own.
proof fn lemma_deploy_parts_place(stmts: Seq<Seq<char>>, j: int)
    requires
        0 <= j < stmts.len(),
    ensures
        deploy_parts(stmts).0.contains(stmts[j]) || exists|v: Seq<char>, c: Seq<char>, n: Seq<char>|
            deploy_parts(stmts).1.contains(#[trigger] guarded_text(v, c, n, seq![stmts[j]])),
    decreases stmts.len(),
{
    let (group, blocks) = deploy_parts(stmts.drop_last());
    if j < stmts.len() - 1 {
        assert(stmts.drop_last()[j] == stmts[j]);
        lemma_deploy_parts_place(stmts.drop_last(), j);
        let (g2, b2) = deploy_parts(stmts);
        assert(forall|x: Seq<char>| group.contains(x) ==> g2.contains(x)) by {
            assert forall|x: Seq<char>| group.contains(x) implies g2.contains(x) by {
                let i = choose|i: int| 0 <= i < group.len() && group[i] == x;
                if g2 != group {
                    assert(g2 == group.push(stmts.last()));
                    assert(g2[i] == x);
                }
            }
        }
        assert(forall|x: Seq<char>| blocks.contains(x) ==> b2.contains(x)) by {
            assert forall|x: Seq<char>| blocks.contains(x) implies b2.contains(x) by {
                let i = choose|i: int| 0 <= i < blocks.len() && blocks[i] == x;
                if b2 != blocks {
                    assert(b2 == blocks.push(b2.last()));
                    assert(b2[i] == x);
                }
            }
        }
        if !group.contains(stmts[j]) {
            let (v, c, n) = choose|v: Seq<char>, c: Seq<char>, n: Seq<char>|
                blocks.contains(#[trigger] guarded_text(v, c, n, seq![stmts[j]]));
            assert(b2.contains(guarded_text(v, c, n, seq![stmts[j]])));
        }
    } else {
        let (g2, b2) = deploy_parts(stmts);
        assert(stmts.last() == stmts[j]);
        if g2 == group.push(stmts[j]) {
            assert(g2[group.len() as int] == stmts[j]);
        } else {
            assert(b2.last() == b2[b2.len() - 1]);
            let x = b2.last();
            assert(b2.contains(x));
        }
    }
}

/// The deploy script of a table runs every non-blank statement of the table's DDL:
/// the create statement and comments inside the block guarded by `USER_TABLES`, each
/// index and constraint statement inside a block of its own.
pub proof fn table_deploy_runs_each_statement(name: Seq<char>, raw: Seq<char>, j: int)
    requires
        0 <= j < ddl_statements(raw).len(),
        trim(ddl_statements(raw)[j]).len() > 0,
    ensures
        contains(table_deploy(name, raw), execute_immediate_text(ddl_statements(raw)[j])),
{
    let stmts = ddl_statements(raw);
    let s = stmts[j];
    let (group, blocks) = deploy_parts(stmts);
    let head = if group.len() > 0 {
        seq![guarded_text("USER_TABLES"@, "TABLE_NAME"@, name, group)]
    } else {
        Seq::<Seq<char>>::empty()
    };
    let all = head + blocks;
    assert(table_deploy(name, raw) == join(all, "\n\n"@));
    lemma_deploy_parts_place(stmts, j);
    if group.contains(s) {
        let k = choose|k: int| 0 <= k < group.len() && group[k] == s;
        lemma_guarded_runs("USER_TABLES"@, "TABLE_NAME"@, name, group, k);
        assert(all[0] == guarded_text("USER_TABLES"@, "TABLE_NAME"@, name, group));
        crate::text::lemma_join_has(all, "\n\n"@, 0);
        lemma_text_contains_within(table_deploy(name, raw), all[0], execute_immediate_text(s));
    } else {
        let (v, c, n) = choose|v: Seq<char>, c: Seq<char>, n: Seq<char>|
            blocks.contains(#[trigger] guarded_text(v, c, n, seq![s]));
        let b = guarded_text(v, c, n, seq![s]);
        let i = choose|i: int| 0 <= i < blocks.len() && blocks[i] == b;
        lemma_guarded_runs(v, c, n, seq![s], 0);
        assert(all[head.len() + i] == b);
        crate::text::lemma_join_has(all, "\n\n"@, head.len() + i);
        lemma_text_contains_within(table_deploy(name, raw), b, execute_immediate_text(s));
    }
}

// ───────────────────────── PostgreSQL layout ─────────────────────────

/// The line of a column in the PostgreSQL export: its name indented by two spaces,
/// its type, its default, `not null` when it is mandatory, and a comma unless it is
/// the last column.
pub open spec fn pg_column_text(c: crate::postgres_ddl::ColumnDef, last: bool) -> Seq<char> {
    "  "@ + c.name@ + " "@ + c.type_str@
        + (match c.default {
            Some(d) => " default "@ + d@,
            None => Seq::empty(),
        })
        + (if c.not_null { " not null"@ } else { Seq::empty() })
        + (if last { Seq::empty() } else { ","@ })
        + "\n"@
}

proof fn lemma_pg_column_lines_has(cols: Seq<crate::postgres_ddl::ColumnDef>, n: int, i: int)
    requires
        0 <= i < n <= cols.len(),
    ensures
        contains(pg_column_lines(cols, n), pg_column_line(cols, i)),
    decreases n,
{
    if i == n - 1 {
        lemma_text_contains_self(pg_column_line(cols, i));
        lemma_text_contains_right(pg_column_lines(cols, n - 1), pg_column_line(cols, i), pg_column_line(cols, i));
    } else {
        lemma_pg_column_lines_has(cols, n - 1, i);
        lemma_text_contains_left(pg_column_lines(cols, n - 1), pg_column_line(cols, n - 1), pg_column_line(cols, i));
    }
}

/// Every column of the model is listed in the PostgreSQL table export with its type,
/// its default and `not null` when it is mandatory.
pub proof fn pg_export_lists_each_column(m: crate::postgres_ddl::TableModel, i: int)
    requires
        0 <= i < m.columns@.len(),
    ensures
        contains(pg_table_text(m), pg_column_text(m.columns@[i], i + 1 == m.columns@.len())),
{
    let cols = m.columns@;
    let line = pg_column_line(cols, i);
    assert(line =~= pg_column_text(cols[i], i + 1 == cols.len()));
    lemma_pg_column_lines_has(cols, cols.len() as int, i);
    let pre = "create table "@ + m.name@ + " (\n"@;
    let lines = pg_column_lines(cols, cols.len() as int);
    let post = ");"@
        + match m.table_comment {
            Some(tc) => "\n\ncomment on table "@ + m.name@ + " is '"@ + crate::text::replace_char(tc@, '\'', "''"@)
                + "';"@,
            None => Seq::empty(),
        }
        + pg_column_comments(m.name@, m.column_comments@) + pg_index_text(m.name@, m.indexes@)
        + pg_constraint_text(m.name@, m.constraints@);
    assert(pg_table_text(m) =~= pre + lines + post);
    lemma_in_middle(pre, lines, post);
    lemma_text_contains_within(pg_table_text(m), lines, line);
}

proof fn lemma_pg_constraints_has(table: Seq<char>, cs: Seq<crate::postgres_ddl::ConstraintDef>, i: int)
    requires
        0 <= i < cs.len(),
    ensures
        contains(pg_constraint_text(table, cs), "\nalter table "@ + table + " add constraint "@ + cs[i].name@ + " "@
            + cs[i].def@ + ";"@),
    decreases cs.len(),
{
    let prev = pg_constraint_text(table, cs.drop_last());
    let stmt = "\nalter table "@ + table + " add constraint "@ + cs[i].name@ + " "@ + cs[i].def@ + ";"@;
    if i == cs.len() - 1 {
        assert(pg_constraint_text(table, cs) =~= prev + stmt);
        lemma_text_contains_self(stmt);
        lemma_text_contains_right(prev, stmt, stmt);
    } else {
        let last = "\nalter table "@ + table + " add constraint "@ + cs.last().name@ + " "@ + cs.last().def@ + ";"@;
        assert(pg_constraint_text(table, cs) =~= prev + last);
        assert(cs.drop_last()[i] == cs[i]);
        lemma_pg_constraints_has(table, cs.drop_last(), i);
        lemma_text_contains_left(prev, last, stmt);
    }
}

/// The PostgreSQL table export adds every constraint of the model to the table with
/// an `alter table <table> add constraint <name> <definition>;` statement.
pub proof fn pg_export_adds_each_constraint(m: crate::postgres_ddl::TableModel, i: int)
    requires
        0 <= i < m.constraints@.len(),
    ensures
        contains(pg_table_text(m), "\nalter table "@ + m.name@ + " add constraint "@ + m.constraints@[i].name@ + " "@
            + m.constraints@[i].def@ + ";"@),
{
    let stmt = "\nalter table "@ + m.name@ + " add constraint "@ + m.constraints@[i].name@ + " "@
        + m.constraints@[i].def@ + ";"@;
    let head = "create table "@ + m.name@ + " (\n"@ + pg_column_lines(m.columns@, m.columns@.len() as int) + ");"@
        + match m.table_comment {
            Some(tc) => "\n\ncomment on table "@ + m.name@ + " is '"@ + crate::text::replace_char(tc@, '\'', "''"@)
                + "';"@,
            None => Seq::empty(),
        }
        + pg_column_comments(m.name@, m.column_comments@) + pg_index_text(m.name@, m.indexes@);
    let cs = pg_constraint_text(m.name@, m.constraints@);
    assert(pg_table_text(m) =~= head + cs);
    lemma_pg_constraints_has(m.name@, m.constraints@, i);
    lemma_text_contains_right(head, cs, stmt);
}

} // verus!
