//! Fix-script generation: idempotent PL/SQL that brings a target server in line with
//! the reference server for a selection of discrepancies.
use std::collections::HashSet;
use vstd::prelude::*;
use crate::models::{ColumnInfo, Discrepancy, DiscrepancyView, ServersData, ServerTableDdls, TableColumns, opt_view, first_ci, disc_views};
use crate::text::{
    upper, lower, trim, trim_end, replace_char, find, occurs_at, eq_ci, starts_with, contains, decimal, join, to_upper, to_lower,
    trimmed, replace_char_exec, to_chars, find_exec, trim_bounds, slice_string, eq_ignore_case, str_starts_with,
    str_contains, str_contains_char, is_blank, usize_decimal, join_exec, push_char, texts, sorted_texts,
    sort_texts,
};

verus! {

broadcast use vstd::std_specs::hash::group_hash_axioms;

/// `s` is strictly increasing.
pub open spec fn strictly_increasing(s: Seq<usize>) -> bool {
    forall|i: int, j: int| 0 <= i < j < s.len() ==> s[i] < s[j]
}

/// Inserts `x` into the strictly increasing `v`, unless present.
fn insert_ascending(v: &mut Vec<usize>, x: usize)
    requires
        strictly_increasing(old(v)@),
    ensures
        strictly_increasing(final(v)@),
        final(v)@.to_set() == old(v)@.to_set().insert(x),
{
    let mut p: usize = 0;
    while p < v.len() && v[p] < x
        invariant
            p <= v.len(),
            forall|k: int| 0 <= k < p ==> v@[k] < x,
        decreases v.len() - p,
    {
        p += 1;
    }
    if p < v.len() && v[p] == x {
        assert(v@.to_set().insert(x) =~= v@.to_set());
        return;
    }
    let ghost before = v@;
    v.insert(p, x);
    assert(v@ =~= before.take(p as int).push(x) + before.skip(p as int));
    assert forall|i: int, j: int| 0 <= i < j < v@.len() implies v@[i] < v@[j] by {
        if j < p {
            assert(v@[i] == before[i] && v@[j] == before[j]);
        } else if j == p {
            assert(v@[i] == before[i]);
        } else if i < p {
            assert(v@[i] == before[i] && v@[j] == before[j - 1]);
            assert(before[p as int] > x);
        } else if i == p {
            assert(v@[j] == before[j - 1]);
            assert(before[p as int] > x);
            if j - 1 > p {
                assert(before[p as int] < before[j - 1]);
            }
        } else {
            assert(v@[i] == before[i - 1] && v@[j] == before[j - 1]);
        }
    }
    assert forall|y: usize| v@.to_set().contains(y) <==> before.to_set().insert(x).contains(y) by {
        if v@.to_set().contains(y) {
            let k = choose|k: int| 0 <= k < v@.len() && v@[k] == y;
            if k < p {
                assert(before[k] == y);
            } else if k > p {
                assert(before[k - 1] == y);
            }
        }
        if before.to_set().contains(y) && y != x {
            let k = choose|k: int| 0 <= k < before.len() && before[k] == y;
            if k < p {
                assert(v@[k] == y);
            } else {
                assert(v@[k + 1] == y);
            }
        }
        if y == x {
            assert(v@[p as int] == x);
        }
    }
    assert(v@.to_set() =~= before.to_set().insert(x));
}

/// The members of `set` in ascending order.
pub fn ascending_ids(set: &HashSet<usize>) -> (r: Vec<usize>)
    ensures
        strictly_increasing(r@),
        r@.to_set() == set@,
{
    let mut v: Vec<usize> = Vec::new();
    for x in it: set.iter()
        invariant
            strictly_increasing(v@),
            v@.to_set() == it.seq().take(it.index() as int).map_values(|r: &usize| *r).to_set(),
            it.seq().unref().to_set() == set@,
            it.index() == it.seq().len() ==> v@.to_set() == set@,
    {
        let ghost pre = it.seq().take(it.index() as int).map_values(|r: &usize| *r);
        insert_ascending(&mut v, *x);
        assert(it.seq().take(it.index() + 1).map_values(|r: &usize| *r) =~= pre.push(*x));
        proof {
            pre.lemma_push_to_set_commute(*x);
            assert(it.seq().take(it.seq().len() as int) =~= it.seq());
            assert(it.seq().map_values(|r: &usize| *r) =~= it.seq().unref());
        }
    }
    v
}


// ───────────────────────── templates ─────────────────────────

pub const CREATE_TABLE_0: &'static str = "DECLARE\n    v_table_count NUMBER := 0;\nBEGIN\n    SELECT COUNT(*)\n      INTO v_table_count\n      FROM USER_TABLES\n     WHERE TABLE_NAME = UPPER(";
pub const CREATE_TABLE_1: &'static str = ");\n\n    IF v_table_count = 0 THEN\n        EXECUTE IMMEDIATE ";
pub const CREATE_TABLE_2: &'static str = ";\n    END IF;\nEND;\n/";
pub const INDEX_0: &'static str = "DECLARE\n    v_index_count NUMBER := 0;\nBEGIN\n    SELECT COUNT(*)\n      INTO v_index_count\n      FROM USER_INDEXES\n     WHERE INDEX_NAME = UPPER(";
pub const INDEX_1: &'static str = ");\n\n    IF v_index_count = 0 THEN\n        EXECUTE IMMEDIATE ";
pub const INDEX_2: &'static str = ";\n    END IF;\nEND;\n/";
pub const ADD_COLUMN_0: &'static str = "DECLARE\n    v_table_count NUMBER := 0;\n    v_column_count NUMBER := 0;\nBEGIN\n    SELECT COUNT(*)\n      INTO v_table_count\n      FROM USER_TABLES\n     WHERE TABLE_NAME = UPPER(";
pub const ADD_COLUMN_1: &'static str = ");\n\n    IF v_table_count = 1 THEN\n        SELECT COUNT(*)\n          INTO v_column_count\n          FROM USER_TAB_COLUMNS\n         WHERE TABLE_NAME = UPPER(";
pub const ADD_COLUMN_2: &'static str = ")\n           AND COLUMN_NAME = UPPER(";
pub const ADD_COLUMN_3: &'static str = ");\n\n        IF v_column_count = 0 THEN\n            EXECUTE IMMEDIATE ";
pub const ADD_COLUMN_4: &'static str = ";\n        END IF;\n    END IF;\nEND;\n/";
pub const MODIFY_TYPE_0: &'static str = "DECLARE\n    v_column_count NUMBER := 0;\n    v_match_count NUMBER := 0;\nBEGIN\n    SELECT COUNT(*)\n      INTO v_column_count\n      FROM USER_TAB_COLUMNS\n     WHERE TABLE_NAME = UPPER(";
pub const MODIFY_TYPE_1: &'static str = ")\n       AND COLUMN_NAME = UPPER(";
pub const MODIFY_TYPE_2: &'static str = ");\n\n    IF v_column_count = 1 THEN\n        SELECT COUNT(*)\n          INTO v_match_count\n          FROM USER_TAB_COLUMNS\n         WHERE TABLE_NAME = UPPER(";
pub const MODIFY_TYPE_3: &'static str = ")\n           AND COLUMN_NAME = UPPER(";
pub const MODIFY_TYPE_4: &'static str = ")\n           AND UPPER(DATA_TYPE) = UPPER(";
pub const MODIFY_TYPE_5: &'static str = ")\n           AND NVL(\n                 TO_CHAR(\n                     CASE\n                         WHEN DATA_TYPE = 'NUMBER' THEN DATA_PRECISION\n                         WHEN DATA_TYPE = 'DATE' THEN NULL\n                         WHEN DATA_TYPE = 'NVARCHAR2' THEN CHAR_LENGTH\n                         WHEN DATA_TYPE IN ('CLOB', 'BLOB', 'LONG RAW') THEN NULL\n                         ELSE DATA_LENGTH\n                     END\n                 ),\n                 ";
pub const MODIFY_TYPE_6: &'static str = "\n               ) = NVL(";
pub const MODIFY_TYPE_7: &'static str = ", ";
pub const MODIFY_TYPE_8: &'static str = ");\n\n        IF v_match_count = 0 THEN\n            EXECUTE IMMEDIATE ";
pub const MODIFY_TYPE_9: &'static str = ";\n        END IF;\n    END IF;\nEND;\n/";
pub const DEFAULT_0: &'static str = "DECLARE\n    v_column_count NUMBER := 0;\n    v_match_count NUMBER := 0;\nBEGIN\n    SELECT COUNT(*)\n      INTO v_column_count\n      FROM USER_TAB_COLUMNS\n     WHERE TABLE_NAME = UPPER(";
pub const DEFAULT_1: &'static str = ")\n       AND COLUMN_NAME = UPPER(";
pub const DEFAULT_2: &'static str = ");\n\n    IF v_column_count = 1 THEN\n        SELECT COUNT(*)\n          INTO v_match_count\n          FROM USER_TAB_COLUMNS\n         WHERE TABLE_NAME = UPPER(";
pub const DEFAULT_3: &'static str = ")\n           AND COLUMN_NAME = UPPER(";
pub const DEFAULT_4: &'static str = ")\n           AND NVL(TRIM(DATA_DEFAULT), ";
pub const DEFAULT_5: &'static str = ") = NVL(";
pub const DEFAULT_6: &'static str = ", ";
pub const DEFAULT_7: &'static str = ");\n\n        IF v_match_count = 0 THEN\n            EXECUTE IMMEDIATE ";
pub const DEFAULT_8: &'static str = ";\n        END IF;\n    END IF;\nEND;\n/";
pub const COMMENT_0: &'static str = "DECLARE\n    v_comment USER_COL_COMMENTS.COMMENTS%TYPE;\nBEGIN\n    SELECT COMMENTS\n      INTO v_comment\n      FROM USER_COL_COMMENTS\n     WHERE TABLE_NAME = UPPER(";
pub const COMMENT_1: &'static str = ")\n       AND COLUMN_NAME = UPPER(";
pub const COMMENT_2: &'static str = ");\n\n    IF NVL(v_comment, CHR(0)) <> NVL(";
pub const COMMENT_3: &'static str = ", CHR(0)) THEN\n        EXECUTE IMMEDIATE ";
pub const COMMENT_4: &'static str = ";\n    END IF;\nEXCEPTION\n    WHEN NO_DATA_FOUND THEN\n        NULL;\nEND;\n/";

pub const NULL_TOKEN: &'static str = "#NULL#";

// ───────────────────────── quoting ─────────────────────────

/// A single-quoted SQL string literal, inner quotes doubled.
pub open spec fn sql_literal_spec(s: Seq<char>) -> Seq<char> {
    seq!['\''] + replace_char(s, '\'', "''"@) + seq!['\'']
}

/// A double-quoted SQL identifier, inner double quotes doubled.
pub open spec fn quoted_ident_spec(s: Seq<char>) -> Seq<char> {
    seq!['"'] + replace_char(s, '"', "\"\""@) + seq!['"']
}

/// A name trimmed and ASCII upper-cased.
pub open spec fn upper_key(s: Seq<char>) -> Seq<char> {
    upper(trim(s))
}

/// A single-quoted SQL string literal of `value`.
pub fn sql_literal(value: &str) -> (r: String)
    ensures
        r@ == sql_literal_spec(value@),
{
    let mut r = String::new();
    push_char(&mut r, '\'');
    let inner = replace_char_exec(value, '\'', "''");
    r.append(inner.as_str());
    push_char(&mut r, '\'');
    assert(r@ =~= sql_literal_spec(value@));
    r
}

/// A double-quoted SQL identifier of `value`.
pub fn quoted_ident(value: &str) -> (r: String)
    ensures
        r@ == quoted_ident_spec(value@),
{
    let mut r = String::new();
    push_char(&mut r, '"');
    let inner = replace_char_exec(value, '"', "\"\"");
    r.append(inner.as_str());
    push_char(&mut r, '"');
    assert(r@ =~= quoted_ident_spec(value@));
    r
}

/// `value` trimmed and ASCII upper-cased.
pub fn to_upper_key(value: &str) -> (r: String)
    ensures
        r@ == upper_key(value@),
{
    let t = trimmed(value);
    to_upper(t.as_str())
}

// ───────────────────────── classification ─────────────────────────

/// What a discrepancy asks to fix.
#[derive(Clone, Copy, Debug, PartialEq, Eq, Structural)]
pub enum FixKind {
    MissingTable,
    MissingColumn,
    DataType,
    DataLength,
    DataDefault,
    Comments,
    IndexName,
    ColumnName,
    Unsupported,
}

/// The server named in `... found in server X but not in reference server ...`.
pub open spec fn target_from_details(d: Seq<char>) -> Option<Seq<char>> {
    let m = "found in server "@;
    match find(d, m) {
        None => None,
        Some(p) => {
            let tail = d.skip(p + m.len());
            match find(tail, " but not in reference server "@) {
                None => None,
                Some(q) => {
                    let server = trim(tail.take(q));
                    if server.len() == 0 { None } else { Some(server) }
                },
            }
        },
    }
}

/// Reads the server name out of `... found in server X but not in reference server ...`;
/// none when a marker is missing or the name is blank.
pub fn parse_target_server_from_details(details: &str) -> (r: Option<String>)
    ensures
        opt_view(r) == target_from_details(details@),
{
    let v = to_chars(details);
    let m = to_chars("found in server ");
    let p = match find_exec(&v, &m) {
        Some(p) => p,
        None => return None,
    };
    proof {
        crate::text::lemma_find_bound(v@, m@);
        assert(find(v@, m@) == Some(p as int));
        assert(occurs_at(v@, m@, p as int));
        assert(p + m@.len() <= v@.len());
    }
    let n: usize = v.len();
    assert(p + m.len() <= n);
    let tail = crate::text::skip_vec(&v, p + m.len());
    let r = server_before_marker(&tail);
    assert(opt_view(r) == target_from_details(details@));
    r
}

/// The trimmed text before ` but not in reference server `, unless missing or blank.
fn server_before_marker(tail: &Vec<char>) -> (r: Option<String>)
    ensures
        opt_view(r) == (match find(tail@, " but not in reference server "@) {
            None => None,
            Some(q) => {
                let server = trim(tail@.take(q));
                if server.len() == 0 { None } else { Some(server) }
            },
        }),
{
    let e = to_chars(" but not in reference server ");
    let q = match find_exec(tail, &e) {
        Some(q) => q,
        None => return None,
    };
    proof { crate::text::lemma_find_bound(tail@, e@); }
    let head = crate::text::take_vec(tail, q);
    let (a, b) = trim_bounds(&head);
    if a == b {
        None
    } else {
        Some(slice_string(&head, a, b))
    }
}

/// The kind of fix a discrepancy calls for.
pub open spec fn fix_kind(row: DiscrepancyView) -> FixKind {
    if eq_ci(row.difference, "MISSING"@) {
        if trim(row.column_name).len() == 0 { FixKind::MissingTable } else { FixKind::MissingColumn }
    } else if eq_ci(row.difference, "DIFFERENT"@) {
        if starts_with(row.details, "DATA_TYPE:"@) {
            FixKind::DataType
        } else if starts_with(row.details, "DATA_DEFAULT:"@) {
            FixKind::DataDefault
        } else if starts_with(row.details, "COMMENTS:"@) {
            FixKind::Comments
        } else if starts_with(row.details, "INDEX_NAME:"@) {
            FixKind::IndexName
        } else if starts_with(row.details, "COLUMN_NAME:"@) {
            FixKind::ColumnName
        } else if contains(row.details, " != "@) && row.details.contains('(') && row.details.contains(')') {
            FixKind::DataLength
        } else {
            FixKind::Unsupported
        }
    } else {
        FixKind::Unsupported
    }
}

/// The kind of fix a discrepancy calls for: `MISSING` rows are a missing table (blank
/// column) or column; `DIFFERENT` rows are told apart by the field their details
/// start with, or, for `TYPE(len) != TYPE(len)` details, the length.
pub fn detect_fix_kind(row: &Discrepancy) -> (k: FixKind)
    ensures
        k == fix_kind(row@),
{
    if eq_ignore_case(row.difference.as_str(), "MISSING") {
        if is_blank(row.column_name.as_str()) { FixKind::MissingTable } else { FixKind::MissingColumn }
    } else if eq_ignore_case(row.difference.as_str(), "DIFFERENT") {
        let d = row.details.as_str();
        if str_starts_with(d, "DATA_TYPE:") {
            FixKind::DataType
        } else if str_starts_with(d, "DATA_DEFAULT:") {
            FixKind::DataDefault
        } else if str_starts_with(d, "COMMENTS:") {
            FixKind::Comments
        } else if str_starts_with(d, "INDEX_NAME:") {
            FixKind::IndexName
        } else if str_starts_with(d, "COLUMN_NAME:") {
            FixKind::ColumnName
        } else if str_contains(d, " != ") && str_contains_char(d, '(') && str_contains_char(d, ')') {
            FixKind::DataLength
        } else {
            FixKind::Unsupported
        }
    } else {
        FixKind::Unsupported
    }
}

/// The server a discrepancy's fix targets: its own server when that is not the
/// reference (ignoring ASCII case); for a `MISSING` row on the reference, the server
/// named in its details; otherwise none.
pub open spec fn target_server(row: DiscrepancyView, reference: Seq<char>) -> Option<Seq<char>> {
    if !eq_ci(row.server_name, reference) {
        Some(row.server_name)
    } else if eq_ci(row.difference, "MISSING"@) {
        target_from_details(row.details)
    } else {
        None
    }
}

/// The server a discrepancy's fix targets, if any.
pub fn resolve_target_server(row: &Discrepancy, reference_server: &str) -> (r: Option<String>)
    ensures
        opt_view(r) == target_server(row@, reference_server@),
{
    if !eq_ignore_case(row.server_name.as_str(), reference_server) {
        return Some(row.server_name.clone());
    }
    if eq_ignore_case(row.difference.as_str(), "MISSING") {
        return parse_target_server_from_details(row.details.as_str());
    }
    None
}

/// The server a discrepancy's fix targets: its own server when that is not the
/// reference (ignoring ASCII case); for a `MISSING` row on the reference, the server
/// named in its details; otherwise none.
pub fn discrepancy_target_server(row: &Discrepancy, reference_server: &str) -> (r: Option<String>)
    ensures
        opt_view(r) == target_server(row@, reference_server@),
{
    resolve_target_server(row, reference_server)
}

// ───────────────────────── reference metadata ─────────────────────────

/// The name under which `target` is loaded: the exact key, else the first key equal
/// to it ignoring ASCII case.
pub open spec fn loaded_name(servers: ServersData, target: Seq<char>) -> Option<Seq<char>> {
    if servers.has(target) {
        Some(target)
    } else {
        match first_ci(servers.items(), target) {
            Some(i) => Some(servers.items()[i].0@),
            None => None,
        }
    }
}

/// The name under which `target_server` is loaded, if any.
pub fn resolve_loaded_server_name(servers: &ServersData, target_server: &str) -> (r: Option<String>)
    ensures
        opt_view(r) == loaded_name(*servers, target_server@),
{
    if servers.contains_key(target_server) {
        return Some(target_server.to_string());
    }
    match servers.position_ci(target_server) {
        Some(i) => Some(servers.key(i).clone()),
        None => None,
    }
}

/// The trimmed text of an optional field, when it is there and not blank.
pub open spec fn present(o: Option<String>) -> Option<Seq<char>> {
    match o {
        Some(s) => if trim(s@).len() > 0 { Some(trim(s@)) } else { None },
        None => None,
    }
}

/// The trimmed text of an optional field, when it is there and not blank.
pub fn present_text(o: &Option<String>) -> (r: Option<String>)
    ensures
        opt_view(r) == present(*o),
{
    match o {
        Some(s) => {
            let t = trimmed(s.as_str());
            if t.as_str().is_empty() {
                None
            } else {
                Some(t)
            }
        },
        None => None,
    }
}

/// The column type to create: the trimmed data type, with the trimmed length in
/// parentheses when there is one.
pub open spec fn desired_type(col: ColumnInfo) -> Option<Seq<char>> {
    match present(col.data_type) {
        None => None,
        Some(t) => Some(t + match present(col.data_length) {
            Some(l) => seq!['('] + l + seq![')'],
            None => Seq::<char>::empty(),
        }),
    }
}

/// ` DEFAULT <expr>` for a column with a default, else nothing.
pub open spec fn default_clause(col: ColumnInfo) -> Seq<char> {
    match present(col.data_default) {
        Some(d) => " DEFAULT "@ + d,
        None => Seq::<char>::empty(),
    }
}

/// The column type to create for `reference_col`, if it has a data type.
pub fn desired_type_sql(reference_col: &ColumnInfo) -> (r: Option<String>)
    ensures
        opt_view(r) == desired_type(*reference_col),
{
    let t = match present_text(&reference_col.data_type) {
        Some(t) => t,
        None => return None,
    };
    let mut out = t;
    if let Some(l) = present_text(&reference_col.data_length) {
        push_char(&mut out, '(');
        out.append(l.as_str());
        push_char(&mut out, ')');
    }
    assert(out@ =~= desired_type(*reference_col)->0);
    Some(out)
}

/// ` DEFAULT <expr>` for a column with a default, else the empty string.
pub fn default_clause_sql(reference_col: &ColumnInfo) -> (r: String)
    ensures
        r@ == default_clause(*reference_col),
{
    match present_text(&reference_col.data_default) {
        Some(d) => {
            let mut r = String::new();
            r.append(" DEFAULT ");
            r.append(d.as_str());
            r
        },
        None => String::new(),
    }
}

/// The trimmed default expression of `reference_col`, if it has one.
pub fn desired_default_expr(reference_col: &ColumnInfo) -> (r: Option<String>)
    ensures
        opt_view(r) == present(reference_col.data_default),
{
    present_text(&reference_col.data_default)
}

/// The reference server's metadata of `table.column`, looked up by exact names.
pub open spec fn reference_column(servers: ServersData, reference: Seq<char>, table: Seq<char>, column: Seq<char>) -> Option<ColumnInfo> {
    match servers.lookup(reference) {
        None => None,
        Some(tables) => match tables.lookup(table) {
            None => None,
            Some(cols) => cols.lookup(column),
        },
    }
}

/// The reference server's metadata of `table.column`, looked up by exact names.
pub fn find_reference_column<'a>(servers: &'a ServersData, reference_server: &str, table: &str, column: &str) -> (r: Option<&'a ColumnInfo>)
    ensures
        match r {
            Some(c) => reference_column(*servers, reference_server@, table@, column@) == Some(*c),
            None => reference_column(*servers, reference_server@, table@, column@) is None,
        },
{
    let tables = match servers.get(reference_server) {
        Some(t) => t,
        None => return None,
    };
    let cols = match tables.get(table) {
        Some(c) => c,
        None => return None,
    };
    cols.get(column)
}

/// The reference server's columns of `table`: by exact name, else the first table
/// whose name matches ignoring ASCII case.
pub open spec fn reference_table_columns(servers: ServersData, reference: Seq<char>, table: Seq<char>) -> Option<TableColumns> {
    match servers.lookup(reference) {
        None => None,
        Some(tables) => tables.lookup_ci(table),
    }
}

/// The reference server's columns of `table`: by exact name, else the first table
/// whose name matches ignoring ASCII case.
pub fn find_reference_table_columns<'a>(servers: &'a ServersData, reference_server: &str, table: &str) -> (r: Option<&'a TableColumns>)
    ensures
        match r {
            Some(c) => reference_table_columns(*servers, reference_server@, table@) == Some(*c),
            None => reference_table_columns(*servers, reference_server@, table@) is None,
        },
{
    match servers.get(reference_server) {
        Some(tables) => tables.get_ci(table),
        None => None,
    }
}

/// The reference server's full DDL of `table`: under the exact name, its ASCII upper
/// case, its ASCII lower case, else the first name that matches ignoring ASCII case.
pub open spec fn reference_table_ddl(ddls: ServerTableDdls, reference: Seq<char>, table: Seq<char>) -> Option<String> {
    match ddls.lookup(reference) {
        None => None,
        Some(t) => match t.lookup(table) {
            Some(d) => Some(d),
            None => match t.lookup(upper(table)) {
                Some(d) => Some(d),
                None => match t.lookup(lower(table)) {
                    Some(d) => Some(d),
                    None => t.lookup_ci(table),
                },
            },
        },
    }
}

/// The reference server's full DDL of `table`: under the exact name, its ASCII upper
/// case, its ASCII lower case, else the first name that matches ignoring ASCII case.
pub fn find_reference_table_ddl<'a>(server_table_ddls: &'a ServerTableDdls, reference_server: &str, table: &str) -> (r: Option<&'a String>)
    ensures
        match r {
            Some(d) => reference_table_ddl(*server_table_ddls, reference_server@, table@) == Some(*d),
            None => reference_table_ddl(*server_table_ddls, reference_server@, table@) is None,
        },
{
    let t = match server_table_ddls.get(reference_server) {
        Some(t) => t,
        None => return None,
    };
    if let Some(d) = t.get(table) {
        return Some(d);
    }
    let up = to_upper(table);
    if let Some(d) = t.get(up.as_str()) {
        return Some(d);
    }
    let low = to_lower(table);
    if let Some(d) = t.get(low.as_str()) {
        return Some(d);
    }
    t.get_ci(table)
}

// ───────────────────────── DDL normalisation ─────────────────────────

/// Every CRLF pair and every lone CR turned into LF.
pub open spec fn unify_newlines(s: Seq<char>) -> Seq<char>
    decreases s.len(),
{
    if s.len() == 0 {
        s
    } else if s[0] == '\r' && s.len() >= 2 && s[1] == '\n' {
        seq!['\n'] + unify_newlines(s.skip(2))
    } else if s[0] == '\r' {
        seq!['\n'] + unify_newlines(s.drop_first())
    } else {
        seq![s[0]] + unify_newlines(s.drop_first())
    }
}

/// Trailing `;` and `/` terminators removed, each with the white space before it.
pub open spec fn strip_terminators(s: Seq<char>) -> Seq<char>
    decreases s.len(),
{
    if s.len() > 0 && (s.last() == ';' || s.last() == '/') {
        proof { crate::text::lemma_trim_end_len(s.drop_last()); }
        strip_terminators(trim_end(s.drop_last()))
    } else {
        s
    }
}

/// DDL made fit for `EXECUTE IMMEDIATE`: newlines unified, trimmed, trailing
/// terminators removed; none when nothing is left.
pub open spec fn normalized_ddl(ddl: Seq<char>) -> Option<Seq<char>> {
    let s = strip_terminators(trim(unify_newlines(ddl)));
    if s.len() == 0 { None } else { Some(s) }
}

fn unify_newlines_exec(v: &Vec<char>) -> (r: Vec<char>)
    ensures
        r@ == unify_newlines(v@),
{
    let mut out: Vec<char> = Vec::new();
    let mut i: usize = 0;
    assert(v@.skip(0) =~= v@);
    assert(out@ + unify_newlines(v@) =~= unify_newlines(v@));
    while i < v.len()
        invariant
            i <= v.len(),
            out@ + unify_newlines(v@.skip(i as int)) == unify_newlines(v@),
        decreases v.len() - i,
    {
        let ghost rest = v@.skip(i as int);
        assert(rest[0] == v@[i as int]);
        if v[i] == '\r' && i + 1 < v.len() && v[i + 1] == '\n' {
            assert(rest[1] == v@[i + 1]);
            assert(rest.skip(2) =~= v@.skip(i + 2));
            out.push('\n');
            i += 2;
        } else {
            assert(rest.drop_first() =~= v@.skip(i + 1));
            if v[i] == '\r' {
                out.push('\n');
            } else {
                out.push(v[i]);
            }
            i += 1;
        }
        assert(out@ + unify_newlines(v@.skip(i as int)) =~= unify_newlines(v@));
    }
    assert(v@.skip(i as int) =~= Seq::<char>::empty());
    assert(out@ + Seq::<char>::empty() =~= out@);
    out
}

/// DDL made fit for `EXECUTE IMMEDIATE`: CRLF and CR become LF, the text is trimmed
/// and trailing `;` / `/` terminators are removed; none when nothing is left.
pub fn normalize_ddl_for_execute_immediate(ddl: &str) -> (r: Option<String>)
    ensures
        opt_view(r) == normalized_ddl(ddl@),
{
    let v = to_chars(ddl);
    let u = unify_newlines_exec(&v);
    let (a, b) = trim_bounds(&u);
    let t = crate::text::skip_vec(&crate::text::take_vec(&u, b), a);
    assert(t@ =~= trim(unify_newlines(ddl@)));
    let mut e: usize = t.len();
    assert(t@.take(e as int) =~= t@);
    while e > 0 && (t[e - 1] == ';' || t[e - 1] == '/')
        invariant
            e <= t.len(),
            strip_terminators(t@.take(e as int)) == strip_terminators(t@),
        decreases e,
    {
        let ghost cur = t@.take(e as int);
        assert(cur.drop_last() =~= t@.take(e - 1));
        e = crate::text::trim_end_bound(&t, e - 1);
    }
    if e == 0 {
        assert(t@.take(0) =~= Seq::<char>::empty());
        None
    } else {
        let r = slice_string(&t, 0, e);
        assert(t@.subrange(0, e as int) =~= t@.take(e as int));
        Some(r)
    }
}

// ───────────────────────── statement blocks ─────────────────────────

fn push_literal(r: &mut String, v: &str)
    ensures
        final(r)@ == old(r)@ + sql_literal_spec(v@),
{
    let l = sql_literal(v);
    r.append(l.as_str());
}

fn push_ident(r: &mut String, v: &str)
    ensures
        final(r)@ == old(r)@ + quoted_ident_spec(v@),
{
    let l = quoted_ident(v);
    r.append(l.as_str());
}

/// The block that creates `table` with `create` unless a table of that name exists.
pub open spec fn create_table_text(table: Seq<char>, create: Seq<char>) -> Seq<char> {
    CREATE_TABLE_0@ + sql_literal_spec(upper_key(table)) + CREATE_TABLE_1@ + sql_literal_spec(create)
        + CREATE_TABLE_2@
}

/// The create-table block for `ddl`, when it normalises to something executable.
pub open spec fn create_table_block(table: Seq<char>, ddl: Seq<char>) -> Option<Seq<char>> {
    match normalized_ddl(ddl) {
        Some(c) => Some(create_table_text(table, c)),
        None => None,
    }
}

/// A PL/SQL block that runs the reference DDL of `table` unless the table exists;
/// none when the DDL normalises to nothing.
pub fn build_create_table_block(table: &str, reference_table_ddl: &str) -> (r: Option<String>)
    ensures
        opt_view(r) == create_table_block(table@, reference_table_ddl@),
{
    let create_sql = match normalize_ddl_for_execute_immediate(reference_table_ddl) {
        Some(c) => c,
        None => return None,
    };
    let table_key = to_upper_key(table);
    let mut r = String::new();
    r.append(CREATE_TABLE_0);
    push_literal(&mut r, table_key.as_str());
    r.append(CREATE_TABLE_1);
    push_literal(&mut r, create_sql.as_str());
    r.append(CREATE_TABLE_2);
    assert(r@ =~= create_table_text(table@, create_sql@));
    Some(r)
}

/// `"column" TYPE[ DEFAULT expr]`, when the column has a data type.
pub open spec fn column_definition(column: Seq<char>, col: ColumnInfo) -> Option<Seq<char>> {
    match desired_type(col) {
        Some(t) => Some(quoted_ident_spec(column) + seq![' '] + t + default_clause(col)),
        None => None,
    }
}

/// `"column" TYPE[ DEFAULT expr]`, when the column has a data type.
pub fn build_column_definition_sql(column: &str, reference_col: &ColumnInfo) -> (r: Option<String>)
    ensures
        opt_view(r) == column_definition(column@, *reference_col),
{
    let type_sql = match desired_type_sql(reference_col) {
        Some(t) => t,
        None => return None,
    };
    let mut out = String::new();
    push_ident(&mut out, column);
    push_char(&mut out, ' ');
    out.append(type_sql.as_str());
    let d = default_clause_sql(reference_col);
    out.append(d.as_str());
    assert(out@ =~= column_definition(column@, *reference_col)->0);
    Some(out)
}

/// `COMMENT ON COLUMN "table"."column" IS '<comment>'`.
pub open spec fn comment_sql(table: Seq<char>, column: Seq<char>, comment: Seq<char>) -> Seq<char> {
    "COMMENT ON COLUMN "@ + quoted_ident_spec(table) + seq!['.'] + quoted_ident_spec(column) + " IS "@
        + sql_literal_spec(comment)
}

/// The block that sets the comment of `table.column` unless it already reads `comment`.
pub open spec fn comment_text(table: Seq<char>, column: Seq<char>, comment: Seq<char>) -> Seq<char> {
    COMMENT_0@ + sql_literal_spec(upper_key(table)) + COMMENT_1@ + sql_literal_spec(upper_key(column)) + COMMENT_2@
        + sql_literal_spec(comment) + COMMENT_3@ + sql_literal_spec(comment_sql(table, column, comment))
        + COMMENT_4@
}

fn comment_text_exec(table: &str, column: &str, comment: &str) -> (r: String)
    ensures
        r@ == comment_text(table@, column@, comment@),
{
    let mut sql = String::new();
    sql.append("COMMENT ON COLUMN ");
    push_ident(&mut sql, table);
    push_char(&mut sql, '.');
    push_ident(&mut sql, column);
    sql.append(" IS ");
    push_literal(&mut sql, comment);
    assert(sql@ =~= comment_sql(table@, column@, comment@));
    let table_key = to_upper_key(table);
    let column_key = to_upper_key(column);
    let mut r = String::new();
    r.append(COMMENT_0);
    push_literal(&mut r, table_key.as_str());
    r.append(COMMENT_1);
    push_literal(&mut r, column_key.as_str());
    r.append(COMMENT_2);
    push_literal(&mut r, comment);
    r.append(COMMENT_3);
    push_literal(&mut r, sql.as_str());
    r.append(COMMENT_4);
    assert(r@ =~= comment_text(table@, column@, comment@));
    r
}

/// The comment block of a column that has a non-blank comment, after a blank line.
pub open spec fn comment_suffix_of(table: Seq<char>, column: Seq<char>, col: ColumnInfo) -> Seq<char> {
    match present(col.comments) {
        Some(c) => "\n\n"@ + comment_text(table, column, c),
        None => Seq::<char>::empty(),
    }
}

/// The block that adds `table.column` as in the reference (when the table exists and
/// the column does not), followed by its comment block; none without a data type.
pub open spec fn add_column_block(table: Seq<char>, column: Seq<char>, col: ColumnInfo) -> Option<Seq<char>> {
    match desired_type(col) {
        None => None,
        Some(t) => {
            let alter = "ALTER TABLE "@ + quoted_ident_spec(table) + " ADD ("@ + quoted_ident_spec(column)
                + seq![' '] + t + default_clause(col) + seq![')'];
            let tk = sql_literal_spec(upper_key(table));
            Some(ADD_COLUMN_0@ + tk + ADD_COLUMN_1@ + tk + ADD_COLUMN_2@ + sql_literal_spec(upper_key(column))
                + ADD_COLUMN_3@ + sql_literal_spec(alter) + ADD_COLUMN_4@ + comment_suffix_of(table, column, col))
        },
    }
}

/// The block that adds a missing column as in the reference, with its comment.
pub fn build_add_column_block(table: &str, column: &str, reference_col: &ColumnInfo) -> (r: Option<String>)
    ensures
        opt_view(r) == add_column_block(table@, column@, *reference_col),
{
    let type_sql = match desired_type_sql(reference_col) {
        Some(t) => t,
        None => return None,
    };
    let mut alter = String::new();
    alter.append("ALTER TABLE ");
    push_ident(&mut alter, table);
    alter.append(" ADD (");
    push_ident(&mut alter, column);
    push_char(&mut alter, ' ');
    alter.append(type_sql.as_str());
    let d = default_clause_sql(reference_col);
    alter.append(d.as_str());
    push_char(&mut alter, ')');
    let ghost t = desired_type(*reference_col)->0;
    assert(alter@ =~= "ALTER TABLE "@ + quoted_ident_spec(table@) + " ADD ("@ + quoted_ident_spec(column@)
        + seq![' '] + t + default_clause(*reference_col) + seq![')']);
    let table_key = to_upper_key(table);
    let column_key = to_upper_key(column);
    let mut block = String::new();
    block.append(ADD_COLUMN_0);
    push_literal(&mut block, table_key.as_str());
    block.append(ADD_COLUMN_1);
    push_literal(&mut block, table_key.as_str());
    block.append(ADD_COLUMN_2);
    push_literal(&mut block, column_key.as_str());
    block.append(ADD_COLUMN_3);
    push_literal(&mut block, alter.as_str());
    block.append(ADD_COLUMN_4);
    let ghost tk = sql_literal_spec(upper_key(table@));
    assert(block@ =~= ADD_COLUMN_0@ + tk + ADD_COLUMN_1@ + tk + ADD_COLUMN_2@ + sql_literal_spec(upper_key(column@))
        + ADD_COLUMN_3@ + sql_literal_spec(alter@) + ADD_COLUMN_4@);
    let ghost head = block@;
    if let Some(c) = present_text(&reference_col.comments) {
        block.append("\n\n");
        let cb = comment_text_exec(table, column, c.as_str());
        block.append(cb.as_str());
        assert(block@ =~= head + comment_suffix_of(table@, column@, *reference_col));
    } else {
        assert(block@ =~= head + comment_suffix_of(table@, column@, *reference_col));
    }
    assert(block@ =~= add_column_block(table@, column@, *reference_col)->0);
    Some(block)
}

/// The block that changes the type of `table.column` to the reference type unless
/// its data type and length already match; none without a data type.
pub open spec fn modify_type_block(table: Seq<char>, column: Seq<char>, col: ColumnInfo) -> Option<Seq<char>> {
    match desired_type(col) {
        None => None,
        Some(t) => {
            let dtype = present(col.data_type)->0;
            let dlen = match present(col.data_length) {
                Some(l) => l,
                None => NULL_TOKEN@,
            };
            let alter = "ALTER TABLE "@ + quoted_ident_spec(table) + " MODIFY ("@ + quoted_ident_spec(column)
                + seq![' '] + t + seq![')'];
            let tk = sql_literal_spec(upper_key(table));
            let ck = sql_literal_spec(upper_key(column));
            let nl = sql_literal_spec(NULL_TOKEN@);
            Some(MODIFY_TYPE_0@ + tk + MODIFY_TYPE_1@ + ck + MODIFY_TYPE_2@ + tk + MODIFY_TYPE_3@ + ck
                + MODIFY_TYPE_4@ + sql_literal_spec(dtype) + MODIFY_TYPE_5@ + nl + MODIFY_TYPE_6@
                + sql_literal_spec(dlen) + MODIFY_TYPE_7@ + nl + MODIFY_TYPE_8@ + sql_literal_spec(alter)
                + MODIFY_TYPE_9@)
        },
    }
}

/// The block that brings the type of a column in line with the reference.
pub fn build_modify_type_block(table: &str, column: &str, reference_col: &ColumnInfo) -> (r: Option<String>)
    ensures
        opt_view(r) == modify_type_block(table@, column@, *reference_col),
{
    let type_sql = match desired_type_sql(reference_col) {
        Some(t) => t,
        None => return None,
    };
    let expected_type = match present_text(&reference_col.data_type) {
        Some(t) => t,
        None => return None,
    };
    let expected_length = match present_text(&reference_col.data_length) {
        Some(l) => l,
        None => NULL_TOKEN.to_string(),
    };
    let mut alter = String::new();
    alter.append("ALTER TABLE ");
    push_ident(&mut alter, table);
    alter.append(" MODIFY (");
    push_ident(&mut alter, column);
    push_char(&mut alter, ' ');
    alter.append(type_sql.as_str());
    push_char(&mut alter, ')');
    let ghost t = desired_type(*reference_col)->0;
    assert(alter@ =~= "ALTER TABLE "@ + quoted_ident_spec(table@) + " MODIFY ("@ + quoted_ident_spec(column@)
        + seq![' '] + t + seq![')']);
    assert(expected_type@ == present(reference_col.data_type)->0);
    assert(expected_length@ == match present(reference_col.data_length) {
        Some(l) => l,
        None => NULL_TOKEN@,
    });
    let table_key = to_upper_key(table);
    let column_key = to_upper_key(column);
    let mut r = String::new();
    r.append(MODIFY_TYPE_0);
    push_literal(&mut r, table_key.as_str());
    r.append(MODIFY_TYPE_1);
    push_literal(&mut r, column_key.as_str());
    r.append(MODIFY_TYPE_2);
    push_literal(&mut r, table_key.as_str());
    r.append(MODIFY_TYPE_3);
    push_literal(&mut r, column_key.as_str());
    r.append(MODIFY_TYPE_4);
    push_literal(&mut r, expected_type.as_str());
    r.append(MODIFY_TYPE_5);
    push_literal(&mut r, NULL_TOKEN);
    r.append(MODIFY_TYPE_6);
    push_literal(&mut r, expected_length.as_str());
    r.append(MODIFY_TYPE_7);
    push_literal(&mut r, NULL_TOKEN);
    r.append(MODIFY_TYPE_8);
    push_literal(&mut r, alter.as_str());
    r.append(MODIFY_TYPE_9);
    assert(r@ =~= modify_type_block(table@, column@, *reference_col)->0);
    Some(r)
}

/// The block that sets the default of `table.column` to the reference default (or
/// `NULL`) unless the trimmed default already matches.
pub open spec fn default_block(table: Seq<char>, column: Seq<char>, col: ColumnInfo) -> Seq<char> {
    let token = match present(col.data_default) {
        Some(d) => d,
        None => NULL_TOKEN@,
    };
    let alter = match present(col.data_default) {
        Some(e) => "ALTER TABLE "@ + quoted_ident_spec(table) + " MODIFY ("@ + quoted_ident_spec(column)
            + " DEFAULT "@ + e + seq![')'],
        None => "ALTER TABLE "@ + quoted_ident_spec(table) + " MODIFY ("@ + quoted_ident_spec(column)
            + " DEFAULT NULL)"@,
    };
    let tk = sql_literal_spec(upper_key(table));
    let ck = sql_literal_spec(upper_key(column));
    let nl = sql_literal_spec(NULL_TOKEN@);
    DEFAULT_0@ + tk + DEFAULT_1@ + ck + DEFAULT_2@ + tk + DEFAULT_3@ + ck + DEFAULT_4@ + nl + DEFAULT_5@
        + sql_literal_spec(token) + DEFAULT_6@ + nl + DEFAULT_7@ + sql_literal_spec(alter) + DEFAULT_8@
}

/// The block that brings the default of a column in line with the reference.
pub fn build_default_block(table: &str, column: &str, reference_col: &ColumnInfo) -> (r: Option<String>)
    ensures
        opt_view(r) == Some(default_block(table@, column@, *reference_col)),
{
    let desired_default = desired_default_expr(reference_col);
    let mut alter = String::new();
    alter.append("ALTER TABLE ");
    push_ident(&mut alter, table);
    alter.append(" MODIFY (");
    push_ident(&mut alter, column);
    let token = match &desired_default {
        Some(e) => {
            alter.append(" DEFAULT ");
            alter.append(e.as_str());
            push_char(&mut alter, ')');
            e.clone()
        },
        None => {
            alter.append(" DEFAULT NULL)");
            NULL_TOKEN.to_string()
        },
    };
    assert(token@ == match present(reference_col.data_default) {
        Some(d) => d,
        None => NULL_TOKEN@,
    });
    assert(alter@ =~= match present(reference_col.data_default) {
        Some(e) => "ALTER TABLE "@ + quoted_ident_spec(table@) + " MODIFY ("@ + quoted_ident_spec(column@)
            + " DEFAULT "@ + e + seq![')'],
        None => "ALTER TABLE "@ + quoted_ident_spec(table@) + " MODIFY ("@ + quoted_ident_spec(column@)
            + " DEFAULT NULL)"@,
    });
    let table_key = to_upper_key(table);
    let column_key = to_upper_key(column);
    let mut r = String::new();
    r.append(DEFAULT_0);
    push_literal(&mut r, table_key.as_str());
    r.append(DEFAULT_1);
    push_literal(&mut r, column_key.as_str());
    r.append(DEFAULT_2);
    push_literal(&mut r, table_key.as_str());
    r.append(DEFAULT_3);
    push_literal(&mut r, column_key.as_str());
    r.append(DEFAULT_4);
    push_literal(&mut r, NULL_TOKEN);
    r.append(DEFAULT_5);
    push_literal(&mut r, token.as_str());
    r.append(DEFAULT_6);
    push_literal(&mut r, NULL_TOKEN);
    r.append(DEFAULT_7);
    push_literal(&mut r, alter.as_str());
    r.append(DEFAULT_8);
    assert(r@ =~= default_block(table@, column@, *reference_col));
    Some(r)
}

/// The trimmed comment of a column, empty when it has none.
pub open spec fn desired_comment(col: ColumnInfo) -> Seq<char> {
    match col.comments {
        Some(c) => trim(c@),
        None => Seq::<char>::empty(),
    }
}

/// The block that sets the comment of a column to the reference comment.
pub fn build_comment_block(table: &str, column: &str, reference_col: &ColumnInfo) -> (r: Option<String>)
    ensures
        opt_view(r) == Some(comment_text(table@, column@, desired_comment(*reference_col))),
{
    let desired = match &reference_col.comments {
        Some(c) => trimmed(c.as_str()),
        None => String::new(),
    };
    Some(comment_text_exec(table, column, desired.as_str()))
}

// ───────────────────────── whole-table blocks ─────────────────────────

/// The column names of `cols` in ascending order.
pub open spec fn sorted_names(cols: TableColumns) -> Seq<Seq<char>> {
    sorted_texts(cols.key_texts())
}

/// The comment blocks of the columns `names` that have a non-blank comment, in order.
pub open spec fn comments_text(table: Seq<char>, cols: TableColumns, names: Seq<Seq<char>>) -> Seq<char>
    decreases names.len(),
{
    if names.len() == 0 {
        Seq::<char>::empty()
    } else {
        comments_text(table, cols, names.drop_last()) + match cols.lookup(names.last()) {
            Some(c) => comment_suffix_of(table, names.last(), c),
            None => Seq::<char>::empty(),
        }
    }
}

/// A comment block for every column with a non-blank comment, by column name.
pub open spec fn comments_suffix(table: Seq<char>, cols: TableColumns) -> Seq<char> {
    comments_text(table, cols, sorted_names(cols))
}

/// A comment block for every reference column with a non-blank comment, in
/// ascending column order, each after a blank line.
pub fn build_comments_suffix(table: &str, reference_columns: &TableColumns) -> (r: String)
    ensures
        r@ == comments_suffix(table@, *reference_columns),
{
    let names = sort_texts(&reference_columns.keys());
    let ghost ns = texts(names@);
    let mut extra = String::new();
    let mut i: usize = 0;
    assert(ns.take(0) =~= Seq::<Seq<char>>::empty());
    while i < names.len()
        invariant
            i <= names.len(),
            ns == texts(names@),
            ns == sorted_names(*reference_columns),
            extra@ == comments_text(table@, *reference_columns, ns.take(i as int)),
        decreases names.len() - i,
    {
        let name = &names[i];
        assert(ns.take(i + 1).drop_last() =~= ns.take(i as int));
        assert(ns.take(i + 1).last() == name@);
        match reference_columns.get(name.as_str()) {
            Some(c) => {
                if let Some(cm) = present_text(&c.comments) {
                    extra.append("\n\n");
                    let block = comment_text_exec(table, name.as_str(), cm.as_str());
                    extra.append(block.as_str());
                }
            },
            None => {},
        }
        i += 1;
    }
    assert(ns.take(names.len() as int) =~= ns);
    extra
}

/// The trimmed non-blank index name of column `name`, if any.
pub open spec fn column_index(cols: TableColumns, name: Seq<char>) -> Option<Seq<char>> {
    match cols.lookup(name) {
        Some(c) => present(c.index_name),
        None => None,
    }
}

/// The distinct index names of the columns `names`, in order of first use.
pub open spec fn index_names(cols: TableColumns, names: Seq<Seq<char>>) -> Seq<Seq<char>>
    decreases names.len(),
{
    if names.len() == 0 {
        Seq::<Seq<char>>::empty()
    } else {
        let prev = index_names(cols, names.drop_last());
        match column_index(cols, names.last()) {
            Some(ix) => if prev.contains(ix) { prev } else { prev.push(ix) },
            None => prev,
        }
    }
}

/// The columns among `names` that belong to index `ix`, in order.
pub open spec fn index_members(cols: TableColumns, names: Seq<Seq<char>>, ix: Seq<char>) -> Seq<Seq<char>>
    decreases names.len(),
{
    if names.len() == 0 {
        Seq::<Seq<char>>::empty()
    } else {
        let prev = index_members(cols, names.drop_last(), ix);
        if column_index(cols, names.last()) == Some(ix) { prev.push(names.last()) } else { prev }
    }
}

/// The block that creates index `ix` on `members` of `table` unless an index of that
/// name exists, after a blank line.
pub open spec fn index_text(table: Seq<char>, ix: Seq<char>, members: Seq<Seq<char>>) -> Seq<char> {
    let create = "CREATE INDEX "@ + quoted_ident_spec(ix) + " ON "@ + quoted_ident_spec(table) + " ("@
        + join(members.map_values(|m: Seq<char>| quoted_ident_spec(m)), ", "@) + seq![')'];
    "\n\n"@ + INDEX_0@ + sql_literal_spec(upper_key(ix)) + INDEX_1@ + sql_literal_spec(create) + INDEX_2@
}

/// The index blocks of the index names `ixs`, in order.
pub open spec fn indexes_text(table: Seq<char>, cols: TableColumns, names: Seq<Seq<char>>, ixs: Seq<Seq<char>>) -> Seq<char>
    decreases ixs.len(),
{
    if ixs.len() == 0 {
        Seq::<char>::empty()
    } else {
        indexes_text(table, cols, names, ixs.drop_last())
            + index_text(table, ixs.last(), index_members(cols, names, ixs.last()))
    }
}

/// An index block for every index of the columns, by index name; each index takes its
/// columns in ascending column order.
pub open spec fn indexes_suffix(table: Seq<char>, cols: TableColumns) -> Seq<char> {
    let names = sorted_names(cols);
    indexes_text(table, cols, names, sorted_texts(index_names(cols, names)))
}

fn column_index_exec(cols: &TableColumns, name: &str) -> (r: Option<String>)
    ensures
        opt_view(r) == column_index(*cols, name@),
{
    match cols.get(name) {
        Some(c) => present_text(&c.index_name),
        None => None,
    }
}

fn contains_text(v: &Vec<String>, x: &str) -> (r: bool)
    ensures
        r == texts(v@).contains(x@),
{
    let mut i: usize = 0;
    while i < v.len()
        invariant
            i <= v.len(),
            forall|j: int| 0 <= j < i ==> v@[j]@ != x@,
        decreases v.len() - i,
    {
        if crate::text::same_text(v[i].as_str(), x) {
            assert(texts(v@)[i as int] == x@);
            return true;
        }
        i += 1;
    }
    proof {
        if texts(v@).contains(x@) {
            let j = choose|j: int| 0 <= j < texts(v@).len() && texts(v@)[j] == x@;
            assert(v@[j]@ == x@);
        }
    }
    false
}

fn index_names_exec(cols: &TableColumns, names: &Vec<String>) -> (r: Vec<String>)
    ensures
        texts(r@) == index_names(*cols, texts(names@)),
{
    let ghost ns = texts(names@);
    let mut r: Vec<String> = Vec::new();
    let mut i: usize = 0;
    assert(ns.take(0) =~= Seq::<Seq<char>>::empty());
    while i < names.len()
        invariant
            i <= names.len(),
            ns == texts(names@),
            texts(r@) == index_names(*cols, ns.take(i as int)),
        decreases names.len() - i,
    {
        assert(ns.take(i + 1).drop_last() =~= ns.take(i as int));
        assert(ns.take(i + 1).last() == names@[i as int]@);
        if let Some(ix) = column_index_exec(cols, names[i].as_str()) {
            if !contains_text(&r, ix.as_str()) {
                let ghost before = r@;
                r.push(ix);
                assert(texts(r@) =~= texts(before).push(ix@));
            }
        }
        i += 1;
    }
    assert(ns.take(names.len() as int) =~= ns);
    r
}

fn index_members_exec(cols: &TableColumns, names: &Vec<String>, ix: &str) -> (r: Vec<String>)
    ensures
        texts(r@) == index_members(*cols, texts(names@), ix@),
{
    let ghost ns = texts(names@);
    let mut r: Vec<String> = Vec::new();
    let mut i: usize = 0;
    assert(ns.take(0) =~= Seq::<Seq<char>>::empty());
    while i < names.len()
        invariant
            i <= names.len(),
            ns == texts(names@),
            texts(r@) == index_members(*cols, ns.take(i as int), ix@),
        decreases names.len() - i,
    {
        assert(ns.take(i + 1).drop_last() =~= ns.take(i as int));
        assert(ns.take(i + 1).last() == names@[i as int]@);
        let c = column_index_exec(cols, names[i].as_str());
        let belongs = match &c {
            Some(x) => crate::text::same_text(x.as_str(), ix),
            None => false,
        };
        if belongs {
            let ghost before = r@;
            r.push(names[i].clone());
            assert(texts(r@) =~= texts(before).push(names@[i as int]@));
        }
        i += 1;
    }
    assert(ns.take(names.len() as int) =~= ns);
    r
}

fn quoted_list(members: &Vec<String>) -> (r: String)
    ensures
        r@ == join(texts(members@).map_values(|m: Seq<char>| quoted_ident_spec(m)), ", "@),
{
    let mut quoted: Vec<String> = Vec::new();
    let mut i: usize = 0;
    while i < members.len()
        invariant
            i <= members.len(),
            quoted.len() == i,
            forall|j: int| 0 <= j < i ==> #[trigger] quoted@[j]@ == quoted_ident_spec(members@[j]@),
        decreases members.len() - i,
    {
        quoted.push(quoted_ident(members[i].as_str()));
        i += 1;
    }
    let r = crate::text::join_exec(&quoted, ", ");
    assert(quoted@.map_values(|p: String| p@) =~= texts(members@).map_values(|m: Seq<char>| quoted_ident_spec(m)));
    r
}

/// An index block for every index of the reference columns, by index name, each
/// after a blank line.
pub fn build_indexes_suffix(table: &str, reference_columns: &TableColumns) -> (r: String)
    ensures
        r@ == indexes_suffix(table@, *reference_columns),
{
    let names = sort_texts(&reference_columns.keys());
    let ixs = sort_texts(&index_names_exec(reference_columns, &names));
    let ghost ns = texts(names@);
    let ghost xs = texts(ixs@);
    let mut extra = String::new();
    let mut k: usize = 0;
    assert(xs.take(0) =~= Seq::<Seq<char>>::empty());
    while k < ixs.len()
        invariant
            k <= ixs.len(),
            ns == texts(names@),
            xs == texts(ixs@),
            extra@ == indexes_text(table@, *reference_columns, ns, xs.take(k as int)),
        decreases ixs.len() - k,
    {
        let ix = &ixs[k];
        assert(xs.take(k + 1).drop_last() =~= xs.take(k as int));
        assert(xs.take(k + 1).last() == ix@);
        let members = index_members_exec(reference_columns, &names, ix.as_str());
        let list = quoted_list(&members);
        let mut create = String::new();
        create.append("CREATE INDEX ");
        push_ident(&mut create, ix.as_str());
        create.append(" ON ");
        push_ident(&mut create, table);
        create.append(" (");
        create.append(list.as_str());
        push_char(&mut create, ')');
        let ghost mem = index_members(*reference_columns, ns, ix@);
        assert(create@ =~= "CREATE INDEX "@ + quoted_ident_spec(ix@) + " ON "@ + quoted_ident_spec(table@) + " ("@
            + join(mem.map_values(|m: Seq<char>| quoted_ident_spec(m)), ", "@) + seq![')']);
        let index_key = to_upper_key(ix.as_str());
        let ghost before = extra@;
        extra.append("\n\n");
        extra.append(INDEX_0);
        push_literal(&mut extra, index_key.as_str());
        extra.append(INDEX_1);
        push_literal(&mut extra, create.as_str());
        extra.append(INDEX_2);
        assert(extra@ =~= before + index_text(table@, ix@, index_members(*reference_columns, ns, ix@)));
        k += 1;
    }
    assert(xs.take(ixs.len() as int) =~= xs);
    extra
}

/// The comment blocks, then the index blocks, of a table's columns.
pub open spec fn table_suffix(table: Seq<char>, cols: TableColumns) -> Seq<char> {
    comments_suffix(table, cols) + indexes_suffix(table, cols)
}

/// The comment blocks, then the index blocks, of the reference columns.
pub fn build_comments_and_indexes_suffix(table: &str, reference_columns: &TableColumns) -> (r: String)
    ensures
        r@ == table_suffix(table@, *reference_columns),
{
    let mut out = build_comments_suffix(table, reference_columns);
    let idx = build_indexes_suffix(table, reference_columns);
    out.append(idx.as_str());
    out
}

/// The column definitions of `names`; none as soon as one lacks metadata or a data type.
pub open spec fn column_definitions(cols: TableColumns, names: Seq<Seq<char>>) -> Option<Seq<Seq<char>>>
    decreases names.len(),
{
    if names.len() == 0 {
        Some(Seq::<Seq<char>>::empty())
    } else {
        match column_definitions(cols, names.drop_last()) {
            None => None,
            Some(prev) => match cols.lookup(names.last()) {
                None => None,
                Some(c) => match column_definition(names.last(), c) {
                    None => None,
                    Some(d) => Some(prev.push(d)),
                },
            },
        }
    }
}

/// A create-table block built from column metadata (columns in ascending order),
/// followed by the table's comment and index blocks; none for a table without
/// columns or with a column that lacks a data type.
pub open spec fn create_table_from_columns(table: Seq<char>, cols: TableColumns) -> Option<Seq<char>> {
    if cols.items().len() == 0 {
        None
    } else {
        match column_definitions(cols, sorted_names(cols)) {
            None => None,
            Some(defs) => {
                let ddl = "CREATE TABLE "@ + quoted_ident_spec(table) + " ("@ + join(defs, ", "@) + seq![')'];
                match create_table_block(table, ddl) {
                    None => None,
                    Some(b) => Some(b + table_suffix(table, cols)),
                }
            },
        }
    }
}

/// A create-table block built from the reference column metadata, with the table's
/// comment and index blocks.
pub fn build_create_table_from_columns_block(table: &str, reference_columns: &TableColumns) -> (r: Option<String>)
    ensures
        opt_view(r) == create_table_from_columns(table@, *reference_columns),
{
    if reference_columns.is_empty() {
        return None;
    }
    let names = sort_texts(&reference_columns.keys());
    let ghost ns = texts(names@);
    let mut definitions: Vec<String> = Vec::new();
    let mut i: usize = 0;
    assert(ns.take(0) =~= Seq::<Seq<char>>::empty());
    while i < names.len()
        invariant
            i <= names.len(),
            ns == texts(names@),
            ns == sorted_names(*reference_columns),
            column_definitions(*reference_columns, ns.take(i as int)) == Some(texts(definitions@)),
        decreases names.len() - i,
    {
        let name = &names[i];
        assert(ns.take(i + 1).drop_last() =~= ns.take(i as int));
        assert(ns.take(i + 1).last() == name@);
        let col = match reference_columns.get(name.as_str()) {
            Some(c) => c,
            None => {
                assert(column_definitions(*reference_columns, ns.take(i + 1)) is None);
                proof { lemma_definitions_stay_none(*reference_columns, ns, i as int + 1); }
                return None;
            },
        };
        let def = match build_column_definition_sql(name.as_str(), col) {
            Some(d) => d,
            None => {
                assert(column_definitions(*reference_columns, ns.take(i + 1)) is None);
                proof { lemma_definitions_stay_none(*reference_columns, ns, i as int + 1); }
                return None;
            },
        };
        let ghost before = definitions@;
        definitions.push(def);
        assert(texts(definitions@) =~= texts(before).push(def@));
        i += 1;
    }
    assert(ns.take(names.len() as int) =~= ns);
    let mut ddl = String::new();
    ddl.append("CREATE TABLE ");
    push_ident(&mut ddl, table);
    ddl.append(" (");
    let joined = join_exec(&definitions, ", ");
    ddl.append(joined.as_str());
    push_char(&mut ddl, ')');
    assert(ddl@ =~= "CREATE TABLE "@ + quoted_ident_spec(table@) + " ("@ + join(texts(definitions@), ", "@) + seq![')']);
    let block = match build_create_table_block(table, ddl.as_str()) {
        Some(b) => b,
        None => return None,
    };
    let suffix = build_comments_and_indexes_suffix(table, reference_columns);
    let mut out = block;
    out.append(suffix.as_str());
    Some(out)
}

proof fn lemma_definitions_stay_none(cols: TableColumns, names: Seq<Seq<char>>, k: int)
    requires
        0 <= k <= names.len(),
        column_definitions(cols, names.take(k)) is None,
    ensures
        column_definitions(cols, names) is None,
    decreases names.len() - k,
{
    if k < names.len() {
        assert(names.take(k + 1).drop_last() =~= names.take(k));
        lemma_definitions_stay_none(cols, names, k + 1);
    } else {
        assert(names.take(k) =~= names);
    }
}

// ───────────────────────── one selected discrepancy ─────────────────────────

/// Why a discrepancy of kind `kind` is never fixed automatically.
pub open spec fn skip_reason(kind: FixKind) -> Seq<char> {
    match kind {
        FixKind::IndexName => "Index discrepancy skipped: index composition is not available, so auto-fix would be unsafe."@,
        FixKind::ColumnName => "Column name discrepancy skipped: automatic column rename is unsafe and not generated."@,
        _ => "Discrepancy type is not recognized for automatic fixing."@,
    }
}

/// Why a discrepancy of kind `kind` is never fixed automatically.
pub fn classify_skip_reason(kind: FixKind) -> (r: &'static str)
    ensures
        r@ == skip_reason(kind),
{
    match kind {
        FixKind::IndexName => "Index discrepancy skipped: index composition is not available, so auto-fix would be unsafe.",
        FixKind::ColumnName => "Column name discrepancy skipped: automatic column rename is unsafe and not generated.",
        _ => "Discrepancy type is not recognized for automatic fixing.",
    }
}

/// The name of a fix kind as `Debug` prints it.
pub open spec fn kind_name(kind: FixKind) -> Seq<char> {
    match kind {
        FixKind::MissingTable => "MissingTable"@,
        FixKind::MissingColumn => "MissingColumn"@,
        FixKind::DataType => "DataType"@,
        FixKind::DataLength => "DataLength"@,
        FixKind::DataDefault => "DataDefault"@,
        FixKind::Comments => "Comments"@,
        FixKind::IndexName => "IndexName"@,
        FixKind::ColumnName => "ColumnName"@,
        FixKind::Unsupported => "Unsupported"@,
    }
}

fn kind_name_exec(kind: FixKind) -> (r: &'static str)
    ensures
        r@ == kind_name(kind),
{
    match kind {
        FixKind::MissingTable => "MissingTable",
        FixKind::MissingColumn => "MissingColumn",
        FixKind::DataType => "DataType",
        FixKind::DataLength => "DataLength",
        FixKind::DataDefault => "DataDefault",
        FixKind::Comments => "Comments",
        FixKind::IndexName => "IndexName",
        FixKind::ColumnName => "ColumnName",
        FixKind::Unsupported => "Unsupported",
    }
}

/// What the metadata yields for one discrepancy: a statement block, a reason to skip
/// it, or nothing usable.
pub enum BlockOutcome {
    Built(Seq<char>),
    Skipped(Seq<char>),
    Insufficient,
}

/// A built block, or nothing usable.
pub open spec fn built_or_insufficient(o: Option<Seq<char>>) -> BlockOutcome {
    match o {
        Some(b) => BlockOutcome::Built(b),
        None => BlockOutcome::Insufficient,
    }
}

/// The block for a table missing on the target: the reference DDL made idempotent,
/// followed by the table's comment and index blocks, else a table built from the
/// reference column metadata.
pub open spec fn missing_table_block(row: DiscrepancyView, servers: ServersData, ddls: ServerTableDdls, reference: Seq<char>) -> BlockOutcome {
    let table = trim(row.table_name);
    let cols = reference_table_columns(servers, reference, table);
    if eq_ci(row.server_name, reference) {
        BlockOutcome::Skipped("table exists on non-reference server but missing in reference; create-table fix is not applicable."@)
    } else {
        match reference_table_ddl(ddls, reference, table) {
            Some(ddl) => match create_table_block(table, ddl@) {
                Some(b) => BlockOutcome::Built(b + match cols {
                    Some(c) => table_suffix(table, c),
                    None => Seq::<char>::empty(),
                }),
                None => match cols {
                    None => BlockOutcome::Skipped("full DDL for table "@ + row.table_name
                        + " could not be normalized to executable SQL."@),
                    Some(c) => match create_table_from_columns(table, c) {
                        None => BlockOutcome::Skipped("failed to build fallback CREATE TABLE for "@ + row.table_name
                            + " from column metadata."@),
                        Some(fb) => BlockOutcome::Built(
                            "-- Fallback: DBMS_METADATA DDL could not be normalized, using column metadata definition.\n"@ + fb),
                    },
                },
            },
            None => match cols {
                None => BlockOutcome::Skipped("full DDL for table "@ + row.table_name
                    + " is not available from reference metadata."@),
                Some(c) => match create_table_from_columns(table, c) {
                    None => BlockOutcome::Skipped("failed to build fallback CREATE TABLE for "@ + row.table_name
                        + " from column metadata."@),
                    Some(fb) => BlockOutcome::Built(
                        "-- Fallback: DBMS_METADATA DDL unavailable, using column metadata definition.\n"@ + fb),
                },
            },
        }
    }
}

/// The block for a column-level discrepancy, from the reference metadata of the column.
pub open spec fn column_block(kind: FixKind, row: DiscrepancyView, servers: ServersData, reference: Seq<char>) -> BlockOutcome {
    let table = trim(row.table_name);
    let column = trim(row.column_name);
    match reference_column(servers, reference, table, column) {
        None => BlockOutcome::Skipped("reference metadata for "@ + row.table_name + seq!['.'] + row.column_name
            + " is not available."@),
        Some(c) => match kind {
            FixKind::MissingColumn => built_or_insufficient(add_column_block(table, column, c)),
            FixKind::DataType => built_or_insufficient(modify_type_block(table, column, c)),
            FixKind::DataLength => built_or_insufficient(modify_type_block(table, column, c)),
            FixKind::DataDefault => BlockOutcome::Built(default_block(table, column, c)),
            _ => BlockOutcome::Built(comment_text(table, column, desired_comment(c))),
        },
    }
}

enum BlockOut {
    Built(String),
    Skipped(String),
    Insufficient,
}

spec fn block_view(b: BlockOut) -> BlockOutcome {
    match b {
        BlockOut::Built(s) => BlockOutcome::Built(s@),
        BlockOut::Skipped(s) => BlockOutcome::Skipped(s@),
        BlockOut::Insufficient => BlockOutcome::Insufficient,
    }
}

fn concat3(a: &str, b: &str, c: &str) -> (r: String)
    ensures
        r@ == a@ + b@ + c@,
{
    let mut r = String::new();
    r.append(a);
    r.append(b);
    r.append(c);
    r
}

fn prefixed(prefix: &str, s: String) -> (r: String)
    ensures
        r@ == prefix@ + s@,
{
    let mut r = String::new();
    r.append(prefix);
    r.append(s.as_str());
    r
}

fn fallback_block(row: &Discrepancy, table: &str, cols: &TableColumns, note: &str) -> (r: BlockOut)
    ensures
        block_view(r) == match create_table_from_columns(table@, *cols) {
            None => BlockOutcome::Skipped("failed to build fallback CREATE TABLE for "@ + row.table_name@
                + " from column metadata."@),
            Some(fb) => BlockOutcome::Built(note@ + fb),
        },
{
    match build_create_table_from_columns_block(table, cols) {
        Some(fb) => BlockOut::Built(prefixed(note, fb)),
        None => BlockOut::Skipped(concat3("failed to build fallback CREATE TABLE for ", row.table_name.as_str(),
            " from column metadata.")),
    }
}

fn missing_table_block_exec(row: &Discrepancy, servers: &ServersData, ddls: &ServerTableDdls, reference_server: &str) -> (r: BlockOut)
    ensures
        block_view(r) == missing_table_block(row@, *servers, *ddls, reference_server@),
{
    if eq_ignore_case(row.server_name.as_str(), reference_server) {
        return BlockOut::Skipped("table exists on non-reference server but missing in reference; create-table fix is not applicable.".to_string());
    }
    let table = trimmed(row.table_name.as_str());
    let cols = find_reference_table_columns(servers, reference_server, table.as_str());
    match find_reference_table_ddl(ddls, reference_server, table.as_str()) {
        Some(ddl) => match build_create_table_block(table.as_str(), ddl.as_str()) {
            Some(b) => {
                let mut out = b;
                if let Some(c) = cols {
                    let suffix = build_comments_and_indexes_suffix(table.as_str(), c);
                    out.append(suffix.as_str());
                }
                BlockOut::Built(out)
            },
            None => match cols {
                None => BlockOut::Skipped(concat3("full DDL for table ", row.table_name.as_str(),
                    " could not be normalized to executable SQL.")),
                Some(c) => fallback_block(row, table.as_str(), c,
                    "-- Fallback: DBMS_METADATA DDL could not be normalized, using column metadata definition.\n"),
            },
        },
        None => match cols {
            None => BlockOut::Skipped(concat3("full DDL for table ", row.table_name.as_str(),
                " is not available from reference metadata.")),
            Some(c) => fallback_block(row, table.as_str(), c,
                "-- Fallback: DBMS_METADATA DDL unavailable, using column metadata definition.\n"),
        },
    }
}

fn built_or_insufficient_exec(o: Option<String>) -> (r: BlockOut)
    ensures
        block_view(r) == built_or_insufficient(opt_view(o)),
{
    match o {
        Some(b) => BlockOut::Built(b),
        None => BlockOut::Insufficient,
    }
}

fn column_block_exec(kind: FixKind, row: &Discrepancy, servers: &ServersData, reference_server: &str) -> (r: BlockOut)
    ensures
        block_view(r) == column_block(kind, row@, *servers, reference_server@),
{
    let table = trimmed(row.table_name.as_str());
    let column = trimmed(row.column_name.as_str());
    let c = match find_reference_column(servers, reference_server, table.as_str(), column.as_str()) {
        Some(c) => c,
        None => {
            let mut m = String::new();
            m.append("reference metadata for ");
            m.append(row.table_name.as_str());
            push_char(&mut m, '.');
            m.append(row.column_name.as_str());
            m.append(" is not available.");
            assert(m@ =~= "reference metadata for "@ + row.table_name@ + seq!['.'] + row.column_name@
                + " is not available."@);
            return BlockOut::Skipped(m);
        },
    };
    match kind {
        FixKind::MissingColumn => built_or_insufficient_exec(build_add_column_block(table.as_str(), column.as_str(), c)),
        FixKind::DataType => built_or_insufficient_exec(build_modify_type_block(table.as_str(), column.as_str(), c)),
        FixKind::DataLength => built_or_insufficient_exec(build_modify_type_block(table.as_str(), column.as_str(), c)),
        FixKind::DataDefault => built_or_insufficient_exec(build_default_block(table.as_str(), column.as_str(), c)),
        _ => built_or_insufficient_exec(build_comment_block(table.as_str(), column.as_str(), c)),
    }
}

/// What one selected discrepancy contributes to the script.
pub enum RowOutcome {
    /// A line for the skipped section.
    Skipped(Seq<char>),
    /// A block for `target`, deduplicated by `key`.
    Built { target: Seq<char>, key: Seq<char>, text: Seq<char> },
}

/// `#<n>: ` with `n` the one-based number of the discrepancy at `id`.
pub open spec fn tag(id: nat) -> Seq<char> {
    seq!['#'] + decimal(id + 1) + ": "@
}

/// The identity of a built block: target, trimmed table and column, kind and text.
pub open spec fn dedup_key(target: Seq<char>, row: DiscrepancyView, kind: FixKind, block: Seq<char>) -> Seq<char> {
    target + seq!['|'] + trim(row.table_name) + seq!['|'] + trim(row.column_name) + seq!['|'] + kind_name(kind)
        + seq!['|'] + block
}

/// The column a block is about, as its header names it.
pub open spec fn column_label(row: DiscrepancyView) -> Seq<char> {
    if trim(row.column_name).len() == 0 { "(table-level)"@ } else { row.column_name }
}

/// A block with its header: the one-based discrepancy number, the table and the column.
pub open spec fn annotated_block(id: nat, row: DiscrepancyView, block: Seq<char>) -> Seq<char> {
    "-- discrepancy #"@ + decimal(id + 1) + "\n-- table: "@ + row.table_name + "\n-- column: "@ + column_label(row)
        + seq!['\n'] + block
}

/// What the selected discrepancy at `id` contributes: skipped when it no longer
/// exists, cannot be fixed automatically, has no resolvable or loaded target server,
/// lacks a column name, or the reference metadata does not allow a safe statement;
/// otherwise its block for the target server.
pub open spec fn row_outcome(id: usize, discs: Seq<DiscrepancyView>, servers: ServersData, ddls: ServerTableDdls, reference: Seq<char>) -> RowOutcome {
    if id >= discs.len() {
        RowOutcome::Skipped(seq!['#'] + decimal(id as nat) + ": discrepancy no longer exists."@)
    } else {
        let row = discs[id as int];
        let kind = fix_kind(row);
        let t = tag(id as nat);
        if kind == FixKind::IndexName || kind == FixKind::ColumnName || kind == FixKind::Unsupported {
            RowOutcome::Skipped(t + skip_reason(kind))
        } else {
            match target_server(row, reference) {
                None => RowOutcome::Skipped(t + "could not resolve target server for this discrepancy."@),
                Some(wanted) => match loaded_name(servers, wanted) {
                    None => RowOutcome::Skipped(t + "target server '"@ + wanted + "' is not loaded in fetched data."@),
                    Some(target) => if kind != FixKind::MissingTable && trim(row.column_name).len() == 0 {
                        RowOutcome::Skipped(t + "missing column name, cannot generate statement safely."@)
                    } else {
                        let outcome = if kind == FixKind::MissingTable {
                            missing_table_block(row, servers, ddls, reference)
                        } else {
                            column_block(kind, row, servers, reference)
                        };
                        match outcome {
                            BlockOutcome::Skipped(m) => RowOutcome::Skipped(t + m),
                            BlockOutcome::Insufficient => RowOutcome::Skipped(t + "insufficient metadata to build a safe statement."@),
                            BlockOutcome::Built(b) => RowOutcome::Built {
                                target,
                                key: dedup_key(target, row, kind, b),
                                text: annotated_block(id as nat, row, b),
                            },
                        }
                    },
                },
            }
        }
    }
}

enum RowOut {
    Skipped(String),
    Built(String, String, String),
}

spec fn row_view(r: RowOut) -> RowOutcome {
    match r {
        RowOut::Skipped(m) => RowOutcome::Skipped(m@),
        RowOut::Built(t, k, x) => RowOutcome::Built { target: t@, key: k@, text: x@ },
    }
}

fn tag_exec(id: usize) -> (r: String)
    requires
        id < usize::MAX,
    ensures
        r@ == tag(id as nat),
{
    let mut r = String::new();
    push_char(&mut r, '#');
    let n = usize_decimal(id + 1);
    r.append(n.as_str());
    r.append(": ");
    r
}

fn row_outcome_exec(id: usize, discs: &[Discrepancy], servers: &ServersData, ddls: &ServerTableDdls, reference_server: &str) -> (r: RowOut)
    ensures
        row_view(r) == row_outcome(id, disc_views(discs@), *servers, *ddls, reference_server@),
{
    if id >= discs.len() {
        let mut m = String::new();
        push_char(&mut m, '#');
        let n = usize_decimal(id);
        m.append(n.as_str());
        m.append(": discrepancy no longer exists.");
        return RowOut::Skipped(m);
    }
    let row = &discs[id];
    assert(disc_views(discs@)[id as int] == row@);
    let kind = detect_fix_kind(row);
    let t = tag_exec(id);
    if kind == FixKind::IndexName || kind == FixKind::ColumnName || kind == FixKind::Unsupported {
        return RowOut::Skipped(prefixed(t.as_str(), classify_skip_reason(kind).to_string()));
    }
    let wanted = match resolve_target_server(row, reference_server) {
        Some(w) => w,
        None => return RowOut::Skipped(prefixed(t.as_str(), "could not resolve target server for this discrepancy.".to_string())),
    };
    let target = match resolve_loaded_server_name(servers, wanted.as_str()) {
        Some(n) => n,
        None => {
            let m = concat3("target server '", wanted.as_str(), "' is not loaded in fetched data.");
            let r = prefixed(t.as_str(), m);
            assert(r@ =~= t@ + "target server '"@ + wanted@ + "' is not loaded in fetched data."@);
            return RowOut::Skipped(r);
        },
    };
    let column_blank = is_blank(row.column_name.as_str());
    if kind != FixKind::MissingTable && column_blank {
        return RowOut::Skipped(prefixed(t.as_str(), "missing column name, cannot generate statement safely.".to_string()));
    }
    let outcome = if kind == FixKind::MissingTable {
        missing_table_block_exec(row, servers, ddls, reference_server)
    } else {
        column_block_exec(kind, row, servers, reference_server)
    };
    match outcome {
        BlockOut::Skipped(m) => RowOut::Skipped(prefixed(t.as_str(), m)),
        BlockOut::Insufficient => RowOut::Skipped(prefixed(t.as_str(), "insufficient metadata to build a safe statement.".to_string())),
        BlockOut::Built(b) => {
            let mut key = target.clone();
            push_char(&mut key, '|');
            let tt = trimmed(row.table_name.as_str());
            key.append(tt.as_str());
            push_char(&mut key, '|');
            let tc = trimmed(row.column_name.as_str());
            key.append(tc.as_str());
            push_char(&mut key, '|');
            key.append(kind_name_exec(kind));
            push_char(&mut key, '|');
            key.append(b.as_str());
            assert(key@ =~= dedup_key(target@, row@, kind, b@));
            let mut text = String::new();
            text.append("-- discrepancy #");
            let n = usize_decimal(id + 1);
            text.append(n.as_str());
            text.append("\n-- table: ");
            text.append(row.table_name.as_str());
            text.append("\n-- column: ");
            if column_blank {
                text.append("(table-level)");
            } else {
                text.append(row.column_name.as_str());
            }
            push_char(&mut text, '\n');
            text.append(b.as_str());
            assert(text@ =~= annotated_block(id as nat, row@, b@));
            RowOut::Built(target, key, text)
        },
    }
}

// ───────────────────────── the whole selection ─────────────────────────

/// The members of `ids` in ascending order.
pub open spec fn sorted_ids(ids: Set<usize>) -> Seq<usize> {
    choose|s: Seq<usize>| strictly_increasing(s) && s.to_set() == ids
}

/// Two ascending arrangements of one set are the same sequence.
pub proof fn lemma_increasing_unique(s: Seq<usize>, t: Seq<usize>)
    requires
        strictly_increasing(s),
        strictly_increasing(t),
        s.to_set() == t.to_set(),
    ensures
        s == t,
    decreases s.len(),
{
    if s.len() == 0 {
        if t.len() > 0 {
            assert(t.to_set().contains(t[0]));
        }
        assert(s =~= t);
    } else {
        assert(s.to_set().contains(s[0]));
        assert(t.to_set().contains(s[0]));
        let j = choose|j: int| 0 <= j < t.len() && t[j] == s[0];
        assert(s.to_set().contains(t[0]));
        let i = choose|i: int| 0 <= i < s.len() && s[i] == t[0];
        assert(s[0] <= s[i]);
        assert(t[0] <= t[j]);
        assert(s[0] == t[0]);
        let s1 = s.drop_first();
        let t1 = t.drop_first();
        assert forall|x: usize| s1.to_set().contains(x) <==> t1.to_set().contains(x) by {
            if s1.to_set().contains(x) {
                let a = choose|a: int| 0 <= a < s1.len() && s1[a] == x;
                assert(s[a + 1] == x && x != s[0]);
                assert(t.to_set().contains(x));
                let b = choose|b: int| 0 <= b < t.len() && t[b] == x;
                assert(b != 0);
                assert(t1[b - 1] == x);
            }
            if t1.to_set().contains(x) {
                let a = choose|a: int| 0 <= a < t1.len() && t1[a] == x;
                assert(t[a + 1] == x && x != t[0]);
                assert(s.to_set().contains(x));
                let b = choose|b: int| 0 <= b < s.len() && s[b] == x;
                assert(b != 0);
                assert(s1[b - 1] == x);
            }
        }
        assert(s1.to_set() =~= t1.to_set());
        lemma_increasing_unique(s1, t1);
        assert(s =~= seq![s[0]] + s1);
        assert(t =~= seq![t[0]] + t1);
    }
}

/// The members of `set` in ascending order.
pub fn sorted_selection(set: &HashSet<usize>) -> (r: Vec<usize>)
    ensures
        r@ == sorted_ids(set@),
        strictly_increasing(r@),
        r@.to_set() == set@,
{
    let v = ascending_ids(set);
    proof {
        let c = sorted_ids(set@);
        assert(strictly_increasing(c) && c.to_set() == set@);
        lemma_increasing_unique(v@, c);
    }
    v
}

/// The running tally of a fix script: counts, targets in order of first block, the
/// blocks with their targets, the skipped lines and the keys of the blocks so far.
pub struct FixState {
    pub generated: nat,
    pub skipped: nat,
    pub targets: Seq<Seq<char>>,
    pub blocks: Seq<(Seq<char>, Seq<char>)>,
    pub messages: Seq<Seq<char>>,
    pub seen: Seq<Seq<char>>,
}

/// Some element of `s` equals `x` ignoring ASCII case.
pub open spec fn has_ci(s: Seq<Seq<char>>, x: Seq<char>) -> bool {
    exists|i: int| 0 <= i < s.len() && eq_ci(#[trigger] s[i], x)
}

/// The tally after one more discrepancy: a skip is counted and its line kept; a block
/// whose key was seen before is dropped; a new one is counted and kept, and its
/// target is listed unless a target equal ignoring ASCII case already is.
pub open spec fn fix_step(st: FixState, out: RowOutcome) -> FixState {
    match out {
        RowOutcome::Skipped(m) => FixState {
            skipped: st.skipped + 1,
            messages: st.messages.push(m),
            ..st
        },
        RowOutcome::Built { target, key, text } => if st.seen.contains(key) {
            st
        } else {
            FixState {
                generated: st.generated + 1,
                targets: if has_ci(st.targets, target) { st.targets } else { st.targets.push(target) },
                blocks: st.blocks.push((target, text)),
                seen: st.seen.push(key),
                ..st
            }
        },
    }
}

/// The tally of the discrepancies `ids`, in that order.
pub open spec fn fix_fold(ids: Seq<usize>, discs: Seq<DiscrepancyView>, servers: ServersData, ddls: ServerTableDdls, reference: Seq<char>) -> FixState
    decreases ids.len(),
{
    if ids.len() == 0 {
        FixState {
            generated: 0,
            skipped: 0,
            targets: Seq::empty(),
            blocks: Seq::empty(),
            messages: Seq::empty(),
            seen: Seq::empty(),
        }
    } else {
        fix_step(fix_fold(ids.drop_last(), discs, servers, ddls, reference),
            row_outcome(ids.last(), discs, servers, ddls, reference))
    }
}

/// The texts of the blocks for `target` (ignoring ASCII case), in order.
pub open spec fn blocks_for(blocks: Seq<(Seq<char>, Seq<char>)>, target: Seq<char>) -> Seq<Seq<char>>
    decreases blocks.len(),
{
    if blocks.len() == 0 {
        Seq::empty()
    } else {
        let prev = blocks_for(blocks.drop_last(), target);
        if eq_ci(blocks.last().0, target) { prev.push(blocks.last().1) } else { prev }
    }
}

/// One section per target, separated by a blank line: a header and the target's
/// blocks separated by blank lines.
pub open spec fn groups_text(targets: Seq<Seq<char>>, blocks: Seq<(Seq<char>, Seq<char>)>) -> Seq<char>
    decreases targets.len(),
{
    if targets.len() == 0 {
        Seq::empty()
    } else {
        groups_text(targets.drop_last(), blocks) + (if targets.len() > 1 { seq!['\n'] } else { Seq::empty() })
            + "-- Target data source: "@ + targets.last() + "\n\n"@ + join(blocks_for(blocks, targets.last()), "\n\n"@)
            + seq!['\n']
    }
}

/// Each skipped line as a comment.
pub open spec fn skipped_text(messages: Seq<Seq<char>>) -> Seq<char>
    decreases messages.len(),
{
    if messages.len() == 0 {
        Seq::empty()
    } else {
        skipped_text(messages.drop_last()) + "-- "@ + messages.last() + seq!['\n']
    }
}

/// The script of a tally: a header naming the reference server, the sections per
/// target (or a note that nothing was generated), then the skipped lines if any.
pub open spec fn script_text(reference: Seq<char>, st: FixState) -> Seq<char> {
    "-- Reference server: "@ + reference + seq!['\n'] + "-- Review carefully before execution.\n\n"@
        + (if st.blocks.len() == 0 {
            "-- No executable fix statements were generated for the current selection.\n"@
        } else {
            groups_text(st.targets, st.blocks)
        })
        + (if st.messages.len() == 0 {
            Seq::empty()
        } else {
            "\n-- Skipped discrepancies\n"@ + skipped_text(st.messages)
        })
}

/// The outcome of fixing the selection `ids`: an error for an empty selection or a
/// reference server that is not loaded; otherwise the script with the numbers of
/// generated and skipped discrepancies, the discrepancies taken in ascending order.
pub open spec fn fix_script(discs: Seq<DiscrepancyView>, ids: Set<usize>, servers: ServersData, ddls: ServerTableDdls, reference: Seq<char>) -> Result<(Seq<char>, nat, nat), Seq<char>> {
    if ids == Set::<usize>::empty() {
        Err("Select at least one discrepancy first."@)
    } else if !servers.has(reference) {
        Err("Reference server '"@ + reference + "' is not loaded in current fetch data."@)
    } else {
        let st = fix_fold(sorted_ids(ids), discs, servers, ddls, reference);
        Ok((script_text(reference, st), st.generated, st.skipped))
    }
}

/// A generated fix script with the numbers of generated and skipped discrepancies.
pub struct FixScriptResult {
    pub script: String,
    pub generated_count: usize,
    pub skipped_count: usize,
}

/// The characters and counts of a fix-script outcome.
pub open spec fn fix_result_view(r: Result<FixScriptResult, String>) -> Result<(Seq<char>, nat, nat), Seq<char>> {
    match r {
        Ok(res) => Ok((res.script@, res.generated_count as nat, res.skipped_count as nat)),
        Err(e) => Err(e@),
    }
}

spec fn pair_texts(v: Seq<(String, String)>) -> Seq<(Seq<char>, Seq<char>)> {
    v.map_values(|p: (String, String)| (p.0@, p.1@))
}

fn has_ci_exec(v: &Vec<String>, x: &str) -> (r: bool)
    ensures
        r == has_ci(texts(v@), x@),
{
    let mut i: usize = 0;
    while i < v.len()
        invariant
            i <= v.len(),
            forall|j: int| 0 <= j < i ==> !eq_ci(#[trigger] texts(v@)[j], x@),
        decreases v.len() - i,
    {
        if eq_ignore_case(v[i].as_str(), x) {
            assert(eq_ci(texts(v@)[i as int], x@));
            return true;
        }
        i += 1;
    }
    false
}

fn blocks_for_exec(blocks: &Vec<(String, String)>, target: &str) -> (r: Vec<String>)
    ensures
        texts(r@) == blocks_for(pair_texts(blocks@), target@),
{
    let ghost bs = pair_texts(blocks@);
    let mut r: Vec<String> = Vec::new();
    let mut i: usize = 0;
    assert(bs.take(0) =~= Seq::<(Seq<char>, Seq<char>)>::empty());
    while i < blocks.len()
        invariant
            i <= blocks.len(),
            bs == pair_texts(blocks@),
            texts(r@) == blocks_for(bs.take(i as int), target@),
        decreases blocks.len() - i,
    {
        assert(bs.take(i + 1).drop_last() =~= bs.take(i as int));
        assert(bs.take(i + 1).last() == (blocks@[i as int].0@, blocks@[i as int].1@));
        if eq_ignore_case(blocks[i].0.as_str(), target) {
            let ghost before = r@;
            r.push(blocks[i].1.clone());
            assert(texts(r@) =~= texts(before).push(blocks@[i as int].1@));
        }
        i += 1;
    }
    assert(bs.take(blocks.len() as int) =~= bs);
    r
}

fn script_exec(reference_server: &str, targets: &Vec<String>, blocks: &Vec<(String, String)>, messages: &Vec<String>) -> (r: String)
    ensures
        r@ == script_text(reference_server@, FixState {
            generated: 0,
            skipped: 0,
            targets: texts(targets@),
            blocks: pair_texts(blocks@),
            messages: texts(messages@),
            seen: Seq::empty(),
        }),
{
    let ghost ts = texts(targets@);
    let ghost bs = pair_texts(blocks@);
    let ghost ms = texts(messages@);
    let mut script = String::new();
    script.append("-- Reference server: ");
    script.append(reference_server);
    push_char(&mut script, '\n');
    script.append("-- Review carefully before execution.\n\n");
    let ghost head = script@;
    if blocks.len() == 0 {
        script.append("-- No executable fix statements were generated for the current selection.\n");
    } else {
        let mut k: usize = 0;
        assert(ts.take(0) =~= Seq::<Seq<char>>::empty());
        while k < targets.len()
            invariant
                k <= targets.len(),
                ts == texts(targets@),
                bs == pair_texts(blocks@),
                script@ == head + groups_text(ts.take(k as int), bs),
            decreases targets.len() - k,
        {
            assert(ts.take(k + 1).drop_last() =~= ts.take(k as int));
            assert(ts.take(k + 1).last() == targets@[k as int]@);
            let ghost before = script@;
            if k > 0 {
                push_char(&mut script, '\n');
            }
            script.append("-- Target data source: ");
            script.append(targets[k].as_str());
            script.append("\n\n");
            let mine = blocks_for_exec(blocks, targets[k].as_str());
            let joined = join_exec(&mine, "\n\n");
            script.append(joined.as_str());
            push_char(&mut script, '\n');
            assert(script@ =~= head + groups_text(ts.take(k + 1), bs));
            k += 1;
        }
        assert(ts.take(targets.len() as int) =~= ts);
    }
    let ghost mid = script@;
    if messages.len() > 0 {
        script.append("\n-- Skipped discrepancies\n");
        let ghost start = script@;
        let mut i: usize = 0;
        assert(ms.take(0) =~= Seq::<Seq<char>>::empty());
        while i < messages.len()
            invariant
                i <= messages.len(),
                ms == texts(messages@),
                script@ == start + skipped_text(ms.take(i as int)),
            decreases messages.len() - i,
        {
            assert(ms.take(i + 1).drop_last() =~= ms.take(i as int));
            assert(ms.take(i + 1).last() == messages@[i as int]@);
            script.append("-- ");
            script.append(messages[i].as_str());
            push_char(&mut script, '\n');
            i += 1;
        }
        assert(ms.take(messages.len() as int) =~= ms);
    }
    script
}

/// An idempotent PL/SQL script that brings the target servers of the selected
/// discrepancies in line with the reference server. Fails on an empty selection and
/// on a reference server that is not loaded; otherwise reports how many
/// discrepancies produced a block and how many were skipped, and why.
pub fn generate_fix_script(
    discrepancies: &[Discrepancy],
    selected_ids: &HashSet<usize>,
    servers: &ServersData,
    server_table_ddls: &ServerTableDdls,
    reference_server: &str,
) -> (r: Result<FixScriptResult, String>)
    ensures
        fix_result_view(r) == fix_script(disc_views(discrepancies@), selected_ids@, *servers, *server_table_ddls,
            reference_server@),
{
    let ids = sorted_selection(selected_ids);
    if ids.len() == 0 {
        assert(ids@.to_set() =~= Set::<usize>::empty());
        return Err("Select at least one discrepancy first.".to_string());
    }
    assert(ids@.to_set().contains(ids@[0]));
    assert(selected_ids@ != Set::<usize>::empty());
    if !servers.contains_key(reference_server) {
        return Err(concat3("Reference server '", reference_server, "' is not loaded in current fetch data."));
    }
    let ghost discs = disc_views(discrepancies@);
    let mut generated_count: usize = 0;
    let mut skipped_count: usize = 0;
    let mut targets: Vec<String> = Vec::new();
    let mut blocks: Vec<(String, String)> = Vec::new();
    let mut messages: Vec<String> = Vec::new();
    let mut seen: Vec<String> = Vec::new();
    let mut i: usize = 0;
    assert(ids@.take(0) =~= Seq::<usize>::empty());
    assert(pair_texts(blocks@) =~= Seq::<(Seq<char>, Seq<char>)>::empty());
    assert(texts(targets@) =~= Seq::<Seq<char>>::empty());
    while i < ids.len()
        invariant
            i <= ids.len(),
            discs == disc_views(discrepancies@),
            generated_count + skipped_count <= i,
            fix_fold(ids@.take(i as int), discs, *servers, *server_table_ddls, reference_server@) == (FixState {
                generated: generated_count as nat,
                skipped: skipped_count as nat,
                targets: texts(targets@),
                blocks: pair_texts(blocks@),
                messages: texts(messages@),
                seen: texts(seen@),
            }),
        decreases ids.len() - i,
    {
        let id = ids[i];
        assert(ids@.take(i + 1).drop_last() =~= ids@.take(i as int));
        assert(ids@.take(i + 1).last() == id);
        let out = row_outcome_exec(id, discrepancies, servers, server_table_ddls, reference_server);
        match out {
            RowOut::Skipped(m) => {
                skipped_count += 1;
                let ghost before = messages@;
                messages.push(m);
                assert(texts(messages@) =~= texts(before).push(m@));
            },
            RowOut::Built(target, key, text) => {
                if !contains_text(&seen, key.as_str()) {
                    generated_count += 1;
                    if !has_ci_exec(&targets, target.as_str()) {
                        let ghost before = targets@;
                        targets.push(target.clone());
                        assert(texts(targets@) =~= texts(before).push(target@));
                    }
                    let ghost bb = blocks@;
                    let ghost sb = seen@;
                    blocks.push((target, text));
                    assert(pair_texts(blocks@) =~= pair_texts(bb).push((target@, text@)));
                    seen.push(key);
                    assert(texts(seen@) =~= texts(sb).push(key@));
                }
            },
        }
        i += 1;
    }
    assert(ids@.take(ids.len() as int) =~= ids@);
    let script = script_exec(reference_server, &targets, &blocks, &messages);
    Ok(FixScriptResult { script, generated_count, skipped_count })
}

/// Whether some selected discrepancy that still exists is a missing table, whose fix
/// needs the reference table's full DDL.
pub open spec fn needs_table_ddl(discs: Seq<DiscrepancyView>, ids: Set<usize>) -> bool {
    exists|id: usize| ids.contains(id) && id < discs.len() && fix_kind(#[trigger] discs[id as int]) == FixKind::MissingTable
}

/// Whether some selected discrepancy that still exists is a missing table.
pub fn selection_requires_reference_table_ddl(discrepancies: &[Discrepancy], selected_ids: &HashSet<usize>) -> (r: bool)
    ensures
        r == needs_table_ddl(disc_views(discrepancies@), selected_ids@),
{
    let ids = ascending_ids(selected_ids);
    let ghost discs = disc_views(discrepancies@);
    let mut i: usize = 0;
    while i < ids.len()
        invariant
            i <= ids.len(),
            discs == disc_views(discrepancies@),
            ids@.to_set() == selected_ids@,
            forall|k: int| 0 <= k < i ==> !(ids@[k] < discs.len() && fix_kind(#[trigger] discs[ids@[k] as int]) == FixKind::MissingTable),
        decreases ids.len() - i,
    {
        let id = ids[i];
        if id < discrepancies.len() {
            assert(discs[id as int] == discrepancies@[id as int]@);
            if detect_fix_kind(&discrepancies[id]) == FixKind::MissingTable {
                assert(ids@[i as int] == id);
                assert(ids@.to_set().contains(id));
                assert(selected_ids@.contains(id));
                assert(fix_kind(discs[id as int]) == FixKind::MissingTable);
                return true;
            }
        }
        i += 1;
    }
    proof {
        if needs_table_ddl(discs, selected_ids@) {
            let id = choose|id: usize| selected_ids@.contains(id) && id < discs.len() && fix_kind(#[trigger] discs[id as int]) == FixKind::MissingTable;
            assert(ids@.to_set().contains(id));
            let k = choose|k: int| 0 <= k < ids@.len() && ids@[k] == id;
            assert(!(ids@[k] < discs.len() && fix_kind(discs[ids@[k] as int]) == FixKind::MissingTable));
        }
    }
    false
}

} // verus!
