//! Schema comparison: every difference between the reference server and the other
//! loaded servers, table by table and column by column.
use vstd::prelude::*;
use crate::models::{
    ColumnInfo, Discrepancy, DiscrepancyView, ServerTables, ServersData, TableColumns, disc_views, opt_view,
    push_discrepancy, distinct_keys, key_index, lemma_key_index, lemma_key_index_of_distinct,
};
use crate::text::{eq_ci, eq_ignore_case, to_uppercase, unicode_upper};

verus! {

// ───────────────────────── value comparison ─────────────────────────

/// Both absent, or both present and equal ignoring ASCII case.
pub open spec fn equal_ci_spec(l: Option<Seq<char>>, r: Option<Seq<char>>) -> bool {
    match (l, r) {
        (None, None) => true,
        (Some(a), Some(b)) => eq_ci(a, b),
        _ => false,
    }
}

/// Two index names that are both present, non-empty and not `none` (ignoring case):
/// a difference between two real indexes, which the comparison does not report.
pub open spec fn skip_index_diff_spec(l: Option<Seq<char>>, r: Option<Seq<char>>) -> bool {
    match (l, r) {
        (Some(a), Some(b)) => !eq_ci(a, "none"@) && !eq_ci(b, "none"@) && a.len() != 0 && b.len() != 0,
        _ => false,
    }
}

/// Both absent, or both present and equal ignoring ASCII case.
pub fn equal_ci(left: &Option<String>, right: &Option<String>) -> (r: bool)
    ensures
        r == equal_ci_spec(opt_view(*left), opt_view(*right)),
{
    match (left, right) {
        (None, None) => true,
        (Some(l), Some(r)) => eq_ignore_case(l.as_str(), r.as_str()),
        _ => false,
    }
}

/// Whether an index-name difference is one between two real indexes, which is not
/// reported.
pub fn skip_index_diff(left: &Option<String>, right: &Option<String>) -> (r: bool)
    ensures
        r == skip_index_diff_spec(opt_view(*left), opt_view(*right)),
{
    match (left, right) {
        (Some(l), Some(r)) => {
            !eq_ignore_case(l.as_str(), "none") && !eq_ignore_case(r.as_str(), "none")
                && !l.as_str().is_empty() && !r.as_str().is_empty()
        },
        _ => false,
    }
}

// ───────────────────────── row shapes ─────────────────────────

pub open spec fn row(
    difference: Seq<char>,
    element: Seq<char>,
    table: Seq<char>,
    column: Seq<char>,
    server: Seq<char>,
    details: Seq<char>,
) -> DiscrepancyView {
    DiscrepancyView {
        difference,
        element,
        table_name: table,
        column_name: column,
        server_name: server,
        details,
    }
}

pub open spec fn or_text(o: Option<Seq<char>>, d: Seq<char>) -> Seq<char> {
    match o {
        Some(s) => s,
        None => d,
    }
}

/// The details of a field difference: `TYPE(len) != TYPE(len)` for the length, else
/// `FIELD: ref != cur`.
pub open spec fn field_details(
    key: Seq<char>,
    rv: Option<Seq<char>>,
    cv: Option<Seq<char>>,
    ref_type: Option<Seq<char>>,
    cur_type: Option<Seq<char>>,
) -> Seq<char> {
    if key == "DATA_LENGTH"@ {
        or_text(ref_type, "?"@) + "("@ + or_text(rv, "NULL"@) + ") != "@ + or_text(cur_type, "?"@) + "("@
            + or_text(cv, "NULL"@) + ")"@
    } else {
        key + ": "@ + or_text(rv, "NULL"@) + " != "@ + or_text(cv, "NULL"@)
    }
}

/// The `DIFFERENT` row of one field, if it is compared and differs.
pub open spec fn field_rows(
    key: Seq<char>,
    compared: bool,
    rv: Option<Seq<char>>,
    cv: Option<Seq<char>>,
    ref_type: Option<Seq<char>>,
    cur_type: Option<Seq<char>>,
    table: Seq<char>,
    column: Seq<char>,
    server: Seq<char>,
) -> Seq<DiscrepancyView> {
    if compared && !equal_ci_spec(rv, cv) {
        seq![row("DIFFERENT"@, key, table, column, server, field_details(key, rv, cv, ref_type, cur_type))]
    } else {
        seq![]
    }
}

/// The rows for one column present on both sides: the six fields in order, comments
/// only when `cc`, index names only when `ci` and not both real indexes.
pub open spec fn column_rows(
    r: ColumnInfo,
    c: ColumnInfo,
    cc: bool,
    ci: bool,
    table: Seq<char>,
    column: Seq<char>,
    server: Seq<char>,
) -> Seq<DiscrepancyView> {
    let rt = opt_view(r.data_type);
    let ct = opt_view(c.data_type);
    field_rows("COLUMN_NAME"@, true, opt_view(r.column_name), opt_view(c.column_name), rt, ct, table, column, server)
        + field_rows("DATA_TYPE"@, true, rt, ct, rt, ct, table, column, server)
        + field_rows("DATA_LENGTH"@, true, opt_view(r.data_length), opt_view(c.data_length), rt, ct, table, column, server)
        + field_rows("DATA_DEFAULT"@, true, opt_view(r.data_default), opt_view(c.data_default), rt, ct, table, column, server)
        + field_rows("COMMENTS"@, cc, opt_view(r.comments), opt_view(c.comments), rt, ct, table, column, server)
        + field_rows("INDEX_NAME"@, ci && !skip_index_diff_spec(opt_view(r.index_name), opt_view(c.index_name)),
            opt_view(r.index_name), opt_view(c.index_name), rt, ct, table, column, server)
}

/// Rows for the reference columns `refs` against the current table `cur`.
pub open spec fn ref_column_rows(
    refs: Seq<(String, ColumnInfo)>,
    cur: TableColumns,
    cc: bool,
    ci: bool,
    table: Seq<char>,
    server: Seq<char>,
    ref_up: Seq<char>,
    server_up: Seq<char>,
) -> Seq<DiscrepancyView>
    decreases refs.len(),
{
    if refs.len() == 0 {
        seq![]
    } else {
        let (name, info) = refs.last();
        ref_column_rows(refs.drop_last(), cur, cc, ci, table, server, ref_up, server_up) + match cur.lookup(name@) {
            None => seq![row("MISSING"@, "COLUMN"@, table, name@, server,
                "Column found in reference server "@ + ref_up + " but not in server "@ + server_up)],
            Some(c) => column_rows(info, c, cc, ci, table, name@, server),
        }
    }
}

/// Rows for the columns of `curs` that the reference table `refc` lacks.
pub open spec fn extra_column_rows(
    curs: Seq<(String, ColumnInfo)>,
    refc: TableColumns,
    table: Seq<char>,
    server: Seq<char>,
    ref_up: Seq<char>,
    server_up: Seq<char>,
) -> Seq<DiscrepancyView>
    decreases curs.len(),
{
    if curs.len() == 0 {
        seq![]
    } else {
        let name = curs.last().0;
        extra_column_rows(curs.drop_last(), refc, table, server, ref_up, server_up) + if refc.has(name@) {
            seq![]
        } else {
            seq![row("MISSING"@, "COLUMN"@, table, name@, server,
                "Column "@ + name@ + " found in server "@ + server_up + " but not in reference server "@ + ref_up)]
        }
    }
}

/// Rows of one non-reference server for a table the reference has.
pub open spec fn server_rows(
    tables: ServerTables,
    refc: TableColumns,
    cc: bool,
    ci: bool,
    table: Seq<char>,
    server: Seq<char>,
    ref_up: Seq<char>,
) -> Seq<DiscrepancyView> {
    let server_up = unicode_upper(server);
    match tables.lookup(table) {
        None => seq![row("MISSING"@, "TABLE"@, table, seq![], server,
            "Table found in reference server "@ + ref_up + " but not in server "@ + server_up)],
        Some(cur) => ref_column_rows(refc.items(), cur, cc, ci, table, server, ref_up, server_up)
            + extra_column_rows(cur.items(), refc, table, server, ref_up, server_up),
    }
}

/// Rows of the servers `srvs` for a table the reference has.
pub open spec fn servers_vs_ref(
    srvs: Seq<(String, ServerTables)>,
    reference: Seq<char>,
    refc: TableColumns,
    cc: bool,
    ci: bool,
    table: Seq<char>,
) -> Seq<DiscrepancyView>
    decreases srvs.len(),
{
    if srvs.len() == 0 {
        seq![]
    } else {
        let (name, tables) = srvs.last();
        servers_vs_ref(srvs.drop_last(), reference, refc, cc, ci, table) + if name@ == reference {
            seq![]
        } else {
            server_rows(tables, refc, cc, ci, table, name@, unicode_upper(reference))
        }
    }
}

/// Rows of the servers `srvs` for a table the reference lacks: every server that has it.
pub open spec fn servers_missing_ref(
    srvs: Seq<(String, ServerTables)>,
    reference: Seq<char>,
    table: Seq<char>,
) -> Seq<DiscrepancyView>
    decreases srvs.len(),
{
    if srvs.len() == 0 {
        seq![]
    } else {
        let (name, tables) = srvs.last();
        servers_missing_ref(srvs.drop_last(), reference, table) + if name@ != reference && tables.has(table) {
            seq![row("MISSING"@, "TABLE"@, table, seq![], name@,
                "Table "@ + table + " found in server "@ + unicode_upper(name@) + " but not in reference server "@
                    + unicode_upper(reference))]
        } else {
            seq![]
        }
    }
}

/// All rows for one table name.
pub open spec fn table_rows(servers: ServersData, reference: Seq<char>, cc: bool, ci: bool, table: Seq<char>) -> Seq<DiscrepancyView> {
    let reft = servers.lookup(reference).unwrap();
    match reft.lookup(table) {
        None => servers_missing_ref(servers.items(), reference, table),
        Some(refc) => servers_vs_ref(servers.items(), reference, refc, cc, ci, table),
    }
}

/// The names in `names` not yet in `acc`, appended in order.
pub open spec fn add_new_names(acc: Seq<Seq<char>>, names: Seq<(String, TableColumns)>) -> Seq<Seq<char>>
    decreases names.len(),
{
    if names.len() == 0 {
        acc
    } else {
        let a = add_new_names(acc, names.drop_last());
        let n = names.last().0@;
        if a.contains(n) { a } else { a.push(n) }
    }
}

/// Every table name of every server, once each, in order of first appearance.
pub open spec fn all_table_names(srvs: Seq<(String, ServerTables)>) -> Seq<Seq<char>>
    decreases srvs.len(),
{
    if srvs.len() == 0 {
        seq![]
    } else {
        add_new_names(all_table_names(srvs.drop_last()), srvs.last().1.items())
    }
}

pub open spec fn rows_for_tables(
    servers: ServersData,
    reference: Seq<char>,
    cc: bool,
    ci: bool,
    tables: Seq<Seq<char>>,
) -> Seq<DiscrepancyView>
    decreases tables.len(),
{
    if tables.len() == 0 {
        seq![]
    } else {
        rows_for_tables(servers, reference, cc, ci, tables.drop_last()) + table_rows(servers, reference, cc, ci, tables.last())
    }
}

/// Every discrepancy between the reference server and the others.
pub open spec fn compare_spec(servers: ServersData, reference: Seq<char>, cc: bool, ci: bool) -> Seq<DiscrepancyView> {
    rows_for_tables(servers, reference, cc, ci, all_table_names(servers.items()))
}


// ───────────────────────── executable comparison ─────────────────────────

fn or_text_exec(o: &Option<String>, d: &str) -> (r: String)
    ensures
        r@ == or_text(opt_view(*o), d@),
{
    match o {
        Some(s) => s.clone(),
        None => String::from_str(d),
    }
}

/// Appends the row of one field when it is compared and differs.
fn check_field(
    out: &mut Vec<Discrepancy>,
    key: &str,
    compared: bool,
    rv: &Option<String>,
    cv: &Option<String>,
    rt: &Option<String>,
    ct: &Option<String>,
    table: &str,
    column: &str,
    server: &str,
)
    ensures
        disc_views(final(out)@) == disc_views(old(out)@) + field_rows(
            key@, compared, opt_view(*rv), opt_view(*cv), opt_view(*rt), opt_view(*ct), table@, column@, server@,
        ),
{
    if compared && !equal_ci(rv, cv) {
        let rvs = or_text_exec(rv, "NULL");
        let cvs = or_text_exec(cv, "NULL");
        let mut details = String::new();
        if crate::text::same_text(key, "DATA_LENGTH") {
            let rts = or_text_exec(rt, "?");
            let cts = or_text_exec(ct, "?");
            details.append(rts.as_str());
            details.append("(");
            details.append(rvs.as_str());
            details.append(") != ");
            details.append(cts.as_str());
            details.append("(");
            details.append(cvs.as_str());
            details.append(")");
        } else {
            details.append(key);
            details.append(": ");
            details.append(rvs.as_str());
            details.append(" != ");
            details.append(cvs.as_str());
        }
        assert(details@ =~= field_details(key@, opt_view(*rv), opt_view(*cv), opt_view(*rt), opt_view(*ct)));
        let d = Discrepancy {
            difference: String::from_str("DIFFERENT"),
            element: String::from_str(key),
            table_name: String::from_str(table),
            column_name: String::from_str(column),
            server_name: String::from_str(server),
            details,
        };
        let ghost before = disc_views(out@);
        push_discrepancy(out, d);
        assert(disc_views(out@) =~= before + field_rows(
            key@, compared, opt_view(*rv), opt_view(*cv), opt_view(*rt), opt_view(*ct), table@, column@, server@,
        ));
    } else {
        assert(disc_views(out@) =~= disc_views(out@) + Seq::<DiscrepancyView>::empty());
    }
}

/// Appends the rows of one column present on both sides.
fn check_column(
    out: &mut Vec<Discrepancy>,
    r: &ColumnInfo,
    c: &ColumnInfo,
    cc: bool,
    ci: bool,
    table: &str,
    column: &str,
    server: &str,
)
    ensures
        disc_views(final(out)@) == disc_views(old(out)@) + column_rows(*r, *c, cc, ci, table@, column@, server@),
{
    let ghost o = disc_views(out@);
    let ghost rt = opt_view(r.data_type);
    let ghost ct = opt_view(c.data_type);
    check_field(out, "COLUMN_NAME", true, &r.column_name, &c.column_name, &r.data_type, &c.data_type, table, column, server);
    check_field(out, "DATA_TYPE", true, &r.data_type, &c.data_type, &r.data_type, &c.data_type, table, column, server);
    check_field(out, "DATA_LENGTH", true, &r.data_length, &c.data_length, &r.data_type, &c.data_type, table, column, server);
    check_field(out, "DATA_DEFAULT", true, &r.data_default, &c.data_default, &r.data_type, &c.data_type, table, column, server);
    check_field(out, "COMMENTS", cc, &r.comments, &c.comments, &r.data_type, &c.data_type, table, column, server);
    let idx = ci && !skip_index_diff(&r.index_name, &c.index_name);
    check_field(out, "INDEX_NAME", idx, &r.index_name, &c.index_name, &r.data_type, &c.data_type, table, column, server);
    assert(disc_views(out@) =~= o + column_rows(*r, *c, cc, ci, table@, column@, server@));
}

/// Appends the rows of the reference columns against the current table.
fn check_ref_columns(
    out: &mut Vec<Discrepancy>,
    refc: &TableColumns,
    cur: &TableColumns,
    cc: bool,
    ci: bool,
    table: &str,
    server: &str,
    ref_up: &str,
    server_up: &str,
)
    ensures
        disc_views(final(out)@) == disc_views(old(out)@) + ref_column_rows(
            refc.items(), *cur, cc, ci, table@, server@, ref_up@, server_up@,
        ),
{
    let ghost o = disc_views(out@);
    let n = refc.len();
    let mut i: usize = 0;
    while i < n
        invariant
            i <= n == refc.items().len(),
            disc_views(out@) == o + ref_column_rows(refc.items().take(i as int), *cur, cc, ci, table@, server@, ref_up@, server_up@),
        decreases n - i,
    {
        assert(refc.items().take(i + 1).drop_last() =~= refc.items().take(i as int));
        let name = refc.key(i);
        let info = refc.value(i);
        let ghost before = disc_views(out@);
        match cur.get(name.as_str()) {
            None => {
                let mut details = String::new();
                details.append("Column found in reference server ");
                details.append(ref_up);
                details.append(" but not in server ");
                details.append(server_up);
                let d = Discrepancy {
                    difference: String::from_str("MISSING"),
                    element: String::from_str("COLUMN"),
                    table_name: String::from_str(table),
                    column_name: name.clone(),
                    server_name: String::from_str(server),
                    details,
                };
                push_discrepancy(out, d);
            },
            Some(c) => {
                check_column(out, info, c, cc, ci, table, name.as_str(), server);
            },
        }
        assert(disc_views(out@) =~= o + ref_column_rows(refc.items().take(i + 1), *cur, cc, ci, table@, server@, ref_up@, server_up@));
        i += 1;
    }
    assert(refc.items().take(n as int) =~= refc.items());
}

/// Appends a row for every current column the reference table lacks.
fn check_extra_columns(
    out: &mut Vec<Discrepancy>,
    cur: &TableColumns,
    refc: &TableColumns,
    table: &str,
    server: &str,
    ref_up: &str,
    server_up: &str,
)
    ensures
        disc_views(final(out)@) == disc_views(old(out)@) + extra_column_rows(
            cur.items(), *refc, table@, server@, ref_up@, server_up@,
        ),
{
    let ghost o = disc_views(out@);
    let n = cur.len();
    let mut i: usize = 0;
    while i < n
        invariant
            i <= n == cur.items().len(),
            disc_views(out@) == o + extra_column_rows(cur.items().take(i as int), *refc, table@, server@, ref_up@, server_up@),
        decreases n - i,
    {
        assert(cur.items().take(i + 1).drop_last() =~= cur.items().take(i as int));
        let name = cur.key(i);
        if !refc.contains_key(name.as_str()) {
            let mut details = String::new();
            details.append("Column ");
            details.append(name.as_str());
            details.append(" found in server ");
            details.append(server_up);
            details.append(" but not in reference server ");
            details.append(ref_up);
            let d = Discrepancy {
                difference: String::from_str("MISSING"),
                element: String::from_str("COLUMN"),
                table_name: String::from_str(table),
                column_name: name.clone(),
                server_name: String::from_str(server),
                details,
            };
            push_discrepancy(out, d);
        }
        assert(disc_views(out@) =~= o + extra_column_rows(cur.items().take(i + 1), *refc, table@, server@, ref_up@, server_up@));
        i += 1;
    }
    assert(cur.items().take(n as int) =~= cur.items());
}

/// Appends the rows of one non-reference server for a table the reference has.
fn check_server(
    out: &mut Vec<Discrepancy>,
    tables: &ServerTables,
    refc: &TableColumns,
    cc: bool,
    ci: bool,
    table: &str,
    server: &str,
    ref_up: &str,
)
    ensures
        disc_views(final(out)@) == disc_views(old(out)@) + server_rows(*tables, *refc, cc, ci, table@, server@, ref_up@),
{
    let server_up = to_uppercase(server);
    let ghost o = disc_views(out@);
    match tables.get(table) {
        None => {
            let mut details = String::new();
            details.append("Table found in reference server ");
            details.append(ref_up);
            details.append(" but not in server ");
            details.append(server_up.as_str());
            let d = Discrepancy {
                difference: String::from_str("MISSING"),
                element: String::from_str("TABLE"),
                table_name: String::from_str(table),
                column_name: String::new(),
                server_name: String::from_str(server),
                details,
            };
            push_discrepancy(out, d);
            assert(disc_views(out@) =~= o + server_rows(*tables, *refc, cc, ci, table@, server@, ref_up@));
        },
        Some(cur) => {
            check_ref_columns(out, refc, cur, cc, ci, table, server, ref_up, server_up.as_str());
            check_extra_columns(out, cur, refc, table, server, ref_up, server_up.as_str());
            assert(disc_views(out@) =~= o + server_rows(*tables, *refc, cc, ci, table@, server@, ref_up@));
        },
    }
}

/// Appends the rows of every table name in `names`.
fn check_tables(
    out: &mut Vec<Discrepancy>,
    servers: &ServersData,
    reference: &str,
    cc: bool,
    ci: bool,
    names: &Vec<String>,
)
    requires
        servers.has(reference@),
    ensures
        disc_views(final(out)@) == disc_views(old(out)@) + rows_for_tables(
            *servers, reference@, cc, ci, names@.map_values(|s: String| s@),
        ),
{
    let ghost o = disc_views(out@);
    let ghost nv = names@.map_values(|s: String| s@);
    let reft = servers.get(reference).unwrap();
    let ref_up = to_uppercase(reference);
    let n = servers.len();
    let mut t: usize = 0;
    while t < names.len()
        invariant
            t <= names.len(),
            n == servers.items().len(),
            nv == names@.map_values(|s: String| s@),
            servers.lookup(reference@) == Some(*reft),
            ref_up@ == unicode_upper(reference@),
            disc_views(out@) == o + rows_for_tables(*servers, reference@, cc, ci, nv.take(t as int)),
        decreases names.len() - t,
    {
        assert(nv.take(t + 1).drop_last() =~= nv.take(t as int));
        let table = names[t].as_str();
        let ghost before = disc_views(out@);
        match reft.get(table) {
            None => {
                let mut k: usize = 0;
                while k < n
                    invariant
                        k <= n == servers.items().len(),
                        disc_views(out@) == before + servers_missing_ref(servers.items().take(k as int), reference@, table@),
                        ref_up@ == unicode_upper(reference@),
                    decreases n - k,
                {
                    assert(servers.items().take(k + 1).drop_last() =~= servers.items().take(k as int));
                    let name = servers.key(k);
                    let tables = servers.value(k);
                    if !crate::text::same_text(name.as_str(), reference) && tables.contains_key(table) {
                        let up = to_uppercase(name.as_str());
                        let mut details = String::new();
                        details.append("Table ");
                        details.append(table);
                        details.append(" found in server ");
                        details.append(up.as_str());
                        details.append(" but not in reference server ");
                        details.append(ref_up.as_str());
                        assert(details@ =~= "Table "@ + table@ + " found in server "@ + unicode_upper(name@)
                            + " but not in reference server "@ + unicode_upper(reference@));
                        let d = Discrepancy {
                            difference: String::from_str("MISSING"),
                            element: String::from_str("TABLE"),
                            table_name: String::from_str(table),
                            column_name: String::new(),
                            server_name: name.clone(),
                            details,
                        };
                        push_discrepancy(out, d);
                    }
                    assert(disc_views(out@) =~= before + servers_missing_ref(servers.items().take(k + 1), reference@, table@));
                    k += 1;
                }
                assert(servers.items().take(n as int) =~= servers.items());
            },
            Some(refc) => {
                let mut k: usize = 0;
                while k < n
                    invariant
                        k <= n == servers.items().len(),
                        disc_views(out@) == before + servers_vs_ref(servers.items().take(k as int), reference@, *refc, cc, ci, table@),
                        ref_up@ == unicode_upper(reference@),
                    decreases n - k,
                {
                    assert(servers.items().take(k + 1).drop_last() =~= servers.items().take(k as int));
                    let name = servers.key(k);
                    let tables = servers.value(k);
                    if !crate::text::same_text(name.as_str(), reference) {
                        check_server(out, tables, refc, cc, ci, table, name.as_str(), ref_up.as_str());
                    }
                    assert(disc_views(out@) =~= before + servers_vs_ref(servers.items().take(k + 1), reference@, *refc, cc, ci, table@));
                    k += 1;
                }
                assert(servers.items().take(n as int) =~= servers.items());
            },
        }
        assert(disc_views(out@) =~= o + rows_for_tables(*servers, reference@, cc, ci, nv.take(t + 1)));
        t += 1;
    }
    assert(nv.take(names.len() as int) =~= nv);
}

/// Every table name of every server, once each, in order of first appearance.
fn collect_table_names(servers: &ServersData) -> (r: Vec<String>)
    ensures
        r@.map_values(|s: String| s@) == all_table_names(servers.items()),
{
    let mut names: Vec<String> = Vec::new();
    let n = servers.len();
    let mut k: usize = 0;
    while k < n
        invariant
            k <= n == servers.items().len(),
            names@.map_values(|s: String| s@) == all_table_names(servers.items().take(k as int)),
        decreases n - k,
    {
        assert(servers.items().take(k + 1).drop_last() =~= servers.items().take(k as int));
        let tables = servers.value(k);
        let ghost acc0 = names@.map_values(|s: String| s@);
        let m = tables.len();
        let mut j: usize = 0;
        while j < m
            invariant
                j <= m == tables.items().len(),
                names@.map_values(|s: String| s@) == add_new_names(acc0, tables.items().take(j as int)),
            decreases m - j,
        {
            assert(tables.items().take(j + 1).drop_last() =~= tables.items().take(j as int));
            let name = tables.key(j);
            let ghost cur = names@.map_values(|s: String| s@);
            let mut found = false;
            let mut q: usize = 0;
            while q < names.len()
                invariant
                    q <= names.len(),
                    cur == names@.map_values(|s: String| s@),
                    found == (exists|x: int| 0 <= x < q && cur[x] == name@),
                decreases names.len() - q,
            {
                assert(cur[q as int] == names@[q as int]@);
                if crate::text::same_text(names[q].as_str(), name.as_str()) {
                    found = true;
                }
                q += 1;
            }
            assert(found == cur.contains(name@));
            if !found {
                let ghost before = names@;
                names.push(name.clone());
                assert(names@.map_values(|s: String| s@) =~= before.map_values(|s: String| s@).push(name@));
            }
            j += 1;
        }
        assert(tables.items().take(m as int) =~= tables.items());
        k += 1;
    }
    assert(servers.items().take(n as int) =~= servers.items());
    names
}

/// Compares every server against `reference_server`, table by table. A table only on
/// other servers gives a `MISSING`/`TABLE` row per server that has it; a table the
/// reference has gives, per other server, a `MISSING`/`TABLE` row if that server lacks
/// it, else a `MISSING`/`COLUMN` row per column on one side only and a `DIFFERENT` row
/// per differing field of shared columns (comments only when `check_comments`, index
/// names only when `check_indexes`). An unknown reference server is an error.
pub fn compare_tables_across_servers(
    servers: &ServersData,
    reference_server: &str,
    check_comments: bool,
    check_indexes: bool,
) -> (r: Result<Vec<Discrepancy>, String>)
    ensures
        match r {
            Ok(v) => servers.has(reference_server@)
                && disc_views(v@) == compare_spec(*servers, reference_server@, check_comments, check_indexes),
            Err(e) => !servers.has(reference_server@)
                && e@ == "Reference server '"@ + reference_server@ + "' does not exist in the server list."@,
        },
{
    if !servers.contains_key(reference_server) {
        let mut e = String::new();
        e.append("Reference server '");
        e.append(reference_server);
        e.append("' does not exist in the server list.");
        return Err(e);
    }
    let names = collect_table_names(servers);
    let mut out: Vec<Discrepancy> = Vec::new();
    check_tables(&mut out, servers, reference_server, check_comments, check_indexes, &names);
    assert(disc_views(out@) =~= compare_spec(*servers, reference_server@, check_comments, check_indexes));
    Ok(out)
}
// ───────────────────────── laws ─────────────────────────

/// Every row is reported against `server`.
pub open spec fn all_from(rows: Seq<DiscrepancyView>, server: Seq<char>) -> bool {
    forall|i: int| 0 <= i < rows.len() ==> (#[trigger] rows[i]).server_name == server
}

/// No row is reported against `server`.
pub open spec fn avoids(rows: Seq<DiscrepancyView>, server: Seq<char>) -> bool {
    forall|i: int| 0 <= i < rows.len() ==> (#[trigger] rows[i]).server_name != server
}

proof fn lemma_all_from_concat(a: Seq<DiscrepancyView>, b: Seq<DiscrepancyView>, server: Seq<char>)
    requires
        all_from(a, server),
        all_from(b, server),
    ensures
        all_from(a + b, server),
{
    assert forall|i: int| 0 <= i < (a + b).len() implies (#[trigger] (a + b)[i]).server_name == server by {
        if i < a.len() {
            assert((a + b)[i] == a[i]);
        } else {
            assert((a + b)[i] == b[i - a.len()]);
        }
    }
}

proof fn lemma_avoids_concat(a: Seq<DiscrepancyView>, b: Seq<DiscrepancyView>, server: Seq<char>)
    requires
        avoids(a, server),
        avoids(b, server),
    ensures
        avoids(a + b, server),
{
    assert forall|i: int| 0 <= i < (a + b).len() implies (#[trigger] (a + b)[i]).server_name != server by {
        if i < a.len() {
            assert((a + b)[i] == a[i]);
        } else {
            assert((a + b)[i] == b[i - a.len()]);
        }
    }
}

proof fn lemma_column_rows_from(r: ColumnInfo, c: ColumnInfo, cc: bool, ci: bool, table: Seq<char>, column: Seq<char>, server: Seq<char>)
    ensures
        all_from(column_rows(r, c, cc, ci, table, column, server), server),
{
    let rt = opt_view(r.data_type);
    let ct = opt_view(c.data_type);
    let a = field_rows("COLUMN_NAME"@, true, opt_view(r.column_name), opt_view(c.column_name), rt, ct, table, column, server);
    let b = field_rows("DATA_TYPE"@, true, rt, ct, rt, ct, table, column, server);
    let d = field_rows("DATA_LENGTH"@, true, opt_view(r.data_length), opt_view(c.data_length), rt, ct, table, column, server);
    let e = field_rows("DATA_DEFAULT"@, true, opt_view(r.data_default), opt_view(c.data_default), rt, ct, table, column, server);
    let f = field_rows("COMMENTS"@, cc, opt_view(r.comments), opt_view(c.comments), rt, ct, table, column, server);
    let g = field_rows("INDEX_NAME"@, ci && !skip_index_diff_spec(opt_view(r.index_name), opt_view(c.index_name)),
        opt_view(r.index_name), opt_view(c.index_name), rt, ct, table, column, server);
    lemma_all_from_concat(a, b, server);
    lemma_all_from_concat(a + b, d, server);
    lemma_all_from_concat(a + b + d, e, server);
    lemma_all_from_concat(a + b + d + e, f, server);
    lemma_all_from_concat(a + b + d + e + f, g, server);
}

proof fn lemma_ref_column_rows_from(
    refs: Seq<(String, ColumnInfo)>,
    cur: TableColumns,
    cc: bool,
    ci: bool,
    table: Seq<char>,
    server: Seq<char>,
    ref_up: Seq<char>,
    server_up: Seq<char>,
)
    ensures
        all_from(ref_column_rows(refs, cur, cc, ci, table, server, ref_up, server_up), server),
    decreases refs.len(),
{
    if refs.len() > 0 {
        let (name, info) = refs.last();
        lemma_ref_column_rows_from(refs.drop_last(), cur, cc, ci, table, server, ref_up, server_up);
        match cur.lookup(name@) {
            None => {},
            Some(c) => lemma_column_rows_from(info, c, cc, ci, table, name@, server),
        }
        let tail = match cur.lookup(name@) {
            None => seq![row("MISSING"@, "COLUMN"@, table, name@, server,
                "Column found in reference server "@ + ref_up + " but not in server "@ + server_up)],
            Some(c) => column_rows(info, c, cc, ci, table, name@, server),
        };
        lemma_all_from_concat(ref_column_rows(refs.drop_last(), cur, cc, ci, table, server, ref_up, server_up), tail, server);
    }
}

proof fn lemma_extra_column_rows_from(
    curs: Seq<(String, ColumnInfo)>,
    refc: TableColumns,
    table: Seq<char>,
    server: Seq<char>,
    ref_up: Seq<char>,
    server_up: Seq<char>,
)
    ensures
        all_from(extra_column_rows(curs, refc, table, server, ref_up, server_up), server),
    decreases curs.len(),
{
    if curs.len() > 0 {
        let name = curs.last().0;
        lemma_extra_column_rows_from(curs.drop_last(), refc, table, server, ref_up, server_up);
        let tail = if refc.has(name@) {
            seq![]
        } else {
            seq![row("MISSING"@, "COLUMN"@, table, name@, server,
                "Column "@ + name@ + " found in server "@ + server_up + " but not in reference server "@ + ref_up)]
        };
        lemma_all_from_concat(extra_column_rows(curs.drop_last(), refc, table, server, ref_up, server_up), tail, server);
    }
}

proof fn lemma_servers_vs_ref_avoids(
    srvs: Seq<(String, ServerTables)>,
    reference: Seq<char>,
    refc: TableColumns,
    cc: bool,
    ci: bool,
    table: Seq<char>,
)
    ensures
        avoids(servers_vs_ref(srvs, reference, refc, cc, ci, table), reference),
    decreases srvs.len(),
{
    if srvs.len() > 0 {
        let (name, tables) = srvs.last();
        lemma_servers_vs_ref_avoids(srvs.drop_last(), reference, refc, cc, ci, table);
        let tail = if name@ == reference {
            seq![]
        } else {
            server_rows(tables, refc, cc, ci, table, name@, unicode_upper(reference))
        };
        if name@ != reference {
            let server_up = unicode_upper(name@);
            let ref_up = unicode_upper(reference);
            match tables.lookup(table) {
                None => {},
                Some(cur) => {
                    lemma_ref_column_rows_from(refc.items(), cur, cc, ci, table, name@, ref_up, server_up);
                    lemma_extra_column_rows_from(cur.items(), refc, table, name@, ref_up, server_up);
                    lemma_all_from_concat(ref_column_rows(refc.items(), cur, cc, ci, table, name@, ref_up, server_up),
                        extra_column_rows(cur.items(), refc, table, name@, ref_up, server_up), name@);
                },
            }
            assert(all_from(tail, name@));
        }
        lemma_avoids_concat(servers_vs_ref(srvs.drop_last(), reference, refc, cc, ci, table), tail, reference);
    }
}

proof fn lemma_servers_missing_ref_avoids(srvs: Seq<(String, ServerTables)>, reference: Seq<char>, table: Seq<char>)
    ensures
        avoids(servers_missing_ref(srvs, reference, table), reference),
    decreases srvs.len(),
{
    if srvs.len() > 0 {
        let (name, tables) = srvs.last();
        lemma_servers_missing_ref_avoids(srvs.drop_last(), reference, table);
        let tail = if name@ != reference && tables.has(table) {
            seq![row("MISSING"@, "TABLE"@, table, seq![], name@,
                "Table "@ + table + " found in server "@ + unicode_upper(name@) + " but not in reference server "@
                    + unicode_upper(reference))]
        } else {
            seq![]
        };
        lemma_avoids_concat(servers_missing_ref(srvs.drop_last(), reference, table), tail, reference);
    }
}

proof fn lemma_rows_for_tables_avoid(servers: ServersData, reference: Seq<char>, cc: bool, ci: bool, tables: Seq<Seq<char>>)
    ensures
        avoids(rows_for_tables(servers, reference, cc, ci, tables), reference),
    decreases tables.len(),
{
    if tables.len() > 0 {
        let t = tables.last();
        lemma_rows_for_tables_avoid(servers, reference, cc, ci, tables.drop_last());
        let reft = servers.lookup(reference).unwrap();
        match reft.lookup(t) {
            None => lemma_servers_missing_ref_avoids(servers.items(), reference, t),
            Some(refc) => lemma_servers_vs_ref_avoids(servers.items(), reference, refc, cc, ci, t),
        }
        lemma_avoids_concat(rows_for_tables(servers, reference, cc, ci, tables.drop_last()),
            table_rows(servers, reference, cc, ci, t), reference);
    }
}

/// The reference server is never reported against: every discrepancy names another
/// server.
pub proof fn discrepancies_never_name_reference(servers: ServersData, reference: Seq<char>, cc: bool, ci: bool)
    ensures
        forall|i: int| 0 <= i < compare_spec(servers, reference, cc, ci).len()
            ==> (#[trigger] compare_spec(servers, reference, cc, ci)[i]).server_name != reference,
{
    lemma_rows_for_tables_avoid(servers, reference, cc, ci, all_table_names(servers.items()));
}

proof fn lemma_column_rows_same(info: ColumnInfo, cc: bool, ci: bool, table: Seq<char>, column: Seq<char>, server: Seq<char>)
    ensures
        column_rows(info, info, cc, ci, table, column, server).len() == 0,
{
    let rt = opt_view(info.data_type);
    assert(field_rows("COLUMN_NAME"@, true, opt_view(info.column_name), opt_view(info.column_name), rt, rt, table, column, server).len() == 0);
    assert(field_rows("DATA_TYPE"@, true, rt, rt, rt, rt, table, column, server).len() == 0);
    assert(field_rows("DATA_LENGTH"@, true, opt_view(info.data_length), opt_view(info.data_length), rt, rt, table, column, server).len() == 0);
    assert(field_rows("DATA_DEFAULT"@, true, opt_view(info.data_default), opt_view(info.data_default), rt, rt, table, column, server).len() == 0);
    assert(field_rows("COMMENTS"@, cc, opt_view(info.comments), opt_view(info.comments), rt, rt, table, column, server).len() == 0);
    assert(field_rows("INDEX_NAME"@, ci && !skip_index_diff_spec(opt_view(info.index_name), opt_view(info.index_name)),
        opt_view(info.index_name), opt_view(info.index_name), rt, rt, table, column, server).len() == 0);
}

/// Two tables hold the same columns: every column name looks up the same metadata.
pub open spec fn same_columns(a: TableColumns, b: TableColumns) -> bool {
    forall|k: Seq<char>| #[trigger] a.lookup(k) == b.lookup(k)
}

/// Two servers hold the same tables, each with the same columns, whatever the order
/// they were fetched in.
pub open spec fn same_tables(a: ServerTables, b: ServerTables) -> bool {
    &&& forall|k: Seq<char>| (#[trigger] a.lookup(k) is Some) == (b.lookup(k) is Some)
    &&& forall|k: Seq<char>| #[trigger] a.lookup(k) matches Some(x) ==> (b.lookup(k) matches Some(y) && same_columns(x, y))
}

/// Every server of `srvs` holds the same tables as `tables`.
pub open spec fn all_same(srvs: Seq<(String, ServerTables)>, tables: ServerTables) -> bool {
    forall|i: int| 0 <= i < srvs.len() ==> same_tables((#[trigger] srvs[i]).1, tables)
}

proof fn lemma_ref_column_rows_same(
    refs: Seq<(String, ColumnInfo)>,
    refc: TableColumns,
    cur: TableColumns,
    cc: bool,
    ci: bool,
    table: Seq<char>,
    server: Seq<char>,
    ref_up: Seq<char>,
    server_up: Seq<char>,
)
    requires
        distinct_keys(refc.items()),
        same_columns(cur, refc),
        refs.len() <= refc.items().len(),
        refs == refc.items().take(refs.len() as int),
    ensures
        ref_column_rows(refs, cur, cc, ci, table, server, ref_up, server_up).len() == 0,
    decreases refs.len(),
{
    if refs.len() > 0 {
        let k = refs.len() - 1;
        assert(refs.drop_last() == refc.items().take(k));
        lemma_ref_column_rows_same(refs.drop_last(), refc, cur, cc, ci, table, server, ref_up, server_up);
        let (name, info) = refs.last();
        assert(refs.last() == refc.items()[k]);
        lemma_key_index_of_distinct(refc.items(), k);
        assert(refc.lookup(name@) == Some(info));
        assert(cur.lookup(name@) == refc.lookup(name@));
        lemma_column_rows_same(info, cc, ci, table, name@, server);
    }
}

proof fn lemma_extra_column_rows_same(
    curs: Seq<(String, ColumnInfo)>,
    cur: TableColumns,
    refc: TableColumns,
    table: Seq<char>,
    server: Seq<char>,
    ref_up: Seq<char>,
    server_up: Seq<char>,
)
    requires
        same_columns(cur, refc),
        curs.len() <= cur.items().len(),
        curs == cur.items().take(curs.len() as int),
    ensures
        extra_column_rows(curs, refc, table, server, ref_up, server_up).len() == 0,
    decreases curs.len(),
{
    if curs.len() > 0 {
        let k = curs.len() - 1;
        assert(curs.drop_last() == cur.items().take(k));
        lemma_extra_column_rows_same(curs.drop_last(), cur, refc, table, server, ref_up, server_up);
        let name = curs.last().0;
        assert(curs.last() == cur.items()[k]);
        lemma_key_index(cur.items(), name@);
        assert(cur.has(name@));
        assert(cur.lookup(name@) == refc.lookup(name@));
        assert(refc.has(name@));
    }
}

proof fn lemma_servers_vs_ref_same(
    srvs: Seq<(String, ServerTables)>,
    reference: Seq<char>,
    reft: ServerTables,
    refc: TableColumns,
    cc: bool,
    ci: bool,
    table: Seq<char>,
)
    requires
        all_same(srvs, reft),
        reft.lookup(table) == Some(refc),
        distinct_keys(refc.items()),
    ensures
        servers_vs_ref(srvs, reference, refc, cc, ci, table).len() == 0,
    decreases srvs.len(),
{
    if srvs.len() > 0 {
        let (name, tables) = srvs.last();
        assert(all_same(srvs.drop_last(), reft)) by {
            assert forall|i: int| 0 <= i < srvs.drop_last().len() implies same_tables((#[trigger] srvs.drop_last()[i]).1, reft) by {
                assert(srvs.drop_last()[i] == srvs[i]);
            }
        }
        lemma_servers_vs_ref_same(srvs.drop_last(), reference, reft, refc, cc, ci, table);
        assert(same_tables(srvs[srvs.len() - 1].1, reft));
        if name@ != reference {
            let server_up = unicode_upper(name@);
            let ref_up = unicode_upper(reference);
            assert((reft.lookup(table) is Some) == (tables.lookup(table) is Some));
            let cur = tables.lookup(table)->0;
            assert(reft.lookup(table) matches Some(x) ==> (tables.lookup(table) matches Some(y) && same_columns(x, y)));
            assert(same_columns(cur, refc)) by {
                assert forall|k: Seq<char>| #[trigger] cur.lookup(k) == refc.lookup(k) by {
                    assert(refc.lookup(k) == cur.lookup(k));
                }
            }
            assert(refc.items().take(refc.items().len() as int) == refc.items());
            assert(cur.items().take(cur.items().len() as int) == cur.items());
            lemma_ref_column_rows_same(refc.items(), refc, cur, cc, ci, table, name@, ref_up, server_up);
            lemma_extra_column_rows_same(cur.items(), cur, refc, table, name@, ref_up, server_up);
        }
    }
}

proof fn lemma_servers_missing_ref_same(srvs: Seq<(String, ServerTables)>, reference: Seq<char>, reft: ServerTables, table: Seq<char>)
    requires
        all_same(srvs, reft),
        reft.lookup(table) is None,
    ensures
        servers_missing_ref(srvs, reference, table).len() == 0,
    decreases srvs.len(),
{
    if srvs.len() > 0 {
        assert(all_same(srvs.drop_last(), reft)) by {
            assert forall|i: int| 0 <= i < srvs.drop_last().len() implies same_tables((#[trigger] srvs.drop_last()[i]).1, reft) by {
                assert(srvs.drop_last()[i] == srvs[i]);
            }
        }
        lemma_servers_missing_ref_same(srvs.drop_last(), reference, reft, table);
        assert(same_tables(srvs[srvs.len() - 1].1, reft));
        assert((srvs.last().1.lookup(table) is Some) == (reft.lookup(table) is Some));
    }
}

proof fn lemma_rows_for_tables_same(servers: ServersData, reference: Seq<char>, cc: bool, ci: bool, tables: Seq<Seq<char>>)
    requires
        servers.has(reference),
        all_same(servers.items(), servers.lookup(reference).unwrap()),
        forall|j: int| 0 <= j < servers.lookup(reference).unwrap().items().len()
            ==> distinct_keys((#[trigger] servers.lookup(reference).unwrap().items()[j]).1.items()),
    ensures
        rows_for_tables(servers, reference, cc, ci, tables).len() == 0,
    decreases tables.len(),
{
    if tables.len() > 0 {
        let t = tables.last();
        lemma_rows_for_tables_same(servers, reference, cc, ci, tables.drop_last());
        let reft = servers.lookup(reference).unwrap();
        lemma_key_index(reft.items(), t);
        match reft.lookup(t) {
            None => lemma_servers_missing_ref_same(servers.items(), reference, reft, t),
            Some(refc) => {
                let j = key_index(reft.items(), t)->0;
                assert(distinct_keys(reft.items()[j].1.items()));
                lemma_servers_vs_ref_same(servers.items(), reference, reft, refc, cc, ci, t);
            },
        }
    }
}

/// Servers that all hold the same tables as the reference server, each with the same
/// columns and metadata (in whatever order they were fetched), show no drift: the
/// comparison reports nothing.
pub proof fn identical_servers_have_no_discrepancies(servers: ServersData, reference: Seq<char>, cc: bool, ci: bool)
    requires
        servers.has(reference),
        all_same(servers.items(), servers.lookup(reference).unwrap()),
        forall|j: int| 0 <= j < servers.lookup(reference).unwrap().items().len()
            ==> distinct_keys((#[trigger] servers.lookup(reference).unwrap().items()[j]).1.items()),
    ensures
        compare_spec(servers, reference, cc, ci).len() == 0,
{
    lemma_rows_for_tables_same(servers, reference, cc, ci, all_table_names(servers.items()));
}

// ───────────────────────── what a field difference reports ─────────────────────────

/// The value of a compared text field of a column, by the field's name.
pub open spec fn column_field(c: ColumnInfo, key: Seq<char>) -> Option<Seq<char>> {
    if key == "COLUMN_NAME"@ {
        opt_view(c.column_name)
    } else if key == "DATA_TYPE"@ {
        opt_view(c.data_type)
    } else if key == "DATA_DEFAULT"@ {
        opt_view(c.data_default)
    } else {
        opt_view(c.comments)
    }
}

/// The text fields compared as `FIELD: ref != cur`: name, type and default always,
/// comments when asked for.
pub open spec fn reported_text_field(key: Seq<char>, cc: bool) -> bool {
    key == "COLUMN_NAME"@ || key == "DATA_TYPE"@ || key == "DATA_DEFAULT"@ || (cc && key == "COMMENTS"@)
}

proof fn lemma_contains_left<T>(a: Seq<T>, b: Seq<T>, x: T)
    requires
        a.contains(x),
    ensures
        (a + b).contains(x),
{
    let i = choose|i: int| 0 <= i < a.len() && a[i] == x;
    assert((a + b)[i] == x);
}

proof fn lemma_contains_right<T>(a: Seq<T>, b: Seq<T>, x: T)
    requires
        b.contains(x),
    ensures
        (a + b).contains(x),
{
    let i = choose|i: int| 0 <= i < b.len() && b[i] == x;
    assert((a + b)[a.len() + i] == x);
}

proof fn lemma_column_rows_report(
    r: ColumnInfo,
    c: ColumnInfo,
    cc: bool,
    ci: bool,
    table: Seq<char>,
    column: Seq<char>,
    server: Seq<char>,
    key: Seq<char>,
)
    requires
        reported_text_field(key, cc),
        !equal_ci_spec(column_field(r, key), column_field(c, key)),
    ensures
        column_rows(r, c, cc, ci, table, column, server).contains(row("DIFFERENT"@, key, table, column, server,
            key + ": "@ + or_text(column_field(r, key), "NULL"@) + " != "@ + or_text(column_field(c, key), "NULL"@))),
{
    reveal_strlit("DATA_LENGTH");
    reveal_strlit("COLUMN_NAME");
    reveal_strlit("DATA_TYPE");
    reveal_strlit("DATA_DEFAULT");
    reveal_strlit("COMMENTS");
    let rt = opt_view(r.data_type);
    let ct = opt_view(c.data_type);
    let x = row("DIFFERENT"@, key, table, column, server,
        key + ": "@ + or_text(column_field(r, key), "NULL"@) + " != "@ + or_text(column_field(c, key), "NULL"@));
    let f1 = field_rows("COLUMN_NAME"@, true, opt_view(r.column_name), opt_view(c.column_name), rt, ct, table, column, server);
    let f2 = field_rows("DATA_TYPE"@, true, rt, ct, rt, ct, table, column, server);
    let f3 = field_rows("DATA_LENGTH"@, true, opt_view(r.data_length), opt_view(c.data_length), rt, ct, table, column, server);
    let f4 = field_rows("DATA_DEFAULT"@, true, opt_view(r.data_default), opt_view(c.data_default), rt, ct, table, column, server);
    let f5 = field_rows("COMMENTS"@, cc, opt_view(r.comments), opt_view(c.comments), rt, ct, table, column, server);
    let f6 = field_rows("INDEX_NAME"@, ci && !skip_index_diff_spec(opt_view(r.index_name), opt_view(c.index_name)),
        opt_view(r.index_name), opt_view(c.index_name), rt, ct, table, column, server);
    assert(column_rows(r, c, cc, ci, table, column, server) == f1 + f2 + f3 + f4 + f5 + f6);
    assert("COLUMN_NAME"@[0] != "DATA_LENGTH"@[0]);
    if key == "COLUMN_NAME"@ {
        assert(f1[0] == x);
        assert(f1.contains(x));
        lemma_contains_left(f1, f2, x);
        lemma_contains_left(f1 + f2, f3, x);
        lemma_contains_left(f1 + f2 + f3, f4, x);
        lemma_contains_left(f1 + f2 + f3 + f4, f5, x);
        lemma_contains_left(f1 + f2 + f3 + f4 + f5, f6, x);
    } else if key == "DATA_TYPE"@ {
        assert(f2[0] == x);
        assert(f2.contains(x));
        lemma_contains_right(f1, f2, x);
        lemma_contains_left(f1 + f2, f3, x);
        lemma_contains_left(f1 + f2 + f3, f4, x);
        lemma_contains_left(f1 + f2 + f3 + f4, f5, x);
        lemma_contains_left(f1 + f2 + f3 + f4 + f5, f6, x);
    } else if key == "DATA_DEFAULT"@ {
        assert(f4[0] == x);
        assert(f4.contains(x));
        lemma_contains_right(f1 + f2 + f3, f4, x);
        lemma_contains_left(f1 + f2 + f3 + f4, f5, x);
        lemma_contains_left(f1 + f2 + f3 + f4 + f5, f6, x);
    } else {
        assert(f5[0] == x);
        assert(f5.contains(x));
        lemma_contains_right(f1 + f2 + f3 + f4, f5, x);
        lemma_contains_left(f1 + f2 + f3 + f4 + f5, f6, x);
    }
}

proof fn lemma_ref_column_rows_has(
    refs: Seq<(String, ColumnInfo)>,
    cur: TableColumns,
    cc: bool,
    ci: bool,
    table: Seq<char>,
    server: Seq<char>,
    ref_up: Seq<char>,
    server_up: Seq<char>,
    j: int,
    c: ColumnInfo,
    x: DiscrepancyView,
)
    requires
        0 <= j < refs.len(),
        cur.lookup(refs[j].0@) == Some(c),
        column_rows(refs[j].1, c, cc, ci, table, refs[j].0@, server).contains(x),
    ensures
        ref_column_rows(refs, cur, cc, ci, table, server, ref_up, server_up).contains(x),
    decreases refs.len(),
{
    let prev = ref_column_rows(refs.drop_last(), cur, cc, ci, table, server, ref_up, server_up);
    let (name, info) = refs.last();
    let last_part = match cur.lookup(name@) {
        None => seq![row("MISSING"@, "COLUMN"@, table, name@, server,
            "Column found in reference server "@ + ref_up + " but not in server "@ + server_up)],
        Some(cc2) => column_rows(info, cc2, cc, ci, table, name@, server),
    };
    assert(ref_column_rows(refs, cur, cc, ci, table, server, ref_up, server_up) == prev + last_part);
    if j == refs.len() - 1 {
        lemma_contains_right(prev, last_part, x);
    } else {
        assert(refs.drop_last()[j] == refs[j]);
        lemma_ref_column_rows_has(refs.drop_last(), cur, cc, ci, table, server, ref_up, server_up, j, c, x);
        lemma_contains_left(prev, last_part, x);
    }
}

proof fn lemma_servers_vs_ref_has(
    srvs: Seq<(String, ServerTables)>,
    reference: Seq<char>,
    refc: TableColumns,
    cc: bool,
    ci: bool,
    table: Seq<char>,
    k: int,
    x: DiscrepancyView,
)
    requires
        0 <= k < srvs.len(),
        srvs[k].0@ != reference,
        server_rows(srvs[k].1, refc, cc, ci, table, srvs[k].0@, unicode_upper(reference)).contains(x),
    ensures
        servers_vs_ref(srvs, reference, refc, cc, ci, table).contains(x),
    decreases srvs.len(),
{
    let prev = servers_vs_ref(srvs.drop_last(), reference, refc, cc, ci, table);
    let (name, tables) = srvs.last();
    let last_part = if name@ == reference {
        seq![]
    } else {
        server_rows(tables, refc, cc, ci, table, name@, unicode_upper(reference))
    };
    assert(servers_vs_ref(srvs, reference, refc, cc, ci, table) == prev + last_part);
    if k == srvs.len() - 1 {
        lemma_contains_right(prev, last_part, x);
    } else {
        assert(srvs.drop_last()[k] == srvs[k]);
        lemma_servers_vs_ref_has(srvs.drop_last(), reference, refc, cc, ci, table, k, x);
        lemma_contains_left(prev, last_part, x);
    }
}

proof fn lemma_rows_for_tables_has(
    servers: ServersData,
    reference: Seq<char>,
    cc: bool,
    ci: bool,
    tables: Seq<Seq<char>>,
    t: Seq<char>,
    x: DiscrepancyView,
)
    requires
        tables.contains(t),
        table_rows(servers, reference, cc, ci, t).contains(x),
    ensures
        rows_for_tables(servers, reference, cc, ci, tables).contains(x),
    decreases tables.len(),
{
    let prev = rows_for_tables(servers, reference, cc, ci, tables.drop_last());
    let last_part = table_rows(servers, reference, cc, ci, tables.last());
    if tables.last() == t {
        lemma_contains_right(prev, last_part, x);
    } else {
        let i = choose|i: int| 0 <= i < tables.len() && tables[i] == t;
        assert(i != tables.len() - 1);
        assert(tables.drop_last()[i] == t);
        lemma_rows_for_tables_has(servers, reference, cc, ci, tables.drop_last(), t, x);
        lemma_contains_left(prev, last_part, x);
    }
}

proof fn lemma_add_new_names_keeps(acc: Seq<Seq<char>>, names: Seq<(String, TableColumns)>, x: Seq<char>)
    requires
        acc.contains(x),
    ensures
        add_new_names(acc, names).contains(x),
    decreases names.len(),
{
    if names.len() > 0 {
        lemma_add_new_names_keeps(acc, names.drop_last(), x);
        let a = add_new_names(acc, names.drop_last());
        let n = names.last().0@;
        if !a.contains(n) {
            let i = choose|i: int| 0 <= i < a.len() && a[i] == x;
            assert(a.push(n)[i] == x);
        }
    }
}

proof fn lemma_add_new_names_adds(acc: Seq<Seq<char>>, names: Seq<(String, TableColumns)>, j: int)
    requires
        0 <= j < names.len(),
    ensures
        add_new_names(acc, names).contains(names[j].0@),
    decreases names.len(),
{
    let a = add_new_names(acc, names.drop_last());
    let n = names.last().0@;
    if j == names.len() - 1 {
        if !a.contains(n) {
            assert(a.push(n)[a.len() as int] == n);
        }
    } else {
        assert(names.drop_last()[j] == names[j]);
        lemma_add_new_names_adds(acc, names.drop_last(), j);
        if !a.contains(n) {
            let i = choose|i: int| 0 <= i < a.len() && a[i] == names[j].0@;
            assert(a.push(n)[i] == names[j].0@);
        }
    }
}

proof fn lemma_all_table_names_has(srvs: Seq<(String, ServerTables)>, k: int, j: int)
    requires
        0 <= k < srvs.len(),
        0 <= j < srvs[k].1.items().len(),
    ensures
        all_table_names(srvs).contains(srvs[k].1.items()[j].0@),
    decreases srvs.len(),
{
    if k == srvs.len() - 1 {
        lemma_add_new_names_adds(all_table_names(srvs.drop_last()), srvs.last().1.items(), j);
    } else {
        assert(srvs.drop_last()[k] == srvs[k]);
        lemma_all_table_names_has(srvs.drop_last(), k, j);
        lemma_add_new_names_keeps(all_table_names(srvs.drop_last()), srvs.last().1.items(), srvs[k].1.items()[j].0@);
    }
}

/// A column present on the reference server and on another loaded server is reported
/// as `DIFFERENT` for every compared text field whose values differ ignoring ASCII case
/// (or that only one side has): its name, data type and default always, its comment
/// when comments are checked. The row names that server, the table and the column,
/// and gives both values (`NULL` for an absent one).
pub proof fn differing_column_field_is_reported(
    servers: ServersData,
    reference: Seq<char>,
    cc: bool,
    ci: bool,
    table: Seq<char>,
    column: Seq<char>,
    k: int,
    key: Seq<char>,
)
    requires
        servers.has(reference),
        servers.lookup(reference).unwrap().has(table),
        servers.lookup(reference).unwrap().lookup(table).unwrap().has(column),
        0 <= k < servers.items().len(),
        servers.items()[k].0@ != reference,
        servers.items()[k].1.has(table),
        servers.items()[k].1.lookup(table).unwrap().has(column),
        reported_text_field(key, cc),
        !equal_ci_spec(
            column_field(servers.lookup(reference).unwrap().lookup(table).unwrap().lookup(column).unwrap(), key),
            column_field(servers.items()[k].1.lookup(table).unwrap().lookup(column).unwrap(), key),
        ),
    ensures
        compare_spec(servers, reference, cc, ci).contains(DiscrepancyView {
            difference: "DIFFERENT"@,
            element: key,
            table_name: table,
            column_name: column,
            server_name: servers.items()[k].0@,
            details: key + ": "@
                + or_text(column_field(servers.lookup(reference).unwrap().lookup(table).unwrap().lookup(column).unwrap(), key), "NULL"@)
                + " != "@
                + or_text(column_field(servers.items()[k].1.lookup(table).unwrap().lookup(column).unwrap(), key), "NULL"@),
        }),
{
    let r = servers.lookup(reference).unwrap().lookup(table).unwrap().lookup(column).unwrap();
    let c = servers.items()[k].1.lookup(table).unwrap().lookup(column).unwrap();
    let server = servers.items()[k].0@;
    lemma_column_rows_report(r, c, cc, ci, table, column, server, key);
    lemma_column_row_in_result(servers, reference, cc, ci, table, column, k,
        row("DIFFERENT"@, key, table, column, server,
            key + ": "@ + or_text(column_field(r, key), "NULL"@) + " != "@ + or_text(column_field(c, key), "NULL"@)));
}

/// A row among those of one column present on the reference server and on another
/// server stands in the comparison's result.
proof fn lemma_column_row_in_result(
    servers: ServersData,
    reference: Seq<char>,
    cc: bool,
    ci: bool,
    table: Seq<char>,
    column: Seq<char>,
    k: int,
    x: DiscrepancyView,
)
    requires
        servers.has(reference),
        servers.lookup(reference).unwrap().has(table),
        servers.lookup(reference).unwrap().lookup(table).unwrap().has(column),
        0 <= k < servers.items().len(),
        servers.items()[k].0@ != reference,
        servers.items()[k].1.has(table),
        servers.items()[k].1.lookup(table).unwrap().has(column),
        column_rows(servers.lookup(reference).unwrap().lookup(table).unwrap().lookup(column).unwrap(),
            servers.items()[k].1.lookup(table).unwrap().lookup(column).unwrap(), cc, ci, table, column,
            servers.items()[k].0@).contains(x),
    ensures
        compare_spec(servers, reference, cc, ci).contains(x),
{
    let reft = servers.lookup(reference).unwrap();
    let refc = reft.lookup(table).unwrap();
    let (sname, stables) = servers.items()[k];
    let cur = stables.lookup(table).unwrap();
    let c = cur.lookup(column).unwrap();
    let server = sname@;
    // The reference's entry for the column.
    lemma_key_index(refc.items(), column);
    let j = key_index(refc.items(), column)->0;
    let ref_up = unicode_upper(reference);
    let server_up = unicode_upper(server);
    lemma_ref_column_rows_has(refc.items(), cur, cc, ci, table, server, ref_up, server_up, j, c, x);
    assert(server_rows(stables, refc, cc, ci, table, server, ref_up) == ref_column_rows(refc.items(), cur, cc, ci,
        table, server, ref_up, server_up) + extra_column_rows(cur.items(), refc, table, server, ref_up, server_up));
    lemma_contains_left(ref_column_rows(refc.items(), cur, cc, ci, table, server, ref_up, server_up),
        extra_column_rows(cur.items(), refc, table, server, ref_up, server_up), x);
    lemma_servers_vs_ref_has(servers.items(), reference, refc, cc, ci, table, k, x);
    assert(table_rows(servers, reference, cc, ci, table).contains(x));
    // The table is among the names compared.
    lemma_key_index(servers.items(), reference);
    let ri = key_index(servers.items(), reference)->0;
    lemma_key_index(reft.items(), table);
    let ti = key_index(reft.items(), table)->0;
    assert(servers.items()[ri].1 == reft);
    lemma_all_table_names_has(servers.items(), ri, ti);
    lemma_rows_for_tables_has(servers, reference, cc, ci, all_table_names(servers.items()), table, x);
}

/// A column present on the reference server and on another loaded server is reported
/// as `DIFFERENT` `DATA_LENGTH` when the two lengths differ (or only one side has
/// one), with details `TYPE(len) != TYPE(len)` (`?` for an absent type, `NULL` for an
/// absent length); and, when indexes are checked, as `DIFFERENT` `INDEX_NAME` when the
/// index names differ and are not both names of real indexes.
pub proof fn differing_length_and_index_are_reported(
    servers: ServersData,
    reference: Seq<char>,
    cc: bool,
    ci: bool,
    table: Seq<char>,
    column: Seq<char>,
    k: int,
)
    requires
        servers.has(reference),
        servers.lookup(reference).unwrap().has(table),
        servers.lookup(reference).unwrap().lookup(table).unwrap().has(column),
        0 <= k < servers.items().len(),
        servers.items()[k].0@ != reference,
        servers.items()[k].1.has(table),
        servers.items()[k].1.lookup(table).unwrap().has(column),
    ensures
        ({
            let r = servers.lookup(reference).unwrap().lookup(table).unwrap().lookup(column).unwrap();
            let c = servers.items()[k].1.lookup(table).unwrap().lookup(column).unwrap();
            !equal_ci_spec(opt_view(r.data_length), opt_view(c.data_length))
                ==> compare_spec(servers, reference, cc, ci).contains(DiscrepancyView {
                    difference: "DIFFERENT"@,
                    element: "DATA_LENGTH"@,
                    table_name: table,
                    column_name: column,
                    server_name: servers.items()[k].0@,
                    details: or_text(opt_view(r.data_type), "?"@) + "("@ + or_text(opt_view(r.data_length), "NULL"@)
                        + ") != "@ + or_text(opt_view(c.data_type), "?"@) + "("@
                        + or_text(opt_view(c.data_length), "NULL"@) + ")"@,
                })
        }),
        ({
            let r = servers.lookup(reference).unwrap().lookup(table).unwrap().lookup(column).unwrap();
            let c = servers.items()[k].1.lookup(table).unwrap().lookup(column).unwrap();
            ci && !skip_index_diff_spec(opt_view(r.index_name), opt_view(c.index_name))
                && !equal_ci_spec(opt_view(r.index_name), opt_view(c.index_name))
                ==> compare_spec(servers, reference, cc, ci).contains(DiscrepancyView {
                    difference: "DIFFERENT"@,
                    element: "INDEX_NAME"@,
                    table_name: table,
                    column_name: column,
                    server_name: servers.items()[k].0@,
                    details: "INDEX_NAME"@ + ": "@ + or_text(opt_view(r.index_name), "NULL"@) + " != "@
                        + or_text(opt_view(c.index_name), "NULL"@),
                })
        }),
{
    reveal_strlit("DATA_LENGTH");
    reveal_strlit("INDEX_NAME");
    let r = servers.lookup(reference).unwrap().lookup(table).unwrap().lookup(column).unwrap();
    let c = servers.items()[k].1.lookup(table).unwrap().lookup(column).unwrap();
    let server = servers.items()[k].0@;
    let rt = opt_view(r.data_type);
    let ct = opt_view(c.data_type);
    let f1 = field_rows("COLUMN_NAME"@, true, opt_view(r.column_name), opt_view(c.column_name), rt, ct, table, column, server);
    let f2 = field_rows("DATA_TYPE"@, true, rt, ct, rt, ct, table, column, server);
    let f3 = field_rows("DATA_LENGTH"@, true, opt_view(r.data_length), opt_view(c.data_length), rt, ct, table, column, server);
    let f4 = field_rows("DATA_DEFAULT"@, true, opt_view(r.data_default), opt_view(c.data_default), rt, ct, table, column, server);
    let f5 = field_rows("COMMENTS"@, cc, opt_view(r.comments), opt_view(c.comments), rt, ct, table, column, server);
    let f6 = field_rows("INDEX_NAME"@, ci && !skip_index_diff_spec(opt_view(r.index_name), opt_view(c.index_name)),
        opt_view(r.index_name), opt_view(c.index_name), rt, ct, table, column, server);
    assert(column_rows(r, c, cc, ci, table, column, server) == f1 + f2 + f3 + f4 + f5 + f6);
    if !equal_ci_spec(opt_view(r.data_length), opt_view(c.data_length)) {
        let x = f3[0];
        assert(f3.contains(x));
        lemma_contains_right(f1 + f2, f3, x);
        lemma_contains_left(f1 + f2 + f3, f4, x);
        lemma_contains_left(f1 + f2 + f3 + f4, f5, x);
        lemma_contains_left(f1 + f2 + f3 + f4 + f5, f6, x);
        lemma_column_row_in_result(servers, reference, cc, ci, table, column, k, x);
    }
    if ci && !skip_index_diff_spec(opt_view(r.index_name), opt_view(c.index_name))
        && !equal_ci_spec(opt_view(r.index_name), opt_view(c.index_name)) {
        let x = f6[0];
        assert(f6.contains(x));
        lemma_contains_right(f1 + f2 + f3 + f4 + f5, f6, x);
        assert("INDEX_NAME"@[0] != "DATA_LENGTH"@[0]);
        lemma_column_row_in_result(servers, reference, cc, ci, table, column, k, x);
    }
}

proof fn lemma_ref_column_missing_has(
    refs: Seq<(String, ColumnInfo)>,
    cur: TableColumns,
    cc: bool,
    ci: bool,
    table: Seq<char>,
    server: Seq<char>,
    ref_up: Seq<char>,
    server_up: Seq<char>,
    j: int,
)
    requires
        0 <= j < refs.len(),
        cur.lookup(refs[j].0@) is None,
    ensures
        ref_column_rows(refs, cur, cc, ci, table, server, ref_up, server_up).contains(row("MISSING"@, "COLUMN"@, table,
            refs[j].0@, server, "Column found in reference server "@ + ref_up + " but not in server "@ + server_up)),
    decreases refs.len(),
{
    let x = row("MISSING"@, "COLUMN"@, table, refs[j].0@, server,
        "Column found in reference server "@ + ref_up + " but not in server "@ + server_up);
    let prev = ref_column_rows(refs.drop_last(), cur, cc, ci, table, server, ref_up, server_up);
    let (name, info) = refs.last();
    let last_part = match cur.lookup(name@) {
        None => seq![row("MISSING"@, "COLUMN"@, table, name@, server,
            "Column found in reference server "@ + ref_up + " but not in server "@ + server_up)],
        Some(cc2) => column_rows(info, cc2, cc, ci, table, name@, server),
    };
    assert(ref_column_rows(refs, cur, cc, ci, table, server, ref_up, server_up) == prev + last_part);
    if j == refs.len() - 1 {
        assert(last_part[0] == x);
        lemma_contains_right(prev, last_part, x);
    } else {
        assert(refs.drop_last()[j] == refs[j]);
        lemma_ref_column_missing_has(refs.drop_last(), cur, cc, ci, table, server, ref_up, server_up, j);
        lemma_contains_left(prev, last_part, x);
    }
}

proof fn lemma_extra_column_has(
    curs: Seq<(String, ColumnInfo)>,
    refc: TableColumns,
    table: Seq<char>,
    server: Seq<char>,
    ref_up: Seq<char>,
    server_up: Seq<char>,
    j: int,
)
    requires
        0 <= j < curs.len(),
        !refc.has(curs[j].0@),
    ensures
        extra_column_rows(curs, refc, table, server, ref_up, server_up).contains(row("MISSING"@, "COLUMN"@, table,
            curs[j].0@, server, "Column "@ + curs[j].0@ + " found in server "@ + server_up + " but not in reference server "@
                + ref_up)),
    decreases curs.len(),
{
    let x = row("MISSING"@, "COLUMN"@, table, curs[j].0@, server,
        "Column "@ + curs[j].0@ + " found in server "@ + server_up + " but not in reference server "@ + ref_up);
    let prev = extra_column_rows(curs.drop_last(), refc, table, server, ref_up, server_up);
    let name = curs.last().0;
    let last_part = if refc.has(name@) {
        seq![]
    } else {
        seq![row("MISSING"@, "COLUMN"@, table, name@, server,
            "Column "@ + name@ + " found in server "@ + server_up + " but not in reference server "@ + ref_up)]
    };
    assert(extra_column_rows(curs, refc, table, server, ref_up, server_up) == prev + last_part);
    if j == curs.len() - 1 {
        assert(last_part[0] == x);
        lemma_contains_right(prev, last_part, x);
    } else {
        assert(curs.drop_last()[j] == curs[j]);
        lemma_extra_column_has(curs.drop_last(), refc, table, server, ref_up, server_up, j);
        lemma_contains_left(prev, last_part, x);
    }
}

proof fn lemma_servers_missing_ref_has(srvs: Seq<(String, ServerTables)>, reference: Seq<char>, table: Seq<char>, k: int)
    requires
        0 <= k < srvs.len(),
        srvs[k].0@ != reference,
        srvs[k].1.has(table),
    ensures
        servers_missing_ref(srvs, reference, table).contains(row("MISSING"@, "TABLE"@, table, seq![], srvs[k].0@,
            "Table "@ + table + " found in server "@ + unicode_upper(srvs[k].0@) + " but not in reference server "@
                + unicode_upper(reference))),
    decreases srvs.len(),
{
    let x = row("MISSING"@, "TABLE"@, table, seq![], srvs[k].0@,
        "Table "@ + table + " found in server "@ + unicode_upper(srvs[k].0@) + " but not in reference server "@
            + unicode_upper(reference));
    let prev = servers_missing_ref(srvs.drop_last(), reference, table);
    let (name, tables) = srvs.last();
    let last_part = if name@ != reference && tables.has(table) {
        seq![row("MISSING"@, "TABLE"@, table, seq![], name@,
            "Table "@ + table + " found in server "@ + unicode_upper(name@) + " but not in reference server "@
                + unicode_upper(reference))]
    } else {
        seq![]
    };
    assert(servers_missing_ref(srvs, reference, table) == prev + last_part);
    if k == srvs.len() - 1 {
        assert(last_part[0] == x);
        lemma_contains_right(prev, last_part, x);
    } else {
        assert(srvs.drop_last()[k] == srvs[k]);
        lemma_servers_missing_ref_has(srvs.drop_last(), reference, table, k);
        lemma_contains_left(prev, last_part, x);
    }
}

proof fn lemma_table_listed(servers: ServersData, k: int, table: Seq<char>)
    requires
        0 <= k < servers.items().len(),
        servers.items()[k].1.has(table),
    ensures
        all_table_names(servers.items()).contains(table),
{
    lemma_key_index(servers.items()[k].1.items(), table);
    let ti = key_index(servers.items()[k].1.items(), table)->0;
    lemma_all_table_names_has(servers.items(), k, ti);
}

/// A table the reference server has and another loaded server lacks is reported as
/// `MISSING` `TABLE` for that server, and so is a table another server has that the
/// reference lacks; a column the reference table has and the other server's table
/// lacks, or the other way round, is reported as `MISSING` `COLUMN`.
pub proof fn missing_tables_and_columns_are_reported(
    servers: ServersData,
    reference: Seq<char>,
    cc: bool,
    ci: bool,
    table: Seq<char>,
    column: Seq<char>,
    k: int,
)
    requires
        servers.has(reference),
        0 <= k < servers.items().len(),
        servers.items()[k].0@ != reference,
    ensures
        servers.lookup(reference).unwrap().has(table) && !servers.items()[k].1.has(table)
            ==> compare_spec(servers, reference, cc, ci).contains(DiscrepancyView {
                difference: "MISSING"@, element: "TABLE"@, table_name: table, column_name: seq![],
                server_name: servers.items()[k].0@,
                details: "Table found in reference server "@ + unicode_upper(reference) + " but not in server "@
                    + unicode_upper(servers.items()[k].0@),
            }),
        !servers.lookup(reference).unwrap().has(table) && servers.items()[k].1.has(table)
            ==> compare_spec(servers, reference, cc, ci).contains(DiscrepancyView {
                difference: "MISSING"@, element: "TABLE"@, table_name: table, column_name: seq![],
                server_name: servers.items()[k].0@,
                details: "Table "@ + table + " found in server "@ + unicode_upper(servers.items()[k].0@)
                    + " but not in reference server "@ + unicode_upper(reference),
            }),
        servers.lookup(reference).unwrap().has(table) && servers.items()[k].1.has(table)
            && servers.lookup(reference).unwrap().lookup(table).unwrap().has(column)
            && !servers.items()[k].1.lookup(table).unwrap().has(column)
            ==> compare_spec(servers, reference, cc, ci).contains(DiscrepancyView {
                difference: "MISSING"@, element: "COLUMN"@, table_name: table, column_name: column,
                server_name: servers.items()[k].0@,
                details: "Column found in reference server "@ + unicode_upper(reference) + " but not in server "@
                    + unicode_upper(servers.items()[k].0@),
            }),
        servers.lookup(reference).unwrap().has(table) && servers.items()[k].1.has(table)
            && !servers.lookup(reference).unwrap().lookup(table).unwrap().has(column)
            && servers.items()[k].1.lookup(table).unwrap().has(column)
            ==> compare_spec(servers, reference, cc, ci).contains(DiscrepancyView {
                difference: "MISSING"@, element: "COLUMN"@, table_name: table, column_name: column,
                server_name: servers.items()[k].0@,
                details: "Column "@ + column + " found in server "@ + unicode_upper(servers.items()[k].0@)
                    + " but not in reference server "@ + unicode_upper(reference),
            }),
{
    let reft = servers.lookup(reference).unwrap();
    let (sname, stables) = servers.items()[k];
    let server = sname@;
    let ref_up = unicode_upper(reference);
    let server_up = unicode_upper(server);
    lemma_key_index(servers.items(), reference);
    let ri = key_index(servers.items(), reference)->0;
    assert(servers.items()[ri].1 == reft);
    let names = all_table_names(servers.items());
    if reft.has(table) && !stables.has(table) {
        let refc = reft.lookup(table).unwrap();
        let x = row("MISSING"@, "TABLE"@, table, seq![], server,
            "Table found in reference server "@ + ref_up + " but not in server "@ + server_up);
        assert(server_rows(stables, refc, cc, ci, table, server, ref_up)[0] == x);
        assert(server_rows(stables, refc, cc, ci, table, server, ref_up).contains(x));
        lemma_servers_vs_ref_has(servers.items(), reference, refc, cc, ci, table, k, x);
        lemma_table_listed(servers, ri, table);
        lemma_rows_for_tables_has(servers, reference, cc, ci, names, table, x);
    }
    if !reft.has(table) && stables.has(table) {
        lemma_servers_missing_ref_has(servers.items(), reference, table, k);
        lemma_table_listed(servers, k, table);
        let x = row("MISSING"@, "TABLE"@, table, seq![], server,
            "Table "@ + table + " found in server "@ + server_up + " but not in reference server "@ + ref_up);
        lemma_rows_for_tables_has(servers, reference, cc, ci, names, table, x);
    }
    if reft.has(table) && stables.has(table) {
        let refc = reft.lookup(table).unwrap();
        let cur = stables.lookup(table).unwrap();
        let rcr = ref_column_rows(refc.items(), cur, cc, ci, table, server, ref_up, server_up);
        let ecr = extra_column_rows(cur.items(), refc, table, server, ref_up, server_up);
        assert(server_rows(stables, refc, cc, ci, table, server, ref_up) == rcr + ecr);
        lemma_table_listed(servers, ri, table);
        if refc.has(column) && !cur.has(column) {
            lemma_key_index(refc.items(), column);
            let j = key_index(refc.items(), column)->0;
            lemma_ref_column_missing_has(refc.items(), cur, cc, ci, table, server, ref_up, server_up, j);
            let x = row("MISSING"@, "COLUMN"@, table, column, server,
                "Column found in reference server "@ + ref_up + " but not in server "@ + server_up);
            lemma_contains_left(rcr, ecr, x);
            lemma_servers_vs_ref_has(servers.items(), reference, refc, cc, ci, table, k, x);
            lemma_rows_for_tables_has(servers, reference, cc, ci, names, table, x);
        }
        if !refc.has(column) && cur.has(column) {
            lemma_key_index(cur.items(), column);
            let j = key_index(cur.items(), column)->0;
            lemma_extra_column_has(cur.items(), refc, table, server, ref_up, server_up, j);
            let x = row("MISSING"@, "COLUMN"@, table, column, server,
                "Column "@ + column + " found in server "@ + server_up + " but not in reference server "@ + ref_up);
            lemma_contains_right(rcr, ecr, x);
            lemma_servers_vs_ref_has(servers.items(), reference, refc, cc, ci, table, k, x);
            lemma_rows_for_tables_has(servers, reference, cc, ci, names, table, x);
        }
    }
}

} // verus!
