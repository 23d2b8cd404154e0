//! Laws of fix-script generation: what holds of every script, whatever the selection.
use vstd::prelude::*;
use crate::models::{DiscrepancyView, ServersData, ServerTableDdls};
use crate::models::ColumnInfo;
use crate::text::{trim, contains, occurs_at};
use crate::fix::{reference_column, column_block, fix_kind, FixKind, BlockOutcome};
use crate::text::{starts_with, lower};
use crate::fix::{modify_type_block, default_block, comment_text, desired_comment, NULL_TOKEN};
use crate::fix::{MODIFY_TYPE_0, MODIFY_TYPE_1, MODIFY_TYPE_2, MODIFY_TYPE_3, MODIFY_TYPE_4, MODIFY_TYPE_5, MODIFY_TYPE_6, MODIFY_TYPE_7, MODIFY_TYPE_8, MODIFY_TYPE_9};
use crate::fix::{DEFAULT_0, DEFAULT_1, DEFAULT_2, DEFAULT_3, DEFAULT_4, DEFAULT_5, DEFAULT_6, DEFAULT_7, DEFAULT_8, COMMENT_0, COMMENT_1, COMMENT_2, COMMENT_3, COMMENT_4};
use crate::fix::{add_column_block, sql_literal_spec, quoted_ident_spec, ADD_COLUMN_0, ADD_COLUMN_1, ADD_COLUMN_2, ADD_COLUMN_3, ADD_COLUMN_4, upper_key, comment_suffix_of};
use crate::fix::{strictly_increasing, sorted_ids, FixState, RowOutcome, fix_step, fix_fold, fix_script, row_outcome};

verus! {


/// `x` placed into the ascending `q` unless present.
pub open spec fn insert_ascending_spec(q: Seq<usize>, x: usize) -> Seq<usize>
    decreases q.len(),
{
    if q.len() == 0 {
        seq![x]
    } else if x < q[0] {
        seq![x] + q
    } else if x == q[0] {
        q
    } else {
        seq![q[0]] + insert_ascending_spec(q.drop_first(), x)
    }
}

proof fn lemma_insert_ascending_spec(q: Seq<usize>, x: usize)
    requires
        strictly_increasing(q),
    ensures
        strictly_increasing(insert_ascending_spec(q, x)),
        insert_ascending_spec(q, x).to_set() == q.to_set().insert(x),
        insert_ascending_spec(q, x).len() > 0 ==> insert_ascending_spec(q, x)[0] == (if q.len() > 0 && q[0] < x { q[0] } else { x }),
    decreases q.len(),
{
    let r = insert_ascending_spec(q, x);
    if q.len() == 0 {
        assert(r.to_set() =~= q.to_set().insert(x)) by {
            assert forall|y: usize| r.to_set().contains(y) <==> q.to_set().insert(x).contains(y) by {
                if r.to_set().contains(y) {
                    let k = choose|k: int| 0 <= k < r.len() && r[k] == y;
                }
                if y == x {
                    assert(r[0] == x);
                }
            }
        }
    } else if x < q[0] {
        assert forall|i: int, j: int| 0 <= i < j < r.len() implies r[i] < r[j] by {
            if i > 0 {
                assert(r[i] == q[i - 1] && r[j] == q[j - 1]);
            } else {
                assert(r[j] == q[j - 1]);
                if j - 1 > 0 {
                    assert(q[0] < q[j - 1]);
                }
            }
        }
        assert(r.to_set() =~= q.to_set().insert(x)) by {
            assert forall|y: usize| r.to_set().contains(y) <==> q.to_set().insert(x).contains(y) by {
                if r.to_set().contains(y) {
                    let k = choose|k: int| 0 <= k < r.len() && r[k] == y;
                    if k > 0 {
                        assert(q[k - 1] == y);
                    }
                }
                if q.to_set().contains(y) {
                    let k = choose|k: int| 0 <= k < q.len() && q[k] == y;
                    assert(r[k + 1] == y);
                }
                if y == x {
                    assert(r[0] == x);
                }
            }
        }
    } else if x == q[0] {
        assert(r.to_set() =~= q.to_set().insert(x)) by {
            assert(q.to_set().contains(q[0]));
        }
    } else {
        let t = q.drop_first();
        assert(strictly_increasing(t)) by {
            assert forall|i: int, j: int| 0 <= i < j < t.len() implies t[i] < t[j] by {
                assert(t[i] == q[i + 1] && t[j] == q[j + 1]);
            }
        }
        lemma_insert_ascending_spec(t, x);
        let rt = insert_ascending_spec(t, x);
        assert(r == seq![q[0]] + rt);
        assert forall|i: int, j: int| 0 <= i < j < r.len() implies r[i] < r[j] by {
            if i > 0 {
                assert(r[i] == rt[i - 1] && r[j] == rt[j - 1]);
            } else {
                assert(r[j] == rt[j - 1]);
                assert(rt.to_set().contains(rt[j - 1]));
                assert(t.to_set().insert(x).contains(rt[j - 1]));
                if rt[j - 1] != x {
                    let k = choose|k: int| 0 <= k < t.len() && t[k] == rt[j - 1];
                    assert(q[k + 1] == rt[j - 1]);
                }
            }
        }
        assert(r.to_set() =~= q.to_set().insert(x)) by {
            assert forall|y: usize| r.to_set().contains(y) <==> q.to_set().insert(x).contains(y) by {
                if r.to_set().contains(y) {
                    let k = choose|k: int| 0 <= k < r.len() && r[k] == y;
                    if k > 0 {
                        assert(rt[k - 1] == y);
                        assert(rt.to_set().contains(y));
                        if y != x {
                            let m = choose|m: int| 0 <= m < t.len() && t[m] == y;
                            assert(q[m + 1] == y);
                        }
                    }
                }
                if q.to_set().contains(y) {
                    let k = choose|k: int| 0 <= k < q.len() && q[k] == y;
                    if k == 0 {
                        assert(r[0] == y);
                    } else {
                        assert(t[k - 1] == y);
                        assert(t.to_set().contains(y));
                        assert(rt.to_set().contains(y));
                        let m = choose|m: int| 0 <= m < rt.len() && rt[m] == y;
                        assert(r[m + 1] == y);
                    }
                }
                if y == x {
                    assert(rt.to_set().contains(x));
                    let m = choose|m: int| 0 <= m < rt.len() && rt[m] == x;
                    assert(r[m + 1] == x);
                }
            }
        }
    }
}

/// A finite set of ids can be listed in ascending order.
proof fn lemma_ascending_listing_exists(ids: Set<usize>)
    requires
        ids.finite(),
    ensures
        exists|q: Seq<usize>| strictly_increasing(q) && q.to_set() == ids,
    decreases ids.len(),
{
    if ids.len() == 0 {
        assert(ids =~= Set::<usize>::empty());
        let q = Seq::<usize>::empty();
        assert(q.to_set() =~= ids);
        assert(strictly_increasing(q) && q.to_set() == ids);
    } else {
        let x = ids.choose();
        let rest = ids.remove(x);
        lemma_ascending_listing_exists(rest);
        let q = choose|q: Seq<usize>| strictly_increasing(q) && q.to_set() == rest;
        lemma_insert_ascending_spec(q, x);
        let r = insert_ascending_spec(q, x);
        assert(r.to_set() =~= ids);
        assert(strictly_increasing(r) && r.to_set() == ids);
    }
}

/// The counts of a tally match its blocks and skipped lines, and the block keys are
/// distinct.
pub open spec fn tally_consistent(st: FixState, n: nat) -> bool {
    &&& st.generated + st.skipped <= n
    &&& st.generated == st.blocks.len()
    &&& st.skipped == st.messages.len()
    &&& st.seen.len() == st.blocks.len()
    &&& st.seen.no_duplicates()
}

proof fn lemma_fix_step_consistent(st: FixState, out: RowOutcome, n: nat)
    requires
        tally_consistent(st, n),
    ensures
        tally_consistent(fix_step(st, out), n + 1),
{
    match out {
        RowOutcome::Skipped(m) => {},
        RowOutcome::Built { target, key, text } => {
            if !st.seen.contains(key) {
                let s2 = st.seen.push(key);
                assert forall|i: int, j: int| 0 <= i < s2.len() && 0 <= j < s2.len() && i != j implies s2[i] != s2[j] by {
                    if i < st.seen.len() && j < st.seen.len() {
                        assert(s2[i] == st.seen[i] && s2[j] == st.seen[j]);
                    } else if i < st.seen.len() {
                        assert(s2[i] == st.seen[i] && s2[j] == key);
                    } else {
                        assert(s2[j] == st.seen[j] && s2[i] == key);
                    }
                }
            }
        },
    }
}

proof fn lemma_fix_fold_consistent(ids: Seq<usize>, discs: Seq<DiscrepancyView>, servers: ServersData, ddls: ServerTableDdls, reference: Seq<char>)
    ensures
        tally_consistent(fix_fold(ids, discs, servers, ddls, reference), ids.len()),
    decreases ids.len(),
{
    if ids.len() > 0 {
        lemma_fix_fold_consistent(ids.drop_last(), discs, servers, ddls, reference);
        let st = fix_fold(ids.drop_last(), discs, servers, ddls, reference);
        lemma_fix_step_consistent(st, row_outcome(ids.last(), discs, servers, ddls, reference), (ids.len() - 1) as nat);
    }
}

/// A fix script counts each selected discrepancy at most once, as generated or as
/// skipped, and emits no block twice (their keys are distinct).
pub proof fn fix_script_counts_each_selection_once(
    discs: Seq<DiscrepancyView>,
    ids: Set<usize>,
    servers: ServersData,
    ddls: ServerTableDdls,
    reference: Seq<char>,
)
    requires
        ids.finite(),
    ensures
        match fix_script(discs, ids, servers, ddls, reference) {
            Ok((_, g, s)) => g + s <= ids.len(),
            Err(_) => true,
        },
        ids != Set::<usize>::empty() && servers.has(reference)
            ==> tally_consistent(fix_fold(sorted_ids(ids), discs, servers, ddls, reference), ids.len()),
{
    lemma_ascending_listing_exists(ids);
    let q = sorted_ids(ids);
    assert(strictly_increasing(q) && q.to_set() == ids);
    assert(q.no_duplicates()) by {
        assert forall|i: int, j: int| 0 <= i < q.len() && 0 <= j < q.len() && i != j implies q[i] != q[j] by {
            if i < j {
                assert(q[i] < q[j]);
            } else {
                assert(q[j] < q[i]);
            }
        }
    }
    q.unique_seq_to_set();
    lemma_fix_fold_consistent(q, discs, servers, ddls, reference);
}

/// The `ALTER TABLE … ADD` statement that adds `column` to `table` as the reference
/// column `col` describes it: its trimmed data type, its trimmed length in parentheses
/// when it has a non-blank one, and ` DEFAULT ` with its trimmed default expression when
/// it has a non-blank one.
pub open spec fn add_column_statement(table: Seq<char>, column: Seq<char>, col: ColumnInfo) -> Seq<char> {
    let ty = trim(col.data_type.unwrap()@);
    let len = match col.data_length {
        Some(l) => if trim(l@).len() > 0 { seq!['('] + trim(l@) + seq![')'] } else { Seq::<char>::empty() },
        None => Seq::<char>::empty(),
    };
    let def = match col.data_default {
        Some(d) => if trim(d@).len() > 0 { " DEFAULT "@ + trim(d@) } else { Seq::<char>::empty() },
        None => Seq::<char>::empty(),
    };
    "ALTER TABLE "@ + quoted_ident_spec(table) + " ADD ("@ + quoted_ident_spec(column) + seq![' '] + ty + len + def
        + seq![')']
}

/// A column the reference has, with a data type, gets a block whose executed statement
/// adds it with the reference type and, when the reference has a default, that default:
/// the block holds the statement as a quoted SQL literal.
pub proof fn added_column_keeps_type_and_default(table: Seq<char>, column: Seq<char>, col: ColumnInfo)
    requires
        col.data_type matches Some(t) && trim(t@).len() > 0,
    ensures
        add_column_block(table, column, col) matches Some(b)
            && contains(b, sql_literal_spec(add_column_statement(table, column, col))),
{
    let b = add_column_block(table, column, col)->0;
    let ty = trim(col.data_type.unwrap()@);
    let len = match col.data_length {
        Some(l) => if trim(l@).len() > 0 { seq!['('] + trim(l@) + seq![')'] } else { Seq::<char>::empty() },
        None => Seq::<char>::empty(),
    };
    let def = match col.data_default {
        Some(d) => if trim(d@).len() > 0 { " DEFAULT "@ + trim(d@) } else { Seq::<char>::empty() },
        None => Seq::<char>::empty(),
    };
    assert(crate::fix::desired_type(col) == Some(ty + len));
    assert(crate::fix::default_clause(col) == def);
    let alter = "ALTER TABLE "@ + quoted_ident_spec(table) + " ADD ("@ + quoted_ident_spec(column) + seq![' ']
        + (ty + len) + def + seq![')'];
    assert(alter =~= add_column_statement(table, column, col));
    let tk = sql_literal_spec(upper_key(table));
    let lit = sql_literal_spec(add_column_statement(table, column, col));
    let pre = ADD_COLUMN_0@ + tk + ADD_COLUMN_1@ + tk + ADD_COLUMN_2@ + sql_literal_spec(upper_key(column)) + ADD_COLUMN_3@;
    let post = ADD_COLUMN_4@ + comment_suffix_of(table, column, col);
    assert(b =~= pre + lit + post);
    assert((pre + lit + post).subrange(pre.len() as int, (pre.len() + lit.len()) as int) =~= lit);
    assert(occurs_at(b, lit, pre.len() as int));
}

proof fn lemma_contains_middle(pre: Seq<char>, mid: Seq<char>, post: Seq<char>)
    ensures
        contains(pre + mid + post, mid),
{
    assert((pre + mid + post).subrange(pre.len() as int, (pre.len() + mid.len()) as int) =~= mid);
    assert(occurs_at(pre + mid + post, mid, pre.len() as int));
}

/// The `ALTER TABLE … MODIFY` statement that gives `column` of `table` the reference
/// type: the trimmed data type, with the trimmed length in parentheses when it has a
/// non-blank one.
pub open spec fn modify_type_statement(table: Seq<char>, column: Seq<char>, col: ColumnInfo) -> Seq<char> {
    let ty = trim(col.data_type.unwrap()@);
    let len = match col.data_length {
        Some(l) => if trim(l@).len() > 0 { seq!['('] + trim(l@) + seq![')'] } else { Seq::<char>::empty() },
        None => Seq::<char>::empty(),
    };
    "ALTER TABLE "@ + quoted_ident_spec(table) + " MODIFY ("@ + quoted_ident_spec(column) + seq![' '] + ty + len
        + seq![')']
}

/// A column whose reference has a data type gets a block whose executed statement
/// changes its type to the reference type and length: the block holds the statement
/// as a quoted SQL literal.
pub proof fn modified_column_takes_reference_type(table: Seq<char>, column: Seq<char>, col: ColumnInfo)
    requires
        col.data_type matches Some(t) && trim(t@).len() > 0,
    ensures
        modify_type_block(table, column, col) matches Some(b)
            && contains(b, sql_literal_spec(modify_type_statement(table, column, col))),
{
    let b = modify_type_block(table, column, col)->0;
    let ty = trim(col.data_type.unwrap()@);
    let len = match col.data_length {
        Some(l) => if trim(l@).len() > 0 { seq!['('] + trim(l@) + seq![')'] } else { Seq::<char>::empty() },
        None => Seq::<char>::empty(),
    };
    assert(crate::fix::desired_type(col) == Some(ty + len));
    let alter = "ALTER TABLE "@ + quoted_ident_spec(table) + " MODIFY ("@ + quoted_ident_spec(column) + seq![' ']
        + (ty + len) + seq![')'];
    assert(alter =~= modify_type_statement(table, column, col));
    let dtype = crate::fix::present(col.data_type)->0;
    let dlen = match crate::fix::present(col.data_length) {
        Some(l) => l,
        None => NULL_TOKEN@,
    };
    let tk = sql_literal_spec(upper_key(table));
    let ck = sql_literal_spec(upper_key(column));
    let nl = sql_literal_spec(NULL_TOKEN@);
    let pre = MODIFY_TYPE_0@ + tk + MODIFY_TYPE_1@ + ck + MODIFY_TYPE_2@ + tk + MODIFY_TYPE_3@ + ck
        + MODIFY_TYPE_4@ + sql_literal_spec(dtype) + MODIFY_TYPE_5@ + nl + MODIFY_TYPE_6@
        + sql_literal_spec(dlen) + MODIFY_TYPE_7@ + nl + MODIFY_TYPE_8@;
    let lit = sql_literal_spec(alter);
    assert(b =~= pre + lit + MODIFY_TYPE_9@);
    lemma_contains_middle(pre, lit, MODIFY_TYPE_9@);
}

/// The `ALTER TABLE … MODIFY` statement that sets the default of `column` of `table`
/// to the reference default: its trimmed default expression when it has a non-blank
/// one, else `NULL`.
pub open spec fn default_statement(table: Seq<char>, column: Seq<char>, col: ColumnInfo) -> Seq<char> {
    let value = match col.data_default {
        Some(d) => if trim(d@).len() > 0 { trim(d@) } else { "NULL"@ },
        None => "NULL"@,
    };
    "ALTER TABLE "@ + quoted_ident_spec(table) + " MODIFY ("@ + quoted_ident_spec(column) + " DEFAULT "@ + value
        + seq![')']
}

/// The default block of a column executes the statement that sets its default to the
/// reference default, or to `NULL` when the reference has none: the block holds the
/// statement as a quoted SQL literal.
pub proof fn default_change_sets_reference_default(table: Seq<char>, column: Seq<char>, col: ColumnInfo)
    ensures
        contains(default_block(table, column, col), sql_literal_spec(default_statement(table, column, col))),
{
    reveal_strlit(" DEFAULT NULL)");
    reveal_strlit(" DEFAULT ");
    reveal_strlit("NULL");
    let b = default_block(table, column, col);
    let alter = match crate::fix::present(col.data_default) {
        Some(e) => "ALTER TABLE "@ + quoted_ident_spec(table) + " MODIFY ("@ + quoted_ident_spec(column)
            + " DEFAULT "@ + e + seq![')'],
        None => "ALTER TABLE "@ + quoted_ident_spec(table) + " MODIFY ("@ + quoted_ident_spec(column)
            + " DEFAULT NULL)"@,
    };
    assert(alter =~= default_statement(table, column, col));
    let token = match crate::fix::present(col.data_default) {
        Some(d) => d,
        None => NULL_TOKEN@,
    };
    let tk = sql_literal_spec(upper_key(table));
    let ck = sql_literal_spec(upper_key(column));
    let nl = sql_literal_spec(NULL_TOKEN@);
    let pre = DEFAULT_0@ + tk + DEFAULT_1@ + ck + DEFAULT_2@ + tk + DEFAULT_3@ + ck + DEFAULT_4@ + nl + DEFAULT_5@
        + sql_literal_spec(token) + DEFAULT_6@ + nl + DEFAULT_7@;
    let lit = sql_literal_spec(alter);
    assert(b =~= pre + lit + DEFAULT_8@);
    lemma_contains_middle(pre, lit, DEFAULT_8@);
}

/// The `COMMENT ON COLUMN` statement that gives `column` of `table` the trimmed
/// reference comment (empty when the reference has none).
pub open spec fn comment_statement(table: Seq<char>, column: Seq<char>, col: ColumnInfo) -> Seq<char> {
    let text = match col.comments {
        Some(c) => trim(c@),
        None => Seq::<char>::empty(),
    };
    "COMMENT ON COLUMN "@ + quoted_ident_spec(table) + seq!['.'] + quoted_ident_spec(column) + " IS "@
        + sql_literal_spec(text)
}

/// The comment block of a column executes the statement that sets its comment to the
/// trimmed reference comment: the block holds the statement as a quoted SQL literal.
pub proof fn comment_change_sets_reference_comment(table: Seq<char>, column: Seq<char>, col: ColumnInfo)
    ensures
        contains(comment_text(table, column, desired_comment(col)),
            sql_literal_spec(comment_statement(table, column, col))),
{
    let text = desired_comment(col);
    let b = comment_text(table, column, text);
    let lit = sql_literal_spec(crate::fix::comment_sql(table, column, text));
    assert(crate::fix::comment_sql(table, column, text) =~= comment_statement(table, column, col));
    let pre = COMMENT_0@ + sql_literal_spec(upper_key(table)) + COMMENT_1@ + sql_literal_spec(upper_key(column))
        + COMMENT_2@ + sql_literal_spec(text) + COMMENT_3@;
    assert(b =~= pre + lit + COMMENT_4@);
    lemma_contains_middle(pre, lit, COMMENT_4@);
}

proof fn lemma_fix_kind_of_field_row(row: DiscrepancyView, key: Seq<char>)
    requires
        row.difference == "DIFFERENT"@,
        key == "DATA_TYPE:"@ || key == "DATA_DEFAULT:"@ || key == "COMMENTS:"@,
        starts_with(row.details, key),
    ensures
        key == "DATA_TYPE:"@ ==> fix_kind(row) == FixKind::DataType,
        key == "DATA_DEFAULT:"@ ==> fix_kind(row) == FixKind::DataDefault,
        key == "COMMENTS:"@ ==> fix_kind(row) == FixKind::Comments,
{
    reveal_strlit("DIFFERENT");
    reveal_strlit("MISSING");
    reveal_strlit("DATA_TYPE:");
    reveal_strlit("DATA_DEFAULT:");
    reveal_strlit("COMMENTS:");
    assert(lower("DIFFERENT"@).len() != lower("MISSING"@).len());
    assert(row.details.take(key.len() as int) == key);
    if key == "DATA_DEFAULT:"@ {
        assert(row.details.take(13)[5] == row.details[5]);
        assert("DATA_DEFAULT:"@[5] == 'D');
        assert(row.details[5] == 'D');
        assert("DATA_TYPE:"@[5] == 'T');
        assert(!starts_with(row.details, "DATA_TYPE:"@)) by {
            if starts_with(row.details, "DATA_TYPE:"@) {
                assert(row.details.take(10)[5] == 'T');
            }
        }
    }
    if key == "COMMENTS:"@ {
        assert(row.details.take(9)[0] == row.details[0]);
        assert("COMMENTS:"@[0] == 'C');
        assert(row.details[0] == 'C');
        assert(!starts_with(row.details, "DATA_TYPE:"@)) by {
            if starts_with(row.details, "DATA_TYPE:"@) {
                assert(row.details.take(10)[0] == 'D');
            }
        }
        assert(!starts_with(row.details, "DATA_DEFAULT:"@)) by {
            if starts_with(row.details, "DATA_DEFAULT:"@) {
                assert(row.details.take(13)[0] == 'D');
            }
        }
    }
}

/// The fix of a column-level discrepancy on a column the reference server has runs
/// the statement that gives the target column the reference's metadata: for a
/// `DIFFERENT` row about the data type, the reference type; about the default, the
/// reference default; about the comment, the reference comment; and for a `MISSING`
/// row with a column name, it adds the column as the reference has it.
pub proof fn column_fix_applies_reference_metadata(row: DiscrepancyView, servers: ServersData, reference: Seq<char>)
    requires
        reference_column(servers, reference, trim(row.table_name), trim(row.column_name)) is Some,
    ensures
        ({
            let c = reference_column(servers, reference, trim(row.table_name), trim(row.column_name))->0;
            let t = trim(row.table_name);
            let col = trim(row.column_name);
            &&& row.difference == "DIFFERENT"@ && starts_with(row.details, "DATA_TYPE:"@)
                && (c.data_type matches Some(ty) && trim(ty@).len() > 0)
                ==> (column_block(fix_kind(row), row, servers, reference) matches BlockOutcome::Built(b)
                    && contains(b, sql_literal_spec(modify_type_statement(t, col, c))))
            &&& row.difference == "DIFFERENT"@ && starts_with(row.details, "DATA_DEFAULT:"@)
                ==> (column_block(fix_kind(row), row, servers, reference) matches BlockOutcome::Built(b)
                    && contains(b, sql_literal_spec(default_statement(t, col, c))))
            &&& row.difference == "DIFFERENT"@ && starts_with(row.details, "COMMENTS:"@)
                ==> (column_block(fix_kind(row), row, servers, reference) matches BlockOutcome::Built(b)
                    && contains(b, sql_literal_spec(comment_statement(t, col, c))))
            &&& row.difference == "MISSING"@ && col.len() > 0 && (c.data_type matches Some(ty) && trim(ty@).len() > 0)
                ==> (column_block(fix_kind(row), row, servers, reference) matches BlockOutcome::Built(b)
                    && contains(b, sql_literal_spec(add_column_statement(t, col, c))))
        }),
{
    let c = reference_column(servers, reference, trim(row.table_name), trim(row.column_name))->0;
    let t = trim(row.table_name);
    let col = trim(row.column_name);
    if row.difference == "DIFFERENT"@ && starts_with(row.details, "DATA_TYPE:"@) {
        lemma_fix_kind_of_field_row(row, "DATA_TYPE:"@);
        if c.data_type matches Some(ty) && trim(ty@).len() > 0 {
            modified_column_takes_reference_type(t, col, c);
        }
    }
    if row.difference == "DIFFERENT"@ && starts_with(row.details, "DATA_DEFAULT:"@) {
        lemma_fix_kind_of_field_row(row, "DATA_DEFAULT:"@);
        default_change_sets_reference_default(t, col, c);
    }
    if row.difference == "DIFFERENT"@ && starts_with(row.details, "COMMENTS:"@) {
        lemma_fix_kind_of_field_row(row, "COMMENTS:"@);
        comment_change_sets_reference_comment(t, col, c);
    }
    if row.difference == "MISSING"@ && col.len() > 0 {
        reveal_strlit("MISSING");
        assert(crate::text::eq_ci(row.difference, "MISSING"@));
        assert(fix_kind(row) == FixKind::MissingColumn);
        if c.data_type matches Some(ty) && trim(ty@).len() > 0 {
            added_column_keeps_type_and_default(t, col, c);
        }
    }
}

} // verus!
