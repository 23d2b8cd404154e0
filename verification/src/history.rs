//! History-table checks: finding main/history table pairs by the user's naming rules
//! and comparing their columns into issues and the SQL that fixes them.
use vstd::prelude::*;
use crate::models::{HistoryNamingRule, HistoryTableIssue, MatchType, IssueView, issue_views, opt_view};
use crate::text::{
    upper, lower, trim, eq_ci, decimal, join, texts, push_char, trimmed, to_upper, to_lower, join_exec, usize_decimal,
    eq_ignore_case, same_text,
};

verus! {

/// The database dialect a query is written for.
#[derive(Clone, Copy, PartialEq, Eq, Structural)]
pub enum Dialect {
    Oracle,
    Postgres,
}

/// A rule that pairs tables: enabled, with a non-blank pattern, by prefix or suffix.
pub open spec fn is_history_rule(r: HistoryNamingRule) -> bool {
    r.enabled && trim(r.pattern@).len() > 0 && (r.match_type == MatchType::Prefix || r.match_type == MatchType::Suffix)
}

/// The rules that pair tables, in order.
pub open spec fn history_rules(rs: Seq<HistoryNamingRule>) -> Seq<HistoryNamingRule>
    decreases rs.len(),
{
    if rs.len() == 0 {
        Seq::empty()
    } else if is_history_rule(rs.last()) {
        history_rules(rs.drop_last()).push(rs.last())
    } else {
        history_rules(rs.drop_last())
    }
}

/// A rule's pattern, trimmed and in the catalog's case (upper for Oracle, lower for
/// Postgres).
pub open spec fn rule_pattern(d: Dialect, r: HistoryNamingRule) -> Seq<char> {
    match d {
        Dialect::Oracle => upper(trim(r.pattern@)),
        Dialect::Postgres => lower(trim(r.pattern@)),
    }
}

/// The `LIKE` pattern of the names a rule gives history tables.
pub open spec fn rule_wildcard(d: Dialect, r: HistoryNamingRule) -> Seq<char> {
    if r.match_type == MatchType::Prefix { rule_pattern(d, r) + seq!['%'] } else { seq!['%'] + rule_pattern(d, r) }
}

/// The alias of the `i`-th rule's join.
pub open spec fn alias(i: nat) -> Seq<char> {
    seq!['h'] + decimal(i)
}

/// The placeholder numbered `n`.
pub open spec fn placeholder(d: Dialect, n: nat) -> Seq<char> {
    match d {
        Dialect::Oracle => seq![':'] + decimal(n),
        Dialect::Postgres => seq!['$'] + decimal(n),
    }
}

/// The join that looks for the history table of the `i`-th rule.
pub open spec fn join_clause(d: Dialect, i: nat, r: HistoryNamingRule) -> Seq<char> {
    let a = alias(i);
    let ph = placeholder(d, 2 + 2 * i);
    match d {
        Dialect::Oracle => " LEFT JOIN ALL_TABLES "@ + a + " ON "@ + a + ".OWNER = t.OWNER AND LOWER("@ + a
            + ".TABLE_NAME) = LOWER("@ + (if r.match_type == MatchType::Prefix {
                ph + " || t.TABLE_NAME)"@
            } else {
                "t.TABLE_NAME || "@ + ph + seq![')']
            }),
        Dialect::Postgres => " LEFT JOIN information_schema.tables "@ + a + " ON "@ + a
            + ".table_schema = t.table_schema AND lower("@ + a + ".table_name) = lower("@
            + (if r.match_type == MatchType::Prefix {
                ph + " || t.table_name)"@
            } else {
                "t.table_name || "@ + ph + seq![')']
            }),
    }
}

/// The condition that keeps the `i`-th rule's history tables out of the main tables.
pub open spec fn not_like_clause(d: Dialect, i: nat) -> Seq<char> {
    match d {
        Dialect::Oracle => "UPPER(t.TABLE_NAME) NOT LIKE "@ + placeholder(d, 3 + 2 * i),
        Dialect::Postgres => "lower(t.table_name) NOT LIKE "@ + placeholder(d, 3 + 2 * i),
    }
}

/// The history-table name column of the `i`-th rule's join.
pub open spec fn name_col(d: Dialect, i: nat) -> Seq<char> {
    match d {
        Dialect::Oracle => alias(i) + ".TABLE_NAME"@,
        Dialect::Postgres => alias(i) + ".table_name"@,
    }
}

/// The joins of the rules.
pub open spec fn joins_text(d: Dialect, rs: Seq<HistoryNamingRule>) -> Seq<char>
    decreases rs.len(),
{
    if rs.len() == 0 {
        Seq::empty()
    } else {
        joins_text(d, rs.drop_last()) + join_clause(d, (rs.len() - 1) as nat, rs.last())
    }
}

/// The not-like conditions of the first `n` rules.
pub open spec fn not_like_clauses(d: Dialect, n: nat) -> Seq<Seq<char>> {
    Seq::new(n, |i: int| not_like_clause(d, i as nat))
}

/// The history-table name columns of the first `n` rules.
pub open spec fn name_cols(d: Dialect, n: nat) -> Seq<Seq<char>> {
    Seq::new(n, |i: int| name_col(d, i as nat))
}

/// The history-table name: the one column, or the first non-null of them.
pub open spec fn history_name_expr(cols: Seq<Seq<char>>) -> Seq<char> {
    if cols.len() == 1 { cols[0] } else { "COALESCE("@ + join(cols, ", "@) + seq![')'] }
}

/// Some rule found a history table.
pub open spec fn has_pair_clause(cols: Seq<Seq<char>>) -> Seq<char> {
    join(cols.map_values(|c: Seq<char>| c + " IS NOT NULL"@), " OR "@)
}

/// The query that lists main tables with their history tables, one join per rule.
pub open spec fn pair_sql(d: Dialect, rs: Seq<HistoryNamingRule>) -> Seq<char> {
    let cols = name_cols(d, rs.len());
    let nl = join(not_like_clauses(d, rs.len()), " AND "@);
    match d {
        Dialect::Oracle => "SELECT t.TABLE_NAME, "@ + history_name_expr(cols) + " FROM ALL_TABLES t"@ + joins_text(d, rs)
            + " WHERE t.OWNER = :1 AND "@ + nl + " AND ("@ + has_pair_clause(cols) + ") ORDER BY t.TABLE_NAME"@,
        Dialect::Postgres => "SELECT t.table_name, "@ + history_name_expr(cols) + " FROM information_schema.tables t"@
            + joins_text(d, rs) + " WHERE t.table_schema = $1 AND t.table_type = 'BASE TABLE' AND "@ + nl + " AND ("@
            + has_pair_clause(cols) + ") ORDER BY t.table_name"@,
    }
}

/// The rules' patterns.
pub open spec fn patterns(d: Dialect, rs: Seq<HistoryNamingRule>) -> Seq<Seq<char>> {
    rs.map_values(|r: HistoryNamingRule| rule_pattern(d, r))
}

/// The rules' wildcards.
pub open spec fn wildcards(d: Dialect, rs: Seq<HistoryNamingRule>) -> Seq<Seq<char>> {
    rs.map_values(|r: HistoryNamingRule| rule_wildcard(d, r))
}

/// The pattern and wildcard of each rule in turn.
pub open spec fn interleaved(d: Dialect, rs: Seq<HistoryNamingRule>) -> Seq<Seq<char>>
    decreases rs.len(),
{
    if rs.len() == 0 {
        Seq::empty()
    } else {
        interleaved(d, rs.drop_last()).push(rule_pattern(d, rs.last())).push(rule_wildcard(d, rs.last()))
    }
}

/// The values bound to the pair query, in the order the driver binds them: Oracle by
/// position in the text (the join patterns, the schema, the wildcards), Postgres by
/// number (the schema, then each rule's pattern and wildcard).
pub open spec fn pair_binds(d: Dialect, rs: Seq<HistoryNamingRule>, schema: Seq<char>) -> Seq<Seq<char>> {
    match d {
        Dialect::Oracle => patterns(d, rs) + seq![schema] + wildcards(d, rs),
        Dialect::Postgres => seq![schema] + interleaved(d, rs),
    }
}

/// The patterns of the prefix rules, which also mark history columns.
pub open spec fn prefix_patterns(d: Dialect, rs: Seq<HistoryNamingRule>) -> Seq<Seq<char>>
    decreases rs.len(),
{
    if rs.len() == 0 {
        Seq::empty()
    } else if rs.last().match_type == MatchType::Prefix {
        prefix_patterns(d, rs.drop_last()).push(rule_pattern(d, rs.last()))
    } else {
        prefix_patterns(d, rs.drop_last())
    }
}

/// The query that finds main/history table pairs, its bound values and the prefixes
/// that mark history columns.
pub struct HistoryPairQuery {
    pub sql: String,
    pub binds: Vec<String>,
    pub prefix_patterns: Vec<String>,
}

/// The rules that pair tables, in order.
pub fn active_history_rules(rules: &[HistoryNamingRule]) -> (r: Vec<HistoryNamingRule>)
    ensures
        r@ == history_rules(rules@),
{
    let mut out: Vec<HistoryNamingRule> = Vec::new();
    let mut i: usize = 0;
    assert(rules@.take(0) =~= Seq::<HistoryNamingRule>::empty());
    while i < rules.len()
        invariant
            i <= rules.len(),
            out@ == history_rules(rules@.take(i as int)),
        decreases rules.len() - i,
    {
        assert(rules@.take(i + 1).drop_last() =~= rules@.take(i as int));
        let r = &rules[i];
        let by_name = match r.match_type {
            MatchType::Prefix => true,
            MatchType::Suffix => true,
            _ => false,
        };
        if r.enabled && !crate::text::is_blank(r.pattern.as_str()) && by_name {
            out.push(r.duplicate());
        }
        i += 1;
    }
    assert(rules@.take(rules.len() as int) =~= rules@);
    out
}

fn rule_pattern_exec(d: Dialect, r: &HistoryNamingRule) -> (p: String)
    ensures
        p@ == rule_pattern(d, *r),
{
    let t = trimmed(r.pattern.as_str());
    match d {
        Dialect::Oracle => to_upper(t.as_str()),
        Dialect::Postgres => to_lower(t.as_str()),
    }
}

fn rule_wildcard_exec(d: Dialect, r: &HistoryNamingRule) -> (w: String)
    ensures
        w@ == rule_wildcard(d, *r),
{
    let p = rule_pattern_exec(d, r);
    if r.match_type == MatchType::Prefix {
        let mut w = p;
        push_char(&mut w, '%');
        w
    } else {
        let mut w = String::new();
        push_char(&mut w, '%');
        w.append(p.as_str());
        w
    }
}

fn alias_exec(i: usize) -> (a: String)
    ensures
        a@ == alias(i as nat),
{
    let mut a = String::new();
    push_char(&mut a, 'h');
    a.append(usize_decimal(i).as_str());
    a
}

fn placeholder_exec(d: Dialect, n: usize) -> (p: String)
    ensures
        p@ == placeholder(d, n as nat),
{
    let mut p = String::new();
    match d {
        Dialect::Oracle => push_char(&mut p, ':'),
        Dialect::Postgres => push_char(&mut p, '$'),
    }
    p.append(usize_decimal(n).as_str());
    p
}

fn join_clause_exec(d: Dialect, i: usize, r: &HistoryNamingRule) -> (j: String)
    requires
        i < usize::MAX / 4,
    ensures
        j@ == join_clause(d, i as nat, *r),
{
    let a = alias_exec(i);
    let ph = placeholder_exec(d, 2 + 2 * i);
    let mut j = String::new();
    match d {
        Dialect::Oracle => {
            j.append(" LEFT JOIN ALL_TABLES ");
            j.append(a.as_str());
            j.append(" ON ");
            j.append(a.as_str());
            j.append(".OWNER = t.OWNER AND LOWER(");
            j.append(a.as_str());
            j.append(".TABLE_NAME) = LOWER(");
            if r.match_type == MatchType::Prefix {
                j.append(ph.as_str());
                j.append(" || t.TABLE_NAME)");
            } else {
                j.append("t.TABLE_NAME || ");
                j.append(ph.as_str());
                push_char(&mut j, ')');
            }
        },
        Dialect::Postgres => {
            j.append(" LEFT JOIN information_schema.tables ");
            j.append(a.as_str());
            j.append(" ON ");
            j.append(a.as_str());
            j.append(".table_schema = t.table_schema AND lower(");
            j.append(a.as_str());
            j.append(".table_name) = lower(");
            if r.match_type == MatchType::Prefix {
                j.append(ph.as_str());
                j.append(" || t.table_name)");
            } else {
                j.append("t.table_name || ");
                j.append(ph.as_str());
                push_char(&mut j, ')');
            }
        },
    }
    assert(j@ =~= join_clause(d, i as nat, *r));
    j
}

fn not_like_exec(d: Dialect, i: usize) -> (c: String)
    requires
        i < usize::MAX / 4,
    ensures
        c@ == not_like_clause(d, i as nat),
{
    let ph = placeholder_exec(d, 3 + 2 * i);
    let mut c = String::new();
    match d {
        Dialect::Oracle => c.append("UPPER(t.TABLE_NAME) NOT LIKE "),
        Dialect::Postgres => c.append("lower(t.table_name) NOT LIKE "),
    }
    c.append(ph.as_str());
    c
}

fn name_col_exec(d: Dialect, i: usize) -> (c: String)
    ensures
        c@ == name_col(d, i as nat),
{
    let mut c = alias_exec(i);
    match d {
        Dialect::Oracle => c.append(".TABLE_NAME"),
        Dialect::Postgres => c.append(".table_name"),
    }
    c
}

/// The query that finds main/history table pairs with its bound values, built from
/// the rules that pair tables; none when no rule does.
pub fn history_pair_query(d: Dialect, rules: &[HistoryNamingRule], schema: &str) -> (r: Option<HistoryPairQuery>)
    requires
        rules@.len() < usize::MAX / 4,
    ensures
        match r {
            None => history_rules(rules@).len() == 0,
            Some(q) => {
                let rs = history_rules(rules@);
                &&& rs.len() > 0
                &&& q.sql@ == pair_sql(d, rs)
                &&& texts(q.binds@) == pair_binds(d, rs, schema@)
                &&& texts(q.prefix_patterns@) == prefix_patterns(d, rs)
            },
        },
{
    let rs = active_history_rules(rules);
    proof { lemma_history_rules_len(rules@); }
    if rs.len() == 0 {
        return None;
    }
    let mut joins = String::new();
    let mut not_likes: Vec<String> = Vec::new();
    let mut cols: Vec<String> = Vec::new();
    let mut pats: Vec<String> = Vec::new();
    let mut wilds: Vec<String> = Vec::new();
    let mut mixed: Vec<String> = Vec::new();
    let mut prefixes: Vec<String> = Vec::new();
    let mut i: usize = 0;
    assert(rs@.take(0) =~= Seq::<HistoryNamingRule>::empty());
    while i < rs.len()
        invariant
            i <= rs.len(),
            rs.len() < usize::MAX / 4,
            joins@ == joins_text(d, rs@.take(i as int)),
            texts(not_likes@) == not_like_clauses(d, i as nat),
            texts(cols@) == name_cols(d, i as nat),
            texts(pats@) == patterns(d, rs@.take(i as int)),
            texts(wilds@) == wildcards(d, rs@.take(i as int)),
            texts(mixed@) == interleaved(d, rs@.take(i as int)),
            texts(prefixes@) == prefix_patterns(d, rs@.take(i as int)),
        decreases rs.len() - i,
    {
        let r = &rs[i];
        let ghost t = rs@.take(i + 1);
        assert(t.drop_last() =~= rs@.take(i as int));
        assert(t.last() == *r);
        let j = join_clause_exec(d, i, r);
        joins.append(j.as_str());
        let ghost nl0 = not_likes@;
        not_likes.push(not_like_exec(d, i));
        assert(texts(not_likes@) =~= texts(nl0).push(not_like_clause(d, i as nat)));
        assert(not_like_clauses(d, (i + 1) as nat) =~= not_like_clauses(d, i as nat).push(not_like_clause(d, i as nat)));
        let ghost c0 = cols@;
        cols.push(name_col_exec(d, i));
        assert(texts(cols@) =~= texts(c0).push(name_col(d, i as nat)));
        assert(name_cols(d, (i + 1) as nat) =~= name_cols(d, i as nat).push(name_col(d, i as nat)));
        let p = rule_pattern_exec(d, r);
        let w = rule_wildcard_exec(d, r);
        let ghost p0 = pats@;
        pats.push(p.clone());
        assert(texts(pats@) =~= texts(p0).push(rule_pattern(d, *r)));
        assert(patterns(d, t) =~= patterns(d, rs@.take(i as int)).push(rule_pattern(d, *r)));
        let ghost w0 = wilds@;
        wilds.push(w.clone());
        assert(texts(wilds@) =~= texts(w0).push(rule_wildcard(d, *r)));
        assert(wildcards(d, t) =~= wildcards(d, rs@.take(i as int)).push(rule_wildcard(d, *r)));
        let ghost m0 = mixed@;
        mixed.push(p.clone());
        mixed.push(w);
        assert(texts(mixed@) =~= texts(m0).push(p@).push(rule_wildcard(d, *r)));
        if r.match_type == MatchType::Prefix {
            let ghost f0 = prefixes@;
            prefixes.push(p);
            assert(texts(prefixes@) =~= texts(f0).push(rule_pattern(d, *r)));
        }
        i += 1;
    }
    assert(rs@.take(rs.len() as int) =~= rs@);
    let expr = if cols.len() == 1 {
        cols[0].clone()
    } else {
        let mut e = "COALESCE(".to_string();
        e.append(join_exec(&cols, ", ").as_str());
        push_char(&mut e, ')');
        e
    };
    let mut not_null: Vec<String> = Vec::new();
    let mut k: usize = 0;
    while k < cols.len()
        invariant
            k <= cols.len(),
            not_null.len() == k,
            forall|x: int| 0 <= x < k ==> #[trigger] not_null@[x]@ == cols@[x]@ + " IS NOT NULL"@,
        decreases cols.len() - k,
    {
        let mut c = cols[k].clone();
        c.append(" IS NOT NULL");
        not_null.push(c);
        k += 1;
    }
    assert(texts(not_null@) =~= texts(cols@).map_values(|c: Seq<char>| c + " IS NOT NULL"@));
    let has_pair = join_exec(&not_null, " OR ");
    let nl = join_exec(&not_likes, " AND ");
    let mut sql = String::new();
    match d {
        Dialect::Oracle => {
            sql.append("SELECT t.TABLE_NAME, ");
            sql.append(expr.as_str());
            sql.append(" FROM ALL_TABLES t");
            sql.append(joins.as_str());
            sql.append(" WHERE t.OWNER = :1 AND ");
            sql.append(nl.as_str());
            sql.append(" AND (");
            sql.append(has_pair.as_str());
            sql.append(") ORDER BY t.TABLE_NAME");
        },
        Dialect::Postgres => {
            sql.append("SELECT t.table_name, ");
            sql.append(expr.as_str());
            sql.append(" FROM information_schema.tables t");
            sql.append(joins.as_str());
            sql.append(" WHERE t.table_schema = $1 AND t.table_type = 'BASE TABLE' AND ");
            sql.append(nl.as_str());
            sql.append(" AND (");
            sql.append(has_pair.as_str());
            sql.append(") ORDER BY t.table_name");
        },
    }
    assert(sql@ =~= pair_sql(d, rs@));
    let mut binds: Vec<String> = Vec::new();
    match d {
        Dialect::Oracle => {
            binds.append(&mut pats);
            binds.push(schema.to_string());
            binds.append(&mut wilds);
        },
        Dialect::Postgres => {
            binds.push(schema.to_string());
            binds.append(&mut mixed);
        },
    }
    assert(texts(binds@) =~= pair_binds(d, rs@, schema@));
    Some(HistoryPairQuery { sql, binds, prefix_patterns: prefixes })
}

proof fn lemma_history_rules_len(rs: Seq<HistoryNamingRule>)
    ensures
        history_rules(rs).len() <= rs.len(),
    decreases rs.len(),
{
    if rs.len() > 0 {
        lemma_history_rules_len(rs.drop_last());
    }
}

// ───────────────────────── column comparison ─────────────────────────

/// History column `h` stands for main column `col`: the same name, or a prefix
/// pattern followed by the name, ignoring ASCII case.
pub open spec fn stands_for(h: Seq<char>, col: Seq<char>, prefixes: Seq<Seq<char>>) -> bool {
    eq_ci(h, col) || exists|k: int| 0 <= k < prefixes.len() && eq_ci(h, #[trigger] prefixes[k] + col)
}

/// The first of the history columns `hnames` that stands for `col`.
pub open spec fn matching_column(hnames: Seq<Seq<char>>, col: Seq<char>, prefixes: Seq<Seq<char>>) -> Option<int> {
    if exists|i: int| 0 <= i < hnames.len() && stands_for(#[trigger] hnames[i], col, prefixes) {
        Some(choose|i: int|
            0 <= i < hnames.len() && stands_for(#[trigger] hnames[i], col, prefixes)
                && forall|j: int| 0 <= j < i ==> !stands_for(#[trigger] hnames[j], col, prefixes))
    } else {
        None
    }
}

fn stands_for_exec(h: &str, col: &str, prefixes: &Vec<String>) -> (r: bool)
    ensures
        r == stands_for(h@, col@, texts(prefixes@)),
{
    if eq_ignore_case(h, col) {
        return true;
    }
    let mut k: usize = 0;
    while k < prefixes.len()
        invariant
            k <= prefixes.len(),
            forall|x: int| 0 <= x < k ==> !eq_ci(h@, #[trigger] texts(prefixes@)[x] + col@),
        decreases prefixes.len() - k,
    {
        let mut full = prefixes[k].clone();
        full.append(col);
        if eq_ignore_case(h, full.as_str()) {
            assert(eq_ci(h@, texts(prefixes@)[k as int] + col@));
            return true;
        }
        k += 1;
    }
    false
}

fn matching_index(hnames: &Vec<String>, col: &str, prefixes: &Vec<String>) -> (r: Option<usize>)
    ensures
        match r {
            Some(i) => i < hnames.len() && matching_column(texts(hnames@), col@, texts(prefixes@)) == Some(i as int),
            None => matching_column(texts(hnames@), col@, texts(prefixes@)) is None,
        },
{
    let ghost hs = texts(hnames@);
    let ghost ps = texts(prefixes@);
    let mut i: usize = 0;
    while i < hnames.len()
        invariant
            i <= hnames.len(),
            hs == texts(hnames@),
            ps == texts(prefixes@),
            forall|j: int| 0 <= j < i ==> !stands_for(#[trigger] hs[j], col@, ps),
        decreases hnames.len() - i,
    {
        if stands_for_exec(hnames[i].as_str(), col, prefixes) {
            proof {
                assert(stands_for(hs[i as int], col@, ps));
                let c = choose|c: int|
                    0 <= c < hs.len() && stands_for(#[trigger] hs[c], col@, ps)
                        && forall|j: int| 0 <= j < c ==> !stands_for(#[trigger] hs[j], col@, ps);
                if c < i {
                    assert(!stands_for(hs[c], col@, ps));
                }
                if c > i {
                    assert(!stands_for(hs[i as int], col@, ps));
                }
            }
            return Some(i);
        }
        i += 1;
    }
    None
}

/// An issue of a history table.
pub open spec fn issue(ht: Seq<char>, col: Seq<char>, kind: Seq<char>, main: Seq<char>, hist: Seq<char>) -> IssueView {
    IssueView { history_table: ht, column_name: col, issue_type: kind, main_type: main, history_type: hist }
}

/// The names of history columns.
pub open spec fn oracle_names(cols: Seq<(String, String, Option<String>)>) -> Seq<Seq<char>> {
    cols.map_values(|c: (String, String, Option<String>)| c.0@)
}

/// One Oracle main column compared: missing in the history table, it is added with
/// the main type; present with a different formatted type, it is modified.
#[verifier::opaque]
pub open spec fn oracle_step(
    ht: Seq<char>,
    acc: (Seq<IssueView>, Seq<char>),
    m: (String, String, Option<String>),
    hist: Seq<(String, String, Option<String>)>,
    prefixes: Seq<Seq<char>>,
) -> (Seq<IssueView>, Seq<char>) {
    let (issues, fixes) = acc;
    let mfmt = crate::oracle_ddl::fmt_type_spec(m.1@, opt_view(m.2));
    match matching_column(oracle_names(hist), m.0@, prefixes) {
        None => (
            issues.push(issue(ht, m.0@, "MISSING"@, mfmt, Seq::empty())),
            fixes + "ALTER TABLE "@ + ht + " ADD "@ + m.0@ + seq![' '] + mfmt + ";\n"@,
        ),
        Some(k) => {
            let h = hist[k];
            let hfmt = crate::oracle_ddl::fmt_type_spec(h.1@, opt_view(h.2));
            if mfmt != hfmt {
                (
                    issues.push(issue(ht, m.0@, "TYPE_MISMATCH"@, mfmt, hfmt)),
                    fixes + "ALTER TABLE "@ + ht + " MODIFY "@ + h.0@ + seq![' '] + mfmt + ";\n"@,
                )
            } else {
                (issues, fixes)
            }
        },
    }
}

/// The issues and fix statements of an Oracle history table, main column by column.
pub open spec fn oracle_pair_fix(
    ht: Seq<char>,
    main: Seq<(String, String, Option<String>)>,
    hist: Seq<(String, String, Option<String>)>,
    prefixes: Seq<Seq<char>>,
) -> (Seq<IssueView>, Seq<char>)
    decreases main.len(),
{
    if main.len() == 0 {
        (Seq::empty(), Seq::empty())
    } else {
        oracle_step(ht, oracle_pair_fix(ht, main.drop_last(), hist, prefixes), main.last(), hist, prefixes)
    }
}

/// The fix section of one history table: a header and its statements, or nothing.
pub open spec fn fix_section(ht: Seq<char>, fixes: Seq<char>) -> Seq<char> {
    if fixes.len() == 0 { Seq::empty() } else { "\n-- Alter table "@ + ht + seq!['\n'] + fixes }
}

fn fix_section_exec(ht: &str, fixes: &String) -> (r: String)
    ensures
        r@ == fix_section(ht@, fixes@),
{
    if fixes.as_str().is_empty() {
        String::new()
    } else {
        let mut s = "\n-- Alter table ".to_string();
        s.append(ht);
        push_char(&mut s, '\n');
        s.append(fixes.as_str());
        s
    }
}

fn fmt_opt(data_type: &String, len: &Option<String>) -> (r: String)
    ensures
        r@ == crate::oracle_ddl::fmt_type_spec(data_type@, opt_view(*len)),
{
    match len {
        Some(l) => crate::oracle_ddl::fmt_type(data_type.as_str(), Some(l.as_str())),
        None => crate::oracle_ddl::fmt_type(data_type.as_str(), None),
    }
}

fn push_issue(issues: &mut Vec<HistoryTableIssue>, ht: &str, col: &str, kind: &str, main: &str, hist: &str)
    ensures
        issue_views(final(issues)@) == issue_views(old(issues)@).push(issue(ht@, col@, kind@, main@, hist@)),
{
    let ghost before = issues@;
    issues.push(HistoryTableIssue {
        history_table: ht.to_string(),
        column_name: col.to_string(),
        issue_type: kind.to_string(),
        main_type: main.to_string(),
        history_type: hist.to_string(),
    });
    assert(issue_views(issues@) =~= issue_views(before).push(issue(ht@, col@, kind@, main@, hist@)));
}

fn names_of<T>(cols: &Vec<(String, T)>) -> (r: Vec<String>)
    ensures
        r.len() == cols.len(),
        forall|x: int| 0 <= x < cols.len() ==> #[trigger] r@[x]@ == cols@[x].0@,
{
    let mut r: Vec<String> = Vec::new();
    let mut j: usize = 0;
    while j < cols.len()
        invariant
            j <= cols.len(),
            r.len() == j,
            forall|x: int| 0 <= x < j ==> #[trigger] r@[x]@ == cols@[x].0@,
        decreases cols.len() - j,
    {
        r.push(cols[j].0.clone());
        j += 1;
    }
    r
}

fn names_of3(cols: &Vec<(String, String, Option<String>)>) -> (r: Vec<String>)
    ensures
        texts(r@) == oracle_names(cols@),
{
    let mut r: Vec<String> = Vec::new();
    let mut j: usize = 0;
    while j < cols.len()
        invariant
            j <= cols.len(),
            r.len() == j,
            forall|x: int| 0 <= x < j ==> #[trigger] r@[x]@ == cols@[x].0@,
        decreases cols.len() - j,
    {
        r.push(cols[j].0.clone());
        j += 1;
    }
    assert(texts(r@) =~= oracle_names(cols@));
    r
}

fn oracle_column_fix(
    ht: &str,
    m: &(String, String, Option<String>),
    hist: &Vec<(String, String, Option<String>)>,
    hnames: &Vec<String>,
    prefixes: &Vec<String>,
    issues: &mut Vec<HistoryTableIssue>,
    fixes: &mut String,
)
    requires
        texts(hnames@) == oracle_names(hist@),
    ensures
        (issue_views(final(issues)@), final(fixes)@) == oracle_step(ht@, (issue_views(old(issues)@), old(fixes)@), *m,
            hist@, texts(prefixes@)),
{
    reveal(oracle_step);
    let mfmt = fmt_opt(&m.1, &m.2);
    match matching_index(hnames, m.0.as_str(), prefixes) {
        None => {
            proof { reveal_strlit(""); }
            assert(""@ =~= Seq::<char>::empty());
            push_issue(issues, ht, m.0.as_str(), "MISSING", mfmt.as_str(), "");
            fixes.append("ALTER TABLE ");
            fixes.append(ht);
            fixes.append(" ADD ");
            fixes.append(m.0.as_str());
            push_char(fixes, ' ');
            fixes.append(mfmt.as_str());
            fixes.append(";\n");
        },
        Some(k) => {
            let h = &hist[k];
            let hfmt = fmt_opt(&h.1, &h.2);
            if !same_text(mfmt.as_str(), hfmt.as_str()) {
                push_issue(issues, ht, m.0.as_str(), "TYPE_MISMATCH", mfmt.as_str(), hfmt.as_str());
                fixes.append("ALTER TABLE ");
                fixes.append(ht);
                fixes.append(" MODIFY ");
                fixes.append(h.0.as_str());
                push_char(fixes, ' ');
                fixes.append(mfmt.as_str());
                fixes.append(";\n");
            }
        },
    }
}

/// Compares an Oracle history table with its main table: the issues found and the fix
/// section for the script.
pub fn oracle_history_table_fix(
    history_table: &str,
    main_cols: &Vec<(String, String, Option<String>)>,
    history_cols: &Vec<(String, String, Option<String>)>,
    prefix_patterns: &Vec<String>,
) -> (r: (Vec<HistoryTableIssue>, String))
    ensures
        issue_views(r.0@) == oracle_pair_fix(history_table@, main_cols@, history_cols@, texts(prefix_patterns@)).0,
        r.1@ == fix_section(history_table@, oracle_pair_fix(history_table@, main_cols@, history_cols@, texts(prefix_patterns@)).1),
{
    let hnames = names_of3(history_cols);
    let mut issues: Vec<HistoryTableIssue> = Vec::new();
    let mut fixes = String::new();
    let mut i: usize = 0;
    assert(main_cols@.take(0) =~= Seq::<(String, String, Option<String>)>::empty());
    assert(issue_views(issues@) =~= Seq::<IssueView>::empty());
    while i < main_cols.len()
        invariant
            i <= main_cols.len(),
            texts(hnames@) == oracle_names(history_cols@),
            (issue_views(issues@), fixes@) == oracle_pair_fix(history_table@, main_cols@.take(i as int), history_cols@,
                texts(prefix_patterns@)),
        decreases main_cols.len() - i,
    {
        assert(main_cols@.take(i + 1).drop_last() =~= main_cols@.take(i as int));
        assert(main_cols@.take(i + 1).last() == main_cols@[i as int]);
        oracle_column_fix(history_table, &main_cols[i], history_cols, &hnames, prefix_patterns, &mut issues, &mut fixes);
        i += 1;
    }
    assert(main_cols@.take(main_cols.len() as int) =~= main_cols@);
    let section = fix_section_exec(history_table, &fixes);
    (issues, section)
}

/// The names of Postgres history columns.
pub open spec fn pg_names(cols: Seq<(String, String)>) -> Seq<Seq<char>> {
    cols.map_values(|c: (String, String)| c.0@)
}

/// One Postgres main column compared: missing in the history table, it is added (if
/// not there yet) with the main type; present with a different type, it is altered.
#[verifier::opaque]
pub open spec fn pg_step(
    ht: Seq<char>,
    acc: (Seq<IssueView>, Seq<char>),
    m: (String, String),
    hist: Seq<(String, String)>,
    prefixes: Seq<Seq<char>>,
) -> (Seq<IssueView>, Seq<char>) {
    let (issues, fixes) = acc;
    match matching_column(pg_names(hist), m.0@, prefixes) {
        None => (
            issues.push(issue(ht, m.0@, "MISSING"@, m.1@, Seq::empty())),
            fixes + "ALTER TABLE "@ + ht + " ADD COLUMN IF NOT EXISTS "@ + m.0@ + seq![' '] + m.1@ + ";\n"@,
        ),
        Some(k) => {
            let h = hist[k];
            if m.1@ != h.1@ {
                (
                    issues.push(issue(ht, m.0@, "TYPE_MISMATCH"@, m.1@, h.1@)),
                    fixes + "ALTER TABLE "@ + ht + " ALTER COLUMN "@ + h.0@ + " TYPE "@ + m.1@ + ";\n"@,
                )
            } else {
                (issues, fixes)
            }
        },
    }
}

/// The issues and fix statements of a Postgres history table, main column by column.
pub open spec fn pg_pair_fix(
    ht: Seq<char>,
    main: Seq<(String, String)>,
    hist: Seq<(String, String)>,
    prefixes: Seq<Seq<char>>,
) -> (Seq<IssueView>, Seq<char>)
    decreases main.len(),
{
    if main.len() == 0 {
        (Seq::empty(), Seq::empty())
    } else {
        pg_step(ht, pg_pair_fix(ht, main.drop_last(), hist, prefixes), main.last(), hist, prefixes)
    }
}

fn pg_column_fix(
    ht: &str,
    m: &(String, String),
    hist: &Vec<(String, String)>,
    hnames: &Vec<String>,
    prefixes: &Vec<String>,
    issues: &mut Vec<HistoryTableIssue>,
    fixes: &mut String,
)
    requires
        texts(hnames@) == pg_names(hist@),
    ensures
        (issue_views(final(issues)@), final(fixes)@) == pg_step(ht@, (issue_views(old(issues)@), old(fixes)@), *m,
            hist@, texts(prefixes@)),
{
    reveal(pg_step);
    match matching_index(hnames, m.0.as_str(), prefixes) {
        None => {
            proof { reveal_strlit(""); }
            assert(""@ =~= Seq::<char>::empty());
            push_issue(issues, ht, m.0.as_str(), "MISSING", m.1.as_str(), "");
            fixes.append("ALTER TABLE ");
            fixes.append(ht);
            fixes.append(" ADD COLUMN IF NOT EXISTS ");
            fixes.append(m.0.as_str());
            push_char(fixes, ' ');
            fixes.append(m.1.as_str());
            fixes.append(";\n");
        },
        Some(k) => {
            let h = &hist[k];
            if !same_text(m.1.as_str(), h.1.as_str()) {
                push_issue(issues, ht, m.0.as_str(), "TYPE_MISMATCH", m.1.as_str(), h.1.as_str());
                fixes.append("ALTER TABLE ");
                fixes.append(ht);
                fixes.append(" ALTER COLUMN ");
                fixes.append(h.0.as_str());
                fixes.append(" TYPE ");
                fixes.append(m.1.as_str());
                fixes.append(";\n");
            }
        },
    }
}

/// Compares a Postgres history table with its main table: the issues found and the
/// fix section for the script.
pub fn pg_history_table_fix(
    history_table: &str,
    main_cols: &Vec<(String, String)>,
    history_cols: &Vec<(String, String)>,
    prefix_patterns: &Vec<String>,
) -> (r: (Vec<HistoryTableIssue>, String))
    ensures
        issue_views(r.0@) == pg_pair_fix(history_table@, main_cols@, history_cols@, texts(prefix_patterns@)).0,
        r.1@ == fix_section(history_table@, pg_pair_fix(history_table@, main_cols@, history_cols@, texts(prefix_patterns@)).1),
{
    let hnames = names_of(history_cols);
    assert(texts(hnames@) =~= pg_names(history_cols@));
    let mut issues: Vec<HistoryTableIssue> = Vec::new();
    let mut fixes = String::new();
    let mut i: usize = 0;
    assert(main_cols@.take(0) =~= Seq::<(String, String)>::empty());
    assert(issue_views(issues@) =~= Seq::<IssueView>::empty());
    while i < main_cols.len()
        invariant
            i <= main_cols.len(),
            texts(hnames@) == pg_names(history_cols@),
            (issue_views(issues@), fixes@) == pg_pair_fix(history_table@, main_cols@.take(i as int), history_cols@,
                texts(prefix_patterns@)),
        decreases main_cols.len() - i,
    {
        assert(main_cols@.take(i + 1).drop_last() =~= main_cols@.take(i as int));
        assert(main_cols@.take(i + 1).last() == main_cols@[i as int]);
        pg_column_fix(history_table, &main_cols[i], history_cols, &hnames, prefix_patterns, &mut issues, &mut fixes);
        i += 1;
    }
    assert(main_cols@.take(main_cols.len() as int) =~= main_cols@);
    let section = fix_section_exec(history_table, &fixes);
    (issues, section)
}

// ───────────────────────── laws ─────────────────────────

/// The Oracle statement that changes history column `hcol` of `ht` to type `mtype`.
pub open spec fn oracle_modify_statement(ht: Seq<char>, hcol: Seq<char>, mtype: Seq<char>) -> Seq<char> {
    "ALTER TABLE "@ + ht + " MODIFY "@ + hcol + " "@ + mtype + ";\n"@
}

/// The Oracle statement that adds main column `col` to `ht` with type `mtype`.
pub open spec fn oracle_add_statement(ht: Seq<char>, col: Seq<char>, mtype: Seq<char>) -> Seq<char> {
    "ALTER TABLE "@ + ht + " ADD "@ + col + " "@ + mtype + ";\n"@
}

/// The Postgres statement that changes history column `hcol` of `ht` to type `mtype`.
pub open spec fn pg_alter_statement(ht: Seq<char>, hcol: Seq<char>, mtype: Seq<char>) -> Seq<char> {
    "ALTER TABLE "@ + ht + " ALTER COLUMN "@ + hcol + " TYPE "@ + mtype + ";\n"@
}

/// The Postgres statement that adds main column `col` to `ht` with type `mtype`.
pub open spec fn pg_add_statement(ht: Seq<char>, col: Seq<char>, mtype: Seq<char>) -> Seq<char> {
    "ALTER TABLE "@ + ht + " ADD COLUMN IF NOT EXISTS "@ + col + " "@ + mtype + ";\n"@
}

/// What the Oracle fix holds for main column `m`: an ADD of it when no history column
/// stands for it, else, when the formatted types differ, a MODIFY of the history column
/// that stands for it (so always a column of the history table).
#[verifier::opaque]
pub open spec fn oracle_column_fixed(
    ht: Seq<char>,
    fixes: Seq<char>,
    m: (String, String, Option<String>),
    hist: Seq<(String, String, Option<String>)>,
    prefixes: Seq<Seq<char>>,
) -> bool {
    let mfmt = crate::oracle_ddl::fmt_type_spec(m.1@, opt_view(m.2));
    match matching_column(oracle_names(hist), m.0@, prefixes) {
        None => crate::text::contains(fixes, oracle_add_statement(ht, m.0@, mfmt)),
        Some(k) => mfmt != crate::oracle_ddl::fmt_type_spec(hist[k].1@, opt_view(hist[k].2))
            ==> crate::text::contains(fixes, oracle_modify_statement(ht, hist[k].0@, mfmt)),
    }
}

/// What the Postgres fix holds for main column `m`, as for Oracle.
#[verifier::opaque]
pub open spec fn pg_column_fixed(
    ht: Seq<char>,
    fixes: Seq<char>,
    m: (String, String),
    hist: Seq<(String, String)>,
    prefixes: Seq<Seq<char>>,
) -> bool {
    match matching_column(pg_names(hist), m.0@, prefixes) {
        None => crate::text::contains(fixes, pg_add_statement(ht, m.0@, m.1@)),
        Some(k) => m.1@ != hist[k].1@ ==> crate::text::contains(fixes, pg_alter_statement(ht, hist[k].0@, m.1@)),
    }
}

/// What the Oracle issues hold for main column `m`: a `MISSING` issue with its
/// formatted type when no history column stands for it, else a `TYPE_MISMATCH` issue
/// with both formatted types when they differ.
#[verifier::opaque]
pub open spec fn oracle_column_reported(
    ht: Seq<char>,
    issues: Seq<IssueView>,
    m: (String, String, Option<String>),
    hist: Seq<(String, String, Option<String>)>,
    prefixes: Seq<Seq<char>>,
) -> bool {
    let mfmt = crate::oracle_ddl::fmt_type_spec(m.1@, opt_view(m.2));
    match matching_column(oracle_names(hist), m.0@, prefixes) {
        None => issues.contains(IssueView {
            history_table: ht, column_name: m.0@, issue_type: "MISSING"@, main_type: mfmt, history_type: Seq::empty(),
        }),
        Some(k) => {
            let hfmt = crate::oracle_ddl::fmt_type_spec(hist[k].1@, opt_view(hist[k].2));
            mfmt != hfmt ==> issues.contains(IssueView {
                history_table: ht, column_name: m.0@, issue_type: "TYPE_MISMATCH"@, main_type: mfmt, history_type: hfmt,
            })
        },
    }
}

/// What the Postgres issues hold for main column `m`, as for Oracle, with the types
/// as the catalog gives them.
#[verifier::opaque]
pub open spec fn pg_column_reported(
    ht: Seq<char>,
    issues: Seq<IssueView>,
    m: (String, String),
    hist: Seq<(String, String)>,
    prefixes: Seq<Seq<char>>,
) -> bool {
    match matching_column(pg_names(hist), m.0@, prefixes) {
        None => issues.contains(IssueView {
            history_table: ht, column_name: m.0@, issue_type: "MISSING"@, main_type: m.1@, history_type: Seq::empty(),
        }),
        Some(k) => m.1@ != hist[k].1@ ==> issues.contains(IssueView {
            history_table: ht, column_name: m.0@, issue_type: "TYPE_MISMATCH"@, main_type: m.1@, history_type: hist[k].1@,
        }),
    }
}

proof fn lemma_oracle_step_reports(
    ht: Seq<char>,
    acc: (Seq<IssueView>, Seq<char>),
    m: (String, String, Option<String>),
    hist: Seq<(String, String, Option<String>)>,
    prefixes: Seq<Seq<char>>,
)
    ensures
        exists|extra: Seq<IssueView>| #[trigger] oracle_step(ht, acc, m, hist, prefixes).0 == acc.0 + extra,
        oracle_column_reported(ht, oracle_step(ht, acc, m, hist, prefixes).0, m, hist, prefixes),
{
    reveal(oracle_step);
    reveal(oracle_column_reported);
    let r = oracle_step(ht, acc, m, hist, prefixes).0;
    let mfmt = crate::oracle_ddl::fmt_type_spec(m.1@, opt_view(m.2));
    match matching_column(oracle_names(hist), m.0@, prefixes) {
        None => {
            assert(r =~= acc.0 + seq![r.last()]);
            assert(r[acc.0.len() as int] == r.last());
        },
        Some(k) => {
            let hfmt = crate::oracle_ddl::fmt_type_spec(hist[k].1@, opt_view(hist[k].2));
            if mfmt != hfmt {
                assert(r =~= acc.0 + seq![r.last()]);
                assert(r[acc.0.len() as int] == r.last());
            } else {
                assert(r =~= acc.0 + Seq::<IssueView>::empty());
            }
        },
    }
}

proof fn lemma_pg_step_reports(
    ht: Seq<char>,
    acc: (Seq<IssueView>, Seq<char>),
    m: (String, String),
    hist: Seq<(String, String)>,
    prefixes: Seq<Seq<char>>,
)
    ensures
        exists|extra: Seq<IssueView>| #[trigger] pg_step(ht, acc, m, hist, prefixes).0 == acc.0 + extra,
        pg_column_reported(ht, pg_step(ht, acc, m, hist, prefixes).0, m, hist, prefixes),
{
    reveal(pg_step);
    reveal(pg_column_reported);
    let r = pg_step(ht, acc, m, hist, prefixes).0;
    match matching_column(pg_names(hist), m.0@, prefixes) {
        None => {
            assert(r =~= acc.0 + seq![r.last()]);
            assert(r[acc.0.len() as int] == r.last());
        },
        Some(k) => {
            if m.1@ != hist[k].1@ {
                assert(r =~= acc.0 + seq![r.last()]);
                assert(r[acc.0.len() as int] == r.last());
            } else {
                assert(r =~= acc.0 + Seq::<IssueView>::empty());
            }
        },
    }
}

proof fn lemma_issues_extend<T>(a: Seq<T>, b: Seq<T>)
    ensures
        forall|x: T| a.contains(x) ==> #[trigger] (a + b).contains(x),
{
    assert forall|x: T| a.contains(x) implies #[trigger] (a + b).contains(x) by {
        let i = choose|i: int| 0 <= i < a.len() && a[i] == x;
        assert((a + b)[i] == x);
    }
}

/// Every main column of an Oracle history pair is reported: `MISSING` when no history
/// column stands for it, `TYPE_MISMATCH` with both formatted types when the history
/// column that stands for it has another type.
pub proof fn oracle_issues_cover_each_main_column(
    ht: Seq<char>,
    main: Seq<(String, String, Option<String>)>,
    hist: Seq<(String, String, Option<String>)>,
    prefixes: Seq<Seq<char>>,
    i: int,
)
    requires
        0 <= i < main.len(),
    ensures
        oracle_column_reported(ht, oracle_pair_fix(ht, main, hist, prefixes).0, main[i], hist, prefixes),
    decreases main.len(),
{
    let prev = oracle_pair_fix(ht, main.drop_last(), hist, prefixes);
    assert(oracle_pair_fix(ht, main, hist, prefixes).0 == oracle_step(ht, prev, main.last(), hist, prefixes).0);
    lemma_oracle_step_reports(ht, prev, main.last(), hist, prefixes);
    if i < main.len() - 1 {
        assert(main.drop_last()[i] == main[i]);
        oracle_issues_cover_each_main_column(ht, main.drop_last(), hist, prefixes, i);
        let extra = choose|extra: Seq<IssueView>| #[trigger] oracle_step(ht, prev, main.last(), hist, prefixes).0 == prev.0 + extra;
        lemma_issues_extend(prev.0, extra);
        reveal(oracle_column_reported);
    }
}

/// Every main column of a Postgres history pair is reported, as for Oracle.
pub proof fn pg_issues_cover_each_main_column(
    ht: Seq<char>,
    main: Seq<(String, String)>,
    hist: Seq<(String, String)>,
    prefixes: Seq<Seq<char>>,
    i: int,
)
    requires
        0 <= i < main.len(),
    ensures
        pg_column_reported(ht, pg_pair_fix(ht, main, hist, prefixes).0, main[i], hist, prefixes),
    decreases main.len(),
{
    let prev = pg_pair_fix(ht, main.drop_last(), hist, prefixes);
    assert(pg_pair_fix(ht, main, hist, prefixes).0 == pg_step(ht, prev, main.last(), hist, prefixes).0);
    lemma_pg_step_reports(ht, prev, main.last(), hist, prefixes);
    if i < main.len() - 1 {
        assert(main.drop_last()[i] == main[i]);
        pg_issues_cover_each_main_column(ht, main.drop_last(), hist, prefixes, i);
        let extra = choose|extra: Seq<IssueView>| #[trigger] pg_step(ht, prev, main.last(), hist, prefixes).0 == prev.0 + extra;
        lemma_issues_extend(prev.0, extra);
        reveal(pg_column_reported);
    }
}

proof fn lemma_oracle_step_extends(
    ht: Seq<char>,
    acc: (Seq<IssueView>, Seq<char>),
    m: (String, String, Option<String>),
    hist: Seq<(String, String, Option<String>)>,
    prefixes: Seq<Seq<char>>,
)
    ensures
        exists|extra: Seq<char>| #[trigger] oracle_step(ht, acc, m, hist, prefixes).1 == acc.1 + extra,
        oracle_column_fixed(ht, oracle_step(ht, acc, m, hist, prefixes).1, m, hist, prefixes),
{
    reveal(oracle_column_fixed);    reveal(oracle_step);
    reveal_strlit(" ");
    let mfmt = crate::oracle_ddl::fmt_type_spec(m.1@, opt_view(m.2));
    let r = oracle_step(ht, acc, m, hist, prefixes).1;
    match matching_column(oracle_names(hist), m.0@, prefixes) {
        None => {
            let st = oracle_add_statement(ht, m.0@, mfmt);
            assert(r =~= acc.1 + st);
            crate::text::lemma_text_contains_self(st);
            crate::text::lemma_text_contains_right(acc.1, st, st);
        },
        Some(k) => {
            let h = hist[k];
            let hfmt = crate::oracle_ddl::fmt_type_spec(h.1@, opt_view(h.2));
            if mfmt != hfmt {
                let st = oracle_modify_statement(ht, h.0@, mfmt);
                assert(r =~= acc.1 + st);
                crate::text::lemma_text_contains_self(st);
                crate::text::lemma_text_contains_right(acc.1, st, st);
            } else {
                assert(r =~= acc.1 + Seq::<char>::empty());
            }
        },
    }
}

proof fn lemma_pg_step_extends(
    ht: Seq<char>,
    acc: (Seq<IssueView>, Seq<char>),
    m: (String, String),
    hist: Seq<(String, String)>,
    prefixes: Seq<Seq<char>>,
)
    ensures
        exists|extra: Seq<char>| #[trigger] pg_step(ht, acc, m, hist, prefixes).1 == acc.1 + extra,
        pg_column_fixed(ht, pg_step(ht, acc, m, hist, prefixes).1, m, hist, prefixes),
{
    reveal(pg_column_fixed);    reveal(pg_step);
    reveal_strlit(" ");
    let r = pg_step(ht, acc, m, hist, prefixes).1;
    match matching_column(pg_names(hist), m.0@, prefixes) {
        None => {
            let st = pg_add_statement(ht, m.0@, m.1@);
            assert(r =~= acc.1 + st);
            crate::text::lemma_text_contains_self(st);
            crate::text::lemma_text_contains_right(acc.1, st, st);
        },
        Some(k) => {
            let h = hist[k];
            if m.1@ != h.1@ {
                let st = pg_alter_statement(ht, h.0@, m.1@);
                assert(r =~= acc.1 + st);
                crate::text::lemma_text_contains_self(st);
                crate::text::lemma_text_contains_right(acc.1, st, st);
            } else {
                assert(r =~= acc.1 + Seq::<char>::empty());
            }
        },
    }
}

proof fn lemma_oracle_fixed_extends(
    ht: Seq<char>,
    a: Seq<char>,
    b: Seq<char>,
    m: (String, String, Option<String>),
    hist: Seq<(String, String, Option<String>)>,
    prefixes: Seq<Seq<char>>,
)
    requires
        oracle_column_fixed(ht, a, m, hist, prefixes),
    ensures
        oracle_column_fixed(ht, a + b, m, hist, prefixes),
{
    reveal(oracle_column_fixed);    assert forall|st: Seq<char>| crate::text::contains(a, st) implies crate::text::contains(a + b, st) by {
        crate::text::lemma_text_contains_left(a, b, st);
    }
}

proof fn lemma_oracle_section_keeps(
    ht: Seq<char>,
    fixes: Seq<char>,
    m: (String, String, Option<String>),
    hist: Seq<(String, String, Option<String>)>,
    prefixes: Seq<Seq<char>>,
)
    requires
        oracle_column_fixed(ht, fixes, m, hist, prefixes),
    ensures
        oracle_column_fixed(ht, fix_section(ht, fixes), m, hist, prefixes),
{
    reveal(oracle_column_fixed);    if fixes.len() == 0 {
        assert(fix_section(ht, fixes) =~= fixes);
    } else {
        let head = "\n-- Alter table "@ + ht + seq!['\n'];
        assert(fix_section(ht, fixes) == head + fixes);
        assert forall|st: Seq<char>| crate::text::contains(fixes, st) implies crate::text::contains(head + fixes, st) by {
            crate::text::lemma_text_contains_right(head, fixes, st);
        }
    }
}

/// Every main column of an Oracle history pair is dealt with in the fix section: a
/// column no history column stands for is added with its formatted type, and a column
/// whose history column has another formatted type gets a MODIFY of that history
/// column (the one equal to it, or to a prefix pattern followed by it, ignoring case).
pub proof fn oracle_fix_covers_each_main_column(
    ht: Seq<char>,
    main: Seq<(String, String, Option<String>)>,
    hist: Seq<(String, String, Option<String>)>,
    prefixes: Seq<Seq<char>>,
    i: int,
)
    requires
        0 <= i < main.len(),
    ensures
        oracle_column_fixed(ht, oracle_pair_fix(ht, main, hist, prefixes).1, main[i], hist, prefixes),
        oracle_column_fixed(ht, fix_section(ht, oracle_pair_fix(ht, main, hist, prefixes).1), main[i], hist, prefixes),
    decreases main.len(),
{
    let prev = oracle_pair_fix(ht, main.drop_last(), hist, prefixes);
    let fixes = oracle_pair_fix(ht, main, hist, prefixes).1;
    assert(fixes == oracle_step(ht, prev, main.last(), hist, prefixes).1);
    lemma_oracle_step_extends(ht, prev, main.last(), hist, prefixes);
    if i < main.len() - 1 {
        assert(main.drop_last()[i] == main[i]);
        oracle_fix_covers_each_main_column(ht, main.drop_last(), hist, prefixes, i);
        let extra = choose|extra: Seq<char>| #[trigger] oracle_step(ht, prev, main.last(), hist, prefixes).1 == prev.1 + extra;
        lemma_oracle_fixed_extends(ht, prev.1, extra, main[i], hist, prefixes);
    }
    lemma_oracle_section_keeps(ht, fixes, main[i], hist, prefixes);
}

proof fn lemma_pg_fixed_extends(
    ht: Seq<char>,
    a: Seq<char>,
    b: Seq<char>,
    m: (String, String),
    hist: Seq<(String, String)>,
    prefixes: Seq<Seq<char>>,
)
    requires
        pg_column_fixed(ht, a, m, hist, prefixes),
    ensures
        pg_column_fixed(ht, a + b, m, hist, prefixes),
{
    reveal(pg_column_fixed);    assert forall|st: Seq<char>| crate::text::contains(a, st) implies crate::text::contains(a + b, st) by {
        crate::text::lemma_text_contains_left(a, b, st);
    }
}

proof fn lemma_pg_section_keeps(
    ht: Seq<char>,
    fixes: Seq<char>,
    m: (String, String),
    hist: Seq<(String, String)>,
    prefixes: Seq<Seq<char>>,
)
    requires
        pg_column_fixed(ht, fixes, m, hist, prefixes),
    ensures
        pg_column_fixed(ht, fix_section(ht, fixes), m, hist, prefixes),
{
    reveal(pg_column_fixed);    if fixes.len() == 0 {
        assert(fix_section(ht, fixes) =~= fixes);
    } else {
        let head = "\n-- Alter table "@ + ht + seq!['\n'];
        assert(fix_section(ht, fixes) == head + fixes);
        assert forall|st: Seq<char>| crate::text::contains(fixes, st) implies crate::text::contains(head + fixes, st) by {
            crate::text::lemma_text_contains_right(head, fixes, st);
        }
    }
}

/// Every main column of a Postgres history pair is dealt with in the fix section, as
/// for Oracle: added when no history column stands for it, else, when the types
/// differ, the history column that stands for it is altered.
pub proof fn pg_fix_covers_each_main_column(
    ht: Seq<char>,
    main: Seq<(String, String)>,
    hist: Seq<(String, String)>,
    prefixes: Seq<Seq<char>>,
    i: int,
)
    requires
        0 <= i < main.len(),
    ensures
        pg_column_fixed(ht, pg_pair_fix(ht, main, hist, prefixes).1, main[i], hist, prefixes),
        pg_column_fixed(ht, fix_section(ht, pg_pair_fix(ht, main, hist, prefixes).1), main[i], hist, prefixes),
    decreases main.len(),
{
    let prev = pg_pair_fix(ht, main.drop_last(), hist, prefixes);
    let fixes = pg_pair_fix(ht, main, hist, prefixes).1;
    assert(fixes == pg_step(ht, prev, main.last(), hist, prefixes).1);
    lemma_pg_step_extends(ht, prev, main.last(), hist, prefixes);
    if i < main.len() - 1 {
        assert(main.drop_last()[i] == main[i]);
        pg_fix_covers_each_main_column(ht, main.drop_last(), hist, prefixes, i);
        let extra = choose|extra: Seq<char>| #[trigger] pg_step(ht, prev, main.last(), hist, prefixes).1 == prev.1 + extra;
        lemma_pg_fixed_extends(ht, prev.1, extra, main[i], hist, prefixes);
    }
    lemma_pg_section_keeps(ht, fixes, main[i], hist, prefixes);
}

proof fn lemma_matched_by_name(hnames: Seq<Seq<char>>, col: Seq<char>, prefixes: Seq<Seq<char>>, i: int)
    requires
        0 <= i < hnames.len(),
        eq_ci(hnames[i], col),
    ensures
        matching_column(hnames, col, prefixes) is Some,
{
    assert(stands_for(hnames[i], col, prefixes));
}

proof fn lemma_matched_by_prefix(hnames: Seq<Seq<char>>, col: Seq<char>, prefixes: Seq<Seq<char>>, i: int, p: int)
    requires
        0 <= i < hnames.len(),
        0 <= p < prefixes.len(),
        eq_ci(hnames[i], prefixes[p] + col),
    ensures
        matching_column(hnames, col, prefixes) is Some,
{
    assert(stands_for(hnames[i], col, prefixes));
}

proof fn lemma_matched_column_is_first(hnames: Seq<Seq<char>>, col: Seq<char>, prefixes: Seq<Seq<char>>)
    requires
        matching_column(hnames, col, prefixes) is Some,
    ensures
        ({
            let k = matching_column(hnames, col, prefixes)->0;
            &&& 0 <= k < hnames.len()
            &&& stands_for(hnames[k], col, prefixes)
            &&& forall|j: int| 0 <= j < k ==> !stands_for(#[trigger] hnames[j], col, prefixes)
        }),
{
    let i = choose|i: int| 0 <= i < hnames.len() && stands_for(#[trigger] hnames[i], col, prefixes);
    lemma_first_standing(hnames, col, prefixes, i);
}

proof fn lemma_first_standing(hnames: Seq<Seq<char>>, col: Seq<char>, prefixes: Seq<Seq<char>>, i: int)
    requires
        0 <= i < hnames.len(),
        stands_for(hnames[i], col, prefixes),
    ensures
        exists|m: int| 0 <= m < hnames.len() && stands_for(#[trigger] hnames[m], col, prefixes)
            && forall|j: int| 0 <= j < m ==> !stands_for(#[trigger] hnames[j], col, prefixes),
    decreases i,
{
    if exists|j: int| 0 <= j < i && stands_for(#[trigger] hnames[j], col, prefixes) {
        let j = choose|j: int| 0 <= j < i && stands_for(#[trigger] hnames[j], col, prefixes);
        lemma_first_standing(hnames, col, prefixes, j);
    } else {
        assert(forall|j: int| 0 <= j < i ==> !stands_for(#[trigger] hnames[j], col, prefixes));
    }
}

/// A history column stands for a main column when its name equals the main column's
/// name, or a prefix pattern followed by it, ignoring ASCII case: the column matched to
/// a main column is the first such history column, and there is one whenever any
/// history column is so named.
pub proof fn history_column_matched_by_name_or_prefix(hnames: Seq<Seq<char>>, col: Seq<char>, prefixes: Seq<Seq<char>>)
    ensures
        matching_column(hnames, col, prefixes) matches Some(k) ==> {
            &&& 0 <= k < hnames.len()
            &&& (eq_ci(hnames[k], col) || exists|p: int| 0 <= p < prefixes.len() && eq_ci(hnames[k], #[trigger] prefixes[p] + col))
            &&& forall|j: int| 0 <= j < k ==> !eq_ci(#[trigger] hnames[j], col)
                && forall|p: int| 0 <= p < prefixes.len() ==> !eq_ci(hnames[j], #[trigger] prefixes[p] + col)
        },
        forall|i: int| 0 <= i < hnames.len() && eq_ci(#[trigger] hnames[i], col)
            ==> matching_column(hnames, col, prefixes) is Some,
        forall|i: int, p: int| 0 <= i < hnames.len() && 0 <= p < prefixes.len()
            && eq_ci(#[trigger] hnames[i], #[trigger] prefixes[p] + col)
            ==> matching_column(hnames, col, prefixes) is Some,
{
    assert forall|i: int| 0 <= i < hnames.len() && eq_ci(#[trigger] hnames[i], col)
        implies matching_column(hnames, col, prefixes) is Some by {
        lemma_matched_by_name(hnames, col, prefixes, i);
    }
    assert forall|i: int, p: int| 0 <= i < hnames.len() && 0 <= p < prefixes.len()
        && eq_ci(#[trigger] hnames[i], #[trigger] prefixes[p] + col)
        implies matching_column(hnames, col, prefixes) is Some by {
        lemma_matched_by_prefix(hnames, col, prefixes, i, p);
    }
    if matching_column(hnames, col, prefixes) is Some {
        lemma_matched_column_is_first(hnames, col, prefixes);
    }
}

} // verus!
