//! Table-name filter rules: their storage labels and the SQL predicate they compile to.
use vstd::prelude::*;
use crate::models::{FilterAction, MatchType, TableFilterRule};
use crate::text::{
    upper, trim, decimal, join, to_upper, trimmed, usize_decimal, join_exec, push_char,
};

verus! {

/// Bind placeholder syntax: Oracle's `:N` or Postgres's `$N`.
#[derive(Clone, Copy, Debug, PartialEq, Eq, Structural)]
pub enum ParamStyle {
    Colon,
    Dollar,
}

// ───────────────────────── labels ─────────────────────────

pub open spec fn action_label(a: FilterAction) -> Seq<char> {
    match a {
        FilterAction::Exclude => "exclude"@,
        FilterAction::Include => "include"@,
    }
}

pub open spec fn match_type_label(m: MatchType) -> Seq<char> {
    match m {
        MatchType::Prefix => "prefix"@,
        MatchType::Suffix => "suffix"@,
        MatchType::Contains => "contains"@,
        MatchType::Exact => "exact"@,
    }
}

/// The filter action a stored label reads as: `include` is `Include`, anything else
/// `Exclude`.
pub open spec fn parsed_action(s: Seq<char>) -> FilterAction {
    if s == "include"@ { FilterAction::Include } else { FilterAction::Exclude }
}

/// The match type a stored filter-rule label reads as; an unknown label reads as
/// `Prefix`.
pub open spec fn parsed_match_type(s: Seq<char>) -> MatchType {
    if s == "suffix"@ {
        MatchType::Suffix
    } else if s == "contains"@ {
        MatchType::Contains
    } else if s == "exact"@ {
        MatchType::Exact
    } else {
        MatchType::Prefix
    }
}

/// The match type a stored naming-rule label reads as: `suffix` is `Suffix`, anything
/// else `Prefix`.
pub open spec fn parsed_naming_match_type(s: Seq<char>) -> MatchType {
    if s == "suffix"@ { MatchType::Suffix } else { MatchType::Prefix }
}

/// The store of table filter rules; it owns their storage labels.
pub struct SqliteFilterRuleRepository;

/// The filter rules seeded on first run: the naming conventions of views, history,
/// test and temporary tables, all excluded.
pub open spec fn default_filter_seed() -> Seq<(MatchType, Seq<char>)> {
    seq![
        (MatchType::Prefix, "V_"@), (MatchType::Prefix, "VW_"@), (MatchType::Prefix, "HIST_"@),
        (MatchType::Prefix, "TEST_"@), (MatchType::Prefix, "TEMP_"@), (MatchType::Prefix, "TMP_"@),
        (MatchType::Suffix, "_VW"@), (MatchType::Suffix, "_HIST"@), (MatchType::Suffix, "_TEST"@),
        (MatchType::Suffix, "_TEMP"@), (MatchType::Suffix, "_TMP"@),
        (MatchType::Contains, "_TEST_"@), (MatchType::Contains, "_TEMP_"@), (MatchType::Contains, "_TMP_"@)
    ]
}

/// The history naming rules seeded on first run.
pub open spec fn default_history_seed() -> Seq<(MatchType, Seq<char>)> {
    seq![(MatchType::Prefix, "HIST_"@), (MatchType::Suffix, "_HIST"@)]
}

pub open spec fn seed_views(v: Seq<(MatchType, &'static str)>) -> Seq<(MatchType, Seq<char>)> {
    v.map_values(|e: (MatchType, &'static str)| (e.0, e.1@))
}

impl SqliteFilterRuleRepository {
    pub fn new() -> Self {
        SqliteFilterRuleRepository
    }

    /// The rules a fresh store is seeded with, each an enabled exclude rule.
    pub fn default_rules() -> (r: Vec<(MatchType, &'static str)>)
        ensures
            seed_views(r@) == default_filter_seed(),
    {
        let r: Vec<(MatchType, &'static str)> = vec![
            (MatchType::Prefix, "V_"), (MatchType::Prefix, "VW_"), (MatchType::Prefix, "HIST_"),
            (MatchType::Prefix, "TEST_"), (MatchType::Prefix, "TEMP_"), (MatchType::Prefix, "TMP_"),
            (MatchType::Suffix, "_VW"), (MatchType::Suffix, "_HIST"), (MatchType::Suffix, "_TEST"),
            (MatchType::Suffix, "_TEMP"), (MatchType::Suffix, "_TMP"),
            (MatchType::Contains, "_TEST_"), (MatchType::Contains, "_TEMP_"), (MatchType::Contains, "_TMP_"),
        ];
        assert(seed_views(r@) =~= default_filter_seed());
        r
    }

    /// The storage label of a filter action.
    pub fn action_str(action: FilterAction) -> (r: &'static str)
        ensures
            r@ == action_label(action),
    {
        match action {
            FilterAction::Exclude => "exclude",
            FilterAction::Include => "include",
        }
    }

    /// Reads a stored filter action: `include` is `Include`, anything else `Exclude`.
    pub fn parse_action(s: &str) -> (r: FilterAction)
        ensures
            r == parsed_action(s@),
    {
        if crate::text::same_text(s, "include") {
            FilterAction::Include
        } else {
            FilterAction::Exclude
        }
    }

    /// The storage label of a match type.
    pub fn match_type_str(match_type: MatchType) -> (r: &'static str)
        ensures
            r@ == match_type_label(match_type),
    {
        match match_type {
            MatchType::Prefix => "prefix",
            MatchType::Suffix => "suffix",
            MatchType::Contains => "contains",
            MatchType::Exact => "exact",
        }
    }

    /// Reads a stored match type; an unknown label reads as `Prefix`.
    pub fn parse_match_type(s: &str) -> (r: MatchType)
        ensures
            r == parsed_match_type(s@),
    {
        if crate::text::same_text(s, "suffix") {
            MatchType::Suffix
        } else if crate::text::same_text(s, "contains") {
            MatchType::Contains
        } else if crate::text::same_text(s, "exact") {
            MatchType::Exact
        } else {
            MatchType::Prefix
        }
    }
}

/// The store of history naming rules; it owns their storage labels.
/// The error for a naming rule that matches other than by prefix or suffix.
pub const NAMING_MATCH_ERROR: &'static str = "History naming rules must match by prefix or suffix.";

/// The match types a naming rule may use.
pub open spec fn naming_match_allowed(m: MatchType) -> bool {
    m == MatchType::Prefix || m == MatchType::Suffix
}

pub struct SqliteHistoryNamingRuleRepository;

impl SqliteHistoryNamingRuleRepository {
    pub fn new() -> Self {
        SqliteHistoryNamingRuleRepository
    }

    /// The rules a fresh store is seeded with, each enabled.
    pub fn default_rules() -> (r: Vec<(MatchType, &'static str)>)
        ensures
            seed_views(r@) == default_history_seed(),
    {
        let r: Vec<(MatchType, &'static str)> = vec![(MatchType::Prefix, "HIST_"), (MatchType::Suffix, "_HIST")];
        assert(seed_views(r@) =~= default_history_seed());
        r
    }

    /// The storage label of a match type.
    pub fn match_type_str(match_type: MatchType) -> (r: &'static str)
        ensures
            r@ == match_type_label(match_type),
    {
        match match_type {
            MatchType::Prefix => "prefix",
            MatchType::Suffix => "suffix",
            MatchType::Contains => "contains",
            MatchType::Exact => "exact",
        }
    }

    /// A naming rule is accepted only by prefix or suffix, as only those derive the
    /// counterpart table's name; any other match type is refused.
    pub fn check_match_type(match_type: MatchType) -> (r: Result<(), String>)
        ensures
            naming_match_allowed(match_type) ==> r == Ok::<(), String>(()),
            !naming_match_allowed(match_type) ==> (r matches Err(e) && e@ == NAMING_MATCH_ERROR@),
    {
        match match_type {
            MatchType::Prefix | MatchType::Suffix => Ok(()),
            _ => Err(NAMING_MATCH_ERROR.to_string()),
        }
    }

    /// Reads a stored naming-rule match type: `suffix` is `Suffix`, anything else
    /// `Prefix`.
    pub fn parse_match_type(s: &str) -> (r: MatchType)
        ensures
            r == parsed_naming_match_type(s@),
    {
        if crate::text::same_text(s, "suffix") {
            MatchType::Suffix
        } else {
            MatchType::Prefix
        }
    }
}

proof fn lemma_labels_distinct()
    ensures
        "prefix"@ != "suffix"@,
        "prefix"@ != "contains"@,
        "prefix"@ != "exact"@,
        "suffix"@ != "contains"@,
        "suffix"@ != "exact"@,
        "contains"@ != "exact"@,
        "exclude"@ != "include"@,
{
    reveal_strlit("prefix");
    reveal_strlit("suffix");
    reveal_strlit("contains");
    reveal_strlit("exact");
    reveal_strlit("include");
    reveal_strlit("exclude");
    assert("prefix"@[0] != "suffix"@[0]);
    assert("prefix"@[0] != "contains"@[0]);
    assert("prefix"@[0] != "exact"@[0]);
    assert("suffix"@[0] != "contains"@[0]);
    assert("suffix"@[0] != "exact"@[0]);
    assert("contains"@[0] != "exact"@[0]);
    assert("exclude"@[1] != "include"@[1]);
}

/// Reading back the stored label of a filter action gives that action.
pub proof fn action_label_round_trip(a: FilterAction)
    ensures
        parsed_action(action_label(a)) == a,
{
    lemma_labels_distinct();
}

/// Reading back the stored label of a filter rule's match type gives that match type.
pub proof fn match_type_label_round_trip(m: MatchType)
    ensures
        parsed_match_type(match_type_label(m)) == m,
{
    lemma_labels_distinct();
}

/// Reading back the stored label of a naming rule's match type gives that match type,
/// for the two match types a naming rule uses.
pub proof fn naming_match_type_round_trip(m: MatchType)
    requires
        m == MatchType::Prefix || m == MatchType::Suffix,
    ensures
        parsed_naming_match_type(match_type_label(m)) == m,
{
    lemma_labels_distinct();
}

// ───────────────────────── LIKE patterns ─────────────────────────

/// The SQL `LIKE` pattern of a rule: the trimmed, upper-cased pattern with `%`
/// wildcards placed by the match type.
pub open spec fn like_pattern_spec(m: MatchType, pattern: Seq<char>) -> Seq<char> {
    let u = upper(trim(pattern));
    match m {
        MatchType::Prefix => u.push('%'),
        MatchType::Suffix => seq!['%'] + u,
        MatchType::Contains => (seq!['%'] + u).push('%'),
        MatchType::Exact => u,
    }
}

/// The SQL `LIKE` pattern for a match type and pattern.
pub fn like_pattern(match_type: MatchType, pattern: &str) -> (r: String)
    ensures
        r@ == like_pattern_spec(match_type, pattern@),
{
    let t = trimmed(pattern);
    let u = to_upper(t.as_str());
    match match_type {
        MatchType::Prefix => {
            let mut r = u;
            push_char(&mut r, '%');
            r
        },
        MatchType::Suffix => {
            let mut r = String::new();
            push_char(&mut r, '%');
            r.append(u.as_str());
            assert(r@ =~= like_pattern_spec(match_type, pattern@));
            r
        },
        MatchType::Contains => {
            let mut r = String::new();
            push_char(&mut r, '%');
            r.append(u.as_str());
            push_char(&mut r, '%');
            assert(r@ =~= like_pattern_spec(match_type, pattern@));
            r
        },
        MatchType::Exact => u,
    }
}

// ───────────────────────── predicate ─────────────────────────

/// The enabled rules with the given action, in order.
pub open spec fn selected_rules(rules: Seq<TableFilterRule>, a: FilterAction) -> Seq<TableFilterRule>
    decreases rules.len(),
{
    if rules.len() == 0 {
        seq![]
    } else {
        let rest = selected_rules(rules.drop_last(), a);
        if rules.last().enabled && rules.last().action == a {
            rest.push(rules.last())
        } else {
            rest
        }
    }
}

pub open spec fn placeholder(style: ParamStyle, n: nat) -> Seq<char> {
    (match style {
        ParamStyle::Colon => seq![':'],
        ParamStyle::Dollar => seq!['$'],
    }) + decimal(n)
}

/// `UPPER(column) NOT LIKE <placeholder n>`.
pub open spec fn not_like_clause(column: Seq<char>, style: ParamStyle, n: nat) -> Seq<char> {
    "UPPER("@ + column + ") NOT LIKE "@ + placeholder(style, n)
}

/// `UPPER(column) LIKE <placeholder n>`.
pub open spec fn like_clause(column: Seq<char>, style: ParamStyle, n: nat) -> Seq<char> {
    "UPPER("@ + column + ") LIKE "@ + placeholder(style, n)
}

/// The clauses of the predicate: one `NOT LIKE` per enabled exclude rule, then one
/// parenthesised `OR` group of `LIKE`s for the enabled include rules, if any.
pub open spec fn predicate_clauses(
    rules: Seq<TableFilterRule>,
    column: Seq<char>,
    start: nat,
    style: ParamStyle,
) -> Seq<Seq<char>> {
    let e = selected_rules(rules, FilterAction::Exclude).len();
    let i = selected_rules(rules, FilterAction::Include).len();
    let excl = clause_seq(FilterAction::Exclude, column, style, start, e);
    let incl = clause_seq(FilterAction::Include, column, style, start + e, i);
    if i == 0 {
        excl
    } else {
        excl.push(or_group(incl))
    }
}

/// `(c1 OR c2 OR ...)`.
pub open spec fn or_group(clauses: Seq<Seq<char>>) -> Seq<char> {
    seq!['('] + join(clauses, " OR "@) + seq![')']
}

/// The SQL fragment of the predicate: empty without clauses, else ` AND ` followed by
/// the clauses joined by ` AND `.
pub open spec fn predicate_sql(
    rules: Seq<TableFilterRule>,
    column: Seq<char>,
    start: nat,
    style: ParamStyle,
) -> Seq<char> {
    let cs = predicate_clauses(rules, column, start, style);
    if cs.len() == 0 { seq![] } else { " AND "@ + join(cs, " AND "@) }
}

/// The `LIKE` patterns of `rules`, in order.
pub open spec fn like_patterns(rules: Seq<TableFilterRule>) -> Seq<Seq<char>>
    decreases rules.len(),
{
    if rules.len() == 0 {
        seq![]
    } else {
        like_patterns(rules.drop_last()).push(like_pattern_spec(rules.last().match_type, rules.last().pattern@))
    }
}

/// The bind values, in placeholder order.
pub open spec fn predicate_binds(rules: Seq<TableFilterRule>) -> Seq<Seq<char>> {
    like_patterns(selected_rules(rules, FilterAction::Exclude))
        + like_patterns(selected_rules(rules, FilterAction::Include))
}

/// The clauses for `n` rules with action `a`, numbered from `start`.
pub open spec fn clause_seq(a: FilterAction, column: Seq<char>, style: ParamStyle, start: nat, n: nat) -> Seq<Seq<char>> {
    Seq::new(n, |k: int| rule_clause(a, column, style, (start + k) as nat))
}

pub open spec fn views(v: Seq<String>) -> Seq<Seq<char>> {
    v.map_values(|s: String| s@)
}

proof fn lemma_selected_len(rules: Seq<TableFilterRule>, a: FilterAction)
    ensures
        selected_rules(rules, a).len() <= rules.len(),
        selected_rules(rules, FilterAction::Exclude).len() + selected_rules(rules, FilterAction::Include).len()
            <= rules.len(),
    decreases rules.len(),
{
    if rules.len() > 0 {
        lemma_selected_len(rules.drop_last(), a);
    }
}

fn placeholder_exec(style: ParamStyle, n: usize) -> (r: String)
    ensures
        r@ == placeholder(style, n as nat),
{
    let mut r = String::new();
    match style {
        ParamStyle::Colon => push_char(&mut r, ':'),
        ParamStyle::Dollar => push_char(&mut r, '$'),
    }
    let d = usize_decimal(n);
    r.append(d.as_str());
    assert(r@ =~= placeholder(style, n as nat));
    r
}

proof fn lemma_selected_prefix(rules: Seq<TableFilterRule>, a: FilterAction, i: int)
    requires
        0 <= i <= rules.len(),
    ensures
        selected_rules(rules.take(i), a).len() <= selected_rules(rules, a).len(),
    decreases rules.len() - i,
{
    if i < rules.len() {
        lemma_selected_prefix(rules, a, i + 1);
        assert(rules.take(i + 1).drop_last() =~= rules.take(i));
    } else {
        assert(rules.take(i) =~= rules);
    }
}

pub open spec fn rule_clause(a: FilterAction, column: Seq<char>, style: ParamStyle, n: nat) -> Seq<char> {
    if a == FilterAction::Exclude {
        not_like_clause(column, style, n)
    } else {
        like_clause(column, style, n)
    }
}

/// Collects, in order, the clause and bind of every enabled rule with action `a`,
/// numbering placeholders from `start`.
fn collect_clauses(
    rules: &[TableFilterRule],
    a: FilterAction,
    column: &str,
    start: usize,
    style: ParamStyle,
    clauses: &mut Vec<String>,
    binds: &mut Vec<String>,
)
    requires
        start + selected_rules(rules@, a).len() <= usize::MAX,
    ensures
        views(final(clauses)@) == views(old(clauses)@) + clause_seq(a, column@, style, start as nat, selected_rules(rules@, a).len()),
        views(final(binds)@) == views(old(binds)@) + like_patterns(selected_rules(rules@, a)),
{
    let ghost c0 = views(clauses@);
    let ghost b0 = views(binds@);
    let mut next = start;
    let mut i: usize = 0;
    while i < rules.len()
        invariant
            i <= rules.len(),
            start + selected_rules(rules@, a).len() <= usize::MAX,
            next == start + selected_rules(rules@.take(i as int), a).len(),
            views(clauses@) == c0 + clause_seq(a, column@, style, start as nat, selected_rules(rules@.take(i as int), a).len()),
            views(binds@) == b0 + like_patterns(selected_rules(rules@.take(i as int), a)),
        decreases rules.len() - i,
    {
        proof {
            assert(rules@.take(i + 1).drop_last() =~= rules@.take(i as int));
            assert(rules@.take(i + 1).last() == rules@[i as int]);
            lemma_selected_len(rules@.take(i as int), a);
            lemma_selected_prefix(rules@, a, i as int);
            lemma_selected_prefix(rules@, a, i + 1);
        }
        let r = &rules[i];
        if r.enabled && r.action == a {
            let ph = placeholder_exec(style, next);
            let mut c = String::new();
            c.append("UPPER(");
            c.append(column);
            let ghost k = selected_rules(rules@.take(i as int), a).len();
            if a == FilterAction::Exclude {
                c.append(") NOT LIKE ");
                c.append(ph.as_str());
                assert(c@ =~= not_like_clause(column@, style, (start + k) as nat));
            } else {
                c.append(") LIKE ");
                c.append(ph.as_str());
                assert(c@ =~= like_clause(column@, style, (start + k) as nat));
            }
            assert(c@ == rule_clause(a, column@, style, (start + k) as nat));
            let ghost cl_before = clauses@;
            let ghost bi_before = binds@;
            let lp = like_pattern(r.match_type, r.pattern.as_str());
            proof {
                assert(views(cl_before.push(c)) =~= views(cl_before).push(c@));
                assert(views(bi_before.push(lp)) =~= views(bi_before).push(lp@));
            }
            clauses.push(c);
            binds.push(lp);
            next = next + 1;
            proof {
                let sel = selected_rules(rules@.take(i as int), a);
                assert(selected_rules(rules@.take(i + 1), a) == sel.push(rules@[i as int]));
                assert(sel.push(rules@[i as int]).drop_last() =~= sel);
                assert(views(clauses@) =~= c0 + clause_seq(a, column@, style, start as nat, k + 1));
                assert(views(binds@) =~= b0 + like_patterns(selected_rules(rules@.take(i + 1), a)));
            }
        } else {
            proof {
                assert(selected_rules(rules@.take(i + 1), a) == selected_rules(rules@.take(i as int), a));
            }
        }
        i += 1;
    }
    assert(rules@.take(rules.len() as int) =~= rules@);
}

/// An SQL `AND` fragment, with its bind values in placeholder order, that keeps only
/// the names in `column` allowed by the enabled rules: every exclude rule adds a
/// `NOT LIKE`, and the include rules, if any, form one `OR` allow-list. Placeholders
/// are numbered from `start_idx` in the given style. No enabled rule gives an empty
/// fragment and no binds.
pub fn build_predicate(
    rules: &[TableFilterRule],
    column: &str,
    start_idx: usize,
    style: ParamStyle,
) -> (r: (String, Vec<String>))
    requires
        start_idx + rules.len() <= usize::MAX,
    ensures
        r.0@ == predicate_sql(rules@, column@, start_idx as nat, style),
        views(r.1@) == predicate_binds(rules@),
{
    let mut clauses: Vec<String> = Vec::new();
    let mut binds: Vec<String> = Vec::new();
    proof {
        lemma_selected_len(rules@, FilterAction::Exclude);
        lemma_selected_len(rules@, FilterAction::Include);
    }
    collect_clauses(rules, FilterAction::Exclude, column, start_idx, style, &mut clauses, &mut binds);
    let excl_count = clauses.len();
    let mut ors: Vec<String> = Vec::new();
    collect_clauses(rules, FilterAction::Include, column, start_idx + excl_count, style, &mut ors, &mut binds);
    let ghost e = selected_rules(rules@, FilterAction::Exclude).len();
    let ghost n = selected_rules(rules@, FilterAction::Include).len();
    assert(views(ors@) =~= clause_seq(FilterAction::Include, column@, style, start_idx as nat + e, n));
    let ghost cl0 = clauses@;
    assert(views(cl0) =~= clause_seq(FilterAction::Exclude, column@, style, start_idx as nat, e));
    if ors.len() > 0 {
        let mut group = String::new();
        push_char(&mut group, '(');
        let inner = join_exec(&ors, " OR ");
        group.append(inner.as_str());
        push_char(&mut group, ')');
        proof {
            assert(views(cl0.push(group)) =~= views(cl0).push(group@));
            assert(group@ =~= seq!['('] + join(views(ors@), " OR "@) + seq![')']);
        }
        clauses.push(group);
    }
    let ghost cs = predicate_clauses(rules@, column@, start_idx as nat, style);
    assert(views(clauses@) =~= cs);
    assert(views(binds@) =~= predicate_binds(rules@));
    if clauses.len() == 0 {
        (String::new(), binds)
    } else {
        let mut sql = String::new();
        sql.append(" AND ");
        let body = join_exec(&clauses, " AND ");
        sql.append(body.as_str());
        (sql, binds)
    }
}

// ───────────────────────── laws ─────────────────────────

/// The number of enabled rules.
pub open spec fn enabled_count(rules: Seq<TableFilterRule>) -> nat
    decreases rules.len(),
{
    if rules.len() == 0 {
        0
    } else {
        enabled_count(rules.drop_last()) + if rules.last().enabled { 1nat } else { 0nat }
    }
}

proof fn lemma_like_patterns_len(rules: Seq<TableFilterRule>)
    ensures
        like_patterns(rules).len() == rules.len(),
    decreases rules.len(),
{
    if rules.len() > 0 {
        lemma_like_patterns_len(rules.drop_last());
    }
}

proof fn lemma_selected_split(rules: Seq<TableFilterRule>)
    ensures
        selected_rules(rules, FilterAction::Exclude).len() + selected_rules(rules, FilterAction::Include).len()
            == enabled_count(rules),
    decreases rules.len(),
{
    if rules.len() > 0 {
        lemma_selected_split(rules.drop_last());
    }
}

/// Every enabled rule binds exactly one pattern and a disabled rule binds none; with
/// no enabled rule the predicate is empty.
pub proof fn predicate_binds_one_per_enabled_rule(rules: Seq<TableFilterRule>, column: Seq<char>, start: nat, style: ParamStyle)
    ensures
        predicate_binds(rules).len() == enabled_count(rules),
        enabled_count(rules) == 0 ==> predicate_sql(rules, column, start, style).len() == 0,
{
    lemma_selected_split(rules);
    lemma_like_patterns_len(selected_rules(rules, FilterAction::Exclude));
    lemma_like_patterns_len(selected_rules(rules, FilterAction::Include));
    if enabled_count(rules) == 0 {
        assert(predicate_clauses(rules, column, start, style).len() == 0);
    }
}

proof fn lemma_like_patterns_at(rules: Seq<TableFilterRule>, k: int)
    requires
        0 <= k < rules.len(),
    ensures
        like_patterns(rules).len() == rules.len(),
        like_patterns(rules)[k] == like_pattern_spec(rules[k].match_type, rules[k].pattern@),
    decreases rules.len(),
{
    lemma_like_patterns_len(rules);
    if k < rules.len() - 1 {
        assert(rules.drop_last()[k] == rules[k]);
        lemma_like_patterns_at(rules.drop_last(), k);
    }
}

proof fn lemma_exclude_rule_clause(rules: Seq<TableFilterRule>, column: Seq<char>, start: nat, style: ParamStyle, k: int)
    requires
        0 <= k < selected_rules(rules, FilterAction::Exclude).len(),
    ensures
        crate::text::contains(predicate_sql(rules, column, start, style),
            "UPPER("@ + column + ") NOT LIKE "@ + placeholder(style, (start + k) as nat)),
        predicate_binds(rules)[k] == like_pattern_spec(selected_rules(rules, FilterAction::Exclude)[k].match_type,
            selected_rules(rules, FilterAction::Exclude)[k].pattern@),
{
    let ex = selected_rules(rules, FilterAction::Exclude);
    let e = ex.len();
    let cs = predicate_clauses(rules, column, start, style);
    let excl = clause_seq(FilterAction::Exclude, column, style, start, e);
    lemma_like_patterns_at(ex, k);
    assert(excl[k] == not_like_clause(column, style, (start + k) as nat));
    assert(cs[k] == excl[k]);
    crate::text::lemma_join_has(cs, " AND "@, k);
    crate::text::lemma_text_contains_right(" AND "@, join(cs, " AND "@), excl[k]);
}

proof fn lemma_include_rule_clause(rules: Seq<TableFilterRule>, column: Seq<char>, start: nat, style: ParamStyle, k: int)
    requires
        0 <= k < selected_rules(rules, FilterAction::Include).len(),
    ensures
        crate::text::contains(predicate_sql(rules, column, start, style), "UPPER("@ + column + ") LIKE "@
            + placeholder(style, (start + selected_rules(rules, FilterAction::Exclude).len() + k) as nat)),
        predicate_binds(rules)[selected_rules(rules, FilterAction::Exclude).len() + k] == like_pattern_spec(
            selected_rules(rules, FilterAction::Include)[k].match_type,
            selected_rules(rules, FilterAction::Include)[k].pattern@),
{
    let ex = selected_rules(rules, FilterAction::Exclude);
    let inc = selected_rules(rules, FilterAction::Include);
    let e = ex.len();
    let cs = predicate_clauses(rules, column, start, style);
    let incl = clause_seq(FilterAction::Include, column, style, start + e, inc.len());
    lemma_like_patterns_len(ex);
    lemma_like_patterns_at(inc, k);
    let g = or_group(incl);
    assert(cs[e as int] == g);
    crate::text::lemma_join_has(cs, " AND "@, e as int);
    crate::text::lemma_text_contains_right(" AND "@, join(cs, " AND "@), g);
    crate::text::lemma_join_has(incl, " OR "@, k);
    assert(incl[k] == like_clause(column, style, (start + e + k) as nat));
    crate::text::lemma_text_contains_right(seq!['('], join(incl, " OR "@), incl[k]);
    crate::text::lemma_text_contains_left(seq!['('] + join(incl, " OR "@), seq![')'], incl[k]);
    crate::text::lemma_text_contains_within(predicate_sql(rules, column, start, style), g, incl[k]);
    assert(predicate_binds(rules)[e + k] == like_patterns(inc)[k]);
}

/// The `k`-th enabled exclude rule is tested with `UPPER(column) NOT LIKE` against the
/// placeholder numbered `start + k`, whose bind is that rule's `LIKE` pattern; the
/// `k`-th enabled include rule is tested with `UPPER(column) LIKE` against the
/// placeholder numbered after all the excludes, whose bind is its pattern.
pub proof fn predicate_pairs_each_rule_with_its_bind(
    rules: Seq<TableFilterRule>,
    column: Seq<char>,
    start: nat,
    style: ParamStyle,
    k: int,
)
    ensures
        0 <= k < selected_rules(rules, FilterAction::Exclude).len() ==> {
            &&& crate::text::contains(predicate_sql(rules, column, start, style),
                "UPPER("@ + column + ") NOT LIKE "@ + placeholder(style, (start + k) as nat))
            &&& predicate_binds(rules)[k] == like_pattern_spec(selected_rules(rules, FilterAction::Exclude)[k].match_type,
                selected_rules(rules, FilterAction::Exclude)[k].pattern@)
        },
        0 <= k < selected_rules(rules, FilterAction::Include).len() ==> {
            &&& crate::text::contains(predicate_sql(rules, column, start, style), "UPPER("@ + column + ") LIKE "@
                + placeholder(style, (start + selected_rules(rules, FilterAction::Exclude).len() + k) as nat))
            &&& predicate_binds(rules)[selected_rules(rules, FilterAction::Exclude).len() + k] == like_pattern_spec(
                selected_rules(rules, FilterAction::Include)[k].match_type,
                selected_rules(rules, FilterAction::Include)[k].pattern@)
        },
{
    if 0 <= k < selected_rules(rules, FilterAction::Exclude).len() {
        lemma_exclude_rule_clause(rules, column, start, style, k);
    }
    if 0 <= k < selected_rules(rules, FilterAction::Include).len() {
        lemma_include_rule_clause(rules, column, start, style, k);
    }
}

} // verus!
