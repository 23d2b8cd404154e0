//! The data the library works on: connection records, schema metadata, discrepancies
//! and the user-defined naming rules.
use vstd::prelude::*;

verus! {

/// A saved connection to one database server.
#[derive(Clone, Debug, PartialEq, Eq)]
pub struct ConnectionRecord {
    pub id: i64,
    pub name: String,
    pub host: String,
    pub port: u16,
    pub service_name: String,
    pub username: String,
    pub password: String,
    pub group_name: String,
    /// True when the password could not be loaded from the OS credential manager;
    /// `password` is empty in that case.
    pub password_broken: bool,
}

impl ConnectionRecord {
    /// A field-by-field copy.
    pub fn duplicate(&self) -> (r: Self)
        ensures
            r == *self,
    {
        ConnectionRecord {
            id: self.id,
            name: self.name.clone(),
            host: self.host.clone(),
            port: self.port,
            service_name: self.service_name.clone(),
            username: self.username.clone(),
            password: self.password.clone(),
            group_name: self.group_name.clone(),
            password_broken: self.password_broken,
        }
    }
}

/// Per-schema overrides of the global DDL-export settings. Any field left empty (after
/// trimming) falls back to the global setting. `extensions` and `storage_modes` are
/// each a JSON object mapping upper-cased object type to a value.
#[derive(Clone, Debug, PartialEq, Eq)]
pub struct SchemaFolderOverride {
    pub id: i64,
    pub schema_name: String,
    pub folder_path: String,
    pub encoding: String,
    pub extensions: String,
    pub storage_modes: String,
    pub naming_convention: String,
    pub code_folder_name: String,
    pub migration_folder_name: String,
    pub migration_folder_mode: String,
    pub migration_version_label: String,
}

/// Column metadata as fetched from a server's catalog.
#[derive(Clone, Debug, Default, PartialEq, Eq)]
pub struct ColumnInfo {
    pub column_name: Option<String>,
    pub data_type: Option<String>,
    pub data_length: Option<String>,
    pub data_default: Option<String>,
    pub comments: Option<String>,
    pub index_name: Option<String>,
    pub index_position: Option<u32>,
}

fn dup_opt(o: &Option<String>) -> (r: Option<String>)
    ensures
        r == *o,
{
    match o {
        Some(s) => Some(s.clone()),
        None => None,
    }
}

impl ColumnInfo {
    /// A field-by-field copy.
    pub fn duplicate(&self) -> (r: Self)
        ensures
            r == *self,
    {
        ColumnInfo {
            column_name: dup_opt(&self.column_name),
            data_type: dup_opt(&self.data_type),
            data_length: dup_opt(&self.data_length),
            data_default: dup_opt(&self.data_default),
            comments: dup_opt(&self.comments),
            index_name: dup_opt(&self.index_name),
            index_position: self.index_position,
        }
    }
}

/// The result of running one query on one server.
#[derive(Clone, Debug, Default)]
pub struct QueryServerResult {
    pub server_name: String,
    pub columns: Vec<String>,
    pub column_types: Vec<String>,
    pub rows: Vec<Vec<Option<String>>>,
    pub error: Option<String>,
    pub duration_ms: u64,
}

/// A saved query in the history panel.
#[derive(Clone, Debug, Default, PartialEq, Eq)]
pub struct QueryHistoryEntry {
    pub id: i64,
    pub sql_text: String,
    pub pinned: bool,
    pub favorite: bool,
    pub description: String,
}

/// One difference between the reference server and another server.
#[derive(Clone, Debug, PartialEq, Eq)]
pub struct Discrepancy {
    pub difference: String,
    pub element: String,
    pub table_name: String,
    pub column_name: String,
    pub server_name: String,
    pub details: String,
}

/// A named object of a schema, with its object type (`TABLE`, `VIEW`, ...).
#[derive(Clone, Debug, PartialEq, Eq)]
pub struct SchemaObject {
    pub name: String,
    pub object_type: String,
}

/// A column of a main table that its history table lacks or types differently.
#[derive(Clone, Debug, PartialEq, Eq)]
pub struct HistoryTableIssue {
    pub history_table: String,
    pub column_name: String,
    /// `MISSING` or `TYPE_MISMATCH`.
    pub issue_type: String,
    pub main_type: String,
    pub history_type: String,
}

/// The history-table issues of one server and the SQL that fixes them.
#[derive(Clone, Debug, Default)]
pub struct HistoryFixResult {
    pub issues: Vec<HistoryTableIssue>,
    pub fix_sql: String,
}

/// A [`HistoryFixResult`] labelled with its server, or the error that server gave.
#[derive(Clone, Debug, Default)]
pub struct ServerHistoryFixResult {
    pub server_name: String,
    pub issues: Vec<HistoryTableIssue>,
    pub fix_sql: String,
    pub error: Option<String>,
}

/// Whether a filter rule removes or keeps the tables it matches.
#[derive(Clone, Copy, Debug, PartialEq, Eq, Structural)]
pub enum FilterAction {
    Exclude,
    Include,
}

/// How a rule's pattern is matched against a name.
#[derive(Clone, Copy, Debug, PartialEq, Eq, Structural)]
pub enum MatchType {
    Prefix,
    Suffix,
    Contains,
    Exact,
}

/// A user-defined rule for including or excluding tables by name pattern.
#[derive(Clone, Debug, PartialEq, Eq)]
pub struct TableFilterRule {
    pub id: i64,
    pub action: FilterAction,
    pub match_type: MatchType,
    pub pattern: String,
    pub enabled: bool,
}

impl TableFilterRule {
    /// A field-by-field copy.
    pub fn duplicate(&self) -> (r: Self)
        ensures
            r == *self,
    {
        TableFilterRule {
            id: self.id,
            action: self.action,
            match_type: self.match_type,
            pattern: self.pattern.clone(),
            enabled: self.enabled,
        }
    }
}

/// A user-defined rule pairing a main table with its history table by a name prefix or
/// suffix.
#[derive(Clone, Debug, PartialEq, Eq)]
pub struct HistoryNamingRule {
    pub id: i64,
    pub match_type: MatchType,
    pub pattern: String,
    pub enabled: bool,
}

impl HistoryNamingRule {
    /// A field-by-field copy.
    pub fn duplicate(&self) -> (r: Self)
        ensures
            r == *self,
    {
        HistoryNamingRule {
            id: self.id,
            match_type: self.match_type,
            pattern: self.pattern.clone(),
            enabled: self.enabled,
        }
    }
}

// ───────────────────────── keyed collections ─────────────────────────

/// A map from names to values that remembers insertion order. Keys are distinct.
pub struct NameMap<V> {
    entries: Vec<(String, V)>,
}

/// The key of an entry, as characters.
pub open spec fn key_of<V>(e: (String, V)) -> Seq<char> {
    e.0@
}

/// No key occurs twice in `s`.
pub open spec fn distinct_keys<V>(s: Seq<(String, V)>) -> bool {
    forall|i: int, j: int| 0 <= i < j < s.len() ==> #[trigger] s[i].0@ != #[trigger] s[j].0@
}

/// The position of key `k` in `s`, if present.
pub open spec fn key_index<V>(s: Seq<(String, V)>, k: Seq<char>) -> Option<int>
    decreases s.len(),
{
    if s.len() == 0 {
        None
    } else if s.last().0@ == k {
        Some(s.len() - 1)
    } else {
        key_index(s.drop_last(), k)
    }
}

pub proof fn lemma_key_index<V>(s: Seq<(String, V)>, k: Seq<char>)
    ensures
        match key_index(s, k) {
            Some(i) => 0 <= i < s.len() && s[i].0@ == k,
            None => forall|i: int| 0 <= i < s.len() ==> s[i].0@ != k,
        },
    decreases s.len(),
{
    if s.len() > 0 && s.last().0@ != k {
        lemma_key_index(s.drop_last(), k);
        match key_index(s.drop_last(), k) {
            Some(i) => assert(s.drop_last()[i] == s[i]),
            None => {
                assert forall|i: int| 0 <= i < s.len() implies s[i].0@ != k by {
                    if i < s.len() - 1 {
                        assert(s.drop_last()[i] == s[i]);
                    }
                }
            },
        }
    }
}

pub proof fn lemma_key_index_of_distinct<V>(s: Seq<(String, V)>, i: int)
    requires
        distinct_keys(s),
        0 <= i < s.len(),
    ensures
        key_index(s, s[i].0@) == Some(i),
    decreases s.len(),
{
    if i != s.len() - 1 {
        assert(s.last().0@ != s[i].0@);
        assert(distinct_keys(s.drop_last()));
        lemma_key_index_of_distinct(s.drop_last(), i);
    }
}

/// The first position whose key equals `k` ignoring ASCII case, as a forward
/// search of the entries would find it.
pub open spec fn first_ci<V>(s: Seq<(String, V)>, k: Seq<char>) -> Option<int> {
    if exists|i: int| 0 <= i < s.len() && crate::text::eq_ci(#[trigger] s[i].0@, k) {
        Some(choose|i: int|
            0 <= i < s.len() && crate::text::eq_ci(#[trigger] s[i].0@, k)
                && forall|j: int| 0 <= j < i ==> !crate::text::eq_ci(#[trigger] s[j].0@, k))
    } else {
        None
    }
}

impl<V> NameMap<V> {
    #[verifier::type_invariant]
    spec fn wf(self) -> bool {
        distinct_keys(self.entries@)
    }

    /// The entries in insertion order.
    pub closed spec fn items(&self) -> Seq<(String, V)> {
        self.entries@
    }

    /// The value stored under `k`, if any.
    pub open spec fn lookup(&self, k: Seq<char>) -> Option<V> {
        match key_index(self.items(), k) {
            Some(i) => Some(self.items()[i].1),
            None => None,
        }
    }

    pub open spec fn has(&self, k: Seq<char>) -> bool {
        key_index(self.items(), k) is Some
    }

    /// An empty map.
    pub fn new() -> (m: Self)
        ensures
            m.items() == Seq::<(String, V)>::empty(),
    {
        NameMap { entries: Vec::new() }
    }

    /// The number of entries; the keys are distinct.
    pub fn len(&self) -> (n: usize)
        ensures
            n == self.items().len(),
            distinct_keys(self.items()),
    {
        proof { use_type_invariant(self); }
        self.entries.len()
    }

    pub fn is_empty(&self) -> (b: bool)
        ensures
            b == (self.items().len() == 0),
    {
        self.entries.len() == 0
    }

    /// The key of the `i`-th entry.
    pub fn key(&self, i: usize) -> (k: &String)
        requires
            i < self.items().len(),
        ensures
            *k == self.items()[i as int].0,
    {
        &self.entries[i].0
    }

    /// The value of the `i`-th entry.
    pub fn value(&self, i: usize) -> (v: &V)
        requires
            i < self.items().len(),
        ensures
            *v == self.items()[i as int].1,
    {
        &self.entries[i].1
    }

    /// The position of `k`, if present.
    pub fn index_of(&self, k: &str) -> (r: Option<usize>)
        ensures
            match r {
                Some(i) => key_index(self.items(), k@) == Some(i as int),
                None => key_index(self.items(), k@) is None,
            },
    {
        proof {
            use_type_invariant(self);
            lemma_key_index(self.items(), k@);
        }
        let mut i: usize = 0;
        while i < self.entries.len()
            invariant
                i <= self.entries.len(),
                distinct_keys(self.entries@),
                forall|j: int| 0 <= j < i ==> self.entries@[j].0@ != k@,
            decreases self.entries.len() - i,
        {
            if crate::text::same_text(self.entries[i].0.as_str(), k) {
                proof { lemma_key_index_of_distinct(self.entries@, i as int); }
                return Some(i);
            }
            i += 1;
        }
        proof {
            if key_index(self.items(), k@) is Some {
                let j = key_index(self.items(), k@)->0;
                assert(self.entries@[j].0@ == k@);
            }
        }
        None
    }

    /// The value stored under `k`, if any.
    pub fn get(&self, k: &str) -> (r: Option<&V>)
        ensures
            match r {
                Some(v) => self.lookup(k@) == Some(*v),
                None => self.lookup(k@) is None,
            },
    {
        proof { lemma_key_index(self.items(), k@); }
        match self.index_of(k) {
            Some(i) => Some(&self.entries[i].1),
            None => None,
        }
    }

    pub fn contains_key(&self, k: &str) -> (b: bool)
        ensures
            b == self.has(k@),
    {
        self.index_of(k).is_some()
    }

    /// The value under `k`; failing that, the value of the first key equal to `k`
    /// ignoring ASCII case.
    pub open spec fn lookup_ci(&self, k: Seq<char>) -> Option<V> {
        match self.lookup(k) {
            Some(v) => Some(v),
            None => match first_ci(self.items(), k) {
                Some(i) => Some(self.items()[i].1),
                None => None,
            },
        }
    }

    /// The position of the first key equal to `k` ignoring ASCII case.
    pub fn position_ci(&self, k: &str) -> (r: Option<usize>)
        ensures
            match r {
                Some(i) => i < self.items().len() && first_ci(self.items(), k@) == Some(i as int),
                None => first_ci(self.items(), k@) is None,
            },
    {
        let mut i: usize = 0;
        while i < self.entries.len()
            invariant
                i <= self.entries.len(),
                forall|j: int| 0 <= j < i ==> !crate::text::eq_ci(#[trigger] self.entries@[j].0@, k@),
            decreases self.entries.len() - i,
        {
            if crate::text::eq_ignore_case(self.entries[i].0.as_str(), k) {
                proof {
                    let s = self.items();
                    assert(0 <= i < s.len() && crate::text::eq_ci(s[i as int].0@, k@));
                    let c = choose|c: int|
                        0 <= c < s.len() && crate::text::eq_ci(#[trigger] s[c].0@, k@)
                            && forall|j: int| 0 <= j < c ==> !crate::text::eq_ci(#[trigger] s[j].0@, k@);
                    assert(0 <= c < s.len() && crate::text::eq_ci(s[c].0@, k@));
                    if c < i {
                        assert(!crate::text::eq_ci(self.entries@[c].0@, k@));
                    }
                    if c > i {
                        assert(!crate::text::eq_ci(s[i as int].0@, k@));
                    }
                }
                return Some(i);
            }
            i += 1;
        }
        None
    }

    /// The value under `k`; failing that, the value of the first key equal to `k`
    /// ignoring ASCII case.
    pub fn get_ci(&self, k: &str) -> (r: Option<&V>)
        ensures
            match r {
                Some(v) => self.lookup_ci(k@) == Some(*v),
                None => self.lookup_ci(k@) is None,
            },
    {
        match self.get(k) {
            Some(v) => Some(v),
            None => match self.position_ci(k) {
                Some(i) => Some(&self.entries[i].1),
                None => None,
            },
        }
    }

    /// The keys in insertion order.
    pub open spec fn key_texts(&self) -> Seq<Seq<char>> {
        self.items().map_values(|e: (String, V)| e.0@)
    }

    /// The keys in insertion order.
    pub fn keys(&self) -> (r: Vec<String>)
        ensures
            crate::text::texts(r@) == self.key_texts(),
    {
        let mut r: Vec<String> = Vec::new();
        let mut i: usize = 0;
        while i < self.entries.len()
            invariant
                i <= self.entries.len(),
                r.len() == i,
                crate::text::texts(r@) == self.key_texts().take(i as int),
            decreases self.entries.len() - i,
        {
            let ghost before = r@;
            r.push(self.entries[i].0.clone());
            assert forall|j: int| 0 <= j < i + 1 implies #[trigger] crate::text::texts(r@)[j] == self.key_texts()[j] by {
                if j < i {
                    assert(crate::text::texts(before)[j] == self.key_texts().take(i as int)[j]);
                }
            }
            assert(crate::text::texts(r@) =~= self.key_texts().take(i + 1));
            i += 1;
        }
        assert(self.key_texts().take(i as int) =~= self.key_texts());
        r
    }

    /// Stores `v` under `k`: replaces the value in place when `k` is present, else
    /// appends a new entry.
    pub fn insert(&mut self, k: String, v: V)
        ensures
            match key_index(old(self).items(), k@) {
                Some(i) => final(self).items() == old(self).items().update(i, (k, v)),
                None => final(self).items() == old(self).items().push((k, v)),
            },
    {
        proof { use_type_invariant(&*self); }
        let pos = self.index_of(k.as_str());
        proof { lemma_key_index(self.entries@, k@); }
        proof { lemma_key_index(self.entries@, k@); }
        match pos {
            Some(i) => {
                let ghost before = self.entries@;
                let mut entries: Vec<(String, V)> = Vec::new();
                std::mem::swap(&mut entries, &mut self.entries);
                entries.set(i, (k, v));
                proof {
                    assert forall|a: int, b: int| 0 <= a < b < entries@.len() implies
                        #[trigger] entries@[a].0@ != #[trigger] entries@[b].0@ by {
                        assert(entries@[a].0@ == before[a].0@);
                        assert(entries@[b].0@ == before[b].0@);
                    }
                }
                self.entries = entries;
            },
            None => {
                let mut entries: Vec<(String, V)> = Vec::new();
                std::mem::swap(&mut entries, &mut self.entries);
                let ghost before = entries@;
                entries.push((k, v));
                proof {
                    assert forall|a: int, b: int| 0 <= a < b < entries@.len() implies
                        #[trigger] entries@[a].0@ != #[trigger] entries@[b].0@ by {
                        if b == before.len() {
                            assert(entries@[a] == before[a]);
                        } else {
                            assert(entries@[a] == before[a]);
                            assert(entries@[b] == before[b]);
                        }
                    }
                }
                self.entries = entries;
            },
        }
    }
}

/// Columns of one table, keyed by column name.
pub type TableColumns = NameMap<ColumnInfo>;

/// Tables of one server, keyed by table name.
pub type ServerTables = NameMap<TableColumns>;

/// Fetched metadata of every loaded server, keyed by server name.
pub type ServersData = NameMap<ServerTables>;

/// Full `CREATE TABLE` DDL of tables, keyed by table name.
pub type TableDdls = NameMap<String>;

/// Table DDLs of every server, keyed by server name.
pub type ServerTableDdls = NameMap<TableDdls>;

} // verus!

verus! {

/// The characters of every field of a [`Discrepancy`].
pub struct DiscrepancyView {
    pub difference: Seq<char>,
    pub element: Seq<char>,
    pub table_name: Seq<char>,
    pub column_name: Seq<char>,
    pub server_name: Seq<char>,
    pub details: Seq<char>,
}

impl View for Discrepancy {
    type V = DiscrepancyView;

    open spec fn view(&self) -> DiscrepancyView {
        DiscrepancyView {
            difference: self.difference@,
            element: self.element@,
            table_name: self.table_name@,
            column_name: self.column_name@,
            server_name: self.server_name@,
            details: self.details@,
        }
    }
}

/// The views of a sequence of discrepancies.
pub open spec fn disc_views(v: Seq<Discrepancy>) -> Seq<DiscrepancyView> {
    Seq::new(v.len(), |i: int| v[i]@)
}

/// Appends `d` to `out`.
pub fn push_discrepancy(out: &mut Vec<Discrepancy>, d: Discrepancy)
    ensures
        disc_views(final(out)@) == disc_views(old(out)@).push(d@),
{
    let ghost before = out@;
    out.push(d);
    assert(disc_views(out@) =~= disc_views(before).push(d@));
}

/// The characters of every field of a [`HistoryTableIssue`].
pub struct IssueView {
    pub history_table: Seq<char>,
    pub column_name: Seq<char>,
    pub issue_type: Seq<char>,
    pub main_type: Seq<char>,
    pub history_type: Seq<char>,
}

impl View for HistoryTableIssue {
    type V = IssueView;

    open spec fn view(&self) -> IssueView {
        IssueView {
            history_table: self.history_table@,
            column_name: self.column_name@,
            issue_type: self.issue_type@,
            main_type: self.main_type@,
            history_type: self.history_type@,
        }
    }
}

/// The views of a sequence of issues.
pub open spec fn issue_views(v: Seq<HistoryTableIssue>) -> Seq<IssueView> {
    v.map_values(|i: HistoryTableIssue| i@)
}

/// The characters of an optional string.
pub open spec fn opt_view(o: Option<String>) -> Option<Seq<char>> {
    match o {
        Some(s) => Some(s@),
        None => None,
    }
}

} // verus!
