//! The stores the application keeps its catalog in, as traits, and the services built
//! on them. The services own the decisions (insert or update, which rules are active,
//! whether a schema override applies); the stores do the storage.
use vstd::prelude::*;
use crate::models::{
    ConnectionRecord, HistoryFixResult, HistoryNamingRule, QueryHistoryEntry, SchemaFolderOverride, SchemaObject,
    ServerTables, TableDdls, TableFilterRule,
};
use crate::text::{trim, upper};
use crate::filter_rules::{naming_match_allowed, NAMING_MATCH_ERROR};
use crate::models::{opt_view, NameMap, ServersData, ColumnInfo, TableColumns};

verus! {

// ───────────────────────── stores ─────────────────────────

/// Where saved connections are kept.
pub trait ConnectionRepository {
    fn init_db(&self) -> Result<(), String>;
    fn get_all_connections(&self) -> Result<Vec<ConnectionRecord>, String>;
    fn insert_connection(&self, data: &ConnectionRecord) -> Result<(), String>;
    fn update_connection(&self, id: i64, data: &ConnectionRecord) -> Result<(), String>;
    fn delete_connection(&self, id: i64) -> Result<(), String>;
    /// Deletes every connection and its stored password.
    fn delete_all_connections(&self) -> Result<(), String>;
    /// Inserts when (group, name) is new; overwrites the fields otherwise.
    fn upsert_connection(&self, data: &ConnectionRecord) -> Result<(), String>;
}

/// Where table filter rules are kept.
pub trait FilterRuleRepository {
    fn init_db(&self) -> Result<(), String>;
    fn list_rules(&self) -> Result<Vec<TableFilterRule>, String>;
    fn insert_rule(&self, rule: &TableFilterRule) -> Result<TableFilterRule, String>;
    fn update_rule(&self, id: i64, rule: &TableFilterRule) -> Result<TableFilterRule, String>;
    fn delete_rule(&self, id: i64) -> Result<(), String>;
}

/// Where per-schema folder overrides are kept.
pub trait SchemaFolderOverrideRepository {
    fn init_db(&self) -> Result<(), String>;
    fn list_overrides(&self) -> Result<Vec<SchemaFolderOverride>, String>;
    fn insert_override(&self, data: &SchemaFolderOverride) -> Result<SchemaFolderOverride, String>;
    fn update_override(&self, id: i64, data: &SchemaFolderOverride) -> Result<SchemaFolderOverride, String>;
    fn delete_override(&self, id: i64) -> Result<(), String>;
    /// The override of a schema, matched ignoring case, if one is set.
    fn find_for_schema(&self, schema_name: &str) -> Result<Option<SchemaFolderOverride>, String>;
}

/// Where history naming rules are kept.
pub trait HistoryNamingRuleRepository {
    fn init_db(&self) -> Result<(), String>;
    fn list_rules(&self) -> Result<Vec<HistoryNamingRule>, String>;
    fn insert_rule(&self, rule: &HistoryNamingRule) -> Result<HistoryNamingRule, String>;
    fn update_rule(&self, id: i64, rule: &HistoryNamingRule) -> Result<HistoryNamingRule, String>;
    fn delete_rule(&self, id: i64) -> Result<(), String>;
}

/// Where the query history is kept.
pub trait QueryHistoryRepository {
    fn init_db(&self) -> Result<(), String>;
    fn load_history(&self) -> Result<Vec<QueryHistoryEntry>, String>;
    fn append_query(&self, sql: &str) -> Result<(), String>;
    fn delete_query(&self, id: i64) -> Result<(), String>;
    fn pin_query(&self, id: i64, pinned: bool) -> Result<(), String>;
    fn set_favorite(&self, id: i64, favorite: bool, description: &str) -> Result<(), String>;
    fn reorder_favorites(&self, ordered_ids: &[i64]) -> Result<(), String>;
    fn clear_history(&self) -> Result<(), String>;
}

/// A single LOB cell fetched on demand for the content viewer.
pub enum LobCell {
    Text(Option<String>),
    Binary(Vec<u8>),
}

/// The rows of a query: column names, column type labels and the cells.
pub type QueryRows = (Vec<String>, Vec<String>, Vec<Vec<Option<String>>>);

/// The schema and query interface of one database engine.
pub trait DbRepository {
    fn test_connection(&self, conn: &ConnectionRecord) -> Result<(), String>;
    fn fetch_single(&self, conn: &ConnectionRecord, filter_rules: &[TableFilterRule]) -> Result<ServerTables, String>;
    fn fetch_table_ddls(&self, conn: &ConnectionRecord, filter_rules: &[TableFilterRule]) -> Result<TableDdls, String>;
    fn fetch_table_ddls_for_tables(&self, conn: &ConnectionRecord, table_names: &[String]) -> Result<TableDdls, String>;
    fn fetch_schema_objects(&self, conn: &ConnectionRecord, filter_rules: &[TableFilterRule]) -> Result<Vec<SchemaObject>, String>;
    fn fetch_object_ddl(&self, conn: &ConnectionRecord, name: &str, object_type: &str) -> Result<String, String>;
    /// Pairs main tables with their history tables by the enabled prefix and suffix
    /// rules and reports the column drift between them.
    fn generate_history_fix(&self, conn: &ConnectionRecord, naming_rules: &[HistoryNamingRule]) -> Result<HistoryFixResult, String>;
    /// Column names, column type labels and rows; LOB cells as placeholders unless
    /// `materialize_lobs`.
    fn run_query(&self, conn: &ConnectionRecord, sql: &str, materialize_lobs: bool) -> Result<QueryRows, String>;
    /// The bytes of one binary cell of a re-run query, at most `max_bytes`.
    fn fetch_blob_cell(&self, conn: &ConnectionRecord, sql: &str, row_index: usize, col_index: usize, max_bytes: usize) -> Result<Vec<u8>, String>;
    /// One LOB cell of a re-run query: text for character columns, bytes (at most
    /// `max_bytes`) for binary ones.
    fn fetch_lob_cell(&self, conn: &ConnectionRecord, sql: &str, row_index: usize, col_index: usize, max_bytes: usize) -> Result<LobCell, String>;
}

/// The schema and query interface of an Oracle server.
pub trait OracleRepository {
    fn test_connection(&self, conn: &ConnectionRecord) -> Result<(), String>;
    fn fetch_single(&self, conn: &ConnectionRecord, filter_rules: &[TableFilterRule]) -> Result<ServerTables, String>;
    fn fetch_table_ddls(&self, conn: &ConnectionRecord, filter_rules: &[TableFilterRule]) -> Result<TableDdls, String>;
    fn fetch_table_ddls_for_tables(&self, conn: &ConnectionRecord, table_names: &[String]) -> Result<TableDdls, String>;
    fn fetch_schema_objects(&self, conn: &ConnectionRecord, filter_rules: &[TableFilterRule]) -> Result<Vec<SchemaObject>, String>;
    fn fetch_object_ddl(&self, conn: &ConnectionRecord, name: &str, object_type: &str) -> Result<String, String>;
    /// Pairs main tables with their history tables by the enabled prefix and suffix
    /// rules and reports the column drift between them.
    fn generate_history_fix(&self, conn: &ConnectionRecord, naming_rules: &[HistoryNamingRule]) -> Result<HistoryFixResult, String>;
    /// Column names, column type labels and rows; LOB cells as placeholders unless
    /// `materialize_lobs`.
    fn run_query(&self, conn: &ConnectionRecord, sql: &str, materialize_lobs: bool) -> Result<QueryRows, String>;
    /// The bytes of one binary cell of a re-run query, at most `max_bytes`.
    fn fetch_blob_cell(&self, conn: &ConnectionRecord, sql: &str, row_index: usize, col_index: usize, max_bytes: usize) -> Result<Vec<u8>, String>;
    /// One LOB cell of a re-run query: text for character columns, bytes (at most
    /// `max_bytes`) for binary ones.
    fn fetch_lob_cell(&self, conn: &ConnectionRecord, sql: &str, row_index: usize, col_index: usize, max_bytes: usize) -> Result<LobCell, String>;
}

// ───────────────────────── rule selection ─────────────────────────

/// The enabled filter rules, in order.
pub open spec fn enabled_filter_rules(rs: Seq<TableFilterRule>) -> Seq<TableFilterRule>
    decreases rs.len(),
{
    if rs.len() == 0 {
        Seq::empty()
    } else if rs.last().enabled {
        enabled_filter_rules(rs.drop_last()).push(rs.last())
    } else {
        enabled_filter_rules(rs.drop_last())
    }
}

/// The enabled naming rules, in order.
pub open spec fn enabled_naming_rules(rs: Seq<HistoryNamingRule>) -> Seq<HistoryNamingRule>
    decreases rs.len(),
{
    if rs.len() == 0 {
        Seq::empty()
    } else if rs.last().enabled {
        enabled_naming_rules(rs.drop_last()).push(rs.last())
    } else {
        enabled_naming_rules(rs.drop_last())
    }
}

/// The enabled filter rules of `rules`, in order.
pub fn active_filter_rules(rules: Vec<TableFilterRule>) -> (r: Vec<TableFilterRule>)
    ensures
        r@ == enabled_filter_rules(rules@),
{
    let mut out: Vec<TableFilterRule> = Vec::new();
    let mut i: usize = 0;
    assert(rules@.take(0) =~= Seq::<TableFilterRule>::empty());
    while i < rules.len()
        invariant
            i <= rules.len(),
            out@ == enabled_filter_rules(rules@.take(i as int)),
        decreases rules.len() - i,
    {
        assert(rules@.take(i + 1).drop_last() =~= rules@.take(i as int));
        if rules[i].enabled {
            out.push(rules[i].duplicate());
        }
        i += 1;
    }
    assert(rules@.take(rules.len() as int) =~= rules@);
    out
}

/// The enabled naming rules of `rules`, in order.
pub fn active_naming_rules(rules: Vec<HistoryNamingRule>) -> (r: Vec<HistoryNamingRule>)
    ensures
        r@ == enabled_naming_rules(rules@),
{
    let mut out: Vec<HistoryNamingRule> = Vec::new();
    let mut i: usize = 0;
    assert(rules@.take(0) =~= Seq::<HistoryNamingRule>::empty());
    while i < rules.len()
        invariant
            i <= rules.len(),
            out@ == enabled_naming_rules(rules@.take(i as int)),
        decreases rules.len() - i,
    {
        assert(rules@.take(i + 1).drop_last() =~= rules@.take(i as int));
        if rules[i].enabled {
            out.push(rules[i].duplicate());
        }
        i += 1;
    }
    assert(rules@.take(rules.len() as int) =~= rules@);
    out
}

pub proof fn lemma_enabled_filter_rules(rs: Seq<TableFilterRule>)
    ensures
        forall|i: int| 0 <= i < enabled_filter_rules(rs).len() ==> (#[trigger] enabled_filter_rules(rs)[i]).enabled,
    decreases rs.len(),
{
    if rs.len() > 0 {
        lemma_enabled_filter_rules(rs.drop_last());
    }
}

pub proof fn lemma_enabled_naming_rules(rs: Seq<HistoryNamingRule>)
    ensures
        forall|i: int| 0 <= i < enabled_naming_rules(rs).len() ==> (#[trigger] enabled_naming_rules(rs)[i]).enabled,
    decreases rs.len(),
{
    if rs.len() > 0 {
        lemma_enabled_naming_rules(rs.drop_last());
    }
}

// ───────────────────────── services ─────────────────────────

/// The saved connections.
pub struct ConnectionCatalogService<R: ConnectionRepository> {
    repo: R,
}

impl<R: ConnectionRepository> ConnectionCatalogService<R> {
    /// The store this service works on.
    pub closed spec fn store(&self) -> R {
        self.repo
    }

    pub fn new(repo: R) -> (s: Self)
        ensures
            s.store() == repo,
    {
        ConnectionCatalogService { repo }
    }

    pub fn init_db(&self) -> (r: Result<(), String>)
        ensures
            call_ensures(R::init_db, (&self.store(),), r),
    {
        self.repo.init_db()
    }

    pub fn get_all_connections(&self) -> (r: Result<Vec<ConnectionRecord>, String>)
        ensures
            call_ensures(R::get_all_connections, (&self.store(),), r),
    {
        self.repo.get_all_connections()
    }

    pub fn insert_connection(&self, data: &ConnectionRecord) -> (r: Result<(), String>)
        ensures
            call_ensures(R::insert_connection, (&self.store(), data), r),
    {
        self.repo.insert_connection(data)
    }

    pub fn update_connection(&self, id: i64, data: &ConnectionRecord) -> (r: Result<(), String>)
        ensures
            call_ensures(R::update_connection, (&self.store(), id, data), r),
    {
        self.repo.update_connection(id, data)
    }

    pub fn delete_connection(&self, id: i64) -> (r: Result<(), String>)
        ensures
            call_ensures(R::delete_connection, (&self.store(), id), r),
    {
        self.repo.delete_connection(id)
    }

    pub fn delete_all_connections(&self) -> (r: Result<(), String>)
        ensures
            call_ensures(R::delete_all_connections, (&self.store(),), r),
    {
        self.repo.delete_all_connections()
    }

    /// Upserts each imported record in turn, stopping at the first failure; the number
    /// of records on success.
    pub fn import_records(&self, records: &Vec<ConnectionRecord>) -> (r: Result<usize, String>)
        ensures
            r matches Ok(n) ==> n == records.len() && forall|i: int| 0 <= i < records.len()
                ==> call_ensures(R::upsert_connection, (&self.store(), &#[trigger] records@[i]), Ok::<(), String>(())),
            r matches Err(e) ==> exists|i: int| 0 <= i < records.len()
                && call_ensures(R::upsert_connection, (&self.store(), &#[trigger] records@[i]), Err::<(), String>(e)),
            records.len() == 0 ==> r == Ok::<usize, String>(0),
    {
        let mut i: usize = 0;
        while i < records.len()
            invariant
                i <= records.len(),
                forall|j: int| 0 <= j < i
                    ==> call_ensures(R::upsert_connection, (&self.store(), &#[trigger] records@[j]), Ok::<(), String>(())),
            decreases records.len() - i,
        {
            let res = self.repo.upsert_connection(&records[i]);
            match res {
                Ok(u) => {
                    assert(call_ensures(R::upsert_connection, (&self.store(), &records@[i as int]), res));
                    assert(u == ());
                    assert(res == Ok::<(), String>(()));
                    assert(call_ensures(R::upsert_connection, (&self.store(), &records@[i as int]), Ok::<(), String>(())));
                },
                Err(e) => {
                    assert(call_ensures(R::upsert_connection, (&self.store(), &records@[i as int]), Err::<(), String>(e)));
                    return Err(e);
                },
            }
            i += 1;
        }
        Ok(records.len())
    }
}

/// The table filter rules.
pub struct FilterRuleService<R: FilterRuleRepository> {
    repo: R,
}

impl<R: FilterRuleRepository> FilterRuleService<R> {
    /// The store this service works on.
    pub closed spec fn store(&self) -> R {
        self.repo
    }

    pub fn new(repo: R) -> (s: Self)
        ensures
            s.store() == repo,
    {
        FilterRuleService { repo }
    }

    pub fn init_db(&self) -> (r: Result<(), String>)
        ensures
            call_ensures(R::init_db, (&self.store(),), r),
    {
        self.repo.init_db()
    }

    pub fn list_rules(&self) -> (r: Result<Vec<TableFilterRule>, String>)
        ensures
            call_ensures(R::list_rules, (&self.store(),), r),
    {
        self.repo.list_rules()
    }

    /// Inserts a new rule (id 0) or updates the rule with that id.
    pub fn save_rule(&self, rule: &TableFilterRule) -> (r: Result<TableFilterRule, String>)
        ensures
            rule.id == 0 ==> call_ensures(R::insert_rule, (&self.store(), rule), r),
            rule.id != 0 ==> call_ensures(R::update_rule, (&self.store(), rule.id, rule), r),
    {
        if rule.id == 0 {
            self.repo.insert_rule(rule)
        } else {
            self.repo.update_rule(rule.id, rule)
        }
    }

    pub fn delete_rule(&self, id: i64) -> (r: Result<(), String>)
        ensures
            call_ensures(R::delete_rule, (&self.store(), id), r),
    {
        self.repo.delete_rule(id)
    }

    /// The stored rules that are enabled, in stored order.
    pub fn list_active_rules(&self) -> (r: Result<Vec<TableFilterRule>, String>)
        ensures
            r matches Ok(v) ==> exists|stored: Vec<TableFilterRule>|
                call_ensures(R::list_rules, (&self.store(),), Ok::<Vec<TableFilterRule>, String>(stored))
                && v@ == #[trigger] enabled_filter_rules(stored@),
            r matches Err(e) ==> call_ensures(R::list_rules, (&self.store(),), Err::<Vec<TableFilterRule>, String>(e)),
            r matches Ok(v) ==> forall|i: int| 0 <= i < v.len() ==> (#[trigger] v@[i]).enabled,
    {
        let rules = match self.repo.list_rules() {
            Ok(rules) => rules,
            Err(e) => return Err(e),
        };
        let ghost stored_vec = rules;
        let out = active_filter_rules(rules);
        assert(out@ == enabled_filter_rules(stored_vec@));
        proof { lemma_enabled_filter_rules(rules@); }
        Ok(out)
    }
}

/// The history naming rules.
pub struct HistoryNamingRuleService<R: HistoryNamingRuleRepository> {
    repo: R,
}

impl<R: HistoryNamingRuleRepository> HistoryNamingRuleService<R> {
    /// The store this service works on.
    pub closed spec fn store(&self) -> R {
        self.repo
    }

    pub fn new(repo: R) -> (s: Self)
        ensures
            s.store() == repo,
    {
        HistoryNamingRuleService { repo }
    }

    pub fn init_db(&self) -> (r: Result<(), String>)
        ensures
            call_ensures(R::init_db, (&self.store(),), r),
    {
        self.repo.init_db()
    }

    pub fn list_rules(&self) -> (r: Result<Vec<HistoryNamingRule>, String>)
        ensures
            call_ensures(R::list_rules, (&self.store(),), r),
    {
        self.repo.list_rules()
    }

    /// Refuses a rule that matches other than by prefix or suffix; else inserts a new
    /// rule (id 0) or updates the rule with that id.
    pub fn save_rule(&self, rule: &HistoryNamingRule) -> (r: Result<HistoryNamingRule, String>)
        ensures
            !naming_match_allowed(rule.match_type) ==> (r matches Err(e) && e@ == NAMING_MATCH_ERROR@),
            naming_match_allowed(rule.match_type) && rule.id == 0 ==> call_ensures(R::insert_rule, (&self.store(), rule), r),
            naming_match_allowed(rule.match_type) && rule.id != 0 ==> call_ensures(R::update_rule, (&self.store(), rule.id, rule), r),
    {
        if let Err(e) = crate::filter_rules::SqliteHistoryNamingRuleRepository::check_match_type(rule.match_type) {
            return Err(e);
        }
        if rule.id == 0 {
            self.repo.insert_rule(rule)
        } else {
            self.repo.update_rule(rule.id, rule)
        }
    }

    pub fn delete_rule(&self, id: i64) -> (r: Result<(), String>)
        ensures
            call_ensures(R::delete_rule, (&self.store(), id), r),
    {
        self.repo.delete_rule(id)
    }

    /// The stored rules that are enabled, in stored order.
    pub fn list_active_rules(&self) -> (r: Result<Vec<HistoryNamingRule>, String>)
        ensures
            r matches Ok(v) ==> exists|stored: Vec<HistoryNamingRule>|
                call_ensures(R::list_rules, (&self.store(),), Ok::<Vec<HistoryNamingRule>, String>(stored))
                && v@ == #[trigger] enabled_naming_rules(stored@),
            r matches Err(e) ==> call_ensures(R::list_rules, (&self.store(),), Err::<Vec<HistoryNamingRule>, String>(e)),
            r matches Ok(v) ==> forall|i: int| 0 <= i < v.len() ==> (#[trigger] v@[i]).enabled,
    {
        let rules = match self.repo.list_rules() {
            Ok(rules) => rules,
            Err(e) => return Err(e),
        };
        let ghost stored_vec = rules;
        let out = active_naming_rules(rules);
        assert(out@ == enabled_naming_rules(stored_vec@));
        proof { lemma_enabled_naming_rules(rules@); }
        Ok(out)
    }
}

/// The query history.
pub struct QueryHistoryService<R: QueryHistoryRepository> {
    repo: R,
}

impl<R: QueryHistoryRepository> QueryHistoryService<R> {
    /// The store this service works on.
    pub closed spec fn store(&self) -> R {
        self.repo
    }

    pub fn new(repo: R) -> (s: Self)
        ensures
            s.store() == repo,
    {
        QueryHistoryService { repo }
    }

    pub fn init_db(&self) -> (r: Result<(), String>)
        ensures
            call_ensures(R::init_db, (&self.store(),), r),
    {
        self.repo.init_db()
    }

    pub fn load_history(&self) -> (r: Result<Vec<QueryHistoryEntry>, String>)
        ensures
            call_ensures(R::load_history, (&self.store(),), r),
    {
        self.repo.load_history()
    }

    pub fn append_query(&self, sql: &str) -> (r: Result<(), String>)
        ensures
            call_ensures(R::append_query, (&self.store(), sql), r),
    {
        self.repo.append_query(sql)
    }

    pub fn delete_query(&self, id: i64) -> (r: Result<(), String>)
        ensures
            call_ensures(R::delete_query, (&self.store(), id), r),
    {
        self.repo.delete_query(id)
    }

    pub fn pin_query(&self, id: i64, pinned: bool) -> (r: Result<(), String>)
        ensures
            call_ensures(R::pin_query, (&self.store(), id, pinned), r),
    {
        self.repo.pin_query(id, pinned)
    }

    pub fn set_favorite(&self, id: i64, favorite: bool, description: &str) -> (r: Result<(), String>)
        ensures
            call_ensures(R::set_favorite, (&self.store(), id, favorite, description), r),
    {
        self.repo.set_favorite(id, favorite, description)
    }

    pub fn reorder_favorites(&self, ordered_ids: &[i64]) -> (r: Result<(), String>)
        ensures
            call_ensures(R::reorder_favorites, (&self.store(), ordered_ids), r),
    {
        self.repo.reorder_favorites(ordered_ids)
    }

    pub fn clear_history(&self) -> (r: Result<(), String>)
        ensures
            call_ensures(R::clear_history, (&self.store(),), r),
    {
        self.repo.clear_history()
    }
}

/// Cell fetches of query results.
pub struct QueryService<R: OracleRepository> {
    repo: R,
}

impl<R: OracleRepository> QueryService<R> {
    /// The store this service works on.
    pub closed spec fn store(&self) -> R {
        self.repo
    }

    pub fn new(repo: R) -> (s: Self)
        ensures
            s.store() == repo,
    {
        QueryService { repo }
    }

    /// The repository this service queries through.
    pub fn repository(&self) -> (r: &R)
        ensures
            *r == self.store(),
    {
        &self.repo
    }

    pub fn fetch_blob_cell(&self, conn: &ConnectionRecord, sql: &str, row_index: usize, col_index: usize, max_bytes: usize) -> (r: Result<Vec<u8>, String>)
        ensures
            call_ensures(R::fetch_blob_cell, (&self.store(), conn, sql, row_index, col_index, max_bytes), r),
    {
        self.repo.fetch_blob_cell(conn, sql, row_index, col_index, max_bytes)
    }

    pub fn fetch_lob_cell(&self, conn: &ConnectionRecord, sql: &str, row_index: usize, col_index: usize, max_bytes: usize) -> (r: Result<LobCell, String>)
        ensures
            call_ensures(R::fetch_lob_cell, (&self.store(), conn, sql, row_index, col_index, max_bytes), r),
    {
        self.repo.fetch_lob_cell(conn, sql, row_index, col_index, max_bytes)
    }
}

/// Schema metadata, DDL and history-table checks of connected servers.
pub struct SchemaDiffService<R: OracleRepository> {
    repo: R,
}

impl<R: OracleRepository> SchemaDiffService<R> {
    /// The store this service works on.
    pub closed spec fn store(&self) -> R {
        self.repo
    }

    pub fn new(repo: R) -> (s: Self)
        ensures
            s.store() == repo,
    {
        SchemaDiffService { repo }
    }

    /// The repository this service reads through.
    pub fn repository(&self) -> (r: &R)
        ensures
            *r == self.store(),
    {
        &self.repo
    }

    pub fn test_connection(&self, conn: &ConnectionRecord) -> (r: Result<(), String>)
        ensures
            call_ensures(R::test_connection, (&self.store(), conn), r),
    {
        self.repo.test_connection(conn)
    }

    pub fn fetch_table_ddls(&self, conn: &ConnectionRecord, filter_rules: &[TableFilterRule]) -> (r: Result<TableDdls, String>)
        ensures
            call_ensures(R::fetch_table_ddls, (&self.store(), conn, filter_rules), r),
    {
        self.repo.fetch_table_ddls(conn, filter_rules)
    }

    pub fn fetch_table_ddls_for_tables(&self, conn: &ConnectionRecord, table_names: &[String]) -> (r: Result<TableDdls, String>)
        ensures
            call_ensures(R::fetch_table_ddls_for_tables, (&self.store(), conn, table_names), r),
    {
        self.repo.fetch_table_ddls_for_tables(conn, table_names)
    }

    pub fn fetch_schema_objects(&self, conn: &ConnectionRecord, filter_rules: &[TableFilterRule]) -> (r: Result<Vec<SchemaObject>, String>)
        ensures
            call_ensures(R::fetch_schema_objects, (&self.store(), conn, filter_rules), r),
    {
        self.repo.fetch_schema_objects(conn, filter_rules)
    }

    pub fn fetch_object_ddl(&self, conn: &ConnectionRecord, name: &str, object_type: &str) -> (r: Result<String, String>)
        ensures
            call_ensures(R::fetch_object_ddl, (&self.store(), conn, name, object_type), r),
    {
        self.repo.fetch_object_ddl(conn, name, object_type)
    }

    pub fn generate_history_fix(&self, conn: &ConnectionRecord, naming_rules: &[HistoryNamingRule]) -> (r: Result<HistoryFixResult, String>)
        ensures
            call_ensures(R::generate_history_fix, (&self.store(), conn, naming_rules), r),
    {
        self.repo.generate_history_fix(conn, naming_rules)
    }

    /// Initializes the Oracle client library from a folder; see
    /// [`configure_client_lib_dir`].
    pub fn configure_client_lib_dir(&self, dir: &str) -> (r: Result<bool, String>)
        ensures
            client_lib_dir_of(dir@) is None ==> r == Ok::<bool, String>(false),
            client_lib_dir_of(dir@) matches Some(t) ==> client_init_outcome(t, r),
    {
        configure_client_lib_dir(dir)
    }
}

// ───────────────────────── Oracle client library ─────────────────────────

/// `oracle::InitParams` with `oracle_client_lib_dir(dir)` and `init()`: loads the
/// Oracle client library from `dir`, `true` when this call initialized it and `false`
/// when it was initialized before. Whether loading succeeds depends on the machine, so
/// nothing is stated of the result.
#[verifier::external_body]
fn init_oracle_client(dir: &str) -> Result<bool, String> {
    let mut params = oracle::InitParams::new();
    params.oracle_client_lib_dir(dir).map_err(|e| e.to_string())?;
    params.init().map_err(|e| e.to_string())
}

/// `r` is an outcome of loading the Oracle client library from the folder `dir`
/// (an outcome of [`init_oracle_client`] on that text).
pub closed spec fn client_init_outcome(dir: Seq<char>, r: Result<bool, String>) -> bool {
    exists|a: &str| a@ == dir && call_ensures(init_oracle_client, (a,), r)
}

/// The folder handed to the Oracle client library: none for a blank folder, else the
/// folder trimmed.
pub open spec fn client_lib_dir_of(dir: Seq<char>) -> Option<Seq<char>> {
    if trim(dir).len() == 0 { None } else { Some(trim(dir)) }
}

/// The folder to load the Oracle client library from: none for a blank folder, else
/// the folder trimmed.
pub fn client_lib_dir_arg(dir: &str) -> (r: Option<String>)
    ensures
        match r {
            Some(t) => client_lib_dir_of(dir@) == Some(t@),
            None => client_lib_dir_of(dir@) is None,
        },
{
    if crate::text::is_blank(dir) {
        None
    } else {
        Some(crate::text::trimmed(dir))
    }
}

/// Initializes the Oracle client library from a folder, trimmed; a blank folder
/// initializes nothing and gives `false`. Otherwise the outcome is the library's
/// answer for the trimmed folder.
pub fn configure_client_lib_dir(dir: &str) -> (r: Result<bool, String>)
    ensures
        client_lib_dir_of(dir@) is None ==> r == Ok::<bool, String>(false),
        client_lib_dir_of(dir@) matches Some(t) ==> client_init_outcome(t, r),
{
    match client_lib_dir_arg(dir) {
        None => Ok(false),
        Some(t) => {
            let a = t.as_str();
            let r = init_oracle_client(a);
            assert(call_ensures(init_oracle_client, (a,), r));
            assert(client_init_outcome(t@, r));
            r
        },
    }
}

// ───────────────────────── schema folder overrides ─────────────────────────

/// A setting that a schema folder override can set.
#[derive(Clone, Copy, PartialEq, Eq, Structural)]
pub enum OverrideField {
    FolderPath,
    Encoding,
    NamingConvention,
    CodeFolderName,
    MigrationFolderName,
    MigrationFolderMode,
    MigrationVersionLabel,
}

/// The text an override holds for a field.
pub open spec fn field_of(o: SchemaFolderOverride, f: OverrideField) -> Seq<char> {
    match f {
        OverrideField::FolderPath => o.folder_path@,
        OverrideField::Encoding => o.encoding@,
        OverrideField::NamingConvention => o.naming_convention@,
        OverrideField::CodeFolderName => o.code_folder_name@,
        OverrideField::MigrationFolderName => o.migration_folder_name@,
        OverrideField::MigrationFolderMode => o.migration_folder_mode@,
        OverrideField::MigrationVersionLabel => o.migration_version_label@,
    }
}

/// What an override sets a field to: the field as stored, when not blank.
pub open spec fn overridden(over: Option<SchemaFolderOverride>, f: OverrideField) -> Option<Seq<char>> {
    match over {
        Some(o) => if trim(field_of(o, f)).len() > 0 { Some(field_of(o, f)) } else { None },
        None => None,
    }
}

fn field_exec(o: &SchemaFolderOverride, f: OverrideField) -> (r: &String)
    ensures
        r@ == field_of(*o, f),
{
    match f {
        OverrideField::FolderPath => &o.folder_path,
        OverrideField::Encoding => &o.encoding,
        OverrideField::NamingConvention => &o.naming_convention,
        OverrideField::CodeFolderName => &o.code_folder_name,
        OverrideField::MigrationFolderName => &o.migration_folder_name,
        OverrideField::MigrationFolderMode => &o.migration_folder_mode,
        OverrideField::MigrationVersionLabel => &o.migration_version_label,
    }
}

/// The value of a field: the override's when it sets one, else `default`.
pub fn override_or(over: &Option<SchemaFolderOverride>, f: OverrideField, default: &str) -> (r: String)
    ensures
        r@ == match overridden(*over, f) {
            Some(v) => v,
            None => default@,
        },
{
    match over {
        Some(o) => {
            let v = field_exec(o, f);
            if crate::text::is_blank(v.as_str()) { default.to_string() } else { v.clone() }
        },
        None => default.to_string(),
    }
}

/// The per-type value an override's JSON field (`extensions` or `storage_modes`) sets
/// for an object type: the trimmed, non-blank value under the trimmed, upper-cased type.
pub open spec fn typed_override(json: Option<Seq<char>>, object_type: Seq<char>) -> Option<Seq<char>> {
    match json {
        Some(t) => if trim(t).len() > 0 { crate::settings::json_value(t, upper(trim(object_type))) } else { None },
        None => None,
    }
}

/// A field's value under an override: what the override sets, else `default`.
pub open spec fn override_value(over: Option<SchemaFolderOverride>, f: OverrideField, default: Seq<char>) -> Seq<char> {
    match overridden(over, f) {
        Some(v) => v,
        None => default,
    }
}

/// A per-type value under an override's JSON field: what it sets for the type, else
/// `default`.
pub open spec fn typed_value(json: Option<Seq<char>>, object_type: Seq<char>, default: Seq<char>) -> Seq<char> {
    match typed_override(json, object_type) {
        Some(v) => v,
        None => default,
    }
}

/// The JSON text of an override's per-type field, when there is an override.
pub open spec fn json_field(over: Option<SchemaFolderOverride>, extensions: bool) -> Option<Seq<char>> {
    match over {
        Some(o) => Some(if extensions { o.extensions@ } else { o.storage_modes@ }),
        None => None,
    }
}

/// The folder of a schema under an override: the overridden folder, else the schema's
/// lower-cased name under the root.
pub open spec fn schema_dir_of(over: Option<SchemaFolderOverride>, schema: Seq<char>, root: Seq<char>) -> std::path::PathBuf {
    match overridden(over, OverrideField::FolderPath) {
        Some(f) => path_of(f),
        None => path_joined(path_of(root), crate::text::unicode_lower(schema)),
    }
}

/// The per-type value an override's JSON field sets, else `default`.
pub fn typed_override_or(json: Option<&String>, object_type: &str, default: &str) -> (r: String)
    ensures
        r@ == match typed_override(match json { Some(t) => Some(t@), None => None }, object_type@) {
            Some(v) => v,
            None => default@,
        },
{
    if let Some(t) = json {
        if !crate::text::is_blank(t.as_str()) {
            let key = crate::text::to_upper(crate::text::trimmed(object_type).as_str());
            if let Some(v) = crate::settings::json_value_of(t.as_str(), key.as_str()) {
                return v;
            }
        }
    }
    default.to_string()
}

/// The path `std::path::PathBuf::from` makes of a text.
pub uninterp spec fn path_of(text: Seq<char>) -> std::path::PathBuf;

/// The path `std::path::Path::join` makes of a base path and a child.
pub uninterp spec fn path_joined(base: std::path::PathBuf, child: Seq<char>) -> std::path::PathBuf;

#[verifier::external_type_specification]
#[verifier::external_body]
pub struct ExPathBuf(std::path::PathBuf);

/// `std::path::PathBuf::from`: the path of a text, a function of the text.
#[verifier::external_body]
fn path_from(text: &str) -> (p: std::path::PathBuf)
    ensures
        p == path_of(text@),
{
    std::path::PathBuf::from(text)
}

/// `std::path::Path::join`: `child` under `base`, a function of both.
#[verifier::external_body]
fn join_path(base: &std::path::PathBuf, child: &str) -> (p: std::path::PathBuf)
    ensures
        p == path_joined(*base, child@),
{
    base.join(child)
}

/// The per-schema overrides of the DDL export settings.
pub struct SchemaFolderOverrideService<R: SchemaFolderOverrideRepository> {
    repo: R,
}

impl<R: SchemaFolderOverrideRepository> SchemaFolderOverrideService<R> {
    /// The store this service works on.
    pub closed spec fn store(&self) -> R {
        self.repo
    }

    pub fn new(repo: R) -> (s: Self)
        ensures
            s.store() == repo,
    {
        SchemaFolderOverrideService { repo }
    }

    pub fn init_db(&self) -> (r: Result<(), String>)
        ensures
            call_ensures(R::init_db, (&self.store(),), r),
    {
        self.repo.init_db()
    }

    pub fn list_overrides(&self) -> (r: Result<Vec<SchemaFolderOverride>, String>)
        ensures
            call_ensures(R::list_overrides, (&self.store(),), r),
    {
        self.repo.list_overrides()
    }

    /// Inserts a new override (id 0) or updates the override with that id.
    pub fn save_override(&self, data: &SchemaFolderOverride) -> (r: Result<SchemaFolderOverride, String>)
        ensures
            data.id == 0 ==> call_ensures(R::insert_override, (&self.store(), data), r),
            data.id != 0 ==> call_ensures(R::update_override, (&self.store(), data.id, data), r),
    {
        if data.id == 0 {
            self.repo.insert_override(data)
        } else {
            self.repo.update_override(data.id, data)
        }
    }

    pub fn delete_override(&self, id: i64) -> (r: Result<(), String>)
        ensures
            call_ensures(R::delete_override, (&self.store(), id), r),
    {
        self.repo.delete_override(id)
    }

    /// The folder root of a schema: its overridden folder when set, else the schema's
    /// lower-cased name under `schema_root_folder`.
    pub fn resolve_schema_dir(&self, schema_name: &str, schema_root_folder: &str) -> (r: Result<std::path::PathBuf, String>)
        ensures
            r matches Ok(p) ==> exists|over: Option<SchemaFolderOverride>|
                call_ensures(R::find_for_schema, (&self.store(), schema_name), Ok::<Option<SchemaFolderOverride>, String>(over))
                && p == #[trigger] schema_dir_of(over, schema_name@, schema_root_folder@),
            r matches Err(e) ==> call_ensures(R::find_for_schema, (&self.store(), schema_name),
                Err::<Option<SchemaFolderOverride>, String>(e)),
    {
        let over = match self.repo.find_for_schema(schema_name) {
            Ok(o) => o,
            Err(e) => return Err(e),
        };
        if let Some(o) = &over {
            if !crate::text::is_blank(o.folder_path.as_str()) {
                let p = path_from(o.folder_path.as_str());
                assert(p == schema_dir_of(over, schema_name@, schema_root_folder@));
                return Ok(p);
            }
        }
        let root = path_from(schema_root_folder);
        let lower = crate::text::to_lowercase(schema_name);
        let p = join_path(&root, lower.as_str());
        assert(p == schema_dir_of(over, schema_name@, schema_root_folder@));
        Ok(p)
    }

    /// The DDL file encoding of a schema: its override when set, else the default.
    pub fn resolve_encoding(&self, schema_name: &str, default_encoding: &str) -> (r: Result<String, String>)
        ensures
            r matches Ok(v) ==> exists|over: Option<SchemaFolderOverride>|
                call_ensures(R::find_for_schema, (&self.store(), schema_name), Ok::<Option<SchemaFolderOverride>, String>(over))
                && v@ == #[trigger] override_value(over, OverrideField::Encoding, default_encoding@),
            r matches Err(e) ==> call_ensures(R::find_for_schema, (&self.store(), schema_name),
                Err::<Option<SchemaFolderOverride>, String>(e)),
    {
        let over = match self.repo.find_for_schema(schema_name) {
            Ok(o) => o,
            Err(e) => return Err(e),
        };
        let v = override_or(&over, OverrideField::Encoding, default_encoding);
        assert(v@ == override_value(over, OverrideField::Encoding, default_encoding@));
        Ok(v)
    }

    /// The DDL file extension of a schema and object type: the schema's override for
    /// that type when set, else `default_ext`.
    pub fn resolve_extension(&self, schema_name: &str, object_type: &str, default_ext: &str) -> (r: Result<String, String>)
        ensures
            r matches Ok(v) ==> exists|over: Option<SchemaFolderOverride>|
                call_ensures(R::find_for_schema, (&self.store(), schema_name), Ok::<Option<SchemaFolderOverride>, String>(over))
                && v@ == #[trigger] typed_value(json_field(over, true), object_type@, default_ext@),
            r matches Err(e) ==> call_ensures(R::find_for_schema, (&self.store(), schema_name),
                Err::<Option<SchemaFolderOverride>, String>(e)),
    {
        let over = match self.repo.find_for_schema(schema_name) {
            Ok(o) => o,
            Err(e) => return Err(e),
        };
        let json = match &over {
            Some(o) => Some(&o.extensions),
            None => None,
        };
        let v = typed_override_or(json, object_type, default_ext);
        assert(v@ == typed_value(json_field(over, true), object_type@, default_ext@));
        Ok(v)
    }

    /// The storage mode of a schema and object type: the schema's override for that
    /// type when set, else `default_mode`.
    pub fn resolve_storage_mode(&self, schema_name: &str, object_type: &str, default_mode: &str) -> (r: Result<String, String>)
        ensures
            r matches Ok(v) ==> exists|over: Option<SchemaFolderOverride>|
                call_ensures(R::find_for_schema, (&self.store(), schema_name), Ok::<Option<SchemaFolderOverride>, String>(over))
                && v@ == #[trigger] typed_value(json_field(over, false), object_type@, default_mode@),
            r matches Err(e) ==> call_ensures(R::find_for_schema, (&self.store(), schema_name),
                Err::<Option<SchemaFolderOverride>, String>(e)),
    {
        let over = match self.repo.find_for_schema(schema_name) {
            Ok(o) => o,
            Err(e) => return Err(e),
        };
        let json = match &over {
            Some(o) => Some(&o.storage_modes),
            None => None,
        };
        let v = typed_override_or(json, object_type, default_mode);
        assert(v@ == typed_value(json_field(over, false), object_type@, default_mode@));
        Ok(v)
    }

    /// The file naming convention of a schema: its override when set, else the default.
    pub fn resolve_naming_convention(&self, schema_name: &str, default_convention: &str) -> (r: Result<String, String>)
        ensures
            r matches Ok(v) ==> exists|over: Option<SchemaFolderOverride>|
                call_ensures(R::find_for_schema, (&self.store(), schema_name), Ok::<Option<SchemaFolderOverride>, String>(over))
                && v@ == #[trigger] override_value(over, OverrideField::NamingConvention, default_convention@),
            r matches Err(e) ==> call_ensures(R::find_for_schema, (&self.store(), schema_name),
                Err::<Option<SchemaFolderOverride>, String>(e)),
    {
        let over = match self.repo.find_for_schema(schema_name) {
            Ok(o) => o,
            Err(e) => return Err(e),
        };
        let v = override_or(&over, OverrideField::NamingConvention, default_convention);
        assert(v@ == override_value(over, OverrideField::NamingConvention, default_convention@));
        Ok(v)
    }

    /// The code subfolder name of a schema: its override when set, else the default.
    pub fn resolve_code_folder_name(&self, schema_name: &str, default_name: &str) -> (r: Result<String, String>)
        ensures
            r matches Ok(v) ==> exists|over: Option<SchemaFolderOverride>|
                call_ensures(R::find_for_schema, (&self.store(), schema_name), Ok::<Option<SchemaFolderOverride>, String>(over))
                && v@ == #[trigger] override_value(over, OverrideField::CodeFolderName, default_name@),
            r matches Err(e) ==> call_ensures(R::find_for_schema, (&self.store(), schema_name),
                Err::<Option<SchemaFolderOverride>, String>(e)),
    {
        let over = match self.repo.find_for_schema(schema_name) {
            Ok(o) => o,
            Err(e) => return Err(e),
        };
        let v = override_or(&over, OverrideField::CodeFolderName, default_name);
        assert(v@ == override_value(over, OverrideField::CodeFolderName, default_name@));
        Ok(v)
    }

    /// The migration subfolder name of a schema: its override when set, else the default.
    pub fn resolve_migration_folder_name(&self, schema_name: &str, default_name: &str) -> (r: Result<String, String>)
        ensures
            r matches Ok(v) ==> exists|over: Option<SchemaFolderOverride>|
                call_ensures(R::find_for_schema, (&self.store(), schema_name), Ok::<Option<SchemaFolderOverride>, String>(over))
                && v@ == #[trigger] override_value(over, OverrideField::MigrationFolderName, default_name@),
            r matches Err(e) ==> call_ensures(R::find_for_schema, (&self.store(), schema_name),
                Err::<Option<SchemaFolderOverride>, String>(e)),
    {
        let over = match self.repo.find_for_schema(schema_name) {
            Ok(o) => o,
            Err(e) => return Err(e),
        };
        let v = override_or(&over, OverrideField::MigrationFolderName, default_name);
        assert(v@ == override_value(over, OverrideField::MigrationFolderName, default_name@));
        Ok(v)
    }

    /// The migration folder mode of a schema: its override when set, else the default.
    pub fn resolve_migration_folder_mode(&self, schema_name: &str, default_mode: &str) -> (r: Result<String, String>)
        ensures
            r matches Ok(v) ==> exists|over: Option<SchemaFolderOverride>|
                call_ensures(R::find_for_schema, (&self.store(), schema_name), Ok::<Option<SchemaFolderOverride>, String>(over))
                && v@ == #[trigger] override_value(over, OverrideField::MigrationFolderMode, default_mode@),
            r matches Err(e) ==> call_ensures(R::find_for_schema, (&self.store(), schema_name),
                Err::<Option<SchemaFolderOverride>, String>(e)),
    {
        let over = match self.repo.find_for_schema(schema_name) {
            Ok(o) => o,
            Err(e) => return Err(e),
        };
        let v = override_or(&over, OverrideField::MigrationFolderMode, default_mode);
        assert(v@ == override_value(over, OverrideField::MigrationFolderMode, default_mode@));
        Ok(v)
    }

    /// The migration version label of a schema: its override when set, else the default.
    pub fn resolve_migration_version_label(&self, schema_name: &str, default_label: &str) -> (r: Result<String, String>)
        ensures
            r matches Ok(v) ==> exists|over: Option<SchemaFolderOverride>|
                call_ensures(R::find_for_schema, (&self.store(), schema_name), Ok::<Option<SchemaFolderOverride>, String>(over))
                && v@ == #[trigger] override_value(over, OverrideField::MigrationVersionLabel, default_label@),
            r matches Err(e) ==> call_ensures(R::find_for_schema, (&self.store(), schema_name),
                Err::<Option<SchemaFolderOverride>, String>(e)),
    {
        let over = match self.repo.find_for_schema(schema_name) {
            Ok(o) => o,
            Err(e) => return Err(e),
        };
        let v = override_or(&over, OverrideField::MigrationVersionLabel, default_label);
        assert(v@ == override_value(over, OverrideField::MigrationVersionLabel, default_label@));
        Ok(v)
    }
}

// ───────────────────────── fetched metadata ─────────────────────────

/// The entries after storing `v` under `k`: in place when `k` is present, else appended.
pub open spec fn stored<V>(s: Seq<(String, V)>, k: String, v: V) -> Seq<(String, V)> {
    match crate::models::key_index(s, k@) {
        Some(i) => s.update(i, (k, v)),
        None => s.push((k, v)),
    }
}

/// The loaded servers after the fetch outcomes in turn: each success stored under its
/// server's name.
pub open spec fn loaded_servers(outcomes: Seq<(String, Result<ServerTables, String>)>) -> Seq<(String, ServerTables)>
    decreases outcomes.len(),
{
    if outcomes.len() == 0 {
        Seq::empty()
    } else {
        let prev = loaded_servers(outcomes.drop_last());
        let o = outcomes.last();
        match o.1 {
            Ok(t) => stored(prev, o.0, t),
            Err(_) => prev,
        }
    }
}

/// The fetch errors after the outcomes in turn: each failure stored under its server's
/// name.
pub open spec fn fetch_errors(outcomes: Seq<(String, Result<ServerTables, String>)>) -> Seq<(String, String)>
    decreases outcomes.len(),
{
    if outcomes.len() == 0 {
        Seq::empty()
    } else {
        let prev = fetch_errors(outcomes.drop_last());
        let o = outcomes.last();
        match o.1 {
            Ok(_) => prev,
            Err(e) => stored(prev, o.0, e),
        }
    }
}

/// Sorts the outcomes of fetching several servers into the loaded metadata, by server
/// name, and the errors, by server name.
pub fn collect_fetch_outcomes(outcomes: Vec<(String, Result<ServerTables, String>)>) -> (r: (ServersData, NameMap<String>))
    ensures
        r.0.items() == loaded_servers(outcomes@),
        r.1.items() == fetch_errors(outcomes@),
{
    let ghost src = outcomes@;
    let mut outcomes = outcomes;
    let mut servers: ServersData = NameMap::new();
    let mut errors: NameMap<String> = NameMap::new();
    let n = outcomes.len();
    let mut k: usize = 0;
    assert(src.skip(0) =~= src);
    while k < n
        invariant
            n == src.len(),
            k <= n,
            outcomes@ == src.skip(k as int),
            servers.items() == loaded_servers(src.take(k as int)),
            errors.items() == fetch_errors(src.take(k as int)),
        decreases n - k,
    {
        assert(src.take(k + 1).drop_last() =~= src.take(k as int));
        let (name, outcome) = outcomes.remove(0);
        assert(src.skip(k as int).drop_first() =~= src.skip(k + 1));
        assert(src.take(k + 1).last() == (name, outcome));
        match outcome {
            Ok(tables) => servers.insert(name, tables),
            Err(e) => errors.insert(name, e),
        }
        k += 1;
    }
    assert(src.take(n as int) =~= src);
    (servers, errors)
}

/// The table names of column rows, each once, in order of first appearance.
pub open spec fn row_tables(rows: Seq<(String, String, ColumnInfo)>) -> Seq<Seq<char>>
    decreases rows.len(),
{
    if rows.len() == 0 {
        Seq::empty()
    } else {
        let prev = row_tables(rows.drop_last());
        if prev.contains(rows.last().0@) { prev } else { prev.push(rows.last().0@) }
    }
}

/// The columns of table `t` after its rows are stored in turn, each under its name.
pub open spec fn row_columns(rows: Seq<(String, String, ColumnInfo)>, t: Seq<char>) -> Seq<(String, ColumnInfo)>
    decreases rows.len(),
{
    if rows.len() == 0 {
        Seq::empty()
    } else {
        let prev = row_columns(rows.drop_last(), t);
        let r = rows.last();
        if r.0@ == t { stored(prev, r.1, r.2) } else { prev }
    }
}

/// Groups the column rows of a metadata query by table: the tables in order of first
/// appearance, each with its columns stored under their names.
pub fn assemble_server_tables(rows: &Vec<(String, String, ColumnInfo)>) -> (r: ServerTables)
    ensures
        r.key_texts() == row_tables(rows@),
        forall|i: int| 0 <= i < r.items().len() ==>
            (#[trigger] r.items()[i]).1.items() == row_columns(rows@, r.items()[i].0@),
{
    let mut names: Vec<String> = Vec::new();
    let mut i: usize = 0;
    while i < rows.len()
        invariant
            i <= rows.len(),
            crate::text::texts(names@) == row_tables(rows@.take(i as int)),
        decreases rows.len() - i,
    {
        assert(rows@.take(i + 1).drop_last() =~= rows@.take(i as int));
        let t = &rows[i].0;
        let mut found = false;
        let mut k: usize = 0;
        while k < names.len()
            invariant
                k <= names.len(),
                found == exists|j: int| 0 <= j < k && #[trigger] names@[j]@ == t@,
            decreases names.len() - k,
        {
            if crate::text::same_text(names[k].as_str(), t.as_str()) {
                found = true;
            }
            k += 1;
        }
        let ghost tv = crate::text::texts(names@);
        proof {
            if found {
                let j = choose|j: int| 0 <= j < names@.len() && #[trigger] names@[j]@ == t@;
                assert(tv[j] == t@);
            } else {
                assert forall|j: int| 0 <= j < tv.len() implies tv[j] != t@ by {
                    assert(tv[j] == names@[j]@);
                }
            }
        }
        if !found {
            names.push(t.clone());
            assert(crate::text::texts(names@) =~= tv.push(t@));
        }
        i += 1;
    }
    assert(rows@.take(rows.len() as int) =~= rows@);
    let mut out: ServerTables = NameMap::new();
    let mut n: usize = 0;
    assert(out.key_texts() =~= crate::text::texts(names@).take(0));
    while n < names.len()
        invariant
            n <= names.len(),
            crate::text::texts(names@) == row_tables(rows@),
            out.key_texts() == crate::text::texts(names@).take(n as int),
            forall|x: int| 0 <= x < out.items().len() ==>
                (#[trigger] out.items()[x]).1.items() == row_columns(rows@, out.items()[x].0@),
        decreases names.len() - n,
    {
        let t = &names[n];
        let mut cols: TableColumns = NameMap::new();
        let mut j: usize = 0;
        assert(rows@.take(0) =~= Seq::<(String, String, ColumnInfo)>::empty());
        while j < rows.len()
            invariant
                j <= rows.len(),
                cols.items() == row_columns(rows@.take(j as int), t@),
            decreases rows.len() - j,
        {
            assert(rows@.take(j + 1).drop_last() =~= rows@.take(j as int));
            let r = &rows[j];
            if crate::text::same_text(r.0.as_str(), t.as_str()) {
                cols.insert(r.1.clone(), r.2.duplicate());
            }
            j += 1;
        }
        assert(rows@.take(rows.len() as int) =~= rows@);
        proof {
            lemma_distinct_tables(rows@);
            crate::models::lemma_key_index(out.items(), t@);
            if let Some(x) = crate::models::key_index(out.items(), t@) {
                let kt = crate::text::texts(names@);
                assert(out.key_texts().len() == out.items().len());
                assert(x < n);
                assert(out.key_texts()[x] == out.items()[x].0@);
                assert(out.key_texts()[x] == kt.take(n as int)[x]);
                assert(kt[x] == t@);
                assert(kt[n as int] == names@[n as int]@);
                assert(row_tables(rows@)[x] != row_tables(rows@)[n as int]);
                assert(false);
            }
        }
        let ghost before = out.items();
        out.insert(t.clone(), cols);
        assert(out.key_texts() =~= crate::text::texts(names@).take(n + 1)) by {
            assert(out.items() == before.push((*t, out.items().last().1)));
            assert(out.key_texts() =~= before.map_values(|e: (String, TableColumns)| e.0@).push(t@));
        }
        assert forall|x: int| 0 <= x < out.items().len() implies
            (#[trigger] out.items()[x]).1.items() == row_columns(rows@, out.items()[x].0@) by {
            if x < before.len() {
                assert(out.items()[x] == before[x]);
            }
        }
        n += 1;
    }
    assert(crate::text::texts(names@).take(names.len() as int) =~= crate::text::texts(names@));
    out
}

proof fn lemma_distinct_tables(rows: Seq<(String, String, ColumnInfo)>)
    ensures
        forall|a: int, b: int| 0 <= a < b < row_tables(rows).len() ==> row_tables(rows)[a] != row_tables(rows)[b],
    decreases rows.len(),
{
    if rows.len() > 0 {
        lemma_distinct_tables(rows.drop_last());
        let prev = row_tables(rows.drop_last());
        if !prev.contains(rows.last().0@) {
            let cur = prev.push(rows.last().0@);
            assert forall|a: int, b: int| 0 <= a < b < cur.len() implies cur[a] != cur[b] by {
                if b == prev.len() {
                    assert(cur[a] == prev[a]);
                    if cur[a] == cur[b] {
                        assert(prev.contains(rows.last().0@));
                    }
                } else {
                    assert(cur[a] == prev[a] && cur[b] == prev[b]);
                }
            }
        }
    }
}

} // verus!
