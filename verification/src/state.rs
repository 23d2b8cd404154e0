//! The state the commands share: the services over their stores, and the metadata of
//! the servers fetched last.
use vstd::prelude::*;
use crate::models::{NameMap, ServersData, ServerTableDdls};
use crate::services::{
    ConnectionRepository, FilterRuleRepository, SchemaFolderOverrideRepository, HistoryNamingRuleRepository,
    QueryHistoryRepository, OracleRepository, ConnectionCatalogService, FilterRuleService,
    SchemaFolderOverrideService, HistoryNamingRuleService, QueryHistoryService, QueryService, SchemaDiffService,
};

verus! {

/// The server metadata fetched last, and the table DDLs fetched for it since.
pub struct FetchSnapshot {
    pub servers: ServersData,
    pub server_table_ddls: ServerTableDdls,
}

impl FetchSnapshot {
    /// The snapshot of a fresh fetch: its servers, and no table DDL yet.
    pub fn loaded(servers: ServersData) -> (s: Self)
        ensures
            s.servers == servers,
            s.server_table_ddls.items().len() == 0,
    {
        FetchSnapshot { servers, server_table_ddls: NameMap::new() }
    }
}

impl Default for FetchSnapshot {
    fn default() -> (s: Self)
        ensures
            s.servers.items().len() == 0,
            s.server_table_ddls.items().len() == 0,
    {
        FetchSnapshot { servers: NameMap::new(), server_table_ddls: NameMap::new() }
    }
}

/// The services the commands work through, and the shared fetch snapshot (held in
/// whatever cell the caller shares it in).
pub struct AppState<C, F, O, H, Q, D, E, S>
where
    C: ConnectionRepository,
    F: FilterRuleRepository,
    O: SchemaFolderOverrideRepository,
    H: HistoryNamingRuleRepository,
    Q: QueryHistoryRepository,
    D: OracleRepository,
    E: OracleRepository,
{
    pub catalog: ConnectionCatalogService<C>,
    pub diff_svc: SchemaDiffService<D>,
    pub query_svc: QueryService<E>,
    pub query_history_svc: QueryHistoryService<Q>,
    pub filter_rules_svc: FilterRuleService<F>,
    pub history_naming_rules_svc: HistoryNamingRuleService<H>,
    pub folder_schema_overrides_svc: SchemaFolderOverrideService<O>,
    pub snapshot: S,
}

impl<C, F, O, H, Q, D, E, S> AppState<C, F, O, H, Q, D, E, S>
where
    C: ConnectionRepository,
    F: FilterRuleRepository,
    O: SchemaFolderOverrideRepository,
    H: HistoryNamingRuleRepository,
    Q: QueryHistoryRepository,
    D: OracleRepository,
    E: OracleRepository,
{
    /// Builds each service over its store; the schema and query services each get a
    /// database repository.
    pub fn new(
        connections: C,
        diff_repo: D,
        query_repo: E,
        query_history: Q,
        filter_rules: F,
        history_naming_rules: H,
        folder_schema_overrides: O,
        snapshot: S,
    ) -> (s: Self)
        ensures
            s.catalog.store() == connections,
            s.diff_svc.store() == diff_repo,
            s.query_svc.store() == query_repo,
            s.query_history_svc.store() == query_history,
            s.filter_rules_svc.store() == filter_rules,
            s.history_naming_rules_svc.store() == history_naming_rules,
            s.folder_schema_overrides_svc.store() == folder_schema_overrides,
            s.snapshot == snapshot,
    {
        AppState {
            catalog: ConnectionCatalogService::new(connections),
            diff_svc: SchemaDiffService::new(diff_repo),
            query_svc: QueryService::new(query_repo),
            query_history_svc: QueryHistoryService::new(query_history),
            filter_rules_svc: FilterRuleService::new(filter_rules),
            history_naming_rules_svc: HistoryNamingRuleService::new(history_naming_rules),
            folder_schema_overrides_svc: SchemaFolderOverrideService::new(folder_schema_overrides),
            snapshot,
        }
    }
}

} // verus!
