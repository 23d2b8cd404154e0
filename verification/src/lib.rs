//! Schema comparison, fix-script generation and DDL shaping for per-tenant databases.
pub mod text;
pub mod models;
pub mod filter_rules;
pub mod compare;
pub mod fix;
pub mod oracle_ddl;
pub mod history;
pub mod services;
pub mod settings;
pub mod utils;
pub mod ddl_files;
pub mod commands;
pub mod state;
pub mod postgres_ddl;
pub mod fix_laws;
pub mod export_layout;
pub mod stores;
pub mod catalog_sql;
pub mod ddl_laws;
