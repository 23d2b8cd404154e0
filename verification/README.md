# schemetry

Schema comparison, fix-script generation, DDL shaping and query-result layout for
setups where every tenant has a database of its own (Oracle, with PostgreSQL support
in the DDL and history-table code).

## Layout

- `src/` — the library, written in Verus. Its functions carry contracts over
  mathematical models (`Seq`, `Map`, spec functions) and are proved against them.
  Where a service calls one of the store traits (implemented in `app/` over SQLite
  and the database drivers), its contract states, with `call_ensures`, which store
  method it calls with which arguments and what it does with the answer.
  - `text` — character-level string primitives the rest is stated over.
  - `models` — connection records, column metadata, discrepancies, naming rules and
    `NameMap`, the insertion-ordered map with distinct keys used for fetched metadata.
  - `filter_rules`, `catalog_sql` — table-name filter rules and the SQL they compile to.
  - `compare` — discrepancies of every server against a reference server.
  - `fix`, `fix_laws` — guarded, re-runnable PL/SQL fix blocks and the script built
    from a selection of discrepancies, with the laws the script obeys.
  - `history` — pairing main and history tables by naming rules and the fixes that
    bring a history table in line.
  - `oracle_ddl`, `postgres_ddl` — DDL rendered from catalog rows, cleaned DDL, deploy
    scripts, result-cell display.
  - `ddl_files`, `settings`, `services`, `stores`, `state`, `commands`, `utils`,
    `export_layout` — the decisions of the application: where DDL files go and what
    they hold, setting resolution, per-schema overrides, LOB viewer content, sheet
    layouts and the CSV report.
- `tests/` — ordinary Rust tests of the library.
- `app/` — the application around the library: SQLite stores and the OS keychain,
  the Oracle and PostgreSQL drivers, workbook writing and the command layer.

The laws are public proof functions (for example
`compare::identical_servers_have_no_discrepancies`,
`fix_laws::fix_script_counts_each_selection_once`,
`settings::setting_read_after_write`, `settings::setting_write_keeps_others`, `ddl_files::flyway_version_round_trip`).
