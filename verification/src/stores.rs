//! What the local stores decide beside their SQL: where a password is kept, when a
//! query enters the history, and the order of favourites.
use vstd::prelude::*;

verus! {

/// The credential-manager service the passwords are kept under.
pub const KEYRING_SERVICE: &'static str = "schemetry";

/// What the connections table keeps in place of a password.
pub const KEYRING_REF_MARKER: &'static str = "__KEYRING__";

/// The saved connections, with passwords in the OS credential manager.
pub struct SqliteConnectionRepository;

impl SqliteConnectionRepository {
    pub fn new() -> Self {
        SqliteConnectionRepository
    }

    /// The credential-manager user of a connection's password: `group:name`, unique
    /// within a group and apart across groups.
    pub fn keyring_key(group: &str, name: &str) -> (r: String)
        ensures
            r@ == group@ + ":"@ + name@,
    {
        let mut k = String::new();
        k.append(group);
        k.append(":");
        k.append(name);
        k
    }
}

/// The query history.
pub struct SqliteQueryHistoryRepository;

impl SqliteQueryHistoryRepository {
    pub fn new() -> Self {
        SqliteQueryHistoryRepository
    }

    /// A query enters the history unless it repeats the latest entry.
    pub fn should_append(last: Option<&str>, sql: &str) -> (r: bool)
        ensures
            r == !(last matches Some(l) && l@ == sql@),
    {
        match last {
            Some(l) => !crate::text::same_text(l, sql),
            None => true,
        }
    }

    /// The place of a new favourite: after the last one (`max_order` is -1 when there
    /// is none).
    pub fn next_favorite_order(max_order: i64) -> (r: i64)
        requires
            max_order < i64::MAX,
        ensures
            r == max_order + 1,
    {
        max_order + 1
    }
}

/// The per-schema folder overrides.
pub struct SqliteSchemaFolderOverrideRepository;

/// The text columns added to the overrides table after its first version.
pub open spec fn added_override_columns() -> Seq<Seq<char>> {
    seq![
        "encoding"@, "extensions"@, "storage_modes"@, "naming_convention"@, "code_folder_name"@,
        "migration_folder_name"@, "migration_folder_mode"@, "migration_version_label"@
    ]
}

impl SqliteSchemaFolderOverrideRepository {
    pub fn new() -> Self {
        SqliteSchemaFolderOverrideRepository
    }

    /// The columns an older overrides table is brought up to date with.
    pub fn added_columns() -> (r: Vec<&'static str>)
        ensures
            r@.map_values(|c: &'static str| c@) == added_override_columns(),
    {
        let r: Vec<&'static str> = vec![
            "encoding", "extensions", "storage_modes", "naming_convention", "code_folder_name",
            "migration_folder_name", "migration_folder_mode", "migration_version_label",
        ];
        assert(r@.map_values(|c: &'static str| c@) =~= added_override_columns());
        r
    }
}

} // verus!
