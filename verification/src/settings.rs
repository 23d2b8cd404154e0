//! Global DDL-export settings: the built-in file extensions and the resolution of a
//! setting from its stored value.
use vstd::prelude::*;
use crate::models::{opt_view, NameMap, key_index, lemma_key_index};
use crate::text::{upper, trim, texts, to_upper, trimmed, same_text, is_blank};

verus! {

/// A setting as stored: kept unless blank.
pub open spec fn setting_value(raw: Option<Seq<char>>) -> Option<Seq<char>> {
    match raw {
        Some(v) => if trim(v).len() > 0 { Some(v) } else { None },
        None => None,
    }
}

/// A stored setting, or none when it is blank.
pub fn stored_setting(raw: Option<String>) -> (r: Option<String>)
    ensures
        opt_view(r) == setting_value(opt_view(raw)),
{
    match raw {
        Some(v) => if is_blank(v.as_str()) { None } else { Some(v) },
        None => None,
    }
}

/// The built-in DDL file extension of each object type.
pub open spec fn default_extensions() -> Seq<(Seq<char>, Seq<char>)> {
    seq![
        ("TABLE"@, "tab"@), ("VIEW"@, "vw"@), ("MATERIALIZED VIEW"@, "mv"@), ("PROCEDURE"@, "prc"@),
        ("FUNCTION"@, "fnc"@), ("PACKAGE"@, "pck"@), ("PACKAGE BODY"@, "pkb"@), ("TRIGGER"@, "trg"@),
        ("SEQUENCE"@, "seq"@), ("SYNONYM"@, "syn"@), ("TYPE"@, "typ"@), ("JOB"@, "job"@)
    ]
}

/// The value of the first entry of `table` under `key`.
pub open spec fn table_lookup(table: Seq<(Seq<char>, Seq<char>)>, key: Seq<char>) -> Option<Seq<char>>
    decreases table.len(),
{
    if table.len() == 0 {
        None
    } else if table[0].0 == key {
        Some(table[0].1)
    } else {
        table_lookup(table.drop_first(), key)
    }
}

/// The built-in extension of an object type (trimmed, upper-cased), `sql` for any
/// other type.
pub open spec fn default_extension(object_type: Seq<char>) -> Seq<char> {
    match table_lookup(default_extensions(), upper(trim(object_type))) {
        Some(e) => e,
        None => "sql"@,
    }
}

/// The extension to use for an object type with no configured override.
pub fn default_ddl_extension(object_type: &str) -> (r: &'static str)
    ensures
        r@ == default_extension(object_type@),
{
    let key = to_upper(trimmed(object_type).as_str());
    let k = key.as_str();
    let types: [&'static str; 12] = ["TABLE", "VIEW", "MATERIALIZED VIEW", "PROCEDURE", "FUNCTION", "PACKAGE",
        "PACKAGE BODY", "TRIGGER", "SEQUENCE", "SYNONYM", "TYPE", "JOB"];
    let exts: [&'static str; 12] = ["tab", "vw", "mv", "prc", "fnc", "pck", "pkb", "trg", "seq", "syn", "typ", "job"];
    let ghost table = default_extensions();
    let mut i: usize = 0;
    assert(table.skip(0) =~= table);
    while i < 12
        invariant
            i <= 12,
            table == default_extensions(),
            k@ == upper(trim(object_type@)),
            forall|j: int| 0 <= j < 12 ==> #[trigger] types@[j]@ == table[j].0 && exts@[j]@ == table[j].1,
            table_lookup(table.skip(i as int), k@) == table_lookup(table, k@),
        decreases 12 - i,
    {
        let ghost rest = table.skip(i as int);
        assert(rest[0] == table[i as int]);
        if same_text(types[i], k) {
            assert(rest.len() > 0 && rest[0].0 == k@);
            assert(table_lookup(rest, k@) == Some(table[i as int].1));
            let e = exts[i];
            assert(e@ == exts@[i as int]@);
            assert(e@ == table[i as int].1);
            assert(table_lookup(table, k@) == Some(e@));
            return e;
        }
        assert(rest.drop_first() =~= table.skip(i + 1));
        i += 1;
    }
    assert(table.skip(12) =~= Seq::<(Seq<char>, Seq<char>)>::empty());
    "sql"
}

/// The string entries `serde_json` reads from `text` as a JSON object of strings, in
/// the key order of an ordered map; none when the text is not such an object.
pub uninterp spec fn json_string_entries(text: Seq<char>) -> Option<Seq<(Seq<char>, Seq<char>)>>;

/// `serde_json::from_str` into a `BTreeMap` of strings, its entries in key order;
/// none when the text is not a JSON object of strings. A function of the text. A
/// `BTreeMap` iterates its keys once each, ascending by `String`'s order, which is the
/// code-point order of `text_lt`.
#[verifier::external_body]
fn parse_string_map(text: &str) -> (r: Option<Vec<(String, String)>>)
    ensures
        match r {
            Some(v) => json_string_entries(text@) == Some(v@.map_values(|e: (String, String)| (e.0@, e.1@))),
            None => json_string_entries(text@) is None,
        },
        r matches Some(v) ==> forall|i: int, j: int| 0 <= i < j < v@.len()
            ==> crate::text::text_lt(#[trigger] v@[i].0@, #[trigger] v@[j].0@),
{
    match serde_json::from_str::<std::collections::BTreeMap<String, String>>(text) {
        Ok(m) => Some(m.into_iter().collect()),
        Err(_) => None,
    }
}

/// The entries of a stored JSON object, none when it is absent or not such an object.
pub open spec fn stored_entries(saved: Option<Seq<char>>) -> Seq<(Seq<char>, Seq<char>)> {
    match saved {
        Some(t) => match json_string_entries(t) {
            Some(e) => e,
            None => Seq::empty(),
        },
        None => Seq::empty(),
    }
}

fn stored_entries_exec(saved: &Option<String>) -> (r: Vec<(String, String)>)
    ensures
        r@.map_values(|e: (String, String)| (e.0@, e.1@)) == stored_entries(opt_view(*saved)),
{
    match saved {
        Some(t) => match parse_string_map(t.as_str()) {
            Some(v) => v,
            None => {
                let v: Vec<(String, String)> = Vec::new();
                assert(v@.map_values(|e: (String, String)| (e.0@, e.1@)) =~= Seq::<(Seq<char>, Seq<char>)>::empty());
                v
            },
        },
        None => {
            let v: Vec<(String, String)> = Vec::new();
            assert(v@.map_values(|e: (String, String)| (e.0@, e.1@)) =~= Seq::<(Seq<char>, Seq<char>)>::empty());
            v
        },
    }
}

/// The last override in `entries` whose upper-cased key is `key` and whose value is not
/// blank, its value trimmed when `trim_value`.
pub open spec fn last_override(entries: Seq<(Seq<char>, Seq<char>)>, key: Seq<char>, trim_value: bool) -> Option<Seq<char>>
    decreases entries.len(),
{
    if entries.len() == 0 {
        None
    } else {
        let e = entries.last();
        if upper(e.0) == key && trim(e.1).len() > 0 {
            Some(if trim_value { trim(e.1) } else { e.1 })
        } else {
            last_override(entries.drop_last(), key, trim_value)
        }
    }
}

fn last_override_exec(entries: &Vec<(String, String)>, key: &str, trim_value: bool) -> (r: Option<String>)
    ensures
        opt_view(r) == last_override(entries@.map_values(|e: (String, String)| (e.0@, e.1@)), key@, trim_value),
{
    let ghost es = entries@.map_values(|e: (String, String)| (e.0@, e.1@));
    let mut i: usize = entries.len();
    assert(es.take(i as int) =~= es);
    while i > 0
        invariant
            i <= entries.len(),
            es == entries@.map_values(|e: (String, String)| (e.0@, e.1@)),
            last_override(es.take(i as int), key@, trim_value) == last_override(es, key@, trim_value),
        decreases i,
    {
        let ghost pre = es.take(i as int);
        assert(pre.drop_last() =~= es.take(i - 1));
        assert(pre.last() == (entries@[i - 1].0@, entries@[i - 1].1@));
        let e = &entries[i - 1];
        if same_text(to_upper(e.0.as_str()).as_str(), key) && !is_blank(e.1.as_str()) {
            return Some(if trim_value { trimmed(e.1.as_str()) } else { e.1.clone() });
        }
        i -= 1;
    }
    None
}

/// The DDL file extension of an object type: the global override stored for it (the
/// trimmed value of the last non-blank entry whose upper-cased key is the type), else
/// the built-in extension.
pub open spec fn resolved_extension(object_type: Seq<char>, saved: Option<Seq<char>>) -> Seq<char> {
    match last_override(stored_entries(saved), upper(trim(object_type)), true) {
        Some(e) => e,
        None => default_extension(object_type),
    }
}

/// The DDL file extension of an object type, from the stored global overrides.
pub fn resolve_ddl_extension(object_type: &str, saved: &Option<String>) -> (r: String)
    ensures
        r@ == resolved_extension(object_type@, opt_view(*saved)),
{
    let key = to_upper(trimmed(object_type).as_str());
    let entries = stored_entries_exec(saved);
    match last_override_exec(&entries, key.as_str(), true) {
        Some(e) => e,
        None => default_ddl_extension(object_type).to_string(),
    }
}

/// The storage mode of an object type: the global override stored for it (the value of
/// the last non-blank entry whose upper-cased key is the type), else `both`.
pub open spec fn resolved_storage_mode(object_type: Seq<char>, saved: Option<Seq<char>>) -> Seq<char> {
    match last_override(stored_entries(saved), upper(trim(object_type)), false) {
        Some(m) => m,
        None => "both"@,
    }
}

/// The storage mode (`code`, `migration` or `both`) of an object type, from the stored
/// global overrides.
pub fn resolve_storage_mode(object_type: &str, saved: &Option<String>) -> (r: String)
    ensures
        r@ == resolved_storage_mode(object_type@, opt_view(*saved)),
{
    let key = to_upper(trimmed(object_type).as_str());
    let entries = stored_entries_exec(saved);
    match last_override_exec(&entries, key.as_str(), false) {
        Some(m) => m,
        None => "both".to_string(),
    }
}

/// The value of key `key` in a JSON object of strings, when set and not blank, trimmed.
pub open spec fn json_value(text: Seq<char>, key: Seq<char>) -> Option<Seq<char>> {
    match json_string_entries(text) {
        Some(es) => match crate::settings::table_lookup(es, key) {
            Some(v) => if trim(v).len() > 0 { Some(trim(v)) } else { None },
            None => None,
        },
        None => None,
    }
}

/// The trimmed value of `key` in a JSON object of strings, when set and not blank.
pub fn json_value_of(text: &str, key: &str) -> (r: Option<String>)
    ensures
        opt_view(r) == json_value(text@, key@),
{
    let es = match parse_string_map(text) {
        Some(v) => v,
        None => return None,
    };
    let ghost ev = es@.map_values(|e: (String, String)| (e.0@, e.1@));
    let mut i: usize = 0;
    assert(ev.skip(0) =~= ev);
    while i < es.len()
        invariant
            i <= es.len(),
            ev == es@.map_values(|e: (String, String)| (e.0@, e.1@)),
            json_string_entries(text@) == Some(ev),
            table_lookup(ev.skip(i as int), key@) == table_lookup(ev, key@),
        decreases es.len() - i,
    {
        let ghost rest = ev.skip(i as int);
        assert(rest[0] == (es@[i as int].0@, es@[i as int].1@));
        if same_text(es[i].0.as_str(), key) {
            assert(rest.len() > 0 && rest[0].0 == key@);
            assert(table_lookup(rest, key@) == Some(es@[i as int].1@));
            let v = &es[i].1;
            assert(json_string_entries(text@) == Some(ev));
            assert(table_lookup(ev, key@) == Some(v@));
            return if is_blank(v.as_str()) { None } else { Some(trimmed(v.as_str())) };
        }
        assert(rest.drop_first() =~= ev.skip(i + 1));
        i += 1;
    }
    assert(ev.skip(es.len() as int) =~= Seq::<(Seq<char>, Seq<char>)>::empty());
    None
}

// ───────────────────────── the settings table ─────────────────────────

/// A setting to store: its key and its new value.
#[derive(Clone, Debug, PartialEq, Eq)]
pub struct SettingWrite {
    pub key: String,
    pub value: String,
}

/// The value of a setting in a snapshot of the settings table, unless it is blank.
pub open spec fn loaded_setting(settings: NameMap<String>, key: Seq<char>) -> Option<Seq<char>> {
    setting_value(match settings.lookup(key) {
        Some(v) => Some(v@),
        None => None,
    })
}

fn load_setting(settings: &NameMap<String>, key: &str) -> (r: Option<String>)
    ensures
        opt_view(r) == loaded_setting(*settings, key@),
{
    match settings.get(key) {
        Some(v) => stored_setting(Some(v.clone())),
        None => None,
    }
}

fn save_setting(key: &str, value: &str) -> (w: SettingWrite)
    ensures
        w.key@ == key@,
        w.value@ == value@,
{
    SettingWrite { key: key.to_string(), value: value.to_string() }
}

/// The folder compare reports are written to.
pub fn load_output_folder(settings: &NameMap<String>) -> (r: Option<String>)
    ensures
        opt_view(r) == loaded_setting(*settings, "output_folder"@),
{
    load_setting(settings, "output_folder")
}

pub fn save_output_folder(folder: &str) -> (w: SettingWrite)
    ensures
        w.key@ == "output_folder"@,
        w.value@ == folder@,
{
    save_setting("output_folder", folder)
}

/// The folder query results were last exported to.
pub fn load_last_query_export_dir(settings: &NameMap<String>) -> (r: Option<String>)
    ensures
        opt_view(r) == loaded_setting(*settings, "last_query_export_dir"@),
{
    load_setting(settings, "last_query_export_dir")
}

pub fn save_last_query_export_dir(dir: &str) -> (w: SettingWrite)
    ensures
        w.key@ == "last_query_export_dir"@,
        w.value@ == dir@,
{
    save_setting("last_query_export_dir", dir)
}

/// The root of the per-schema DDL folders.
pub fn load_schema_root_folder(settings: &NameMap<String>) -> (r: Option<String>)
    ensures
        opt_view(r) == loaded_setting(*settings, "schema_root_folder"@),
{
    load_setting(settings, "schema_root_folder")
}

pub fn save_schema_root_folder(folder: &str) -> (w: SettingWrite)
    ensures
        w.key@ == "schema_root_folder"@,
        w.value@ == folder@,
{
    save_setting("schema_root_folder", folder)
}

/// The encoding DDL files are written in.
pub fn load_ddl_file_encoding(settings: &NameMap<String>) -> (r: Option<String>)
    ensures
        opt_view(r) == loaded_setting(*settings, "ddl_file_encoding"@),
{
    load_setting(settings, "ddl_file_encoding")
}

pub fn save_ddl_file_encoding(encoding: &str) -> (w: SettingWrite)
    ensures
        w.key@ == "ddl_file_encoding"@,
        w.value@ == encoding@,
{
    save_setting("ddl_file_encoding", encoding)
}

/// The PL/SQL Developer executable.
pub fn load_plsql_dev_path(settings: &NameMap<String>) -> (r: Option<String>)
    ensures
        opt_view(r) == loaded_setting(*settings, "plsql_dev_path"@),
{
    load_setting(settings, "plsql_dev_path")
}

pub fn save_plsql_dev_path(path: &str) -> (w: SettingWrite)
    ensures
        w.key@ == "plsql_dev_path"@,
        w.value@ == path@,
{
    save_setting("plsql_dev_path", path)
}

/// The DDL file naming convention (`timestamp` or `flyway`).
pub fn load_naming_convention(settings: &NameMap<String>) -> (r: Option<String>)
    ensures
        opt_view(r) == loaded_setting(*settings, "ddl_naming_convention"@),
{
    load_setting(settings, "ddl_naming_convention")
}

pub fn save_naming_convention(convention: &str) -> (w: SettingWrite)
    ensures
        w.key@ == "ddl_naming_convention"@,
        w.value@ == convention@,
{
    save_setting("ddl_naming_convention", convention)
}

/// How the migration subfolder is chosen: `year` (the calendar year) or `version`
/// (the manually set version label).
pub fn load_migration_folder_mode(settings: &NameMap<String>) -> (r: Option<String>)
    ensures
        opt_view(r) == loaded_setting(*settings, "migration_folder_mode"@),
{
    load_setting(settings, "migration_folder_mode")
}

pub fn save_migration_folder_mode(mode: &str) -> (w: SettingWrite)
    ensures
        w.key@ == "migration_folder_mode"@,
        w.value@ == mode@,
{
    save_setting("migration_folder_mode", mode)
}

/// The folder name used in `version` folder mode.
pub fn load_migration_version_label(settings: &NameMap<String>) -> (r: Option<String>)
    ensures
        opt_view(r) == loaded_setting(*settings, "migration_version_label"@),
{
    load_setting(settings, "migration_version_label")
}

pub fn save_migration_version_label(label: &str) -> (w: SettingWrite)
    ensures
        w.key@ == "migration_version_label"@,
        w.value@ == label@,
{
    save_setting("migration_version_label", label)
}

/// The subfolder of each schema folder that raw code DDL goes to.
pub fn load_code_folder_name(settings: &NameMap<String>) -> (r: Option<String>)
    ensures
        opt_view(r) == loaded_setting(*settings, "code_folder_name"@),
{
    load_setting(settings, "code_folder_name")
}

pub fn save_code_folder_name(name: &str) -> (w: SettingWrite)
    ensures
        w.key@ == "code_folder_name"@,
        w.value@ == name@,
{
    save_setting("code_folder_name", name)
}

/// The subfolder of each schema folder that migration scripts go to.
pub fn load_migration_folder_name(settings: &NameMap<String>) -> (r: Option<String>)
    ensures
        opt_view(r) == loaded_setting(*settings, "migration_folder_name"@),
{
    load_setting(settings, "migration_folder_name")
}

pub fn save_migration_folder_name(name: &str) -> (w: SettingWrite)
    ensures
        w.key@ == "migration_folder_name"@,
        w.value@ == name@,
{
    save_setting("migration_folder_name", name)
}

/// The Oracle client library folder: the stored setting, else the value of the
/// `ORACLE_CLIENT_LIB_DIR` environment variable, each only when not blank.
pub fn load_client_lib_dir(settings: &NameMap<String>, env_value: Option<String>) -> (r: Option<String>)
    ensures
        opt_view(r) == match loaded_setting(*settings, "client_lib_dir"@) {
            Some(v) => Some(v),
            None => setting_value(opt_view(env_value)),
        },
{
    match load_setting(settings, "client_lib_dir") {
        Some(v) => Some(v),
        None => stored_setting(env_value),
    }
}

pub fn save_client_lib_dir(dir: &str) -> (w: SettingWrite)
    ensures
        w.key@ == "client_lib_dir"@,
        w.value@ == dir@,
{
    save_setting("client_lib_dir", dir)
}

// ───────────────────────── per-type maps ─────────────────────────

/// The first position of key `k` among the pairs.
pub open spec fn pair_index(m: Seq<(Seq<char>, Seq<char>)>, k: Seq<char>) -> Option<int>
    decreases m.len(),
{
    if m.len() == 0 {
        None
    } else if m[0].0 == k {
        Some(0)
    } else {
        match pair_index(m.drop_first(), k) {
            Some(i) => Some(i + 1),
            None => None,
        }
    }
}

/// `k` mapped to `v`: its value replaced in place when present, else appended.
pub open spec fn upsert(m: Seq<(Seq<char>, Seq<char>)>, k: Seq<char>, v: Seq<char>) -> Seq<(Seq<char>, Seq<char>)> {
    match pair_index(m, k) {
        Some(i) => m.update(i, (k, v)),
        None => m.push((k, v)),
    }
}

pub open spec fn pair_views(v: Seq<(String, String)>) -> Seq<(Seq<char>, Seq<char>)> {
    v.map_values(|e: (String, String)| (e.0@, e.1@))
}

proof fn lemma_pair_index(m: Seq<(Seq<char>, Seq<char>)>, k: Seq<char>, i: int)
    requires
        0 <= i <= m.len(),
        forall|j: int| 0 <= j < i ==> (#[trigger] m[j]).0 != k,
        i < m.len() ==> m[i].0 == k,
    ensures
        pair_index(m, k) == (if i < m.len() { Some(i) } else { None::<int> }),
    decreases i,
{
    if i > 0 {
        assert forall|j: int| 0 <= j < i - 1 implies (#[trigger] m.drop_first()[j]).0 != k by {
            assert(m.drop_first()[j] == m[j + 1]);
        }
        if i < m.len() {
            assert(m.drop_first()[i - 1] == m[i]);
        }
        lemma_pair_index(m.drop_first(), k, i - 1);
    }
}

fn upsert_exec(m: &mut Vec<(String, String)>, k: String, v: String)
    ensures
        pair_views(final(m)@) == upsert(pair_views(old(m)@), k@, v@),
{
    let ghost pv = pair_views(m@);
    let mut i: usize = 0;
    while i < m.len() && !same_text(m[i].0.as_str(), k.as_str())
        invariant
            i <= m.len(),
            pv == pair_views(m@),
            forall|j: int| 0 <= j < i ==> (#[trigger] pv[j]).0 != k@,
        decreases m.len() - i,
    {
        i += 1;
    }
    proof {
        lemma_pair_index(pv, k@, i as int);
    }
    if i < m.len() {
        m.set(i, (k, v));
        assert(pair_views(m@) =~= pv.update(i as int, (k@, v@)));
    } else {
        m.push((k, v));
        assert(pair_views(m@) =~= pv.push((k@, v@)));
    }
}

/// The pairs after the non-blank entries are applied in turn, each under its
/// upper-cased key, the value trimmed when `trim_value`.
pub open spec fn merged(base: Seq<(Seq<char>, Seq<char>)>, entries: Seq<(Seq<char>, Seq<char>)>, trim_value: bool) -> Seq<(Seq<char>, Seq<char>)>
    decreases entries.len(),
{
    if entries.len() == 0 {
        base
    } else {
        let prev = merged(base, entries.drop_last(), trim_value);
        let e = entries.last();
        if trim(e.1).len() > 0 {
            upsert(prev, upper(e.0), if trim_value { trim(e.1) } else { e.1 })
        } else {
            prev
        }
    }
}

fn merge_entries(base: Vec<(String, String)>, entries: &Vec<(String, String)>, trim_value: bool) -> (r: Vec<(String, String)>)
    ensures
        pair_views(r@) == merged(pair_views(base@), pair_views(entries@), trim_value),
{
    let ghost b = pair_views(base@);
    let ghost ev = pair_views(entries@);
    let mut out = base;
    let mut i: usize = 0;
    while i < entries.len()
        invariant
            i <= entries.len(),
            ev == pair_views(entries@),
            pair_views(out@) == merged(b, ev.take(i as int), trim_value),
        decreases entries.len() - i,
    {
        assert(ev.take(i + 1).drop_last() =~= ev.take(i as int));
        assert(ev.take(i + 1).last() == (entries@[i as int].0@, entries@[i as int].1@));
        let e = &entries[i];
        if !is_blank(e.1.as_str()) {
            let v = if trim_value { trimmed(e.1.as_str()) } else { e.1.clone() };
            upsert_exec(&mut out, to_upper(e.0.as_str()), v);
        }
        i += 1;
    }
    assert(ev.take(entries.len() as int) =~= ev);
    out
}

fn default_extension_pairs() -> (r: Vec<(String, String)>)
    ensures
        pair_views(r@) == default_extensions(),
{
    let r: Vec<(String, String)> = vec![
        ("TABLE".to_string(), "tab".to_string()), ("VIEW".to_string(), "vw".to_string()),
        ("MATERIALIZED VIEW".to_string(), "mv".to_string()), ("PROCEDURE".to_string(), "prc".to_string()),
        ("FUNCTION".to_string(), "fnc".to_string()), ("PACKAGE".to_string(), "pck".to_string()),
        ("PACKAGE BODY".to_string(), "pkb".to_string()), ("TRIGGER".to_string(), "trg".to_string()),
        ("SEQUENCE".to_string(), "seq".to_string()), ("SYNONYM".to_string(), "syn".to_string()),
        ("TYPE".to_string(), "typ".to_string()), ("JOB".to_string(), "job".to_string()),
    ];
    assert(pair_views(r@) =~= default_extensions());
    r
}

/// The global DDL extensions by upper-cased object type: the built-in ones, with the
/// stored non-blank overrides applied over them, trimmed.
pub fn load_ddl_extensions(settings: &NameMap<String>) -> (r: Vec<(String, String)>)
    ensures
        pair_views(r@) == merged(default_extensions(),
            stored_entries(loaded_setting(*settings, "ddl_file_extensions"@)), true),
{
    let saved = load_setting(settings, "ddl_file_extensions");
    let entries = stored_entries_exec(&saved);
    merge_entries(default_extension_pairs(), &entries, true)
}

/// The global storage modes by upper-cased object type: the stored non-blank entries.
pub fn load_storage_modes(settings: &NameMap<String>) -> (r: Vec<(String, String)>)
    ensures
        pair_views(r@) == merged(Seq::empty(), stored_entries(loaded_setting(*settings, "ddl_storage_modes"@)), false),
{
    let saved = load_setting(settings, "ddl_storage_modes");
    let entries = stored_entries_exec(&saved);
    let base: Vec<(String, String)> = Vec::new();
    assert(pair_views(base@) =~= Seq::<(Seq<char>, Seq<char>)>::empty());
    merge_entries(base, &entries, false)
}

// ───────────────────────── laws ─────────────────────────

proof fn lemma_key_index_after_update<V>(s: Seq<(String, V)>, i: int, e: (String, V))
    requires
        key_index(s, e.0@) == Some(i),
    ensures
        key_index(s.update(i, e), e.0@) == Some(i),
    decreases s.len(),
{
    lemma_key_index(s, e.0@);
    let t = s.update(i, e);
    if i < s.len() - 1 {
        assert(s.last().0@ != e.0@);
        assert(t.last() == s.last());
        assert(t.drop_last() =~= s.drop_last().update(i, e));
        lemma_key_index_after_update(s.drop_last(), i, e);
    }
}

proof fn lemma_key_index_update_other<V>(s: Seq<(String, V)>, i: int, e: (String, V), k: Seq<char>)
    requires
        0 <= i < s.len(),
        s[i].0@ == e.0@,
        k != e.0@,
    ensures
        key_index(s.update(i, e), k) == key_index(s, k),
    decreases s.len(),
{
    let t = s.update(i, e);
    if i == s.len() - 1 {
        assert(t.drop_last() =~= s.drop_last());
    } else {
        assert(t.last() == s.last());
        assert(t.drop_last() =~= s.drop_last().update(i, e));
        lemma_key_index_update_other(s.drop_last(), i, e, k);
    }
}

proof fn lemma_key_index_push_other<V>(s: Seq<(String, V)>, e: (String, V), k: Seq<char>)
    requires
        k != e.0@,
    ensures
        key_index(s.push(e), k) == key_index(s, k),
{
    assert(s.push(e).drop_last() =~= s);
}

/// Writing one setting leaves every other setting as it read before.
pub proof fn setting_write_keeps_others(before: NameMap<String>, after: NameMap<String>, w: SettingWrite, key: Seq<char>)
    requires
        after.items() == match key_index(before.items(), w.key@) {
            Some(i) => before.items().update(i, (w.key, w.value)),
            None => before.items().push((w.key, w.value)),
        },
        key != w.key@,
    ensures
        loaded_setting(after, key) == loaded_setting(before, key),
{
    lemma_key_index(before.items(), w.key@);
    lemma_key_index(before.items(), key);
    match key_index(before.items(), w.key@) {
        Some(i) => {
            lemma_key_index_update_other(before.items(), i, (w.key, w.value), key);
        },
        None => {
            lemma_key_index_push_other(before.items(), (w.key, w.value), key);
        },
    }
}

/// A setting read back after it is written is the value written, unless that value is
/// blank (a blank setting reads as unset).
pub proof fn setting_read_after_write(before: NameMap<String>, after: NameMap<String>, w: SettingWrite)
    requires
        after.items() == match key_index(before.items(), w.key@) {
            Some(i) => before.items().update(i, (w.key, w.value)),
            None => before.items().push((w.key, w.value)),
        },
    ensures
        loaded_setting(after, w.key@) == setting_value(Some(w.value@)),
{
    match key_index(before.items(), w.key@) {
        Some(i) => {
            lemma_key_index_after_update(before.items(), i, (w.key, w.value));
            lemma_key_index(before.items(), w.key@);
        },
        None => {
            let t = before.items().push((w.key, w.value));
            assert(t.last().0@ == w.key@);
        },
    }
}

} // verus!
