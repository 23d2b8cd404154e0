//! Saving exported DDL into a schema's folder tree: which files get written, under
//! which names, with which bytes. Reading the clock and touching the disk is left to
//! the caller; everything decided from those facts is here.
use vstd::prelude::*;
use vstd::utf8::encode_utf8;
use vstd::string::StrSliceExecFns;
use crate::text::{trim, lower, upper, decimal, all_ascii, push_char, same_text, to_lower, to_upper, trimmed, decimal_exec, is_blank, texts};
use crate::oracle_ddl::{deploy_script, build_deploy_script};

verus! {

// ───────────────────────── file encoding ─────────────────────────

/// The bytes `encoding_rs::WINDOWS_1257.encode` produces for a text.
pub uninterp spec fn windows_1257_encoding(text: Seq<char>) -> Seq<u8>;

/// `encoding_rs::WINDOWS_1257.encode`: the text in the Baltic code page, characters
/// it cannot map written as HTML decimal character references. The result is named;
/// the crate documents that ASCII-only input passes through unchanged. (The encoder
/// panics only when a buffer size overflows `usize`, which no text held in memory
/// reaches.)
#[verifier::external_body]
fn encode_windows_1257(text: &str) -> (r: Vec<u8>)
    ensures
        r@ == windows_1257_encoding(text@),
        all_ascii(text@) ==> r@ == encode_utf8(text@),
{
    let (encoded, _, _) = encoding_rs::WINDOWS_1257.encode(text);
    encoded.into_owned()
}

/// The bytes a DDL file holds for the configured encoding name (trimmed, ASCII case
/// ignored): UTF-8 behind a byte-order mark, Windows-1257, or plain UTF-8 for any
/// other name.
pub open spec fn encoded_content(content: Seq<char>, encoding: Seq<char>) -> Seq<u8> {
    let e = lower(trim(encoding));
    if e == "utf8-bom"@ {
        seq![0xEFu8, 0xBBu8, 0xBFu8] + encode_utf8(content)
    } else if e == "windows-1257"@ {
        windows_1257_encoding(content)
    } else {
        encode_utf8(content)
    }
}

fn push_bytes(out: &mut Vec<u8>, b: &[u8])
    ensures
        final(out)@ == old(out)@ + b@,
{
    let mut i: usize = 0;
    while i < b.len()
        invariant
            i <= b.len(),
            out@ == old(out)@ + b@.take(i as int),
        decreases b.len() - i,
    {
        out.push(b[i]);
        assert(b@.take(i + 1) =~= b@.take(i as int).push(b@[i as int]));
        i += 1;
    }
    assert(b@.take(b.len() as int) =~= b@);
}

/// Encodes DDL text for writing to disk.
pub fn encode_content(content: &str, encoding: &str) -> (r: Vec<u8>)
    ensures
        r@ == encoded_content(content@, encoding@),
{
    let e = to_lower(trimmed(encoding).as_str());
    if same_text(e.as_str(), "utf8-bom") {
        let mut bytes: Vec<u8> = vec![0xEF, 0xBB, 0xBF];
        let body = content.as_bytes_vec();
        push_bytes(&mut bytes, body.as_slice());
        bytes
    } else if same_text(e.as_str(), "windows-1257") {
        encode_windows_1257(content)
    } else {
        content.as_bytes_vec()
    }
}

// ───────────────────────── Flyway version numbers ─────────────────────────

pub open spec fn is_digit(c: char) -> bool {
    '0' <= c && c <= '9'
}

/// The number of ASCII digits `s` starts with.
pub open spec fn digit_run(s: Seq<char>) -> nat
    decreases s.len(),
{
    if s.len() > 0 && is_digit(s[0]) { 1 + digit_run(s.drop_first()) } else { 0 }
}

/// The number a string of decimal digits denotes.
pub open spec fn digits_value(s: Seq<char>) -> nat
    decreases s.len(),
{
    if s.len() == 0 { 0 } else { digits_value(s.drop_last()) * 10 + ((s.last() as nat) - ('0' as nat)) as nat }
}

/// The version of a versioned migration file name `V<digits>__...`: none when the name
/// has another shape or the number does not fit in a `u32`.
pub open spec fn migration_version(name: Seq<char>) -> Option<u32> {
    if name.len() > 0 && name[0] == 'V' {
        let rest = name.drop_first();
        let n = digit_run(rest) as int;
        if n == 0 || !(rest.len() >= n + 2 && rest[n] == '_' && rest[n + 1] == '_') {
            None
        } else {
            let v = digits_value(rest.take(n));
            if v <= u32::MAX { Some(v as u32) } else { None }
        }
    } else {
        None
    }
}

proof fn lemma_digit_run(s: Seq<char>, i: int)
    requires
        0 <= i <= s.len(),
        forall|j: int| 0 <= j < i ==> is_digit(#[trigger] s[j]),
        i == s.len() || !is_digit(s[i]),
    ensures
        digit_run(s) == i,
    decreases i,
{
    if i > 0 {
        lemma_digit_run(s.drop_first(), i - 1);
    }
}

/// The version of a versioned migration file name, as `migration_version` says.
pub fn parse_version(name: &str) -> (r: Option<u32>)
    ensures
        r == migration_version(name@),
{
    let v = crate::text::to_chars(name);
    if v.len() == 0 || v[0] != 'V' {
        return None;
    }
    let ghost rest = v@.drop_first();
    let mut i: usize = 0;
    let mut acc: u64 = 0;
    let mut over = false;
    while i + 1 < v.len() && '0' <= v[i + 1] && v[i + 1] <= '9'
        invariant
            1 <= v.len(),
            i + 1 <= v.len(),
            v@ == name@,
            rest == v@.drop_first(),
            forall|j: int| 0 <= j < i ==> is_digit(#[trigger] rest[j]),
            !over ==> acc == digits_value(rest.take(i as int)) && acc <= u32::MAX,
            over ==> digits_value(rest.take(i as int)) > u32::MAX,
        decreases v.len() - i,
    {
        let c = v[i + 1];
        let d: u64 = ((c as u32) - 48) as u64;
        assert(rest.take(i + 1).drop_last() =~= rest.take(i as int));
        assert(rest.take(i + 1).last() == c);
        if !over {
            let next = acc * 10 + d;
            if next > 4294967295 {
                over = true;
            } else {
                acc = next;
            }
        }
        i += 1;
    }
    proof {
        lemma_digit_run(rest, i as int);
    }
    if i == 0 || !(3 <= v.len() - i && v[i + 1] == '_' && v[i + 2] == '_') {
        return None;
    }
    if over {
        None
    } else {
        Some(acc as u32)
    }
}

/// The highest version among the versioned migration file names, 0 when none is.
pub open spec fn max_version(names: Seq<Seq<char>>) -> nat
    decreases names.len(),
{
    if names.len() == 0 {
        0
    } else {
        let m = max_version(names.drop_last());
        match migration_version(names.last()) {
            Some(v) => if v > m { v as nat } else { m },
            None => m,
        }
    }
}

/// The highest version among the file names of a migration folder tree, 0 when no
/// name is a versioned migration.
pub fn max_migration_version(names: &Vec<String>) -> (r: u32)
    ensures
        r == max_version(texts(names@)),
{
    let ghost ns = texts(names@);
    let mut max: u32 = 0;
    let mut i: usize = 0;
    while i < names.len()
        invariant
            i <= names.len(),
            ns == texts(names@),
            max == max_version(ns.take(i as int)),
        decreases names.len() - i,
    {
        assert(ns.take(i + 1).drop_last() =~= ns.take(i as int));
        assert(ns.take(i + 1).last() == names@[i as int]@);
        if let Some(n) = parse_version(names[i].as_str()) {
            if n > max {
                max = n;
            }
        }
        i += 1;
    }
    assert(ns.take(names.len() as int) =~= ns);
    max
}

/// The next Flyway version for a migration folder tree, from the names of its files
/// (the folder's own and those one subfolder down): the highest existing version plus
/// one, so no counter needs to be kept.
pub fn next_migration_version(names: &Vec<String>) -> (r: u32)
    requires
        max_version(texts(names@)) < u32::MAX,
    ensures
        r == max_version(texts(names@)) + 1,
{
    max_migration_version(names) + 1
}

// ───────────────────────── file layout ─────────────────────────

/// The storage mode in effect: `code`, `migration` or `both` as given (trimmed); any
/// other value means `both`.
pub open spec fn storage_mode_in_effect(mode: Seq<char>) -> Seq<char> {
    let m = trim(mode);
    if m == "code"@ || m == "migration"@ || m == "both"@ { m } else { "both"@ }
}

pub fn normalize_storage_mode(mode: &str) -> (r: String)
    ensures
        r@ == storage_mode_in_effect(mode@),
{
    let m = trimmed(mode);
    if same_text(m.as_str(), "code") || same_text(m.as_str(), "migration") || same_text(m.as_str(), "both") {
        m
    } else {
        "both".to_string()
    }
}

/// The name of the raw code file: Flyway's repeatable-migration prefix `R__` under the
/// `flyway` naming convention.
pub open spec fn code_file_name_of(object_name: Seq<char>, ext: Seq<char>, naming: Seq<char>) -> Seq<char> {
    let base = object_name + "."@ + ext;
    if naming == "flyway"@ { "R__"@ + base } else { base }
}

pub fn code_file_name(object_name: &str, ext: &str, naming: &str) -> (r: String)
    ensures
        r@ == code_file_name_of(object_name@, ext@, naming@),
{
    let mut r = String::new();
    if same_text(naming, "flyway") {
        r.append("R__");
    }
    r.append(object_name);
    r.append(".");
    r.append(ext);
    r
}

/// The name of the migration file: `V<version>__<schema>_<description>.<ext>` under the
/// `flyway` convention, else `<timestamp>_<schema>$<description>.<ext>`.
pub open spec fn migration_file_name_of(
    naming: Seq<char>,
    version: u32,
    timestamp: Seq<char>,
    schema: Seq<char>,
    description: Seq<char>,
    ext: Seq<char>,
) -> Seq<char> {
    if naming == "flyway"@ {
        "V"@ + decimal(version as nat) + "__"@ + schema + "_"@ + description + "."@ + ext
    } else {
        timestamp + "_"@ + schema + "$"@ + description + "."@ + ext
    }
}

pub fn migration_file_name(
    naming: &str,
    version: u32,
    timestamp: &str,
    schema: &str,
    description: &str,
    ext: &str,
) -> (r: String)
    ensures
        r@ == migration_file_name_of(naming@, version, timestamp@, schema@, description@, ext@),
{
    let mut r = String::new();
    if same_text(naming, "flyway") {
        r.append("V");
        let d = decimal_exec(version as u64);
        r.append(d.as_str());
        r.append("__");
        r.append(schema);
        r.append("_");
    } else {
        r.append(timestamp);
        r.append("_");
        r.append(schema);
        r.append("$");
    }
    r.append(description);
    r.append(".");
    r.append(ext);
    r
}

/// The preferred migration subfolder: the version label (trimmed) in `version` mode,
/// else the year; none when that is empty.
pub open spec fn primary_folder_of(folder_mode: Seq<char>, version_label: Seq<char>, year: Seq<char>) -> Option<Seq<char>> {
    let name = if folder_mode == "version"@ { trim(version_label) } else { year };
    if name.len() == 0 { None } else { Some(name) }
}

pub fn primary_folder_name(folder_mode: &str, version_label: &str, year: &str) -> (r: Option<String>)
    ensures
        match r {
            Some(s) => primary_folder_of(folder_mode@, version_label@, year@) == Some(s@),
            None => primary_folder_of(folder_mode@, version_label@, year@) is None,
        },
{
    let name = if same_text(folder_mode, "version") { trimmed(version_label) } else { year.to_string() };
    if name.as_str().is_empty() { None } else { Some(name) }
}

/// Where a migration file goes.
#[derive(Clone, Debug, PartialEq, Eq)]
pub enum MigrationFolder {
    /// The preferred subfolder, which exists.
    Primary(String),
    /// The `new` subfolder, which exists.
    New,
    /// The migration folder itself.
    Base,
}

/// The folder a migration file goes into: the preferred subfolder when there is one and
/// it exists, else `new` when that exists, else the migration folder itself. Folders are
/// never created for this.
pub fn choose_migration_folder(primary: Option<String>, primary_exists: bool, new_exists: bool) -> (r: MigrationFolder)
    ensures
        match primary {
            Some(p) if primary_exists => r == MigrationFolder::Primary(p),
            _ => r == (if new_exists { MigrationFolder::New } else { MigrationFolder::Base }),
        },
{
    match primary {
        Some(p) if primary_exists => MigrationFolder::Primary(p),
        _ => if new_exists { MigrationFolder::New } else { MigrationFolder::Base },
    }
}

// ───────────────────────── the save plan ─────────────────────────

/// The export settings in effect for one schema and object type.
#[derive(Clone, Debug, PartialEq, Eq)]
pub struct DdlSaveSettings {
    pub storage_mode: String,
    pub naming_convention: String,
    pub folder_mode: String,
    pub version_label: String,
    pub extension: String,
    pub encoding: String,
}

/// What saving one object's DDL writes.
#[derive(Clone, Debug, PartialEq, Eq)]
pub struct DdlSavePlan {
    pub write_code: bool,
    pub write_migration: bool,
    pub code_file_name: String,
    pub code_content: Vec<u8>,
    pub migration_content: Vec<u8>,
    pub primary_folder: Option<String>,
}

/// The plan for saving DDL: the raw text as the code file unless the mode is
/// `migration`, its deploy form as a migration unless the mode is `code`, both in the
/// configured encoding.
pub open spec fn save_plan_holds(
    p: DdlSavePlan,
    object_name: Seq<char>,
    object_type: Seq<char>,
    ddl: Seq<char>,
    s: DdlSaveSettings,
    year: Seq<char>,
) -> bool {
    let mode = storage_mode_in_effect(s.storage_mode@);
    &&& p.write_code == (mode != "migration"@)
    &&& p.write_migration == (mode != "code"@)
    &&& p.code_file_name@ == code_file_name_of(object_name, s.extension@, s.naming_convention@)
    &&& p.code_content@ == encoded_content(ddl, s.encoding@)
    &&& p.migration_content@ == encoded_content(deploy_script(upper(object_type), object_name, ddl), s.encoding@)
    &&& match p.primary_folder {
        Some(f) => primary_folder_of(s.folder_mode@, s.version_label@, year) == Some(f@),
        None => primary_folder_of(s.folder_mode@, s.version_label@, year) is None,
    }
}

/// Plans the files that saving an object's DDL writes.
pub fn plan_ddl_save(object_name: &str, object_type: &str, ddl: &str, settings: &DdlSaveSettings, year: &str) -> (r: DdlSavePlan)
    ensures
        save_plan_holds(r, object_name@, object_type@, ddl@, *settings, year@),
{
    let mode = normalize_storage_mode(settings.storage_mode.as_str());
    let write_code = !same_text(mode.as_str(), "migration");
    let write_migration = !same_text(mode.as_str(), "code");
    let code_file_name = code_file_name(object_name, settings.extension.as_str(), settings.naming_convention.as_str());
    let code_content = encode_content(ddl, settings.encoding.as_str());
    let type_upper = to_upper(object_type);
    let script = build_deploy_script(type_upper.as_str(), object_name, ddl);
    let migration_content = encode_content(script.as_str(), settings.encoding.as_str());
    let primary_folder = primary_folder_name(settings.folder_mode.as_str(), settings.version_label.as_str(), year);
    DdlSavePlan { write_code, write_migration, code_file_name, code_content, migration_content, primary_folder }
}

/// The paths written by saving DDL.
#[derive(Clone, Debug, PartialEq, Eq)]
pub struct SaveDdlResult {
    pub code_path: Option<String>,
    pub migration_path: Option<String>,
}

// ───────────────────────── laws ─────────────────────────

proof fn lemma_decimal_digits(n: nat)
    ensures
        decimal(n).len() > 0,
        forall|i: int| 0 <= i < decimal(n).len() ==> is_digit(#[trigger] decimal(n)[i]),
        digits_value(decimal(n)) == n,
    decreases n,
{
    let c = crate::text::digit_char((n % 10) as nat);
    assert((c as nat) - ('0' as nat) == n % 10);
    if n < 10 {
        assert(decimal(n) == seq![c]);
        assert(decimal(n).drop_last() =~= Seq::<char>::empty());
        assert(digits_value(decimal(n)) == digits_value(Seq::<char>::empty()) * 10 + ((c as nat) - ('0' as nat)) as nat);
    } else {
        lemma_decimal_digits(n / 10);
        let p = decimal(n / 10);
        assert(decimal(n) == p + seq![c]);
        assert(decimal(n).drop_last() =~= p);
        assert forall|i: int| 0 <= i < decimal(n).len() implies is_digit(#[trigger] decimal(n)[i]) by {
            if i < p.len() {
                assert(decimal(n)[i] == p[i]);
            }
        }
        assert(decimal(n).last() == c);
        assert(digits_value(decimal(n)) == digits_value(p) * 10 + ((c as nat) - ('0' as nat)) as nat);
        assert((n / 10) * 10 + n % 10 == n);
    }
}

/// A Flyway migration file written under version `v` is read back as version `v`, so
/// the next version computed from a folder holding it is past `v`.
pub proof fn flyway_version_round_trip(v: u32, timestamp: Seq<char>, schema: Seq<char>, description: Seq<char>, ext: Seq<char>)
    ensures
        migration_version(migration_file_name_of("flyway"@, v, timestamp, schema, description, ext)) == Some(v),
{
    reveal_strlit("V");
    reveal_strlit("__");
    let d = decimal(v as nat);
    lemma_decimal_digits(v as nat);
    let tail = schema + "_"@ + description + "."@ + ext;
    let name = migration_file_name_of("flyway"@, v, timestamp, schema, description, ext);
    assert(name =~= seq!['V'] + (d + seq!['_', '_'] + tail));
    let rest = name.drop_first();
    assert(rest =~= d + seq!['_', '_'] + tail);
    assert forall|j: int| 0 <= j < d.len() implies is_digit(#[trigger] rest[j]) by {
        assert(rest[j] == d[j]);
    }
    assert(rest[d.len() as int] == '_');
    lemma_digit_run(rest, d.len() as int);
    assert(rest.take(d.len() as int) =~= d);
}

/// Saving DDL always writes at least one file: the mode in effect is `code`,
/// `migration` or `both`.
pub proof fn ddl_save_writes_a_file(
    p: DdlSavePlan,
    object_name: Seq<char>,
    object_type: Seq<char>,
    ddl: Seq<char>,
    s: DdlSaveSettings,
    year: Seq<char>,
)
    requires
        save_plan_holds(p, object_name, object_type, ddl, s, year),
    ensures
        p.write_code || p.write_migration,
{
    reveal_strlit("code");
    reveal_strlit("migration");
    assert("code"@ != "migration"@) by {
        assert("code"@.len() == 4);
        assert("migration"@.len() == 9);
    }
}

/// The highest version of a migration folder is at least every version a file name in
/// it carries, and it is 0 or the version of one of them: the next version computed from
/// the folder is past every existing migration and one past the highest.
pub proof fn max_version_bounds_each_migration(names: Seq<Seq<char>>)
    ensures
        forall|i: int| 0 <= i < names.len() && #[trigger] migration_version(names[i]) is Some
            ==> migration_version(names[i])->0 <= max_version(names),
        max_version(names) == 0 || exists|i: int| 0 <= i < names.len()
            && #[trigger] migration_version(names[i]) == Some(max_version(names) as u32),
    decreases names.len(),
{
    if names.len() > 0 {
        let prev = names.drop_last();
        max_version_bounds_each_migration(prev);
        assert forall|i: int| 0 <= i < names.len() && #[trigger] migration_version(names[i]) is Some
            implies migration_version(names[i])->0 <= max_version(names) by {
            if i < names.len() - 1 {
                assert(prev[i] == names[i]);
            }
        }
        if max_version(names) != 0 {
            if max_version(names) == max_version(prev) {
                let i = choose|i: int| 0 <= i < prev.len() && #[trigger] migration_version(prev[i])
                    == Some(max_version(prev) as u32);
                assert(prev[i] == names[i]);
            } else {
                let last = names.len() - 1;
                assert(names[last] == names.last());
                assert(migration_version(names[last]) == Some(max_version(names) as u32));
            }
        }
    }
}

} // verus!
