//! What the user-facing commands decide: which connections a request names, whether a
//! query or an override is acceptable, how a LOB cell is shown, and how per-server
//! results are assembled and ordered.
use vstd::prelude::*;
use vstd::utf8::{valid_utf8, decode_utf8};
use base64::Engine;
use crate::models::{
    ConnectionRecord, SchemaFolderOverride, HistoryFixResult, ServerHistoryFixResult, HistoryTableIssue, QueryServerResult,
};
use crate::services::{
    ConnectionRepository, ConnectionCatalogService, SchemaFolderOverrideRepository, SchemaFolderOverrideService,
    LobCell, OracleRepository, QueryService, QueryRows,
};
use crate::text::{trim, unicode_lower, sorted_by, trimmed, is_blank, to_lowercase, utf8_text, str_contains_char, sort_by_keys};
use crate::oracle_ddl::{capped, cap_chars};
use crate::models::{NameMap, opt_view, ServersData};
use crate::settings::{
    loaded_setting, pair_views, merged, default_extensions, stored_entries, load_output_folder, load_client_lib_dir,
    load_last_query_export_dir, load_schema_root_folder, load_ddl_file_encoding, load_ddl_extensions, load_storage_modes,
    load_naming_convention, load_code_folder_name, load_migration_folder_name, load_migration_folder_mode,
    load_migration_version_label, load_plsql_dev_path, SettingWrite, save_output_folder, save_client_lib_dir,
    save_schema_root_folder, save_ddl_file_encoding, save_naming_convention, save_code_folder_name,
    save_migration_folder_name, save_migration_folder_mode, save_migration_version_label, save_plsql_dev_path,
};

verus! {

// ───────────────────────── connection selection ─────────────────────────

/// The connections of `all` whose id is among `ids`, in their order.
pub open spec fn picked(all: Seq<ConnectionRecord>, ids: Seq<i64>) -> Seq<ConnectionRecord>
    decreases all.len(),
{
    if all.len() == 0 {
        all
    } else {
        let p = picked(all.drop_last(), ids);
        if ids.contains(all.last().id) { p.push(all.last()) } else { p }
    }
}

/// The connections a request names: all of them when it names no id, else those with
/// a named id, an error when none has one.
pub open spec fn selection(all: Seq<ConnectionRecord>, ids: Seq<i64>) -> Result<Seq<ConnectionRecord>, Seq<char>> {
    if ids.len() == 0 {
        Ok(all)
    } else if picked(all, ids).len() == 0 {
        Err("No matching server connections were selected."@)
    } else {
        Ok(picked(all, ids))
    }
}

fn has_id(ids: &[i64], id: i64) -> (r: bool)
    ensures
        r == ids@.contains(id),
{
    let mut i: usize = 0;
    while i < ids.len()
        invariant
            i <= ids.len(),
            forall|j: int| 0 <= j < i ==> ids@[j] != id,
        decreases ids.len() - i,
    {
        if ids[i] == id {
            assert(ids@[i as int] == id);
            return true;
        }
        i += 1;
    }
    false
}

/// Picks the connections a request names, by id (names may repeat across groups).
pub fn pick_connections(all: Vec<ConnectionRecord>, server_ids: &[i64]) -> (r: Result<Vec<ConnectionRecord>, String>)
    ensures
        match r {
            Ok(v) => selection(all@, server_ids@) == Ok::<Seq<ConnectionRecord>, Seq<char>>(v@),
            Err(e) => selection(all@, server_ids@) == Err::<Seq<ConnectionRecord>, Seq<char>>(e@),
        },
{
    if server_ids.len() == 0 {
        return Ok(all);
    }
    let mut out: Vec<ConnectionRecord> = Vec::new();
    let mut i: usize = 0;
    while i < all.len()
        invariant
            i <= all.len(),
            out@ == picked(all@.take(i as int), server_ids@),
        decreases all.len() - i,
    {
        assert(all@.take(i + 1).drop_last() =~= all@.take(i as int));
        if has_id(server_ids, all[i].id) {
            out.push(all[i].duplicate());
        }
        i += 1;
    }
    assert(all@.take(all.len() as int) =~= all@);
    if out.len() == 0 {
        Err("No matching server connections were selected.".to_string())
    } else {
        Ok(out)
    }
}

/// The connections a request names, from the catalog: all of them when no id is given,
/// else only connections with a named id, at least one.
pub fn selected_connections<R: ConnectionRepository>(
    catalog: &ConnectionCatalogService<R>,
    server_ids: &[i64],
) -> (r: Result<Vec<ConnectionRecord>, String>)
    ensures
        r matches Ok(v) ==> exists|all: Vec<ConnectionRecord>|
            call_ensures(R::get_all_connections, (&catalog.store(),), Ok::<Vec<ConnectionRecord>, String>(all))
            && #[trigger] selection(all@, server_ids@) == Ok::<Seq<ConnectionRecord>, Seq<char>>(v@),
        r matches Err(e) ==> call_ensures(R::get_all_connections, (&catalog.store(),), Err::<Vec<ConnectionRecord>, String>(e))
            || exists|all: Vec<ConnectionRecord>|
                call_ensures(R::get_all_connections, (&catalog.store(),), Ok::<Vec<ConnectionRecord>, String>(all))
                && #[trigger] selection(all@, server_ids@) == Err::<Seq<ConnectionRecord>, Seq<char>>(e@),
        server_ids@.len() > 0 ==> (r matches Ok(v) ==> v@.len() > 0
            && forall|i: int| 0 <= i < v@.len() ==> server_ids@.contains(#[trigger] v@[i].id)),
{
    let all = match catalog.get_all_connections() {
        Ok(all) => all,
        Err(e) => return Err(e),
    };
    let ghost all_vec = all;
    let ghost all_view = all@;
    let r = pick_connections(all, server_ids);
    proof {
        lemma_picked_ids(all_view, server_ids@);
        assert(r matches Ok(v) ==> selection(all_vec@, server_ids@) == Ok::<Seq<ConnectionRecord>, Seq<char>>(v@));
        assert(r matches Err(e) ==> selection(all_vec@, server_ids@) == Err::<Seq<ConnectionRecord>, Seq<char>>(e@));
    }
    r
}

proof fn lemma_picked_ids(all: Seq<ConnectionRecord>, ids: Seq<i64>)
    ensures
        forall|i: int| 0 <= i < picked(all, ids).len() ==> ids.contains(#[trigger] picked(all, ids)[i].id),
    decreases all.len(),
{
    if all.len() > 0 {
        lemma_picked_ids(all.drop_last(), ids);
        let p = picked(all.drop_last(), ids);
        assert forall|i: int| 0 <= i < picked(all, ids).len() implies ids.contains(#[trigger] picked(all, ids)[i].id) by {
            if i < p.len() {
                assert(picked(all, ids)[i] == p[i]);
            }
        }
    }
}

// ───────────────────────── query text ─────────────────────────

/// The SQL to run: the text trimmed; an error when nothing is left.
pub fn query_text(sql: &str) -> (r: Result<String, String>)
    ensures
        match r {
            Ok(t) => trim(sql@).len() > 0 && t@ == trim(sql@),
            Err(e) => trim(sql@).len() == 0 && e@ == "SQL cannot be empty."@,
        },
{
    let t = trimmed(sql);
    if t.as_str().is_empty() {
        Err("SQL cannot be empty.".to_string())
    } else {
        Ok(t)
    }
}

// ───────────────────────── LOB viewer ─────────────────────────

/// The most bytes of a binary LOB shown inline.
pub const MAX_BINARY: usize = 16777216;

/// The most characters of a text LOB shown inline.
pub const MAX_TEXT_CHARS: usize = 1048576;

/// The byte limit a LOB cell is fetched with: one byte over the inline cap, so a cut
/// can be told from an exact fit.
pub const LOB_FETCH_LIMIT: usize = 16777217;

/// On-demand content of a single LOB cell, for the viewer.
#[derive(Clone, Debug, PartialEq, Eq)]
pub struct LobContent {
    /// `text` for character LOBs, `binary` otherwise.
    pub kind: String,
    /// The text, capped at a character limit.
    pub text: Option<String>,
    /// The detected MIME type of binary content.
    pub mime: Option<String>,
    /// The bytes in base64, capped at the inline limit.
    pub base64: Option<String>,
    /// The number of characters or bytes returned.
    pub size: u64,
    /// More data exists than was returned.
    pub truncated: bool,
}

/// The character of a six-bit value in the standard base64 alphabet
/// (`A`–`Z`, `a`–`z`, `0`–`9`, `+`, `/`).
pub open spec fn base64_digit(v: int) -> char {
    if v < 26 {
        (65 + v) as char
    } else if v < 52 {
        (97 + (v - 26)) as char
    } else if v < 62 {
        (48 + (v - 52)) as char
    } else if v == 62 {
        '+'
    } else {
        '/'
    }
}

/// The standard, padded base64 text of bytes (RFC 4648): every group of three bytes
/// gives four digits; a last group of one or two bytes gives two or three digits and
/// `=` padding to four.
pub open spec fn standard_base64(bytes: Seq<u8>) -> Seq<char>
    decreases bytes.len(),
{
    if bytes.len() == 0 {
        seq![]
    } else if bytes.len() == 1 {
        let a = bytes[0] as int;
        seq![base64_digit(a / 4), base64_digit((a % 4) * 16), '=', '=']
    } else if bytes.len() == 2 {
        let a = bytes[0] as int;
        let b = bytes[1] as int;
        seq![base64_digit(a / 4), base64_digit((a % 4) * 16 + b / 16), base64_digit((b % 16) * 4), '=']
    } else {
        let a = bytes[0] as int;
        let b = bytes[1] as int;
        let c = bytes[2] as int;
        seq![base64_digit(a / 4), base64_digit((a % 4) * 16 + b / 16), base64_digit((b % 16) * 4 + c / 64),
            base64_digit(c % 64)] + standard_base64(bytes.skip(3))
    }
}

/// base64 `engine::general_purpose::STANDARD.encode`: the padded standard encoding of
/// the bytes, four characters per started group of three bytes. (It panics only when that length overflows `usize`, which the
/// bound rules out.)
#[verifier::external_body]
fn base64_encode(bytes: &[u8]) -> (r: String)
    requires
        bytes@.len() <= 0x3FFF_FFFF,
    ensures
        r@ == standard_base64(bytes@),
        r@.len() == 4 * ((bytes@.len() + 2) / 3),
{
    base64::engine::general_purpose::STANDARD.encode(bytes)
}

pub open spec fn bytes_start(b: Seq<u8>, p: Seq<u8>) -> bool {
    p.len() <= b.len() && b.take(p.len() as int) == p
}

fn bytes_start_exec(b: &[u8], p: &[u8]) -> (r: bool)
    ensures
        r == bytes_start(b@, p@),
{
    if p.len() > b.len() {
        return false;
    }
    let mut i: usize = 0;
    while i < p.len()
        invariant
            i <= p.len() <= b.len(),
            forall|j: int| 0 <= j < i ==> b@[j] == p@[j],
        decreases p.len() - i,
    {
        if b[i] != p[i] {
            assert(b@.take(p.len() as int)[i as int] != p@[i as int]);
            return false;
        }
        i += 1;
    }
    assert(b@.take(p.len() as int) =~= p@);
    true
}

/// The first 8192 bytes (all when fewer) decode as UTF-8 and hold no NUL.
pub open spec fn looks_like_text_spec(b: Seq<u8>) -> bool {
    let sample = if b.len() < 8192 { b } else { b.take(8192) };
    valid_utf8(sample) && !decode_utf8(sample).contains('\0')
}

/// Heuristic: content whose first 8192 bytes are UTF-8 without a NUL is text.
pub fn looks_like_text(bytes: &[u8]) -> (r: bool)
    ensures
        r == looks_like_text_spec(bytes@),
{
    let n: usize = if bytes.len() < 8192 { bytes.len() } else { 8192 };
    let sample = crate::text::take_bytes(bytes, n);
    assert(bytes.len() < 8192 ==> sample@ =~= bytes@);
    match utf8_text(sample.as_slice()) {
        Some(s) => !str_contains_char(s.as_str(), '\0'),
        None => false,
    }
}

/// The MIME type of binary content by its leading magic bytes, falling back to
/// `text/plain` for text-like content and `application/octet-stream` otherwise.
pub open spec fn mime_of(b: Seq<u8>) -> Seq<char> {
    if bytes_start(b, seq![0x25u8, 0x50u8, 0x44u8, 0x46u8]) {
        "application/pdf"@
    } else if bytes_start(b, seq![0x89u8, 0x50u8, 0x4Eu8, 0x47u8, 0x0Du8, 0x0Au8, 0x1Au8, 0x0Au8]) {
        "image/png"@
    } else if bytes_start(b, seq![0xFFu8, 0xD8u8, 0xFFu8]) {
        "image/jpeg"@
    } else if bytes_start(b, seq![0x47u8, 0x49u8, 0x46u8, 0x38u8, 0x37u8, 0x61u8])
        || bytes_start(b, seq![0x47u8, 0x49u8, 0x46u8, 0x38u8, 0x39u8, 0x61u8]) {
        "image/gif"@
    } else if b.len() >= 12 && bytes_start(b, seq![0x52u8, 0x49u8, 0x46u8, 0x46u8])
        && b.subrange(8, 12) == seq![0x57u8, 0x45u8, 0x42u8, 0x50u8] {
        "image/webp"@
    } else if bytes_start(b, seq![0x42u8, 0x4Du8]) {
        "image/bmp"@
    } else if looks_like_text_spec(b) {
        "text/plain"@
    } else {
        "application/octet-stream"@
    }
}

fn webp_tag(b: &[u8]) -> (r: bool)
    requires
        b.len() >= 12,
    ensures
        r == (b@.subrange(8, 12) == seq![0x57u8, 0x45u8, 0x42u8, 0x50u8]),
{
    let r = b[8] == 0x57 && b[9] == 0x45 && b[10] == 0x42 && b[11] == 0x50;
    if r {
        assert(b@.subrange(8, 12) =~= seq![0x57u8, 0x45u8, 0x42u8, 0x50u8]);
    } else {
        assert(b@.subrange(8, 12) != seq![0x57u8, 0x45u8, 0x42u8, 0x50u8]) by {
            if b@.subrange(8, 12) == seq![0x57u8, 0x45u8, 0x42u8, 0x50u8] {
                assert(b@.subrange(8, 12)[0] == b@[8]);
                assert(b@.subrange(8, 12)[1] == b@[9]);
                assert(b@.subrange(8, 12)[2] == b@[10]);
                assert(b@.subrange(8, 12)[3] == b@[11]);
            }
        }
    }
    r
}

/// Best-effort content-type sniffing from leading magic bytes.
pub fn sniff_mime(bytes: &[u8]) -> (r: &'static str)
    ensures
        r@ == mime_of(bytes@),
{
    let pdf: Vec<u8> = vec![0x25, 0x50, 0x44, 0x46];
    let png: Vec<u8> = vec![0x89, 0x50, 0x4E, 0x47, 0x0D, 0x0A, 0x1A, 0x0A];
    let jpeg: Vec<u8> = vec![0xFF, 0xD8, 0xFF];
    let gif7: Vec<u8> = vec![0x47, 0x49, 0x46, 0x38, 0x37, 0x61];
    let gif9: Vec<u8> = vec![0x47, 0x49, 0x46, 0x38, 0x39, 0x61];
    let riff: Vec<u8> = vec![0x52, 0x49, 0x46, 0x46];
    let bmp: Vec<u8> = vec![0x42, 0x4D];
    if bytes_start_exec(bytes, pdf.as_slice()) {
        "application/pdf"
    } else if bytes_start_exec(bytes, png.as_slice()) {
        "image/png"
    } else if bytes_start_exec(bytes, jpeg.as_slice()) {
        "image/jpeg"
    } else if bytes_start_exec(bytes, gif7.as_slice()) || bytes_start_exec(bytes, gif9.as_slice()) {
        "image/gif"
    } else if bytes.len() >= 12 && bytes_start_exec(bytes, riff.as_slice()) && webp_tag(bytes) {
        "image/webp"
    } else if bytes_start_exec(bytes, bmp.as_slice()) {
        "image/bmp"
    } else if looks_like_text(bytes) {
        "text/plain"
    } else {
        "application/octet-stream"
    }
}

/// The inline part of a binary LOB: at most `MAX_BINARY` bytes.
pub open spec fn kept_bytes(b: Seq<u8>) -> Seq<u8> {
    if b.len() > MAX_BINARY { b.take(MAX_BINARY as int) } else { b }
}

/// What the viewer shows of a LOB cell: text capped by characters, or binary content
/// capped by bytes with its sniffed MIME type and base64 form.
pub open spec fn lob_content_holds(c: LobContent, cell: LobCell) -> bool {
    match cell {
        LobCell::Text(t) => {
            let raw = match t { Some(s) => s@, None => Seq::empty() };
            let shown = capped(raw, MAX_TEXT_CHARS as nat);
            &&& c.kind@ == "text"@
            &&& c.text matches Some(x) && x@ == shown
            &&& c.mime is None
            &&& c.base64 is None
            &&& c.size == shown.len()
            &&& c.truncated == (raw.len() > MAX_TEXT_CHARS)
        },
        LobCell::Binary(b) => {
            let kept = kept_bytes(b@);
            &&& c.kind@ == "binary"@
            &&& c.text is None
            &&& c.mime matches Some(m) && m@ == mime_of(kept)
            &&& c.base64 matches Some(x) && x@ == standard_base64(kept)
            &&& c.size == kept.len()
            &&& c.truncated == (b@.len() > MAX_BINARY)
        },
    }
}

/// The viewer content of a fetched LOB cell.
pub fn lob_content(cell: LobCell) -> (r: LobContent)
    ensures
        lob_content_holds(r, cell),
{
    match cell {
        LobCell::Text(t) => {
            let raw = match t {
                Some(s) => s,
                None => String::new(),
            };
            let n = crate::text::to_chars(raw.as_str()).len();
            let truncated = n > MAX_TEXT_CHARS;
            let text = cap_chars(raw, MAX_TEXT_CHARS);
            let size = crate::text::to_chars(text.as_str()).len() as u64;
            LobContent { kind: "text".to_string(), text: Some(text), mime: None, base64: None, size, truncated }
        },
        LobCell::Binary(bytes) => {
            let ghost fetched = bytes@;
            let mut bytes = bytes;
            let truncated = bytes.len() > MAX_BINARY;
            if truncated {
                bytes.truncate(MAX_BINARY);
            }
            assert(bytes@ =~= kept_bytes(fetched));
            let mime = sniff_mime(bytes.as_slice()).to_string();
            let encoded = base64_encode(bytes.as_slice());
            LobContent {
                kind: "binary".to_string(),
                text: None,
                mime: Some(mime),
                base64: Some(encoded),
                size: bytes.len() as u64,
                truncated,
            }
        },
    }
}

/// Fetches a LOB cell of a re-run query and shapes it for the viewer.
pub fn fetch_lob_content<R: OracleRepository>(
    svc: &QueryService<R>,
    conn: &ConnectionRecord,
    sql: &str,
    row_index: usize,
    col_index: usize,
) -> (r: Result<LobContent, String>)
    ensures
        r matches Ok(c) ==> exists|cell: LobCell|
            call_ensures(R::fetch_lob_cell, (&svc.store(), conn, sql, row_index, col_index, LOB_FETCH_LIMIT),
                Ok::<LobCell, String>(cell))
            && #[trigger] lob_content_holds(c, cell),
        r matches Err(e) ==> call_ensures(R::fetch_lob_cell,
            (&svc.store(), conn, sql, row_index, col_index, LOB_FETCH_LIMIT), Err::<LobCell, String>(e)),
{
    let cell = match svc.fetch_lob_cell(conn, sql, row_index, col_index, LOB_FETCH_LIMIT) {
        Ok(cell) => cell,
        Err(e) => return Err(e),
    };
    let ghost fetched = cell;
    let c = lob_content(cell);
    assert(lob_content_holds(c, fetched));
    Ok(c)
}

// ───────────────────────── schema folder overrides ─────────────────────────

/// Every overridable field of an override is blank.
pub open spec fn nothing_overridden(d: SchemaFolderOverride) -> bool {
    &&& trim(d.folder_path@).len() == 0
    &&& trim(d.encoding@).len() == 0
    &&& trim(d.extensions@).len() == 0
    &&& trim(d.storage_modes@).len() == 0
    &&& trim(d.naming_convention@).len() == 0
    &&& trim(d.code_folder_name@).len() == 0
    &&& trim(d.migration_folder_name@).len() == 0
    &&& trim(d.migration_folder_mode@).len() == 0
    &&& trim(d.migration_version_label@).len() == 0
}

/// An override as it is stored: the schema name trimmed and lower-cased, every other
/// text trimmed, the id kept.
pub open spec fn override_normalized(r: SchemaFolderOverride, d: SchemaFolderOverride) -> bool {
    &&& r.id == d.id
    &&& r.schema_name@ == unicode_lower(trim(d.schema_name@))
    &&& r.folder_path@ == trim(d.folder_path@)
    &&& r.encoding@ == trim(d.encoding@)
    &&& r.extensions@ == trim(d.extensions@)
    &&& r.storage_modes@ == trim(d.storage_modes@)
    &&& r.naming_convention@ == trim(d.naming_convention@)
    &&& r.code_folder_name@ == trim(d.code_folder_name@)
    &&& r.migration_folder_name@ == trim(d.migration_folder_name@)
    &&& r.migration_folder_mode@ == trim(d.migration_folder_mode@)
    &&& r.migration_version_label@ == trim(d.migration_version_label@)
}

/// Checks and normalizes an override before it is saved: a schema name is required,
/// and at least one field must be set.
pub fn validated_override(data: &SchemaFolderOverride) -> (r: Result<SchemaFolderOverride, String>)
    ensures
        match r {
            Ok(o) => trim(data.schema_name@).len() > 0 && !nothing_overridden(*data) && override_normalized(o, *data),
            Err(e) => if trim(data.schema_name@).len() == 0 {
                e@ == "Schema name is required."@
            } else {
                nothing_overridden(*data) && e@ == "Set at least one field to override."@
            },
        },
{
    if is_blank(data.schema_name.as_str()) {
        return Err("Schema name is required.".to_string());
    }
    if is_blank(data.folder_path.as_str()) && is_blank(data.encoding.as_str()) && is_blank(data.extensions.as_str())
        && is_blank(data.storage_modes.as_str()) && is_blank(data.naming_convention.as_str())
        && is_blank(data.code_folder_name.as_str()) && is_blank(data.migration_folder_name.as_str())
        && is_blank(data.migration_folder_mode.as_str()) && is_blank(data.migration_version_label.as_str())
    {
        return Err("Set at least one field to override.".to_string());
    }
    let name = trimmed(data.schema_name.as_str());
    Ok(SchemaFolderOverride {
        id: data.id,
        schema_name: to_lowercase(name.as_str()),
        folder_path: trimmed(data.folder_path.as_str()),
        encoding: trimmed(data.encoding.as_str()),
        extensions: trimmed(data.extensions.as_str()),
        storage_modes: trimmed(data.storage_modes.as_str()),
        naming_convention: trimmed(data.naming_convention.as_str()),
        code_folder_name: trimmed(data.code_folder_name.as_str()),
        migration_folder_name: trimmed(data.migration_folder_name.as_str()),
        migration_folder_mode: trimmed(data.migration_folder_mode.as_str()),
        migration_version_label: trimmed(data.migration_version_label.as_str()),
    })
}

/// Validates, normalizes and saves an override; an invalid one is refused before the
/// store is touched.
pub fn save_folder_schema_override<R: SchemaFolderOverrideRepository>(
    svc: &SchemaFolderOverrideService<R>,
    data: &SchemaFolderOverride,
) -> (r: Result<SchemaFolderOverride, String>)
    ensures
        trim(data.schema_name@).len() == 0 ==> (r matches Err(e) && e@ == "Schema name is required."@),
        trim(data.schema_name@).len() > 0 && nothing_overridden(*data) ==> (r matches Err(e)
            && e@ == "Set at least one field to override."@),
        trim(data.schema_name@).len() > 0 && !nothing_overridden(*data) ==> exists|o: SchemaFolderOverride|
            #[trigger] override_normalized(o, *data) && override_saved(svc.store(), o, r),
{
    let checked = match validated_override(data) {
        Ok(o) => o,
        Err(e) => return Err(e),
    };
    let r = svc.save_override(&checked);
    assert(override_normalized(checked, *data) && override_saved(svc.store(), checked, r));
    r
}

/// `r` is what the store answered to saving `o`: an insert for a new override (id 0),
/// else an update under its id.
pub open spec fn override_saved<R: SchemaFolderOverrideRepository>(
    store: R,
    o: SchemaFolderOverride,
    r: Result<SchemaFolderOverride, String>,
) -> bool {
    if o.id == 0 {
        call_ensures(R::insert_override, (&store, &o), r)
    } else {
        call_ensures(R::update_override, (&store, o.id, &o), r)
    }
}

// ───────────────────────── per-server results ─────────────────────────

/// The result row of one server's history check.
pub open spec fn fix_row_holds(r: ServerHistoryFixResult, name: Seq<char>, outcome: Result<HistoryFixResult, String>) -> bool {
    &&& r.server_name@ == name
    &&& match outcome {
        Ok(res) => r.issues@ == res.issues@ && r.fix_sql@ == res.fix_sql@ && r.error is None,
        Err(e) => r.issues@.len() == 0 && r.fix_sql@.len() == 0 && (r.error matches Some(x) && x@ == e@),
    }
}

/// Labels one server's history check with its name, or records its error.
pub fn server_history_fix(server_name: String, outcome: Result<HistoryFixResult, String>) -> (r: ServerHistoryFixResult)
    ensures
        fix_row_holds(r, server_name@, outcome),
{
    match outcome {
        Ok(res) => ServerHistoryFixResult { server_name, issues: res.issues, fix_sql: res.fix_sql, error: None },
        Err(e) => ServerHistoryFixResult { server_name, issues: Vec::new(), fix_sql: String::new(), error: Some(e) },
    }
}

/// The sort key of a result row: its server name.
pub open spec fn row_server(r: ServerHistoryFixResult) -> Seq<char> {
    r.server_name@
}

/// Result rows ordered by server name, equal names in their order.
pub open spec fn rows_by_server(rows: Seq<ServerHistoryFixResult>) -> Seq<ServerHistoryFixResult> {
    sorted_by(rows, server_key())
}

pub open spec fn server_key() -> spec_fn(ServerHistoryFixResult) -> Seq<char> {
    |x: ServerHistoryFixResult| row_server(x)
}

/// The history checks of several servers as result rows, ordered by server name
/// (servers with equal names keep their order).
pub fn history_fix_results(outcomes: Vec<(String, Result<HistoryFixResult, String>)>) -> (r: Vec<ServerHistoryFixResult>)
    ensures
        exists|rows: Seq<ServerHistoryFixResult>|
            rows.len() == outcomes@.len()
            && (forall|i: int| 0 <= i < rows.len() ==> fix_row_holds(#[trigger] rows[i], outcomes@[i].0@, outcomes@[i].1))
            && r@ == #[trigger] rows_by_server(rows),
{
    let ghost src = outcomes@;
    let mut outcomes = outcomes;
    let mut rows: Vec<ServerHistoryFixResult> = Vec::new();
    let mut keys: Vec<String> = Vec::new();
    let n = outcomes.len();
    let mut k: usize = 0;
    assert(src.skip(0) =~= src);
    while k < n
        invariant
            n == src.len(),
            k <= n,
            outcomes@ == src.skip(k as int),
            rows@.len() == k,
            keys@.len() == k,
            forall|i: int| 0 <= i < k ==> fix_row_holds(#[trigger] rows@[i], src[i].0@, src[i].1),
            forall|i: int| 0 <= i < k ==> #[trigger] keys@[i]@ == row_server(rows@[i]),
        decreases n - k,
    {
        let (name, outcome) = outcomes.remove(0);
        assert(src.skip(k as int).drop_first() =~= src.skip(k + 1));
        let key = name.clone();
        let row = server_history_fix(name, outcome);
        rows.push(row);
        keys.push(key);
        k += 1;
    }
    let ghost all_rows = rows@;
    let r = sort_by_keys(rows, keys, Ghost(server_key()));
    assert(all_rows.len() == src.len());
    assert(r@ == rows_by_server(all_rows));
    r
}

/// The result row of one server's query: its rows, or its error with nothing else.
pub open spec fn query_row_holds(
    r: QueryServerResult,
    name: Seq<char>,
    outcome: Result<QueryRows, String>,
    duration_ms: u64,
) -> bool {
    &&& r.server_name@ == name
    &&& r.duration_ms == duration_ms
    &&& match outcome {
        Ok(rows) => r.columns@ == rows.0@ && r.column_types@ == rows.1@ && r.rows@ == rows.2@ && r.error is None,
        Err(e) => r.columns@.len() == 0 && r.column_types@.len() == 0 && r.rows@.len() == 0
            && (r.error matches Some(x) && x@ == e@),
    }
}

/// Labels one server's query outcome with its name and timing.
pub fn query_server_result(server_name: String, outcome: Result<QueryRows, String>, duration_ms: u64) -> (r: QueryServerResult)
    ensures
        query_row_holds(r, server_name@, outcome, duration_ms),
{
    match outcome {
        Ok((columns, column_types, rows)) => QueryServerResult {
            server_name,
            columns,
            column_types,
            rows,
            error: None,
            duration_ms,
        },
        Err(e) => QueryServerResult {
            server_name,
            columns: Vec::new(),
            column_types: Vec::new(),
            rows: Vec::new(),
            error: Some(e),
            duration_ms,
        },
    }
}

pub open spec fn query_server_key() -> spec_fn(QueryServerResult) -> Seq<char> {
    |x: QueryServerResult| x.server_name@
}

/// Query results ordered by server name, equal names in their order.
pub open spec fn results_by_server(rows: Seq<QueryServerResult>) -> Seq<QueryServerResult> {
    sorted_by(rows, query_server_key())
}

/// The query outcomes of several servers as result rows, ordered by server name.
pub fn query_results(outcomes: Vec<(String, Result<QueryRows, String>, u64)>) -> (r: Vec<QueryServerResult>)
    ensures
        exists|rows: Seq<QueryServerResult>|
            rows.len() == outcomes@.len()
            && (forall|i: int| 0 <= i < rows.len() ==>
                query_row_holds(#[trigger] rows[i], outcomes@[i].0@, outcomes@[i].1, outcomes@[i].2))
            && r@ == #[trigger] results_by_server(rows),
{
    let ghost src = outcomes@;
    let mut outcomes = outcomes;
    let mut rows: Vec<QueryServerResult> = Vec::new();
    let mut keys: Vec<String> = Vec::new();
    let n = outcomes.len();
    let mut k: usize = 0;
    assert(src.skip(0) =~= src);
    while k < n
        invariant
            n == src.len(),
            k <= n,
            outcomes@ == src.skip(k as int),
            rows@.len() == k,
            keys@.len() == k,
            forall|i: int| 0 <= i < k ==> query_row_holds(#[trigger] rows@[i], src[i].0@, src[i].1, src[i].2),
            forall|i: int| 0 <= i < k ==> #[trigger] keys@[i]@ == (query_server_key())(rows@[i]),
        decreases n - k,
    {
        let (name, outcome, ms) = outcomes.remove(0);
        assert(src.skip(k as int).drop_first() =~= src.skip(k + 1));
        let key = name.clone();
        rows.push(query_server_result(name, outcome, ms));
        keys.push(key);
        k += 1;
    }
    let ghost all_rows = rows@;
    let r = sort_by_keys(rows, keys, Ghost(query_server_key()));
    assert(r@ == results_by_server(all_rows));
    r
}

/// A server whose metadata loaded.
#[derive(Clone, Debug, PartialEq, Eq)]
pub struct LoadedServer {
    pub id: i64,
    pub name: String,
}

/// A server whose metadata could not be fetched, with the error.
#[derive(Clone, Debug, PartialEq, Eq)]
pub struct ServerError {
    pub server_id: i64,
    pub server: String,
    pub error: String,
}

/// The outcome of fetching the metadata of several servers.
#[derive(Clone, Debug, PartialEq, Eq)]
pub struct FetchServersResponse {
    pub loaded_servers: Vec<LoadedServer>,
    pub errors: Vec<ServerError>,
}

/// The name of a server id: the last pair that names it, as a map built from the pairs
/// in turn keeps.
pub open spec fn name_for(names: Seq<(i64, String)>, id: i64) -> Option<Seq<char>>
    decreases names.len(),
{
    if names.len() == 0 {
        None
    } else if names.last().0 == id {
        Some(names.last().1@)
    } else {
        name_for(names.drop_last(), id)
    }
}

fn name_for_exec(names: &Vec<(i64, String)>, id: i64) -> (r: Option<String>)
    ensures
        match r {
            Some(s) => name_for(names@, id) == Some(s@),
            None => name_for(names@, id) is None,
        },
{
    let mut i: usize = names.len();
    assert(names@.take(i as int) =~= names@);
    while i > 0
        invariant
            i <= names.len(),
            name_for(names@.take(i as int), id) == name_for(names@, id),
        decreases i,
    {
        assert(names@.take(i as int).drop_last() =~= names@.take(i - 1));
        if names[i - 1].0 == id {
            return Some(names[i - 1].1.clone());
        }
        i -= 1;
    }
    None
}

/// The servers that loaded and that have a name, in id order as given.
pub open spec fn loaded_rows(ids: Seq<i64>, names: Seq<(i64, String)>) -> Seq<(i64, Seq<char>)>
    decreases ids.len(),
{
    if ids.len() == 0 {
        Seq::empty()
    } else {
        let prev = loaded_rows(ids.drop_last(), names);
        match name_for(names, ids.last()) {
            Some(n) => prev.push((ids.last(), n)),
            None => prev,
        }
    }
}

pub open spec fn loaded_view(l: LoadedServer) -> (i64, Seq<char>) {
    (l.id, l.name@)
}

pub open spec fn loaded_key(l: LoadedServer) -> Seq<char> {
    l.name@
}

pub open spec fn error_key(e: ServerError) -> Seq<char> {
    e.server@
}

/// The error row of a server: its name, or empty when it has none.
pub open spec fn error_row_holds(e: ServerError, id: i64, error: Seq<char>, names: Seq<(i64, String)>) -> bool {
    &&& e.server_id == id
    &&& e.error@ == error
    &&& e.server@ == match name_for(names, id) { Some(n) => n, None => Seq::empty() }
}

/// Loaded servers ordered by name, equal names in their order.
pub open spec fn loaded_by_name(ls: Seq<LoadedServer>) -> Seq<LoadedServer> {
    sorted_by(ls, name_key())
}

pub open spec fn name_key() -> spec_fn(LoadedServer) -> Seq<char> {
    |l: LoadedServer| loaded_key(l)
}

/// Error rows ordered by server name, equal names in their order.
pub open spec fn errors_by_server(es: Seq<ServerError>) -> Seq<ServerError> {
    sorted_by(es, error_server_key())
}

pub open spec fn error_server_key() -> spec_fn(ServerError) -> Seq<char> {
    |e: ServerError| error_key(e)
}

/// The ids of the selected connections whose server was loaded, in selection order.
pub open spec fn loaded_ids_of(selected: Seq<ConnectionRecord>, servers: ServersData) -> Seq<i64>
    decreases selected.len(),
{
    if selected.len() == 0 {
        Seq::empty()
    } else {
        let prev = loaded_ids_of(selected.drop_last(), servers);
        if servers.has(selected.last().name@) { prev.push(selected.last().id) } else { prev }
    }
}

/// The error of each selected connection whose fetch failed, by id, in selection order.
pub open spec fn failed_rows_of(selected: Seq<ConnectionRecord>, errors: NameMap<String>) -> Seq<(i64, Seq<char>)>
    decreases selected.len(),
{
    if selected.len() == 0 {
        Seq::empty()
    } else {
        let prev = failed_rows_of(selected.drop_last(), errors);
        match errors.lookup(selected.last().name@) {
            Some(e) => prev.push((selected.last().id, e@)),
            None => prev,
        }
    }
}

/// The outcome of a fetch by connection id: the ids loaded and the errors of those that
/// failed, with each selected connection's name.
pub fn fetch_rows(
    selected: &Vec<ConnectionRecord>,
    servers: &ServersData,
    errors: &NameMap<String>,
) -> (r: (Vec<i64>, Vec<(i64, String)>, Vec<(i64, String)>))
    ensures
        r.0@ == loaded_ids_of(selected@, *servers),
        r.1@.map_values(|e: (i64, String)| (e.0, e.1@)) == failed_rows_of(selected@, *errors),
        r.2@.map_values(|e: (i64, String)| (e.0, e.1@)) == selected@.map_values(|c: ConnectionRecord| (c.id, c.name@)),
{
    let mut loaded: Vec<i64> = Vec::new();
    let mut failed: Vec<(i64, String)> = Vec::new();
    let mut names: Vec<(i64, String)> = Vec::new();
    let mut i: usize = 0;
    while i < selected.len()
        invariant
            i <= selected.len(),
            loaded@ == loaded_ids_of(selected@.take(i as int), *servers),
            failed@.map_values(|e: (i64, String)| (e.0, e.1@)) == failed_rows_of(selected@.take(i as int), *errors),
            names@.map_values(|e: (i64, String)| (e.0, e.1@))
                == selected@.take(i as int).map_values(|c: ConnectionRecord| (c.id, c.name@)),
        decreases selected.len() - i,
    {
        let c = &selected[i];
        assert(selected@.take(i + 1).drop_last() =~= selected@.take(i as int));
        assert(selected@.take(i + 1).last() == *c);
        if servers.contains_key(c.name.as_str()) {
            loaded.push(c.id);
        }
        let ghost before = failed@;
        if let Some(e) = errors.get(c.name.as_str()) {
            failed.push((c.id, e.clone()));
            assert(failed@.map_values(|e: (i64, String)| (e.0, e.1@))
                =~= before.map_values(|e: (i64, String)| (e.0, e.1@)).push((c.id, e@)));
        }
        let ghost nb = names@;
        names.push((c.id, c.name.clone()));
        assert(names@.map_values(|e: (i64, String)| (e.0, e.1@))
            =~= nb.map_values(|e: (i64, String)| (e.0, e.1@)).push((c.id, c.name@)));
        assert(selected@.take(i + 1).map_values(|c: ConnectionRecord| (c.id, c.name@))
            =~= selected@.take(i as int).map_values(|c: ConnectionRecord| (c.id, c.name@)).push((c.id, c.name@)));
        i += 1;
    }
    assert(selected@.take(selected.len() as int) =~= selected@);
    (loaded, failed, names)
}

/// Assembles the fetch outcome: the loaded servers that have a name, and the errors,
/// each list ordered by server name.
pub fn fetch_servers_response(
    loaded_ids: &Vec<i64>,
    errors: Vec<(i64, String)>,
    names: &Vec<(i64, String)>,
) -> (r: FetchServersResponse)
    ensures
        exists|ls: Seq<LoadedServer>|
            ls.map_values(|l: LoadedServer| loaded_view(l)) == loaded_rows(loaded_ids@, names@)
            && r.loaded_servers@ == #[trigger] loaded_by_name(ls),
        exists|es: Seq<ServerError>|
            es.len() == errors@.len()
            && (forall|i: int| 0 <= i < es.len() ==> error_row_holds(#[trigger] es[i], errors@[i].0, errors@[i].1@, names@))
            && r.errors@ == #[trigger] errors_by_server(es),
{
    let mut ls: Vec<LoadedServer> = Vec::new();
    let mut lkeys: Vec<String> = Vec::new();
    let mut i: usize = 0;
    while i < loaded_ids.len()
        invariant
            i <= loaded_ids.len(),
            ls@.map_values(|l: LoadedServer| loaded_view(l)) == loaded_rows(loaded_ids@.take(i as int), names@),
            lkeys@.len() == ls@.len(),
            forall|j: int| 0 <= j < ls@.len() ==> #[trigger] lkeys@[j]@ == loaded_key(ls@[j]),
        decreases loaded_ids.len() - i,
    {
        assert(loaded_ids@.take(i + 1).drop_last() =~= loaded_ids@.take(i as int));
        let id = loaded_ids[i];
        match name_for_exec(names, id) {
            Some(n) => {
                let ghost before = ls@;
                lkeys.push(n.clone());
                ls.push(LoadedServer { id, name: n });
                assert(ls@.map_values(|l: LoadedServer| loaded_view(l))
                    =~= before.map_values(|l: LoadedServer| loaded_view(l)).push((id, ls@.last().name@)));
            },
            None => {},
        }
        i += 1;
    }
    assert(loaded_ids@.take(loaded_ids.len() as int) =~= loaded_ids@);
    let ghost lsv = ls@;
    let loaded_servers = sort_by_keys(ls, lkeys, Ghost(name_key()));
    assert(loaded_servers@ == loaded_by_name(lsv));

    let ghost src = errors@;
    let mut errors = errors;
    let mut es: Vec<ServerError> = Vec::new();
    let mut ekeys: Vec<String> = Vec::new();
    let n = errors.len();
    let mut k: usize = 0;
    assert(src.skip(0) =~= src);
    while k < n
        invariant
            n == src.len(),
            k <= n,
            errors@ == src.skip(k as int),
            es@.len() == k,
            ekeys@.len() == k,
            forall|j: int| 0 <= j < k ==> error_row_holds(#[trigger] es@[j], src[j].0, src[j].1@, names@),
            forall|j: int| 0 <= j < k ==> #[trigger] ekeys@[j]@ == error_key(es@[j]),
        decreases n - k,
    {
        let (id, error) = errors.remove(0);
        assert(src.skip(k as int).drop_first() =~= src.skip(k + 1));
        let server = match name_for_exec(names, id) {
            Some(s) => s,
            None => String::new(),
        };
        ekeys.push(server.clone());
        es.push(ServerError { server_id: id, server, error });
        k += 1;
    }
    let ghost esv = es@;
    let sorted_errors = sort_by_keys(es, ekeys, Ghost(error_server_key()));
    assert(sorted_errors@ == errors_by_server(esv));
    assert(esv.len() == src.len());
    FetchServersResponse { loaded_servers, errors: sorted_errors }
}

// ───────────────────────── settings and connections ─────────────────────────

/// The settings shown in the settings dialog.
#[derive(Clone, Debug, PartialEq, Eq)]
pub struct AppSettings {
    pub output_folder: String,
    pub client_lib_dir: String,
    pub last_query_export_dir: String,
    pub schema_root_folder: String,
    pub ddl_file_encoding: String,
    pub ddl_file_extensions: Vec<(String, String)>,
    pub storage_modes: Vec<(String, String)>,
    pub naming_convention: String,
    pub code_folder_name: String,
    pub migration_folder_name: String,
    pub migration_folder_mode: String,
    pub migration_version_label: String,
    pub plsql_dev_path: String,
}

/// Whether saving the settings brought up the Oracle client.
#[derive(Clone, Debug, PartialEq, Eq)]
pub struct SaveSettingsResponse {
    pub oracle_client_initialized: bool,
}

/// A setting's value, or the default when it is not set.
pub open spec fn or_default(v: Option<Seq<char>>, d: Seq<char>) -> Seq<char> {
    match v {
        Some(x) => x,
        None => d,
    }
}

fn unwrap_or_empty(v: Option<String>) -> (r: String)
    ensures
        r@ == or_default(opt_view(v), Seq::empty()),
{
    match v {
        Some(x) => x,
        None => String::new(),
    }
}

fn unwrap_or_str(v: Option<String>, d: &str) -> (r: String)
    ensures
        r@ == or_default(opt_view(v), d@),
{
    match v {
        Some(x) => x,
        None => d.to_string(),
    }
}

/// The settings from a snapshot of the settings table, each unset one at its default:
/// `utf8` encoding, `timestamp` naming, `code` and `migration` folders, `year` folder
/// mode, empty otherwise; the client folder falls back to the environment's.
pub fn get_settings(settings: &NameMap<String>, env_client_lib_dir: Option<String>) -> (r: AppSettings)
    ensures
        r.output_folder@ == or_default(loaded_setting(*settings, "output_folder"@), Seq::empty()),
        r.client_lib_dir@ == or_default(match loaded_setting(*settings, "client_lib_dir"@) {
            Some(v) => Some(v),
            None => crate::settings::setting_value(opt_view(env_client_lib_dir)),
        }, Seq::empty()),
        r.last_query_export_dir@ == or_default(loaded_setting(*settings, "last_query_export_dir"@), Seq::empty()),
        r.schema_root_folder@ == or_default(loaded_setting(*settings, "schema_root_folder"@), Seq::empty()),
        r.ddl_file_encoding@ == or_default(loaded_setting(*settings, "ddl_file_encoding"@), "utf8"@),
        pair_views(r.ddl_file_extensions@) == merged(default_extensions(),
            stored_entries(loaded_setting(*settings, "ddl_file_extensions"@)), true),
        pair_views(r.storage_modes@) == merged(Seq::empty(),
            stored_entries(loaded_setting(*settings, "ddl_storage_modes"@)), false),
        r.naming_convention@ == or_default(loaded_setting(*settings, "ddl_naming_convention"@), "timestamp"@),
        r.code_folder_name@ == or_default(loaded_setting(*settings, "code_folder_name"@), "code"@),
        r.migration_folder_name@ == or_default(loaded_setting(*settings, "migration_folder_name"@), "migration"@),
        r.migration_folder_mode@ == or_default(loaded_setting(*settings, "migration_folder_mode"@), "year"@),
        r.migration_version_label@ == or_default(loaded_setting(*settings, "migration_version_label"@), Seq::empty()),
        r.plsql_dev_path@ == or_default(loaded_setting(*settings, "plsql_dev_path"@), Seq::empty()),
{
    AppSettings {
        output_folder: unwrap_or_empty(load_output_folder(settings)),
        client_lib_dir: unwrap_or_empty(load_client_lib_dir(settings, env_client_lib_dir)),
        last_query_export_dir: unwrap_or_empty(load_last_query_export_dir(settings)),
        schema_root_folder: unwrap_or_empty(load_schema_root_folder(settings)),
        ddl_file_encoding: unwrap_or_str(load_ddl_file_encoding(settings), "utf8"),
        ddl_file_extensions: load_ddl_extensions(settings),
        storage_modes: load_storage_modes(settings),
        naming_convention: unwrap_or_str(load_naming_convention(settings), "timestamp"),
        code_folder_name: unwrap_or_str(load_code_folder_name(settings), "code"),
        migration_folder_name: unwrap_or_str(load_migration_folder_name(settings), "migration"),
        migration_folder_mode: unwrap_or_str(load_migration_folder_mode(settings), "year"),
        migration_version_label: unwrap_or_empty(load_migration_version_label(settings)),
        plsql_dev_path: unwrap_or_empty(load_plsql_dev_path(settings)),
    }
}

/// A connection to save: new when no id is being edited.
#[derive(Clone, Debug, PartialEq, Eq)]
pub struct SaveConnectionRequest {
    pub editing_id: Option<i64>,
    pub connection: ConnectionRecord,
}

/// Saves a connection: inserts it when it is new, else updates the edited one.
pub fn save_connection<R: ConnectionRepository>(catalog: &ConnectionCatalogService<R>, payload: &SaveConnectionRequest) -> (r: Result<(), String>)
    ensures
        payload.editing_id is None ==> call_ensures(R::insert_connection, (&catalog.store(), &payload.connection), r),
        payload.editing_id matches Some(id) ==> call_ensures(R::update_connection, (&catalog.store(), id, &payload.connection), r),
{
    match payload.editing_id {
        None => catalog.insert_connection(&payload.connection),
        Some(id) => catalog.update_connection(id, &payload.connection),
    }
}

/// The `userid` argument that logs PL/SQL Developer into a connection, in the
/// EZConnect form the application uses itself.
pub open spec fn plsql_userid_of(c: ConnectionRecord) -> Seq<char> {
    "userid="@ + c.username@ + "/"@ + c.password@ + "@//"@ + c.host@ + ":"@ + crate::text::decimal(c.port as nat)
        + "/"@ + c.service_name@
}

pub fn plsql_userid(c: &ConnectionRecord) -> (r: String)
    ensures
        r@ == plsql_userid_of(*c),
{
    let mut out = String::new();
    out.append("userid=");
    out.append(c.username.as_str());
    out.append("/");
    out.append(c.password.as_str());
    out.append("@//");
    out.append(c.host.as_str());
    out.append(":");
    out.append(crate::text::decimal_exec(c.port as u64).as_str());
    out.append("/");
    out.append(c.service_name.as_str());
    out
}

/// The text settings a settings dialog saves, in the order they are written.
pub struct SettingsForm {
    pub output_folder: String,
    pub client_lib_dir: String,
    pub schema_root_folder: String,
    pub ddl_file_encoding: String,
    pub naming_convention: String,
    pub code_folder_name: String,
    pub migration_folder_name: String,
    pub migration_folder_mode: String,
    pub migration_version_label: String,
    pub plsql_dev_path: String,
}

pub open spec fn write_pairs(ws: Seq<SettingWrite>) -> Seq<(Seq<char>, Seq<char>)> {
    ws.map_values(|w: SettingWrite| (w.key@, w.value@))
}

/// The writes that saving the dialog's text settings makes: each value trimmed,
/// under its key.
pub open spec fn form_writes(f: SettingsForm) -> Seq<(Seq<char>, Seq<char>)> {
    seq![
        ("output_folder"@, trim(f.output_folder@)),
        ("client_lib_dir"@, trim(f.client_lib_dir@)),
        ("schema_root_folder"@, trim(f.schema_root_folder@)),
        ("ddl_file_encoding"@, trim(f.ddl_file_encoding@)),
        ("ddl_naming_convention"@, trim(f.naming_convention@)),
        ("code_folder_name"@, trim(f.code_folder_name@)),
        ("migration_folder_name"@, trim(f.migration_folder_name@)),
        ("migration_folder_mode"@, trim(f.migration_folder_mode@)),
        ("migration_version_label"@, trim(f.migration_version_label@)),
        ("plsql_dev_path"@, trim(f.plsql_dev_path@))
    ]
}

pub fn settings_writes(f: &SettingsForm) -> (r: Vec<SettingWrite>)
    ensures
        write_pairs(r@) == form_writes(*f),
{
    let r: Vec<SettingWrite> = vec![
        save_output_folder(trimmed(f.output_folder.as_str()).as_str()),
        save_client_lib_dir(trimmed(f.client_lib_dir.as_str()).as_str()),
        save_schema_root_folder(trimmed(f.schema_root_folder.as_str()).as_str()),
        save_ddl_file_encoding(trimmed(f.ddl_file_encoding.as_str()).as_str()),
        save_naming_convention(trimmed(f.naming_convention.as_str()).as_str()),
        save_code_folder_name(trimmed(f.code_folder_name.as_str()).as_str()),
        save_migration_folder_name(trimmed(f.migration_folder_name.as_str()).as_str()),
        save_migration_folder_mode(trimmed(f.migration_folder_mode.as_str()).as_str()),
        save_migration_version_label(trimmed(f.migration_version_label.as_str()).as_str()),
        save_plsql_dev_path(trimmed(f.plsql_dev_path.as_str()).as_str()),
    ];
    assert(write_pairs(r@) =~= form_writes(*f));
    r
}

} // verus!
