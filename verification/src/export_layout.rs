//! The layout of spreadsheet exports: which sheets, headers and cell texts a query
//! export or a discrepancy report holds. Writing the workbook, and telling numbers
//! from text in a cell, is left to the caller.
use vstd::prelude::*;
use vstd::string::StrSliceExecFns;
use vstd::utf8::encode_utf8;
use crate::models::{QueryServerResult, Discrepancy};
use crate::text::{texts, to_chars, slice_string, push_char};

verus! {

/// Excel's limit on the characters of one cell.
pub const EXCEL_CELL_LIMIT: usize = 32767;

/// A text cut to fit an Excel cell: kept when its UTF-8 form has at most 32,767 bytes,
/// else its first 32,767 characters (all of them when it has fewer).
pub open spec fn clipped(value: Seq<char>) -> Seq<char> {
    if encode_utf8(value).len() <= EXCEL_CELL_LIMIT || value.len() <= EXCEL_CELL_LIMIT {
        value
    } else {
        value.take(EXCEL_CELL_LIMIT as int)
    }
}

/// Clips a text so the workbook writer accepts it.
pub fn clip_for_excel(value: &str) -> (r: String)
    ensures
        r@ == clipped(value@),
{
    if value.as_bytes_vec().len() <= EXCEL_CELL_LIMIT {
        value.to_string()
    } else {
        let v = to_chars(value);
        if v.len() <= EXCEL_CELL_LIMIT {
            value.to_string()
        } else {
            slice_string(&v, 0, EXCEL_CELL_LIMIT)
        }
    }
}

/// One worksheet: its tab name, header row, data rows (cell texts, row `i` on sheet
/// row `i + 1`) and the autofilter's last row and column, when there are data rows.
pub struct SheetLayout {
    pub name: String,
    pub header: Vec<String>,
    pub rows: Vec<Vec<String>>,
    pub filter: Option<(u32, u16)>,
}

/// The text of a result cell: empty for NULL.
pub open spec fn cell_text(c: Option<String>) -> Seq<char> {
    match c {
        Some(s) => s@,
        None => Seq::empty(),
    }
}

pub open spec fn row_texts(row: Seq<Option<String>>) -> Seq<Seq<char>> {
    row.map_values(|c: Option<String>| cell_text(c))
}

/// The data rows of a layout as texts.
pub open spec fn layout_rows(rows: Seq<Vec<String>>) -> Seq<Seq<Seq<char>>> {
    rows.map_values(|r: Vec<String>| texts(r@))
}

/// A tab name: the first 31 characters of the server name.
pub open spec fn sheet_name(server: Seq<char>) -> Seq<char> {
    if server.len() > 31 { server.take(31) } else { server }
}

/// The sheet of one server's results: its columns as header, its rows below.
pub open spec fn server_sheet_holds(l: SheetLayout, r: QueryServerResult) -> bool {
    &&& l.name@ == sheet_name(r.server_name@)
    &&& texts(l.header@) == texts(r.columns@)
    &&& layout_rows(l.rows@) == r.rows@.map_values(|row: Vec<Option<String>>| row_texts(row@))
    &&& l.filter == if r.rows@.len() > 0 {
        Some(((r.rows@.len()) as u32, ((r.columns@.len() - 1) as u16)))
    } else {
        None::<(u32, u16)>
    }
}

/// The positions of the results that have columns, in order.
pub open spec fn with_columns(results: Seq<QueryServerResult>) -> Seq<int>
    decreases results.len(),
{
    if results.len() == 0 {
        Seq::empty()
    } else {
        let prev = with_columns(results.drop_last());
        if results.last().columns@.len() > 0 { prev.push(results.len() - 1) } else { prev }
    }
}

fn cell_texts(row: &Vec<Option<String>>) -> (r: Vec<String>)
    ensures
        texts(r@) == row_texts(row@),
{
    let mut out: Vec<String> = Vec::new();
    let mut i: usize = 0;
    while i < row.len()
        invariant
            i <= row.len(),
            texts(out@) == row_texts(row@).take(i as int),
        decreases row.len() - i,
    {
        let t = match &row[i] {
            Some(s) => s.clone(),
            None => String::new(),
        };
        let ghost before = out@;
        out.push(t);
        assert(texts(out@) =~= row_texts(row@).take(i + 1)) by {
            assert(texts(out@) =~= texts(before).push(t@));
        }
        i += 1;
    }
    assert(row_texts(row@).take(row.len() as int) =~= row_texts(row@));
    out
}

fn copy_texts(v: &Vec<String>) -> (r: Vec<String>)
    ensures
        texts(r@) == texts(v@),
{
    let mut out: Vec<String> = Vec::new();
    let mut i: usize = 0;
    while i < v.len()
        invariant
            i <= v.len(),
            texts(out@) == texts(v@).take(i as int),
        decreases v.len() - i,
    {
        let ghost before = out@;
        out.push(v[i].clone());
        assert(texts(out@) =~= texts(v@).take(i + 1)) by {
            assert(texts(out@) =~= texts(before).push(v@[i as int]@));
        }
        i += 1;
    }
    assert(texts(v@).take(v.len() as int) =~= texts(v@));
    out
}

fn server_sheet(r: &QueryServerResult) -> (l: SheetLayout)
    requires
        r.columns@.len() > 0,
    ensures
        server_sheet_holds(l, *r),
{
    let v = to_chars(r.server_name.as_str());
    let name = if v.len() > 31 { slice_string(&v, 0, 31) } else { r.server_name.clone() };
    assert(v.len() > 31 ==> v@.subrange(0, 31) =~= r.server_name@.take(31));
    let header = copy_texts(&r.columns);
    let mut rows: Vec<Vec<String>> = Vec::new();
    let mut i: usize = 0;
    let ghost want = r.rows@.map_values(|row: Vec<Option<String>>| row_texts(row@));
    while i < r.rows.len()
        invariant
            i <= r.rows.len(),
            want == r.rows@.map_values(|row: Vec<Option<String>>| row_texts(row@)),
            layout_rows(rows@) == want.take(i as int),
        decreases r.rows.len() - i,
    {
        let ghost before = rows@;
        let t = cell_texts(&r.rows[i]);
        rows.push(t);
        assert(layout_rows(rows@) =~= want.take(i + 1)) by {
            assert(layout_rows(rows@) =~= layout_rows(before).push(texts(t@)));
        }
        i += 1;
    }
    assert(want.take(r.rows.len() as int) =~= want);
    let filter = if r.rows.len() > 0 {
        Some((r.rows.len() as u32, (r.columns.len() - 1) as u16))
    } else {
        None
    };
    SheetLayout { name, header, rows, filter }
}

/// One sheet per server that returned columns, in order, each named after its server.
pub fn per_server_layout(results: &Vec<QueryServerResult>) -> (r: Vec<SheetLayout>)
    ensures
        r@.len() == with_columns(results@).len(),
        forall|k: int| 0 <= k < r@.len() ==> server_sheet_holds(#[trigger] r@[k], results@[with_columns(results@)[k]]),
{
    let mut out: Vec<SheetLayout> = Vec::new();
    let mut i: usize = 0;
    while i < results.len()
        invariant
            i <= results.len(),
            out@.len() == with_columns(results@.take(i as int)).len(),
            forall|k: int| 0 <= k < out@.len() ==> {
                &&& 0 <= #[trigger] with_columns(results@.take(i as int))[k] < i
                &&& server_sheet_holds(out@[k], results@[with_columns(results@.take(i as int))[k]])
            },
        decreases results.len() - i,
    {
        let ghost pre = results@.take(i as int);
        let ghost next = results@.take(i + 1);
        assert(next.drop_last() =~= pre);
        assert(next.last() == results@[i as int]);
        let ghost old_out = out@;
        if results[i].columns.len() > 0 {
            out.push(server_sheet(&results[i]));
            assert forall|k: int| 0 <= k < out@.len() implies {
                &&& 0 <= #[trigger] with_columns(next)[k] < i + 1
                &&& server_sheet_holds(out@[k], results@[with_columns(next)[k]])
            } by {
                if k < old_out.len() {
                    assert(with_columns(next)[k] == with_columns(pre)[k]);
                    assert(out@[k] == old_out[k]);
                } else {
                    assert(with_columns(next)[k] == i);
                }
            }
        }
        i += 1;
    }
    assert(results@.take(results.len() as int) =~= results@);
    out
}

/// The rows of a combined sheet: for each server that returned columns, each of its
/// rows led by the server's name.
pub open spec fn combined_rows(results: Seq<QueryServerResult>) -> Seq<Seq<Seq<char>>>
    decreases results.len(),
{
    if results.len() == 0 {
        Seq::empty()
    } else {
        let r = results.last();
        combined_rows(results.drop_last()) + if r.columns@.len() > 0 {
            r.rows@.map_values(|row: Vec<Option<String>>| seq![r.server_name@] + row_texts(row@))
        } else {
            Seq::empty()
        }
    }
}

/// The single sheet of all servers: `All Servers`, a `Server` column before the columns
/// of the first server that returned any, and every server's rows; none when no server
/// returned columns.
pub open spec fn single_sheet_holds(l: SheetLayout, results: Seq<QueryServerResult>) -> bool {
    let ws = with_columns(results);
    let base = results[ws[0]].columns@;
    let rows = combined_rows(results);
    &&& ws.len() > 0
    &&& l.name@ == "All Servers"@
    &&& texts(l.header@) == seq!["Server"@] + texts(base)
    &&& layout_rows(l.rows@) == rows
    &&& l.filter == if rows.len() > 0 { Some(((rows.len()) as u32, (base.len()) as u16)) } else { None::<(u32, u16)> }
}

proof fn lemma_with_columns_first(results: Seq<QueryServerResult>, i: int)
    requires
        0 <= i <= results.len(),
        forall|j: int| 0 <= j < i ==> (#[trigger] results[j]).columns@.len() == 0,
    ensures
        with_columns(results.take(i)).len() == 0,
    decreases i,
{
    if i > 0 {
        assert(results.take(i).drop_last() =~= results.take(i - 1));
        lemma_with_columns_first(results, i - 1);
    }
}

proof fn lemma_with_columns_prefix(results: Seq<QueryServerResult>, i: int, n: int)
    requires
        0 <= i <= n <= results.len(),
        with_columns(results.take(i)).len() > 0,
    ensures
        with_columns(results.take(n)).len() > 0,
        with_columns(results.take(n))[0] == with_columns(results.take(i))[0],
    decreases n - i,
{
    if n > i {
        lemma_with_columns_prefix(results, i, n - 1);
        assert(results.take(n).drop_last() =~= results.take(n - 1));
    }
}

/// Lays every server's rows out on one sheet; none when no server returned columns.
pub fn single_sheet_layout(results: &Vec<QueryServerResult>) -> (r: Option<SheetLayout>)
    requires
        combined_rows(results@).len() < u32::MAX,
    ensures
        match r {
            Some(l) => single_sheet_holds(l, results@),
            None => with_columns(results@).len() == 0,
        },
{
    let mut first: usize = 0;
    while first < results.len() && results[first].columns.len() == 0
        invariant
            first <= results.len(),
            forall|j: int| 0 <= j < first ==> (#[trigger] results@[j]).columns@.len() == 0,
        decreases results.len() - first,
    {
        first += 1;
    }
    proof {
        lemma_with_columns_first(results@, first as int);
    }
    if first == results.len() {
        assert(results@.take(results.len() as int) =~= results@);
        return None;
    }
    proof {
        let t = results@.take(first + 1);
        assert(t.drop_last() =~= results@.take(first as int));
        assert(t.last() == results@[first as int]);
        assert(with_columns(t) == seq![first as int]);
        lemma_with_columns_prefix(results@, first + 1, results.len() as int);
        assert(results@.take(results.len() as int) =~= results@);
    }
    let base = &results[first].columns;
    let mut header: Vec<String> = Vec::new();
    header.push("Server".to_string());
    let rest = copy_texts(base);
    let mut j: usize = 0;
    let ghost head = texts(header@);
    while j < rest.len()
        invariant
            j <= rest.len(),
            texts(header@) == head + texts(rest@).take(j as int),
        decreases rest.len() - j,
    {
        let ghost before = header@;
        header.push(rest[j].clone());
        assert(texts(header@) =~= head + texts(rest@).take(j + 1)) by {
            assert(texts(header@) =~= texts(before).push(rest@[j as int]@));
        }
        j += 1;
    }
    assert(texts(rest@).take(rest.len() as int) =~= texts(rest@));
    assert(head == seq!["Server"@]);
    let mut rows: Vec<Vec<String>> = Vec::new();
    let mut i: usize = 0;
    while i < results.len()
        invariant
            i <= results.len(),
            combined_rows(results@).len() < u32::MAX,
            layout_rows(rows@) == combined_rows(results@.take(i as int)),
        decreases results.len() - i,
    {
        let ghost pre = results@.take(i as int);
        assert(results@.take(i + 1).drop_last() =~= pre);
        let r = &results[i];
        let ghost block = r.rows@.map_values(|row: Vec<Option<String>>| seq![r.server_name@] + row_texts(row@));
        if r.columns.len() > 0 {
            let ghost start = layout_rows(rows@);
            let mut k: usize = 0;
            while k < r.rows.len()
                invariant
                    k <= r.rows.len(),
                    block == r.rows@.map_values(|row: Vec<Option<String>>| seq![r.server_name@] + row_texts(row@)),
                    layout_rows(rows@) == start + block.take(k as int),
                decreases r.rows.len() - k,
            {
                let mut line: Vec<String> = Vec::new();
                line.push(r.server_name.clone());
                let cells = cell_texts(&r.rows[k]);
                let mut c: usize = 0;
                let ghost lead = texts(line@);
                while c < cells.len()
                    invariant
                        c <= cells.len(),
                        texts(line@) == lead + texts(cells@).take(c as int),
                    decreases cells.len() - c,
                {
                    let ghost before = line@;
                    line.push(cells[c].clone());
                    assert(texts(line@) =~= lead + texts(cells@).take(c + 1)) by {
                        assert(texts(line@) =~= texts(before).push(cells@[c as int]@));
                    }
                    c += 1;
                }
                assert(texts(cells@).take(cells.len() as int) =~= texts(cells@));
                assert(lead == seq![r.server_name@]);
                let ghost before_rows = rows@;
                rows.push(line);
                assert(layout_rows(rows@) =~= start + block.take(k + 1)) by {
                    assert(layout_rows(rows@) =~= layout_rows(before_rows).push(texts(line@)));
                }
                k += 1;
            }
            assert(block.take(r.rows.len() as int) =~= block);
        } else {
            assert(combined_rows(results@.take(i + 1)) =~= combined_rows(pre));
        }
        i += 1;
    }
    assert(results@.take(results.len() as int) =~= results@);
    let n = rows.len();
    let filter = if n > 0 { Some((n as u32, base.len() as u16)) } else { None };
    Some(SheetLayout { name: "All Servers".to_string(), header, rows, filter })
}

// ───────────────────────── discrepancy report ─────────────────────────

/// How a report row's difference cell is highlighted.
#[derive(Clone, Copy, Debug, PartialEq, Eq, Structural)]
pub enum ReportStyle {
    /// A missing object, in the "bad" style.
    Bad,
    /// A differing property, in the "neutral" style.
    Neutral,
    /// Left plain.
    Plain,
}

/// The highlight of a difference: `MISSING` is bad, `DIFFERENT` neutral.
pub fn report_style(difference: &str) -> (r: ReportStyle)
    ensures
        r == (if difference@ == "MISSING"@ {
            ReportStyle::Bad
        } else if difference@ == "DIFFERENT"@ {
            ReportStyle::Neutral
        } else {
            ReportStyle::Plain
        }),
{
    if crate::text::same_text(difference, "MISSING") {
        ReportStyle::Bad
    } else if crate::text::same_text(difference, "DIFFERENT") {
        ReportStyle::Neutral
    } else {
        ReportStyle::Plain
    }
}

/// The columns of a discrepancy report.
pub open spec fn report_header() -> Seq<Seq<char>> {
    seq!["DIFFERENCE"@, "TABLE_NAME"@, "COLUMN_NAME"@, "SERVER_NAME"@, "DETAILS"@]
}

/// The cells of a discrepancy's report row, in column order.
pub open spec fn report_cells(d: Discrepancy) -> Seq<Seq<char>> {
    seq![d.difference@, d.table_name@, d.column_name@, d.server_name@, d.details@]
}

pub fn report_header_row() -> (r: Vec<String>)
    ensures
        texts(r@) == report_header(),
{
    let r: Vec<String> = vec![
        "DIFFERENCE".to_string(), "TABLE_NAME".to_string(), "COLUMN_NAME".to_string(),
        "SERVER_NAME".to_string(), "DETAILS".to_string(),
    ];
    assert(texts(r@) =~= report_header());
    r
}

/// The report row of a discrepancy.
pub fn report_row(d: &Discrepancy) -> (r: Vec<String>)
    ensures
        texts(r@) == report_cells(*d),
{
    let r: Vec<String> = vec![
        d.difference.clone(), d.table_name.clone(), d.column_name.clone(), d.server_name.clone(), d.details.clone(),
    ];
    assert(texts(r@) =~= report_cells(*d));
    r
}


// ───────────────────────── CSV report ─────────────────────────

/// A field is quoted when it holds the separator, a quote or a line break.
pub open spec fn needs_quotes(f: Seq<char>) -> bool {
    f.contains(';') || f.contains('"') || f.contains('\n') || f.contains('\r')
}

/// The field with every quote doubled.
pub open spec fn doubled_quotes(f: Seq<char>) -> Seq<char>
    decreases f.len(),
{
    if f.len() == 0 {
        Seq::empty()
    } else if f.last() == '"' {
        doubled_quotes(f.drop_last()) + seq!['"', '"']
    } else {
        doubled_quotes(f.drop_last()).push(f.last())
    }
}

/// One CSV field: as it is, or quoted with its quotes doubled when it needs quotes.
pub open spec fn csv_field(f: Seq<char>) -> Seq<char> {
    if needs_quotes(f) {
        seq!['"'] + doubled_quotes(f) + seq!['"']
    } else {
        f
    }
}

/// The fields of a record joined by `;`.
pub open spec fn csv_joined(fs: Seq<Seq<char>>) -> Seq<char>
    decreases fs.len(),
{
    if fs.len() == 0 {
        Seq::empty()
    } else if fs.len() == 1 {
        csv_field(fs[0])
    } else {
        csv_joined(fs.drop_last()) + seq![';'] + csv_field(fs.last())
    }
}

/// One CSV record with its line end.
pub open spec fn csv_record(fs: Seq<Seq<char>>) -> Seq<char> {
    csv_joined(fs).push('\n')
}

/// The CSV report: the header record, then one record per discrepancy in order.
pub open spec fn report_csv_text(ds: Seq<Discrepancy>) -> Seq<char>
    decreases ds.len(),
{
    if ds.len() == 0 {
        csv_record(report_header())
    } else {
        report_csv_text(ds.drop_last()) + csv_record(report_cells(ds.last()))
    }
}

fn csv_field_exec(f: &str) -> (r: String)
    ensures
        r@ == csv_field(f@),
{
    let quote = crate::text::str_contains_char(f, ';') || crate::text::str_contains_char(f, '"')
        || crate::text::str_contains_char(f, '\n') || crate::text::str_contains_char(f, '\r');
    if !quote {
        return f.to_string();
    }
    let v = to_chars(f);
    let mut out = String::new();
    push_char(&mut out, '"');
    let mut i: usize = 0;
    while i < v.len()
        invariant
            i <= v.len(),
            v@ == f@,
            out@ == seq!['"'] + doubled_quotes(v@.take(i as int)),
        decreases v.len() - i,
    {
        assert(v@.take(i + 1).drop_last() =~= v@.take(i as int));
        push_char(&mut out, v[i]);
        if v[i] == '"' {
            push_char(&mut out, '"');
        }
        assert(out@ =~= seq!['"'] + doubled_quotes(v@.take(i + 1)));
        i += 1;
    }
    assert(v@.take(v.len() as int) =~= f@);
    push_char(&mut out, '"');
    out
}

fn append_record(out: &mut String, fields: &Vec<String>)
    ensures
        final(out)@ == old(out)@ + csv_record(texts(fields@)),
{
    let mut i: usize = 0;
    while i < fields.len()
        invariant
            i <= fields.len(),
            out@ == old(out)@ + csv_joined(texts(fields@).take(i as int)),
        decreases fields.len() - i,
    {
        let ghost before = out@;
        let ghost fs = texts(fields@).take(i + 1);
        assert(fs.drop_last() =~= texts(fields@).take(i as int));
        if i > 0 {
            push_char(out, ';');
        } else {
            assert(texts(fields@).take(0) =~= Seq::<Seq<char>>::empty());
        }
        let f = csv_field_exec(fields[i].as_str());
        out.append(f.as_str());
        assert(out@ =~= old(out)@ + csv_joined(fs));
        i += 1;
    }
    assert(texts(fields@).take(fields.len() as int) =~= texts(fields@));
    push_char(out, '\n');
}

/// The discrepancy report as `;`-separated CSV with a header record.
pub fn report_csv(discrepancies: &[Discrepancy]) -> (r: String)
    ensures
        r@ == report_csv_text(discrepancies@),
{
    let mut out = String::new();
    append_record(&mut out, &report_header_row());
    assert(out@ =~= report_csv_text(discrepancies@.take(0)));
    let mut i: usize = 0;
    while i < discrepancies.len()
        invariant
            i <= discrepancies.len(),
            out@ == report_csv_text(discrepancies@.take(i as int)),
        decreases discrepancies.len() - i,
    {
        assert(discrepancies@.take(i + 1).drop_last() =~= discrepancies@.take(i as int));
        append_record(&mut out, &report_row(&discrepancies[i]));
        i += 1;
    }
    assert(discrepancies@.take(discrepancies.len() as int) =~= discrepancies@);
    out
}

/// A quoted field's content read back: every doubled quote stands for one quote.
pub open spec fn undoubled_quotes(s: Seq<char>) -> Seq<char>
    decreases s.len(),
{
    if s.len() == 0 {
        Seq::empty()
    } else if s.len() >= 2 && s[0] == '"' && s[1] == '"' {
        seq!['"'] + undoubled_quotes(s.skip(2))
    } else {
        seq![s[0]] + undoubled_quotes(s.skip(1))
    }
}

proof fn lemma_doubled_quotes_concat(a: Seq<char>, b: Seq<char>)
    ensures
        doubled_quotes(a + b) == doubled_quotes(a) + doubled_quotes(b),
    decreases b.len(),
{
    if b.len() == 0 {
        assert(a + b =~= a);
        assert(doubled_quotes(a) + doubled_quotes(b) =~= doubled_quotes(a));
    } else {
        assert((a + b).drop_last() =~= a + b.drop_last());
        assert((a + b).last() == b.last());
        lemma_doubled_quotes_concat(a, b.drop_last());
        if b.last() == '"' {
            assert(doubled_quotes(a + b) =~= doubled_quotes(a) + doubled_quotes(b));
        } else {
            assert(doubled_quotes(a + b) =~= doubled_quotes(a) + doubled_quotes(b));
        }
    }
}

proof fn lemma_undoubled_round_trip(f: Seq<char>)
    ensures
        undoubled_quotes(doubled_quotes(f)) == f,
    decreases f.len(),
{
    if f.len() > 0 {
        let c = f[0];
        let rest = f.skip(1);
        assert(f =~= seq![c] + rest);
        lemma_doubled_quotes_concat(seq![c], rest);
        assert(seq![c].drop_last() =~= Seq::<char>::empty());
        assert(doubled_quotes(Seq::<char>::empty()) == Seq::<char>::empty());
        assert(seq![c].last() == c);
        let d = doubled_quotes(f);
        lemma_undoubled_round_trip(rest);
        if c == '"' {
            assert(doubled_quotes(seq![c]) =~= seq!['"', '"']);
            assert(d.skip(2) =~= doubled_quotes(rest));
            assert(undoubled_quotes(d) =~= seq!['"'] + undoubled_quotes(doubled_quotes(rest)));
        } else {
            assert(doubled_quotes(seq![c]) =~= seq![c]);
            assert(d[0] == c);
            assert(d.skip(1) =~= doubled_quotes(rest));
            assert(undoubled_quotes(d) =~= seq![c] + undoubled_quotes(doubled_quotes(rest)));
        }
        assert(undoubled_quotes(d) =~= f);
    } else {
        assert(undoubled_quotes(doubled_quotes(f)) =~= f);
    }
}

/// A field written to the CSV report reads back as itself: a field that holds the
/// separator, a quote or a line break is written between quotes with every quote
/// inside doubled, so undoubling what lies between the quotes gives the field; any
/// other field is written as it is.
pub proof fn csv_field_reads_back(f: Seq<char>)
    ensures
        (f.contains(';') || f.contains('"') || f.contains('\n') || f.contains('\r'))
            ==> csv_field(f) == seq!['"'] + doubled_quotes(f) + seq!['"'] && undoubled_quotes(doubled_quotes(f)) == f,
        !(f.contains(';') || f.contains('"') || f.contains('\n') || f.contains('\r')) ==> csv_field(f) == f,
{
    lemma_undoubled_round_trip(f);
}

} // verus!
