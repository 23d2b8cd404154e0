//! Oracle DDL as the exporter writes it: a table rendered from catalog metadata in
//! the PL/SQL Developer layout, DBMS_METADATA output cleaned up, and raw DDL wrapped
//! into idempotent deploy blocks.
use vstd::prelude::*;
use crate::models::opt_view;
use vstd::utf8::{valid_utf8, decode_utf8};
use crate::text::{
    upper, lower, trim, trim_end, eq_ci, replace_char, join, starts_with, ends_with, int_decimal, unicode_lower,
    unicode_upper, spaces, texts, lines, push_char, push_spaces, to_chars, trimmed, replace_char_exec, eq_ignore_case,
    join_exec, to_lowercase, to_uppercase, i64_decimal, same_text, utf8_text,
};

verus! {

// ───────────────────────── value cleaning ─────────────────────────

/// The Oracle repository; it owns the cleaning of fetched catalog values.
pub struct DbOracleRepository;

/// A fetched value with line feeds removed and trimmed; none when that leaves nothing
/// or the word `null` in any ASCII case.
pub open spec fn cleaned_value(o: Option<Seq<char>>) -> Option<Seq<char>> {
    match o {
        None => None,
        Some(v) => {
            let c = trim(replace_char(v, '\n', Seq::empty()));
            if c.len() == 0 || eq_ci(c, "null"@) { None } else { Some(c) }
        },
    }
}

impl DbOracleRepository {
    pub fn new() -> Self {
        DbOracleRepository
    }

    /// A fetched value with line feeds removed and trimmed; none when that leaves
    /// nothing or reads `null` ignoring ASCII case.
    pub fn clean_opt(value: Option<String>) -> (r: Option<String>)
        ensures
            opt_view(r) == cleaned_value(opt_view(value)),
    {
        match value {
            None => None,
            Some(v) => {
                let joined = replace_char_exec(v.as_str(), '\n', "");
                proof { reveal_strlit(""); }
                assert(""@ =~= Seq::<char>::empty());
                let c = trimmed(joined.as_str());
                if c.as_str().is_empty() || eq_ignore_case(c.as_str(), "null") {
                    None
                } else {
                    Some(c)
                }
            },
        }
    }
}

// ───────────────────────── column types ─────────────────────────

/// A type with its length in parentheses for `NUMBER`, `VARCHAR2` and `NVARCHAR2`
/// when the trimmed length is neither empty nor `0`; any other type as it is.
pub open spec fn fmt_type_spec(data_type: Seq<char>, data_length: Option<Seq<char>>) -> Seq<char> {
    if data_type == "NUMBER"@ || data_type == "VARCHAR2"@ || data_type == "NVARCHAR2"@ {
        match data_length {
            Some(l) => if trim(l).len() > 0 && trim(l) != "0"@ {
                data_type + seq!['('] + trim(l) + seq![')']
            } else {
                data_type
            },
            None => data_type,
        }
    } else {
        data_type
    }
}

/// A type with its length, as the history comparison prints it.
pub fn fmt_type(data_type: &str, data_length: Option<&str>) -> (r: String)
    ensures
        r@ == fmt_type_spec(data_type@, match data_length { Some(l) => Some(l@), None => None }),
{
    if same_text(data_type, "NUMBER") || same_text(data_type, "VARCHAR2") || same_text(data_type, "NVARCHAR2") {
        if let Some(len) = data_length {
            let t = trimmed(len);
            if !t.as_str().is_empty() && !same_text(t.as_str(), "0") {
                let mut r = data_type.to_string();
                push_char(&mut r, '(');
                r.append(t.as_str());
                push_char(&mut r, ')');
                return r;
            }
        }
        data_type.to_string()
    } else {
        data_type.to_string()
    }
}

/// `TYPE(n)` for an optional number.
pub open spec fn with_len(t: Seq<char>, n: Option<i64>) -> Seq<char> {
    match n {
        Some(l) => t + seq!['('] + int_decimal(l as int) + seq![')'],
        None => t,
    }
}

/// A column type as PL/SQL Developer prints it: `NUMBER(p)` (zero scale dropped),
/// `NUMBER(p,s)`, `NUMBER(*,s)`, bare `NUMBER`; character types with their byte length,
/// or their character length and `CHAR` when measured in characters; `RAW(n)`;
/// any other type as stored.
pub open spec fn column_type_spec(
    data_type: Seq<char>,
    data_length: Option<i64>,
    data_precision: Option<i64>,
    data_scale: Option<i64>,
    char_length: Option<i64>,
    char_used: Option<Seq<char>>,
) -> Seq<char> {
    let dt = unicode_upper(data_type);
    if dt == "NUMBER"@ {
        match (data_precision, data_scale) {
            (Some(p), Some(s)) if s > 0 => "NUMBER("@ + int_decimal(p as int) + seq![','] + int_decimal(s as int) + seq![')'],
            (Some(p), _) => "NUMBER("@ + int_decimal(p as int) + seq![')'],
            (None, Some(s)) if s > 0 => "NUMBER(*,"@ + int_decimal(s as int) + seq![')'],
            _ => "NUMBER"@,
        }
    } else if dt == "VARCHAR2"@ || dt == "VARCHAR"@ || dt == "CHAR"@ || dt == "NVARCHAR2"@ || dt == "NCHAR"@ {
        if char_used == Some("C"@) {
            match char_length {
                Some(l) => dt + seq!['('] + int_decimal(l as int) + " CHAR)"@,
                None => dt,
            }
        } else {
            with_len(dt, data_length)
        }
    } else if dt == "RAW"@ {
        with_len("RAW"@, data_length)
    } else {
        data_type
    }
}

/// How a column's type is written, whatever the case of the stored type name:
/// `RAW` and the byte-measured character types carry their length in parentheses,
/// character types measured in characters carry `n CHAR`, and `NUMBER` carries its
/// precision and a positive scale.
pub proof fn column_type_carries_its_size(
    data_type: Seq<char>,
    data_length: Option<i64>,
    data_precision: Option<i64>,
    data_scale: Option<i64>,
    char_length: Option<i64>,
    char_used: Option<Seq<char>>,
)
    ensures
        unicode_upper(data_type) == "RAW"@ && data_length is Some ==> column_type_spec(data_type,
            data_length, data_precision, data_scale, char_length, char_used)
                == "RAW("@ + int_decimal(data_length.unwrap() as int) + ")"@,
        unicode_upper(data_type) == "RAW"@ && data_length is None ==> column_type_spec(data_type,
            data_length, data_precision, data_scale, char_length, char_used) == "RAW"@,
        (unicode_upper(data_type) == "VARCHAR2"@ || unicode_upper(data_type) == "CHAR"@
            || unicode_upper(data_type) == "NVARCHAR2"@ || unicode_upper(data_type) == "NCHAR"@
            || unicode_upper(data_type) == "VARCHAR"@) && char_used != Some("C"@) && data_length is Some
            ==> column_type_spec(data_type, data_length, data_precision, data_scale, char_length, char_used)
                == unicode_upper(data_type) + "("@ + int_decimal(data_length.unwrap() as int) + ")"@,
        (unicode_upper(data_type) == "VARCHAR2"@ || unicode_upper(data_type) == "CHAR"@
            || unicode_upper(data_type) == "NVARCHAR2"@ || unicode_upper(data_type) == "NCHAR"@
            || unicode_upper(data_type) == "VARCHAR"@) && char_used == Some("C"@) && char_length is Some
            ==> column_type_spec(data_type, data_length, data_precision, data_scale, char_length, char_used)
                == unicode_upper(data_type) + "("@ + int_decimal(char_length.unwrap() as int) + " CHAR)"@,
        unicode_upper(data_type) == "NUMBER"@ && data_precision is Some && data_scale is Some
            && data_scale.unwrap() > 0
            ==> column_type_spec(data_type, data_length, data_precision, data_scale, char_length, char_used)
                == "NUMBER("@ + int_decimal(data_precision.unwrap() as int) + ","@
                    + int_decimal(data_scale.unwrap() as int) + ")"@,
        unicode_upper(data_type) == "NUMBER"@ && data_precision is Some
            && !(data_scale is Some && data_scale.unwrap() > 0)
            ==> column_type_spec(data_type, data_length, data_precision, data_scale, char_length, char_used)
                == "NUMBER("@ + int_decimal(data_precision.unwrap() as int) + ")"@,
{
    reveal_strlit("RAW(");
    reveal_strlit("NUMBER");
    reveal_strlit("VARCHAR2");
    reveal_strlit("VARCHAR");
    reveal_strlit("CHAR");
    reveal_strlit("NVARCHAR2");
    reveal_strlit("NCHAR");
    reveal_strlit("RAW");
    reveal_strlit(")");
    reveal_strlit(",");
    reveal_strlit("NUMBER(");
    assert(seq![','] =~= ","@);
    assert(seq![')'] =~= ")"@);
    assert(forall|t: Seq<char>| #![auto] t + seq!['('] =~= t + "("@) by {
        reveal_strlit("(");
    }
    assert("RAW"@ + seq!['('] =~= "RAW("@);
}

fn append_len(r: &mut String, n: i64)
    ensures
        final(r)@ == old(r)@ + seq!['('] + int_decimal(n as int) + seq![')'],
{
    push_char(r, '(');
    let d = i64_decimal(n);
    r.append(d.as_str());
    push_char(r, ')');
}

/// A column type as PL/SQL Developer prints it.
pub fn format_column_type(
    data_type: &str,
    data_length: Option<i64>,
    data_precision: Option<i64>,
    data_scale: Option<i64>,
    char_length: Option<i64>,
    char_used: Option<&str>,
) -> (r: String)
    ensures
        r@ == column_type_spec(data_type@, data_length, data_precision, data_scale, char_length,
            match char_used { Some(c) => Some(c@), None => None }),
{
    let dt = to_uppercase(data_type);
    if same_text(dt.as_str(), "NUMBER") {
        match (data_precision, data_scale) {
            (Some(p), Some(s)) if s > 0 => {
                let mut r = "NUMBER(".to_string();
                let pd = i64_decimal(p);
                r.append(pd.as_str());
                push_char(&mut r, ',');
                let sd = i64_decimal(s);
                r.append(sd.as_str());
                push_char(&mut r, ')');
                assert(r@ =~= "NUMBER("@ + int_decimal(p as int) + seq![','] + int_decimal(s as int) + seq![')']);
                r
            },
            (Some(p), _) => {
                let mut r = "NUMBER".to_string();
                append_len(&mut r, p);
                assert(r@ =~= "NUMBER("@ + int_decimal(p as int) + seq![')']) by {
                    reveal_strlit("NUMBER(");
                    reveal_strlit("NUMBER");
                }
                r
            },
            (None, Some(s)) if s > 0 => {
                let mut r = "NUMBER(*,".to_string();
                let sd = i64_decimal(s);
                r.append(sd.as_str());
                push_char(&mut r, ')');
                assert(r@ =~= "NUMBER(*,"@ + int_decimal(s as int) + seq![')']);
                r
            },
            _ => "NUMBER".to_string(),
        }
    } else if same_text(dt.as_str(), "VARCHAR2") || same_text(dt.as_str(), "VARCHAR") || same_text(dt.as_str(), "CHAR")
        || same_text(dt.as_str(), "NVARCHAR2") || same_text(dt.as_str(), "NCHAR") {
        let by_char = match char_used {
            Some(c) => same_text(c, "C"),
            None => false,
        };
        if by_char {
            match char_length {
                Some(l) => {
                    let mut r = dt;
                    push_char(&mut r, '(');
                    let d = i64_decimal(l);
                    r.append(d.as_str());
                    r.append(" CHAR)");
                    assert(r@ =~= dt@ + seq!['('] + int_decimal(l as int) + " CHAR)"@);
                    r
                },
                None => dt,
            }
        } else {
            match data_length {
                Some(l) => {
                    let mut r = dt;
                    append_len(&mut r, l);
                    r
                },
                None => dt,
            }
        }
    } else if same_text(dt.as_str(), "RAW") {
        match data_length {
            Some(l) => {
                let mut r = "RAW".to_string();
                append_len(&mut r, l);
                assert(r@ =~= with_len("RAW"@, data_length));
                r
            },
            None => "RAW".to_string(),
        }
    } else {
        data_type.to_string()
    }
}

/// Single quotes doubled, for text inside a SQL string literal.
pub fn escape_sql(s: &str) -> (r: String)
    ensures
        r@ == replace_char(s@, '\'', "''"@),
{
    replace_char_exec(s, '\'', "''")
}

// ───────────────────────── table model ─────────────────────────

/// A column of a table as the catalog describes it.
pub struct ColumnDef {
    /// As stored (upper case).
    pub name: String,
    /// Formatted, such as `NUMBER(10)` or `VARCHAR2(20)`.
    pub type_str: String,
    /// The trimmed `DATA_DEFAULT`, verbatim.
    pub default: Option<String>,
    pub not_null: bool,
}

/// An index that does not back a constraint.
pub struct IndexDef {
    pub name: String,
    pub unique: bool,
    /// Column names or function-based expressions, by position.
    pub parts: Vec<String>,
}

#[derive(Clone, Copy, PartialEq, Eq, Structural)]
pub enum ConstraintKind {
    Primary,
    Unique,
    ForeignKey,
    Check,
}

/// A primary key, unique, foreign key or check constraint.
pub struct ConstraintDef {
    pub name: String,
    pub kind: ConstraintKind,
    pub cols: Vec<String>,
    /// The table a foreign key references.
    pub ref_table: Option<String>,
    /// The columns a foreign key references.
    pub ref_cols: Vec<String>,
    /// `CASCADE` or `SET NULL`; `NO ACTION` is left out.
    pub delete_rule: Option<String>,
    pub novalidate: bool,
    pub check_cond: Option<String>,
}

/// Everything the table export renders.
pub struct TableModel {
    pub name: String,
    pub columns: Vec<ColumnDef>,
    pub table_comment: Option<String>,
    /// Column comments in column order.
    pub column_comments: Vec<(String, String)>,
    pub indexes: Vec<IndexDef>,
    pub constraints: Vec<ConstraintDef>,
}

/// The text of an optional string, empty when absent.
pub open spec fn or_empty(o: Option<String>) -> Seq<char> {
    match o {
        Some(s) => s@,
        None => Seq::empty(),
    }
}

/// The `on delete` clause of a foreign key's delete rule, compared in upper case.
pub open spec fn delete_clause(rule: Option<String>) -> Seq<char> {
    match rule {
        Some(r) => if unicode_upper(r@) == "CASCADE"@ {
            "\n  on delete cascade"@
        } else if unicode_upper(r@) == "SET NULL"@ {
            "\n  on delete set null"@
        } else {
            Seq::empty()
        },
        None => Seq::empty(),
    }
}

/// A constraint as an `alter table … add constraint …;` statement on a line of its own.
pub open spec fn constraint_text(table: Seq<char>, c: ConstraintDef) -> Seq<char> {
    let head = "\nalter table "@ + table + "\n  add constraint "@ + c.name@ + seq![' '];
    match c.kind {
        ConstraintKind::Primary => head + "primary key ("@ + join(texts(c.cols@), ", "@) + ");"@,
        ConstraintKind::Unique => head + "unique ("@ + join(texts(c.cols@), ", "@) + ");"@,
        ConstraintKind::Check => head + "check ("@ + or_empty(c.check_cond) + ");"@,
        ConstraintKind::ForeignKey => head + "foreign key ("@ + join(texts(c.cols@), ", "@) + ")\n  references "@
            + or_empty(c.ref_table) + " ("@ + join(texts(c.ref_cols@), ", "@) + seq![')'] + delete_clause(c.delete_rule)
            + (if c.novalidate { "\n  novalidate"@ } else { Seq::empty() }) + seq![';'],
    }
}

fn text_or_empty(o: &Option<String>) -> (r: &str)
    ensures
        r@ == or_empty(*o),
{
    match o {
        Some(s) => s.as_str(),
        None => {
            proof { reveal_strlit(""); }
            ""
        },
    }
}

/// A constraint as a PL/SQL Developer `alter table … add constraint …;` statement.
pub fn render_constraint(table: &str, c: &ConstraintDef) -> (r: String)
    ensures
        r@ == constraint_text(table@, *c),
{
    let mut s = String::new();
    s.append("\nalter table ");
    s.append(table);
    s.append("\n  add constraint ");
    s.append(c.name.as_str());
    push_char(&mut s, ' ');
    let ghost head = s@;
    match c.kind {
        ConstraintKind::Primary => {
            s.append("primary key (");
            s.append(join_exec(&c.cols, ", ").as_str());
            s.append(");");
        },
        ConstraintKind::Unique => {
            s.append("unique (");
            s.append(join_exec(&c.cols, ", ").as_str());
            s.append(");");
        },
        ConstraintKind::Check => {
            s.append("check (");
            s.append(text_or_empty(&c.check_cond));
            s.append(");");
        },
        ConstraintKind::ForeignKey => {
            s.append("foreign key (");
            s.append(join_exec(&c.cols, ", ").as_str());
            s.append(")\n  references ");
            s.append(text_or_empty(&c.ref_table));
            s.append(" (");
            s.append(join_exec(&c.ref_cols, ", ").as_str());
            push_char(&mut s, ')');
            if let Some(rule) = &c.delete_rule {
                let up = to_uppercase(rule.as_str());
                if same_text(up.as_str(), "CASCADE") {
                    s.append("\n  on delete cascade");
                } else if same_text(up.as_str(), "SET NULL") {
                    s.append("\n  on delete set null");
                }
            }
            if c.novalidate {
                s.append("\n  novalidate");
            }
            push_char(&mut s, ';');
        },
    }
    assert(s@ =~= constraint_text(table@, *c));
    s
}

/// The number of characters of the longest lower-cased column name.
pub open spec fn max_lower_len(cols: Seq<ColumnDef>) -> nat
    decreases cols.len(),
{
    if cols.len() == 0 {
        0
    } else {
        let prev = max_lower_len(cols.drop_last());
        let l = unicode_lower(cols.last().name@).len();
        if l > prev { l } else { prev }
    }
}

pub proof fn lemma_max_lower_len(cols: Seq<ColumnDef>, i: int)
    requires
        0 <= i < cols.len(),
    ensures
        unicode_lower(cols[i].name@).len() <= max_lower_len(cols),
    decreases cols.len(),
{
    if i < cols.len() - 1 {
        lemma_max_lower_len(cols.drop_last(), i);
        assert(cols.drop_last()[i] == cols[i]);
    }
}

/// The line of column `i`: the lower-cased name padded to the longest name plus one
/// space, the type, the default, `not null`, and a comma unless it is the last.
pub open spec fn column_line(cols: Seq<ColumnDef>, i: int) -> Seq<char> {
    let c = cols[i];
    let lc = unicode_lower(c.name@);
    "  "@ + lc + spaces((max_lower_len(cols) - lc.len() + 1) as nat) + c.type_str@
        + match c.default {
            Some(d) => " default "@ + d@,
            None => Seq::empty(),
        }
        + (if c.not_null { " not null"@ } else { Seq::empty() })
        + (if i + 1 < cols.len() { seq![','] } else { Seq::empty() })
        + seq!['\n']
}

/// The lines of the first `n` columns.
pub open spec fn column_lines(cols: Seq<ColumnDef>, n: int) -> Seq<char>
    decreases n,
{
    if n <= 0 { Seq::empty() } else { column_lines(cols, n - 1) + column_line(cols, n - 1) }
}

/// The column comment statements.
pub open spec fn column_comment_text(table: Seq<char>, comments: Seq<(String, String)>) -> Seq<char>
    decreases comments.len(),
{
    if comments.len() == 0 {
        Seq::empty()
    } else {
        column_comment_text(table, comments.drop_last()) + "\ncomment on column "@ + table + seq!['.']
            + unicode_lower(comments.last().0@) + "\n  is '"@ + replace_char(comments.last().1@, '\'', "''"@) + "';"@
    }
}

/// The index statements.
pub open spec fn index_text(table: Seq<char>, indexes: Seq<IndexDef>) -> Seq<char>
    decreases indexes.len(),
{
    if indexes.len() == 0 {
        Seq::empty()
    } else {
        let idx = indexes.last();
        index_text(table, indexes.drop_last()) + seq!['\n']
            + (if idx.unique { "create unique index"@ } else { "create index"@ }) + seq![' '] + idx.name@ + " on "@
            + table + " ("@ + join(texts(idx.parts@), ", "@) + ");"@
    }
}

/// The constraint statements.
pub open spec fn constraints_text(table: Seq<char>, cs: Seq<ConstraintDef>) -> Seq<char>
    decreases cs.len(),
{
    if cs.len() == 0 {
        Seq::empty()
    } else {
        constraints_text(table, cs.drop_last()) + constraint_text(table, cs.last())
    }
}

/// The raw `.tab` export of a table in the PL/SQL Developer layout: the create
/// statement with aligned lower-case columns, the table and column comments, the
/// indexes and the constraints.
pub open spec fn table_raw(m: TableModel) -> Seq<char> {
    "create table "@ + m.name@ + "\n(\n"@ + column_lines(m.columns@, m.columns@.len() as int) + ")\n;"@
        + match m.table_comment {
            Some(tc) => "\ncomment on table "@ + m.name@ + "\n  is '"@ + replace_char(tc@, '\'', "''"@) + "';"@,
            None => Seq::empty(),
        }
        + column_comment_text(m.name@, m.column_comments@) + index_text(m.name@, m.indexes@)
        + constraints_text(m.name@, m.constraints@)
}

fn char_count(s: &str) -> (n: usize)
    ensures
        n == s@.len(),
{
    to_chars(s).len()
}

fn column_line_exec(c: &ColumnDef, lc: &str, max_name: usize, more: bool) -> (r: String)
    requires
        lc@.len() <= max_name,
    ensures
        r@ == "  "@ + lc@ + spaces((max_name - lc@.len() + 1) as nat) + c.type_str@
            + match c.default {
                Some(d) => " default "@ + d@,
                None => Seq::empty(),
            }
            + (if c.not_null { " not null"@ } else { Seq::empty() })
            + (if more { seq![','] } else { Seq::empty() })
            + seq!['\n'],
{
    let n = char_count(lc);
    let mut out = String::new();
    out.append("  ");
    out.append(lc);
    push_spaces(&mut out, max_name - n);
    push_char(&mut out, ' ');
    assert(spaces((max_name - n) as nat).push(' ') =~= spaces((max_name - n + 1) as nat));
    out.append(c.type_str.as_str());
    let ghost mid = out@;
    if let Some(d) = &c.default {
        out.append(" default ");
        out.append(d.as_str());
    }
    if c.not_null {
        out.append(" not null");
    }
    if more {
        push_char(&mut out, ',');
    }
    push_char(&mut out, '\n');
    assert(out@ =~= "  "@ + lc@ + spaces((max_name - lc@.len() + 1) as nat) + c.type_str@
        + match c.default {
            Some(d) => " default "@ + d@,
            None => Seq::empty(),
        }
        + (if c.not_null { " not null"@ } else { Seq::empty() })
        + (if more { seq![','] } else { Seq::empty() })
        + seq!['\n']);
    out
}

fn index_statement(table: &str, idx: &IndexDef) -> (r: String)
    ensures
        r@ == seq!['\n'] + (if idx.unique { "create unique index"@ } else { "create index"@ }) + seq![' '] + idx.name@
            + " on "@ + table@ + " ("@ + join(texts(idx.parts@), ", "@) + ");"@,
{
    let mut out = String::new();
    push_char(&mut out, '\n');
    if idx.unique {
        out.append("create unique index");
    } else {
        out.append("create index");
    }
    push_char(&mut out, ' ');
    out.append(idx.name.as_str());
    out.append(" on ");
    out.append(table);
    out.append(" (");
    out.append(join_exec(&idx.parts, ", ").as_str());
    out.append(");");
    out
}

fn column_comment_statement(table: &str, entry: &(String, String)) -> (r: String)
    ensures
        r@ == "\ncomment on column "@ + table@ + seq!['.'] + unicode_lower(entry.0@) + "\n  is '"@
            + replace_char(entry.1@, '\'', "''"@) + "';"@,
{
    let mut out = String::new();
    out.append("\ncomment on column ");
    out.append(table);
    push_char(&mut out, '.');
    out.append(to_lowercase(entry.0.as_str()).as_str());
    out.append("\n  is '");
    out.append(escape_sql(entry.1.as_str()).as_str());
    out.append("';");
    out
}

/// The raw `.tab` export of a table in the PL/SQL Developer layout.
pub fn render_table_raw(m: &TableModel) -> (r: String)
    ensures
        r@ == table_raw(*m),
{
    let cols = &m.columns;
    let mut lowered: Vec<String> = Vec::new();
    let mut max_name: usize = 0;
    let mut i: usize = 0;
    while i < cols.len()
        invariant
            i <= cols.len(),
            lowered.len() == i,
            max_name == max_lower_len(cols@.take(i as int)),
            forall|j: int| 0 <= j < i ==> #[trigger] lowered@[j]@ == unicode_lower(cols@[j].name@),
        decreases cols.len() - i,
    {
        let lc = to_lowercase(cols[i].name.as_str());
        let n = char_count(lc.as_str());
        assert(cols@.take(i + 1).drop_last() =~= cols@.take(i as int));
        if n > max_name {
            max_name = n;
        }
        lowered.push(lc);
        i += 1;
    }
    assert(cols@.take(cols.len() as int) =~= cols@);
    let mut out = String::new();
    out.append("create table ");
    out.append(m.name.as_str());
    out.append("\n(\n");
    let ghost head = out@;
    let mut k: usize = 0;
    while k < cols.len()
        invariant
            k <= cols.len(),
            lowered.len() == cols.len(),
            max_name == max_lower_len(cols@),
            forall|j: int| 0 <= j < cols.len() ==> #[trigger] lowered@[j]@ == unicode_lower(cols@[j].name@),
            out@ == head + column_lines(cols@, k as int),
        decreases cols.len() - k,
    {
        let c = &cols[k];
        let lc = &lowered[k];
        proof { lemma_max_lower_len(cols@, k as int); }
        let ghost before = out@;
        let line = column_line_exec(c, lc.as_str(), max_name, k + 1 < cols.len());
        out.append(line.as_str());
        assert(out@ =~= before + column_line(cols@, k as int));
        k += 1;
    }
    out.append(")\n;");
    if let Some(tc) = &m.table_comment {
        out.append("\ncomment on table ");
        out.append(m.name.as_str());
        out.append("\n  is '");
        out.append(escape_sql(tc.as_str()).as_str());
        out.append("';");
    }
    let ghost before_comments = out@;
    assert(m.column_comments@.take(0) =~= Seq::<(String, String)>::empty());
    let mut j: usize = 0;
    while j < m.column_comments.len()
        invariant
            j <= m.column_comments.len(),
            out@ == before_comments + column_comment_text(m.name@, m.column_comments@.take(j as int)),
        decreases m.column_comments.len() - j,
    {
        assert(m.column_comments@.take(j + 1).drop_last() =~= m.column_comments@.take(j as int));
        let line = column_comment_statement(m.name.as_str(), &m.column_comments[j]);
        out.append(line.as_str());
        j += 1;
    }
    assert(m.column_comments@.take(m.column_comments.len() as int) =~= m.column_comments@);
    let ghost before_indexes = out@;
    assert(m.indexes@.take(0) =~= Seq::<IndexDef>::empty());
    let mut x: usize = 0;
    while x < m.indexes.len()
        invariant
            x <= m.indexes.len(),
            out@ == before_indexes + index_text(m.name@, m.indexes@.take(x as int)),
        decreases m.indexes.len() - x,
    {
        assert(m.indexes@.take(x + 1).drop_last() =~= m.indexes@.take(x as int));
        let line = index_statement(m.name.as_str(), &m.indexes[x]);
        out.append(line.as_str());
        x += 1;
    }
    assert(m.indexes@.take(m.indexes.len() as int) =~= m.indexes@);
    let ghost before_cons = out@;
    assert(m.constraints@.take(0) =~= Seq::<ConstraintDef>::empty());
    let mut y: usize = 0;
    while y < m.constraints.len()
        invariant
            y <= m.constraints.len(),
            out@ == before_cons + constraints_text(m.name@, m.constraints@.take(y as int)),
        decreases m.constraints.len() - y,
    {
        assert(m.constraints@.take(y + 1).drop_last() =~= m.constraints@.take(y as int));
        let rendered = render_constraint(m.name.as_str(), &m.constraints[y]);
        out.append(rendered.as_str());
        y += 1;
    }
    assert(m.constraints@.take(m.constraints.len() as int) =~= m.constraints@);
    out
}

// ───────────────────────── deploy blocks ─────────────────────────

/// A create statement and the `COMMENT ON …` block after it, split before the first
/// line feed followed by `COMMENT ON` in any ASCII case, each part trimmed.
pub open spec fn create_and_comments(ddl: Seq<char>) -> (Seq<char>, Option<Seq<char>>) {
    match crate::text::find(upper(ddl), "\nCOMMENT ON"@) {
        Some(i) => (trim(ddl.take(i)), Some(trim(ddl.skip(i)))),
        None => (ddl, None),
    }
}

/// Splits a create statement from the `COMMENT ON …` block appended after it.
pub fn split_create_and_comments(ddl: &str) -> (r: (String, Option<String>))
    ensures
        (r.0@, opt_view(r.1)) == create_and_comments(ddl@),
{
    let v = to_chars(ddl);
    let up = to_chars(crate::text::to_upper(ddl).as_str());
    let marker = to_chars("\nCOMMENT ON");
    match crate::text::find_exec(&up, &marker) {
        Some(i) => {
            proof { crate::text::lemma_find_bound(up@, marker@); }
            let n = v.len();
            let head = crate::text::slice_string(&v, 0, i);
            let tail = crate::text::slice_string(&v, i, n);
            assert(v@.subrange(0, i as int) =~= ddl@.take(i as int));
            assert(v@.subrange(i as int, n as int) =~= ddl@.skip(i as int));
            (trimmed(head.as_str()), Some(trimmed(tail.as_str())))
        },
        None => (ddl.to_string(), None),
    }
}

/// The `COMMENT ON` statements of a comment block: one per line that starts with
/// `COMMENT ON` (any ASCII case), later lines folded into the statement before them
/// with a space, blank lines and lines before the first statement dropped; trimmed.
pub open spec fn comment_statements(ls: Seq<Seq<char>>) -> Seq<Seq<char>>
    decreases ls.len(),
{
    if ls.len() == 0 {
        Seq::empty()
    } else {
        let prev = comment_statements(ls.drop_last());
        let t = trim(ls.last());
        if t.len() == 0 {
            prev
        } else if starts_with(upper(t), "COMMENT ON"@) {
            prev.push(t)
        } else if prev.len() > 0 {
            prev.update(prev.len() - 1, prev.last() + seq![' '] + t)
        } else {
            prev
        }
    }
}

/// Splits a `COMMENT ON …` block into its statements.
pub fn split_comments(comment_part: &str) -> (r: Vec<String>)
    ensures
        texts(r@) == comment_statements(lines(comment_part@)),
{
    let ls = crate::text::split_lines(comment_part);
    let ghost lv = texts(ls@);
    let mut out: Vec<String> = Vec::new();
    let mut i: usize = 0;
    assert(lv.take(0) =~= Seq::<Seq<char>>::empty());
    while i < ls.len()
        invariant
            i <= ls.len(),
            lv == texts(ls@),
            lv == lines(comment_part@),
            texts(out@) == comment_statements(lv.take(i as int)),
        decreases ls.len() - i,
    {
        assert(lv.take(i + 1).drop_last() =~= lv.take(i as int));
        assert(lv.take(i + 1).last() == ls@[i as int]@);
        let t = trimmed(ls[i].as_str());
        if !t.as_str().is_empty() {
            if crate::text::str_starts_with(crate::text::to_upper(t.as_str()).as_str(), "COMMENT ON") {
                let ghost before = out@;
                out.push(t);
                assert(texts(out@) =~= texts(before).push(t@));
            } else if out.len() > 0 {
                let ghost before = out@;
                let popped = out.pop();
                let mut last = popped.unwrap();
                assert(last == before.last() && out@ == before.drop_last());
                push_char(&mut last, ' ');
                last.append(t.as_str());
                let ghost newlast = last@;
                out.push(last);
                assert(newlast == texts(before).last() + seq![' '] + t@);
                assert forall|k: int| 0 <= k < before.len() implies #[trigger] texts(out@)[k]
                    == texts(before).update(before.len() - 1, newlast)[k] by {
                    if k < before.len() - 1 {
                        assert(out@[k] == before[k]);
                    }
                }
                assert(texts(out@) =~= texts(before).update(before.len() - 1, newlast));
            }
        }
        i += 1;
    }
    assert(lv.take(ls.len() as int) =~= lv);
    out
}

/// A line indented by `n` spaces, or empty when blank.
pub open spec fn indent_line(l: Seq<char>, n: nat) -> Seq<char> {
    if trim(l).len() == 0 { Seq::empty() } else { spaces(n) + l }
}

/// Every line of `s` indented by `n` spaces (blank lines emptied), joined by line feeds.
pub open spec fn indented(s: Seq<char>, n: nat) -> Seq<char> {
    join(lines(s).map_values(|l: Seq<char>| indent_line(l, n)), "\n"@)
}

/// Every line of `s` indented by `spaces` spaces, blank lines emptied.
pub fn indent_lines(s: &str, spaces: usize) -> (r: String)
    ensures
        r@ == indented(s@, spaces as nat),
{
    let ls = crate::text::split_lines(s);
    let mut out: Vec<String> = Vec::new();
    let mut i: usize = 0;
    while i < ls.len()
        invariant
            i <= ls.len(),
            out.len() == i,
            forall|j: int| 0 <= j < i ==> #[trigger] out@[j]@ == indent_line(ls@[j]@, spaces as nat),
        decreases ls.len() - i,
    {
        if crate::text::is_blank(ls[i].as_str()) {
            out.push(String::new());
        } else {
            let mut l = String::new();
            push_spaces(&mut l, spaces);
            l.append(ls[i].as_str());
            out.push(l);
        }
        i += 1;
    }
    let r = join_exec(&out, "\n");
    assert(texts(out@) =~= texts(ls@).map_values(|l: Seq<char>| indent_line(l, spaces as nat)));
    r
}

/// `s` without the `;` characters it ends with.
pub open spec fn trim_end_semicolons(s: Seq<char>) -> Seq<char>
    decreases s.len(),
{
    if s.len() > 0 && s.last() == ';' { trim_end_semicolons(s.drop_last()) } else { s }
}

/// A statement without its SQL*Plus `/` terminator and trailing `;`, except that the
/// `;` closing a PL/SQL block (`END;`, any ASCII case) stays.
pub open spec fn terminator_stripped(s: Seq<char>) -> Seq<char> {
    let a = trim(s);
    let b = if a.len() > 0 && a.last() == '/' { trim_end(a.drop_last()) } else { a };
    if crate::text::ends_with(trim_end(upper(b)), "END;"@) { b } else { trim_end(trim_end_semicolons(b)) }
}

/// Strips a `/` terminator and a trailing `;`, keeping the `;` of an `END;`.
pub fn strip_terminator(s: &str) -> (r: String)
    ensures
        r@ == terminator_stripped(s@),
{
    let a = trimmed(s);
    let av = to_chars(a.as_str());
    let b = if av.len() > 0 && av[av.len() - 1] == '/' {
        let head = crate::text::slice_string(&av, 0, av.len() - 1);
        assert(av@.subrange(0, av.len() - 1) =~= a@.drop_last());
        crate::text::trimmed_end(head.as_str())
    } else {
        a
    };
    let upb = crate::text::trimmed_end(crate::text::to_upper(b.as_str()).as_str());
    if crate::text::str_ends_with(upb.as_str(), "END;") {
        b
    } else {
        let bv = to_chars(b.as_str());
        let mut e: usize = bv.len();
        assert(bv@.take(e as int) =~= bv@);
        while e > 0 && bv[e - 1] == ';'
            invariant
                e <= bv.len(),
                trim_end_semicolons(bv@.take(e as int)) == trim_end_semicolons(bv@),
            decreases e,
        {
            assert(bv@.take(e as int).drop_last() =~= bv@.take(e - 1));
            e -= 1;
        }
        let head = crate::text::slice_string(&bv, 0, e);
        assert(bv@.subrange(0, e as int) =~= bv@.take(e as int));
        crate::text::trimmed_end(head.as_str())
    }
}

/// One statement as an indented `EXECUTE IMMEDIATE q'[…]';`, a multi-line statement on
/// lines of its own inside the quote.
pub open spec fn execute_immediate_text(stmt: Seq<char>) -> Seq<char> {
    let st = terminator_stripped(stmt);
    if st.contains('\n') {
        "        EXECUTE IMMEDIATE q'[\n"@ + indented(st, 12) + "\n        ]';"@
    } else {
        "        EXECUTE IMMEDIATE q'["@ + st + "]';"@
    }
}

/// One statement as an indented `EXECUTE IMMEDIATE q'[…]';` for a deploy block.
pub fn execute_immediate(stmt: &str) -> (r: String)
    ensures
        r@ == execute_immediate_text(stmt@),
{
    let st = strip_terminator(stmt);
    let mut out = String::new();
    if crate::text::str_contains_char(st.as_str(), '\n') {
        out.append("        EXECUTE IMMEDIATE q'[\n");
        out.append(indent_lines(st.as_str(), 12).as_str());
        out.append("\n        ]';");
    } else {
        out.append("        EXECUTE IMMEDIATE q'[");
        out.append(st.as_str());
        out.append("]';");
    }
    out
}

/// The statements that are not blank.
pub open spec fn nonblank(ss: Seq<Seq<char>>) -> Seq<Seq<char>>
    decreases ss.len(),
{
    if ss.len() == 0 {
        Seq::empty()
    } else if trim(ss.last()).len() == 0 {
        nonblank(ss.drop_last())
    } else {
        nonblank(ss.drop_last()).push(ss.last())
    }
}

/// A block that runs the non-blank `statements` only when
/// `SELECT COUNT(*) FROM view WHERE col = 'name'` finds nothing.
pub open spec fn guarded_text(view: Seq<char>, col: Seq<char>, name: Seq<char>, statements: Seq<Seq<char>>) -> Seq<char> {
    "DECLARE\n    v_count NUMBER;\nBEGIN\n    SELECT COUNT(*) INTO v_count FROM "@ + view + "\n    WHERE "@ + col
        + " = '"@ + name + "';\n\n    IF v_count = 0 THEN\n"@
        + join(nonblank(statements).map_values(|st: Seq<char>| execute_immediate_text(st)), "\n\n"@)
        + "\n    END IF;\nEND;\n/"@
}

/// An idempotent guarded block: runs `statements` only when the object is absent.
pub fn guarded_block(view: &str, col: &str, name: &str, statements: &[String]) -> (r: String)
    ensures
        r@ == guarded_text(view@, col@, name@, texts(statements@)),
{
    let ghost ss = texts(statements@);
    let mut parts: Vec<String> = Vec::new();
    let mut i: usize = 0;
    assert(ss.take(0) =~= Seq::<Seq<char>>::empty());
    while i < statements.len()
        invariant
            i <= statements.len(),
            ss == texts(statements@),
            texts(parts@) == nonblank(ss.take(i as int)).map_values(|st: Seq<char>| execute_immediate_text(st)),
        decreases statements.len() - i,
    {
        assert(ss.take(i + 1).drop_last() =~= ss.take(i as int));
        assert(ss.take(i + 1).last() == statements@[i as int]@);
        if !crate::text::is_blank(statements[i].as_str()) {
            let ghost before = parts@;
            parts.push(execute_immediate(statements[i].as_str()));
            assert(texts(parts@) =~= texts(before).push(execute_immediate_text(statements@[i as int]@)));
            assert(nonblank(ss.take(i + 1)).map_values(|st: Seq<char>| execute_immediate_text(st))
                =~= nonblank(ss.take(i as int)).map_values(|st: Seq<char>| execute_immediate_text(st))
                    .push(execute_immediate_text(statements@[i as int]@)));
        }
        i += 1;
    }
    assert(ss.take(statements.len() as int) =~= ss);
    let body = join_exec(&parts, "\n\n");
    let mut out = String::new();
    out.append("DECLARE\n    v_count NUMBER;\nBEGIN\n    SELECT COUNT(*) INTO v_count FROM ");
    out.append(view);
    out.append("\n    WHERE ");
    out.append(col);
    out.append(" = '");
    out.append(name);
    out.append("';\n\n    IF v_count = 0 THEN\n");
    out.append(body.as_str());
    out.append("\n    END IF;\nEND;\n/");
    out
}

/// The statements of a single-object deploy: the create statement, then its comment
/// statements.
pub open spec fn single_statements(raw: Seq<char>) -> Seq<Seq<char>> {
    let (create, comments) = create_and_comments(trim(raw));
    seq![create] + match comments {
        Some(c) => comment_statements(lines(c)),
        None => Seq::empty(),
    }
}

/// The guarded deploy block of a single-statement object with its comments.
pub fn single_guarded(view: &str, col: &str, name: &str, raw_cleaned: &str) -> (r: String)
    ensures
        r@ == guarded_text(view@, col@, name@, single_statements(raw_cleaned@)),
{
    let ddl = trimmed(raw_cleaned);
    let (create_part, comment_part) = split_create_and_comments(ddl.as_str());
    let mut stmts: Vec<String> = Vec::new();
    let ghost c = create_part@;
    stmts.push(create_part);
    if let Some(comments) = comment_part {
        let more = split_comments(comments.as_str());
        let mut i: usize = 0;
        while i < more.len()
            invariant
                i <= more.len(),
                stmts.len() == i + 1,
                texts(stmts@) == seq![c] + texts(more@).take(i as int),
            decreases more.len() - i,
        {
            let ghost before = stmts@;
            stmts.push(more[i].clone());
            assert(texts(stmts@) =~= texts(before).push(more@[i as int]@));
            assert(texts(stmts@) =~= seq![c] + texts(more@).take(i + 1));
            i += 1;
        }
        assert(texts(more@).take(more.len() as int) =~= texts(more@));
    } else {
        assert(texts(stmts@) =~= seq![c] + Seq::<Seq<char>>::empty());
    }
    guarded_block(view, col, name, stmts.as_slice())
}

/// A line that opens a statement of the generated table DDL: it starts with one of the
/// known keywords, in any ASCII case, at column 0.
pub open spec fn is_statement_start(line: Seq<char>) -> bool {
    let l = lower(line);
    starts_with(l, "create table"@) || starts_with(l, "create unique index"@) || starts_with(l, "create index"@)
        || starts_with(l, "comment on"@) || starts_with(l, "alter table"@)
}

/// The finished statements and the statement under way after the lines `ls`.
pub open spec fn ddl_split(ls: Seq<Seq<char>>) -> (Seq<Seq<char>>, Seq<char>)
    decreases ls.len(),
{
    if ls.len() == 0 {
        (Seq::empty(), Seq::empty())
    } else {
        let (out, cur) = ddl_split(ls.drop_last());
        let line = ls.last();
        let (out2, cur2) = if is_statement_start(line) && trim(cur).len() > 0 {
            (out.push(trim_end(cur)), Seq::<char>::empty())
        } else {
            (out, cur)
        };
        (out2, (if cur2.len() > 0 { cur2 + seq!['\n'] } else { cur2 }) + line)
    }
}

/// The statements of generated table DDL: a statement starts at each line that opens
/// one; every other line continues the current statement; each is trimmed at the end.
pub open spec fn ddl_statements(raw: Seq<char>) -> Seq<Seq<char>> {
    let (out, cur) = ddl_split(lines(raw));
    if trim(cur).len() > 0 { out.push(trim_end(cur)) } else { out }
}

fn is_statement_start_exec(line: &str) -> (r: bool)
    ensures
        r == is_statement_start(line@),
{
    let l = crate::text::to_lower(line);
    crate::text::str_starts_with(l.as_str(), "create table") || crate::text::str_starts_with(l.as_str(), "create unique index")
        || crate::text::str_starts_with(l.as_str(), "create index") || crate::text::str_starts_with(l.as_str(), "comment on")
        || crate::text::str_starts_with(l.as_str(), "alter table")
}

/// Splits generated table DDL into its statements.
pub fn split_ddl_statements(raw: &str) -> (r: Vec<String>)
    ensures
        texts(r@) == ddl_statements(raw@),
{
    let ls = crate::text::split_lines(raw);
    let ghost lv = texts(ls@);
    let mut out: Vec<String> = Vec::new();
    let mut cur = String::new();
    let mut i: usize = 0;
    assert(lv.take(0) =~= Seq::<Seq<char>>::empty());
    while i < ls.len()
        invariant
            i <= ls.len(),
            lv == texts(ls@),
            lv == lines(raw@),
            (texts(out@), cur@) == ddl_split(lv.take(i as int)),
        decreases ls.len() - i,
    {
        assert(lv.take(i + 1).drop_last() =~= lv.take(i as int));
        assert(lv.take(i + 1).last() == ls@[i as int]@);
        let line = &ls[i];
        if is_statement_start_exec(line.as_str()) && !crate::text::is_blank(cur.as_str()) {
            let ghost before = out@;
            out.push(crate::text::trimmed_end(cur.as_str()));
            assert(texts(out@) =~= texts(before).push(trim_end(cur@)));
            cur = String::new();
        }
        if !cur.as_str().is_empty() {
            push_char(&mut cur, '\n');
        }
        cur.append(line.as_str());
        i += 1;
    }
    assert(lv.take(ls.len() as int) =~= lv);
    if !crate::text::is_blank(cur.as_str()) {
        let ghost before = out@;
        out.push(crate::text::trimmed_end(cur.as_str()));
        assert(texts(out@) =~= texts(before).push(trim_end(cur@)));
    }
    out
}

/// `s` without the leading occurrences of `c`.
pub open spec fn strip_leading(s: Seq<char>, c: char) -> Seq<char>
    decreases s.len(),
{
    if s.len() > 0 && s[0] == c { strip_leading(s.drop_first(), c) } else { s }
}

/// `s` without the trailing occurrences of `c`.
pub open spec fn strip_trailing(s: Seq<char>, c: char) -> Seq<char>
    decreases s.len(),
{
    if s.len() > 0 && s.last() == c { strip_trailing(s.drop_last(), c) } else { s }
}

/// The length of the run of non-white-space characters that `s` starts with.
pub open spec fn word_len(s: Seq<char>) -> int
    decreases s.len(),
{
    if s.len() == 0 || crate::text::is_ws(s[0]) { 0 } else { 1 + word_len(s.drop_first()) }
}

/// The first white-space separated word of `s`, if any.
pub open spec fn first_word(s: Seq<char>) -> Option<Seq<char>> {
    let t = crate::text::trim_start(s);
    if word_len(t) == 0 { None } else { Some(t.take(word_len(t))) }
}

/// The identifier after the first occurrence of `keyword` (sought in the ASCII
/// lower-cased statement), without surrounding double quotes.
pub open spec fn token_after_spec(stmt: Seq<char>, keyword: Seq<char>) -> Option<Seq<char>> {
    match crate::text::find(lower(stmt), keyword) {
        None => None,
        Some(p) => match first_word(stmt.skip(p + keyword.len())) {
            None => None,
            Some(w) => Some(strip_trailing(strip_leading(w, '"'), '"')),
        },
    }
}

proof fn lemma_word_len(s: Seq<char>, e: int)
    requires
        0 <= e <= s.len(),
        forall|j: int| 0 <= j < e ==> !crate::text::is_ws(#[trigger] s[j]),
        e < s.len() ==> crate::text::is_ws(s[e]),
    ensures
        word_len(s) == e,
    decreases s.len(),
{
    if e > 0 {
        assert forall|j: int| 0 <= j < e - 1 implies !crate::text::is_ws(#[trigger] s.drop_first()[j]) by {
            assert(s.drop_first()[j] == s[j + 1]);
        }
        if e < s.len() {
            assert(s.drop_first()[e - 1] == s[e]);
        }
        lemma_word_len(s.drop_first(), e - 1);
    }
}

fn strip_quotes(v: &Vec<char>) -> (r: String)
    ensures
        r@ == strip_trailing(strip_leading(v@, '"'), '"'),
{
    let mut a: usize = 0;
    assert(v@.skip(0) =~= v@);
    while a < v.len() && v[a] == '"'
        invariant
            a <= v.len(),
            strip_leading(v@.skip(a as int), '"') == strip_leading(v@, '"'),
        decreases v.len() - a,
    {
        assert(v@.skip(a as int).drop_first() =~= v@.skip(a + 1));
        a += 1;
    }
    let mut b: usize = v.len();
    assert(v@.subrange(a as int, b as int) =~= v@.skip(a as int));
    while b > a && v[b - 1] == '"'
        invariant
            a <= b <= v.len(),
            strip_trailing(v@.subrange(a as int, b as int), '"') == strip_trailing(strip_leading(v@, '"'), '"'),
        decreases b,
    {
        assert(v@.subrange(a as int, b as int).drop_last() =~= v@.subrange(a as int, b - 1));
        b -= 1;
    }
    crate::text::slice_string(v, a, b)
}

/// The identifier after `keyword`, such as an index name after `create index`.
pub fn token_after(stmt: &str, keyword: &str) -> (r: Option<String>)
    ensures
        opt_view(r) == token_after_spec(stmt@, keyword@),
{
    let v = to_chars(stmt);
    let lv = to_chars(crate::text::to_lower(stmt).as_str());
    let kw = to_chars(keyword);
    let p = match crate::text::find_exec(&lv, &kw) {
        Some(p) => p,
        None => return None,
    };
    proof { crate::text::lemma_find_bound(lv@, kw@); }
    let n: usize = v.len();
    assert(p + kw.len() <= n);
    let start: usize = p + kw.len();
    let tail = crate::text::skip_vec(&v, start);
    let a = crate::text::trim_start_bound(&tail);
    let mut e: usize = a;
    while e < tail.len() && !crate::text::char_is_ws(tail[e])
        invariant
            a <= e <= tail.len(),
            forall|j: int| a <= j < e ==> !crate::text::is_ws(#[trigger] tail@[j]),
        decreases tail.len() - e,
    {
        e += 1;
    }
    let ghost t = tail@.skip(a as int);
    proof {
        assert forall|j: int| 0 <= j < e - a implies !crate::text::is_ws(#[trigger] t[j]) by {
            assert(t[j] == tail@[j + a]);
        }
        if e < tail.len() {
            assert(t[e - a] == tail@[e as int]);
        }
        lemma_word_len(t, e - a);
    }
    if e == a {
        return None;
    }
    let word = crate::text::take_vec(&crate::text::skip_vec(&tail, a), e - a);
    assert(word@ =~= t.take(e - a));
    Some(strip_quotes(&word))
}

/// The deploy blocks of one statement: index and constraint statements get a block
/// of their own, guarded by their name; the rest join the table block.
pub open spec fn deploy_parts(stmts: Seq<Seq<char>>) -> (Seq<Seq<char>>, Seq<Seq<char>>)
    decreases stmts.len(),
{
    if stmts.len() == 0 {
        (Seq::empty(), Seq::empty())
    } else {
        let (group, blocks) = deploy_parts(stmts.drop_last());
        let stmt = stmts.last();
        let l = lower(crate::text::trim_start(stmt));
        if starts_with(l, "create unique index"@) || starts_with(l, "create index"@) {
            let idx = match token_after_spec(stmt, "index"@) { Some(t) => t, None => Seq::empty() };
            (group, blocks.push(guarded_text("USER_INDEXES"@, "INDEX_NAME"@, idx, seq![stmt])))
        } else if starts_with(l, "alter table"@) {
            let cons = match token_after_spec(stmt, "add constraint"@) { Some(t) => t, None => Seq::empty() };
            (group, blocks.push(guarded_text("USER_CONSTRAINTS"@, "CONSTRAINT_NAME"@, cons, seq![stmt])))
        } else {
            (group.push(stmt), blocks)
        }
    }
}

/// The deploy script of a table: the create statement and comments in one block
/// guarded by `USER_TABLES`, then one block per index and per constraint.
pub open spec fn table_deploy(name: Seq<char>, raw: Seq<char>) -> Seq<char> {
    let (group, blocks) = deploy_parts(ddl_statements(raw));
    join((if group.len() > 0 {
        seq![guarded_text("USER_TABLES"@, "TABLE_NAME"@, name, group)]
    } else {
        Seq::empty()
    }) + blocks, "\n\n"@)
}

fn single_vec(s: String) -> (r: Vec<String>)
    ensures
        texts(r@) == seq![s@],
{
    let mut v: Vec<String> = Vec::new();
    v.push(s);
    assert(texts(v@) =~= seq![v@[0]@]);
    v
}

fn token_or_empty(o: Option<String>) -> (r: String)
    ensures
        r@ == match opt_view(o) { Some(t) => t, None => Seq::empty() },
{
    match o {
        Some(t) => t,
        None => String::new(),
    }
}

/// The deploy script of a table: each statement individually idempotent.
pub fn build_table_deploy(name: &str, raw: &str) -> (r: String)
    ensures
        r@ == table_deploy(name@, raw@),
{
    let stmts = split_ddl_statements(raw);
    let ghost sv = texts(stmts@);
    let mut group: Vec<String> = Vec::new();
    let mut blocks: Vec<String> = Vec::new();
    let mut i: usize = 0;
    assert(sv.take(0) =~= Seq::<Seq<char>>::empty());
    while i < stmts.len()
        invariant
            i <= stmts.len(),
            sv == texts(stmts@),
            (texts(group@), texts(blocks@)) == deploy_parts(sv.take(i as int)),
        decreases stmts.len() - i,
    {
        assert(sv.take(i + 1).drop_last() =~= sv.take(i as int));
        assert(sv.take(i + 1).last() == stmts@[i as int]@);
        let stmt = &stmts[i];
        let l = crate::text::to_lower(crate::text::trimmed_start(stmt.as_str()).as_str());
        if crate::text::str_starts_with(l.as_str(), "create unique index") || crate::text::str_starts_with(l.as_str(), "create index") {
            let idx = token_or_empty(token_after(stmt.as_str(), "index"));
            let one = single_vec(stmt.clone());
            let ghost before = blocks@;
            blocks.push(guarded_block("USER_INDEXES", "INDEX_NAME", idx.as_str(), one.as_slice()));
            assert(texts(blocks@) =~= texts(before).push(blocks@.last()@));
        } else if crate::text::str_starts_with(l.as_str(), "alter table") {
            let cons = token_or_empty(token_after(stmt.as_str(), "add constraint"));
            let one = single_vec(stmt.clone());
            let ghost before = blocks@;
            blocks.push(guarded_block("USER_CONSTRAINTS", "CONSTRAINT_NAME", cons.as_str(), one.as_slice()));
            assert(texts(blocks@) =~= texts(before).push(blocks@.last()@));
        } else {
            let ghost before = group@;
            group.push(stmt.clone());
            assert(texts(group@) =~= texts(before).push(stmt@));
        }
        i += 1;
    }
    assert(sv.take(stmts.len() as int) =~= sv);
    let mut out: Vec<String> = Vec::new();
    if group.len() > 0 {
        out.push(guarded_block("USER_TABLES", "TABLE_NAME", name, group.as_slice()));
        assert(texts(out@) =~= seq![guarded_text("USER_TABLES"@, "TABLE_NAME"@, name@, texts(group@))]);
    } else {
        assert(texts(out@) =~= Seq::<Seq<char>>::empty());
    }
    let ghost head = texts(out@);
    let mut k: usize = 0;
    while k < blocks.len()
        invariant
            k <= blocks.len(),
            texts(out@) == head + texts(blocks@).take(k as int),
            out.len() == head.len() + k,
        decreases blocks.len() - k,
    {
        let ghost before = out@;
        out.push(blocks[k].clone());
        assert(texts(out@) =~= texts(before).push(blocks@[k as int]@));
        assert(texts(out@) =~= head + texts(blocks@).take(k + 1));
        k += 1;
    }
    assert(texts(blocks@).take(blocks.len() as int) =~= texts(blocks@));
    assert(texts(out@) =~= (if texts(group@).len() > 0 {
        seq![guarded_text("USER_TABLES"@, "TABLE_NAME"@, name@, texts(group@))]
    } else {
        Seq::<Seq<char>>::empty()
    }) + texts(blocks@));
    join_exec(&out, "\n\n")
}

/// The deploy form of raw DDL: a table fans out into guarded blocks; a sequence,
/// materialized view or job gets one guarded block; code objects pass through trimmed.
pub open spec fn deploy_script(object_type: Seq<char>, name: Seq<char>, raw: Seq<char>) -> Seq<char> {
    if object_type == "TABLE"@ {
        table_deploy(name, raw)
    } else if object_type == "SEQUENCE"@ {
        guarded_text("USER_SEQUENCES"@, "SEQUENCE_NAME"@, name, single_statements(raw))
    } else if object_type == "MATERIALIZED VIEW"@ {
        guarded_text("USER_MVIEWS"@, "MVIEW_NAME"@, name, single_statements(raw))
    } else if object_type == "JOB"@ {
        guarded_text("USER_SCHEDULER_JOBS"@, "JOB_NAME"@, name, single_statements(raw))
    } else {
        trim(raw)
    }
}

/// Wraps raw DDL in its idempotent deploy form.
pub fn build_deploy_script(object_type: &str, name: &str, raw_cleaned: &str) -> (r: String)
    ensures
        r@ == deploy_script(object_type@, name@, raw_cleaned@),
{
    if same_text(object_type, "TABLE") {
        build_table_deploy(name, raw_cleaned)
    } else if same_text(object_type, "SEQUENCE") {
        single_guarded("USER_SEQUENCES", "SEQUENCE_NAME", name, raw_cleaned)
    } else if same_text(object_type, "MATERIALIZED VIEW") {
        single_guarded("USER_MVIEWS", "MVIEW_NAME", name, raw_cleaned)
    } else if same_text(object_type, "JOB") {
        single_guarded("USER_SCHEDULER_JOBS", "JOB_NAME", name, raw_cleaned)
    } else {
        trimmed(raw_cleaned)
    }
}

// ───────────────────────── pattern rewriting ─────────────────────────

/// What `regex::Regex::new(pattern)` followed by `replace_all(haystack, rep)` yields,
/// or none when the pattern does not compile.
pub uninterp spec fn regex_replaced_all(pattern: Seq<char>, haystack: Seq<char>, rep: Seq<char>) -> Option<Seq<char>>;

/// What `regex::Regex::new(pattern)` followed by `replace(haystack, rep)` (the first
/// match only) yields, or none when the pattern does not compile.
pub uninterp spec fn regex_replaced_first(pattern: Seq<char>, haystack: Seq<char>, rep: Seq<char>) -> Option<Seq<char>>;

/// Whether `regex::Regex::new(pattern)` matches somewhere in `haystack`, or none when
/// the pattern does not compile.
pub uninterp spec fn regex_matches(pattern: Seq<char>, haystack: Seq<char>) -> Option<bool>;

/// `regex::Regex::new` then `Regex::replace_all`: every non-overlapping match replaced,
/// `$n` in `rep` standing for capture group `n`. The result is a function of the three
/// texts; none when the pattern is not a valid expression.
#[verifier::external_body]
fn regex_replace_all(pattern: &str, haystack: &str, rep: &str) -> (r: Option<String>)
    ensures
        opt_view(r) == regex_replaced_all(pattern@, haystack@, rep@),
{
    match regex::Regex::new(pattern) {
        Ok(re) => Some(re.replace_all(haystack, rep).into_owned()),
        Err(_) => None,
    }
}

/// `regex::Regex::new` then `Regex::replace`: the leftmost match replaced. The result is
/// a function of the three texts; none when the pattern is not a valid expression.
#[verifier::external_body]
fn regex_replace_first(pattern: &str, haystack: &str, rep: &str) -> (r: Option<String>)
    ensures
        opt_view(r) == regex_replaced_first(pattern@, haystack@, rep@),
{
    match regex::Regex::new(pattern) {
        Ok(re) => Some(re.replace(haystack, rep).into_owned()),
        Err(_) => None,
    }
}

/// `regex::Regex::new` then `Regex::is_match`. The result is a function of the two
/// texts; none when the pattern is not a valid expression.
#[verifier::external_body]
fn regex_is_match(pattern: &str, haystack: &str) -> (r: Option<bool>)
    ensures
        r == regex_matches(pattern@, haystack@),
{
    match regex::Regex::new(pattern) {
        Ok(re) => Some(re.is_match(haystack)),
        Err(_) => None,
    }
}

/// A rewrite's result, or the text unchanged when the pattern did not compile.
pub open spec fn or_unchanged(r: Option<Seq<char>>, text: Seq<char>) -> Seq<char> {
    match r {
        Some(x) => x,
        None => text,
    }
}

fn rewrite_all(pattern: &str, text: String, rep: &str) -> (r: String)
    ensures
        r@ == or_unchanged(regex_replaced_all(pattern@, text@, rep@), text@),
{
    match regex_replace_all(pattern, text.as_str(), rep) {
        Some(x) => x,
        None => text,
    }
}

/// `EDITIONABLE` / `NONEDITIONABLE` with the white space around it.
pub const EDITIONABLE_PATTERN: &'static str = "(?i)\\s+(?:NON)?EDITIONABLE\\s+";
/// A double-quoted object name right after `CREATE OR REPLACE <type>`.
pub const QUOTED_HEADER_PATTERN: &'static str = "(?i)(CREATE\\s+OR\\s+REPLACE\\s+(?:PACKAGE\\s+BODY|PACKAGE|PROCEDURE|FUNCTION|TRIGGER|VIEW|TYPE\\s+BODY|TYPE|SYNONYM)\\s+)\"([^\"]+)\"";
/// A schema-qualified, double-quoted sequence name after `CREATE SEQUENCE`.
pub const SEQUENCE_SCHEMA_PATTERN: &'static str = "(?i)(CREATE\\s+SEQUENCE\\s+)\"[^\"]*\"\\.\"[^\"]*\"";
/// `START WITH <n>`.
pub const START_WITH_PATTERN: &'static str = "(?i)START\\s+WITH\\s+\\d+";
/// Two or more spaces.
pub const SPACE_RUN_PATTERN: &'static str = "  +";
/// An automatic `"COL" IS NOT NULL` check condition.
pub const NOT_NULL_CHECK_PATTERN: &'static str = "(?i)^\"?[A-Za-z0-9_$#]+\"?\\s+IS\\s+NOT\\s+NULL$";

/// A check condition that only says a column is not null.
pub open spec fn not_null_check(cond: Seq<char>) -> bool {
    match regex_matches(NOT_NULL_CHECK_PATTERN@, trim(cond)) {
        Some(b) => b,
        None => false,
    }
}

/// Whether a check condition is an automatic `"COL" IS NOT NULL`, which PL/SQL
/// Developer renders inline as `not null`.
pub fn is_not_null_check(cond: &str) -> (r: bool)
    ensures
        r == not_null_check(cond@),
{
    let t = trimmed(cond);
    match regex_is_match(NOT_NULL_CHECK_PATTERN, t.as_str()) {
        Some(b) => b,
        None => false,
    }
}

/// `s` with the first `from` replaced by `to`, as `str::replacen(from, to, 1)`.
pub open spec fn replace_first(s: Seq<char>, from: Seq<char>, to: Seq<char>) -> Seq<char> {
    match crate::text::find(s, from) {
        Some(i) => s.take(i) + to + s.skip(i + from.len()),
        None => s,
    }
}

pub(crate) fn replace_first_exec(s: &str, from: &str, to: &str) -> (r: String)
    ensures
        r@ == replace_first(s@, from@, to@),
{
    let v = to_chars(s);
    let f = to_chars(from);
    match crate::text::find_exec(&v, &f) {
        Some(i) => {
            proof { crate::text::lemma_find_bound(v@, f@); }
            let n: usize = v.len();
            assert(i + f.len() <= n);
            let mut r = crate::text::slice_string(&v, 0, i);
            r.append(to);
            let tail = crate::text::slice_string(&v, i + f.len(), n);
            r.append(tail.as_str());
            assert(v@.subrange(0, i as int) =~= s@.take(i as int));
            assert(v@.subrange(i + f.len(), n as int) =~= s@.skip(i + from@.len()));
            r
        },
        None => s.to_string(),
    }
}

/// The object types whose DDL is code, normalised to `CREATE OR REPLACE`.
pub open spec fn is_code_type(t: Seq<char>) -> bool {
    t == "VIEW"@ || t == "PROCEDURE"@ || t == "FUNCTION"@ || t == "PACKAGE"@ || t == "PACKAGE BODY"@ || t == "TYPE"@
        || t == "TYPE BODY"@ || t == "SYNONYM"@ || t == "TRIGGER"@
}

/// Code DDL without `EDITIONABLE` markers and quotes around the object name in the
/// header, trimmed, as `CREATE OR REPLACE`.
pub open spec fn cleaned_code(ddl: Seq<char>) -> Seq<char> {
    let a = or_unchanged(regex_replaced_all(EDITIONABLE_PATTERN@, ddl, " "@), ddl);
    let b = trim(or_unchanged(regex_replaced_all(QUOTED_HEADER_PATTERN@, a, "$1$2"@), a));
    if starts_with(upper(b), "CREATE OR REPLACE"@) { b } else { replace_first(b, "CREATE "@, "CREATE OR REPLACE "@) }
}

/// The noise keywords stripped from sequence DDL, each with the white space before it.
pub open spec fn sequence_noise_removed(ddl: Seq<char>, kws: Seq<Seq<char>>) -> Seq<char>
    decreases kws.len(),
{
    if kws.len() == 0 {
        ddl
    } else {
        let prev = sequence_noise_removed(ddl, kws.drop_last());
        let pat = "(?i)\\s+"@ + kws.last() + "\\b"@;
        or_unchanged(regex_replaced_all(pat, prev, Seq::empty()), prev)
    }
}

/// The keywords that only restate sequence defaults.
pub open spec fn sequence_noise() -> Seq<Seq<char>> {
    seq!["NOORDER"@, "NOCYCLE"@, "NOKEEP"@, "NOSCALE"@, "GLOBAL"@]
}

/// Sequence DDL cleaned for export: the schema-qualified name replaced by `name`,
/// default keywords dropped, `START WITH` reset to 1, runs of spaces collapsed, and
/// trimmed without trailing `;`.
pub open spec fn cleaned_sequence(ddl: Seq<char>, name: Seq<char>) -> Seq<char> {
    let a = or_unchanged(regex_replaced_first(SEQUENCE_SCHEMA_PATTERN@, ddl, "${1}"@ + name), ddl);
    let b = sequence_noise_removed(a, sequence_noise());
    let c = or_unchanged(regex_replaced_all(START_WITH_PATTERN@, b, "START WITH 1"@), b);
    let d = or_unchanged(regex_replaced_all(SPACE_RUN_PATTERN@, c, " "@), c);
    trim(trim_end_semicolons(trim(d)))
}

/// Sequence DDL cleaned for export.
pub fn clean_sequence_ddl(ddl: &str, name: &str) -> (r: String)
    ensures
        r@ == cleaned_sequence(ddl@, name@),
{
    let mut rep = "${1}".to_string();
    rep.append(name);
    let a = match regex_replace_first(SEQUENCE_SCHEMA_PATTERN, ddl, rep.as_str()) {
        Some(x) => x,
        None => ddl.to_string(),
    };
    let noise: [&str; 5] = ["NOORDER", "NOCYCLE", "NOKEEP", "NOSCALE", "GLOBAL"];
    let ghost kws = sequence_noise();
    let mut result = a;
    let mut k: usize = 0;
    assert(kws.take(0) =~= Seq::<Seq<char>>::empty());
    while k < 5
        invariant
            k <= 5,
            kws == sequence_noise(),
            forall|j: int| 0 <= j < 5 ==> #[trigger] noise@[j]@ == kws[j],
            result@ == sequence_noise_removed(a@, kws.take(k as int)),
        decreases 5 - k,
    {
        assert(kws.take(k + 1).drop_last() =~= kws.take(k as int));
        let mut pat = "(?i)\\s+".to_string();
        pat.append(noise[k]);
        pat.append("\\b");
        assert(pat@ =~= "(?i)\\s+"@ + kws.take(k + 1).last() + "\\b"@);
        proof { reveal_strlit(""); }
        assert(""@ =~= Seq::<char>::empty());
        result = rewrite_all(pat.as_str(), result, "");
        k += 1;
    }
    assert(kws.take(5) =~= kws);
    let c = rewrite_all(START_WITH_PATTERN, result, "START WITH 1");
    let d = rewrite_all(SPACE_RUN_PATTERN, c, " ");
    let t = trimmed(d.as_str());
    let tv = to_chars(t.as_str());
    let mut e: usize = tv.len();
    assert(tv@.take(e as int) =~= tv@);
    while e > 0 && tv[e - 1] == ';'
        invariant
            e <= tv.len(),
            trim_end_semicolons(tv@.take(e as int)) == trim_end_semicolons(tv@),
        decreases e,
    {
        assert(tv@.take(e as int).drop_last() =~= tv@.take(e - 1));
        e -= 1;
    }
    let head = crate::text::slice_string(&tv, 0, e);
    assert(tv@.subrange(0, e as int) =~= tv@.take(e as int));
    trimmed(head.as_str())
}

/// The raw DDL shown in the preview and written to the code file: code objects as
/// `CREATE OR REPLACE` without editioning noise, sequences cleaned, anything else
/// trimmed as DBMS_METADATA gave it.
pub open spec fn raw_ddl_cleaned(object_type: Seq<char>, name: Seq<char>, raw: Seq<char>) -> Seq<char> {
    let ddl = trim(raw);
    if is_code_type(object_type) {
        cleaned_code(ddl)
    } else if object_type == "SEQUENCE"@ {
        cleaned_sequence(ddl, name)
    } else {
        ddl
    }
}

/// The raw DDL shown in the preview and written to the code file.
pub fn clean_raw_ddl(object_type: &str, name: &str, raw_ddl: &str) -> (r: String)
    ensures
        r@ == raw_ddl_cleaned(object_type@, name@, raw_ddl@),
{
    let ddl = trimmed(raw_ddl);
    let code = same_text(object_type, "VIEW") || same_text(object_type, "PROCEDURE") || same_text(object_type, "FUNCTION")
        || same_text(object_type, "PACKAGE") || same_text(object_type, "PACKAGE BODY") || same_text(object_type, "TYPE")
        || same_text(object_type, "TYPE BODY") || same_text(object_type, "SYNONYM") || same_text(object_type, "TRIGGER");
    if code {
        let a = rewrite_all(EDITIONABLE_PATTERN, ddl, " ");
        let b = trimmed(rewrite_all(QUOTED_HEADER_PATTERN, a, "$1$2").as_str());
        if crate::text::str_starts_with(crate::text::to_upper(b.as_str()).as_str(), "CREATE OR REPLACE") {
            b
        } else {
            replace_first_exec(b.as_str(), "CREATE ", "CREATE OR REPLACE ")
        }
    } else if same_text(object_type, "SEQUENCE") {
        clean_sequence_ddl(ddl.as_str(), name)
    } else {
        ddl
    }
}

// ───────────────────────── cell display ─────────────────────────

/// Cap on materialised LOB content, in characters of text.
pub const MATERIALIZE_TEXT_CAP: usize = 1000000;

/// At most `cap` characters of `s`.
pub open spec fn capped(s: Seq<char>, cap: nat) -> Seq<char> {
    if s.len() > cap { s.take(cap as int) } else { s }
}

/// At most `cap` characters of `s`.
pub fn cap_chars(s: String, cap: usize) -> (r: String)
    ensures
        r@ == capped(s@, cap as nat),
{
    let v = to_chars(s.as_str());
    if v.len() > cap {
        let r = crate::text::slice_string(&v, 0, cap);
        assert(v@.subrange(0, cap as int) =~= s@.take(cap as int));
        r
    } else {
        s
    }
}

/// An upper-case hexadecimal digit.
pub open spec fn hex_digit(d: nat) -> char {
    if d < 10 { (('0' as nat) + d) as char } else { (('A' as nat) + d - 10) as char }
}

/// Two upper-case hexadecimal digits per byte.
pub open spec fn hex_bytes(b: Seq<u8>) -> Seq<char>
    decreases b.len(),
{
    if b.len() == 0 {
        Seq::empty()
    } else {
        hex_bytes(b.drop_last()) + seq![hex_digit((b.last() / 16) as nat), hex_digit((b.last() % 16) as nat)]
    }
}

/// The hexadecimal form of the first `max` bytes, with the byte count after an
/// ellipsis when there are more.
pub open spec fn hex_text(b: Seq<u8>, max: nat) -> Seq<char> {
    if b.len() > max {
        hex_bytes(b.take(max as int)) + "… ("@ + crate::text::decimal(b.len()) + " bytes)"@
    } else {
        hex_bytes(b)
    }
}

fn hex_digit_exec(d: u8) -> (c: char)
    requires
        d < 16,
    ensures
        c == hex_digit(d as nat),
{
    if d < 10 { ((d + 48) as char) } else { ((d + 55) as char) }
}

/// Upper-case hex of `bytes`, capped at `max` bytes with a count suffix when truncated.
pub fn bytes_to_hex(bytes: &[u8], max: usize) -> (r: String)
    ensures
        r@ == hex_text(bytes@, max as nat),
{
    let n: usize = if bytes.len() < max { bytes.len() } else { max };
    let mut s = String::new();
    let mut i: usize = 0;
    assert(bytes@.take(0) =~= Seq::<u8>::empty());
    while i < n
        invariant
            i <= n,
            n <= bytes.len(),
            s@ == hex_bytes(bytes@.take(i as int)),
        decreases n - i,
    {
        let b = bytes[i];
        assert(bytes@.take(i + 1).drop_last() =~= bytes@.take(i as int));
        push_char(&mut s, hex_digit_exec(b / 16));
        push_char(&mut s, hex_digit_exec(b % 16));
        i += 1;
    }
    if bytes.len() > max {
        s.append("… (");
        s.append(crate::text::usize_decimal(bytes.len()).as_str());
        s.append(" bytes)");
    } else {
        assert(bytes@.take(n as int) =~= bytes@);
    }
    s
}

/// Binary content for display: the text it encodes (capped) when its first 8192 bytes
/// decode as UTF-8 without a NUL, else hexadecimal.
pub open spec fn bytes_display(b: Seq<u8>) -> Seq<char> {
    let sample = if b.len() < 8192 { b } else { b.take(8192) };
    let looks_text = valid_utf8(sample) && !decode_utf8(sample).contains('\0');
    if looks_text {
        if valid_utf8(b) {
            capped(decode_utf8(b), MATERIALIZE_TEXT_CAP as nat)
        } else {
            hex_text(b, 8192)
        }
    } else {
        hex_text(b, 8192)
    }
}

/// Renders BLOB bytes for inline display: text when it looks textual, else hex.
pub fn bytes_to_display(bytes: &[u8]) -> (r: String)
    ensures
        r@ == bytes_display(bytes@),
{
    let n: usize = if bytes.len() < 8192 { bytes.len() } else { 8192 };
    let sample = crate::text::take_bytes(bytes, n);
    assert(bytes.len() < 8192 ==> sample@ =~= bytes@);
    let looks_text = match utf8_text(sample.as_slice()) {
        Some(t) => !crate::text::str_contains_char(t.as_str(), '\0'),
        None => false,
    };
    if looks_text {
        match utf8_text(bytes) {
            Some(t) => cap_chars(t, MATERIALIZE_TEXT_CAP),
            None => bytes_to_hex(bytes, 8192),
        }
    } else {
        bytes_to_hex(bytes, 8192)
    }
}

// ───────────────────────── assembling the table model ─────────────────────────

/// A position-keyed value put in its place: ascending by position, replacing the value
/// already at that position, as an ordered map's `insert` does.
pub open spec fn insert_at(m: Seq<(i64, Seq<char>)>, k: i64, v: Seq<char>) -> Seq<(i64, Seq<char>)>
    decreases m.len(),
{
    if m.len() == 0 {
        seq![(k, v)]
    } else if k < m[0].0 {
        seq![(k, v)] + m
    } else if k == m[0].0 {
        seq![(k, v)] + m.drop_first()
    } else {
        seq![m[0]] + insert_at(m.drop_first(), k, v)
    }
}

/// The ordered map the position-keyed `rows` build, inserted in turn.
pub open spec fn position_map(rows: Seq<(i64, Seq<char>)>) -> Seq<(i64, Seq<char>)>
    decreases rows.len(),
{
    if rows.len() == 0 {
        Seq::empty()
    } else {
        let prev = position_map(rows.drop_last());
        insert_at(prev, rows.last().0, rows.last().1)
    }
}

/// The values of an ordered map, by position.
pub open spec fn map_values_of(m: Seq<(i64, Seq<char>)>) -> Seq<Seq<char>> {
    m.map_values(|e: (i64, Seq<char>)| e.1)
}

/// The characters of position-keyed rows.
pub open spec fn keyed_views(rows: Seq<(i64, String)>) -> Seq<(i64, Seq<char>)> {
    rows.map_values(|r: (i64, String)| (r.0, r.1@))
}

proof fn lemma_insert_at(m: Seq<(i64, Seq<char>)>, k: i64, v: Seq<char>, p: int)
    requires
        0 <= p <= m.len(),
        forall|j: int| 0 <= j < p ==> (#[trigger] m[j]).0 < k,
        p < m.len() ==> k <= m[p].0,
    ensures
        insert_at(m, k, v) == (if p < m.len() && m[p].0 == k {
            m.update(p, (k, v))
        } else {
            m.take(p).push((k, v)) + m.skip(p)
        }),
    decreases m.len(),
{
    if m.len() == 0 {
        assert(m.take(p).push((k, v)) + m.skip(p) =~= seq![(k, v)]);
    } else if p == 0 {
        if m[0].0 == k {
            assert(seq![(k, v)] + m.drop_first() =~= m.update(0, (k, v)));
        } else {
            assert(m.take(0).push((k, v)) + m.skip(0) =~= seq![(k, v)] + m);
        }
    } else {
        let t = m.drop_first();
        assert forall|j: int| 0 <= j < p - 1 implies (#[trigger] t[j]).0 < k by {
            assert(t[j] == m[j + 1]);
        }
        if p - 1 < t.len() {
            assert(t[p - 1] == m[p]);
        }
        assert(m[0].0 < k);
        lemma_insert_at(t, k, v, p - 1);
        if p < m.len() && m[p].0 == k {
            assert(seq![m[0]] + t.update(p - 1, (k, v)) =~= m.update(p, (k, v)));
        } else {
            assert(seq![m[0]] + (t.take(p - 1).push((k, v)) + t.skip(p - 1)) =~= m.take(p).push((k, v)) + m.skip(p));
        }
    }
}

fn insert_keyed(m: &mut Vec<(i64, String)>, k: i64, v: String)
    ensures
        keyed_views(final(m)@) == insert_at(keyed_views(old(m)@), k, v@),
{
    let mut p: usize = 0;
    while p < m.len() && m[p].0 < k
        invariant
            p <= m.len(),
            forall|j: int| 0 <= j < p ==> (#[trigger] m@[j]).0 < k,
        decreases m.len() - p,
    {
        p += 1;
    }
    let ghost before = m@;
    let ghost kv = keyed_views(before);
    proof {
        assert forall|j: int| 0 <= j < p implies (#[trigger] kv[j]).0 < k by {
            assert(kv[j].0 == before[j].0);
        }
        if p < before.len() {
            assert(kv[p as int].0 == before[p as int].0);
        }
        lemma_insert_at(kv, k, v@, p as int);
    }
    if p < m.len() && m[p].0 == k {
        let ghost vv = v@;
        m.set(p, (k, v));
        assert(keyed_views(m@) =~= kv.update(p as int, (k, vv)));
    } else {
        let ghost vv = v@;
        m.insert(p, (k, v));
        assert(keyed_views(m@) =~= kv.take(p as int).push((k, vv)) + kv.skip(p as int));
    }
}

fn keyed_values(m: &Vec<(i64, String)>) -> (r: Vec<String>)
    ensures
        texts(r@) == map_values_of(keyed_views(m@)),
{
    let mut r: Vec<String> = Vec::new();
    let mut i: usize = 0;
    while i < m.len()
        invariant
            i <= m.len(),
            r.len() == i,
            forall|j: int| 0 <= j < i ==> #[trigger] r@[j]@ == m@[j].1@,
        decreases m.len() - i,
    {
        r.push(m[i].1.clone());
        i += 1;
    }
    assert(texts(r@) =~= map_values_of(keyed_views(m@)));
    r
}

/// The constraint columns a catalog query returned, as (position, name) pairs: the
/// named ones, a missing position counting as 0.
pub open spec fn cons_rows(rows: Seq<(Option<i64>, Option<String>)>) -> Seq<(i64, Seq<char>)>
    decreases rows.len(),
{
    if rows.len() == 0 {
        Seq::empty()
    } else {
        let prev = cons_rows(rows.drop_last());
        match rows.last().1 {
            Some(c) => prev.push((match rows.last().0 { Some(p) => p, None => 0i64 }, c@)),
            None => prev,
        }
    }
}

/// The column names of a constraint, by position.
pub fn cons_columns(rows: &Vec<(Option<i64>, Option<String>)>) -> (r: Vec<String>)
    ensures
        texts(r@) == map_values_of(position_map(cons_rows(rows@))),
{
    let mut m: Vec<(i64, String)> = Vec::new();
    let mut i: usize = 0;
    assert(rows@.take(0) =~= Seq::<(Option<i64>, Option<String>)>::empty());
    assert(keyed_views(m@) =~= Seq::<(i64, Seq<char>)>::empty());
    while i < rows.len()
        invariant
            i <= rows.len(),
            keyed_views(m@) == position_map(cons_rows(rows@.take(i as int))),
        decreases rows.len() - i,
    {
        assert(rows@.take(i + 1).drop_last() =~= rows@.take(i as int));
        assert(rows@.take(i + 1).last() == rows@[i as int]);
        if let Some(c) = &rows[i].1 {
            let pos: i64 = match rows[i].0 {
                Some(p) => p,
                None => 0,
            };
            let ghost prev = cons_rows(rows@.take(i as int));
            assert(cons_rows(rows@.take(i + 1)) == prev.push((pos, c@)));
            assert(prev.push((pos, c@)).drop_last() =~= prev);
            insert_keyed(&mut m, pos, c.clone());
        }
        i += 1;
    }
    assert(rows@.take(rows.len() as int) =~= rows@);
    keyed_values(&m)
}

/// The index key rows a catalog query returned, as (position, text) pairs: those with
/// both a position and a text, the text trimmed when `trim_text`.
pub open spec fn part_rows(rows: Seq<(Option<i64>, Option<String>)>, trim_text: bool) -> Seq<(i64, Seq<char>)>
    decreases rows.len(),
{
    if rows.len() == 0 {
        Seq::empty()
    } else {
        let prev = part_rows(rows.drop_last(), trim_text);
        match (rows.last().0, rows.last().1) {
            (Some(p), Some(c)) => prev.push((p, if trim_text { trim(c@) } else { c@ })),
            _ => prev,
        }
    }
}

/// The key parts of an index by position: its columns, and for a function-based
/// index the trimmed expressions in place of the generated columns.
pub open spec fn index_part_texts(
    cols: Seq<(Option<i64>, Option<String>)>,
    exprs: Seq<(Option<i64>, Option<String>)>,
    function_based: bool,
) -> Seq<Seq<char>> {
    map_values_of(position_map(part_rows(cols, false) + (if function_based { part_rows(exprs, true) } else { Seq::empty() })))
}

proof fn lemma_position_map_append(a: Seq<(i64, Seq<char>)>, b: Seq<(i64, Seq<char>)>, x: (i64, Seq<char>))
    ensures
        position_map((a + b).push(x)) == insert_at(position_map(a + b), x.0, x.1),
{
    assert((a + b).push(x).drop_last() =~= a + b);
}

fn add_parts(m: &mut Vec<(i64, String)>, rows: &Vec<(Option<i64>, Option<String>)>, trim_text: bool, Ghost(base): Ghost<Seq<(i64, Seq<char>)>>)
    requires
        keyed_views(old(m)@) == position_map(base),
    ensures
        keyed_views(final(m)@) == position_map(base + part_rows(rows@, trim_text)),
{
    let mut i: usize = 0;
    assert(rows@.take(0) =~= Seq::<(Option<i64>, Option<String>)>::empty());
    assert(base + part_rows(rows@.take(0), trim_text) =~= base);
    while i < rows.len()
        invariant
            i <= rows.len(),
            keyed_views(m@) == position_map(base + part_rows(rows@.take(i as int), trim_text)),
        decreases rows.len() - i,
    {
        assert(rows@.take(i + 1).drop_last() =~= rows@.take(i as int));
        assert(rows@.take(i + 1).last() == rows@[i as int]);
        let ghost prev = part_rows(rows@.take(i as int), trim_text);
        match (&rows[i].0, &rows[i].1) {
            (Some(p), Some(c)) => {
                let t = if trim_text { trimmed(c.as_str()) } else { c.clone() };
                proof { lemma_position_map_append(base, prev, (*p, t@)); }
                assert(base + part_rows(rows@.take(i + 1), trim_text) =~= (base + prev).push((*p, t@)));
                insert_keyed(m, *p, t);
            },
            _ => {
                assert(base + part_rows(rows@.take(i + 1), trim_text) =~= base + prev);
            },
        }
        i += 1;
    }
    assert(rows@.take(rows.len() as int) =~= rows@);
}

/// The key parts of an index by position.
pub fn index_parts(
    cols: &Vec<(Option<i64>, Option<String>)>,
    exprs: &Vec<(Option<i64>, Option<String>)>,
    function_based: bool,
) -> (r: Vec<String>)
    ensures
        texts(r@) == index_part_texts(cols@, exprs@, function_based),
{
    let mut m: Vec<(i64, String)> = Vec::new();
    assert(keyed_views(m@) =~= position_map(Seq::<(i64, Seq<char>)>::empty()));
    add_parts(&mut m, cols, false, Ghost(Seq::empty()));
    assert(Seq::<(i64, Seq<char>)>::empty() + part_rows(cols@, false) =~= part_rows(cols@, false));
    if function_based {
        add_parts(&mut m, exprs, true, Ghost(part_rows(cols@, false)));
    } else {
        assert(part_rows(cols@, false) + Seq::<(i64, Seq<char>)>::empty() =~= part_rows(cols@, false));
    }
    keyed_values(&m)
}

/// The characters of a [`ColumnDef`].
pub struct ColumnDefView {
    pub name: Seq<char>,
    pub type_str: Seq<char>,
    pub default: Option<Seq<char>>,
    pub not_null: bool,
}

impl View for ColumnDef {
    type V = ColumnDefView;

    open spec fn view(&self) -> ColumnDefView {
        ColumnDefView { name: self.name@, type_str: self.type_str@, default: opt_view(self.default), not_null: self.not_null }
    }
}

/// The characters of an [`IndexDef`].
pub struct IndexDefView {
    pub name: Seq<char>,
    pub unique: bool,
    pub parts: Seq<Seq<char>>,
}

impl View for IndexDef {
    type V = IndexDefView;

    open spec fn view(&self) -> IndexDefView {
        IndexDefView { name: self.name@, unique: self.unique, parts: texts(self.parts@) }
    }
}

/// The characters of a [`ConstraintDef`].
pub struct ConstraintDefView {
    pub name: Seq<char>,
    pub kind: ConstraintKind,
    pub cols: Seq<Seq<char>>,
    pub ref_table: Option<Seq<char>>,
    pub ref_cols: Seq<Seq<char>>,
    pub delete_rule: Option<Seq<char>>,
    pub novalidate: bool,
    pub check_cond: Option<Seq<char>>,
}

impl View for ConstraintDef {
    type V = ConstraintDefView;

    open spec fn view(&self) -> ConstraintDefView {
        ConstraintDefView {
            name: self.name@,
            kind: self.kind,
            cols: texts(self.cols@),
            ref_table: opt_view(self.ref_table),
            ref_cols: texts(self.ref_cols@),
            delete_rule: opt_view(self.delete_rule),
            novalidate: self.novalidate,
            check_cond: opt_view(self.check_cond),
        }
    }
}

/// The characters of a [`TableModel`].
pub struct TableModelView {
    pub name: Seq<char>,
    pub columns: Seq<ColumnDefView>,
    pub table_comment: Option<Seq<char>>,
    pub column_comments: Seq<(Seq<char>, Seq<char>)>,
    pub indexes: Seq<IndexDefView>,
    pub constraints: Seq<ConstraintDefView>,
}

impl View for TableModel {
    type V = TableModelView;

    open spec fn view(&self) -> TableModelView {
        TableModelView {
            name: self.name@,
            columns: self.columns@.map_values(|c: ColumnDef| c@),
            table_comment: opt_view(self.table_comment),
            column_comments: self.column_comments@.map_values(|e: (String, String)| (e.0@, e.1@)),
            indexes: self.indexes@.map_values(|i: IndexDef| i@),
            constraints: self.constraints@.map_values(|c: ConstraintDef| c@),
        }
    }
}

/// A column as `ALL_TAB_COLUMNS` describes it.
pub struct ColumnRow {
    pub name: String,
    pub data_type: String,
    pub data_length: Option<i64>,
    pub data_precision: Option<i64>,
    pub data_scale: Option<i64>,
    pub char_length: Option<i64>,
    pub char_used: Option<String>,
    pub nullable: Option<String>,
    pub data_default: Option<String>,
}

/// An index as `ALL_INDEXES` describes it, with its key columns and expressions.
pub struct IndexRow {
    pub name: String,
    pub uniqueness: Option<String>,
    pub index_type: Option<String>,
    pub columns: Vec<(Option<i64>, Option<String>)>,
    pub expressions: Vec<(Option<i64>, Option<String>)>,
}

/// A constraint as `ALL_CONSTRAINTS` describes it, with its columns and, for a foreign
/// key, the referenced table and columns.
pub struct ConstraintRow {
    pub name: String,
    pub constraint_type: String,
    pub search_condition: Option<String>,
    pub r_owner: Option<String>,
    pub r_constraint: Option<String>,
    pub delete_rule: Option<String>,
    pub validated: Option<String>,
    pub columns: Vec<(Option<i64>, Option<String>)>,
    pub ref_table: Option<String>,
    pub ref_columns: Vec<(Option<i64>, Option<String>)>,
}

/// The trimmed text of an optional value, when there and not blank.
pub open spec fn trimmed_present(o: Option<String>) -> Option<Seq<char>> {
    match o {
        Some(d) => if trim(d@).len() > 0 { Some(trim(d@)) } else { None },
        None => None,
    }
}

/// A column of the model: its formatted type, trimmed default and nullability.
pub open spec fn column_def(r: ColumnRow) -> ColumnDefView {
    ColumnDefView {
        name: r.name@,
        type_str: column_type_spec(r.data_type@, r.data_length, r.data_precision, r.data_scale, r.char_length,
            opt_view(r.char_used)),
        default: trimmed_present(r.data_default),
        not_null: opt_view(r.nullable) == Some("N"@),
    }
}

/// The comment the rows give column `name`: the trimmed text of the last row for that
/// column with a non-blank text.
pub open spec fn comment_for(rows: Seq<(Option<String>, Option<String>)>, name: Seq<char>) -> Option<Seq<char>>
    decreases rows.len(),
{
    if rows.len() == 0 {
        None
    } else {
        match (rows.last().0, rows.last().1) {
            (Some(c), Some(t)) => if c@ == name && trim(t@).len() > 0 {
                Some(trim(t@))
            } else {
                comment_for(rows.drop_last(), name)
            },
            _ => comment_for(rows.drop_last(), name),
        }
    }
}

/// The column comments in column order.
pub open spec fn column_comments(cols: Seq<ColumnRow>, rows: Seq<(Option<String>, Option<String>)>) -> Seq<(Seq<char>, Seq<char>)>
    decreases cols.len(),
{
    if cols.len() == 0 {
        Seq::empty()
    } else {
        let prev = column_comments(cols.drop_last(), rows);
        match comment_for(rows, cols.last().name@) {
            Some(t) => prev.push((cols.last().name@, t)),
            None => prev,
        }
    }
}

/// An index of the model: unique when `UNIQUE`, its parts with expressions for a
/// function-based index.
pub open spec fn index_def(r: IndexRow) -> IndexDefView {
    let fb = match opt_view(r.index_type) {
        Some(t) => starts_with(t, "FUNCTION-BASED"@),
        None => false,
    };
    IndexDefView {
        name: r.name@,
        unique: opt_view(r.uniqueness) == Some("UNIQUE"@),
        parts: index_part_texts(r.columns@, r.expressions@, fb),
    }
}

/// A constraint of the model: primary keys, unique keys and foreign keys with their
/// columns; checks other than an automatic not-null; nothing for any other type.
pub open spec fn constraint_def(r: ConstraintRow) -> Option<ConstraintDefView> {
    let novalidate = opt_view(r.validated) == Some("NOT VALIDATED"@);
    let cols = map_values_of(position_map(cons_rows(r.columns@)));
    let t = r.constraint_type@;
    if t == "P"@ || t == "U"@ {
        Some(ConstraintDefView {
            name: r.name@,
            kind: if t == "P"@ { ConstraintKind::Primary } else { ConstraintKind::Unique },
            cols,
            ref_table: None,
            ref_cols: Seq::empty(),
            delete_rule: None,
            novalidate,
            check_cond: None,
        })
    } else if t == "R"@ {
        let linked = r.r_owner is Some && r.r_constraint is Some;
        Some(ConstraintDefView {
            name: r.name@,
            kind: ConstraintKind::ForeignKey,
            cols,
            ref_table: if linked { opt_view(r.ref_table) } else { None },
            ref_cols: if linked { map_values_of(position_map(cons_rows(r.ref_columns@))) } else { Seq::empty() },
            delete_rule: match opt_view(r.delete_rule) {
                Some(d) => if unicode_upper(d) != "NO ACTION"@ { Some(d) } else { None },
                None => None,
            },
            novalidate,
            check_cond: None,
        })
    } else if t == "C"@ {
        let cond = trim(or_empty(r.search_condition));
        if cond.len() == 0 || not_null_check(cond) {
            None
        } else {
            Some(ConstraintDefView {
                name: r.name@,
                kind: ConstraintKind::Check,
                cols: Seq::empty(),
                ref_table: None,
                ref_cols: Seq::empty(),
                delete_rule: None,
                novalidate,
                check_cond: Some(cond),
            })
        }
    } else {
        None
    }
}

/// The constraints of the model, in catalog order.
pub open spec fn constraint_defs(rows: Seq<ConstraintRow>) -> Seq<ConstraintDefView>
    decreases rows.len(),
{
    if rows.len() == 0 {
        Seq::empty()
    } else {
        let prev = constraint_defs(rows.drop_last());
        match constraint_def(rows.last()) {
            Some(c) => prev.push(c),
            None => prev,
        }
    }
}

/// The model of `schema.table` from its catalog rows; an error when the table has no
/// columns.
pub open spec fn assembled_model(
    schema: Seq<char>,
    table: Seq<char>,
    cols: Seq<ColumnRow>,
    table_comment: Option<String>,
    comments: Seq<(Option<String>, Option<String>)>,
    indexes: Seq<IndexRow>,
    constraints: Seq<ConstraintRow>,
) -> Result<TableModelView, Seq<char>> {
    if cols.len() == 0 {
        Err("Table "@ + table + " not found in schema "@ + schema)
    } else {
        Ok(TableModelView {
            name: table,
            columns: cols.map_values(|c: ColumnRow| column_def(c)),
            table_comment: match table_comment {
                Some(t) => if trim(t@).len() > 0 { Some(t@) } else { None },
                None => None,
            },
            column_comments: column_comments(cols, comments),
            indexes: indexes.map_values(|i: IndexRow| index_def(i)),
            constraints: constraint_defs(constraints),
        })
    }
}

/// The characters of an assembled model or its error.
pub open spec fn model_result_view(r: Result<TableModel, String>) -> Result<TableModelView, Seq<char>> {
    match r {
        Ok(m) => Ok(m@),
        Err(e) => Err(e@),
    }
}

fn trimmed_present_exec(o: &Option<String>) -> (r: Option<String>)
    ensures
        opt_view(r) == trimmed_present(*o),
{
    match o {
        Some(d) => {
            let t = trimmed(d.as_str());
            if t.as_str().is_empty() { None } else { Some(t) }
        },
        None => None,
    }
}

fn opt_str(o: &Option<String>) -> (r: Option<&str>)
    ensures
        match r { Some(s) => opt_view(*o) == Some(s@), None => o is None },
{
    match o {
        Some(s) => Some(s.as_str()),
        None => None,
    }
}

fn opt_is(o: &Option<String>, lit: &str) -> (r: bool)
    ensures
        r == (opt_view(*o) == Some(lit@)),
{
    match o {
        Some(s) => same_text(s.as_str(), lit),
        None => false,
    }
}

fn column_def_exec(r: &ColumnRow) -> (c: ColumnDef)
    ensures
        c@ == column_def(*r),
{
    let t = format_column_type(r.data_type.as_str(), r.data_length, r.data_precision, r.data_scale, r.char_length,
        opt_str(&r.char_used));
    ColumnDef {
        name: r.name.clone(),
        type_str: t,
        default: trimmed_present_exec(&r.data_default),
        not_null: opt_is(&r.nullable, "N"),
    }
}

fn comment_for_exec(rows: &Vec<(Option<String>, Option<String>)>, name: &str) -> (r: Option<String>)
    ensures
        opt_view(r) == comment_for(rows@, name@),
{
    let mut i: usize = rows.len();
    assert(rows@.take(i as int) =~= rows@);
    while i > 0
        invariant
            i <= rows.len(),
            comment_for(rows@.take(i as int), name@) == comment_for(rows@, name@),
        decreases i,
    {
        let ghost pre = rows@.take(i as int);
        assert(pre.drop_last() =~= rows@.take(i - 1));
        assert(pre.last() == rows@[i - 1]);
        if let (Some(c), Some(t)) = (&rows[i - 1].0, &rows[i - 1].1) {
            if same_text(c.as_str(), name) && !crate::text::is_blank(t.as_str()) {
                return Some(trimmed(t.as_str()));
            }
        }
        i -= 1;
    }
    None
}

fn index_def_exec(r: &IndexRow) -> (i: IndexDef)
    ensures
        i@ == index_def(*r),
{
    let fb = match &r.index_type {
        Some(t) => crate::text::str_starts_with(t.as_str(), "FUNCTION-BASED"),
        None => false,
    };
    IndexDef {
        name: r.name.clone(),
        unique: opt_is(&r.uniqueness, "UNIQUE"),
        parts: index_parts(&r.columns, &r.expressions, fb),
    }
}

fn constraint_def_exec(r: &ConstraintRow) -> (c: Option<ConstraintDef>)
    ensures
        match c { Some(x) => constraint_def(*r) == Some(x@), None => constraint_def(*r) is None },
{
    let novalidate = opt_is(&r.validated, "NOT VALIDATED");
    let t = r.constraint_type.as_str();
    if same_text(t, "P") || same_text(t, "U") {
        let kind = if same_text(t, "P") { ConstraintKind::Primary } else { ConstraintKind::Unique };
        let out = ConstraintDef {
            name: r.name.clone(),
            kind,
            cols: cons_columns(&r.columns),
            ref_table: None,
            ref_cols: Vec::new(),
            delete_rule: None,
            novalidate,
            check_cond: None,
        };
        assert(texts(out.ref_cols@) =~= Seq::<Seq<char>>::empty());
        Some(out)
    } else if same_text(t, "R") {
        let linked = r.r_owner.is_some() && r.r_constraint.is_some();
        let ref_table = if linked {
            match &r.ref_table {
                Some(x) => Some(x.clone()),
                None => None,
            }
        } else {
            None
        };
        let ref_cols = if linked { cons_columns(&r.ref_columns) } else { Vec::new() };
        let delete_rule = match &r.delete_rule {
            Some(d) => {
                let up = to_uppercase(d.as_str());
                if !same_text(up.as_str(), "NO ACTION") { Some(d.clone()) } else { None }
            },
            None => None,
        };
        let out = ConstraintDef {
            name: r.name.clone(),
            kind: ConstraintKind::ForeignKey,
            cols: cons_columns(&r.columns),
            ref_table,
            ref_cols,
            delete_rule,
            novalidate,
            check_cond: None,
        };
        assert(!linked ==> texts(out.ref_cols@) =~= Seq::<Seq<char>>::empty());
        Some(out)
    } else if same_text(t, "C") {
        let cond = trimmed(text_or_empty(&r.search_condition));
        if cond.as_str().is_empty() || is_not_null_check(cond.as_str()) {
            None
        } else {
            let out = ConstraintDef {
                name: r.name.clone(),
                kind: ConstraintKind::Check,
                cols: Vec::new(),
                ref_table: None,
                ref_cols: Vec::new(),
                delete_rule: None,
                novalidate,
                check_cond: Some(cond),
            };
            assert(texts(out.cols@) =~= Seq::<Seq<char>>::empty());
            assert(texts(out.ref_cols@) =~= Seq::<Seq<char>>::empty());
            Some(out)
        }
    } else {
        None
    }
}

/// The model of `schema.table` assembled from its catalog rows; an error when the
/// table has no columns.
pub fn assemble_table_model(
    schema: &str,
    table: &str,
    columns: &Vec<ColumnRow>,
    table_comment: Option<String>,
    comments: &Vec<(Option<String>, Option<String>)>,
    indexes: &Vec<IndexRow>,
    constraints: &Vec<ConstraintRow>,
) -> (r: Result<TableModel, String>)
    ensures
        model_result_view(r) == assembled_model(schema@, table@, columns@, table_comment, comments@, indexes@,
            constraints@),
{
    if columns.len() == 0 {
        let mut e = "Table ".to_string();
        e.append(table);
        e.append(" not found in schema ");
        e.append(schema);
        return Err(e);
    }
    let mut cols: Vec<ColumnDef> = Vec::new();
    let mut col_comments: Vec<(String, String)> = Vec::new();
    let mut i: usize = 0;
    assert(columns@.take(0) =~= Seq::<ColumnRow>::empty());
    while i < columns.len()
        invariant
            i <= columns.len(),
            cols.len() == i,
            forall|j: int| 0 <= j < i ==> #[trigger] cols@[j]@ == column_def(columns@[j]),
            col_comments@.map_values(|e: (String, String)| (e.0@, e.1@)) == column_comments(columns@.take(i as int), comments@),
        decreases columns.len() - i,
    {
        let r = &columns[i];
        assert(columns@.take(i + 1).drop_last() =~= columns@.take(i as int));
        assert(columns@.take(i + 1).last() == *r);
        cols.push(column_def_exec(r));
        if let Some(t) = comment_for_exec(comments, r.name.as_str()) {
            let ghost before = col_comments@;
            let ghost tv = t@;
            col_comments.push((r.name.clone(), t));
            assert(col_comments@.map_values(|e: (String, String)| (e.0@, e.1@))
                =~= before.map_values(|e: (String, String)| (e.0@, e.1@)).push((r.name@, tv)));
        }
        i += 1;
    }
    assert(columns@.take(columns.len() as int) =~= columns@);
    let mut idx: Vec<IndexDef> = Vec::new();
    let mut k: usize = 0;
    while k < indexes.len()
        invariant
            k <= indexes.len(),
            idx.len() == k,
            forall|j: int| 0 <= j < k ==> #[trigger] idx@[j]@ == index_def(indexes@[j]),
        decreases indexes.len() - k,
    {
        idx.push(index_def_exec(&indexes[k]));
        k += 1;
    }
    let mut cons: Vec<ConstraintDef> = Vec::new();
    let mut x: usize = 0;
    assert(constraints@.take(0) =~= Seq::<ConstraintRow>::empty());
    assert(cons@.map_values(|c: ConstraintDef| c@) =~= Seq::<ConstraintDefView>::empty());
    while x < constraints.len()
        invariant
            x <= constraints.len(),
            cons@.map_values(|c: ConstraintDef| c@) == constraint_defs(constraints@.take(x as int)),
        decreases constraints.len() - x,
    {
        assert(constraints@.take(x + 1).drop_last() =~= constraints@.take(x as int));
        assert(constraints@.take(x + 1).last() == constraints@[x as int]);
        if let Some(c) = constraint_def_exec(&constraints[x]) {
            let ghost before = cons@;
            let ghost cv = c@;
            cons.push(c);
            assert(cons@.map_values(|c: ConstraintDef| c@) =~= before.map_values(|c: ConstraintDef| c@).push(cv));
        }
        x += 1;
    }
    assert(constraints@.take(constraints.len() as int) =~= constraints@);
    let tc = match table_comment {
        Some(t) => if crate::text::is_blank(t.as_str()) { None } else { Some(t) },
        None => None,
    };
    let m = TableModel {
        name: table.to_string(),
        columns: cols,
        table_comment: tc,
        column_comments: col_comments,
        indexes: idx,
        constraints: cons,
    };
    assert(m@.columns =~= columns@.map_values(|c: ColumnRow| column_def(c)));
    assert(m@.indexes =~= indexes@.map_values(|i: IndexRow| index_def(i)));
    Ok(m)
}

// ───────────────────────── synonyms and result columns ─────────────────────────

/// `CREATE OR REPLACE SYNONYM name FOR [owner.]table[@link];` from `ALL_SYNONYMS`,
/// the owner kept unless blank, the database link trimmed and kept unless blank.
pub open spec fn synonym_text(name: Seq<char>, owner: Option<Seq<char>>, table: Seq<char>, link: Option<Seq<char>>) -> Seq<char> {
    let target = match owner {
        Some(o) => if trim(o).len() > 0 { o + seq!['.'] + table } else { table },
        None => table,
    };
    let full = match link {
        Some(l) => if trim(l).len() > 0 { target + seq!['@'] + trim(l) } else { target },
        None => target,
    };
    "CREATE OR REPLACE SYNONYM "@ + name + " FOR "@ + full + seq![';']
}

/// The DDL of a synonym, assembled so that the target's owner is kept.
pub fn synonym_ddl(name: &str, table_owner: &Option<String>, table_name: &str, db_link: &Option<String>) -> (r: String)
    ensures
        r@ == synonym_text(name@, opt_view(*table_owner), table_name@, opt_view(*db_link)),
{
    let mut target = String::new();
    match table_owner {
        Some(o) => {
            if !crate::text::is_blank(o.as_str()) {
                target.append(o.as_str());
                push_char(&mut target, '.');
            }
        },
        None => {},
    }
    target.append(table_name);
    match db_link {
        Some(l) => {
            if !crate::text::is_blank(l.as_str()) {
                push_char(&mut target, '@');
                target.append(trimmed(l.as_str()).as_str());
            }
        },
        None => {},
    }
    let mut r = "CREATE OR REPLACE SYNONYM ".to_string();
    r.append(name);
    r.append(" FOR ");
    r.append(target.as_str());
    push_char(&mut r, ';');
    assert(r@ =~= synonym_text(name@, opt_view(*table_owner), table_name@, opt_view(*db_link)));
    r
}

/// The Oracle type of a result-set column, as the driver reports it.
pub enum OracleColumnType {
    Varchar2,
    NVarchar2,
    Char,
    NChar,
    Number,
    Float,
    BinaryFloat,
    BinaryDouble,
    Int64,
    UInt64,
    Date,
    Timestamp,
    TimestampTZ,
    TimestampLTZ,
    IntervalDS,
    IntervalYM,
    Clob,
    NClob,
    Blob,
    BFile,
    Long,
    LongRaw,
    Raw,
    Rowid,
    Boolean,
    /// Any other type, by the driver's own description of it.
    Other(String),
}

/// How a result-set column is turned into display text.
#[derive(Clone, Copy, Debug, PartialEq, Eq, Structural)]
pub enum CellKind {
    /// Plain value readable as text.
    Text,
    /// Text LOB, shown as a placeholder and fetched on demand.
    TextLob,
    /// Large binary LOB, shown as a placeholder and never read as text.
    BinaryLob,
    /// Small RAW value, shown as hexadecimal.
    Raw,
}

/// How a column of type `t` is displayed.
pub open spec fn cell_kind_of(t: OracleColumnType) -> CellKind {
    match t {
        OracleColumnType::Blob | OracleColumnType::BFile | OracleColumnType::LongRaw => CellKind::BinaryLob,
        OracleColumnType::Clob | OracleColumnType::NClob | OracleColumnType::Long => CellKind::TextLob,
        OracleColumnType::Raw => CellKind::Raw,
        _ => CellKind::Text,
    }
}

/// How a column of type `t` is displayed.
pub fn cell_kind(t: &OracleColumnType) -> (k: CellKind)
    ensures
        k == cell_kind_of(*t),
{
    match t {
        OracleColumnType::Blob | OracleColumnType::BFile | OracleColumnType::LongRaw => CellKind::BinaryLob,
        OracleColumnType::Clob | OracleColumnType::NClob | OracleColumnType::Long => CellKind::TextLob,
        OracleColumnType::Raw => CellKind::Raw,
        _ => CellKind::Text,
    }
}

/// The short type label the UI shows for a column.
pub open spec fn type_label_of(t: OracleColumnType) -> Seq<char> {
    match t {
        OracleColumnType::Varchar2 => "VARCHAR2"@,
        OracleColumnType::NVarchar2 => "NVARCHAR2"@,
        OracleColumnType::Char => "CHAR"@,
        OracleColumnType::NChar => "NCHAR"@,
        OracleColumnType::Number => "NUMBER"@,
        OracleColumnType::Float => "FLOAT"@,
        OracleColumnType::BinaryFloat => "BINARY_FLOAT"@,
        OracleColumnType::BinaryDouble => "BINARY_DOUBLE"@,
        OracleColumnType::Int64 => "INTEGER"@,
        OracleColumnType::UInt64 => "INTEGER"@,
        OracleColumnType::Date => "DATE"@,
        OracleColumnType::Timestamp => "TIMESTAMP"@,
        OracleColumnType::TimestampTZ => "TIMESTAMP WITH TIME ZONE"@,
        OracleColumnType::TimestampLTZ => "TIMESTAMP WITH LOCAL TIME ZONE"@,
        OracleColumnType::IntervalDS => "INTERVAL DAY TO SECOND"@,
        OracleColumnType::IntervalYM => "INTERVAL YEAR TO MONTH"@,
        OracleColumnType::Clob => "CLOB"@,
        OracleColumnType::NClob => "NCLOB"@,
        OracleColumnType::Blob => "BLOB"@,
        OracleColumnType::BFile => "BFILE"@,
        OracleColumnType::Long => "LONG"@,
        OracleColumnType::LongRaw => "LONG RAW"@,
        OracleColumnType::Raw => "RAW"@,
        OracleColumnType::Rowid => "ROWID"@,
        OracleColumnType::Boolean => "BOOLEAN"@,
        OracleColumnType::Other(d) => d@,
    }
}

/// The short type label the UI shows for a column.
pub fn type_label(t: &OracleColumnType) -> (r: String)
    ensures
        r@ == type_label_of(*t),
{
    match t {
        OracleColumnType::Varchar2 => "VARCHAR2".to_string(),
        OracleColumnType::NVarchar2 => "NVARCHAR2".to_string(),
        OracleColumnType::Char => "CHAR".to_string(),
        OracleColumnType::NChar => "NCHAR".to_string(),
        OracleColumnType::Number => "NUMBER".to_string(),
        OracleColumnType::Float => "FLOAT".to_string(),
        OracleColumnType::BinaryFloat => "BINARY_FLOAT".to_string(),
        OracleColumnType::BinaryDouble => "BINARY_DOUBLE".to_string(),
        OracleColumnType::Int64 => "INTEGER".to_string(),
        OracleColumnType::UInt64 => "INTEGER".to_string(),
        OracleColumnType::Date => "DATE".to_string(),
        OracleColumnType::Timestamp => "TIMESTAMP".to_string(),
        OracleColumnType::TimestampTZ => "TIMESTAMP WITH TIME ZONE".to_string(),
        OracleColumnType::TimestampLTZ => "TIMESTAMP WITH LOCAL TIME ZONE".to_string(),
        OracleColumnType::IntervalDS => "INTERVAL DAY TO SECOND".to_string(),
        OracleColumnType::IntervalYM => "INTERVAL YEAR TO MONTH".to_string(),
        OracleColumnType::Clob => "CLOB".to_string(),
        OracleColumnType::NClob => "NCLOB".to_string(),
        OracleColumnType::Blob => "BLOB".to_string(),
        OracleColumnType::BFile => "BFILE".to_string(),
        OracleColumnType::Long => "LONG".to_string(),
        OracleColumnType::LongRaw => "LONG RAW".to_string(),
        OracleColumnType::Raw => "RAW".to_string(),
        OracleColumnType::Rowid => "ROWID".to_string(),
        OracleColumnType::Boolean => "BOOLEAN".to_string(),
        OracleColumnType::Other(d) => d.clone(),
    }
}

// ───────────────────────── object DDL requests ─────────────────────────

/// The object type name `DBMS_METADATA` knows an upper-cased object type by.
pub open spec fn metadata_type_of(upper_type: Seq<char>) -> Seq<char> {
    if upper_type == "PACKAGE BODY"@ {
        "PACKAGE_BODY"@
    } else if upper_type == "TYPE BODY"@ {
        "TYPE_BODY"@
    } else if upper_type == "MATERIALIZED VIEW"@ {
        "MATERIALIZED_VIEW"@
    } else if upper_type == "JOB"@ {
        "PROCOBJ"@
    } else {
        upper_type
    }
}

pub fn metadata_type(upper_type: &str) -> (r: String)
    ensures
        r@ == metadata_type_of(upper_type@),
{
    if same_text(upper_type, "PACKAGE BODY") {
        "PACKAGE_BODY".to_string()
    } else if same_text(upper_type, "TYPE BODY") {
        "TYPE_BODY".to_string()
    } else if same_text(upper_type, "MATERIALIZED VIEW") {
        "MATERIALIZED_VIEW".to_string()
    } else if same_text(upper_type, "JOB") {
        "PROCOBJ".to_string()
    } else {
        upper_type.to_string()
    }
}

/// The error for an object `DBMS_METADATA` returned no DDL for.
pub fn ddl_not_found(upper_type: &str, upper_name: &str) -> (r: String)
    ensures
        r@ == "DDL not found for "@ + upper_type@ + " "@ + upper_name@,
{
    let mut e = String::new();
    e.append("DDL not found for ");
    e.append(upper_type);
    e.append(" ");
    e.append(upper_name);
    e
}

/// The error for a synonym the catalog does not have.
pub fn synonym_not_found(name: &str, schema: &str) -> (r: String)
    ensures
        r@ == "Synonym "@ + name@ + " not found in schema "@ + schema@,
{
    let mut e = String::new();
    e.append("Synonym ");
    e.append(name);
    e.append(" not found in schema ");
    e.append(schema);
    e
}

/// The EZConnect descriptor of a connection: `//host:port/service`.
pub fn connect_string(host: &str, port: u16, service_name: &str) -> (r: String)
    ensures
        r@ == "//"@ + host@ + ":"@ + crate::text::decimal(port as nat) + "/"@ + service_name@,
{
    let mut s = String::new();
    s.append("//");
    s.append(host);
    s.append(":");
    s.append(crate::text::decimal_exec(port as u64).as_str());
    s.append("/");
    s.append(service_name);
    s
}

// ───────────────────────── result cells ─────────────────────────

/// What has to be read from a result row to show a cell.
#[derive(Clone, Copy, Debug, PartialEq, Eq, Structural)]
pub enum CellRead {
    /// Nothing: the cell shows a placeholder.
    Nothing,
    Text,
    Bytes,
}

/// LOBs are read only when materialized; RAW is read as bytes, the rest as text.
pub open spec fn cell_read_of(kind: CellKind, materialize: bool) -> CellRead {
    match kind {
        CellKind::BinaryLob => if materialize { CellRead::Bytes } else { CellRead::Nothing },
        CellKind::TextLob => if materialize { CellRead::Text } else { CellRead::Nothing },
        CellKind::Raw => CellRead::Bytes,
        CellKind::Text => CellRead::Text,
    }
}

pub fn cell_read(kind: CellKind, materialize: bool) -> (r: CellRead)
    ensures
        r == cell_read_of(kind, materialize),
{
    match kind {
        CellKind::BinaryLob => if materialize { CellRead::Bytes } else { CellRead::Nothing },
        CellKind::TextLob => if materialize { CellRead::Text } else { CellRead::Nothing },
        CellKind::Raw => CellRead::Bytes,
        CellKind::Text => CellRead::Text,
    }
}

/// What was read from a result row for a cell.
pub enum CellValue {
    NotRead,
    Text(Option<String>),
    Bytes(Option<Vec<u8>>),
    /// The driver could not convert the value.
    Unreadable,
}

/// What a result cell shows: LOB placeholders unless materialized, BLOB content as
/// text or hex, CLOB text capped, RAW in hex, text as read; a placeholder for a value
/// that could not be read.
pub open spec fn cell_shown(kind: CellKind, materialize: bool, v: CellValue) -> Option<Seq<char>> {
    match kind {
        CellKind::BinaryLob => if !materialize {
            Some("<BLOB>"@)
        } else {
            match v {
                CellValue::Bytes(Some(b)) => Some(bytes_display(b@)),
                CellValue::Bytes(None) => None,
                _ => Some("<BLOB>"@),
            }
        },
        CellKind::TextLob => if !materialize {
            Some("<CLOB>"@)
        } else {
            match v {
                CellValue::Text(Some(t)) => Some(capped(t@, MATERIALIZE_TEXT_CAP as nat)),
                CellValue::Text(None) => None,
                _ => Some("<CLOB>"@),
            }
        },
        CellKind::Raw => match v {
            CellValue::Bytes(Some(b)) => Some(hex_text(b@, 512)),
            CellValue::Bytes(None) => None,
            _ => Some("<RAW>"@),
        },
        CellKind::Text => match v {
            CellValue::Text(t) => opt_view(t),
            _ => Some("<?>"@),
        },
    }
}

pub fn cell_display(kind: CellKind, materialize: bool, v: CellValue) -> (r: Option<String>)
    ensures
        opt_view(r) == cell_shown(kind, materialize, v),
{
    match kind {
        CellKind::BinaryLob => if !materialize {
            Some("<BLOB>".to_string())
        } else {
            match v {
                CellValue::Bytes(Some(b)) => Some(bytes_to_display(b.as_slice())),
                CellValue::Bytes(None) => None,
                _ => Some("<BLOB>".to_string()),
            }
        },
        CellKind::TextLob => if !materialize {
            Some("<CLOB>".to_string())
        } else {
            match v {
                CellValue::Text(Some(t)) => Some(cap_chars(t, MATERIALIZE_TEXT_CAP)),
                CellValue::Text(None) => None,
                _ => Some("<CLOB>".to_string()),
            }
        },
        CellKind::Raw => match v {
            CellValue::Bytes(Some(b)) => Some(bytes_to_hex(b.as_slice(), 512)),
            CellValue::Bytes(None) => None,
            _ => Some("<RAW>".to_string()),
        },
        CellKind::Text => match v {
            CellValue::Text(t) => t,
            _ => Some("<?>".to_string()),
        },
    }
}

} // verus!
