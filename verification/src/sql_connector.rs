//! Query results as plain values, and their export as separated text.

use vstd::prelude::*;
use crate::text::{
    chars_of, contains, contains_text, doubled, find_char, joined, lemma_first_index,
    push_doubled, push_joined,
};

verus! {

/// One column of a result set.
#[derive(Debug)]
pub struct SqlColumn {
    pub name: String,
    pub sql_type: i16,
    pub size: usize,
}

/// The mathematical content of a `SqlColumn`.
pub struct SqlColumnView {
    pub name: Seq<char>,
    pub sql_type: int,
    pub size: nat,
}

impl DeepView for SqlColumn {
    type V = SqlColumnView;

    open spec fn deep_view(&self) -> SqlColumnView {
        SqlColumnView {
            name: self.name@,
            sql_type: self.sql_type as int,
            size: self.size as nat,
        }
    }
}

impl Default for SqlColumn {
    fn default() -> (r: Self)
        ensures
            r.deep_view() == (SqlColumnView { name: Seq::empty(), sql_type: 0, size: 0 }),
    {
        SqlColumn { name: String::new(), sql_type: 0, size: 0 }
    }
}

impl Clone for SqlColumn {
    fn clone(&self) -> (r: Self)
        ensures
            r.deep_view() == self.deep_view(),
    {
        SqlColumn { name: self.name.clone(), sql_type: self.sql_type, size: self.size }
    }
}

/// What running a statement gave.
#[derive(Debug)]
pub struct SqlResult {
    pub success: bool,
    pub error: Option<String>,
    pub columns: Vec<SqlColumn>,
    pub rows: Vec<Vec<String>>,
    pub rows_affected: i32,
}

/// The mathematical content of a `SqlResult`.
pub struct SqlResultView {
    pub success: bool,
    pub error: Option<Seq<char>>,
    pub columns: Seq<SqlColumnView>,
    pub rows: Seq<Seq<Seq<char>>>,
    pub rows_affected: int,
}

impl DeepView for SqlResult {
    type V = SqlResultView;

    open spec fn deep_view(&self) -> SqlResultView {
        SqlResultView {
            success: self.success,
            error: self.error.deep_view(),
            columns: self.columns.deep_view(),
            rows: self.rows.deep_view(),
            rows_affected: self.rows_affected as int,
        }
    }
}

impl SqlResultView {
    /// A result without data: the flag, the error and nothing else.
    pub open spec fn bare(success: bool, error: Option<Seq<char>>) -> SqlResultView {
        SqlResultView {
            success,
            error,
            columns: Seq::empty(),
            rows: Seq::empty(),
            rows_affected: 0,
        }
    }
}

impl SqlResult {
    /// A result without data.
    fn bare(success: bool, error: Option<String>) -> (r: Self)
        ensures
            r.deep_view() == SqlResultView::bare(success, error.deep_view()),
    {
        let columns: Vec<SqlColumn> = Vec::new();
        let rows: Vec<Vec<String>> = Vec::new();
        assert(columns.deep_view() =~= Seq::<SqlColumnView>::empty());
        assert(rows.deep_view() =~= Seq::<Seq<Seq<char>>>::empty());
        SqlResult { success, error, columns, rows, rows_affected: 0 }
    }

    /// A successful result without data.
    pub fn success() -> (r: Self)
        ensures
            r.deep_view() == SqlResultView::bare(true, None),
    {
        Self::bare(true, None)
    }

    /// A failed result with its message.
    pub fn error(msg: &str) -> (r: Self)
        ensures
            r.deep_view() == SqlResultView::bare(false, Some(msg@)),
    {
        Self::bare(false, Some(msg.to_owned()))
    }
}

impl Default for SqlResult {
    fn default() -> (r: Self)
        ensures
            r.deep_view() == SqlResultView::bare(false, None),
    {
        Self::bare(false, None)
    }
}

/// Whether a field must be quoted: it holds the separator, a double quote or
/// a line feed.
pub open spec fn needs_quotes(value: Seq<char>, separator: Seq<char>) -> bool {
    contains_text(value, separator) || value.contains('"') || value.contains('\n')
}

/// A field as it is written: in double quotes, with the quotes inside
/// doubled, where it must be quoted, else as it is.
pub open spec fn csv_field(value: Seq<char>, separator: Seq<char>) -> Seq<char> {
    if needs_quotes(value, separator) {
        seq!['"'] + doubled(value, '"') + seq!['"']
    } else {
        value
    }
}

/// Whether `v` holds `c`.
fn holds(v: &Vec<char>, c: char) -> (r: bool)
    ensures
        r == v@.contains(c),
{
    let at = find_char(v, 0, c);
    proof {
        assert(v@.skip(0) == v@);
        lemma_first_index(v@, c);
    }
    at < v.len()
}

/// Writes a field for separated text.
pub fn escape_csv_field(value: &str, separator: &str) -> (r: String)
    ensures
        r@ == csv_field(value@, separator@),
{
    let v = chars_of(value);
    let s = chars_of(separator);
    let quote = contains(&v, &s) || holds(&v, '"') || holds(&v, '\n');
    if quote {
        let mut out = String::new();
        out.push('"');
        push_doubled(&mut out, &v, 0, '"');
        out.push('"');
        assert(v@.skip(0) == v@);
        out
    } else {
        value.to_owned()
    }
}

/// One line of separated text: the fields as they are written, the separator
/// between them, a line feed at the end.
pub open spec fn csv_line(fields: Seq<Seq<char>>, separator: Seq<char>) -> Seq<char> {
    joined(fields.map_values(|f: Seq<char>| csv_field(f, separator)), separator) + seq!['\n']
}

/// The lines of `rows`, one after the other.
pub open spec fn csv_lines(rows: Seq<Seq<Seq<char>>>, separator: Seq<char>) -> Seq<char>
    decreases rows.len(),
{
    if rows.len() == 0 {
        Seq::empty()
    } else {
        csv_lines(rows.drop_last(), separator) + csv_line(rows.last(), separator)
    }
}

/// The names of the columns.
pub open spec fn column_names(columns: Seq<SqlColumnView>) -> Seq<Seq<char>> {
    columns.map_values(|c: SqlColumnView| c.name)
}

/// A result set as separated text: the header line, then one line per row.
pub open spec fn csv_text(result: SqlResultView, separator: Seq<char>) -> Seq<char> {
    csv_line(column_names(result.columns), separator) + csv_lines(result.rows, separator)
}

/// Appends one line of separated text to `out`.
fn push_csv_line(out: &mut String, fields: &Vec<String>, separator: &str)
    ensures
        final(out)@ == old(out)@ + csv_line(fields.deep_view(), separator@),
{
    let mut written: Vec<String> = Vec::new();
    let mut i: usize = 0;
    while i < fields.len()
        invariant
            i <= fields.len(),
            written.len() == i,
            forall|k: int| 0 <= k < i ==> (#[trigger] written[k])@ == csv_field(fields[k]@, separator@),
        decreases fields.len() - i,
    {
        written.push(escape_csv_field(fields[i].as_str(), separator));
        i += 1;
    }
    assert(written.deep_view() =~= fields.deep_view().map_values(
        |f: Seq<char>| csv_field(f, separator@),
    ));
    push_joined(out, &written, separator);
    out.push('\n');
}

/// Writes a result set as separated text: the header line, then one line per
/// row, each closed by a line feed.
pub fn result_to_csv(result: &SqlResult, separator: &str) -> (r: String)
    ensures
        r@ == csv_text(result.deep_view(), separator@),
{
    let mut names: Vec<String> = Vec::new();
    let mut k: usize = 0;
    while k < result.columns.len()
        invariant
            k <= result.columns.len(),
            names.len() == k,
            forall|j: int| 0 <= j < k ==> (#[trigger] names[j])@ == result.columns[j].name@,
        decreases result.columns.len() - k,
    {
        names.push(result.columns[k].name.clone());
        k += 1;
    }
    assert(names.deep_view() =~= column_names(result.columns.deep_view()));
    let mut out = String::new();
    push_csv_line(&mut out, &names, separator);
    let ghost header = out@;
    let ghost rows = result.rows.deep_view();
    let mut i: usize = 0;
    while i < result.rows.len()
        invariant
            i <= result.rows.len(),
            rows == result.rows.deep_view(),
            out@ == header + csv_lines(rows.take(i as int), separator@),
        decreases result.rows.len() - i,
    {
        proof {
            assert(rows.take(i + 1).drop_last() == rows.take(i as int));
        }
        push_csv_line(&mut out, &result.rows[i], separator);
        i += 1;
    }
    assert(rows.take(result.rows.len() as int) == rows);
    out
}

} // verus!
