//! Rendering the rows of a sitemap table as delimited text, aligned plain
//! text, a boxed table or a Markdown table.

use vstd::prelude::*;
use std::io::Write;
use crate::columns::{
    build_headers_and_columns, selected_cells, selected_headers, strings_view, table_view,
    transpose, transpose_columns, FieldSelection, SitemapEntry,
};

verus! {

#[verifier::external_type_specification]
#[verifier::external_body]
pub struct ExTable(comfy_table::Table);

/// A csv writer over memory. Verus cannot take `csv::Writer`'s declaration,
/// whose parameter is bound by `std::io::Write`, so it is held here.
#[verifier::external_body]
pub struct CsvBuffer {
    writer: csv::Writer<Vec<u8>>,
}

#[verifier::external_type_specification]
#[verifier::external_body]
pub struct ExCsvError(csv::Error);

/// The header row that a comfy_table table holds, if any.
pub uninterp spec fn table_header(t: comfy_table::Table) -> Option<Seq<Seq<char>>>;

/// The data rows that a comfy_table table holds, in order.
pub uninterp spec fn table_rows(t: comfy_table::Table) -> Seq<Seq<Seq<char>>>;

/// Whether a comfy_table table draws its borders in the Markdown style.
pub uninterp spec fn table_markdown(t: comfy_table::Table) -> bool;

/// The text that comfy_table draws for a table of that style, header and rows.
pub uninterp spec fn table_text(
    markdown: bool,
    header: Option<Seq<Seq<char>>>,
    rows: Seq<Seq<Seq<char>>>,
) -> Seq<char>;

/// The text that tabwriter makes of tab-separated lines, with the columns
/// padded into alignment.
pub uninterp spec fn tab_aligned(text: Seq<char>) -> Seq<char>;

/// The records that a csv writer has taken, in order.
pub uninterp spec fn csv_records(w: CsvBuffer) -> Seq<Seq<Seq<char>>>;

/// Whether a csv writer that has taken `records` takes `record` too.
pub uninterp spec fn csv_accepts(records: Seq<Seq<Seq<char>>>, record: Seq<Seq<char>>) -> bool;

/// The text that a csv writer holds after `records`, or `None` where it
/// cannot hand it back.
pub uninterp spec fn csv_text(records: Seq<Seq<Seq<char>>>) -> Option<Seq<char>>;

/// Relies on comfy_table's `Table::new`: no header, no rows, the default
/// border style.
#[verifier::external_body]
fn table_new() -> (t: comfy_table::Table)
    ensures
        table_header(t) is None,
        table_rows(t) == Seq::<Seq<Seq<char>>>::empty(),
        !table_markdown(t),
{
    comfy_table::Table::new()
}

/// Relies on comfy_table's `Table::load_preset` with `ASCII_MARKDOWN`: the
/// Markdown border style; header and rows stay.
#[verifier::external_body]
fn table_use_markdown(t: &mut comfy_table::Table)
    ensures
        table_markdown(*final(t)),
        table_header(*final(t)) == table_header(*old(t)),
        table_rows(*final(t)) == table_rows(*old(t)),
{
    t.load_preset(comfy_table::presets::ASCII_MARKDOWN);
}

/// Relies on comfy_table's `Table::set_header`: the header row becomes
/// `header`; rows and style stay.
#[verifier::external_body]
fn table_set_header(t: &mut comfy_table::Table, header: Vec<String>)
    ensures
        table_header(*final(t)) == Some(strings_view(header@)),
        table_rows(*final(t)) == table_rows(*old(t)),
        table_markdown(*final(t)) == table_markdown(*old(t)),
{
    t.set_header(header);
}

/// Relies on comfy_table's `Table::add_row`: `row` is appended; header and
/// style stay.
#[verifier::external_body]
fn table_add_row(t: &mut comfy_table::Table, row: Vec<String>)
    ensures
        table_rows(*final(t)) == table_rows(*old(t)).push(strings_view(row@)),
        table_header(*final(t)) == table_header(*old(t)),
        table_markdown(*final(t)) == table_markdown(*old(t)),
{
    t.add_row(row);
}

/// Relies on comfy_table's `Display` for `Table`: the drawn table. Built
/// without its `tty` feature, comfy_table looks at no terminal, so the text
/// depends on the style, header and rows alone.
#[verifier::external_body]
fn table_to_string(t: &comfy_table::Table) -> (r: String)
    ensures
        r@ == table_text(table_markdown(*t), table_header(*t), table_rows(*t)),
{
    t.to_string()
}

/// Relies on tabwriter's `TabWriter` over a `Vec<u8>`: the text written in,
/// flushed, with its tab-separated columns aligned. Writing to memory does
/// not fail, and the padding keeps UTF-8 text UTF-8.
#[verifier::external_body]
fn tab_align(text: &str) -> (r: String)
    ensures
        r@ == tab_aligned(text@),
{
    let mut tw = tabwriter::TabWriter::new(Vec::new());
    tw.write_all(text.as_bytes()).unwrap();
    tw.flush().unwrap();
    String::from_utf8(tw.into_inner().unwrap()).unwrap()
}

/// Relies on csv's `Writer::from_writer` over an empty `Vec<u8>`: no
/// records yet.
#[verifier::external_body]
fn csv_writer_new() -> (w: CsvBuffer)
    ensures
        csv_records(w) == Seq::<Seq<Seq<char>>>::empty(),
{
    CsvBuffer { writer: csv::Writer::from_writer(Vec::new()) }
}

/// Relies on csv's `Writer::write_record`: the record is escaped and taken
/// on success.
#[verifier::external_body]
fn csv_write_record(w: &mut CsvBuffer, record: &Vec<String>) -> (r: Result<
    (),
    csv::Error,
>)
    ensures
        r is Ok <==> csv_accepts(csv_records(*old(w)), strings_view(record@)),
        r is Ok ==> csv_records(*final(w)) == csv_records(*old(w)).push(strings_view(record@)),
{
    w.writer.write_record(record)
}

/// Relies on csv's `Writer::into_inner`, which flushes, and on
/// `String::from_utf8` of the bytes it hands back.
#[verifier::external_body]
fn csv_into_string(w: CsvBuffer) -> (r: Option<String>)
    ensures
        match r {
            Some(s) => csv_text(csv_records(w)) == Some(s@),
            None => csv_text(csv_records(w)) is None,
        },
{
    match w.writer.into_inner() {
        Ok(bytes) => String::from_utf8(bytes).ok(),
        Err(_) => None,
    }
}

/// The tables this library draws from rows.
#[derive(Debug, Clone, Copy, PartialEq, Eq, Structural)]
pub enum TableFormat {
    Csv,
    Markdown,
    Pretty,
    Plain,
}

/// One output format: the sitemap itself as JSON, or a table of the
/// selected fields.
#[derive(Debug, Clone, Copy, PartialEq, Eq, Structural)]
pub enum OutputFormat {
    Json,
    Table(TableFormat),
}

/// The delimited-text writer failed.
#[derive(Debug, Clone, Copy, PartialEq, Eq, Structural)]
pub enum RenderError {
    Delimited,
}

impl OutputFormat {
    /// The format chosen by the flags, the first set one winning in the order
    /// json, csv, markdown, pretty; plain text where none is set.
    pub fn from_flags(json: bool, csv: bool, markdown: bool, pretty: bool) -> (r: OutputFormat)
        ensures
            r == (if json {
                OutputFormat::Json
            } else if csv {
                OutputFormat::Table(TableFormat::Csv)
            } else if markdown {
                OutputFormat::Table(TableFormat::Markdown)
            } else if pretty {
                OutputFormat::Table(TableFormat::Pretty)
            } else {
                OutputFormat::Table(TableFormat::Plain)
            }),
    {
        if json {
            OutputFormat::Json
        } else if csv {
            OutputFormat::Table(TableFormat::Csv)
        } else if markdown {
            OutputFormat::Table(TableFormat::Markdown)
        } else if pretty {
            OutputFormat::Table(TableFormat::Pretty)
        } else {
            OutputFormat::Table(TableFormat::Plain)
        }
    }
}

/// The parts with `sep` between each two of them.
pub open spec fn join(parts: Seq<Seq<char>>, sep: Seq<char>) -> Seq<char>
    decreases parts.len(),
{
    if parts.len() == 0 {
        Seq::empty()
    } else if parts.len() == 1 {
        parts[0]
    } else {
        join(parts.drop_last(), sep) + sep + parts.last()
    }
}

/// Each row's cells joined by tabs, the rows joined by newlines, after a
/// tab-joined header line where the header is shown.
pub open spec fn tab_text(
    headers: Seq<Seq<char>>,
    rows: Seq<Seq<Seq<char>>>,
    show_header: bool,
) -> Seq<char> {
    let body = join(rows.map_values(|r: Seq<Seq<char>>| join(r, seq!['\t'])), seq!['\n']);
    if show_header {
        join(headers, seq!['\t']) + seq!['\n'] + body
    } else {
        body
    }
}

/// The header row where it is shown.
pub open spec fn shown_header(headers: Seq<Seq<char>>, show_header: bool) -> Option<
    Seq<Seq<char>>,
> {
    if show_header {
        Some(headers)
    } else {
        None
    }
}

/// The records that go to the delimited-text writer.
pub open spec fn csv_input(
    headers: Seq<Seq<char>>,
    rows: Seq<Seq<Seq<char>>>,
    show_header: bool,
) -> Seq<Seq<Seq<char>>> {
    if show_header {
        seq![headers] + rows
    } else {
        rows
    }
}

/// The writer takes each record after those before it.
pub open spec fn csv_takes_all(records: Seq<Seq<Seq<char>>>) -> bool {
    forall|k: int| 0 <= k < records.len() ==> csv_accepts(records.take(k), #[trigger] records[k])
}

/// The delimited text of the records, or `None` where the writer fails.
pub open spec fn csv_output(records: Seq<Seq<Seq<char>>>) -> Option<Seq<char>> {
    if csv_takes_all(records) {
        csv_text(records)
    } else {
        None
    }
}

/// What `render` gives: `None` stands for the writer's failure.
pub open spec fn rendered(
    headers: Seq<Seq<char>>,
    rows: Seq<Seq<Seq<char>>>,
    format: TableFormat,
    show_header: bool,
) -> Option<Seq<char>> {
    match format {
        TableFormat::Csv => csv_output(csv_input(headers, rows, show_header)),
        TableFormat::Markdown => Some(table_text(true, shown_header(headers, show_header), rows)),
        TableFormat::Pretty => Some(table_text(false, shown_header(headers, show_header), rows)),
        TableFormat::Plain => Some(tab_aligned(tab_text(headers, rows, show_header))),
    }
}

/// `r` is the outcome that `rendered` describes.
pub open spec fn render_outcome(r: Result<String, RenderError>, expected: Option<Seq<char>>) -> bool {
    match r {
        Ok(s) => expected == Some(s@),
        Err(e) => expected is None && e == RenderError::Delimited,
    }
}

proof fn lemma_join_step(parts: Seq<Seq<char>>, sep: Seq<char>, i: int)
    requires
        0 <= i < parts.len(),
    ensures
        join(parts.take(i + 1), sep) == (if i == 0 {
            parts[0]
        } else {
            join(parts.take(i), sep) + sep + parts[i]
        }),
{
    assert(parts.take(i + 1).drop_last() =~= parts.take(i));
}

/// The strings with `sep` between each two of them.
pub fn join_with(parts: &Vec<String>, sep: &str) -> (r: String)
    ensures
        r@ == join(strings_view(parts@), sep@),
{
    let ghost view = strings_view(parts@);
    let mut out = String::new();
    let mut i: usize = 0;
    while i < parts.len()
        invariant
            i <= parts.len(),
            view == strings_view(parts@),
            out@ == join(view.take(i as int), sep@),
        decreases parts.len() - i,
    {
        proof {
            lemma_join_step(view, sep@, i as int);
        }
        if i > 0 {
            out.append(sep);
        }
        out.append(parts[i].as_str());
        i = i + 1;
    }
    proof {
        assert(view.take(i as int) =~= view);
    }
    out
}

fn copy_strings(v: &Vec<String>) -> (r: Vec<String>)
    ensures
        strings_view(r@) == strings_view(v@),
{
    let mut r: Vec<String> = Vec::new();
    let mut i: usize = 0;
    while i < v.len()
        invariant
            i <= v.len(),
            strings_view(r@) =~= strings_view(v@.take(i as int)),
        decreases v.len() - i,
    {
        let ghost prev = r@;
        r.push(v[i].clone());
        i = i + 1;
        proof {
            assert(v@.take(i as int) =~= v@.take(i - 1).push(v@[i - 1]));
            assert(strings_view(r@) =~= strings_view(prev).push(v@[i - 1]@));
        }
    }
    proof {
        assert(v@.take(i as int) =~= v@);
    }
    r
}

/// Tab-separated lines put through tabwriter's column alignment.
pub fn plain(headers: &Vec<String>, rows: &Vec<Vec<String>>, show_header: bool) -> (r: String)
    ensures
        r@ == tab_aligned(tab_text(strings_view(headers@), table_view(rows@), show_header)),
{
    let ghost rv = table_view(rows@);
    let mut lines: Vec<String> = Vec::new();
    let mut i: usize = 0;
    while i < rows.len()
        invariant
            i <= rows.len(),
            rv == table_view(rows@),
            strings_view(lines@) =~= rv.take(i as int).map_values(
                |r: Seq<Seq<char>>| join(r, seq!['\t']),
            ),
        decreases rows.len() - i,
    {
        let ghost prev = lines@;
        let line = join_with(&rows[i], "\t");
        proof {
            reveal_strlit("\t");
            assert("\t"@ =~= seq!['\t']);
        }
        lines.push(line);
        i = i + 1;
        proof {
            assert(rv.take(i as int) =~= rv.take(i - 1).push(rv[i - 1]));
            assert(strings_view(lines@) =~= strings_view(prev).push(line@));
        }
    }
    proof {
        assert(rv.take(i as int) =~= rv);
        reveal_strlit("\n");
        reveal_strlit("\t");
        assert("\n"@ =~= seq!['\n']);
        assert("\t"@ =~= seq!['\t']);
    }
    let body = join_with(&lines, "\n");
    let text = if show_header {
        let mut head = join_with(headers, "\t");
        head.append("\n");
        head.append(body.as_str());
        head
    } else {
        body
    };
    tab_align(text.as_str())
}

fn draw_table(headers: &Vec<String>, rows: &Vec<Vec<String>>, show_header: bool, markdown: bool) -> (r: String)
    ensures
        r@ == table_text(markdown, shown_header(strings_view(headers@), show_header), table_view(rows@)),
{
    let mut table = table_new();
    if markdown {
        table_use_markdown(&mut table);
    }
    if show_header {
        table_set_header(&mut table, copy_strings(headers));
    }
    let ghost rv = table_view(rows@);
    let mut i: usize = 0;
    while i < rows.len()
        invariant
            i <= rows.len(),
            rv == table_view(rows@),
            table_rows(table) =~= rv.take(i as int),
            table_header(table) == shown_header(strings_view(headers@), show_header),
            table_markdown(table) == markdown,
        decreases rows.len() - i,
    {
        table_add_row(&mut table, copy_strings(&rows[i]));
        i = i + 1;
        proof {
            assert(rv.take(i as int) =~= rv.take(i - 1).push(rv[i - 1]));
        }
    }
    proof {
        assert(rv.take(i as int) =~= rv);
    }
    table_to_string(&table)
}

/// A table with Markdown borders; no header row or separator where the
/// header is not shown.
pub fn markdown(headers: &Vec<String>, rows: &Vec<Vec<String>>, show_header: bool) -> (r: String)
    ensures
        r@ == table_text(true, shown_header(strings_view(headers@), show_header), table_view(rows@)),
{
    draw_table(headers, rows, show_header, true)
}

/// A table with comfy_table's default borders; no header row where the header
/// is not shown.
pub fn pretty(headers: &Vec<String>, rows: &Vec<Vec<String>>, show_header: bool) -> (r: String)
    ensures
        r@ == table_text(false, shown_header(strings_view(headers@), show_header), table_view(rows@)),
{
    draw_table(headers, rows, show_header, false)
}

/// The header (where shown) and the rows as delimited text, each field
/// escaped by the csv writer.
pub fn write_csv(headers: &Vec<String>, rows: &Vec<Vec<String>>, show_header: bool) -> (r: Result<String, RenderError>)
    ensures
        render_outcome(r, csv_output(csv_input(strings_view(headers@), table_view(rows@), show_header))),
{
    let ghost hv = strings_view(headers@);
    let ghost rv = table_view(rows@);
    let ghost all = csv_input(hv, rv, show_header);
    let ghost skip: int = if show_header { 1 } else { 0 };
    let mut w = csv_writer_new();
    if show_header {
        let ghost before = csv_records(w);
        match csv_write_record(&mut w, headers) {
            Ok(()) => {
                proof {
                    assert(all.take(0) =~= before);
                    assert(all[0] == hv);
                }
            },
            Err(_) => {
                proof {
                    assert(all.take(0) =~= before);
                    assert(all[0] == hv);
                    assert(!csv_accepts(all.take(0), all[0]));
                }
                return Err(RenderError::Delimited);
            },
        }
    }
    proof {
        assert(csv_records(w) =~= all.take(skip));
    }
    let mut i: usize = 0;
    while i < rows.len()
        invariant
            i <= rows.len(),
            hv == strings_view(headers@),
            rv == table_view(rows@),
            all == csv_input(hv, rv, show_header),
            skip == (if show_header { 1int } else { 0 }),
            all.len() == rv.len() + skip,
            csv_records(w) =~= all.take(i + skip),
            forall|k: int| 0 <= k < i + skip ==> csv_accepts(all.take(k), #[trigger] all[k]),
        decreases rows.len() - i,
    {
        let ghost before = csv_records(w);
        proof {
            assert(all[i + skip] == rv[i as int]);
            assert(rv[i as int] == strings_view(rows@[i as int]@));
        }
        match csv_write_record(&mut w, &rows[i]) {
            Ok(()) => {},
            Err(_) => {
                proof {
                    let k = i + skip;
                    assert(!csv_accepts(all.take(k), all[k]));
                }
                return Err(RenderError::Delimited);
            },
        }
        i = i + 1;
        proof {
            assert(all.take(i + skip) =~= all.take(i - 1 + skip).push(all[i - 1 + skip]));
        }
    }
    proof {
        assert(all.take(i + skip) =~= all);
        assert forall|k: int| 0 <= k < all.len() implies csv_accepts(all.take(k), #[trigger] all[k]) by {}
    }
    match csv_into_string(w) {
        Some(s) => Ok(s),
        None => Err(RenderError::Delimited),
    }
}

/// The rows drawn in the one format asked for.
pub fn render(headers: &Vec<String>, rows: &Vec<Vec<String>>, format: TableFormat, show_header: bool) -> (r: Result<String, RenderError>)
    ensures
        render_outcome(r, rendered(strings_view(headers@), table_view(rows@), format, show_header)),
{
    match format {
        TableFormat::Csv => write_csv(headers, rows, show_header),
        TableFormat::Markdown => Ok(markdown(headers, rows, show_header)),
        TableFormat::Pretty => Ok(pretty(headers, rows, show_header)),
        TableFormat::Plain => Ok(plain(headers, rows, show_header)),
    }
}

/// Two outcomes of `render` carry the same text, or are both the failure.
pub open spec fn same_outcome(a: Result<String, RenderError>, b: Result<String, RenderError>) -> bool {
    match (a, b) {
        (Ok(x), Ok(y)) => x@ == y@,
        (Err(x), Err(y)) => x == y,
        _ => false,
    }
}

/// Rendering is a function of its inputs: two calls of `render` with the
/// same headers, rows, format and header flag give byte-identical results.
pub proof fn lemma_render_idempotent(
    headers: Seq<Seq<char>>,
    rows: Seq<Seq<Seq<char>>>,
    format: TableFormat,
    show_header: bool,
    first: Result<String, RenderError>,
    second: Result<String, RenderError>,
)
    requires
        render_outcome(first, rendered(headers, rows, format, show_header)),
        render_outcome(second, rendered(headers, rows, format, show_header)),
    ensures
        same_outcome(first, second),
{
}

/// The selected fields of the entries, as a table in the given format.
pub fn render_entries(
    entries: &Vec<SitemapEntry>,
    selection: &FieldSelection,
    format: TableFormat,
    show_header: bool,
) -> (r: Result<String, RenderError>)
    ensures
        render_outcome(
            r,
            rendered(
                selected_headers(entries@, *selection),
                transpose(selected_cells(entries@, *selection)),
                format,
                show_header,
            ),
        ),
{
    let (headers, columns) = build_headers_and_columns(entries, selection);
    proof {
        let cols = table_view(columns@);
        assert forall|j: int| 0 <= j < cols.len() implies (#[trigger] cols[j]).len() == cols[0].len() by {
            assert(cols[j] == strings_view(columns@[j]@));
            assert(cols[0] == strings_view(columns@[0]@));
        }
    }
    let rows = transpose_columns(columns);
    render(&headers, &rows, format, show_header)
}

} // verus!
