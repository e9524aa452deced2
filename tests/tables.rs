use sitemaps::columns::{build_headers_and_columns, transpose_columns, FieldSelection, SitemapEntry};
use sitemaps::render::{
    join_with, markdown, plain, pretty, render, render_entries, write_csv, OutputFormat,
    TableFormat,
};

fn s(x: &str) -> String {
    x.to_string()
}

fn entry(loc: &str, lastmod: &str, freq: Option<&str>, prio: Option<&str>) -> SitemapEntry {
    SitemapEntry {
        loc: s(loc),
        lastmod: s(lastmod),
        change_freq: freq.map(s),
        priority: prio.map(s),
    }
}

const ALL: FieldSelection = FieldSelection { loc: true, lastmod: true, changefreq: true, priority: true };

#[test]
fn change_freq_column_is_suppressed() {
    let entries = vec![
        entry("http://e.com/1", "2024-01-01", None, Some("0.5")),
        entry("http://e.com/2", "2024-01-02", None, None),
        entry("http://e.com/3", "2024-01-03", None, Some("1")),
    ];
    let (headers, columns) = build_headers_and_columns(&entries, &ALL);
    assert_eq!(headers, vec![s("loc"), s("lastmod"), s("priority")]);
    assert_eq!(columns.len(), 3);
    assert_eq!(columns[2], vec![s("0.5"), s(""), s("1")]);
}

#[test]
fn absent_values_give_empty_cells() {
    let entries = vec![
        entry("a", "x", Some("daily"), None),
        entry("b", "y", None, None),
    ];
    let sel = FieldSelection { loc: false, lastmod: false, changefreq: true, priority: true };
    let (headers, columns) = build_headers_and_columns(&entries, &sel);
    assert_eq!(headers, vec![s("changefreq")]);
    assert_eq!(columns, vec![vec![s("daily"), s("")]]);
}

#[test]
fn nothing_selected_gives_no_columns() {
    let entries = vec![entry("a", "x", None, None)];
    let sel = FieldSelection { loc: false, lastmod: false, changefreq: false, priority: false };
    let (headers, columns) = build_headers_and_columns(&entries, &sel);
    assert!(headers.is_empty());
    assert!(columns.is_empty());
    assert!(transpose_columns(columns).is_empty());
}

#[test]
fn transpose_two_by_two() {
    let columns = vec![vec![s("a"), s("b")], vec![s("x"), s("y")]];
    let rows = transpose_columns(columns);
    assert_eq!(rows, vec![vec![s("a"), s("x")], vec![s("b"), s("y")]]);
}

#[test]
fn transpose_three_by_one() {
    let columns = vec![vec![s("a")], vec![s("b")], vec![s("c")]];
    assert_eq!(transpose_columns(columns), vec![vec![s("a"), s("b"), s("c")]]);
}

#[test]
fn join_puts_separator_between() {
    assert_eq!(join_with(&vec![s("a"), s("b"), s("c")], "\t"), "a\tb\tc");
    assert_eq!(join_with(&vec![], ","), "");
    assert_eq!(join_with(&vec![s("one")], ","), "one");
}

fn two_rows() -> (Vec<String>, Vec<Vec<String>>) {
    (
        vec![s("loc"), s("lastmod")],
        vec![
            vec![s("http://e.com/1"), s("2024-01-01")],
            vec![s("http://e.com/2"), s("2024-01-02")],
        ],
    )
}

#[test]
fn plain_text_is_aligned_under_header() {
    let (headers, rows) = two_rows();
    let out = plain(&headers, &rows, true);
    let lines: Vec<&str> = out.lines().collect();
    assert_eq!(lines.len(), 3);
    assert_eq!(lines[0], "loc             lastmod");
    assert_eq!(lines[1], "http://e.com/1  2024-01-01");
    assert_eq!(lines[2], "http://e.com/2  2024-01-02");
}

#[test]
fn plain_text_without_header() {
    let (headers, rows) = two_rows();
    let out = plain(&headers, &rows, false);
    let lines: Vec<&str> = out.lines().collect();
    assert_eq!(lines, vec!["http://e.com/1  2024-01-01", "http://e.com/2  2024-01-02"]);
}

#[test]
fn csv_quotes_a_comma() {
    let headers = vec![s("loc"), s("priority")];
    let rows = vec![vec![s("a,b"), s("0.5")]];
    let out = write_csv(&headers, &rows, true).unwrap();
    assert_eq!(out, "loc,priority\n\"a,b\",0.5\n");
}

#[test]
fn csv_escapes_quotes_and_skips_header() {
    let headers = vec![s("loc")];
    let rows = vec![vec![s("say \"hi\"")], vec![s("plain")]];
    let out = write_csv(&headers, &rows, false).unwrap();
    assert_eq!(out, "\"say \"\"hi\"\"\"\nplain\n");
}

#[test]
fn markdown_table_has_header_separator() {
    let (headers, rows) = two_rows();
    let out = markdown(&headers, &rows, true);
    let lines: Vec<&str> = out.lines().collect();
    assert_eq!(lines.len(), 4);
    assert!(lines[0].starts_with('|') && lines[0].contains("loc") && lines[0].contains("lastmod"));
    assert!(lines[1].starts_with('|') && lines[1].contains("---"));
    assert!(lines[2].contains("http://e.com/1"));
}

#[test]
fn markdown_table_without_header() {
    let (headers, rows) = two_rows();
    let out = markdown(&headers, &rows, false);
    let lines: Vec<&str> = out.lines().collect();
    assert_eq!(lines.len(), 2);
    assert!(!out.contains("lastmod"));
    assert!(!out.contains("---"));
}

#[test]
fn pretty_table_has_borders() {
    let (headers, rows) = two_rows();
    let out = pretty(&headers, &rows, true);
    assert!(out.starts_with('+'));
    assert!(out.contains("| loc"));
    assert!(out.contains("http://e.com/2"));
    let bare = pretty(&headers, &rows, false);
    assert!(!bare.contains("lastmod"));
}

#[test]
fn rendering_twice_gives_the_same_text() {
    let (headers, rows) = two_rows();
    for f in [TableFormat::Csv, TableFormat::Markdown, TableFormat::Pretty, TableFormat::Plain] {
        for show in [true, false] {
            let a = render(&headers, &rows, f, show);
            let b = render(&headers, &rows, f, show);
            assert_eq!(a, b);
            assert!(a.is_ok());
        }
    }
}

#[test]
fn flags_choose_one_format() {
    assert_eq!(OutputFormat::from_flags(true, true, true, true), OutputFormat::Json);
    assert_eq!(OutputFormat::from_flags(false, true, true, true), OutputFormat::Table(TableFormat::Csv));
    assert_eq!(
        OutputFormat::from_flags(false, false, true, true),
        OutputFormat::Table(TableFormat::Markdown)
    );
    assert_eq!(
        OutputFormat::from_flags(false, false, false, true),
        OutputFormat::Table(TableFormat::Pretty)
    );
    assert_eq!(
        OutputFormat::from_flags(false, false, false, false),
        OutputFormat::Table(TableFormat::Plain)
    );
}

#[test]
fn entries_render_as_csv() {
    let entries = vec![
        entry("http://e.com/1", "2024-01-01", Some("daily"), None),
        entry("http://e.com/2", "2024-01-02", None, None),
    ];
    let out = render_entries(&entries, &ALL, TableFormat::Csv, true).unwrap();
    assert_eq!(
        out,
        "loc,lastmod,changefreq\nhttp://e.com/1,2024-01-01,daily\nhttp://e.com/2,2024-01-02,\n"
    );
}
