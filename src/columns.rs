//! Choosing the columns of a sitemap table and turning them into rows.

use vstd::prelude::*;

verus! {

/// One `<url>` or `<sitemap>` entry of a sitemap, as display strings.
#[derive(Debug, Clone)]
pub struct SitemapEntry {
    pub loc: String,
    pub lastmod: String,
    pub change_freq: Option<String>,
    pub priority: Option<String>,
}

/// Which fields the caller asks to see.
#[derive(Debug, Clone, Copy, PartialEq, Eq, Structural)]
pub struct FieldSelection {
    pub loc: bool,
    pub lastmod: bool,
    pub changefreq: bool,
    pub priority: bool,
}

pub open spec fn strings_view(v: Seq<String>) -> Seq<Seq<char>> {
    v.map_values(|s: String| s@)
}

/// A table of strings as a sequence of sequences of texts.
pub open spec fn table_view(t: Seq<Vec<String>>) -> Seq<Seq<Seq<char>>> {
    t.map_values(|r: Vec<String>| strings_view(r@))
}

pub open spec fn opt_cell(o: Option<String>) -> Seq<char> {
    match o {
        Some(s) => s@,
        None => Seq::empty(),
    }
}

pub open spec fn loc_cells(es: Seq<SitemapEntry>) -> Seq<Seq<char>> {
    es.map_values(|e: SitemapEntry| e.loc@)
}

pub open spec fn lastmod_cells(es: Seq<SitemapEntry>) -> Seq<Seq<char>> {
    es.map_values(|e: SitemapEntry| e.lastmod@)
}

pub open spec fn change_freq_cells(es: Seq<SitemapEntry>) -> Seq<Seq<char>> {
    es.map_values(|e: SitemapEntry| opt_cell(e.change_freq))
}

pub open spec fn priority_cells(es: Seq<SitemapEntry>) -> Seq<Seq<char>> {
    es.map_values(|e: SitemapEntry| opt_cell(e.priority))
}

pub open spec fn any_change_freq(es: Seq<SitemapEntry>) -> bool {
    exists|i: int| 0 <= i < es.len() && (#[trigger] es[i]).change_freq is Some
}

pub open spec fn any_priority(es: Seq<SitemapEntry>) -> bool {
    exists|i: int| 0 <= i < es.len() && (#[trigger] es[i]).priority is Some
}

pub open spec fn column_if(
    keep: bool,
    header: Seq<char>,
    cells: Seq<Seq<char>>,
) -> Seq<(Seq<char>, Seq<Seq<char>>)> {
    if keep {
        seq![(header, cells)]
    } else {
        Seq::empty()
    }
}

/// The selected columns, each a header and its cells, in the order loc,
/// lastmod, changefreq, priority; changefreq and priority only where some
/// entry has a value for them.
pub open spec fn selected_columns(es: Seq<SitemapEntry>, sel: FieldSelection) -> Seq<
    (Seq<char>, Seq<Seq<char>>),
> {
    column_if(sel.loc, "loc"@, loc_cells(es)) + column_if(sel.lastmod, "lastmod"@, lastmod_cells(es))
        + column_if(sel.changefreq && any_change_freq(es), "changefreq"@, change_freq_cells(es))
        + column_if(sel.priority && any_priority(es), "priority"@, priority_cells(es))
}

/// The headers of the selected columns.
pub open spec fn selected_headers(es: Seq<SitemapEntry>, sel: FieldSelection) -> Seq<Seq<char>> {
    selected_columns(es, sel).map_values(|c: (Seq<char>, Seq<Seq<char>>)| c.0)
}

/// The cells of the selected columns, column by column.
pub open spec fn selected_cells(es: Seq<SitemapEntry>, sel: FieldSelection) -> Seq<Seq<Seq<char>>> {
    selected_columns(es, sel).map_values(|c: (Seq<char>, Seq<Seq<char>>)| c.1)
}

/// Where no entry has a change frequency, no selection gives a column
/// headed `changefreq`, though the field was asked for.
pub proof fn lemma_change_freq_suppressed(es: Seq<SitemapEntry>, sel: FieldSelection)
    requires
        forall|i: int| 0 <= i < es.len() ==> (#[trigger] es[i]).change_freq is None,
    ensures
        forall|j: int|
            0 <= j < selected_headers(es, sel).len() ==> #[trigger] selected_headers(es, sel)[j]
                != "changefreq"@,
{
    reveal_strlit("loc");
    reveal_strlit("lastmod");
    reveal_strlit("priority");
    reveal_strlit("changefreq");
    assert(!any_change_freq(es));
    let hs = selected_headers(es, sel);
    assert forall|j: int| 0 <= j < hs.len() implies #[trigger] hs[j] != "changefreq"@ by {
        let h = hs[j];
        assert(h == "loc"@ || h == "lastmod"@ || h == "priority"@);
        assert(h.len() != 10 || h[0] != 'c');
    }
}

/// Rows out of columns of equal length: row `i` holds the `i`-th cell of each
/// column; no columns give no rows.
pub open spec fn transpose(cols: Seq<Seq<Seq<char>>>) -> Seq<Seq<Seq<char>>> {
    let n = if cols.len() == 0 {
        0
    } else {
        cols[0].len()
    };
    Seq::new(n, |i: int| Seq::new(cols.len(), |j: int| cols[j][i]))
}

pub open spec fn same_lengths(cols: Seq<Seq<Seq<char>>>) -> bool {
    forall|j: int| 0 <= j < cols.len() ==> (#[trigger] cols[j]).len() == cols[0].len()
}

fn push_column(
    headers: &mut Vec<String>,
    columns: &mut Vec<Vec<String>>,
    header: &str,
    cells: Vec<String>,
)
    ensures
        strings_view(final(headers)@) == strings_view(old(headers)@).push(header@),
        table_view(final(columns)@) == table_view(old(columns)@).push(strings_view(cells@)),
{
    headers.push(String::from_str(header));
    columns.push(cells);
    proof {
        assert(strings_view(final(headers)@) =~= strings_view(old(headers)@).push(header@));
        assert(table_view(final(columns)@) =~= table_view(old(columns)@).push(
            strings_view(cells@),
        ));
    }
}

fn loc_column(entries: &Vec<SitemapEntry>) -> (r: Vec<String>)
    ensures
        strings_view(r@) == loc_cells(entries@),
{
    let mut r: Vec<String> = Vec::new();
    let mut i: usize = 0;
    while i < entries.len()
        invariant
            i <= entries.len(),
            strings_view(r@) =~= loc_cells(entries@.take(i as int)),
        decreases entries.len() - i,
    {
        let ghost prev = r@;
        r.push(entries[i].loc.clone());
        i = i + 1;
        proof {
            assert(entries@.take(i as int) =~= entries@.take(i - 1).push(entries@[i - 1]));
            assert(strings_view(r@) =~= strings_view(prev).push(entries@[i - 1].loc@));
            assert(loc_cells(entries@.take(i as int)) =~= loc_cells(entries@.take(i - 1)).push(
                entries@[i - 1].loc@,
            ));
        }
    }
    proof {
        assert(entries@.take(i as int) =~= entries@);
    }
    r
}

fn lastmod_column(entries: &Vec<SitemapEntry>) -> (r: Vec<String>)
    ensures
        strings_view(r@) == lastmod_cells(entries@),
{
    let mut r: Vec<String> = Vec::new();
    let mut i: usize = 0;
    while i < entries.len()
        invariant
            i <= entries.len(),
            strings_view(r@) =~= lastmod_cells(entries@.take(i as int)),
        decreases entries.len() - i,
    {
        let ghost prev = r@;
        r.push(entries[i].lastmod.clone());
        i = i + 1;
        proof {
            assert(entries@.take(i as int) =~= entries@.take(i - 1).push(entries@[i - 1]));
            assert(strings_view(r@) =~= strings_view(prev).push(entries@[i - 1].lastmod@));
            assert(lastmod_cells(entries@.take(i as int)) =~= lastmod_cells(entries@.take(i - 1)).push(
                entries@[i - 1].lastmod@,
            ));
        }
    }
    proof {
        assert(entries@.take(i as int) =~= entries@);
    }
    r
}

fn cell_of(o: &Option<String>) -> (r: String)
    ensures
        r@ == opt_cell(*o),
{
    match o {
        Some(s) => s.clone(),
        None => String::new(),
    }
}

fn change_freq_column(entries: &Vec<SitemapEntry>) -> (r: (bool, Vec<String>))
    ensures
        r.0 == any_change_freq(entries@),
        strings_view(r.1@) == change_freq_cells(entries@),
{
    let mut any = false;
    let mut r: Vec<String> = Vec::new();
    let mut i: usize = 0;
    while i < entries.len()
        invariant
            i <= entries.len(),
            strings_view(r@) =~= change_freq_cells(entries@.take(i as int)),
            any == any_change_freq(entries@.take(i as int)),
        decreases entries.len() - i,
    {
        if entries[i].change_freq.is_some() {
            any = true;
        }
        let ghost prev = r@;
        r.push(cell_of(&entries[i].change_freq));
        i = i + 1;
        proof {
            let t = entries@.take(i as int);
            assert(t =~= entries@.take(i - 1).push(entries@[i - 1]));
            assert(strings_view(r@) =~= strings_view(prev).push(opt_cell(entries@[i - 1].change_freq)));
            assert(change_freq_cells(t) =~= change_freq_cells(entries@.take(i - 1)).push(
                opt_cell(entries@[i - 1].change_freq),
            ));
            assert(t.drop_last() =~= entries@.take(i - 1));
            if any {
                if !(t[i - 1].change_freq is Some) {
                    let k = choose|k: int| 0 <= k < i - 1 && (#[trigger] entries@.take(i - 1)[k]).change_freq is Some;
                    assert(t[k] == entries@.take(i - 1)[k]);
                }
            } else {
                assert forall|k: int| 0 <= k < t.len() implies !((#[trigger] t[k]).change_freq is Some) by {
                    if k < i - 1 {
                        assert(t[k] == entries@.take(i - 1)[k]);
                    }
                }
            }
        }
    }
    proof {
        assert(entries@.take(i as int) =~= entries@);
    }
    (any, r)
}

fn priority_column(entries: &Vec<SitemapEntry>) -> (r: (bool, Vec<String>))
    ensures
        r.0 == any_priority(entries@),
        strings_view(r.1@) == priority_cells(entries@),
{
    let mut any = false;
    let mut r: Vec<String> = Vec::new();
    let mut i: usize = 0;
    while i < entries.len()
        invariant
            i <= entries.len(),
            strings_view(r@) =~= priority_cells(entries@.take(i as int)),
            any == any_priority(entries@.take(i as int)),
        decreases entries.len() - i,
    {
        if entries[i].priority.is_some() {
            any = true;
        }
        let ghost prev = r@;
        r.push(cell_of(&entries[i].priority));
        i = i + 1;
        proof {
            let t = entries@.take(i as int);
            assert(t =~= entries@.take(i - 1).push(entries@[i - 1]));
            assert(strings_view(r@) =~= strings_view(prev).push(opt_cell(entries@[i - 1].priority)));
            assert(priority_cells(t) =~= priority_cells(entries@.take(i - 1)).push(
                opt_cell(entries@[i - 1].priority),
            ));
            assert(t.drop_last() =~= entries@.take(i - 1));
            if any {
                if !(t[i - 1].priority is Some) {
                    let k = choose|k: int| 0 <= k < i - 1 && (#[trigger] entries@.take(i - 1)[k]).priority is Some;
                    assert(t[k] == entries@.take(i - 1)[k]);
                }
            } else {
                assert forall|k: int| 0 <= k < t.len() implies !((#[trigger] t[k]).priority is Some) by {
                    if k < i - 1 {
                        assert(t[k] == entries@.take(i - 1)[k]);
                    }
                }
            }
        }
    }
    proof {
        assert(entries@.take(i as int) =~= entries@);
    }
    (any, r)
}

/// The headers and the columns of the selected fields; every column has one
/// cell per entry.
pub fn build_headers_and_columns(
    entries: &Vec<SitemapEntry>,
    selection: &FieldSelection,
) -> (r: (Vec<String>, Vec<Vec<String>>))
    ensures
        strings_view(r.0@) == selected_headers(entries@, *selection),
        table_view(r.1@) == selected_cells(entries@, *selection),
        forall|j: int| 0 <= j < r.1@.len() ==> (#[trigger] r.1@[j])@.len() == entries@.len(),
{
    let mut headers: Vec<String> = Vec::new();
    let mut columns: Vec<Vec<String>> = Vec::new();
    let ghost es = entries@;
    let ghost sel = *selection;
    if selection.loc {
        push_column(&mut headers, &mut columns, "loc", loc_column(entries));
    }
    assert(strings_view(headers@) =~= column_if(sel.loc, "loc"@, loc_cells(es)).map_values(
        |c: (Seq<char>, Seq<Seq<char>>)| c.0));
    if selection.lastmod {
        push_column(&mut headers, &mut columns, "lastmod", lastmod_column(entries));
    }
    let (any_freq, freqs) = change_freq_column(entries);
    if selection.changefreq && any_freq {
        push_column(&mut headers, &mut columns, "changefreq", freqs);
    }
    let (any_prio, prios) = priority_column(entries);
    if selection.priority && any_prio {
        push_column(&mut headers, &mut columns, "priority", prios);
    }
    proof {
        let all = selected_columns(es, sel);
        assert(strings_view(headers@) =~= all.map_values(|c: (Seq<char>, Seq<Seq<char>>)| c.0));
        assert(table_view(columns@) =~= all.map_values(|c: (Seq<char>, Seq<Seq<char>>)| c.1));
        assert forall|j: int| 0 <= j < columns@.len() implies (#[trigger] columns@[j])@.len()
            == es.len() by {
            assert(table_view(columns@)[j] == strings_view(columns@[j]@));
        }
    }
    (headers, columns)
}

/// Rows out of columns of equal length: row `i` holds the `i`-th cell of
/// each column, in column order.
pub fn transpose_columns(columns: Vec<Vec<String>>) -> (rows: Vec<Vec<String>>)
    requires
        same_lengths(table_view(columns@)),
    ensures
        table_view(rows@) == transpose(table_view(columns@)),
{
    let ghost cols = table_view(columns@);
    let mut rows: Vec<Vec<String>> = Vec::new();
    if columns.len() == 0 {
        proof {
            assert(table_view(rows@) =~= transpose(cols));
        }
        return rows;
    }
    let n = columns[0].len();
    let mut i: usize = 0;
    while i < n
        invariant
            n == columns@[0]@.len(),
            columns@.len() > 0,
            cols == table_view(columns@),
            same_lengths(cols),
            i <= n,
            rows@.len() == i,
            forall|k: int| 0 <= k < i ==> #[trigger] table_view(rows@)[k] =~= transpose(cols)[k],
        decreases n - i,
    {
        let mut row: Vec<String> = Vec::new();
        let mut j: usize = 0;
        while j < columns.len()
            invariant
                n == columns@[0]@.len(),
                cols == table_view(columns@),
                same_lengths(cols),
                i < n,
                j <= columns@.len(),
                strings_view(row@) =~= Seq::new(j as nat, |jj: int| cols[jj][i as int]),
            decreases columns.len() - j,
        {
            assert(cols[j as int].len() == cols[0].len());
            assert(cols[j as int] == strings_view(columns@[j as int]@));
            let ghost prev = row@;
            row.push(columns[j][i].clone());
            j = j + 1;
            proof {
                assert(strings_view(row@) =~= strings_view(prev).push(cols[j - 1][i as int]));
            }
        }
        let ghost prev_rows = rows@;
        rows.push(row);
        i = i + 1;
        proof {
            assert(table_view(rows@) =~= table_view(prev_rows).push(strings_view(row@)));
            assert forall|k: int| 0 <= k < i implies #[trigger] table_view(rows@)[k] =~= transpose(
                cols,
            )[k] by {
                if k < i - 1 {
                    assert(table_view(rows@)[k] == strings_view(rows@[k]@));
                }
            }
        }
    }
    proof {
        assert(table_view(rows@) =~= transpose(cols));
    }
    rows
}

} // verus!
