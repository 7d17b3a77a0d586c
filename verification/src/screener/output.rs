//! The table of screener results: column widths and the text of each line.
//!
//! Prices and volumes are formatted (and changes colored) by the caller;
//! this module measures the texts, sizes the columns for the terminal and
//! lays out the lines.

use vstd::prelude::*;

use crate::text::{byte_count, byte_len, contains_seq, owned, str_contains, string_views, to_uppercase, unicode_uppercase};

verus! {

/// The texts of one table row. The change columns come twice: as plain
/// text, which sizes the columns, and as shown (possibly with color codes).
#[derive(Debug, Clone)]
pub struct TableRow {
    pub symbol: String,
    pub open: String,
    pub current: String,
    pub change_percent: String,
    pub change_value: String,
    pub change_percent_shown: String,
    pub change_value_shown: String,
    pub volume: String,
}

/// Number of table columns.
pub const COLUMN_COUNT: usize = 6;

/// Smallest width of each column.
pub open spec fn min_width(c: int) -> nat {
    if c == 4 {
        12
    } else {
        10
    }
}

/// Sum of the smallest widths.
pub const TOTAL_MIN_WIDTH: usize = 62;

/// Columns of the terminal taken by the separators between columns.
pub const COLUMN_PADDING: usize = 7;

/// The plain text of column `c` (0 to 4) of a row.
pub open spec fn column_text(r: TableRow, c: int) -> Seq<char> {
    if c == 0 {
        r.symbol@
    } else if c == 1 {
        r.open@
    } else if c == 2 {
        r.current@
    } else if c == 3 {
        r.change_percent@
    } else {
        r.change_value@
    }
}

/// The larger of two numbers.
pub open spec fn max_nat(a: nat, b: nat) -> nat {
    if a >= b {
        a
    } else {
        b
    }
}

/// Width of column `c` (0 to 4) before distribution: the longest text of
/// the column in bytes, at least the column's smallest width.
pub open spec fn measured_width(rows: Seq<TableRow>, c: int) -> nat
    decreases rows.len(),
{
    if rows.len() == 0 {
        min_width(c)
    } else {
        max_nat(measured_width(rows.drop_last(), c), byte_len(column_text(rows.last(), c)))
    }
}

/// Extra columns given to every column on a terminal `term_width` wide:
/// an equal share of what the smallest widths and the separators leave.
pub open spec fn extra_per_column(term_width: nat) -> nat {
    let available: int = if term_width >= COLUMN_PADDING { term_width - COLUMN_PADDING } else { 0 };
    if available >= TOTAL_MIN_WIDTH {
        ((available - TOTAL_MIN_WIDTH) / (COLUMN_COUNT as int)) as nat
    } else {
        0
    }
}

fn min_width_of(c: usize) -> (r: usize)
    requires
        c < COLUMN_COUNT,
    ensures
        r == min_width(c as int),
{
    if c == 4 {
        12
    } else {
        10
    }
}

/// Compute max column widths from the row texts (before distribution):
/// the byte length of the longest text of each column, at least the
/// column's smallest width; the volume column is fixed at 10.
pub fn compute_max_widths(rows: &[TableRow]) -> (r: [usize; 6])
    ensures
        forall|c: int| 0 <= c < 5 ==> r@[c] == #[trigger] measured_width(rows@, c),
        forall|c: int, i: int| 0 <= c < 5 && 0 <= i < rows@.len() ==> r@[c] >= byte_len(#[trigger] column_text(rows@[i], c)),
        forall|c: int| 0 <= c < 5 ==> r@[c] >= min_width(c),
        forall|c: int| 0 <= c < 5 ==> r@[c] == min_width(c)
            || exists|i: int| 0 <= i < rows@.len() && r@[c] == byte_len(#[trigger] column_text(rows@[i], c)),
        r@[5] == 10,
{
    let mut w: [usize; 6] = [10, 10, 10, 10, 12, 10];
    let mut i: usize = 0;
    while i < rows.len()
        invariant
            i <= rows@.len(),
            forall|c: int| 0 <= c < 5 ==> w@[c] == #[trigger] measured_width(rows@.subrange(0, i as int), c),
            w@[5] == 10,
        decreases rows@.len() - i,
    {
        let ghost pre = rows@.subrange(0, i as int);
        let ghost next = rows@.subrange(0, i + 1);
        assert(next.drop_last() =~= pre);
        assert(next.last() == rows@[i as int]);
        let row = &rows[i];
        let lens: [usize; 5] = [
            byte_count(row.symbol.as_str()),
            byte_count(row.open.as_str()),
            byte_count(row.current.as_str()),
            byte_count(row.change_percent.as_str()),
            byte_count(row.change_value.as_str()),
        ];
        assert(forall|k: int| 0 <= k < 5 ==> lens@[k] == byte_len(column_text(rows@[i as int], k))) by {
            assert(lens@[0] == byte_len(column_text(rows@[i as int], 0)));
            assert(lens@[1] == byte_len(column_text(rows@[i as int], 1)));
            assert(lens@[2] == byte_len(column_text(rows@[i as int], 2)));
            assert(lens@[3] == byte_len(column_text(rows@[i as int], 3)));
            assert(lens@[4] == byte_len(column_text(rows@[i as int], 4)));
        }
        let mut c: usize = 0;
        while c < 5
            invariant
                c <= 5,
                next.len() == i + 1,
                next.drop_last() == pre,
                next.last() == rows@[i as int],
                forall|k: int| 0 <= k < 5 ==> lens@[k] == byte_len(column_text(rows@[i as int], k)),
                forall|k: int| 0 <= k < c ==> w@[k] == #[trigger] measured_width(next, k),
                forall|k: int| c <= k < 5 ==> w@[k] == #[trigger] measured_width(pre, k),
                w@[5] == 10,
            decreases 5 - c,
        {
            assert(measured_width(next, c as int)
                == max_nat(measured_width(pre, c as int), byte_len(column_text(rows@[i as int], c as int))));
            if lens[c] > w[c] {
                w.set(c, lens[c]);
            }
            c = c + 1;
        }
        i = i + 1;
    }
    assert(rows@.subrange(0, rows@.len() as int) =~= rows@);
    proof {
        assert forall|c: int, i: int| 0 <= c < 5 && 0 <= i < rows@.len() implies w@[c] >= byte_len(#[trigger] column_text(rows@[i], c)) by {
            law_measured_width_is_longest_text(rows@, c);
            assert(w@[c] == measured_width(rows@, c));
        }
        assert forall|c: int| 0 <= c < 5 implies w@[c] >= min_width(c) && (w@[c] == min_width(c)
            || exists|i: int| 0 <= i < rows@.len() && w@[c] == byte_len(#[trigger] column_text(rows@[i], c))) by {
            law_measured_width_is_longest_text(rows@, c);
            assert(w@[c] == measured_width(rows@, c));
        }
    }
    w
}

/// Law: the measured width of a column is at least the byte length of
/// that column's text in every row and at least the column's smallest
/// width, and it is one of these: the smallest width or the length of
/// some row's text.
pub proof fn law_measured_width_is_longest_text(rows: Seq<TableRow>, c: int)
    requires
        0 <= c < 5,
    ensures
        forall|i: int| 0 <= i < rows.len() ==> measured_width(rows, c) >= byte_len(#[trigger] column_text(rows[i], c)),
        measured_width(rows, c) >= min_width(c),
        measured_width(rows, c) == min_width(c)
            || exists|i: int| 0 <= i < rows.len() && measured_width(rows, c) == byte_len(#[trigger] column_text(rows[i], c)),
    decreases rows.len(),
{
    if rows.len() > 0 {
        let d = rows.drop_last();
        law_measured_width_is_longest_text(d, c);
        let last = rows.len() - 1;
        assert forall|i: int| 0 <= i < rows.len() implies measured_width(rows, c) >= byte_len(#[trigger] column_text(rows[i], c)) by {
            if i < last {
                assert(rows[i] == d[i]);
            }
        }
        if measured_width(rows, c) != min_width(c) {
            if measured_width(d, c) >= byte_len(column_text(rows[last], c)) {
                assert(measured_width(d, c) != min_width(c));
                let i = choose|i: int| 0 <= i < d.len() && measured_width(d, c) == byte_len(#[trigger] column_text(d[i], c));
                assert(rows[i] == d[i]);
            } else {
                assert(measured_width(rows, c) == byte_len(column_text(rows[last], c)));
            }
        }
    }
}

/// Enforce minimum widths and distribute extra space evenly: every column
/// gets at least its smallest width, and each the same share of what the
/// terminal leaves beyond the smallest widths and the separators.
pub fn distribute_widths(raw: [usize; 6], term_width: usize) -> (r: [usize; 6])
    requires
        forall|c: int| 0 <= c < 6 ==> max_nat(#[trigger] raw@[c] as nat, min_width(c)) + extra_per_column(term_width as nat) <= usize::MAX,
    ensures
        forall|c: int| 0 <= c < 6 ==> #[trigger] r@[c] == max_nat(raw@[c] as nat, min_width(c)) + extra_per_column(term_width as nat),
{
    let available = term_width.saturating_sub(COLUMN_PADDING);
    let per_col: usize = if available >= TOTAL_MIN_WIDTH {
        (available - TOTAL_MIN_WIDTH) / COLUMN_COUNT
    } else {
        0
    };
    assert(per_col == extra_per_column(term_width as nat));
    let mut widths: [usize; 6] = raw;
    let mut c: usize = 0;
    while c < COLUMN_COUNT
        invariant
            c <= COLUMN_COUNT,
            per_col == extra_per_column(term_width as nat),
            forall|k: int| 0 <= k < 6 ==> max_nat(#[trigger] raw@[k] as nat, min_width(k)) + per_col <= usize::MAX,
            forall|k: int| 0 <= k < c ==> #[trigger] widths@[k] == max_nat(raw@[k] as nat, min_width(k)) + per_col,
            forall|k: int| c <= k < 6 ==> #[trigger] widths@[k] == raw@[k],
        decreases COLUMN_COUNT - c,
    {
        let floor = min_width_of(c);
        let base = if widths[c] >= floor { widths[c] } else { floor };
        assert(raw@[c as int] == widths@[c as int]);
        widths.set(c, base + per_col);
        c = c + 1;
    }
    widths
}

/// `s` padded with `fill` at the end to `w` characters.
pub open spec fn pad_end(s: Seq<char>, w: nat, fill: char) -> Seq<char> {
    if s.len() >= w {
        s
    } else {
        s + Seq::new((w - s.len()) as nat, |i: int| fill)
    }
}

/// `s` padded with spaces at the start to `w` characters.
pub open spec fn pad_start(s: Seq<char>, w: nat) -> Seq<char> {
    if s.len() >= w {
        s
    } else {
        Seq::new((w - s.len()) as nat, |i: int| ' ') + s
    }
}

/// A line of six cells: the first left-aligned, the others right-aligned,
/// separated by ` | ` (as `{:<w$} | {:>w$} | ...` lays them out).
pub open spec fn cells_line(cells: Seq<Seq<char>>, widths: Seq<usize>) -> Seq<char> {
    pad_end(cells[0], widths[0] as nat, ' ')
        + " | "@ + pad_start(cells[1], widths[1] as nat)
        + " | "@ + pad_start(cells[2], widths[2] as nat)
        + " | "@ + pad_start(cells[3], widths[3] as nat)
        + " | "@ + pad_start(cells[4], widths[4] as nat)
        + " | "@ + pad_start(cells[5], widths[5] as nat)
}

/// The separator under the header: dashes as wide as each column, joined by `-+-`.
pub open spec fn separator_line(widths: Seq<usize>) -> Seq<char> {
    pad_end(Seq::empty(), widths[0] as nat, '-')
        + "-+-"@ + pad_end(Seq::empty(), widths[1] as nat, '-')
        + "-+-"@ + pad_end(Seq::empty(), widths[2] as nat, '-')
        + "-+-"@ + pad_end(Seq::empty(), widths[3] as nat, '-')
        + "-+-"@ + pad_end(Seq::empty(), widths[4] as nat, '-')
        + "-+-"@ + pad_end(Seq::empty(), widths[5] as nat, '-')
}

/// The column titles.
pub open spec fn header_cells() -> Seq<Seq<char>> {
    seq!["Symbol"@, "Open"@, "Current"@, "Change %"@, "Change Value"@, "Volume 24h"@]
}

/// The cells shown for a row.
pub open spec fn shown_cells(r: TableRow) -> Seq<Seq<char>> {
    seq![r.symbol@, r.open@, r.current@, r.change_percent_shown@, r.change_value_shown@, r.volume@]
}

fn push_fill(out: &mut String, fill: char, n: usize)
    requires
        fill == '-' || fill == ' ',
    ensures
        final(out)@ == old(out)@ + Seq::new(n as nat, |i: int| fill),
{
    let piece = if fill == '-' {
        proof { reveal_strlit("-"); }
        "-"
    } else {
        proof { reveal_strlit(" "); }
        " "
    };
    let mut k: usize = 0;
    while k < n
        invariant
            k <= n,
            piece@ == seq![fill],
            out@ == old(out)@ + Seq::new(k as nat, |i: int| fill),
        decreases n - k,
    {
        out.append(piece);
        k = k + 1;
        assert(out@ =~= old(out)@ + Seq::new(k as nat, |i: int| fill));
    }
}

fn push_pad_end(out: &mut String, s: &str, w: usize, fill: char)
    requires
        fill == '-' || fill == ' ',
    ensures
        final(out)@ == old(out)@ + pad_end(s@, w as nat, fill),
{
    out.append(s);
    let n = s.unicode_len();
    if n < w {
        push_fill(out, fill, w - n);
    } else {
        assert(out@ =~= old(out)@ + pad_end(s@, w as nat, fill));
    }
}

fn push_pad_start(out: &mut String, s: &str, w: usize)
    ensures
        final(out)@ == old(out)@ + pad_start(s@, w as nat),
{
    let n = s.unicode_len();
    if n < w {
        push_fill(out, ' ', w - n);
    }
    out.append(s);
}

/// The line of six cells with the given widths.
pub fn format_cells(cells: [&str; 6], widths: &[usize; 6]) -> (r: String)
    ensures
        r@ == cells_line(cells@.map_values(|c: &str| c@), widths@),
{
    proof {
        reveal_strlit(" | ");
    }
    let mut out = String::new();
    push_pad_end(&mut out, cells[0], widths[0], ' ');
    out.append(" | ");
    push_pad_start(&mut out, cells[1], widths[1]);
    out.append(" | ");
    push_pad_start(&mut out, cells[2], widths[2]);
    out.append(" | ");
    push_pad_start(&mut out, cells[3], widths[3]);
    out.append(" | ");
    push_pad_start(&mut out, cells[4], widths[4]);
    out.append(" | ");
    push_pad_start(&mut out, cells[5], widths[5]);
    out
}

/// The separator line for the given widths.
pub fn format_separator(widths: &[usize; 6]) -> (r: String)
    ensures
        r@ == separator_line(widths@),
{
    proof {
        reveal_strlit("-+-");
        reveal_strlit("");
    }
    let mut out = String::new();
    push_pad_end(&mut out, "", widths[0], '-');
    out.append("-+-");
    push_pad_end(&mut out, "", widths[1], '-');
    out.append("-+-");
    push_pad_end(&mut out, "", widths[2], '-');
    out.append("-+-");
    push_pad_end(&mut out, "", widths[3], '-');
    out.append("-+-");
    push_pad_end(&mut out, "", widths[4], '-');
    out.append("-+-");
    push_pad_end(&mut out, "", widths[5], '-');
    out
}

/// The column widths for the rows on a terminal `term_width` wide: the
/// measured widths (the volume column fixed at 10) plus the equal share of
/// the spare columns.
pub open spec fn column_widths(rows: Seq<TableRow>, term_width: nat) -> Seq<usize> {
    Seq::new(
        6,
        |c: int| ((if c < 5 { measured_width(rows, c) } else { 10 }) + extra_per_column(term_width)) as usize,
    )
}

/// Calculate column widths for the rows on a terminal `term_width` wide.
///
/// No text of a row holds more than `isize::MAX` bytes (no string can).
pub fn calculate_column_widths(rows: &[TableRow], term_width: usize) -> (r: [usize; 6])
    requires
        forall|i: int, c: int| 0 <= i < rows@.len() && 0 <= c < 5 ==> byte_len(#[trigger] column_text(rows@[i], c)) <= isize::MAX,
    ensures
        r@ == column_widths(rows@, term_width as nat),
{
    let raw = compute_max_widths(rows);
    proof {
        assert(isize::MAX as int + usize::MAX as int / 6 <= usize::MAX as int);
        assert forall|c: int| 0 <= c < 5 implies #[trigger] measured_width(rows@, c) <= isize::MAX
            && measured_width(rows@, c) >= min_width(c) by {
            lemma_measured_width_bound(rows@, c);
        }
        assert(extra_per_column(term_width as nat) <= usize::MAX as int / 6);
        assert forall|c: int| 0 <= c < 6 implies max_nat(#[trigger] raw@[c] as nat, min_width(c))
            + extra_per_column(term_width as nat) <= usize::MAX by {
            if c < 5 {
                assert(raw@[c] == measured_width(rows@, c));
            }
        }
    }
    let r = distribute_widths(raw, term_width);
    assert(r@ =~= column_widths(rows@, term_width as nat));
    r
}

proof fn lemma_measured_width_bound(rows: Seq<TableRow>, c: int)
    requires
        0 <= c < 5,
        forall|i: int, c: int| 0 <= i < rows.len() && 0 <= c < 5 ==> byte_len(#[trigger] column_text(rows[i], c)) <= isize::MAX,
    ensures
        measured_width(rows, c) >= min_width(c),
        measured_width(rows, c) <= isize::MAX,
    decreases rows.len(),
{
    if rows.len() > 0 {
        let d = rows.drop_last();
        assert forall|i: int, c2: int| 0 <= i < d.len() && 0 <= c2 < 5 implies byte_len(#[trigger] column_text(d[i], c2)) <= isize::MAX by {
            assert(d[i] == rows[i]);
        }
        lemma_measured_width_bound(d, c);
        assert(byte_len(column_text(rows[rows.len() - 1], c)) <= isize::MAX);
    }
}

/// The lines of the results table on a terminal `term_width` wide: a
/// notice when there are no rows, else the header, the separator and one
/// line per row.
pub open spec fn table_text(rows: Seq<TableRow>, widths: Seq<usize>) -> Seq<Seq<char>> {
    if rows.len() == 0 {
        seq!["No price changes to display."@]
    } else {
        seq![cells_line(header_cells(), widths), separator_line(widths)]
            + rows.map_values(|r: TableRow| cells_line(shown_cells(r), widths))
    }
}

/// The lines of the results table for the rows, on a terminal
/// `term_width` wide, with the column widths of `calculate_column_widths`.
pub fn table_lines(rows: &[TableRow], term_width: usize) -> (r: Vec<String>)
    requires
        forall|i: int, c: int| 0 <= i < rows@.len() && 0 <= c < 5 ==> byte_len(#[trigger] column_text(rows@[i], c)) <= isize::MAX,
    ensures
        string_views(r@) == table_text(rows@, column_widths(rows@, term_width as nat)),
        rows@.len() > 0 ==> r@.len() == rows@.len() + 2,
        forall|k: int| 0 <= k < rows@.len()
            ==> (#[trigger] r@[2 + k])@ == cells_line(shown_cells(rows@[k]), column_widths(rows@, term_width as nat)),
{
    proof {
        law_table_rows_in_given_order(rows@, column_widths(rows@, term_width as nat));
    }
    let mut out: Vec<String> = Vec::new();
    if rows.len() == 0 {
        out.push(owned("No price changes to display."));
        assert(string_views(out@) =~= seq!["No price changes to display."@]);
        return out;
    }
    let widths = calculate_column_widths(rows, term_width);
    proof {
        reveal_strlit("Symbol");
        reveal_strlit("Open");
        reveal_strlit("Current");
        reveal_strlit("Change %");
        reveal_strlit("Change Value");
        reveal_strlit("Volume 24h");
    }
    let titles: [&str; 6] = ["Symbol", "Open", "Current", "Change %", "Change Value", "Volume 24h"];
    assert(titles@.map_values(|c: &str| c@) =~= header_cells());
    out.push(format_cells(titles, &widths));
    out.push(format_separator(&widths));
    let mut i: usize = 0;
    while i < rows.len()
        invariant
            i <= rows@.len(),
            out@.len() == 2 + i,
            out@[0]@ == cells_line(header_cells(), widths@),
            out@[1]@ == separator_line(widths@),
            forall|j: int| 2 <= j < out@.len() ==> (#[trigger] out@[j])@ == cells_line(shown_cells(rows@[j - 2]), widths@),
        decreases rows@.len() - i,
    {
        let row = &rows[i];
        let cells: [&str; 6] = [
            row.symbol.as_str(),
            row.open.as_str(),
            row.current.as_str(),
            row.change_percent_shown.as_str(),
            row.change_value_shown.as_str(),
            row.volume.as_str(),
        ];
        assert(cells@.map_values(|c: &str| c@) =~= shown_cells(rows@[i as int]));
        out.push(format_cells(cells, &widths));
        i = i + 1;
    }
    let ghost expected = table_text(rows@, widths@);
    assert forall|j: int| 0 <= j < out@.len() implies #[trigger] string_views(out@)[j] == expected[j] by {
        if j >= 2 {
            assert(out@[j]@ == cells_line(shown_cells(rows@[j - 2]), widths@));
        }
    }
    assert(string_views(out@) =~= expected);
    assert forall|k: int| 0 <= k < rows@.len()
        implies (#[trigger] out@[2 + k])@ == cells_line(shown_cells(rows@[k]), column_widths(rows@, term_width as nat)) by {
        assert(string_views(out@)[2 + k] == out@[2 + k]@);
    }
    out
}

/// Law: a non-empty table is the header, the separator, then one line per
/// row in the order the rows are given (line `2 + k` renders row `k`);
/// an empty one is the single notice line.
pub proof fn law_table_rows_in_given_order(rows: Seq<TableRow>, widths: Seq<usize>)
    ensures
        rows.len() == 0 ==> table_text(rows, widths) == seq!["No price changes to display."@],
        rows.len() > 0 ==> table_text(rows, widths).len() == rows.len() + 2,
        rows.len() > 0 ==> table_text(rows, widths)[0] == cells_line(header_cells(), widths),
        rows.len() > 0 ==> table_text(rows, widths)[1] == separator_line(widths),
        forall|k: int| 0 <= k < rows.len() ==> #[trigger] table_text(rows, widths)[2 + k] == cells_line(shown_cells(rows[k]), widths),
{
    if rows.len() > 0 {
        let t = table_text(rows, widths);
        assert forall|k: int| 0 <= k < rows.len() implies #[trigger] t[2 + k] == cells_line(shown_cells(rows[k]), widths) by {
            assert(t[2 + k] == rows.map_values(|r: TableRow| cells_line(shown_cells(r), widths))[k]);
        }
    }
}

/// Whether a symbol passes the symbol filter: its uppercase form contains
/// the uppercase form of the filter.
pub fn symbol_matches_filter(symbol: &str, filter: &str) -> (r: bool)
    ensures
        r == contains_seq(unicode_uppercase(symbol@), unicode_uppercase(filter@)),
{
    let s = to_uppercase(symbol);
    let f = to_uppercase(filter);
    str_contains(s.as_str(), f.as_str())
}

} // verus!
