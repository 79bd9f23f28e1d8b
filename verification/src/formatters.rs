//! Rendering results for the terminal: plain-text tables and JSON.
//!
//! The table renderer pads every column to the width of its longest cell,
//! joins cells with two spaces, underlines the header row with dashes and
//! trims trailing whitespace from the whole rendering.  An empty result
//! list renders as a fixed notice instead of an empty table.

use vstd::prelude::*;

use crate::json::{json_to_string, spec_ser, Json};
use crate::types::Tabular;
use crate::wire::{items_to_json, spec_jsons_to, ToJson};

verus! {

use vstd::string::StrSliceExecFns;
use vstd::string::StringExecFns;

/// A run of spaces.
pub open spec fn spec_spaces(n: int) -> Seq<char>
    decreases n,
{
    if n <= 0 {
        Seq::empty()
    } else {
        spec_spaces(n - 1).push(' ')
    }
}

/// A run of dashes.
pub open spec fn spec_dashes(n: int) -> Seq<char>
    decreases n,
{
    if n <= 0 {
        Seq::empty()
    } else {
        spec_dashes(n - 1).push('-')
    }
}

/// A cell padded with spaces to width `w`; a longer cell stands as it is.
pub open spec fn spec_pad(cell: Seq<char>, w: int) -> Seq<char> {
    cell + spec_spaces(w - cell.len())
}

/// The text of the cell in column `c`: padded to the column's width when
/// the column has one.
pub open spec fn spec_cell_text(cell: Seq<char>, widths: Seq<int>, c: int) -> Seq<char> {
    if 0 <= c < widths.len() {
        spec_pad(cell, widths[c])
    } else {
        cell
    }
}

/// One rendered row: its cells, each padded, joined with two spaces.
pub open spec fn spec_row_line(row: Seq<Seq<char>>, widths: Seq<int>) -> Seq<char>
    decreases row.len(),
{
    if row.len() == 0 {
        Seq::empty()
    } else if row.len() == 1 {
        spec_cell_text(row[0], widths, 0)
    } else {
        spec_row_line(row.drop_last(), widths) + "  "@ + spec_cell_text(
            row.last(),
            widths,
            row.len() - 1,
        )
    }
}

/// The separator under the header: dashes as wide as each column, joined
/// with two spaces.
pub open spec fn spec_sep_line(widths: Seq<int>) -> Seq<char>
    decreases widths.len(),
{
    if widths.len() == 0 {
        Seq::empty()
    } else if widths.len() == 1 {
        spec_dashes(widths[0])
    } else {
        spec_sep_line(widths.drop_last()) + "  "@ + spec_dashes(widths.last())
    }
}

/// The width of column `c`: the length of its longest cell over all rows.
pub open spec fn spec_col_width(rows: Seq<Seq<Seq<char>>>, c: int) -> int
    decreases rows.len(),
{
    if rows.len() == 0 {
        0
    } else {
        let rest = spec_col_width(rows.drop_last(), c);
        let cur = if 0 <= c < rows.last().len() {
            rows.last()[c].len() as int
        } else {
            0
        };
        if cur > rest {
            cur
        } else {
            rest
        }
    }
}

/// The column widths of a table: one per column of the first row.
pub open spec fn spec_widths(rows: Seq<Seq<Seq<char>>>) -> Seq<int> {
    if rows.len() == 0 {
        Seq::empty()
    } else {
        Seq::new(rows[0].len(), |c: int| spec_col_width(rows, c))
    }
}

/// The first `upto` rows rendered: each row's line and a newline, with the
/// separator line after the first row.
pub open spec fn spec_table_lines(
    rows: Seq<Seq<Seq<char>>>,
    widths: Seq<int>,
    upto: int,
) -> Seq<char>
    decreases upto,
{
    if upto <= 0 {
        Seq::empty()
    } else if upto == 1 {
        spec_row_line(rows[0], widths) + seq!['\n'] + spec_sep_line(widths) + seq!['\n']
    } else {
        spec_table_lines(rows, widths, upto - 1) + spec_row_line(rows[upto - 1], widths)
            + seq!['\n']
    }
}

/// The whitespace trimmed from a rendering's end.
pub open spec fn spec_ws_char(c: char) -> bool {
    c == ' ' || c == '\n' || c == '\t' || c == '\r'
}

/// The text without its trailing whitespace.
pub open spec fn spec_trim_end(s: Seq<char>) -> Seq<char>
    decreases s.len(),
{
    if s.len() > 0 && spec_ws_char(s.last()) {
        spec_trim_end(s.drop_last())
    } else {
        s
    }
}

/// The rendered table: every row lined up under the headers, the header
/// underlined, trailing whitespace trimmed; no rows render to nothing.
pub open spec fn spec_format_rows(rows: Seq<Seq<Seq<char>>>) -> Seq<char> {
    if rows.len() == 0 {
        Seq::empty()
    } else {
        spec_trim_end(spec_table_lines(rows, spec_widths(rows), rows.len() as int))
    }
}

/// The rows of a rendered table: the headers first, then each record's
/// row in order.
pub open spec fn spec_table_rows<T: Tabular>(items: Seq<T>) -> Seq<Seq<Seq<char>>> {
    seq![T::spec_headers()] + Seq::new(items.len(), |i: int| items[i].spec_row())
}

/// The rendered key-value lines of the first `upto` header-value pairs.
pub open spec fn spec_kv_lines(hs: Seq<Seq<char>>, vs: Seq<Seq<char>>, upto: int) -> Seq<char>
    decreases upto,
{
    if upto <= 0 {
        Seq::empty()
    } else {
        spec_kv_lines(hs, vs, upto - 1) + hs[upto - 1] + ": "@ + vs[upto - 1] + seq!['\n']
    }
}

/// A single record rendered as `HEADER: value` lines, one per column.
pub open spec fn spec_format_single(hs: Seq<Seq<char>>, vs: Seq<Seq<char>>) -> Seq<char> {
    spec_kv_lines(
        hs,
        vs,
        if hs.len() <= vs.len() {
            hs.len() as int
        } else {
            vs.len() as int
        },
    )
}

fn push_spaces(out: &mut String, n: usize)
    ensures
        final(out)@ == old(out)@ + spec_spaces(n as int),
{
    let mut i: usize = 0;
    proof {
        assert(out@ =~= old(out)@ + spec_spaces(0));
    }
    while i < n
        invariant
            i <= n,
            out@ == old(out)@ + spec_spaces(i as int),
        decreases n - i,
    {
        out.push(' ');
        proof {
            assert(spec_spaces(i + 1) == spec_spaces(i as int).push(' '));
            assert(out@ =~= old(out)@ + spec_spaces(i + 1));
        }
        i = i + 1;
    }
}

fn push_dashes(out: &mut String, n: usize)
    ensures
        final(out)@ == old(out)@ + spec_dashes(n as int),
{
    let mut i: usize = 0;
    proof {
        assert(out@ =~= old(out)@ + spec_dashes(0));
    }
    while i < n
        invariant
            i <= n,
            out@ == old(out)@ + spec_dashes(i as int),
        decreases n - i,
    {
        out.push('-');
        proof {
            assert(spec_dashes(i + 1) == spec_dashes(i as int).push('-'));
            assert(out@ =~= old(out)@ + spec_dashes(i + 1));
        }
        i = i + 1;
    }
}

fn push_padded(out: &mut String, cell: &String, w: usize)
    ensures
        final(out)@ == old(out)@ + spec_pad(cell@, w as int),
{
    let len = cell.as_str().unicode_len();
    out.append(cell.as_str());
    if w > len {
        push_spaces(out, w - len);
    } else {
        proof {
            assert(spec_spaces(w - cell@.len()) =~= Seq::<char>::empty());
            assert(out@ =~= old(out)@ + spec_pad(cell@, w as int));
        }
    }
}

/// The lengths of a width list, as mathematical integers.
pub open spec fn spec_usizes(v: Seq<usize>) -> Seq<int> {
    Seq::new(v.len(), |i: int| v[i] as int)
}

fn append_row_line(out: &mut String, row: &Vec<String>, widths: &Vec<usize>)
    ensures
        final(out)@ == old(out)@ + spec_row_line(row.deep_view(), spec_usizes(widths@)),
{
    let ghost grow = row.deep_view();
    let ghost gw = spec_usizes(widths@);
    let mut c: usize = 0;
    proof {
        assert(out@ =~= old(out)@ + spec_row_line(grow.take(0), gw));
    }
    while c < row.len()
        invariant
            c <= row@.len(),
            grow == row.deep_view(),
            gw == spec_usizes(widths@),
            grow.len() == row@.len(),
            forall|k: int| 0 <= k < row@.len() ==> grow[k] == #[trigger] row@[k]@,
            out@ == old(out)@ + spec_row_line(grow.take(c as int), gw),
        decreases row@.len() - c,
    {
        if c > 0 {
            out.append("  ");
        }
        if c < widths.len() {
            push_padded(out, &row[c], widths[c]);
        } else {
            out.append(row[c].as_str());
        }
        proof {
            let t = grow.take(c + 1);
            assert(t.drop_last() =~= grow.take(c as int));
            assert(t.last() == grow[c as int]);
            assert(spec_cell_text(grow[c as int], gw, c as int) == if c < widths@.len() {
                spec_pad(row@[c as int]@, widths@[c as int] as int)
            } else {
                row@[c as int]@
            });
            assert(out@ =~= old(out)@ + spec_row_line(t, gw));
        }
        c = c + 1;
    }
    proof {
        assert(grow.take(grow.len() as int) =~= grow);
    }
}

fn append_sep_line(out: &mut String, widths: &Vec<usize>)
    ensures
        final(out)@ == old(out)@ + spec_sep_line(spec_usizes(widths@)),
{
    let ghost gw = spec_usizes(widths@);
    let mut c: usize = 0;
    proof {
        assert(out@ =~= old(out)@ + spec_sep_line(gw.take(0)));
    }
    while c < widths.len()
        invariant
            c <= widths@.len(),
            gw == spec_usizes(widths@),
            gw.len() == widths@.len(),
            out@ == old(out)@ + spec_sep_line(gw.take(c as int)),
        decreases widths@.len() - c,
    {
        if c > 0 {
            out.append("  ");
        }
        push_dashes(out, widths[c]);
        proof {
            let t = gw.take(c + 1);
            assert(t.drop_last() =~= gw.take(c as int));
            assert(t.last() == gw[c as int]);
            assert(gw[c as int] == widths@[c as int] as int);
            assert(out@ =~= old(out)@ + spec_sep_line(t));
        }
        c = c + 1;
    }
    proof {
        assert(gw.take(gw.len() as int) =~= gw);
    }
}

/// Column widths never fall below zero.
proof fn lemma_col_width_nonneg(rows: Seq<Seq<Seq<char>>>, c: int)
    ensures
        spec_col_width(rows, c) >= 0,
    decreases rows.len(),
{
    if rows.len() > 0 {
        lemma_col_width_nonneg(rows.drop_last(), c);
    }
}

/// Replace one width in place.
fn set_width(v: &mut Vec<usize>, i: usize, x: usize)
    requires
        i < old(v)@.len(),
    ensures
        final(v)@ =~= old(v)@.update(i as int, x),
{
    v.remove(i);
    v.insert(i, x);
    proof {
        assert(v@ =~= old(v)@.update(i as int, x));
    }
}

/// The text without its trailing whitespace.
fn trim_end(s: &str) -> (r: String)
    ensures
        r@ == spec_trim_end(s@),
{
    let n = s.unicode_len();
    let mut end = n;
    while end > 0
        invariant
            end <= n,
            n == s@.len(),
            forall|k: int| end <= k < n ==> spec_ws_char(#[trigger] s@[k]),
        decreases end,
    {
        let c = s.get_char(end - 1);
        if c == ' ' || c == '\n' || c == '\t' || c == '\r' {
            end = end - 1;
        } else {
            proof {
                lemma_trim_end(s@, end as int);
            }
            let kept = s.substring_char(0, end);
            let r = String::from_str(kept);
            proof {
                assert(r@ =~= s@.take(end as int));
            }
            return r;
        }
    }
    proof {
        lemma_trim_end(s@, 0);
        assert(spec_trim_end(s@) =~= Seq::<char>::empty());
    }
    String::new()
}

/// Trimming stops exactly at the last non-whitespace character.
proof fn lemma_trim_end(s: Seq<char>, end: int)
    requires
        0 <= end <= s.len(),
        forall|k: int| end <= k < s.len() ==> spec_ws_char(#[trigger] s[k]),
        end > 0 ==> !spec_ws_char(s[end - 1]),
    ensures
        spec_trim_end(s) == s.take(end),
    decreases s.len(),
{
    if end == s.len() {
        assert(s.take(end) =~= s);
    } else {
        assert(spec_ws_char(s.last()));
        let t = s.drop_last();
        assert(forall|k: int| end <= k < t.len() ==> t[k] == s[k]);
        if end > 0 {
            assert(t[end - 1] == s[end - 1]);
        }
        lemma_trim_end(t, end);
        assert(t.take(end) =~= s.take(end));
    }
}

/// Render rows of cells as a lined-up table: columns padded to their
/// widest cell, cells joined by two spaces, the first row underlined with
/// dashes, trailing whitespace trimmed.
pub fn format_rows(rows: &Vec<Vec<String>>) -> (r: String)
    ensures
        r@ == spec_format_rows(rows.deep_view()),
{
    let ghost grows = rows.deep_view();
    if rows.len() == 0 {
        return String::new();
    }
    proof {
        assert forall|a: int, b: int|
            0 <= a < grows.len() && 0 <= b < grows[a].len() implies #[trigger] grows[a][b]
            == rows@[a]@[b]@ by {
            assert(grows[a] == rows@[a].deep_view());
        }
    }
    let num_cols = rows[0].len();
    let mut widths: Vec<usize> = Vec::new();
    let mut i: usize = 0;
    while i < num_cols
        invariant
            i <= num_cols,
            widths@.len() == i,
            forall|k: int| 0 <= k < i ==> widths@[k] == 0,
        decreases num_cols - i,
    {
        widths.push(0);
        i = i + 1;
    }
    proof {
        assert(grows.take(0).len() == 0);
        assert forall|k: int| 0 <= k < num_cols implies widths@[k] as int == spec_col_width(
            grows.take(0),
            k,
        ) by {
        }
    }
    let mut r: usize = 0;
    while r < rows.len()
        invariant
            r <= rows@.len(),
            grows == rows.deep_view(),
            grows.len() == rows@.len(),
            num_cols == rows@[0]@.len(),
            widths@.len() == num_cols,
            forall|a: int, b: int| 0 <= a < grows.len() && 0 <= b < grows[a].len()
                ==> #[trigger] grows[a][b] == rows@[a]@[b]@,
            forall|a: int| 0 <= a < grows.len() ==> #[trigger] grows[a].len() == rows@[a]@.len(),
            forall|k: int| 0 <= k < num_cols ==> (#[trigger] widths@[k]) as int
                == spec_col_width(grows.take(r as int), k),
        decreases rows@.len() - r,
    {
        let row = &rows[r];
        let ghost prevw = widths@;
        let mut c: usize = 0;
        while c < row.len()
            invariant
                c <= row@.len(),
                r < rows@.len(),
                row == &rows@[r as int],
                grows == rows.deep_view(),
                grows.len() == rows@.len(),
                widths@.len() == num_cols,
                prevw.len() == num_cols,
                forall|a: int, b: int| 0 <= a < grows.len() && 0 <= b < grows[a].len()
                    ==> #[trigger] grows[a][b] == rows@[a]@[b]@,
                forall|a: int| 0 <= a < grows.len() ==> #[trigger] grows[a].len()
                    == rows@[a]@.len(),
                forall|k: int| 0 <= k < num_cols ==> (#[trigger] widths@[k]) as int == if k < c
                    && k < row@.len() {
                    if grows[r as int][k].len() as int > prevw[k] as int {
                        grows[r as int][k].len() as int
                    } else {
                        prevw[k] as int
                    }
                } else {
                    prevw[k] as int
                },
            decreases row@.len() - c,
        {
            if c < num_cols {
                let cl = row[c].as_str().unicode_len();
                if cl > widths[c] {
                    set_width(&mut widths, c, cl);
                }
            }
            c = c + 1;
        }
        proof {
            let t = grows.take(r + 1);
            assert(t.drop_last() =~= grows.take(r as int));
            assert(t.last() == grows[r as int]);
            assert forall|k: int| 0 <= k < num_cols implies widths@[k] as int
                == spec_col_width(grows.take(r + 1), k) by {
                lemma_col_width_nonneg(grows.take(r as int), k);
                assert(grows[r as int].len() == rows@[r as int]@.len());
            }
        }
        r = r + 1;
    }
    proof {
        assert(grows.take(grows.len() as int) =~= grows);
        assert(spec_usizes(widths@) =~= spec_widths(grows));
    }
    let mut out = String::new();
    let mut r2: usize = 0;
    while r2 < rows.len()
        invariant
            r2 <= rows@.len(),
            grows == rows.deep_view(),
            grows.len() == rows@.len(),
            spec_usizes(widths@) == spec_widths(grows),
            forall|a: int| 0 <= a < grows.len() ==> #[trigger] grows[a] == rows@[a].deep_view(),
            out@ == spec_table_lines(grows, spec_widths(grows), r2 as int),
        decreases rows@.len() - r2,
    {
        append_row_line(&mut out, &rows[r2], &widths);
        out.push('\n');
        if r2 == 0 {
            append_sep_line(&mut out, &widths);
            out.push('\n');
        }
        proof {
            assert(rows@[r2 as int].deep_view() == grows[r2 as int]);
            assert(out@ =~= spec_table_lines(grows, spec_widths(grows), r2 + 1));
        }
        r2 = r2 + 1;
    }
    trim_end(out.as_str())
}

/// Render records as a table, or the fixed notice when there are none.
pub fn format_table<T: Tabular>(items: &Vec<T>) -> (r: String)
    ensures
        items@.len() == 0 ==> r@ == "No results found."@,
        items@.len() > 0 ==> r@ == spec_format_rows(spec_table_rows::<T>(items@)),
{
    if items.len() == 0 {
        return String::from_str("No results found.");
    }
    let headers = T::headers();
    let mut hrow: Vec<String> = Vec::new();
    let mut i: usize = 0;
    while i < headers.len()
        invariant
            i <= headers@.len(),
            hrow@.len() == i,
            forall|k: int| 0 <= k < i ==> #[trigger] hrow@[k]@ == headers@[k]@,
        decreases headers@.len() - i,
    {
        hrow.push(String::from_str(headers[i]));
        i = i + 1;
    }
    proof {
        assert(hrow.deep_view() =~= T::spec_headers());
    }
    let mut rows: Vec<Vec<String>> = Vec::new();
    rows.push(hrow);
    let mut k: usize = 0;
    while k < items.len()
        invariant
            k <= items@.len(),
            rows@.len() == k + 1,
            rows@[0].deep_view() == T::spec_headers(),
            forall|q: int| 0 <= q < k ==> #[trigger] rows@[q + 1].deep_view()
                == items@[q].spec_row(),
        decreases items@.len() - k,
    {
        rows.push(items[k].row());
        k = k + 1;
    }
    let out = format_rows(&rows);
    proof {
        assert forall|q: int| 0 <= q < rows@.len() implies #[trigger] rows.deep_view()[q]
            == spec_table_rows::<T>(items@)[q] by {
            assert(rows.deep_view()[q] == rows@[q].deep_view());
            if q > 0 {
                assert(rows@[(q - 1) + 1].deep_view() == items@[q - 1].spec_row());
            }
        }
        assert(rows.deep_view() =~= spec_table_rows::<T>(items@));
    }
    out
}

/// Render one record as `HEADER: value` lines.
pub fn format_single<T: Tabular>(item: &T) -> (r: String)
    ensures
        r@ == spec_format_single(T::spec_headers(), item.spec_row()),
{
    let headers = T::headers();
    let values = item.row();
    let n = if headers.len() <= values.len() {
        headers.len()
    } else {
        values.len()
    };
    let mut out = String::new();
    let mut i: usize = 0;
    proof {
        assert(out@ =~= spec_kv_lines(T::spec_headers(), item.spec_row(), 0));
    }
    while i < n
        invariant
            i <= n,
            n == if headers@.len() <= values@.len() {
                headers@.len()
            } else {
                values@.len()
            },
            headers.deep_view() == T::spec_headers(),
            values.deep_view() == item.spec_row(),
            headers@.len() == T::spec_headers().len(),
            values@.len() == item.spec_row().len(),
            out@ == spec_kv_lines(T::spec_headers(), item.spec_row(), i as int),
        decreases n - i,
    {
        out.append(headers[i]);
        out.append(": ");
        out.append(values[i].as_str());
        out.push('\n');
        proof {
            assert(headers@[i as int]@ == T::spec_headers()[i as int]);
            assert(values@[i as int]@ == item.spec_row()[i as int]);
            assert(out@ =~= spec_kv_lines(T::spec_headers(), item.spec_row(), i + 1));
        }
        i = i + 1;
    }
    out
}

/// Render records as a JSON array.
pub fn format_json<T: ToJson>(items: &Vec<T>) -> (r: String)
    ensures
        r@ == spec_ser(Json::Arr(spec_jsons_to(items@))),
{
    json_to_string(&items_to_json(items))
}

/// Render one record as JSON.
pub fn format_json_single<T: ToJson>(item: &T) -> (r: String)
    ensures
        r@ == spec_ser(item.spec_to_json()),
{
    json_to_string(&item.to_output_json())
}

/// Render records in the selected format: a table or a JSON array.
pub fn render_list<T: Tabular + ToJson>(items: &Vec<T>, format: crate::types::OutputFormat) -> (r:
    String)
    ensures
        format == crate::types::OutputFormat::Table && items@.len() == 0 ==> r@
            == "No results found."@,
        format == crate::types::OutputFormat::Table && items@.len() > 0 ==> r@
            == spec_format_rows(spec_table_rows::<T>(items@)),
        format == crate::types::OutputFormat::Json ==> r@ == spec_ser(
            Json::Arr(spec_jsons_to(items@)),
        ),
{
    match format {
        crate::types::OutputFormat::Table => format_table(items),
        crate::types::OutputFormat::Json => format_json(items),
    }
}

/// Render one record in the selected format: key-value lines or JSON.
pub fn render_one<T: Tabular + ToJson>(item: &T, format: crate::types::OutputFormat) -> (r:
    String)
    ensures
        format == crate::types::OutputFormat::Table ==> r@ == spec_format_single(
            T::spec_headers(),
            item.spec_row(),
        ),
        format == crate::types::OutputFormat::Json ==> r@ == spec_ser(item.spec_to_json()),
{
    match format {
        crate::types::OutputFormat::Table => format_single(item),
        crate::types::OutputFormat::Json => format_json_single(item),
    }
}

/// An empty record list renders as the two-character empty JSON array.
pub proof fn lemma_empty_json_list()
    ensures
        spec_ser(Json::Arr(Seq::<Json>::empty())) == "[]"@,
{
    reveal_strlit("[]");
    assert(crate::json::spec_ser_items(Seq::<Json>::empty()).len() == 0);
    assert(spec_ser(Json::Arr(Seq::<Json>::empty())) =~= "[]"@);
}

} // verus!
