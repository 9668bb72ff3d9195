//! Column-aligned table rendering: per-column widths, one header line,
//! one separator line, one line per data row, each cell padded to its
//! column's width with one space of margin and `|` delimiters.

use vstd::prelude::*;
use vstd::string::*;

verus! {

/// A run of `n` spaces (empty when `n` is not positive).
pub open spec fn spaces(n: int) -> Seq<char> {
    Seq::new(if n < 0 {
        0
    } else {
        n as nat
    }, |i: int| ' ')
}

/// A run of `n` dashes (empty when `n` is not positive).
pub open spec fn dashes(n: int) -> Seq<char> {
    Seq::new(if n < 0 {
        0
    } else {
        n as nat
    }, |i: int| '-')
}

/// A cell padded on the right with spaces up to width `w`; a cell
/// longer than `w` is kept whole.
pub open spec fn padded(cell: Seq<char>, w: int) -> Seq<char> {
    cell + spaces(w - cell.len())
}

/// One rendered row: `|`, then for each cell a space, the padded cell,
/// a space and `|`.
pub open spec fn spec_row(cells: Seq<Seq<char>>, widths: Seq<int>) -> Seq<char>
    decreases cells.len(),
{
    if cells.len() == 0 {
        seq!['|']
    } else {
        spec_row(cells.drop_last(), widths) + seq![' '] + padded(
            cells.last(),
            widths[cells.len() - 1],
        ) + seq![' ', '|']
    }
}

/// The separator line: `|`, then for each width a space, that many
/// dashes, a space and `|`.
pub open spec fn spec_sep(widths: Seq<int>, n: int) -> Seq<char>
    decreases n,
{
    if n <= 0 {
        seq!['|']
    } else {
        spec_sep(widths, n - 1) + seq![' '] + dashes(widths[n - 1]) + seq![' ', '|']
    }
}

/// The widths of a row's first `n` columns, as used by the renderer.
pub open spec fn widths_view(widths: Seq<usize>) -> Seq<int> {
    widths.map_values(|w: usize| w as int)
}

/// Renders one table row with the given column widths.
pub fn format_row(cells: &Vec<String>, widths: &Vec<usize>) -> (r: String)
    requires
        cells@.len() <= widths@.len(),
    ensures
        r@ == spec_row(cells.deep_view(), widths_view(widths@)),
{
    let mut out = String::from_str("|");
    proof {
        reveal_strlit("|");
        assert(out@ =~= spec_row(cells.deep_view().subrange(0, 0), widths_view(widths@)));
    }
    let n: usize = cells.len();
    let mut idx: usize = 0;
    while idx < n
        invariant
            n == cells@.len(),
            cells@.len() <= widths@.len(),
            0 <= idx <= n,
            out@ == spec_row(cells.deep_view().subrange(0, idx as int), widths_view(widths@)),
        decreases n - idx,
    {
        let cell: &String = &cells[idx];
        let w: usize = widths[idx];
        out.append(" ");
        out.append(cell.as_str());
        let cell_len: usize = cell.as_str().unicode_len();
        let pad: usize = if w > cell_len {
            w - cell_len
        } else {
            0
        };
        let ghost before_pad = out@;
        let mut k: usize = 0;
        while k < pad
            invariant
                out@ == before_pad + spaces(k as int),
                k <= pad,
            decreases pad - k,
        {
            out.append(" ");
            proof {
                assert(before_pad + spaces(k as int) + " "@ =~= before_pad + spaces(k + 1 as int))
                    by {
                    reveal_strlit(" ");
                }
            }
            k = k + 1;
        }
        out.append(" |");
        proof {
            reveal_strlit(" ");
            reveal_strlit(" |");
            let cs = cells.deep_view();
            let ws = widths_view(widths@);
            assert(spaces(pad as int) =~= spaces(w - cell@.len()));
            assert(cs.subrange(0, idx + 1 as int).drop_last() =~= cs.subrange(0, idx as int));
            assert(cs.subrange(0, idx + 1 as int).last() == cell@);
            assert(out@ =~= spec_row(cs.subrange(0, idx as int), ws) + seq![' '] + padded(
                cell@,
                ws[idx as int],
            ) + seq![' ', '|']);
        }
        idx = idx + 1;
    }
    proof {
        assert(cells.deep_view().subrange(0, n as int) =~= cells.deep_view());
    }
    out
}

/// Renders the separator line for the given column widths.
pub fn format_sep(widths: &Vec<usize>) -> (r: String)
    ensures
        r@ == spec_sep(widths_view(widths@), widths@.len() as int),
{
    let mut out = String::from_str("|");
    proof {
        reveal_strlit("|");
        assert(out@ =~= spec_sep(widths_view(widths@), 0));
    }
    let n: usize = widths.len();
    let mut idx: usize = 0;
    while idx < n
        invariant
            n == widths@.len(),
            0 <= idx <= n,
            out@ == spec_sep(widths_view(widths@), idx as int),
        decreases n - idx,
    {
        let w: usize = widths[idx];
        out.append(" ");
        let ghost before_dashes = out@;
        let mut k: usize = 0;
        while k < w
            invariant
                out@ == before_dashes + dashes(k as int),
                k <= w,
            decreases w - k,
        {
            out.append("-");
            proof {
                assert(before_dashes + dashes(k as int) + "-"@ =~= before_dashes + dashes(
                    k + 1 as int,
                )) by {
                    reveal_strlit("-");
                }
            }
            k = k + 1;
        }
        out.append(" |");
        proof {
            reveal_strlit(" ");
            reveal_strlit(" |");
            assert(out@ =~= spec_sep(widths_view(widths@), idx + 1 as int));
        }
        idx = idx + 1;
    }
    out
}

/// The width of column `i`: the largest character count among the
/// header cell and every data cell of that column.
pub open spec fn spec_col_width(headers: Seq<Seq<char>>, rows: Seq<Seq<Seq<char>>>, i: int) -> int
    decreases rows.len(),
{
    if rows.len() == 0 {
        headers[i].len() as int
    } else {
        let rest = spec_col_width(headers, rows.drop_last(), i);
        if rows.last()[i].len() > rest {
            rows.last()[i].len() as int
        } else {
            rest
        }
    }
}

/// Computes per-column widths from the header row and the data rows.
pub fn compute_widths(headers: &Vec<String>, rows: &Vec<Vec<String>>) -> (r: Vec<usize>)
    requires
        forall|i: int| 0 <= i < rows@.len() ==> #[trigger] rows@[i]@.len() == headers@.len(),
    ensures
        r@.len() == headers@.len(),
        forall|i: int|
            0 <= i < headers@.len() ==> #[trigger] r@[i] as int == spec_col_width(
                headers.deep_view(),
                rows.deep_view(),
                i,
            ),
{
    let mut widths: Vec<usize> = Vec::new();
    let ncols: usize = headers.len();
    let mut i: usize = 0;
    while i < ncols
        invariant
            ncols == headers@.len(),
            widths@.len() == i,
            0 <= i <= ncols,
            forall|j: int|
                0 <= j < i ==> #[trigger] widths@[j] as int == spec_col_width(
                    headers.deep_view(),
                    Seq::<Seq<Seq<char>>>::empty(),
                    j,
                ),
        decreases ncols - i,
    {
        widths.push(headers[i].as_str().unicode_len());
        i = i + 1;
    }
    let nrows: usize = rows.len();
    let mut rix: usize = 0;
    while rix < nrows
        invariant
            ncols == headers@.len(),
            nrows == rows@.len(),
            widths@.len() == ncols,
            0 <= rix <= nrows,
            forall|i0: int| 0 <= i0 < rows@.len() ==> #[trigger] rows@[i0]@.len() == headers@.len(),
            forall|j: int|
                0 <= j < ncols ==> #[trigger] widths@[j] as int == spec_col_width(
                    headers.deep_view(),
                    rows.deep_view().subrange(0, rix as int),
                    j,
                ),
        decreases nrows - rix,
    {
        let ghost prev = rows.deep_view().subrange(0, rix as int);
        let ghost cur = rows.deep_view().subrange(0, rix + 1 as int);
        proof {
            assert(cur.drop_last() =~= prev);
            assert(cur.last() == rows.deep_view()[rix as int]);
        }
        let row: &Vec<String> = &rows[rix];
        let mut cix: usize = 0;
        while cix < ncols
            invariant
                ncols == headers@.len(),
                nrows == rows@.len(),
                rix < nrows,
                widths@.len() == ncols,
                0 <= cix <= ncols,
                row == &rows@[rix as int],
                row@.len() == ncols,
                prev == rows.deep_view().subrange(0, rix as int),
                cur == rows.deep_view().subrange(0, rix + 1 as int),
                cur.drop_last() == prev,
                cur.last() == rows.deep_view()[rix as int],
                forall|j: int|
                    0 <= j < cix ==> #[trigger] widths@[j] as int == spec_col_width(
                        headers.deep_view(),
                        cur,
                        j,
                    ),
                forall|j: int|
                    cix <= j < ncols ==> #[trigger] widths@[j] as int == spec_col_width(
                        headers.deep_view(),
                        prev,
                        j,
                    ),
            decreases ncols - cix,
        {
            let cell_len: usize = row[cix].as_str().unicode_len();
            proof {
                assert(rows.deep_view()[rix as int][cix as int] == row@[cix as int]@);
            }
            if cell_len > widths[cix] {
                widths.set(cix, cell_len);
            }
            cix = cix + 1;
        }
        rix = rix + 1;
    }
    proof {
        assert(rows.deep_view().subrange(0, nrows as int) =~= rows.deep_view());
    }
    widths
}

/// The rendered lines of a whole table: header row, separator, then
/// one line per data row, all with the computed per-column widths.
pub open spec fn spec_table_lines(headers: Seq<Seq<char>>, rows: Seq<Seq<Seq<char>>>) -> Seq<
    Seq<char>,
> {
    let widths = Seq::new(headers.len(), |i: int| spec_col_width(headers, rows, i));
    seq![spec_row(headers, widths), spec_sep(widths, headers.len() as int)] + rows.map_values(
        |row: Seq<Seq<char>>| spec_row(row, widths),
    )
}

/// Renders the full table: header line, separator line, one line per
/// data row.
pub fn render_table(headers: &Vec<String>, rows: &Vec<Vec<String>>) -> (r: Vec<String>)
    requires
        forall|i: int| 0 <= i < rows@.len() ==> #[trigger] rows@[i]@.len() == headers@.len(),
    ensures
        r.deep_view() == spec_table_lines(headers.deep_view(), rows.deep_view()),
{
    let widths = compute_widths(headers, rows);
    let ghost ws = Seq::new(
        headers.deep_view().len(),
        |i: int| spec_col_width(headers.deep_view(), rows.deep_view(), i),
    );
    proof {
        assert(widths_view(widths@) =~= ws);
    }
    let mut lines: Vec<String> = Vec::new();
    lines.push(format_row(headers, &widths));
    lines.push(format_sep(&widths));
    let nrows: usize = rows.len();
    let mut rix: usize = 0;
    while rix < nrows
        invariant
            nrows == rows@.len(),
            widths@.len() == headers@.len(),
            widths_view(widths@) == ws,
            forall|i0: int| 0 <= i0 < rows@.len() ==> #[trigger] rows@[i0]@.len() == headers@.len(),
            0 <= rix <= nrows,
            lines.deep_view().len() == 2 + rix,
            lines.deep_view()[0] == spec_row(headers.deep_view(), ws),
            lines.deep_view()[1] == spec_sep(ws, headers@.len() as int),
            forall|k: int|
                0 <= k < rix ==> #[trigger] lines.deep_view()[2 + k] == spec_row(
                    rows.deep_view()[k],
                    ws,
                ),
        decreases nrows - rix,
    {
        let ghost before = lines.deep_view();
        let line = format_row(&rows[rix], &widths);
        proof {
            assert(rows@[rix as int].deep_view() == rows.deep_view()[rix as int]);
        }
        lines.push(line);
        proof {
            assert(lines.deep_view() =~= before.push(line@));
        }
        rix = rix + 1;
    }
    proof {
        let hs = headers.deep_view();
        let rs = rows.deep_view();
        assert(ws =~= Seq::new(hs.len(), |i: int| spec_col_width(hs, rs, i)));
        let expected = spec_table_lines(hs, rs);
        assert(lines.deep_view().len() == expected.len());
        assert forall|k: int| 0 <= k < expected.len() implies lines.deep_view()[k] == expected[k]
        by {
            if k >= 2 {
                assert(lines.deep_view()[2 + (k - 2)] == spec_row(rs[k - 2], ws));
                assert(expected[k] == rs.map_values(|row: Seq<Seq<char>>| spec_row(row, ws))[k
                    - 2]);
            }
        }
        assert(lines.deep_view() =~= expected);
    }
    lines
}

/// The length of a rendered line over the first `n` columns: one
/// leading `|`, then width plus three margin and delimiter characters
/// per column.
pub open spec fn spec_line_len(widths: Seq<int>, n: int) -> int
    decreases n,
{
    if n <= 0 {
        1
    } else {
        spec_line_len(widths, n - 1) + widths[n - 1] + 3
    }
}

proof fn lemma_row_len(cells: Seq<Seq<char>>, widths: Seq<int>)
    requires
        cells.len() <= widths.len(),
        forall|i: int| 0 <= i < cells.len() ==> #[trigger] cells[i].len() <= widths[i],
    ensures
        spec_row(cells, widths).len() == spec_line_len(widths, cells.len() as int),
    decreases cells.len(),
{
    if cells.len() > 0 {
        assert(forall|i: int|
            0 <= i < cells.drop_last().len() ==> #[trigger] cells.drop_last()[i].len()
                <= widths[i]);
        lemma_row_len(cells.drop_last(), widths);
        assert(cells[cells.len() - 1].len() <= widths[cells.len() - 1]);
        assert(padded(cells.last(), widths[cells.len() - 1]).len() == widths[cells.len() - 1]);
    }
}

proof fn lemma_sep_len(widths: Seq<int>, n: int)
    requires
        n <= widths.len(),
        forall|i: int| 0 <= i < n ==> #[trigger] widths[i] >= 0,
    ensures
        spec_sep(widths, n).len() == spec_line_len(widths, n),
    decreases n,
{
    if n > 0 {
        lemma_sep_len(widths, n - 1);
    }
}

/// The width of a column is at least the length of its header cell and
/// of each of its data cells.
pub proof fn lemma_col_width_bounds(headers: Seq<Seq<char>>, rows: Seq<Seq<Seq<char>>>, i: int)
    requires
        0 <= i < headers.len(),
        forall|r: int| 0 <= r < rows.len() ==> #[trigger] rows[r].len() == headers.len(),
    ensures
        spec_col_width(headers, rows, i) >= headers[i].len(),
        forall|r: int|
            0 <= r < rows.len() ==> #[trigger] rows[r][i].len() <= spec_col_width(
                headers,
                rows,
                i,
            ),
    decreases rows.len(),
{
    if rows.len() > 0 {
        assert(forall|r: int|
            0 <= r < rows.drop_last().len() ==> #[trigger] rows.drop_last()[r].len()
                == headers.len());
        lemma_col_width_bounds(headers, rows.drop_last(), i);
        assert forall|r: int| 0 <= r < rows.len() implies #[trigger] rows[r][i].len()
            <= spec_col_width(headers, rows, i) by {
            if r < rows.len() - 1 {
                assert(rows[r] == rows.drop_last()[r]);
                assert(rows.drop_last()[r][i].len() <= spec_col_width(
                    headers,
                    rows.drop_last(),
                    i,
                ));
            }
        }
    }
}

/// Every rendered line of a table — the header line, the separator and
/// every data line — has the same total length, and every cell is
/// padded out to exactly its column's computed width.
pub proof fn lemma_table_alignment(headers: Seq<Seq<char>>, rows: Seq<Seq<Seq<char>>>)
    requires
        forall|r: int| 0 <= r < rows.len() ==> #[trigger] rows[r].len() == headers.len(),
    ensures
        forall|k: int|
            0 <= k < spec_table_lines(headers, rows).len() ==> #[trigger] spec_table_lines(
                headers,
                rows,
            )[k].len() == spec_table_lines(headers, rows)[0].len(),
        forall|i: int|
            0 <= i < headers.len() ==> padded(
                headers[i],
                spec_col_width(headers, rows, i),
            ).len() == spec_col_width(headers, rows, i),
        forall|r: int, i: int|
            0 <= r < rows.len() && 0 <= i < headers.len() ==> padded(
                #[trigger] rows[r][i],
                spec_col_width(headers, rows, i),
            ).len() == spec_col_width(headers, rows, i),
{
    let widths = Seq::new(headers.len(), |i: int| spec_col_width(headers, rows, i));
    let lines = spec_table_lines(headers, rows);
    assert forall|i: int| 0 <= i < headers.len() implies headers[i].len() <= widths[i]
        && #[trigger] widths[i] >= 0 by {
        lemma_col_width_bounds(headers, rows, i);
    }
    assert forall|r: int, i: int| 0 <= r < rows.len() && 0 <= i < headers.len() implies (
    #[trigger] rows[r][i]).len() <= widths[i] by {
        lemma_col_width_bounds(headers, rows, i);
    }
    lemma_row_len(headers, widths);
    lemma_sep_len(widths, headers.len() as int);
    assert forall|k: int| 0 <= k < lines.len() implies #[trigger] lines[k].len() == lines[0].len()
    by {
        if k >= 2 {
            let r = k - 2;
            assert(lines[k] == rows.map_values(|row: Seq<Seq<char>>| spec_row(row, widths))[r]);
            lemma_row_len(rows[r], widths);
        }
    }
}

} // verus!
