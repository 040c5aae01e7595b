//! Where the cursor stands among the display lines, which lines the viewport
//! shows, the screen cell of the cursor, and the targets of vertical moves.

use vstd::prelude::*;
use crate::reflow::{
    line_start, lines_view, reflow, reflow_scan, lemma_line_start_prefix,
    lemma_line_start_total, lemma_reflow_round_trip, lemma_scan_shape,
};

verus! {

/// Scanning from line `i` on, the first line that ends after offset `idx`,
/// or the last line if none does.
pub open spec fn line_of_from(lines: Seq<Seq<char>>, idx: int, i: int) -> int
    decreases lines.len() - i,
{
    if i >= lines.len() - 1 {
        i
    } else if line_start(lines, i + 1) > idx {
        i
    } else {
        line_of_from(lines, idx, i + 1)
    }
}

/// The index of the display line that holds offset `idx`.
pub open spec fn line_of(lines: Seq<Seq<char>>, idx: int) -> int {
    line_of_from(lines, idx, 0)
}

/// First visible line: the top of the text, unless the cursor's line lies
/// below the first screen, in which case that line is the last one shown.
pub open spec fn view_start_of(lines: Seq<Seq<char>>, idx: int, rows: nat) -> int {
    let i = line_of(lines, idx);
    if i > rows - 1 {
        i - rows + 1
    } else {
        0
    }
}

/// Walking the characters of `text`, the screen column and row reached after
/// the last of them: a newline, or a character met in the last column, moves to
/// the start of the next row.
pub open spec fn cursor_walk(text: Seq<char>, cols: nat) -> (nat, nat)
    decreases text.len(),
{
    if text.len() == 0 {
        (0, 0)
    } else {
        let (col, row) = cursor_walk(text.drop_last(), cols);
        if text.last() == '\n' || col >= cols - 1 {
            (0, row + 1)
        } else {
            (col + 1, row)
        }
    }
}

/// The screen cell of the cursor at `idx`, rows counted from the top of the
/// viewport that starts at display line `start`.
pub open spec fn screen_cell(content: Seq<char>, idx: int, cols: nat, start: int) -> (int, int) {
    let (col, row) = cursor_walk(content.take(idx), cols);
    (col as int, row - start)
}

pub open spec fn min(a: int, b: int) -> int {
    if a <= b {
        a
    } else {
        b
    }
}

/// The cursor's column on its display line.
pub open spec fn column_of(lines: Seq<Seq<char>>, idx: int) -> int {
    idx - line_start(lines, line_of(lines, idx))
}

/// Moving up: the same column on the line above, at most its last character;
/// from the first line, the start of the text.
pub open spec fn up_target(lines: Seq<Seq<char>>, idx: int) -> int {
    let i = line_of(lines, idx);
    if i == 0 {
        0
    } else {
        line_start(lines, i - 1) + min(column_of(lines, idx), lines[i - 1].len() - 1)
    }
}

/// Moving down: the same column on the line below, at most its last character;
/// from the last line, the end of the text.
pub open spec fn down_target(lines: Seq<Seq<char>>, idx: int, len: int) -> int {
    let i = line_of(lines, idx);
    if i == lines.len() - 1 {
        len
    } else {
        line_start(lines, i + 1) + min(column_of(lines, idx), lines[i + 1].len() - 1)
    }
}

/// Every line start lies at or before the end of the lines.
pub proof fn lemma_line_start_bounded(lines: Seq<Seq<char>>)
    ensures
        forall|j: int|
            0 <= j <= lines.len() ==> 0 <= #[trigger] line_start(lines, j) <= line_start(
                lines,
                lines.len() as int,
            ),
{
    assert forall|j: int| 0 <= j <= lines.len() implies 0 <= #[trigger] line_start(lines, j)
        <= line_start(lines, lines.len() as int) by {
        crate::reflow::lemma_line_start_mono(lines, j, lines.len() as int);
        crate::reflow::lemma_line_start_mono(lines, 0, j);
    }
}

proof fn lemma_line_of_from(lines: Seq<Seq<char>>, idx: int, i: int)
    requires
        0 <= i < lines.len(),
        line_start(lines, i) <= idx < line_start(lines, lines.len() as int),
    ensures
        i <= line_of_from(lines, idx, i) < lines.len(),
        line_start(lines, line_of_from(lines, idx, i)) <= idx < line_start(
            lines,
            line_of_from(lines, idx, i) + 1,
        ),
    decreases lines.len() - i,
{
    if i < lines.len() - 1 && line_start(lines, i + 1) <= idx {
        lemma_line_of_from(lines, idx, i + 1);
    }
}

/// An offset before the end of the lines lies within the line that
/// `line_of` names.
pub proof fn lemma_line_of(lines: Seq<Seq<char>>, idx: int)
    requires
        lines.len() >= 1,
        0 <= idx < line_start(lines, lines.len() as int),
    ensures
        0 <= line_of(lines, idx) < lines.len(),
        line_start(lines, line_of(lines, idx)) <= idx < line_start(
            lines,
            line_of(lines, idx) + 1,
        ),
{
    lemma_line_of_from(lines, idx, 0);
}

proof fn lemma_line_of_from_range(lines: Seq<Seq<char>>, idx: int, i: int)
    requires
        0 <= i,
    ensures
        i <= line_of_from(lines, idx, i),
        lines.len() >= 1 && i < lines.len() ==> line_of_from(lines, idx, i) < lines.len(),
    decreases lines.len() - i,
{
    if i < lines.len() - 1 && line_start(lines, i + 1) <= idx {
        lemma_line_of_from_range(lines, idx, i + 1);
    }
}

/// The line of the cursor always lies inside the viewport
/// `[view_start_of, view_start_of + rows)`.
pub proof fn lemma_viewport_contains_cursor(lines: Seq<Seq<char>>, idx: int, rows: nat)
    requires
        rows >= 1,
        lines.len() >= 1,
    ensures
        0 <= view_start_of(lines, idx, rows) <= line_of(lines, idx) < view_start_of(
            lines,
            idx,
            rows,
        ) + rows,
        line_of(lines, idx) < lines.len(),
{
    lemma_line_of_from_range(lines, idx, 0);
}

proof fn lemma_walk_ahead(text: Seq<char>, cols: nat)
    requires
        cols >= 1,
    ensures
        ({
            let (col, row) = cursor_walk(text, cols);
            let (done, cur) = reflow_scan(text, cols);
            let rhs = done.len() + if cur.len() >= cols {
                1int
            } else {
                0
            };
            &&& row >= rhs
            &&& col == (if cur.len() >= cols {
                0
            } else {
                cur.len()
            })
        }),
    decreases text.len(),
{
    if text.len() > 0 {
        lemma_walk_ahead(text.drop_last(), cols);
        lemma_scan_shape(text.drop_last(), cols);
    }
}

proof fn lemma_scan_extend(c: Seq<char>, p: int, n: int, cols: nat)
    requires
        0 <= p <= n <= c.len(),
        cols >= 1,
    ensures
        ({
            let (dp, cp) = reflow_scan(c.take(p), cols);
            let (dn, cn) = reflow_scan(c.take(n), cols);
            &&& dn.len() >= dp.len()
            &&& forall|k: int| 0 <= k < dp.len() ==> dn[k] == dp[k]
            &&& dn.len() == dp.len() ==> cn.len() >= cp.len()
            &&& dn.len() > dp.len() ==> dn[dp.len() as int].len() >= cp.len()
            &&& dn.len() > dp.len() && cp.len() < cols ==> dn[dp.len() as int].len() > cp.len()
        }),
    decreases n - p,
{
    if n > p {
        lemma_scan_extend(c, p, n - 1, cols);
        assert(c.take(n).drop_last() =~= c.take(n - 1));
        let (dp, cp) = reflow_scan(c.take(p), cols);
        let (d0, c0) = reflow_scan(c.take(n - 1), cols);
        let (dn, cn) = reflow_scan(c.take(n), cols);
        assert forall|k: int| 0 <= k < dp.len() implies dn[k] == dp[k] by {
            assert(dn[k] == d0[k]);
        }
    }
}

proof fn lemma_line_of_from_le(lines: Seq<Seq<char>>, idx: int, i: int, j: int)
    requires
        0 <= i <= j < lines.len(),
        j == lines.len() - 1 || line_start(lines, j + 1) > idx,
    ensures
        line_of_from(lines, idx, i) <= j,
    decreases j - i,
{
    if i < lines.len() - 1 && line_start(lines, i + 1) <= idx {
        lemma_line_of_from_le(lines, idx, i + 1, j);
    }
}

/// Walking the text to the cursor never ends on a row above the display
/// line that holds the cursor, so the cursor's row counted from the
/// viewport's first line is never negative.
pub proof fn lemma_walk_reaches_cursor_line(c: Seq<char>, idx: int, cols: nat)
    requires
        0 <= idx <= c.len(),
        cols >= 1,
    ensures
        cursor_walk(c.take(idx), cols).1 >= line_of(reflow(c, cols), idx),
{
    let lines = reflow(c, cols);
    let (dp, cp) = reflow_scan(c.take(idx), cols);
    let (dc, cc) = reflow_scan(c, cols);
    let m = dp.len() as int;
    lemma_walk_ahead(c.take(idx), cols);
    lemma_scan_shape(c.take(idx), cols);
    assert(c.take(c.len() as int) =~= c);
    lemma_scan_extend(c, idx, c.len() as int, cols);
    lemma_reflow_round_trip(c, cols);
    assert(m < lines.len());
    assert(lines[m].len() >= cp.len());
    assert(cp.len() < cols ==> lines[m].len() > cp.len());
    lemma_line_start_prefix(lines, dp, m);
    lemma_line_start_total(dp);
    assert(line_start(lines, m) == idx - cp.len());
    assert(line_start(lines, m + 1) == line_start(lines, m) + lines[m].len());
    if cp.len() < cols {
        lemma_line_of_from_le(lines, idx, 0, m);
    } else if m + 1 < lines.len() {
        assert(lines[m + 1].len() >= 1);
        assert(line_start(lines, m + 2) == line_start(lines, m + 1) + lines[m + 1].len());
        lemma_line_of_from_le(lines, idx, 0, m + 1);
    } else {
        lemma_line_of_from_le(lines, idx, 0, lines.len() - 1);
    }
}

/// Finds the display line that holds `index` and where it starts.
pub fn find_line(lines: &Vec<Vec<char>>, index: usize) -> (r: (usize, usize))
    requires
        lines.len() >= 1,
        line_start(lines_view(lines@), lines.len() as int) <= usize::MAX,
    ensures
        r.0 == line_of(lines_view(lines@), index as int),
        r.1 == line_start(lines_view(lines@), r.0 as int),
        r.0 < lines.len(),
{
    let ghost lv = lines_view(lines@);
    proof {
        lemma_line_start_bounded(lv);
        lemma_line_of_from_range(lv, index as int, 0);
    }
    let mut i: usize = 0;
    let mut line_index: usize = 0;
    while i + 1 < lines.len() && line_index + lines[i].len() <= index
        invariant
            lv == lines_view(lines@),
            lines.len() >= 1,
            i < lines.len(),
            line_index == line_start(lv, i as int),
            line_of(lv, index as int) == line_of_from(lv, index as int, i as int),
            forall|j: int|
                0 <= j <= lv.len() ==> 0 <= #[trigger] line_start(lv, j) <= line_start(
                    lv,
                    lv.len() as int,
                ),
            line_start(lv, lines.len() as int) <= usize::MAX,
        decreases lines.len() - i,
    {
        assert(line_start(lv, i + 1) == line_index + lines@[i as int]@.len());
        line_index += lines[i].len();
        i += 1;
    }
    proof {
        if i + 1 < lines.len() {
            assert(line_start(lv, i + 1) == line_index + lines@[i as int]@.len());
        }
        lemma_line_of_from_range(lv, index as int, i as int);
    }
    (i, line_index)
}

/// The screen cell of the cursor at `index`, with `cols` columns and the
/// viewport starting at display line `start`.
pub fn cursor_cell(content: &Vec<char>, index: usize, cols: usize, start: usize) -> (r: (
    usize,
    usize,
))
    requires
        index <= content.len(),
        cols >= 1,
        start <= cursor_walk(content@.take(index as int), cols as nat).1,
    ensures
        r.0 == screen_cell(content@, index as int, cols as nat, start as int).0,
        r.1 == screen_cell(content@, index as int, cols as nat, start as int).1,
{
    let mut col: usize = 0;
    let mut row: usize = 0;
    let mut i: usize = 0;
    while i < index
        invariant
            i <= index <= content.len(),
            cols >= 1,
            (col as nat, row as nat) == cursor_walk(content@.take(i as int), cols as nat),
            col <= i,
            row <= i,
        decreases index - i,
    {
        proof {
            assert(content@.take(i + 1).drop_last() =~= content@.take(i as int));
        }
        if content[i] == '\n' || col >= cols - 1 {
            col = 0;
            row += 1;
        } else {
            col += 1;
        }
        i += 1;
    }
    (col, row - start)
}

} // verus!
