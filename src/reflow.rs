//! Hard-wrapping the text into display lines.

use vstd::prelude::*;

verus! {

/// One character of the reflow scan. `done` holds the finished display lines,
/// `cur` the line being built: a newline closes it with its marker, and a
/// character that does not fit on a full line starts a new one.
pub open spec fn reflow_step(done: Seq<Seq<char>>, cur: Seq<char>, ch: char, width: nat) -> (
    Seq<Seq<char>>,
    Seq<char>,
) {
    if ch == '\n' {
        (done.push(cur.push('\n')), Seq::empty())
    } else if cur.len() >= width {
        (done.push(cur), seq![ch])
    } else {
        (done, cur.push(ch))
    }
}

/// The scan of `content` from its first character to its last.
pub open spec fn reflow_scan(content: Seq<char>, width: nat) -> (Seq<Seq<char>>, Seq<char>)
    decreases content.len(),
{
    if content.len() == 0 {
        (Seq::empty(), Seq::empty())
    } else {
        let (done, cur) = reflow_scan(content.drop_last(), width);
        reflow_step(done, cur, content.last(), width)
    }
}

/// The display lines of `content` at `width` columns: each newline-delimited
/// line cut into chunks of `width` characters, its last chunk carrying a
/// newline marker. The text after the last newline is a line too, so the
/// empty text gives one line holding only the marker.
pub open spec fn reflow(content: Seq<char>, width: nat) -> Seq<Seq<char>> {
    let (done, cur) = reflow_scan(content, width);
    done.push(cur.push('\n'))
}

/// The lines joined end to end.
pub open spec fn concat_lines(lines: Seq<Seq<char>>) -> Seq<char>
    decreases lines.len(),
{
    if lines.len() == 0 {
        Seq::empty()
    } else {
        concat_lines(lines.drop_last()) + lines.last()
    }
}

/// The character offset at which line `i` starts: the lengths of the lines
/// before it, summed.
pub open spec fn line_start(lines: Seq<Seq<char>>, i: int) -> int
    decreases i,
{
    if i <= 0 {
        0
    } else {
        line_start(lines, i - 1) + lines[i - 1].len()
    }
}

/// The views of a vector of lines.
pub open spec fn lines_view(lines: Seq<Vec<char>>) -> Seq<Seq<char>> {
    lines.map_values(|l: Vec<char>| l@)
}

/// The shape of a partial scan: the finished lines and the current one
/// make up the text; the current line holds no newline and at most `width`
/// characters; every finished line holds one to `width + 1`.
pub proof fn lemma_scan_shape(content: Seq<char>, width: nat)
    requires
        width >= 1,
    ensures
        ({
            let (done, cur) = reflow_scan(content, width);
            &&& concat_lines(done) + cur == content
            &&& cur.len() <= width
            &&& !cur.contains('\n')
            &&& forall|k: int| 0 <= k < done.len() ==> 1 <= #[trigger] done[k].len() <= width + 1
        }),
    decreases content.len(),
{
    if content.len() > 0 {
        let prev = content.drop_last();
        lemma_scan_shape(prev, width);
        let (d0, c0) = reflow_scan(prev, width);
        let ch = content.last();
        let (d1, c1) = reflow_scan(content, width);
        assert(content =~= prev.push(ch));
        if ch == '\n' {
            assert(d1.drop_last() =~= d0);
            assert(concat_lines(d1) == concat_lines(d0) + d1.last());
            assert(concat_lines(d1) + c1 =~= content);
        } else if c0.len() >= width {
            assert(d1.drop_last() =~= d0);
            assert(concat_lines(d1) == concat_lines(d0) + d1.last());
            assert(concat_lines(d1) + c1 =~= content);
            assert(!c1.contains('\n')) by {
                if c1.contains('\n') {
                    let j = choose|j: int| 0 <= j < c1.len() && c1[j] == '\n';
                    assert(c1[j] == ch);
                }
            }
        } else {
            assert(concat_lines(d1) + c1 =~= content);
            assert(!c1.contains('\n')) by {
                if c1.contains('\n') {
                    let j = choose|j: int| 0 <= j < c1.len() && c1[j] == '\n';
                    if j < c0.len() {
                        assert(c0[j] == '\n');
                    }
                }
            }
        }
    }
}

/// Joining the display lines gives back the text followed by one newline
/// marker: the breaks that wrapping makes add nothing, and every newline of
/// the text ends exactly one line. Every line holds one character at least and
/// at most `width` characters besides its marker.
pub proof fn lemma_reflow_round_trip(content: Seq<char>, width: nat)
    requires
        width >= 1,
    ensures
        concat_lines(reflow(content, width)) == content.push('\n'),
        forall|k: int|
            0 <= k < reflow(content, width).len() ==> 1 <= #[trigger] reflow(
                content,
                width,
            )[k].len() <= width + 1,
{
    lemma_scan_shape(content, width);
    let (done, cur) = reflow_scan(content, width);
    let lines = reflow(content, width);
    assert(lines.drop_last() =~= done);
    assert(concat_lines(lines) =~= content.push('\n'));
    assert forall|k: int| 0 <= k < lines.len() implies 1 <= #[trigger] lines[k].len() <= width + 1 by {
        if k < done.len() {
            assert(lines[k] == done[k]);
        }
    }
}

/// The length of the joined lines is where the line after the last would start.
pub proof fn lemma_line_start_total(lines: Seq<Seq<char>>)
    ensures
        line_start(lines, lines.len() as int) == concat_lines(lines).len(),
    decreases lines.len(),
{
    if lines.len() > 0 {
        let prev = lines.drop_last();
        lemma_line_start_total(prev);
        lemma_line_start_prefix(lines, prev, prev.len() as int);
    }
}

/// Line starts depend only on the lines before.
pub proof fn lemma_line_start_prefix(a: Seq<Seq<char>>, b: Seq<Seq<char>>, i: int)
    requires
        0 <= i <= a.len(),
        i <= b.len(),
        forall|k: int| 0 <= k < i ==> a[k] == b[k],
    ensures
        line_start(a, i) == line_start(b, i),
    decreases i,
{
    if i > 0 {
        lemma_line_start_prefix(a, b, i - 1);
    }
}

/// Line starts do not decrease.
pub proof fn lemma_line_start_mono(lines: Seq<Seq<char>>, i: int, j: int)
    requires
        0 <= i <= j <= lines.len(),
    ensures
        line_start(lines, i) <= line_start(lines, j),
    decreases j - i,
{
    if i < j {
        lemma_line_start_mono(lines, i, j - 1);
    }
}

/// Cuts `content` into its display lines at `cols` columns.
pub fn make_lines(content: &Vec<char>, cols: usize) -> (lines: Vec<Vec<char>>)
    requires
        cols >= 1,
    ensures
        lines_view(lines@) == reflow(content@, cols as nat),
{
    let mut lines: Vec<Vec<char>> = Vec::new();
    let mut cur: Vec<char> = Vec::new();
    let mut i: usize = 0;
    while i < content.len()
        invariant
            i <= content.len(),
            reflow_scan(content@.take(i as int), cols as nat) == (lines_view(lines@), cur@),
        decreases content.len() - i,
    {
        let ch = content[i];
        proof {
            assert(content@.take(i + 1).drop_last() =~= content@.take(i as int));
        }
        let ghost old_lines = lines@;
        if ch == '\n' {
            cur.push('\n');
            lines.push(cur);
            cur = Vec::new();
        } else if cur.len() >= cols {
            lines.push(cur);
            cur = Vec::new();
            cur.push(ch);
        } else {
            cur.push(ch);
        }
        proof {
            assert(lines_view(lines@) =~= reflow_scan(content@.take(i + 1), cols as nat).0);
            assert(cur@ =~= reflow_scan(content@.take(i + 1), cols as nat).1);
        }
        i += 1;
    }
    proof {
        assert(content@.take(i as int) =~= content@);
    }
    cur.push('\n');
    lines.push(cur);
    proof {
        assert(lines_view(lines@) =~= reflow(content@, cols as nat));
    }
    lines
}

} // verus!
