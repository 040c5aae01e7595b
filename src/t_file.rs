//! The document: its text, its cursor, the display lines and the viewport
//! derived from them, and the undo history.

use vstd::prelude::*;
use crate::reflow::{
    line_start, lines_view, make_lines, reflow, lemma_line_start_total,
    lemma_reflow_round_trip,
};
use crate::screen::{
    cursor_cell, down_target, find_line, line_of, min, screen_cell, up_target, view_start_of,
    lemma_line_of, lemma_viewport_contains_cursor,
};
use crate::t_event::{
    DeleteEvent, Direction, EventModel, InsertEvent, MoveEvent, Request, TEvent, after_undo,
    backward, forward, push_bounded, recorded, request_event,
};
use vstd::string::StrSliceExecFns;

verus! {

/// How many events the undo history keeps.
pub const HISTORY_CAPACITY: usize = 10;

/// The text after inserting `t` at offset `i`, and the cursor after it.
pub open spec fn after_insert(c: Seq<char>, i: int, t: Seq<char>) -> (Seq<char>, int) {
    (c.take(i) + t + c.skip(i), i + t.len())
}

/// Of `n` deletions at offset `i`, how many remove the character before the
/// cursor.
pub open spec fn back_count(i: int, n: int) -> int {
    min(n, i)
}

/// Of `n` deletions at offset `i` in a text of length `len`, how many remove
/// the character at the cursor, once the cursor has reached the start.
pub open spec fn fwd_count(len: int, i: int, n: int) -> int {
    min(n - back_count(i, n), len - i)
}

/// The text after `n` deletions at offset `i`.
pub open spec fn deleted_content(c: Seq<char>, i: int, n: int) -> Seq<char> {
    c.take(i - back_count(i, n)) + c.skip(i + fwd_count(c.len() as int, i, n))
}

/// The characters that `n` deletions at offset `i` remove, in the order of
/// removal: those before the cursor from the nearest on, then those after it.
pub open spec fn deleted_text(c: Seq<char>, i: int, n: int) -> Seq<char> {
    c.subrange(i - back_count(i, n), i).reverse() + c.subrange(
        i,
        i + fwd_count(c.len() as int, i, n),
    )
}

/// The text and the cursor after `n` deletions at offset `i`.
pub open spec fn after_delete(c: Seq<char>, i: int, n: int) -> (Seq<char>, int) {
    (deleted_content(c, i, n), i - back_count(i, n))
}

/// `i` held to the range `[0, len]`.
pub open spec fn clamp_to(i: int, len: int) -> int {
    if i < 0 {
        0
    } else if i > len {
        len
    } else {
        i
    }
}

/// The cursor after one move in direction `d`, at `cols` columns.
pub open spec fn after_move(c: Seq<char>, i: int, d: Direction, cols: nat) -> int {
    match d {
        Direction::Up => up_target(reflow(c, cols), i),
        Direction::Down => down_target(reflow(c, cols), i, c.len() as int),
        Direction::Left => if i >= 1 {
            i - 1
        } else {
            i
        },
        Direction::Right => if i + 1 <= c.len() {
            i + 1
        } else {
            i
        },
    }
}

/// The display lines' shape: at least one line, none empty, and together one
/// character longer than the text.
pub proof fn lemma_layout(content: Seq<char>, cols: nat)
    requires
        cols >= 1,
    ensures
        reflow(content, cols).len() >= 1,
        line_start(reflow(content, cols), reflow(content, cols).len() as int) == content.len()
            + 1,
        forall|k: int|
            0 <= k < reflow(content, cols).len() ==> #[trigger] reflow(content, cols)[k].len()
                >= 1,
{
    lemma_reflow_round_trip(content, cols);
    lemma_line_start_total(reflow(content, cols));
}

/// The cursor after the moves `ds`, in order.
pub open spec fn after_moves(c: Seq<char>, i: int, ds: Seq<Direction>, cols: nat) -> int
    decreases ds.len(),
{
    if ds.len() == 0 {
        i
    } else {
        after_move(c, after_moves(c, i, ds.drop_last(), cols), ds.last(), cols)
    }
}

/// One move keeps the cursor within the text.
pub proof fn lemma_move_in_bounds(c: Seq<char>, i: int, d: Direction, cols: nat)
    requires
        0 <= i <= c.len(),
        cols >= 1,
    ensures
        0 <= after_move(c, i, d, cols) <= c.len(),
{
    let lv = reflow(c, cols);
    lemma_layout(c, cols);
    lemma_line_of(lv, i);
    let li = line_of(lv, i);
    match d {
        Direction::Up => {
            if li > 0 {
                assert(lv[li - 1].len() >= 1);
                crate::reflow::lemma_line_start_mono(lv, 0, li - 1);
            }
        },
        Direction::Down => {
            if li < lv.len() - 1 {
                assert(lv[li + 1].len() >= 1);
                crate::reflow::lemma_line_start_mono(lv, li + 2, lv.len() as int);
            }
        },
        _ => {},
    }
}

/// Whatever moves are made, the cursor stays within `[0, len(content)]`.
pub proof fn lemma_moves_in_bounds(c: Seq<char>, i: int, ds: Seq<Direction>, cols: nat)
    requires
        0 <= i <= c.len(),
        cols >= 1,
    ensures
        0 <= after_moves(c, i, ds, cols) <= c.len(),
    decreases ds.len(),
{
    if ds.len() > 0 {
        lemma_moves_in_bounds(c, i, ds.drop_last(), cols);
        lemma_move_in_bounds(c, after_moves(c, i, ds.drop_last(), cols), ds.last(), cols);
    }
}

/// The editor's document.
pub struct TFile {
    /// The text, one entry per character.
    pub content: Vec<char>,
    /// The cursor: an offset into `content`, counted in characters.
    pub index: usize,
    /// The first display line that the viewport shows.
    pub view_start: usize,
    /// One past the last display line that the viewport shows.
    pub view_end: usize,
    /// The display lines of `content` at `cols` columns.
    pub lines: Vec<Vec<char>>,
    /// The undo history, oldest first.
    pub event_buffer: Vec<TEvent>,
    /// The terminal's width in cells.
    pub cols: usize,
    /// The terminal's height in cells.
    pub rows: usize,
}

impl TFile {
    /// The display lines as sequences.
    pub open spec fn lines_seq(&self) -> Seq<Seq<char>> {
        lines_view(self.lines@)
    }

    /// The undo history as mathematical values.
    pub open spec fn history(&self) -> Seq<EventModel> {
        self.event_buffer@.map_values(|e: TEvent| e@)
    }

    /// The lines and the viewport agree with the text and the cursor.
    pub open spec fn layout_ok(&self) -> bool {
        &&& self.cols >= 1
        &&& self.rows >= 1
        &&& self.index <= self.content.len()
        &&& self.content.len() < usize::MAX
        &&& self.lines_seq() == reflow(self.content@, self.cols as nat)
        &&& self.view_start == view_start_of(
            self.lines_seq(),
            self.index as int,
            self.rows as nat,
        )
        &&& self.view_end == self.view_start + self.rows
    }

    pub open spec fn wf(&self) -> bool {
        &&& self.layout_ok()
        &&& self.event_buffer.len() <= HISTORY_CAPACITY
    }

    /// The display line of the cursor is always inside the viewport.
    pub proof fn lemma_cursor_visible(&self)
        requires
            self.wf(),
        ensures
            self.view_start <= line_of(self.lines_seq(), self.index as int) < self.view_end,
            line_of(self.lines_seq(), self.index as int) < self.lines.len(),
    {
        lemma_layout(self.content@, self.cols as nat);
        lemma_viewport_contains_cursor(self.lines_seq(), self.index as int, self.rows as nat);
    }

    /// Opens a document on `text`, with the cursor at the start and an empty
    /// history, laid out for a terminal of `cols` by `rows` cells.
    pub fn build(text: &str, cols: usize, rows: usize) -> (r: TFile)
        requires
            cols >= 1,
            rows >= 1,
            text@.len() < usize::MAX,
        ensures
            r.wf(),
            r.content@ == text@,
            r.index == 0,
            r.cols == cols,
            r.rows == rows,
            r.history().len() == 0,
    {
        let content = chars_of(text);
        let mut t_file = TFile {
            content,
            index: 0,
            view_start: 0,
            view_end: rows,
            lines: Vec::new(),
            event_buffer: Vec::new(),
            cols,
            rows,
        };
        t_file.make_lines();
        t_file.make_view();
        t_file
    }

    /// Lays the document out anew for a terminal of `cols` by `rows` cells.
    pub fn set_size(&mut self, cols: usize, rows: usize)
        requires
            old(self).wf(),
            cols >= 1,
            rows >= 1,
        ensures
            final(self).wf(),
            final(self).content@ == old(self).content@,
            final(self).index == old(self).index,
            final(self).event_buffer@ == old(self).event_buffer@,
            final(self).cols == cols,
            final(self).rows == rows,
    {
        self.cols = cols;
        self.rows = rows;
        self.make_lines();
        self.make_view();
    }

    /// Recomputes the display lines from the text.
    fn make_lines(&mut self)
        requires
            old(self).cols >= 1,
        ensures
            final(self).lines_seq() == reflow(old(self).content@, old(self).cols as nat),
            final(self).content == old(self).content,
            final(self).index == old(self).index,
            final(self).view_start == old(self).view_start,
            final(self).view_end == old(self).view_end,
            final(self).event_buffer == old(self).event_buffer,
            final(self).cols == old(self).cols,
            final(self).rows == old(self).rows,
    {
        self.lines = make_lines(&self.content, self.cols);
    }

    /// Recomputes the viewport so that it shows the cursor's line.
    fn make_view(&mut self)
        requires
            old(self).cols >= 1,
            old(self).rows >= 1,
            old(self).index <= old(self).content.len(),
            old(self).content.len() < usize::MAX,
            old(self).lines_seq() == reflow(old(self).content@, old(self).cols as nat),
        ensures
            final(self).layout_ok(),
            final(self).content == old(self).content,
            final(self).index == old(self).index,
            final(self).lines == old(self).lines,
            final(self).event_buffer == old(self).event_buffer,
            final(self).cols == old(self).cols,
            final(self).rows == old(self).rows,
    {
        proof {
            lemma_layout(self.content@, self.cols as nat);
        }
        let (i, _) = find_line(&self.lines, self.index);
        if i > self.rows - 1 {
            self.view_start = i - self.rows + 1;
            self.view_end = i + 1;
        } else {
            self.view_start = 0;
            self.view_end = self.rows;
        }
    }

    /// Inserts `text` at the cursor and moves the cursor past it.
    pub fn insert(&mut self, text: &str)
        requires
            old(self).wf(),
            old(self).content.len() + text@.len() < usize::MAX,
        ensures
            final(self).wf(),
            (final(self).content@, final(self).index as int) == after_insert(
                old(self).content@,
                old(self).index as int,
                text@,
            ),
            final(self).event_buffer@ == old(self).event_buffer@,
            final(self).cols == old(self).cols,
            final(self).rows == old(self).rows,
    {
        let chars = chars_of(text);
        let ghost c0 = self.content@;
        let ghost i0 = self.index as int;
        let mut k: usize = 0;
        while k < chars.len()
            invariant
                k <= chars.len(),
                chars@ == text@,
                0 <= i0 <= c0.len(),
                c0.len() + chars.len() < usize::MAX,
                self.content@ == c0.take(i0) + chars@.take(k as int) + c0.skip(i0),
                self.index == i0 + k,
                self.cols == old(self).cols,
                self.rows == old(self).rows,
                self.event_buffer == old(self).event_buffer,
            decreases chars.len() - k,
        {
            self.content.insert(self.index, chars[k]);
            proof {
                assert(self.content@ =~= c0.take(i0) + chars@.take(k + 1) + c0.skip(i0));
            }
            self.index += 1;
            k += 1;
        }
        proof {
            assert(chars@.take(k as int) =~= text@);
        }
        self.make_lines();
        self.make_view();
    }

    /// Deletes `units` characters, as backspace does: each removes the
    /// character before the cursor, or the one at the cursor once the cursor is
    /// at the start, and none once the text is empty. Returns the removed
    /// characters in the order of removal.
    pub fn delete(&mut self, units: usize) -> (removed: String)
        requires
            old(self).wf(),
        ensures
            final(self).wf(),
            (final(self).content@, final(self).index as int) == after_delete(
                old(self).content@,
                old(self).index as int,
                units as int,
            ),
            removed@ == deleted_text(old(self).content@, old(self).index as int, units as int),
            final(self).event_buffer@ == old(self).event_buffer@,
            final(self).cols == old(self).cols,
            final(self).rows == old(self).rows,
    {
        let ghost c0 = self.content@;
        let ghost i0 = self.index as int;
        let mut taken: Vec<char> = Vec::new();
        let mut k: usize = 0;
        proof {
            assert(c0.take(i0) + c0.skip(i0) =~= c0);
            assert(c0.subrange(i0, i0).reverse() + c0.subrange(i0, i0) =~= taken@);
        }
        while k < units
            invariant
                k <= units,
                0 <= i0 <= c0.len(),
                c0.len() < usize::MAX,
                self.content@ == deleted_content(c0, i0, k as int),
                self.index == i0 - back_count(i0, k as int),
                taken@ == deleted_text(c0, i0, k as int),
                self.cols == old(self).cols,
                self.rows == old(self).rows,
                self.event_buffer == old(self).event_buffer,
            decreases units - k,
        {
            proof {
                lemma_delete_step(c0, i0, k as int);
            }
            if self.content.len() > 0 {
                if self.index > 0 {
                    let ch = self.content.remove(self.index - 1);
                    taken.push(ch);
                    self.index -= 1;
                } else {
                    let ch = self.content.remove(0);
                    taken.push(ch);
                }
            }
            k += 1;
        }
        self.make_lines();
        self.make_view();
        string_of(&taken)
    }

    /// Moves the cursor to the same column of the display line above, or to
    /// that line's last character if it is shorter; from the first line, to
    /// the start of the text.
    pub fn move_up(&mut self)
        requires
            old(self).wf(),
        ensures
            final(self).wf(),
            final(self).content@ == old(self).content@,
            final(self).index == up_target(old(self).lines_seq(), old(self).index as int),
            final(self).event_buffer@ == old(self).event_buffer@,
            final(self).cols == old(self).cols,
            final(self).rows == old(self).rows,
    {
        let ghost lv = self.lines_seq();
        proof {
            lemma_layout(self.content@, self.cols as nat);
            lemma_line_of(lv, self.index as int);
        }
        let (i, start) = find_line(&self.lines, self.index);
        if i == 0 {
            self.index = 0;
        } else {
            let col = self.index - start;
            let prev_len = self.lines[i - 1].len();
            proof {
                assert(lv[i - 1].len() >= 1);
                crate::reflow::lemma_line_start_mono(lv, 0, i - 1);
            }
            let prev_start = start - prev_len;
            if col < prev_len - 1 {
                self.index = prev_start + col;
            } else {
                self.index = prev_start + (prev_len - 1);
            }
        }
        self.make_view();
    }

    /// Moves the cursor to the same column of the display line below, or to
    /// that line's last character if it is shorter; from the last line, to
    /// the end of the text.
    pub fn move_down(&mut self)
        requires
            old(self).wf(),
        ensures
            final(self).wf(),
            final(self).content@ == old(self).content@,
            final(self).index == down_target(
                old(self).lines_seq(),
                old(self).index as int,
                old(self).content.len() as int,
            ),
            final(self).event_buffer@ == old(self).event_buffer@,
            final(self).cols == old(self).cols,
            final(self).rows == old(self).rows,
    {
        let ghost lv = self.lines_seq();
        proof {
            lemma_layout(self.content@, self.cols as nat);
            lemma_line_of(lv, self.index as int);
        }
        let (i, start) = find_line(&self.lines, self.index);
        if i == self.lines.len() - 1 {
            self.index = self.content.len();
        } else {
            let col = self.index - start;
            let cur_len = self.lines[i].len();
            let next_len = self.lines[i + 1].len();
            proof {
                assert(lv[i + 1].len() >= 1);
                crate::reflow::lemma_line_start_mono(lv, i + 2, lv.len() as int);
            }
            let next_start = start + cur_len;
            if col < next_len - 1 {
                self.index = next_start + col;
            } else {
                self.index = next_start + (next_len - 1);
            }
        }
        self.make_view();
    }

    /// Moves the cursor `units` characters back, unless that would pass the
    /// start of the text.
    pub fn move_left(&mut self, units: usize)
        requires
            old(self).wf(),
        ensures
            final(self).wf(),
            final(self).content@ == old(self).content@,
            final(self).index == if units <= old(self).index {
                old(self).index - units
            } else {
                old(self).index as int
            },
            final(self).event_buffer@ == old(self).event_buffer@,
            final(self).cols == old(self).cols,
            final(self).rows == old(self).rows,
    {
        if units <= self.index {
            self.index -= units;
            self.make_view();
        }
    }

    /// Moves the cursor `units` characters forward, unless that would pass the
    /// end of the text.
    pub fn move_right(&mut self, units: usize)
        requires
            old(self).wf(),
        ensures
            final(self).wf(),
            final(self).content@ == old(self).content@,
            final(self).index == if old(self).index + units <= old(self).content.len() {
                old(self).index + units
            } else {
                old(self).index as int
            },
            final(self).event_buffer@ == old(self).event_buffer@,
            final(self).cols == old(self).cols,
            final(self).rows == old(self).rows,
    {
        if units <= self.content.len() - self.index {
            self.index += units;
            self.make_view();
        }
    }

    /// Puts the cursor at `index`, held to the end of the text.
    pub fn move_to(&mut self, index: usize)
        requires
            old(self).wf(),
        ensures
            final(self).wf(),
            final(self).content@ == old(self).content@,
            final(self).index == clamp_to(index as int, old(self).content.len() as int),
            final(self).event_buffer@ == old(self).event_buffer@,
            final(self).cols == old(self).cols,
            final(self).rows == old(self).rows,
    {
        if index > self.content.len() {
            self.index = self.content.len();
        } else {
            self.index = index;
        }
        self.make_view();
    }

    /// The screen cell of the cursor: its column, and its row counted from the
    /// top of the viewport.
    pub fn cursor_position(&self) -> (r: (usize, usize))
        requires
            self.wf(),
        ensures
            r.0 == screen_cell(
                self.content@,
                self.index as int,
                self.cols as nat,
                self.view_start as int,
            ).0,
            r.1 == screen_cell(
                self.content@,
                self.index as int,
                self.cols as nat,
                self.view_start as int,
            ).1,
    {
        proof {
            self.lemma_cursor_visible();
            crate::screen::lemma_walk_reaches_cursor_line(
                self.content@,
                self.index as int,
                self.cols as nat,
            );
        }
        cursor_cell(&self.content, self.index, self.cols, self.view_start)
    }

    /// Runs `event` and records it in the history, dropping the oldest
    /// event once the history holds more than its capacity.
    pub fn add_event(&mut self, event: TEvent)
        requires
            old(self).wf(),
            event is Insert ==> old(self).content.len() + event->Insert_0.0@.len() < usize::MAX,
        ensures
            final(self).wf(),
            (final(self).content@, final(self).index as int) == forward(
                old(self).content@,
                old(self).index as int,
                event@,
                old(self).cols as nat,
            ),
            final(self).history() == push_bounded(
                old(self).history(),
                recorded(old(self).content@, old(self).index as int, event@),
            ),
            final(self).cols == old(self).cols,
            final(self).rows == old(self).rows,
    {
        let ghost c0 = self.content@;
        let ghost i0 = self.index as int;
        let ghost h0 = self.history();
        let done = match event {
            TEvent::Insert(mut e) => {
                e.invoke(self);
                TEvent::Insert(e)
            },
            TEvent::Delete(mut e) => {
                e.invoke(self);
                TEvent::Delete(e)
            },
            TEvent::Move(mut e) => {
                e.invoke(self);
                TEvent::Move(e)
            },
        };
        assert(done@ == recorded(c0, i0, event@));
        self.event_buffer.push(done);
        assert(self.history() =~= h0.push(done@));
        if self.event_buffer.len() > HISTORY_CAPACITY {
            self.event_buffer.remove(0);
            assert(self.history() =~= h0.push(done@).drop_first());
        }
    }

    /// Takes the newest event out of the history and runs its reverse
    /// action; with an empty history, does nothing.
    pub fn undo(&mut self)
        requires
            old(self).wf(),
            old(self).history().len() > 0 ==> undo_fits(
                old(self).content.len() as int,
                old(self).history().last(),
            ),
        ensures
            final(self).wf(),
            old(self).history().len() == 0 ==> *final(self) == *old(self),
            (final(self).content@, final(self).index as int) == if old(self).history().len()
                == 0 {
                (old(self).content@, old(self).index as int)
            } else {
                backward(
                    old(self).content@,
                    old(self).index as int,
                    old(self).history().last(),
                )
            },
            final(self).history() == after_undo(old(self).history()),
            final(self).cols == old(self).cols,
            final(self).rows == old(self).rows,
    {
        let ghost h0 = self.history();
        if self.event_buffer.len() > 0 {
            let last = self.event_buffer.pop();
            assert(self.history() =~= h0.drop_last());
            match last {
                Some(TEvent::Insert(e)) => e.reverse(self),
                Some(TEvent::Delete(e)) => e.reverse(self),
                Some(TEvent::Move(e)) => e.reverse(self),
                None => {},
            }
        }
    }

    /// Whether `request` is carried out: an insertion must leave the text's
    /// length below `usize::MAX`, and an undo needs an event in the history
    /// whose reverse action fits likewise.
    pub open spec fn request_fits(&self, request: Request) -> bool {
        match request {
            Request::Undo => self.history().len() > 0 && undo_fits(
                self.content.len() as int,
                self.history().last(),
            ),
            _ => match request_event(request) {
                Some(EventModel::Insert(t)) => self.content.len() + t.len() < usize::MAX,
                _ => true,
            },
        }
    }

    /// Carries out one request of the editing loop: an edit or a move runs
    /// as an event and enters the history, `Undo` undoes, and `Exit` changes
    /// nothing and returns `false`. A request whose result would not fit in
    /// memory is rejected whole, leaving the document as it was.
    pub fn apply_request(&mut self, request: Request) -> (go_on: bool)
        requires
            old(self).wf(),
        ensures
            final(self).wf(),
            go_on == !(request is Exit),
            final(self).cols == old(self).cols,
            final(self).rows == old(self).rows,
            request is Exit ==> *final(self) == *old(self),
            !old(self).request_fits(request) ==> *final(self) == *old(self),
            old(self).request_fits(request) && request_event(request) is Some ==> {
                &&& (final(self).content@, final(self).index as int) == forward(
                    old(self).content@,
                    old(self).index as int,
                    request_event(request)->Some_0,
                    old(self).cols as nat,
                )
                &&& final(self).history() == push_bounded(
                    old(self).history(),
                    recorded(
                        old(self).content@,
                        old(self).index as int,
                        request_event(request)->Some_0,
                    ),
                )
            },
            old(self).request_fits(request) && request is Undo ==> {
                &&& (final(self).content@, final(self).index as int) == backward(
                    old(self).content@,
                    old(self).index as int,
                    old(self).history().last(),
                )
                &&& final(self).history() == after_undo(old(self).history())
            },
    {
        let event = match request {
            Request::Exit => {
                return false;
            },
            Request::Undo => {
                let n = self.event_buffer.len();
                if n == 0 {
                    return true;
                }
                proof {
                    assert(self.history().last() == self.event_buffer@[n - 1]@);
                }
                let fits = match &self.event_buffer[n - 1] {
                    TEvent::Delete(e) => {
                        let k = e.1.as_str().unicode_len();
                        k < usize::MAX - self.content.len()
                    },
                    _ => true,
                };
                if fits {
                    self.undo();
                }
                return true;
            },
            Request::InsertChar(t) => TEvent::Insert(InsertEvent(t)),
            Request::InsertNewline => {
                let t = String::from_str("\n");
                proof {
                    reveal_strlit("\n");
                    assert(t@ =~= seq!['\n']);
                }
                TEvent::Insert(InsertEvent(t))
            },
            Request::InsertTab => {
                let t = String::from_str("    ");
                proof {
                    reveal_strlit("    ");
                    assert(t@ =~= seq![' ', ' ', ' ', ' ']);
                }
                TEvent::Insert(InsertEvent(t))
            },
            Request::DeleteBackward => TEvent::Delete(DeleteEvent(1, String::new())),
            Request::MoveCursor(d) => TEvent::Move(MoveEvent(d, 0)),
        };
        if let TEvent::Insert(e) = &event {
            let k = e.0.as_str().unicode_len();
            if k >= usize::MAX - self.content.len() {
                return true;
            }
        }
        self.add_event(event);
        true
    }

    /// The text as a string.
    pub fn text(&self) -> (r: String)
        ensures
            r@ == self.content@,
    {
        string_of(&self.content)
    }
}

/// Whether the reverse action of `e` fits the text's length.
pub open spec fn undo_fits(len: int, e: EventModel) -> bool {
    e is Delete ==> len + e->Delete_1.len() < usize::MAX
}

proof fn lemma_delete_step(c: Seq<char>, i: int, k: int)
    requires
        0 <= i <= c.len(),
        0 <= k,
    ensures
        ({
            let c1 = deleted_content(c, i, k);
            let i1 = i - back_count(i, k);
            let r1 = deleted_text(c, i, k);
            if c1.len() == 0 {
                &&& deleted_content(c, i, k + 1) == c1
                &&& back_count(i, k + 1) == back_count(i, k)
                &&& deleted_text(c, i, k + 1) == r1
            } else if i1 > 0 {
                &&& deleted_content(c, i, k + 1) == c1.remove(i1 - 1)
                &&& i - back_count(i, k + 1) == i1 - 1
                &&& deleted_text(c, i, k + 1) == r1.push(c1[i1 - 1])
            } else {
                &&& deleted_content(c, i, k + 1) == c1.remove(0)
                &&& back_count(i, k + 1) == back_count(i, k)
                &&& deleted_text(c, i, k + 1) == r1.push(c1[0])
            }
        }),
{
    let len = c.len() as int;
    let b = back_count(i, k);
    let f = fwd_count(len, i, k);
    let c1 = deleted_content(c, i, k);
    let r1 = deleted_text(c, i, k);
    assert(c1.len() == (i - b) + (len - (i + f)));
    if c1.len() == 0 {
        assert(deleted_content(c, i, k + 1) =~= c1);
        assert(deleted_text(c, i, k + 1) =~= r1);
    } else if i - b > 0 {
        assert(b == k && f == 0);
        assert(deleted_content(c, i, k + 1) =~= c1.remove(i - b - 1));
        assert(c.subrange(i - k - 1, i).reverse() =~= c.subrange(i - k, i).reverse().push(
            c[i - k - 1],
        ));
        assert(deleted_text(c, i, k + 1) =~= r1.push(c1[i - b - 1]));
    } else {
        assert(b == i && f == k - i);
        assert(c1[0] == c[k]);
        assert(deleted_content(c, i, k + 1) =~= c1.remove(0));
        assert(deleted_text(c, i, k + 1) =~= r1.push(c1[0]));
    }
}

/// Relies on `str::chars`, collected into a `Vec`: the characters of the
/// string, in order.
#[verifier::external_body]
fn chars_of(s: &str) -> (r: Vec<char>)
    ensures
        r@ == s@,
{
    s.chars().collect()
}

/// Relies on `String`'s `FromIterator<&char>`: the string of the characters,
/// in order.
#[verifier::external_body]
fn string_of(v: &Vec<char>) -> (r: String)
    ensures
        r@ == v@,
{
    v.iter().collect()
}

} // verus!
