//! Edit events: each one applies itself to a document and can reverse itself.

use vstd::prelude::*;
use vstd::string::StrSliceExecFns;
use crate::t_file::{
    TFile, HISTORY_CAPACITY, after_delete, after_insert, after_move, back_count, clamp_to,
    deleted_content, deleted_text, fwd_count,
};

verus! {

/// A direction of cursor movement.
#[derive(Clone, Copy, Debug, PartialEq, Eq, Structural)]
pub enum Direction {
    Up,
    Down,
    Left,
    Right,
}

/// Typing: the text to insert at the cursor.
pub struct InsertEvent(pub String);

/// Deleting: the number of characters to delete, and the text that was
/// removed, filled in when the event runs.
pub struct DeleteEvent(pub usize, pub String);

/// Moving: the direction, and the cursor offset before the move, filled in
/// when the event runs.
pub struct MoveEvent(pub Direction, pub usize);

/// One edit event of the undo history.
pub enum TEvent {
    Insert(InsertEvent),
    Delete(DeleteEvent),
    Move(MoveEvent),
}

/// One decoded request of the editing loop.
pub enum Request {
    /// Type this text.
    InsertChar(String),
    /// Break the line.
    InsertNewline,
    /// Indent: four spaces.
    InsertTab,
    /// Delete one character, as backspace does.
    DeleteBackward,
    MoveCursor(Direction),
    Undo,
    /// Leave the editor.
    Exit,
}

/// The event that a request records, if it is an edit or a move.
pub open spec fn request_event(r: Request) -> Option<EventModel> {
    match r {
        Request::InsertChar(t) => Some(EventModel::Insert(t@)),
        Request::InsertNewline => Some(EventModel::Insert(seq!['\n'])),
        Request::InsertTab => Some(EventModel::Insert(seq![' ', ' ', ' ', ' '])),
        Request::DeleteBackward => Some(EventModel::Delete(1, Seq::empty())),
        Request::MoveCursor(d) => Some(EventModel::Move(d, 0)),
        Request::Undo => None,
        Request::Exit => None,
    }
}

/// What an event holds, as mathematical values.
pub enum EventModel {
    Insert(Seq<char>),
    Delete(nat, Seq<char>),
    Move(Direction, nat),
}

impl View for TEvent {
    type V = EventModel;

    open spec fn view(&self) -> EventModel {
        match self {
            TEvent::Insert(e) => EventModel::Insert(e.0@),
            TEvent::Delete(e) => EventModel::Delete(e.0 as nat, e.1@),
            TEvent::Move(e) => EventModel::Move(e.0, e.1 as nat),
        }
    }
}

/// The text and the cursor after the event's forward action.
pub open spec fn forward(c: Seq<char>, i: int, e: EventModel, cols: nat) -> (Seq<char>, int) {
    match e {
        EventModel::Insert(t) => after_insert(c, i, t),
        EventModel::Delete(n, _) => after_delete(c, i, n as int),
        EventModel::Move(d, _) => (c, after_move(c, i, d, cols)),
    }
}

/// The event as the history keeps it once it has run on text `c` with the
/// cursor at `i`: a deletion holds the removed text, a move the prior cursor.
pub open spec fn recorded(c: Seq<char>, i: int, e: EventModel) -> EventModel {
    match e {
        EventModel::Insert(t) => EventModel::Insert(t),
        EventModel::Delete(n, _) => EventModel::Delete(n, deleted_text(c, i, n as int)),
        EventModel::Move(d, _) => EventModel::Move(d, i as nat),
    }
}

/// The text and the cursor after the reverse action of a recorded event:
/// an insertion deletes as many characters as it inserted, a deletion inserts
/// the removed text again, and a move puts the cursor back.
pub open spec fn backward(c: Seq<char>, i: int, e: EventModel) -> (Seq<char>, int) {
    match e {
        EventModel::Insert(t) => after_delete(c, i, t.len() as int),
        EventModel::Delete(_, r) => after_insert(c, i, r),
        EventModel::Move(_, p) => (c, clamp_to(p as int, c.len() as int)),
    }
}

/// The history after recording `e`: the oldest event leaves once the
/// capacity is passed.
pub open spec fn push_bounded(h: Seq<EventModel>, e: EventModel) -> Seq<EventModel> {
    if h.len() + 1 > HISTORY_CAPACITY {
        h.push(e).drop_first()
    } else {
        h.push(e)
    }
}

/// The history after recording each of `es` in turn.
pub open spec fn push_all(h: Seq<EventModel>, es: Seq<EventModel>) -> Seq<EventModel>
    decreases es.len(),
{
    if es.len() == 0 {
        h
    } else {
        push_bounded(push_all(h, es.drop_last()), es.last())
    }
}

/// The history after one undo: the newest event leaves; an empty history
/// stays empty.
pub open spec fn after_undo(h: Seq<EventModel>) -> Seq<EventModel> {
    if h.len() == 0 {
        h
    } else {
        h.drop_last()
    }
}

/// The history after `k` undos.
pub open spec fn after_undos(h: Seq<EventModel>, k: nat) -> Seq<EventModel>
    decreases k,
{
    if k == 0 {
        h
    } else {
        after_undo(after_undos(h, (k - 1) as nat))
    }
}

/// Whether undoing a deletion of `n` characters at offset `i` in `c` gives
/// the text and the cursor back: no character after the cursor was removed,
/// and the removed run reads the same both ways (reinsertion puts it back in
/// the order of removal).
pub open spec fn delete_reversible(c: Seq<char>, i: int, n: int) -> bool {
    &&& fwd_count(c.len() as int, i, n) == 0
    &&& c.subrange(i - back_count(i, n), i).reverse() == c.subrange(i - back_count(i, n), i)
}

/// Inserting `t` at offset `o` and then deleting as many characters gives
/// the text back, with the cursor at `o`.
pub proof fn lemma_insert_delete_inverse(c: Seq<char>, o: int, t: Seq<char>)
    requires
        0 <= o <= c.len(),
    ensures
        after_delete(after_insert(c, o, t).0, after_insert(c, o, t).1, t.len() as int) == (
            c,
            o,
        ),
{
    let (c1, i1) = after_insert(c, o, t);
    assert(back_count(i1, t.len() as int) == t.len());
    assert(fwd_count(c1.len() as int, i1, t.len() as int) == 0);
    assert(deleted_content(c1, i1, t.len() as int) =~= c);
}

/// Running an event and then its reverse action gives back the text and the
/// cursor. For a deletion this holds where `delete_reversible` does.
pub proof fn lemma_undo_restores(c: Seq<char>, i: int, e: EventModel, cols: nat)
    requires
        0 <= i <= c.len(),
        cols >= 1,
        e is Delete ==> delete_reversible(c, i, e->Delete_0 as int),
    ensures
        backward(forward(c, i, e, cols).0, forward(c, i, e, cols).1, recorded(c, i, e)) == (c, i),
{
    match e {
        EventModel::Insert(t) => {
            lemma_insert_delete_inverse(c, i, t);
        },
        EventModel::Delete(n, _) => {
            let b = back_count(i, n as int);
            let (c1, i1) = after_delete(c, i, n as int);
            let r = deleted_text(c, i, n as int);
            assert(r =~= c.subrange(i - b, i));
            assert(c1.take(i1) + r + c1.skip(i1) =~= c);
        },
        EventModel::Move(d, _) => {},
    }
}

/// Once more events than the capacity have been recorded, the history holds
/// exactly the capacity; so that many undos empty it, and any undo after
/// that changes nothing.
pub proof fn lemma_history_bounded(h: Seq<EventModel>, es: Seq<EventModel>, k: nat)
    requires
        h.len() <= HISTORY_CAPACITY,
        es.len() > HISTORY_CAPACITY,
    ensures
        push_all(h, es).len() == HISTORY_CAPACITY,
        k <= HISTORY_CAPACITY ==> after_undos(push_all(h, es), k).len() == HISTORY_CAPACITY - k,
        k >= HISTORY_CAPACITY ==> after_undos(push_all(h, es), k).len() == 0,
        after_undo(after_undos(push_all(h, es), HISTORY_CAPACITY as nat)) == after_undos(
            push_all(h, es),
            HISTORY_CAPACITY as nat,
        ),
{
    lemma_push_all_len(h, es);
    lemma_after_undos_len(push_all(h, es), k);
    lemma_after_undos_len(push_all(h, es), HISTORY_CAPACITY as nat);
}

proof fn lemma_push_all_len(h: Seq<EventModel>, es: Seq<EventModel>)
    requires
        h.len() <= HISTORY_CAPACITY,
    ensures
        push_all(h, es).len() == min_nat(h.len() + es.len(), HISTORY_CAPACITY as nat),
    decreases es.len(),
{
    if es.len() > 0 {
        lemma_push_all_len(h, es.drop_last());
    }
}

proof fn lemma_after_undos_len(h: Seq<EventModel>, k: nat)
    ensures
        after_undos(h, k).len() == if k <= h.len() {
            h.len() - k
        } else {
            0
        },
    decreases k,
{
    if k > 0 {
        lemma_after_undos_len(h, (k - 1) as nat);
    }
}

pub open spec fn min_nat(a: nat, b: nat) -> nat {
    if a <= b {
        a
    } else {
        b
    }
}

impl InsertEvent {
    /// Inserts the text at the cursor.
    pub fn invoke(&mut self, t_file: &mut TFile)
        requires
            old(t_file).wf(),
            old(t_file).content.len() + old(self).0@.len() < usize::MAX,
        ensures
            final(t_file).wf(),
            final(self).0@ == old(self).0@,
            final(t_file).event_buffer@ == old(t_file).event_buffer@,
            final(t_file).cols == old(t_file).cols,
            final(t_file).rows == old(t_file).rows,
            (final(t_file).content@, final(t_file).index as int) == crate::t_file::after_insert(
                old(t_file).content@,
                old(t_file).index as int,
                old(self).0@,
            ),
    {
        t_file.insert(self.0.as_str());
    }

    /// Deletes as many characters as the text holds.
    pub fn reverse(&self, t_file: &mut TFile)
        requires
            old(t_file).wf(),
        ensures
            final(t_file).wf(),
            final(t_file).event_buffer@ == old(t_file).event_buffer@,
            final(t_file).cols == old(t_file).cols,
            final(t_file).rows == old(t_file).rows,
            (final(t_file).content@, final(t_file).index as int) == crate::t_file::after_delete(
                old(t_file).content@,
                old(t_file).index as int,
                self.0@.len() as int,
            ),
    {
        let n = self.0.as_str().unicode_len();
        let _ = t_file.delete(n);
    }
}

impl DeleteEvent {
    /// Deletes at the cursor and keeps the removed text.
    pub fn invoke(&mut self, t_file: &mut TFile)
        requires
            old(t_file).wf(),
        ensures
            final(t_file).wf(),
            final(self).0 == old(self).0,
            final(self).1@ == crate::t_file::deleted_text(
                old(t_file).content@,
                old(t_file).index as int,
                old(self).0 as int,
            ),
            final(t_file).event_buffer@ == old(t_file).event_buffer@,
            final(t_file).cols == old(t_file).cols,
            final(t_file).rows == old(t_file).rows,
            (final(t_file).content@, final(t_file).index as int) == crate::t_file::after_delete(
                old(t_file).content@,
                old(t_file).index as int,
                old(self).0 as int,
            ),
    {
        self.1 = t_file.delete(self.0);
    }

    /// Inserts the removed text again.
    pub fn reverse(&self, t_file: &mut TFile)
        requires
            old(t_file).wf(),
            old(t_file).content.len() + self.1@.len() < usize::MAX,
        ensures
            final(t_file).wf(),
            final(t_file).event_buffer@ == old(t_file).event_buffer@,
            final(t_file).cols == old(t_file).cols,
            final(t_file).rows == old(t_file).rows,
            (final(t_file).content@, final(t_file).index as int) == crate::t_file::after_insert(
                old(t_file).content@,
                old(t_file).index as int,
                self.1@,
            ),
    {
        t_file.insert(self.1.as_str());
    }
}

impl MoveEvent {
    /// Records the cursor offset, then moves one step.
    pub fn invoke(&mut self, t_file: &mut TFile)
        requires
            old(t_file).wf(),
        ensures
            final(t_file).wf(),
            final(self).0 == old(self).0,
            final(self).1 == old(t_file).index,
            final(t_file).event_buffer@ == old(t_file).event_buffer@,
            final(t_file).cols == old(t_file).cols,
            final(t_file).rows == old(t_file).rows,
            final(t_file).content@ == old(t_file).content@,
            final(t_file).index as int == crate::t_file::after_move(
                old(t_file).content@,
                old(t_file).index as int,
                old(self).0,
                old(t_file).cols as nat,
            ),
    {
        self.1 = t_file.index;
        match self.0 {
            Direction::Up => t_file.move_up(),
            Direction::Down => t_file.move_down(),
            Direction::Left => t_file.move_left(1),
            Direction::Right => t_file.move_right(1),
        }
    }

    /// Puts the cursor back where it was before the move.
    pub fn reverse(&self, t_file: &mut TFile)
        requires
            old(t_file).wf(),
        ensures
            final(t_file).wf(),
            final(t_file).event_buffer@ == old(t_file).event_buffer@,
            final(t_file).cols == old(t_file).cols,
            final(t_file).rows == old(t_file).rows,
            final(t_file).content@ == old(t_file).content@,
            final(t_file).index as int == crate::t_file::clamp_to(
                self.1 as int,
                old(t_file).content.len() as int,
            ),
    {
        t_file.move_to(self.1);
    }
}

} // verus!
