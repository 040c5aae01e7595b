//! The file picker's state: the directory shown, its entries, and which of
//! them the screen shows. Reading directories and drawing stay with the
//! caller, which hands in the entries and the cursor's screen row.

use vstd::prelude::*;

verus! {

/// The parent directory of a path, as `std::path::Path::parent` gives it.
pub uninterp spec fn parent_of(path: Seq<char>) -> Option<Seq<char>>;

/// Relies on `std::path::Path::parent`: the path without its final
/// component, or nothing for a root or an empty path.
#[verifier::external_body]
fn parent_dir(path: &str) -> (r: Option<String>)
    ensures
        match (r, parent_of(path@)) {
            (Some(p), Some(q)) => p@ == q,
            (None, None) => true,
            _ => false,
        },
{
    match std::path::Path::new(path).parent() {
        Some(p) => Some(p.to_string_lossy().into_owned()),
        None => None,
    }
}

/// What the caller does on the screen after a step of the picker.
#[derive(Clone, Copy, Debug, PartialEq, Eq, Structural)]
pub enum ExplorerAction {
    /// Nothing changes.
    Stay,
    /// Move the terminal cursor one row up.
    CursorUp,
    /// Move the terminal cursor one row down.
    CursorDown,
    /// The window over the entries moved: draw it again.
    Redraw,
}

/// The file picker.
pub struct TFileExplorer {
    /// The directory shown.
    pub directory: String,
    /// Its entries, as paths.
    pub paths: Vec<String>,
    /// The first entry on screen.
    pub view_start: usize,
    /// One past the last entry on screen.
    pub view_end: usize,
}

impl TFileExplorer {
    /// The window lies within the entries.
    pub open spec fn wf(&self) -> bool {
        self.view_start <= self.view_end <= self.paths.len()
    }

    /// A picker on the current directory, before its entries are read.
    pub fn new() -> (r: TFileExplorer)
        ensures
            r.wf(),
            r.directory@ == "./"@,
            r.paths.len() == 0,
            r.view_start == 0,
            r.view_end == 0,
    {
        TFileExplorer { directory: String::from_str("./"), paths: Vec::new(), view_start: 0, view_end: 0 }
    }

    /// Goes to the parent directory. Returns whether there was one; the
    /// caller then reads its entries.
    pub fn back(&mut self) -> (moved: bool)
        ensures
            moved == (parent_of(old(self).directory@) is Some),
            moved ==> final(self).directory@ == parent_of(old(self).directory@)->Some_0,
            !moved ==> final(self).directory@ == old(self).directory@,
            final(self).paths@ == old(self).paths@,
            final(self).view_start == old(self).view_start,
            final(self).view_end == old(self).view_end,
    {
        match parent_dir(self.directory.as_str()) {
            Some(p) => {
                self.directory = p;
                true
            },
            None => false,
        }
    }

    /// Takes the entries just read: the directory becomes the parent of the
    /// first entry, if there is one, and the window shows the first entries
    /// that fit below the heading line of a screen of `rows` rows.
    pub fn set_paths(&mut self, paths: Vec<String>, rows: usize)
        requires
            rows >= 1,
        ensures
            final(self).wf(),
            final(self).paths@ == paths@,
            final(self).view_start == 0,
            final(self).view_end == if paths.len() <= rows - 1 {
                paths.len() as int
            } else {
                rows - 1
            },
            paths.len() > 0 && parent_of(paths@[0]@) is Some ==> final(self).directory@
                == parent_of(paths@[0]@)->Some_0,
            !(paths.len() > 0 && parent_of(paths@[0]@) is Some) ==> final(self).directory@
                == old(self).directory@,
    {
        if paths.len() > 0 {
            match parent_dir(paths[0].as_str()) {
                Some(p) => {
                    self.directory = p;
                },
                None => {},
            }
        }
        let n = paths.len();
        self.paths = paths;
        self.view_start = 0;
        self.view_end = if n <= rows - 1 {
            n
        } else {
            rows - 1
        };
    }

    /// Steps up from screen row `y` (the heading is row 0): the cursor moves
    /// up while it is below the first entry row; on that row the window
    /// scrolls up if it can.
    pub fn move_up(&mut self, y: usize) -> (a: ExplorerAction)
        requires
            old(self).wf(),
        ensures
            final(self).wf(),
            final(self).paths@ == old(self).paths@,
            final(self).directory@ == old(self).directory@,
            y > 1 ==> a == ExplorerAction::CursorUp && final(self).view_start
                == old(self).view_start && final(self).view_end == old(self).view_end,
            y <= 1 && old(self).view_start > 0 ==> a == ExplorerAction::Redraw
                && final(self).view_start == old(self).view_start - 1 && final(self).view_end
                == old(self).view_end - 1,
            y <= 1 && old(self).view_start == 0 ==> a == ExplorerAction::Stay
                && final(self).view_start == 0 && final(self).view_end == old(self).view_end,
    {
        if y > 1 {
            ExplorerAction::CursorUp
        } else if self.view_start > 0 {
            self.view_start -= 1;
            self.view_end -= 1;
            ExplorerAction::Redraw
        } else {
            ExplorerAction::Stay
        }
    }

    /// Steps down from screen row `y` on a screen of `rows` rows: the cursor
    /// moves down while an entry lies below it and a row is left; on the last
    /// row the window scrolls down if entries remain below it.
    pub fn move_down(&mut self, y: usize, rows: usize) -> (a: ExplorerAction)
        requires
            old(self).wf(),
            rows >= 1,
        ensures
            final(self).wf(),
            final(self).paths@ == old(self).paths@,
            final(self).directory@ == old(self).directory@,
            a == ExplorerAction::Redraw <==> (y < old(self).paths.len() && y >= rows - 1
                && old(self).view_end < old(self).paths.len()),
            a == ExplorerAction::CursorDown <==> (y < old(self).paths.len() && y < rows - 1),
            a == ExplorerAction::Redraw ==> final(self).view_start == old(self).view_start + 1
                && final(self).view_end == old(self).view_end + 1,
            a != ExplorerAction::Redraw ==> final(self).view_start == old(self).view_start
                && final(self).view_end == old(self).view_end,
            a != ExplorerAction::CursorUp,
    {
        if y < self.paths.len() {
            if y < rows - 1 {
                ExplorerAction::CursorDown
            } else if self.view_end < self.paths.len() {
                self.view_start += 1;
                self.view_end += 1;
                ExplorerAction::Redraw
            } else {
                ExplorerAction::Stay
            }
        } else {
            ExplorerAction::Stay
        }
    }

    /// The entry on screen row `y`, counted from the window's first entry
    /// (the heading is row 0).
    pub fn entry_at(&self, y: usize) -> (r: Option<&String>)
        requires
            self.wf(),
        ensures
            (1 <= y && y - 1 < self.view_end - self.view_start) <==> r is Some,
            r is Some ==> *r->Some_0 == self.paths@[self.view_start + y - 1],
    {
        if y >= 1 && y - 1 < self.view_end - self.view_start {
            Some(&self.paths[self.view_start + (y - 1)])
        } else {
            None
        }
    }
}

} // verus!
