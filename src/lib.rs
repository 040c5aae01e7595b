//! A terminal text editor's document engine: the text buffer and its cursor,
//! the reflow of the text into display lines, the viewport over those lines,
//! the mapping of the cursor to a screen cell, and a bounded undo history.
//! The command line is read into a `Config`. Terminal and file I/O live
//! outside this library.

pub mod config;
pub mod reflow;
pub mod screen;
pub mod t_event;
pub mod t_file;
pub mod t_file_explorer;

pub use config::Config;
pub use t_event::{DeleteEvent, Direction, InsertEvent, MoveEvent, Request, TEvent};
pub use t_file::TFile;
pub use t_file_explorer::{ExplorerAction, TFileExplorer};
