use tim_cli::{ExplorerAction, TFileExplorer};

fn five_entries(rows: usize) -> TFileExplorer {
    let mut e = TFileExplorer::new();
    let paths = (1..=5).map(|i| format!("/home/u/f{i}")).collect();
    e.set_paths(paths, rows);
    e
}

#[test]
fn new_starts_in_current_directory() {
    let e = TFileExplorer::new();
    assert_eq!(e.directory, "./");
    assert!(e.paths.is_empty());
    assert_eq!((e.view_start, e.view_end), (0, 0));
}

#[test]
fn back_goes_to_parent() {
    let mut e = TFileExplorer::new();
    e.directory = "/home/u/docs".to_string();
    assert!(e.back());
    assert_eq!(e.directory, "/home/u");
    assert!(e.back());
    assert_eq!(e.directory, "/home");
    assert!(e.back());
    assert_eq!(e.directory, "/");
    assert!(!e.back());
    assert_eq!(e.directory, "/");
}

#[test]
fn set_paths_takes_directory_of_first_entry() {
    let e = five_entries(4);
    assert_eq!(e.directory, "/home/u");
    assert_eq!(e.paths.len(), 5);
    assert_eq!((e.view_start, e.view_end), (0, 3));
    let f = five_entries(20);
    assert_eq!((f.view_start, f.view_end), (0, 5));
}

#[test]
fn set_paths_with_no_entries_keeps_directory() {
    let mut e = TFileExplorer::new();
    e.set_paths(Vec::new(), 10);
    assert_eq!(e.directory, "./");
    assert_eq!((e.view_start, e.view_end), (0, 0));
}

#[test]
fn move_down_moves_cursor_then_scrolls() {
    let mut e = five_entries(4);
    assert_eq!(e.move_down(1, 4), ExplorerAction::CursorDown);
    assert_eq!((e.view_start, e.view_end), (0, 3));
    assert_eq!(e.move_down(3, 4), ExplorerAction::Redraw);
    assert_eq!((e.view_start, e.view_end), (1, 4));
    assert_eq!(e.move_down(3, 4), ExplorerAction::Redraw);
    assert_eq!((e.view_start, e.view_end), (2, 5));
    assert_eq!(e.move_down(3, 4), ExplorerAction::Stay);
    assert_eq!(e.move_down(5, 4), ExplorerAction::Stay);
}

#[test]
fn move_up_moves_cursor_then_scrolls() {
    let mut e = five_entries(4);
    e.move_down(3, 4);
    assert_eq!(e.move_up(2), ExplorerAction::CursorUp);
    assert_eq!(e.move_up(1), ExplorerAction::Redraw);
    assert_eq!((e.view_start, e.view_end), (0, 3));
    assert_eq!(e.move_up(1), ExplorerAction::Stay);
}

#[test]
fn entry_at_counts_from_window() {
    let mut e = five_entries(4);
    e.move_down(3, 4);
    assert_eq!(e.entry_at(1).map(|s| s.as_str()), Some("/home/u/f2"));
    assert_eq!(e.entry_at(3).map(|s| s.as_str()), Some("/home/u/f4"));
    assert_eq!(e.entry_at(0), None);
    assert_eq!(e.entry_at(4), None);
}
