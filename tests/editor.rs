use tim_cli::{DeleteEvent, Direction, InsertEvent, MoveEvent, Request, TEvent, TFile};

fn lines_of(f: &TFile) -> Vec<String> {
    f.lines.iter().map(|l| l.iter().collect::<String>()).collect()
}

fn insert(f: &mut TFile, s: &str) {
    f.add_event(TEvent::Insert(InsertEvent(s.to_string())));
}

fn backspace(f: &mut TFile) {
    f.add_event(TEvent::Delete(DeleteEvent(1, String::new())));
}

fn step(f: &mut TFile, d: Direction) {
    f.add_event(TEvent::Move(MoveEvent(d, 0)));
}

#[test]
fn insert_wraps_at_width() {
    let mut f = TFile::build("", 5, 3);
    f.insert("abcdefg");
    assert_eq!(lines_of(&f), vec!["abcde".to_string(), "fg\n".to_string()]);
    assert_eq!(f.index, 7);
    assert_eq!(f.text(), "abcdefg");
}

#[test]
fn delete_then_undo_restores() {
    let mut f = TFile::build("X", 5, 3);
    f.move_to(1);
    assert_eq!(f.index, 1);
    backspace(&mut f);
    assert_eq!(f.text(), "");
    assert_eq!(f.index, 0);
    f.undo();
    assert_eq!(f.text(), "X");
    assert_eq!(f.index, 1);
}

#[test]
fn viewport_follows_cursor_down() {
    let mut f = TFile::build("a\nb\nc\nd\ne", 10, 3);
    assert_eq!((f.view_start, f.view_end), (0, 3));
    for _ in 0..4 {
        f.move_down();
    }
    assert_eq!(f.index, 8);
    assert_eq!((f.view_start, f.view_end), (2, 5));
    f.move_up();
    f.move_up();
    assert_eq!(f.index, 4);
    assert_eq!((f.view_start, f.view_end), (0, 3));
}

#[test]
fn empty_text_has_one_line() {
    let f = TFile::build("", 4, 2);
    assert_eq!(lines_of(&f), vec!["\n".to_string()]);
    assert_eq!(f.index, 0);
}

#[test]
fn reflow_keeps_newlines_and_cuts_long_lines() {
    let f = TFile::build("abcde\nxy\n\nabcdefghijk", 5, 10);
    assert_eq!(
        lines_of(&f),
        vec!["abcde\n", "xy\n", "\n", "abcde", "fghij", "k\n"]
    );
    let joined: String = lines_of(&f).concat();
    assert_eq!(joined, format!("{}\n", f.text()));
}

#[test]
fn insert_then_delete_restores_text() {
    let mut f = TFile::build("hello world", 80, 24);
    f.move_to(5);
    f.insert(", big");
    assert_eq!(f.text(), "hello, big world");
    assert_eq!(f.index, 10);
    let removed = f.delete(5);
    assert_eq!(removed, "gib ,");
    assert_eq!(f.text(), "hello world");
    assert_eq!(f.index, 5);
}

#[test]
fn delete_at_start_removes_forward() {
    let mut f = TFile::build("abc", 80, 24);
    let removed = f.delete(2);
    assert_eq!(removed, "ab");
    assert_eq!(f.text(), "c");
    assert_eq!(f.index, 0);
}

#[test]
fn delete_past_start_turns_forward() {
    let mut f = TFile::build("abcd", 80, 24);
    f.move_to(1);
    let removed = f.delete(3);
    assert_eq!(removed, "abc");
    assert_eq!(f.text(), "d");
    assert_eq!(f.index, 0);
}

#[test]
fn delete_on_empty_text_is_noop() {
    let mut f = TFile::build("", 80, 24);
    let removed = f.delete(3);
    assert_eq!(removed, "");
    assert_eq!(f.text(), "");
    assert_eq!(f.index, 0);
}

#[test]
fn undo_insert_restores_text_and_cursor() {
    let mut f = TFile::build("ac", 80, 24);
    f.move_to(1);
    insert(&mut f, "b");
    assert_eq!(f.text(), "abc");
    assert_eq!(f.index, 2);
    f.undo();
    assert_eq!(f.text(), "ac");
    assert_eq!(f.index, 1);
}

#[test]
fn undo_move_restores_cursor() {
    let mut f = TFile::build("abc\ndef", 80, 24);
    f.move_to(2);
    step(&mut f, Direction::Down);
    assert_eq!(f.index, 6);
    f.undo();
    assert_eq!(f.index, 2);
    assert_eq!(f.text(), "abc\ndef");
}

#[test]
fn history_keeps_ten_events() {
    let mut f = TFile::build("", 80, 24);
    for _ in 0..12 {
        insert(&mut f, "x");
    }
    assert_eq!(f.event_buffer.len(), 10);
    for _ in 0..10 {
        f.undo();
    }
    assert_eq!(f.text(), "xx");
    assert_eq!(f.event_buffer.len(), 0);
    f.undo();
    assert_eq!(f.text(), "xx");
    assert_eq!(f.index, 2);
}

#[test]
fn undo_on_empty_history_is_noop() {
    let mut f = TFile::build("abc", 80, 24);
    f.undo();
    assert_eq!(f.text(), "abc");
    assert_eq!(f.index, 0);
}

#[test]
fn moves_stay_in_bounds() {
    let mut f = TFile::build("ab\ncd", 80, 24);
    step(&mut f, Direction::Left);
    assert_eq!(f.index, 0);
    step(&mut f, Direction::Up);
    assert_eq!(f.index, 0);
    for _ in 0..10 {
        step(&mut f, Direction::Right);
    }
    assert_eq!(f.index, 5);
    step(&mut f, Direction::Down);
    assert_eq!(f.index, 5);
    f.move_to(100);
    assert_eq!(f.index, 5);
}

#[test]
fn vertical_moves_clamp_to_shorter_lines() {
    let mut f = TFile::build("abcdef\nab\nabcdef", 80, 24);
    f.move_to(5);
    f.move_down();
    assert_eq!(f.index, 9);
    f.move_down();
    assert_eq!(f.index, 12);
    f.move_up();
    assert_eq!(f.index, 9);
    f.move_up();
    assert_eq!(f.index, 2);
}

#[test]
fn move_down_from_last_line_goes_to_end() {
    let mut f = TFile::build("ab\ncd", 80, 24);
    f.move_to(3);
    f.move_down();
    assert_eq!(f.index, 5);
}

#[test]
fn move_up_from_first_line_goes_to_start() {
    let mut f = TFile::build("abcdef", 80, 24);
    f.move_to(4);
    f.move_up();
    assert_eq!(f.index, 0);
}

#[test]
fn move_left_and_right_by_units() {
    let mut f = TFile::build("abcdef", 80, 24);
    f.move_right(4);
    assert_eq!(f.index, 4);
    f.move_right(3);
    assert_eq!(f.index, 4);
    f.move_left(5);
    assert_eq!(f.index, 4);
    f.move_left(3);
    assert_eq!(f.index, 1);
}

#[test]
fn viewport_contains_cursor_after_edits() {
    let mut f = TFile::build("", 4, 2);
    for _ in 0..5 {
        insert(&mut f, "abcdef\n");
        let mut start = 0;
        let mut line = 0;
        for (i, l) in f.lines.iter().enumerate() {
            if start + l.len() > f.index || i == f.lines.len() - 1 {
                line = i;
                break;
            }
            start += l.len();
        }
        assert!(f.view_start <= line && line < f.view_end);
    }
    assert_eq!(f.lines.len(), 11);
    assert_eq!((f.view_start, f.view_end), (9, 11));
}

#[test]
fn cursor_position_walks_wraps_and_newlines() {
    let mut f = TFile::build("abcdefg\nxy", 5, 10);
    f.move_to(3);
    assert_eq!(f.cursor_position(), (3, 0));
    f.move_to(5);
    assert_eq!(f.cursor_position(), (0, 1));
    f.move_to(7);
    assert_eq!(f.cursor_position(), (2, 1));
    f.move_to(9);
    assert_eq!(f.cursor_position(), (1, 2));
}

#[test]
fn cursor_position_counts_from_viewport_top() {
    let mut f = TFile::build("a\nb\nc\nd\ne", 10, 3);
    f.move_to(8);
    assert_eq!((f.view_start, f.view_end), (2, 5));
    assert_eq!(f.cursor_position(), (0, 2));
}

#[test]
fn multibyte_characters_count_once() {
    let mut f = TFile::build("héllo", 80, 24);
    f.move_to(2);
    f.insert("ü");
    assert_eq!(f.text(), "héüllo");
    assert_eq!(f.index, 3);
    let removed = f.delete(2);
    assert_eq!(removed, "üé");
    assert_eq!(f.text(), "hllo");
}

#[test]
fn resize_reflows() {
    let mut f = TFile::build("abcdefgh", 8, 3);
    assert_eq!(lines_of(&f), vec!["abcdefgh\n".to_string()]);
    f.set_size(3, 3);
    assert_eq!(lines_of(&f), vec!["abc", "def", "gh\n"]);
    assert_eq!((f.cols, f.rows), (3, 3));
}

#[test]
fn insert_event_invoke_and_reverse() {
    let mut f = TFile::build("", 80, 24);
    let mut e = InsertEvent("hi".to_string());
    e.invoke(&mut f);
    assert_eq!(f.text(), "hi");
    e.reverse(&mut f);
    assert_eq!(f.text(), "");
}

#[test]
fn delete_event_records_removed_text() {
    let mut f = TFile::build("abc", 80, 24);
    f.move_to(3);
    let mut e = DeleteEvent(2, String::new());
    e.invoke(&mut f);
    assert_eq!(e.1, "cb");
    assert_eq!(f.text(), "a");
    e.reverse(&mut f);
    assert_eq!(f.text(), "acb");
}

#[test]
fn move_event_records_prior_offset() {
    let mut f = TFile::build("abc", 80, 24);
    f.move_to(2);
    let mut e = MoveEvent(Direction::Left, 0);
    e.invoke(&mut f);
    assert_eq!(e.1, 2);
    assert_eq!(f.index, 1);
    e.reverse(&mut f);
    assert_eq!(f.index, 2);
}

#[test]
fn requests_drive_the_document() {
    let mut f = TFile::build("", 80, 24);
    assert!(f.apply_request(Request::InsertChar("a".to_string())));
    assert!(f.apply_request(Request::InsertTab));
    assert!(f.apply_request(Request::InsertNewline));
    assert_eq!(f.text(), "a    \n");
    assert_eq!(f.index, 6);
    assert!(f.apply_request(Request::MoveCursor(Direction::Left)));
    assert!(f.apply_request(Request::DeleteBackward));
    assert_eq!(f.text(), "a   \n");
    assert_eq!(f.index, 4);
    assert!(f.apply_request(Request::Undo));
    assert_eq!(f.text(), "a    \n");
    assert_eq!(f.index, 5);
    assert_eq!(f.event_buffer.len(), 4);
    assert!(!f.apply_request(Request::Exit));
    assert_eq!(f.text(), "a    \n");
}

#[test]
fn undo_request_on_empty_history_changes_nothing() {
    let mut f = TFile::build("abc", 80, 24);
    assert!(f.apply_request(Request::Undo));
    assert_eq!(f.text(), "abc");
    assert_eq!(f.index, 0);
}

#[test]
fn undo_of_forward_delete_restores_text_not_cursor() {
    let mut f = TFile::build("ab", 80, 24);
    backspace(&mut f);
    assert_eq!(f.text(), "b");
    assert_eq!(f.index, 0);
    f.undo();
    assert_eq!(f.text(), "ab");
    assert_eq!(f.index, 1);
}
