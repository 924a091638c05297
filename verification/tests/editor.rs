use kiro::editor::Cursor;
use kiro::editor::Kiro;

fn chars_of(s: &str) -> Vec<char> {
    s.chars().collect()
}

fn state(lines: &[&str], row: usize, column: usize) -> Kiro {
    Kiro {
        buffer: lines.iter().map(|s| chars_of(s)).collect(),
        cursor: Cursor { row, column },
        row_offset: 0,
    }
}

#[test]
fn default_is_one_empty_line() {
    let k = Kiro::default();
    assert_eq!(k.buffer, vec![Vec::<char>::new()]);
    assert_eq!(k.cursor, Cursor { row: 0, column: 0 });
    assert_eq!(k.row_offset, 0);
    assert!(k.is_well_formed());
}

#[test]
fn insert_at_end_of_line() {
    let mut k = state(&["hello"], 0, 5);
    k.insert('!', 24);
    assert_eq!(k.buffer, vec![chars_of("hello!")]);
    assert_eq!(k.cursor, Cursor { row: 0, column: 6 });
}

#[test]
fn insert_mid_line() {
    let mut k = state(&["hello"], 0, 1);
    k.insert('x', 24);
    assert_eq!(k.buffer, vec![chars_of("hxello")]);
    assert_eq!(k.cursor, Cursor { row: 0, column: 2 });
}

#[test]
fn insert_control_is_ignored() {
    let mut k = state(&["hello"], 0, 1);
    k.insert('\u{1}', 24);
    assert_eq!(k.buffer, vec![chars_of("hello")]);
    assert_eq!(k.cursor, Cursor { row: 0, column: 1 });
}

#[test]
fn insert_line_break_splits() {
    let mut k = state(&["hello"], 0, 2);
    k.insert('\n', 24);
    assert_eq!(k.buffer, vec![chars_of("he"), chars_of("llo")]);
    assert_eq!(k.cursor, Cursor { row: 1, column: 0 });
}

#[test]
fn split_then_backspace_restores() {
    let mut k = state(&["hello"], 0, 2);
    k.insert('\n', 24);
    k.back_space();
    assert_eq!(k.buffer, vec![chars_of("hello")]);
    assert_eq!(k.cursor, Cursor { row: 0, column: 2 });
}

#[test]
fn backspace_joins_lines() {
    let mut k = state(&["ab", "cd"], 1, 0);
    k.back_space();
    assert_eq!(k.buffer, vec![chars_of("abcd")]);
    assert_eq!(k.cursor, Cursor { row: 0, column: 2 });
}

#[test]
fn backspace_mid_line() {
    let mut k = state(&["abc"], 0, 2);
    k.back_space();
    assert_eq!(k.buffer, vec![chars_of("ac")]);
    assert_eq!(k.cursor, Cursor { row: 0, column: 1 });
}

#[test]
fn backspace_at_origin_is_noop() {
    let mut k = state(&["abc"], 0, 0);
    k.back_space();
    assert_eq!(k.buffer, vec![chars_of("abc")]);
    assert_eq!(k.cursor, Cursor { row: 0, column: 0 });
}

#[test]
fn delete_at_end_of_line_joins() {
    let mut k = state(&["ab", "cd"], 0, 2);
    k.delete();
    assert_eq!(k.buffer, vec![chars_of("abcd")]);
    assert_eq!(k.cursor, Cursor { row: 0, column: 2 });
}

#[test]
fn delete_then_split_restores() {
    let mut k = state(&["ab", "cd"], 0, 2);
    k.delete();
    k.insert('\n', 24);
    assert_eq!(k.buffer, vec![chars_of("ab"), chars_of("cd")]);
    assert_eq!(k.cursor, Cursor { row: 1, column: 0 });
}

#[test]
fn delete_mid_line() {
    let mut k = state(&["abc"], 0, 1);
    k.delete();
    assert_eq!(k.buffer, vec![chars_of("ac")]);
    assert_eq!(k.cursor, Cursor { row: 0, column: 1 });
}

#[test]
fn delete_at_absolute_end_is_noop() {
    let mut k = state(&["ab"], 0, 2);
    k.delete();
    assert_eq!(k.buffer, vec![chars_of("ab")]);
    assert_eq!(k.cursor, Cursor { row: 0, column: 2 });
}

#[test]
fn move_left_stops_at_column_zero() {
    let mut k = state(&["hi"], 0, 0);
    k.cursor_left(24);
    k.cursor_left(24);
    assert_eq!(k.cursor, Cursor { row: 0, column: 0 });
}

#[test]
fn move_right_stops_at_line_end() {
    let mut k = state(&["hi"], 0, 1);
    k.cursor_right(24);
    k.cursor_right(24);
    assert_eq!(k.cursor, Cursor { row: 0, column: 2 });
}

#[test]
fn move_up_clamps_column() {
    let mut k = state(&["a", "word"], 1, 4);
    k.cursor_up(24);
    assert_eq!(k.cursor, Cursor { row: 0, column: 1 });
}

#[test]
fn move_down_clamps_column() {
    let mut k = state(&["word", "a"], 0, 3);
    k.cursor_down(24);
    assert_eq!(k.cursor, Cursor { row: 1, column: 1 });
}

#[test]
fn move_down_scrolls_viewport() {
    let mut k = state(&["a", "b", "c", "d"], 0, 0);
    k.cursor_down(2);
    k.cursor_down(2);
    k.cursor_down(2);
    assert_eq!(k.cursor, Cursor { row: 3, column: 0 });
    assert_eq!(k.row_offset, 2);
}

#[test]
fn move_up_scrolls_viewport() {
    let mut k = state(&["a", "b", "c", "d"], 2, 0);
    k.row_offset = 2;
    k.cursor_up(2);
    assert_eq!(k.cursor, Cursor { row: 1, column: 0 });
    assert_eq!(k.row_offset, 1);
}
