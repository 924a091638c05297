use kiro::editor::Cursor;
use kiro::editor::Kiro;
use kiro::session::EditorAction;
use kiro::session::KeyEvent;

fn chars_of(s: &str) -> Vec<char> {
    s.chars().collect()
}

fn state(lines: &[&str], row: usize, column: usize) -> Kiro {
    Kiro {
        buffer: lines.iter().map(|s| chars_of(s)).collect(),
        cursor: Cursor { row, column },
        row_offset: 0,
    }
}

#[test]
fn open_splits_lines() {
    let mut k = Kiro::default();
    k.open(Some("ab\ncd"));
    assert_eq!(k.buffer, vec![chars_of("ab"), chars_of("cd")]);
    assert_eq!(k.cursor, Cursor { row: 0, column: 0 });
    assert_eq!(k.row_offset, 0);
}

#[test]
fn open_trims_trailing_whitespace() {
    let mut k = Kiro::default();
    k.open(Some("a \t\nb\tx  \n"));
    assert_eq!(k.buffer, vec![chars_of("a"), chars_of("b\tx")]);
}

#[test]
fn open_handles_carriage_returns() {
    let mut k = Kiro::default();
    k.open(Some("a\r\nb\r\n"));
    assert_eq!(k.buffer, vec![chars_of("a"), chars_of("b")]);
}

#[test]
fn open_empty_text_gives_one_empty_line() {
    let mut k = Kiro::default();
    k.open(Some(""));
    assert_eq!(k.buffer, vec![Vec::<char>::new()]);
}

#[test]
fn open_without_text_gives_one_empty_line() {
    let mut k = state(&["old"], 0, 3);
    k.open(None);
    assert_eq!(k.buffer, vec![Vec::<char>::new()]);
    assert_eq!(k.cursor, Cursor { row: 0, column: 0 });
}

#[test]
fn open_keeps_interior_blank_lines() {
    let mut k = Kiro::default();
    k.open(Some("a\n\nb\n"));
    assert_eq!(k.buffer, vec![chars_of("a"), chars_of(""), chars_of("b")]);
}

#[test]
fn serialize_terminates_every_line() {
    let k = state(&["ab", "c"], 0, 0);
    assert_eq!(k.serialize(), "ab\nc\n");
}

#[test]
fn serialize_of_empty_buffer_line() {
    let k = Kiro::default();
    assert_eq!(k.serialize(), "\n");
}

#[test]
fn open_then_serialize_round_trips() {
    let text = "ab\ncd\n\nef\n";
    let mut k = Kiro::default();
    k.open(Some(text));
    assert_eq!(k.serialize(), text);
}

#[test]
fn render_single_line() {
    let k = state(&["hi"], 0, 2);
    let scr = k.render(5, 10);
    assert_eq!(scr.rows, vec![chars_of("hi")]);
    assert_eq!(scr.cursor, Some((0, 2)));
}

#[test]
fn render_wraps_long_line() {
    let k = state(&["abcdef"], 0, 0);
    let scr = k.render(5, 4);
    assert_eq!(scr.rows, vec![chars_of("abc"), chars_of("def")]);
    assert_eq!(scr.cursor, Some((0, 0)));
}

#[test]
fn render_wide_char_wraps_instead_of_truncating() {
    let k = state(&["a\u{3042}", ""], 0, 0);
    let scr = k.render(5, 3);
    assert_eq!(scr.rows, vec![chars_of("a"), chars_of("\u{3042}"), chars_of("")]);
}

#[test]
fn render_zero_width_char_never_wraps() {
    let k = state(&["a\u{300}"], 0, 0);
    let scr = k.render(5, 2);
    assert_eq!(scr.rows, vec![chars_of("a\u{300}")]);
}

#[test]
fn render_clips_at_screen_height() {
    let k = state(&["a", "b", "c"], 0, 0);
    let scr = k.render(2, 10);
    assert_eq!(scr.rows, vec![chars_of("a"), chars_of("b")]);
}

#[test]
fn render_starts_at_scroll_offset() {
    let mut k = state(&["a", "b", "c"], 2, 0);
    k.row_offset = 1;
    let scr = k.render(5, 10);
    assert_eq!(scr.rows, vec![chars_of("b"), chars_of("c")]);
    assert_eq!(scr.cursor, Some((1, 0)));
}

#[test]
fn render_reports_no_cursor_when_scrolled_out() {
    let mut k = state(&["a", "b"], 0, 0);
    k.row_offset = 1;
    let scr = k.render(5, 10);
    assert_eq!(scr.rows, vec![chars_of("b")]);
    assert_eq!(scr.cursor, None);
}

#[test]
fn render_cursor_after_wide_char() {
    let k = state(&["\u{3042}x"], 0, 1);
    let scr = k.render(5, 10);
    assert_eq!(scr.rows, vec![chars_of("\u{3042}x")]);
    assert_eq!(scr.cursor, Some((0, 2)));
}

#[test]
fn handle_event_dispatches() {
    let mut k = state(&["ab"], 0, 0);
    assert_eq!(k.handle_event(KeyEvent::Char('x'), 24), EditorAction::Continue);
    assert_eq!(k.buffer, vec![chars_of("xab")]);
    assert_eq!(k.handle_event(KeyEvent::Right, 24), EditorAction::Continue);
    assert_eq!(k.cursor, Cursor { row: 0, column: 2 });
    assert_eq!(k.handle_event(KeyEvent::Backspace, 24), EditorAction::Continue);
    assert_eq!(k.buffer, vec![chars_of("xb")]);
}

#[test]
fn handle_event_quit_and_save_leave_state() {
    let mut k = state(&["ab"], 0, 1);
    assert_eq!(k.handle_event(KeyEvent::Quit, 24), EditorAction::Quit);
    assert_eq!(k.handle_event(KeyEvent::Save, 24), EditorAction::Save);
    assert_eq!(k.handle_event(KeyEvent::Other, 24), EditorAction::Continue);
    assert_eq!(k.buffer, vec![chars_of("ab")]);
    assert_eq!(k.cursor, Cursor { row: 0, column: 1 });
}
