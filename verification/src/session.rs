//! The editor session: maps normalized key events to editing operations
//! and tells the caller what to do next.

use vstd::prelude::*;
use crate::editor::Kiro;
use crate::editor::scroll_spec;
use crate::editor::cursor_up_spec;
use crate::editor::cursor_down_spec;
use crate::editor::cursor_left_spec;
use crate::editor::cursor_right_spec;
use crate::editor::insert_spec;
use crate::editor::back_space_spec;
use crate::editor::delete_spec;

verus! {

/// A normalized key event, as the platform layer decodes it.
#[derive(Clone, Copy, PartialEq, Eq, Structural, Debug)]
pub enum KeyEvent {
    Up,
    Down,
    Left,
    Right,
    Char(char),
    Backspace,
    Delete,
    Quit,
    Save,
    Other,
}

/// What the control loop must do after an event is handled.
#[derive(Clone, Copy, PartialEq, Eq, Structural, Debug)]
pub enum EditorAction {
    Continue,
    Quit,
    Save,
}

impl Kiro {
    /// Apply one key event to the editor state, given the viewport height
    /// `rows`. Quit and save requests leave the state untouched and are
    /// passed back as actions; unrecognized events are ignored.
    pub fn handle_event(&mut self, e: KeyEvent, rows: usize) -> (a: EditorAction)
        requires
            old(self)@.wf(),
        ensures
            final(self)@.wf(),
            match e {
                KeyEvent::Up => final(self)@ == scroll_spec(cursor_up_spec(old(self)@), rows as int)
                    && a == EditorAction::Continue,
                KeyEvent::Down => final(self)@ == scroll_spec(
                    cursor_down_spec(old(self)@),
                    rows as int,
                ) && a == EditorAction::Continue,
                KeyEvent::Left => final(self)@ == scroll_spec(
                    cursor_left_spec(old(self)@),
                    rows as int,
                ) && a == EditorAction::Continue,
                KeyEvent::Right => final(self)@ == scroll_spec(
                    cursor_right_spec(old(self)@),
                    rows as int,
                ) && a == EditorAction::Continue,
                KeyEvent::Char(c) => final(self)@ == insert_spec(old(self)@, c, rows as int) && a
                    == EditorAction::Continue,
                KeyEvent::Backspace => final(self)@ == back_space_spec(old(self)@) && a
                    == EditorAction::Continue,
                KeyEvent::Delete => final(self)@ == delete_spec(old(self)@) && a
                    == EditorAction::Continue,
                KeyEvent::Quit => final(self)@ == old(self)@ && a == EditorAction::Quit,
                KeyEvent::Save => final(self)@ == old(self)@ && a == EditorAction::Save,
                KeyEvent::Other => final(self)@ == old(self)@ && a == EditorAction::Continue,
            },
    {
        match e {
            KeyEvent::Up => {
                self.cursor_up(rows);
                EditorAction::Continue
            },
            KeyEvent::Down => {
                self.cursor_down(rows);
                EditorAction::Continue
            },
            KeyEvent::Left => {
                self.cursor_left(rows);
                EditorAction::Continue
            },
            KeyEvent::Right => {
                self.cursor_right(rows);
                EditorAction::Continue
            },
            KeyEvent::Char(c) => {
                self.insert(c, rows);
                EditorAction::Continue
            },
            KeyEvent::Backspace => {
                self.back_space();
                EditorAction::Continue
            },
            KeyEvent::Delete => {
                self.delete();
                EditorAction::Continue
            },
            KeyEvent::Quit => EditorAction::Quit,
            KeyEvent::Save => EditorAction::Save,
            KeyEvent::Other => EditorAction::Continue,
        }
    }
}

} // verus!
