//! Core of a small terminal text editor: a line buffer with a cursor,
//! editing operations, vertical scrolling, and a display-width-aware
//! renderer that produces an abstract screen image.

pub mod chars;
pub mod editor;
pub mod render;
pub mod session;
pub mod text;
