//! The core of a modal terminal text editor: a text buffer addressed by
//! line and column, and the cursor and viewport logic that moves over it,
//! edits it, and keeps the cursor on screen.
pub mod buffer;
pub mod editor;
pub mod lines;
pub mod rope;
