//! Core of a command-driven terminal text editor: line-reader state machine
//! with history and completion, text buffer with bounded undo/redo, range
//! parsing, and the pure parts of atomic save and autosave recovery naming.

pub mod hash;
pub mod text;
pub mod range;
pub mod buffer;
pub mod undo;
pub mod reader;
pub mod complete;
pub mod session;
pub mod term;
pub mod theme;
pub mod persist;
pub mod editor;
