//! A vi-compatible text editor core: modes, buffer model, editing
//! operations, undo history and file encoding helpers.

pub mod buffer;
pub mod command;
pub mod editor;
pub mod error;
pub mod file;
pub mod mode;
pub mod registers;
pub mod render;
pub mod settings;
pub mod terminal;
pub mod undo;
pub mod text;

pub use mode::{Mode, Operator, VisualKind};
