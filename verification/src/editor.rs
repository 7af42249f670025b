//! Pieces of a text editor: its settings, its buffers with their undo
//! history, and the set of open buffers.

pub mod buffer;
pub mod config;
pub mod text_editor;
