//! Pieces of a file organiser: telling what kind of file a path names.

pub mod category;
pub mod file_operations;
