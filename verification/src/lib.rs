//! Verified cores of a set of small desktop tools.
//!
//! The largest of them, [`spectrum`], is the analysis pipeline of a real-time
//! audio spectrum display: it cuts analysis windows out of capture buffers,
//! queues them for the display thread, turns the decibel readings of a
//! transformed window into unit-interval magnitudes, and keeps the smoothed
//! spectrum and the falling peak markers that the display shows.

pub mod editor;
pub mod organizer;
pub mod snippets;
pub mod spectrum;
pub mod text;
