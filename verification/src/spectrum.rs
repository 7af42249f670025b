//! The analysis pipeline of a real-time audio spectrum display.
//!
//! Samples travel through this module untouched: a capture buffer is cut to
//! an analysis window ([`window`]), queued ([`transport`]) and handed out
//! again on the next tick. The window function, the Fourier transform and the
//! logarithm are floating-point work and are done by the caller; what comes
//! back is one decibel reading per transform bin, in thousandths of a
//! decibel. From there on everything is integer arithmetic that is proved
//! here: normalisation and clamping ([`transform`]), exponential smoothing
//! and peak hold ([`engine`]), and the per-tick fold over the backlog
//! ([`analyzer`]).

pub mod level;
pub mod config;
pub mod engine;
pub mod engine_laws;
pub mod transform;
pub mod transport;
pub mod window;
pub mod analyzer;
