//! The constants an analyzer is built with.

use vstd::prelude::*;
use crate::spectrum::level::{Level, UNIT};

verus! {

/// A sound level in thousandths of a decibel.
pub type MilliDb = i32;

/// Milliseconds between two ticks of the display (about 60 per second).
pub const TICK_PERIOD_MS: u64 = 16;

/// Samples per analysis window of the stock configuration.
pub const WINDOW_SIZE: usize = 960;

/// Samples per second of the stock configuration.
pub const SAMPLE_RATE: u32 = 48_000;

/// Decibel floor of the stock configuration: -60 dB.
pub const MIN_DB: MilliDb = -60_000;

/// Decibel ceiling of the stock configuration: 0 dB.
pub const MAX_DB: MilliDb = 0;

/// Smoothing weight of the stock configuration: 0.2.
pub const SMOOTHING_FACTOR: Level = 200_000;

/// Peak decay step of the stock configuration: 0.05 per processed window.
pub const PEAK_DECAY_RATE: Level = 50_000;

/// What an analyzer is built with; it does not change afterwards.
#[derive(Clone, Copy, Debug)]
pub struct AnalyzerConfig {
    /// Samples per analysis window, N. The spectrum has N / 2 bins.
    pub window_size: usize,
    /// Samples per second, R.
    pub sample_rate: u32,
    /// Readings at or below this level show as 0.0.
    pub min_db: MilliDb,
    /// Readings at or above this level show as 1.0.
    pub max_db: MilliDb,
    /// Weight of a new window in the moving average, in (0, 1].
    pub smoothing: Level,
    /// How far a peak marker falls per processed window.
    pub peak_decay: Level,
}

/// The six constants describe an analyzer that can be built: a window of at
/// least two samples, a positive sample rate, a floor below the ceiling and
/// a smoothing weight in (0, 1]. Any decay step is allowed.
pub open spec fn valid_constants(
    window_size: usize,
    sample_rate: u32,
    min_db: MilliDb,
    max_db: MilliDb,
    smoothing: Level,
    peak_decay: Level,
) -> bool {
    &&& window_size >= 2
    &&& sample_rate > 0
    &&& min_db < max_db
    &&& 0 < smoothing <= UNIT
}

impl AnalyzerConfig {
    /// The configuration is one that `new` accepts.
    pub open spec fn wf(&self) -> bool {
        valid_constants(
            self.window_size,
            self.sample_rate,
            self.min_db,
            self.max_db,
            self.smoothing,
            self.peak_decay,
        )
    }

    /// Number of frequency bins of the spectrum: half the window size.
    pub open spec fn spec_bins(&self) -> usize {
        (self.window_size / 2) as usize
    }

    /// Builds a configuration, or `None` where the constants are not valid.
    pub fn new(
        window_size: usize,
        sample_rate: u32,
        min_db: MilliDb,
        max_db: MilliDb,
        smoothing: Level,
        peak_decay: Level,
    ) -> (config: Option<AnalyzerConfig>)
        ensures
            config.is_some() <==> valid_constants(
                window_size,
                sample_rate,
                min_db,
                max_db,
                smoothing,
                peak_decay,
            ),
            config matches Some(c) ==> c == (AnalyzerConfig {
                window_size,
                sample_rate,
                min_db,
                max_db,
                smoothing,
                peak_decay,
            }),
    {
        if window_size >= 2 && sample_rate > 0 && min_db < max_db && 0 < smoothing && smoothing
            <= UNIT {
            Some(AnalyzerConfig { window_size, sample_rate, min_db, max_db, smoothing, peak_decay })
        } else {
            None
        }
    }

    /// The stock configuration: 960 samples at 48 kHz, -60 dB to 0 dB,
    /// smoothing 0.2, decay 0.05.
    pub fn standard() -> (config: AnalyzerConfig)
        ensures
            config.wf(),
            config == (AnalyzerConfig {
                window_size: WINDOW_SIZE,
                sample_rate: SAMPLE_RATE,
                min_db: MIN_DB,
                max_db: MAX_DB,
                smoothing: SMOOTHING_FACTOR,
                peak_decay: PEAK_DECAY_RATE,
            }),
    {
        AnalyzerConfig {
            window_size: WINDOW_SIZE,
            sample_rate: SAMPLE_RATE,
            min_db: MIN_DB,
            max_db: MAX_DB,
            smoothing: SMOOTHING_FACTOR,
            peak_decay: PEAK_DECAY_RATE,
        }
    }

    /// Number of frequency bins of the spectrum: half the window size.
    #[verifier::when_used_as_spec(spec_bins)]
    pub fn bins(&self) -> (n: usize)
        ensures
            n == self.spec_bins(),
    {
        self.window_size / 2
    }
}

} // verus!
