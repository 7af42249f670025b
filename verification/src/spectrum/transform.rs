//! The integer tail of the spectral transform: from decibel readings to
//! unit-interval magnitudes.
//!
//! A window of N samples transforms to N bins, of which the upper half
//! mirrors the lower for real input. Only the first N / 2 readings are
//! used. Each is mapped linearly from the decibel range of the
//! configuration onto the unit interval and clamped: readings at or below
//! the floor show as 0.0, readings at or above the ceiling as 1.0.

use vstd::prelude::*;
use crate::spectrum::config::{AnalyzerConfig, MilliDb};
use crate::spectrum::level::{
    Level,
    UNIT,
    all_levels,
    div_round,
    lemma_div_round_bounds,
    lemma_div_round_monotone,
    rounded_quotient,
};

verus! {

/// The magnitude that a decibel reading shows as:
/// `(db - min_db) / (max_db - min_db)` clamped to the unit interval and
/// rounded to the nearest level.
pub open spec fn normalized(db: int, min_db: int, max_db: int) -> int {
    if db <= min_db {
        0
    } else if db >= max_db {
        UNIT as int
    } else {
        div_round((db - min_db) * UNIT, max_db - min_db)
    }
}

/// The raw spectrum of a window: the first half of its decibel readings,
/// each normalised.
pub open spec fn raw_spectrum_of(decibels: Seq<MilliDb>, min_db: MilliDb, max_db: MilliDb) -> Seq<
    Level,
> {
    Seq::new(
        (decibels.len() / 2) as nat,
        |i: int| normalized(decibels[i] as int, min_db as int, max_db as int) as Level,
    )
}

/// Every normalised reading is a level.
pub proof fn lemma_normalized_is_level(db: int, min_db: int, max_db: int)
    requires
        min_db < max_db,
    ensures
        0 <= normalized(db, min_db, max_db) <= UNIT,
{
    if min_db < db < max_db {
        let span = max_db - min_db;
        let above = db - min_db;
        assert(0 * span <= above * UNIT <= UNIT * span) by (nonlinear_arith)
            requires
                0 < above < span,
        ;
        lemma_div_round_bounds(above * UNIT, span, 0, UNIT as int);
    }
}

/// A louder reading never shows as a smaller magnitude.
pub proof fn lemma_normalized_monotone(quiet: int, loud: int, min_db: int, max_db: int)
    requires
        min_db < max_db,
        quiet <= loud,
    ensures
        normalized(quiet, min_db, max_db) <= normalized(loud, min_db, max_db),
{
    lemma_normalized_is_level(quiet, min_db, max_db);
    lemma_normalized_is_level(loud, min_db, max_db);
    if min_db < quiet && loud < max_db {
        assert((quiet - min_db) * UNIT <= (loud - min_db) * UNIT) by (nonlinear_arith)
            requires
                quiet <= loud,
        ;
        lemma_div_round_monotone(
            (quiet - min_db) * UNIT,
            (loud - min_db) * UNIT,
            max_db - min_db,
        );
    }
}

/// Shape of a raw spectrum: half as many values as there are readings,
/// each of them a level, whatever the readings are.
pub proof fn lemma_raw_spectrum_shape(decibels: Seq<MilliDb>, min_db: MilliDb, max_db: MilliDb)
    requires
        min_db < max_db,
    ensures
        raw_spectrum_of(decibels, min_db, max_db).len() == decibels.len() / 2,
        all_levels(raw_spectrum_of(decibels, min_db, max_db)),
{
    let raw = raw_spectrum_of(decibels, min_db, max_db);
    assert forall|i: int| 0 <= i < raw.len() implies #[trigger] raw[i] <= UNIT by {
        lemma_normalized_is_level(decibels[i] as int, min_db as int, max_db as int);
    }
}

/// Silence: a window whose readings are all at or below the floor has a
/// raw spectrum of zeros.
pub proof fn lemma_raw_spectrum_of_silence(
    decibels: Seq<MilliDb>,
    min_db: MilliDb,
    max_db: MilliDb,
)
    requires
        forall|i: int| 0 <= i < decibels.len() ==> decibels[i] <= min_db,
    ensures
        raw_spectrum_of(decibels, min_db, max_db) == Seq::new(
            (decibels.len() / 2) as nat,
            |i: int| 0u32,
        ),
{
    assert(raw_spectrum_of(decibels, min_db, max_db) =~= Seq::new(
        (decibels.len() / 2) as nat,
        |i: int| 0u32,
    ));
}

/// Normalises one decibel reading.
pub fn normalize(db: MilliDb, min_db: MilliDb, max_db: MilliDb) -> (level: Level)
    requires
        min_db < max_db,
    ensures
        level == normalized(db as int, min_db as int, max_db as int),
        level <= UNIT,
        db <= min_db ==> level == 0,
        db >= max_db ==> level == UNIT,
{
    proof {
        lemma_normalized_is_level(db as int, min_db as int, max_db as int);
    }
    if db <= min_db {
        0
    } else if db >= max_db {
        UNIT
    } else {
        let span: u64 = (max_db as i64 - min_db as i64) as u64;
        let above: u64 = (db as i64 - min_db as i64) as u64;
        assert(above * 1_000_000 <= 0x1_0000_0000 * 1_000_000) by (nonlinear_arith)
            requires
                above <= 0x1_0000_0000,
        ;
        let q: u64 = rounded_quotient(above * (UNIT as u64), span);
        q as u32
    }
}

/// Computes the raw spectrum of one window from the decibel readings of
/// its transform, one reading per transform bin.
pub fn raw_spectrum(config: &AnalyzerConfig, decibels: &Vec<MilliDb>) -> (raw: Vec<Level>)
    requires
        config.wf(),
        decibels.len() == config.window_size,
    ensures
        raw@ == raw_spectrum_of(decibels@, config.min_db, config.max_db),
        raw.len() == config.bins(),
        all_levels(raw@),
{
    let bins = config.bins();
    let mut raw: Vec<Level> = Vec::new();
    let mut i: usize = 0;
    while i < bins
        invariant
            i <= bins,
            bins == decibels.len() / 2,
            config.min_db < config.max_db,
            raw.len() == i,
            forall|j: int|
                0 <= j < i ==> raw[j] == normalized(
                    decibels[j] as int,
                    config.min_db as int,
                    config.max_db as int,
                ),
            forall|j: int| 0 <= j < i ==> #[trigger] raw[j] <= UNIT,
        decreases bins - i,
    {
        raw.push(normalize(decibels[i], config.min_db, config.max_db));
        i += 1;
    }
    assert(raw@ =~= raw_spectrum_of(decibels@, config.min_db, config.max_db));
    raw
}

} // verus!
