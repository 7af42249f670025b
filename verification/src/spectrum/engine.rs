//! The temporal state engine: exponential smoothing of the magnitude
//! spectrum and per-bin peak hold with linear decay.
//!
//! Both arrays are updated once per processed window. A bin of the spectrum
//! moves from its current value toward the raw value of the new window by
//! the smoothing weight; a peak marker jumps up to the smoothed value at
//! once and otherwise falls by the decay step, but never below it.

use vstd::prelude::*;
use crate::spectrum::level::{
    Level,
    UNIT,
    all_levels,
    div_round,
    lemma_div_round_bounds,
    rounded_quotient,
};

verus! {

/// The moving average after one more window:
/// `alpha * raw + (1 - alpha) * current`, rounded to the nearest level.
pub open spec fn smoothed(alpha: int, raw: int, current: int) -> int {
    div_round(alpha * raw + (UNIT - alpha) * current, UNIT as int)
}

/// The peak marker after one more window, given the smoothed level of that
/// window: a level above the marker takes its place; otherwise the marker
/// falls by `decay`, stopping at the level.
pub open spec fn peak_after(peak: int, level: int, decay: int) -> int {
    if level > peak {
        level
    } else if peak - decay > level {
        peak - decay
    } else {
        level
    }
}

/// The two arrays that persist between windows, as mathematical sequences.
pub struct FrameState {
    /// Smoothed magnitude per bin.
    pub spectrum: Seq<u32>,
    /// Peak marker per bin.
    pub peaks: Seq<u32>,
}

impl FrameState {
    /// Both arrays have `bins` entries and every entry is a level.
    pub open spec fn wf(self, bins: nat) -> bool {
        &&& self.spectrum.len() == bins
        &&& self.peaks.len() == bins
        &&& all_levels(self.spectrum)
        &&& all_levels(self.peaks)
    }

    /// The state of a new analyzer: every bin at zero.
    pub open spec fn silent(bins: nat) -> FrameState {
        FrameState { spectrum: Seq::new(bins, |i: int| 0u32), peaks: Seq::new(bins, |i: int| 0u32) }
    }

    /// The state after the raw spectrum of one more window has been taken
    /// in: each bin smoothed, then each peak updated against the smoothed
    /// value.
    pub open spec fn after(self, raw: Seq<u32>, alpha: Level, decay: Level) -> FrameState {
        let spectrum = Seq::new(
            self.spectrum.len(),
            |i: int| smoothed(alpha as int, raw[i] as int, self.spectrum[i] as int) as u32,
        );
        FrameState {
            spectrum,
            peaks: Seq::new(
                self.peaks.len(),
                |i: int| peak_after(self.peaks[i] as int, spectrum[i] as int, decay as int) as u32,
            ),
        }
    }

    /// The state after `n` more windows that all have the same raw
    /// spectrum.
    pub open spec fn after_times(self, raw: Seq<u32>, alpha: Level, decay: Level, n: nat)
        -> FrameState
        decreases n,
    {
        if n == 0 {
            self
        } else {
            self.after_times(raw, alpha, decay, (n - 1) as nat).after(raw, alpha, decay)
        }
    }
}

/// A smoothed value lies between the current and the raw value.
pub proof fn lemma_smoothed_between(alpha: int, raw: int, current: int)
    requires
        0 <= alpha <= UNIT,
    ensures
        current <= raw ==> current <= smoothed(alpha, raw, current) <= raw,
        raw <= current ==> raw <= smoothed(alpha, raw, current) <= current,
{
    let v = alpha * raw + (UNIT - alpha) * current;
    let u = UNIT as int;
    if current <= raw {
        assert(current * u <= v <= raw * u) by (nonlinear_arith)
            requires
                v == alpha * raw + (u - alpha) * current,
                0 <= alpha <= u,
                current <= raw,
        ;
        lemma_div_round_bounds(v, u, current, raw);
    }
    if raw <= current {
        assert(raw * u <= v <= current * u) by (nonlinear_arith)
            requires
                v == alpha * raw + (u - alpha) * current,
                0 <= alpha <= u,
                raw <= current,
        ;
        lemma_div_round_bounds(v, u, raw, current);
    }
}

/// The arrays keep their shape over a window: as many entries as before,
/// every one of them a level.
pub proof fn lemma_after_keeps_shape(state: FrameState, raw: Seq<u32>, alpha: Level, decay: Level)
    requires
        state.wf(raw.len()),
        all_levels(raw),
        alpha <= UNIT,
    ensures
        state.after(raw, alpha, decay).wf(raw.len()),
{
    let next = state.after(raw, alpha, decay);
    assert forall|i: int| 0 <= i < next.spectrum.len() implies #[trigger] next.spectrum[i]
        <= UNIT by {
        lemma_smoothed_between(alpha as int, raw[i] as int, state.spectrum[i] as int);
    }
    assert forall|i: int| 0 <= i < next.peaks.len() implies #[trigger] next.peaks[i] <= UNIT by {
        assert(next.spectrum[i] <= UNIT);
        assert(state.peaks[i] <= UNIT);
    }
}

/// One bin of the moving average.
pub fn smooth(alpha: Level, raw: Level, current: Level) -> (next: Level)
    requires
        alpha <= UNIT,
        raw <= UNIT,
        current <= UNIT,
    ensures
        next == smoothed(alpha as int, raw as int, current as int),
        next <= UNIT,
{
    let a: u64 = alpha as u64;
    let r: u64 = raw as u64;
    let c: u64 = current as u64;
    let u: u64 = UNIT as u64;
    assert(a * r <= 1_000_000 * 1_000_000 && (u - a) * c <= 1_000_000 * 1_000_000)
        by (nonlinear_arith)
        requires
            0 <= a <= 1_000_000,
            0 <= r <= 1_000_000,
            0 <= c <= 1_000_000,
            u == 1_000_000,
    ;
    let weighted: u64 = a * r + (u - a) * c;
    let q: u64 = rounded_quotient(weighted, u);
    proof {
        lemma_smoothed_between(alpha as int, raw as int, current as int);
    }
    q as u32
}

/// One marker of the peak hold.
pub fn hold_peak(peak: Level, level: Level, decay: Level) -> (next: Level)
    ensures
        next == peak_after(peak as int, level as int, decay as int),
        level <= next,
        next <= peak || next == level,
{
    if level > peak {
        level
    } else {
        let fallen: u32 = if peak >= decay {
            peak - decay
        } else {
            0
        };
        if fallen > level {
            fallen
        } else {
            level
        }
    }
}

/// The smoothed spectrum and the peak markers of one analyzer.
pub struct TemporalState {
    spectrum: Vec<Level>,
    peaks: Vec<Level>,
}

impl View for TemporalState {
    type V = FrameState;

    closed spec fn view(&self) -> FrameState {
        FrameState { spectrum: self.spectrum@, peaks: self.peaks@ }
    }
}

impl TemporalState {
    /// The state holds `bins` bins and every value is a level.
    pub open spec fn wf(&self, bins: nat) -> bool {
        self@.wf(bins)
    }

    /// A state of `bins` bins, all at zero.
    pub fn new(bins: usize) -> (state: TemporalState)
        ensures
            state@ == FrameState::silent(bins as nat),
            state.wf(bins as nat),
    {
        let mut spectrum: Vec<Level> = Vec::new();
        let mut peaks: Vec<Level> = Vec::new();
        let mut i: usize = 0;
        while i < bins
            invariant
                i <= bins,
                spectrum.len() == i,
                peaks.len() == i,
                forall|j: int| 0 <= j < i ==> spectrum[j] == 0,
                forall|j: int| 0 <= j < i ==> peaks[j] == 0,
            decreases bins - i,
        {
            spectrum.push(0);
            peaks.push(0);
            i += 1;
        }
        let state = TemporalState { spectrum, peaks };
        assert(state@.spectrum =~= FrameState::silent(bins as nat).spectrum);
        assert(state@.peaks =~= FrameState::silent(bins as nat).peaks);
        state
    }

    /// Takes in the raw spectrum of one more window: smooths every bin,
    /// then updates every peak marker against the smoothed value.
    pub fn update(&mut self, raw: &Vec<Level>, alpha: Level, decay: Level)
        requires
            old(self).wf(raw.len() as nat),
            all_levels(raw@),
            alpha <= UNIT,
        ensures
            final(self)@ == old(self)@.after(raw@, alpha, decay),
            final(self).wf(raw.len() as nat),
    {
        let n = raw.len();
        let mut i: usize = 0;
        while i < n
            invariant
                i <= n,
                n == raw.len(),
                alpha <= UNIT,
                all_levels(raw@),
                self.spectrum.len() == n,
                self.peaks.len() == n,
                old(self).spectrum.len() == n,
                old(self).peaks.len() == n,
                all_levels(self.spectrum@),
                all_levels(self.peaks@),
                forall|j: int|
                    0 <= j < i ==> self.spectrum[j] == smoothed(
                        alpha as int,
                        raw[j] as int,
                        old(self).spectrum[j] as int,
                    ),
                forall|j: int|
                    0 <= j < i ==> self.peaks[j] == peak_after(
                        old(self).peaks[j] as int,
                        self.spectrum[j] as int,
                        decay as int,
                    ),
                forall|j: int| i <= j < n ==> self.spectrum[j] == old(self).spectrum[j],
                forall|j: int| i <= j < n ==> self.peaks[j] == old(self).peaks[j],
            decreases n - i,
        {
            let level = smooth(alpha, raw[i], self.spectrum[i]);
            let peak = hold_peak(self.peaks[i], level, decay);
            self.spectrum.set(i, level);
            self.peaks.set(i, peak);
            i += 1;
        }
        assert(self@.spectrum =~= old(self)@.after(raw@, alpha, decay).spectrum);
        assert(self@.peaks =~= old(self)@.after(raw@, alpha, decay).peaks);
    }

    /// Number of bins.
    pub fn bins(&self) -> (n: usize)
        ensures
            n == self@.spectrum.len(),
    {
        self.spectrum.len()
    }

    /// A copy of the smoothed spectrum, one level per bin.
    pub fn spectrum(&self) -> (copy: Vec<Level>)
        ensures
            copy@ == self@.spectrum,
    {
        self.spectrum.clone()
    }

    /// A copy of the peak markers, one level per bin.
    pub fn peaks(&self) -> (copy: Vec<Level>)
        ensures
            copy@ == self@.peaks,
    {
        self.peaks.clone()
    }
}

} // verus!
