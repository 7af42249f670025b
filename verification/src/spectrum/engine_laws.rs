//! What holds of the temporal state engine over time: how the smoothed
//! spectrum behaves under a constant input, and how the peak markers rise
//! and fall.

use vstd::prelude::*;
use crate::spectrum::engine::{
    FrameState,
    lemma_after_keeps_shape,
    lemma_smoothed_between,
    peak_after,
    smoothed,
};
use crate::spectrum::level::{
    Level,
    UNIT,
    all_levels,
    lemma_div_round_exact,
    lemma_div_round_range,
};

verus! {

/// How far two levels are apart.
pub open spec fn distance(a: int, b: int) -> int {
    if a >= b {
        a - b
    } else {
        b - a
    }
}

/// The moving average of one bin after `n` more windows that all have the
/// same raw value.
pub open spec fn smoothed_times(alpha: int, raw: int, start: int, n: nat) -> int
    decreases n,
{
    if n == 0 {
        start
    } else {
        smoothed(alpha, raw, smoothed_times(alpha, raw, start, (n - 1) as nat))
    }
}

/// Steady state: a bin that has reached the raw value stays there.
pub proof fn lemma_smoothing_steady(alpha: int, level: int)
    ensures
        smoothed(alpha, level, level) == level,
{
    assert(alpha * level + (UNIT - alpha) * level == level * UNIT) by (nonlinear_arith);
    lemma_div_round_exact(level, UNIT as int);
}

/// A step of the moving average never moves a bin away from the raw
/// value.
pub proof fn lemma_smoothing_approaches(alpha: int, raw: int, current: int)
    requires
        0 <= alpha <= UNIT,
    ensures
        distance(raw, smoothed(alpha, raw, current)) <= distance(raw, current),
{
    lemma_smoothed_between(alpha, raw, current);
}

/// While a bin is further from the raw value than rounding can hide, which
/// is `1 / (2 * alpha)`, a step brings it strictly closer.
pub proof fn lemma_smoothing_progress(alpha: int, raw: int, current: int)
    requires
        0 <= alpha <= UNIT,
        2 * alpha * distance(raw, current) > UNIT,
    ensures
        distance(raw, smoothed(alpha, raw, current)) < distance(raw, current),
{
    let u = UNIT as int;
    let v = alpha * raw + (u - alpha) * current;
    let q = smoothed(alpha, raw, current);
    let d = distance(raw, current);
    lemma_div_round_range(v, u);
    lemma_smoothed_between(alpha, raw, current);
    if current < raw {
        assert(q >= current + 1) by (nonlinear_arith)
            requires
                2 * v + u < 2 * u * q + 2 * u,
                v == alpha * raw + (u - alpha) * current,
                d == raw - current,
                2 * alpha * d > u,
                u > 0,
        ;
    } else {
        assert(q <= current - 1) by (nonlinear_arith)
            requires
                2 * u * q <= 2 * v + u,
                v == alpha * raw + (u - alpha) * current,
                d == current - raw,
                2 * alpha * d > u,
                u > 0,
        ;
    }
}

/// Under a constant raw value a bin approaches it step by step without
/// ever crossing it.
pub proof fn lemma_smoothing_monotone(alpha: int, raw: int, start: int, n: nat)
    requires
        0 <= alpha <= UNIT,
    ensures
        distance(raw, smoothed_times(alpha, raw, start, n + 1)) <= distance(
            raw,
            smoothed_times(alpha, raw, start, n),
        ),
        start <= raw ==> start <= smoothed_times(alpha, raw, start, n) <= smoothed_times(
            alpha,
            raw,
            start,
            n + 1,
        ) <= raw,
        raw <= start ==> raw <= smoothed_times(alpha, raw, start, n + 1) <= smoothed_times(
            alpha,
            raw,
            start,
            n,
        ) <= start,
    decreases n,
{
    if n > 0 {
        lemma_smoothing_monotone(alpha, raw, start, (n - 1) as nat);
    }
    lemma_smoothed_between(alpha, raw, smoothed_times(alpha, raw, start, n));
}

/// Under a constant raw value a bin converges: after as many windows as
/// it started levels away, and from then on, it is within rounding of the
/// raw value.
pub proof fn lemma_smoothing_converges(alpha: int, raw: int, start: int, n: nat)
    requires
        0 <= alpha <= UNIT,
        n >= distance(raw, start),
    ensures
        2 * alpha * distance(raw, smoothed_times(alpha, raw, start, n)) <= UNIT,
{
    lemma_smoothing_closes_in(alpha, raw, start, n);
    let d = distance(raw, smoothed_times(alpha, raw, start, n));
    if d <= distance(raw, start) - n {
        assert(d == 0);
        assert(2 * alpha * d == 0) by (nonlinear_arith)
            requires
                d == 0,
        ;
    }
}

/// After `n` windows a bin is within rounding of a constant raw value, or
/// at least `n` levels closer to it than at the start.
proof fn lemma_smoothing_closes_in(alpha: int, raw: int, start: int, n: nat)
    requires
        0 <= alpha <= UNIT,
    ensures
        2 * alpha * distance(raw, smoothed_times(alpha, raw, start, n)) <= UNIT || distance(
            raw,
            smoothed_times(alpha, raw, start, n),
        ) <= distance(raw, start) - n,
    decreases n,
{
    if n > 0 {
        let before = smoothed_times(alpha, raw, start, (n - 1) as nat);
        let now = smoothed_times(alpha, raw, start, n);
        lemma_smoothing_closes_in(alpha, raw, start, (n - 1) as nat);
        lemma_smoothing_approaches(alpha, raw, before);
        if 2 * alpha * distance(raw, before) > UNIT {
            lemma_smoothing_progress(alpha, raw, before);
        } else {
            assert(2 * alpha * distance(raw, now) <= UNIT) by (nonlinear_arith)
                requires
                    2 * alpha * distance(raw, before) <= UNIT,
                    0 <= distance(raw, now) <= distance(raw, before),
                    0 <= alpha,
            ;
        }
    }
}

/// Steady state over any number of windows: a bin at the raw value stays
/// there.
pub proof fn lemma_smoothing_stays(alpha: int, level: int, n: nat)
    ensures
        smoothed_times(alpha, level, level, n) == level,
    decreases n,
{
    if n > 0 {
        lemma_smoothing_stays(alpha, level, (n - 1) as nat);
        lemma_smoothing_steady(alpha, level);
    }
}

/// Decay: whatever the marker and the level are, the marker after a window
/// is the larger of the marker lowered by the decay step and the smoothed
/// level of that window.
pub proof fn lemma_peak_decay(peak: int, level: int, decay: int)
    requires
        decay >= 0,
    ensures
        peak_after(peak, level, decay) == vstd::math::max(peak - decay, level),
        level <= peak ==> peak_after(peak, level, decay) <= peak,
{
}

/// Instant rise: a level above the marker becomes the marker.
pub proof fn lemma_peak_rise(peak: int, level: int, decay: int)
    requires
        level > peak,
    ensures
        peak_after(peak, level, decay) == level,
{
}

/// A marker is never below the level it tracks.
pub proof fn lemma_peak_covers(peak: int, level: int, decay: int)
    ensures
        peak_after(peak, level, decay) >= level,
{
}

/// The peak law for a whole window, bin by bin: the marker of a bin is the
/// larger of its old value lowered by the decay step and the new smoothed
/// level of the bin. So it equals that level where the level has risen
/// above the old marker, it never lies below that level, and it does not
/// rise where the level has not risen above it.
pub proof fn lemma_after_peaks(
    state: FrameState,
    raw: Seq<u32>,
    alpha: Level,
    decay: Level,
    bin: int,
)
    requires
        state.wf(raw.len()),
        all_levels(raw),
        alpha <= UNIT,
        0 <= bin < raw.len(),
    ensures
        ({
            let next = state.after(raw, alpha, decay);
            &&& next.peaks[bin] == vstd::math::max(
                state.peaks[bin] - decay,
                next.spectrum[bin] as int,
            )
            &&& next.spectrum[bin] > state.peaks[bin] ==> next.peaks[bin] == next.spectrum[bin]
            &&& next.peaks[bin] >= next.spectrum[bin]
            &&& next.spectrum[bin] <= state.peaks[bin] ==> next.peaks[bin] <= state.peaks[bin]
        }),
{
    lemma_after_keeps_shape(state, raw, alpha, decay);
    let next = state.after(raw, alpha, decay);
    assert(next.spectrum[bin] <= UNIT);
    assert(state.peaks[bin] <= UNIT);
}

/// Steady state for a whole window: where the raw spectrum equals the
/// smoothed one, the smoothed one stays as it is.
pub proof fn lemma_after_steady(state: FrameState, alpha: Level, decay: Level)
    requires
        state.wf(state.spectrum.len()),
    ensures
        state.after(state.spectrum, alpha, decay).spectrum == state.spectrum,
{
    let next = state.after(state.spectrum, alpha, decay);
    assert forall|i: int| 0 <= i < next.spectrum.len() implies next.spectrum[i]
        == state.spectrum[i] by {
        lemma_smoothing_steady(alpha as int, state.spectrum[i] as int);
    }
    assert(next.spectrum =~= state.spectrum);
}

/// Under a constant raw spectrum every bin of the smoothed spectrum follows
/// `smoothed_times`, and the arrays keep their shape.
pub proof fn lemma_after_times_bin(
    state: FrameState,
    raw: Seq<u32>,
    alpha: Level,
    decay: Level,
    n: nat,
    bin: int,
)
    requires
        state.wf(raw.len()),
        all_levels(raw),
        alpha <= UNIT,
        0 <= bin < raw.len(),
    ensures
        state.after_times(raw, alpha, decay, n).wf(raw.len()),
        state.after_times(raw, alpha, decay, n).spectrum[bin] == smoothed_times(
            alpha as int,
            raw[bin] as int,
            state.spectrum[bin] as int,
            n,
        ),
    decreases n,
{
    if n > 0 {
        let before = state.after_times(raw, alpha, decay, (n - 1) as nat);
        lemma_after_times_bin(state, raw, alpha, decay, (n - 1) as nat, bin);
        lemma_after_keeps_shape(before, raw, alpha, decay);
        lemma_smoothed_between(alpha as int, raw[bin] as int, before.spectrum[bin] as int);
    }
}

/// Convergence under a constant raw spectrum: window after window every
/// bin of the smoothed spectrum comes closer to its raw value or stays,
/// never crossing it; after as many windows as the bin started levels
/// away it is within rounding of the raw value, which is `1 / (2 * alpha)`
/// levels; and a bin that starts at the raw value never leaves it.
pub proof fn lemma_constant_input_converges(
    state: FrameState,
    raw: Seq<u32>,
    alpha: Level,
    decay: Level,
    n: nat,
    bin: int,
)
    requires
        state.wf(raw.len()),
        all_levels(raw),
        alpha <= UNIT,
        0 <= bin < raw.len(),
    ensures
        ({
            let now = state.after_times(raw, alpha, decay, n).spectrum[bin];
            let next = state.after_times(raw, alpha, decay, n + 1).spectrum[bin];
            let start = state.spectrum[bin];
            let goal = raw[bin];
            &&& distance(goal as int, next as int) <= distance(goal as int, now as int)
            &&& start <= goal ==> start <= now <= next <= goal
            &&& goal <= start ==> goal <= next <= now <= start
            &&& start == goal ==> now == goal
            &&& n >= distance(goal as int, start as int) ==> 2 * alpha * distance(
                goal as int,
                now as int,
            ) <= UNIT
        }),
{
    let a = alpha as int;
    let goal = raw[bin] as int;
    let start = state.spectrum[bin] as int;
    lemma_after_times_bin(state, raw, alpha, decay, n, bin);
    lemma_after_times_bin(state, raw, alpha, decay, n + 1, bin);
    lemma_smoothing_monotone(a, goal, start, n);
    if start == goal {
        lemma_smoothing_stays(a, goal, n);
    }
    if n >= distance(goal, start) {
        lemma_smoothing_converges(a, goal, start, n);
    }
}

/// A silent analyzer stays silent over a window of zeros.
pub proof fn lemma_after_silence(bins: nat, alpha: Level, decay: Level)
    ensures
        FrameState::silent(bins).after(Seq::new(bins, |i: int| 0u32), alpha, decay)
            == FrameState::silent(bins),
{
    let silent = FrameState::silent(bins);
    let next = silent.after(Seq::new(bins, |i: int| 0u32), alpha, decay);
    assert forall|i: int| 0 <= i < bins implies next.spectrum[i] == 0 by {
        lemma_smoothing_steady(alpha as int, 0);
    }
    assert(next.spectrum =~= silent.spectrum);
    assert(next.peaks =~= silent.peaks);
}

} // verus!
