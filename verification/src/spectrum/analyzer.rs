//! The analyzer and its tick.
//!
//! An analyzer owns the smoothed spectrum, the peak markers and a frame
//! counter. On every tick it is handed the backlog: the decibel readings
//! of every window that arrived since the last tick, oldest first. It takes
//! them in one after the other, each through normalisation, smoothing and
//! peak hold, then counts the frame once and tells the caller to redraw.
//! A tick with an empty backlog does nothing at all: spectrum, peaks and
//! frame counter stay as they are and nothing needs redrawing.

use vstd::prelude::*;
use crate::spectrum::config::{AnalyzerConfig, MilliDb};
use crate::spectrum::engine::{FrameState, TemporalState, lemma_after_keeps_shape};
use crate::spectrum::engine_laws::lemma_after_silence;
use crate::spectrum::level::Level;
use crate::spectrum::transport::{TransportView, lemma_sent_in_order};
use crate::spectrum::transform::{
    lemma_raw_spectrum_of_silence,
    lemma_raw_spectrum_shape,
    raw_spectrum,
    raw_spectrum_of,
};

verus! {

/// The arrays after one more window with these decibel readings.
pub open spec fn after_window(
    state: FrameState,
    config: AnalyzerConfig,
    decibels: Seq<MilliDb>,
) -> FrameState {
    state.after(
        raw_spectrum_of(decibels, config.min_db, config.max_db),
        config.smoothing,
        config.peak_decay,
    )
}

/// The arrays after a backlog of windows was taken in, oldest first.
pub open spec fn after_windows(
    state: FrameState,
    config: AnalyzerConfig,
    backlog: Seq<Seq<MilliDb>>,
) -> FrameState
    decreases backlog.len(),
{
    if backlog.len() == 0 {
        state
    } else {
        after_window(after_windows(state, config, backlog.drop_last()), config, backlog.last())
    }
}

/// Every entry of the backlog has one reading per transform bin.
pub open spec fn backlog_fits(config: AnalyzerConfig, backlog: Seq<Seq<MilliDb>>) -> bool {
    forall|i: int| 0 <= i < backlog.len() ==> (#[trigger] backlog[i]).len() == config.window_size
}

/// Taking in a backlog of one window is taking in that window.
pub proof fn lemma_backlog_of_one(state: FrameState, config: AnalyzerConfig, decibels: Seq<MilliDb>)
    ensures
        after_windows(state, config, seq![decibels]) == after_window(state, config, decibels),
{
    let one = seq![decibels];
    assert(one.drop_last() =~= Seq::<Seq<MilliDb>>::empty());
    assert(one.last() == decibels);
    assert(after_windows(state, config, one.drop_last()) == state);
}

/// Order of processing: taking in a backlog in one tick leaves the arrays
/// as taking in its older part first and its newer part afterwards does.
/// So the windows of a backlog are processed one by one, oldest first,
/// and none is skipped, however many ticks they are spread over.
pub proof fn lemma_backlog_in_order(
    state: FrameState,
    config: AnalyzerConfig,
    older: Seq<Seq<MilliDb>>,
    newer: Seq<Seq<MilliDb>>,
)
    ensures
        after_windows(state, config, older + newer) == after_windows(
            after_windows(state, config, older),
            config,
            newer,
        ),
    decreases newer.len(),
{
    if newer.len() == 0 {
        assert(older + newer =~= older);
    } else {
        lemma_backlog_in_order(state, config, older, newer.drop_last());
        assert((older + newer).drop_last() =~= older + newer.drop_last());
        assert((older + newer).last() == newer.last());
    }
}

/// The arrays keep their shape: after any backlog that fits the
/// configuration both still have one entry per bin and every entry is
/// still a level.
pub proof fn lemma_backlog_keeps_shape(
    state: FrameState,
    config: AnalyzerConfig,
    backlog: Seq<Seq<MilliDb>>,
)
    requires
        config.wf(),
        state.wf(config.bins() as nat),
        backlog_fits(config, backlog),
    ensures
        after_windows(state, config, backlog).wf(config.bins() as nat),
    decreases backlog.len(),
{
    if backlog.len() > 0 {
        let before = after_windows(state, config, backlog.drop_last());
        assert(backlog_fits(config, backlog.drop_last())) by {
            assert forall|i: int| 0 <= i < backlog.drop_last().len() implies (
            #[trigger] backlog.drop_last()[i]).len() == config.window_size by {
                assert(backlog.drop_last()[i] == backlog[i]);
            }
        }
        lemma_backlog_keeps_shape(state, config, backlog.drop_last());
        let raw = raw_spectrum_of(backlog.last(), config.min_db, config.max_db);
        lemma_raw_spectrum_shape(backlog.last(), config.min_db, config.max_db);
        lemma_after_keeps_shape(before, raw, config.smoothing, config.peak_decay);
    }
}

/// Silence: a window whose readings are all at or below the floor leaves
/// a silent analyzer silent, spectrum and peaks alike.
pub proof fn lemma_silent_window(config: AnalyzerConfig, decibels: Seq<MilliDb>)
    requires
        decibels.len() == config.window_size,
        forall|i: int| 0 <= i < decibels.len() ==> decibels[i] <= config.min_db,
    ensures
        after_window(FrameState::silent(config.bins() as nat), config, decibels)
            == FrameState::silent(config.bins() as nat),
{
    lemma_raw_spectrum_of_silence(decibels, config.min_db, config.max_db);
    lemma_after_silence(config.bins() as nat, config.smoothing, config.peak_decay);
}

/// What an analyzer shows to the outside.
pub struct AnalyzerView {
    /// The smoothed spectrum and the peak markers.
    pub state: FrameState,
    /// Number of ticks so far that took a window in.
    pub frame_count: nat,
}

impl AnalyzerView {
    /// The analyzer after one tick over `backlog`: with nothing pending
    /// it is as before; otherwise every window was taken in, oldest first,
    /// and the frame was counted once.
    pub open spec fn ticked(self, config: AnalyzerConfig, backlog: Seq<Seq<MilliDb>>)
        -> AnalyzerView {
        if backlog.len() == 0 {
            self
        } else {
            AnalyzerView {
                state: after_windows(self.state, config, backlog),
                frame_count: self.frame_count + 1,
            }
        }
    }
}

/// An empty tick is no tick: nothing of the analyzer changes.
pub proof fn lemma_empty_tick(analyzer: AnalyzerView, config: AnalyzerConfig)
    ensures
        analyzer.ticked(config, Seq::empty()) == analyzer,
{
}

/// A tick over pending windows counts one frame, however many windows
/// were pending.
pub proof fn lemma_tick_counts_once(
    analyzer: AnalyzerView,
    config: AnalyzerConfig,
    backlog: Seq<Seq<MilliDb>>,
)
    requires
        backlog.len() > 0,
    ensures
        analyzer.ticked(config, backlog).frame_count == analyzer.frame_count + 1,
{
}

/// Oldest first: a backlog is taken in by taking in its oldest window and
/// then the rest.
pub proof fn lemma_backlog_oldest_first(
    state: FrameState,
    config: AnalyzerConfig,
    oldest: Seq<MilliDb>,
    rest: Seq<Seq<MilliDb>>,
)
    ensures
        after_windows(state, config, seq![oldest] + rest) == after_windows(
            after_window(state, config, oldest),
            config,
            rest,
        ),
{
    lemma_backlog_in_order(state, config, seq![oldest], rest);
    lemma_backlog_of_one(state, config, oldest);
}

/// Three windows in one backlog are taken in as three single windows, in
/// the order they stand in.
pub proof fn lemma_three_windows_in_order(
    state: FrameState,
    config: AnalyzerConfig,
    first: Seq<MilliDb>,
    second: Seq<MilliDb>,
    third: Seq<MilliDb>,
)
    ensures
        after_windows(state, config, seq![first, second, third]) == after_window(
            after_window(after_window(state, config, first), config, second),
            config,
            third,
        ),
{
    let all = seq![first, second, third];
    let two = seq![first, second];
    assert(all.drop_last() =~= two);
    assert(all.last() == third);
    assert(two.drop_last() =~= seq![first]);
    assert(two.last() == second);
    lemma_backlog_of_one(state, config, first);
    assert(after_windows(state, config, two) == after_window(
        after_windows(state, config, two.drop_last()),
        config,
        two.last(),
    ));
    assert(after_windows(state, config, all) == after_window(
        after_windows(state, config, all.drop_last()),
        config,
        all.last(),
    ));
}

/// Transport ordering, from sending to processing. Windows sent to a new
/// transport come out of one drain as they were sent, none merged, dropped
/// or reordered, and the drain leaves nothing behind. The tick over their
/// readings then folds them into the arrays one by one in that order: the
/// arrays after the first `k + 1` windows are the arrays after the first
/// `k`, with window `k` taken in.
pub proof fn lemma_sent_order_is_processing_order<W>(
    windows: Seq<W>,
    readings: spec_fn(W) -> Seq<MilliDb>,
    analyzer: AnalyzerView,
    config: AnalyzerConfig,
)
    ensures
        ({
            let sent = TransportView::<W>::fresh().sent_all(windows);
            let backlog = sent.pending.map_values(readings);
            &&& sent.pending == windows
            &&& sent.drained().pending.len() == 0
            &&& analyzer.ticked(config, backlog).state == after_windows(
                analyzer.state,
                config,
                windows.map_values(readings),
            )
        }),
        forall|k: int|
            0 <= k < windows.len() ==> #[trigger] after_windows(
                analyzer.state,
                config,
                windows.take(k + 1).map_values(readings),
            ) == after_window(
                after_windows(analyzer.state, config, windows.take(k).map_values(readings)),
                config,
                readings(windows[k]),
            ),
{
    let fresh = TransportView::<W>::fresh();
    lemma_sent_in_order(fresh, windows);
    assert(fresh.pending + windows =~= windows);
    assert forall|k: int| 0 <= k < windows.len() implies #[trigger] after_windows(
        analyzer.state,
        config,
        windows.take(k + 1).map_values(readings),
    ) == after_window(
        after_windows(analyzer.state, config, windows.take(k).map_values(readings)),
        config,
        readings(windows[k]),
    ) by {
        let upto = windows.take(k + 1).map_values(readings);
        assert(upto.drop_last() =~= windows.take(k).map_values(readings));
        assert(upto.last() == readings(windows[k]));
    }
}

/// The analyzer: configuration, spectrum, peak markers and frame counter.
pub struct SpectrumAnalyzer {
    config: AnalyzerConfig,
    state: TemporalState,
    frame_count: u64,
}

impl View for SpectrumAnalyzer {
    type V = AnalyzerView;

    closed spec fn view(&self) -> AnalyzerView {
        AnalyzerView { state: self.state@, frame_count: self.frame_count as nat }
    }
}

impl SpectrumAnalyzer {
    /// The configuration the analyzer was built with.
    pub closed spec fn spec_config(&self) -> AnalyzerConfig {
        self.config
    }

    /// The configuration is valid and both arrays have one level per bin.
    pub open spec fn wf(&self) -> bool {
        &&& self.spec_config().wf()
        &&& self@.state.wf(self.spec_config().bins() as nat)
    }

    /// A new analyzer: every bin and every peak at zero, no frame counted.
    pub fn new(config: AnalyzerConfig) -> (analyzer: SpectrumAnalyzer)
        requires
            config.wf(),
        ensures
            analyzer.wf(),
            analyzer.spec_config() == config,
            analyzer@.state == FrameState::silent(config.bins() as nat),
            analyzer@.frame_count == 0,
    {
        SpectrumAnalyzer { config, state: TemporalState::new(config.bins()), frame_count: 0 }
    }

    /// Takes in one window, given the decibel readings of its transform.
    /// The frame counter is not touched.
    pub fn process_window(&mut self, decibels: &Vec<MilliDb>)
        requires
            old(self).wf(),
            decibels.len() == old(self).spec_config().window_size,
        ensures
            final(self).wf(),
            final(self).spec_config() == old(self).spec_config(),
            final(self)@.state == after_window(old(self)@.state, old(self).spec_config(), decibels@),
            final(self)@.frame_count == old(self)@.frame_count,
    {
        let raw = raw_spectrum(&self.config, decibels);
        self.state.update(&raw, self.config.smoothing, self.config.peak_decay);
    }

    /// One tick. With nothing pending it does nothing and reports that
    /// nothing changed. Otherwise it takes in the whole backlog, oldest
    /// window first, counts the frame once and reports a change, so that
    /// the caller redraws.
    pub fn tick(&mut self, backlog: &Vec<Vec<MilliDb>>) -> (changed: bool)
        requires
            old(self).wf(),
            backlog_fits(old(self).spec_config(), backlog.deep_view()),
            backlog.len() > 0 ==> old(self)@.frame_count < u64::MAX,
        ensures
            final(self).wf(),
            final(self).spec_config() == old(self).spec_config(),
            final(self)@ == old(self)@.ticked(old(self).spec_config(), backlog.deep_view()),
            final(self)@.state == after_windows(
                old(self)@.state,
                old(self).spec_config(),
                backlog.deep_view(),
            ),
            final(self)@.frame_count == old(self)@.frame_count + (if backlog.len() > 0 {
                1int
            } else {
                0int
            }),
            changed == (backlog.len() > 0),
            backlog.len() == 0 ==> final(self)@ == old(self)@,
    {
        let ghost windows = backlog.deep_view();
        let mut i: usize = 0;
        while i < backlog.len()
            invariant
                i <= backlog.len(),
                windows == backlog.deep_view(),
                self.wf(),
                self.spec_config() == old(self).spec_config(),
                backlog_fits(self.spec_config(), windows),
                self@.frame_count == old(self)@.frame_count,
                self@.state == after_windows(
                    old(self)@.state,
                    old(self).spec_config(),
                    windows.take(i as int),
                ),
            decreases backlog.len() - i,
        {
            assert(windows[i as int] == backlog[i as int]@);
            assert(windows.take(i + 1).drop_last() =~= windows.take(i as int));
            self.process_window(&backlog[i]);
            i += 1;
        }
        assert(windows.take(i as int) =~= windows);
        if backlog.len() > 0 {
            self.frame_count = self.frame_count + 1;
            true
        } else {
            false
        }
    }

    /// The configuration the analyzer was built with.
    #[verifier::when_used_as_spec(spec_config)]
    pub fn config(&self) -> (config: AnalyzerConfig)
        ensures
            config == self.spec_config(),
    {
        self.config
    }

    /// A copy of the smoothed spectrum, one level per bin.
    pub fn spectrum(&self) -> (copy: Vec<Level>)
        ensures
            copy@ == self@.state.spectrum,
    {
        self.state.spectrum()
    }

    /// A copy of the peak markers, one level per bin.
    pub fn peaks(&self) -> (copy: Vec<Level>)
        ensures
            copy@ == self@.state.peaks,
    {
        self.state.peaks()
    }

    /// Number of ticks so far that took a window in.
    pub fn frame_count(&self) -> (n: u64)
        ensures
            n == self@.frame_count,
    {
        self.frame_count
    }
}

} // verus!
