//! The window buffer source: cuts analysis windows out of capture buffers.
//!
//! The capture side delivers buffers of whatever length the device likes.
//! A buffer that holds at least one window's worth of samples yields one
//! window, its first N samples; a shorter buffer yields nothing, and
//! nothing of it is kept for the next call. The samples are copied as they
//! are: this module never looks inside one.

use vstd::prelude::*;
use crate::spectrum::transport::Transport;

verus! {

/// One analysis window: a fixed run of samples that nobody changes after
/// it was cut.
pub struct SampleWindow<T> {
    samples: Vec<T>,
}

impl<T> View for SampleWindow<T> {
    type V = Seq<T>;

    closed spec fn view(&self) -> Seq<T> {
        self.samples@
    }
}

/// A buffer of this length yields a window of `window_size` samples.
pub open spec fn yields_window(buffer_len: nat, window_size: usize) -> bool {
    buffer_len >= window_size
}

impl<T: Copy> SampleWindow<T> {
    /// Cuts a window of `window_size` samples from the front of `buffer`,
    /// or returns `None` where the buffer is too short.
    pub fn from_buffer(buffer: &[T], window_size: usize) -> (window: Option<SampleWindow<T>>)
        ensures
            window.is_some() <==> yields_window(buffer@.len(), window_size),
            window matches Some(w) ==> w@ == buffer@.take(window_size as int),
    {
        if buffer.len() < window_size {
            return None;
        }
        let mut samples: Vec<T> = Vec::new();
        let mut i: usize = 0;
        while i < window_size
            invariant
                i <= window_size <= buffer@.len(),
                samples@ == buffer@.take(i as int),
            decreases window_size - i,
        {
            samples.push(buffer[i]);
            assert(samples@ =~= buffer@.take(i + 1));
            i += 1;
        }
        Some(SampleWindow { samples })
    }

    /// Number of samples in the window.
    pub fn len(&self) -> (n: usize)
        ensures
            n == self@.len(),
    {
        self.samples.len()
    }

    /// The sample at `index`.
    pub fn get(&self, index: usize) -> (sample: T)
        requires
            index < self@.len(),
        ensures
            sample == self@[index as int],
    {
        self.samples[index]
    }

    /// The samples, first to last.
    pub fn samples(&self) -> (samples: &Vec<T>)
        ensures
            samples@ == self@,
    {
        &self.samples
    }
}

/// What the capture side does with each buffer it is handed: where the
/// buffer yields a window, the window is sent; where it does not, or where
/// the transport is closed, the buffer is dropped and nothing is reported.
pub fn on_buffer<T: Copy>(
    samples: &[T],
    window_size: usize,
    transport: &mut Transport<SampleWindow<T>>,
)
    ensures
        final(transport)@.open == old(transport)@.open,
        yields_window(samples@.len(), window_size) && old(transport)@.open ==> {
            &&& final(transport)@.pending.len() == old(transport)@.pending.len() + 1
            &&& final(transport)@.pending.drop_last() == old(transport)@.pending
            &&& final(transport)@.pending.last()@ == samples@.take(window_size as int)
        },
        !yields_window(samples@.len(), window_size) ==> final(transport)@ == old(transport)@,
        !old(transport)@.open ==> final(transport)@ == old(transport)@,
{
    match SampleWindow::from_buffer(samples, window_size) {
        Some(window) => {
            let _ = transport.send(window);
            proof {
                if old(transport)@.open {
                    assert(transport@.pending.drop_last() =~= old(transport)@.pending);
                }
            }
        },
        None => {},
    }
}

} // verus!
