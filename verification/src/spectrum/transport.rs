//! The transport channel: an unbounded first-in, first-out queue between
//! the capture side, which sends, and the analysis side, which polls.
//!
//! Sending never waits and succeeds as long as the receiving end is alive.
//! Receiving never waits either: it hands out what is queued, oldest
//! first, or nothing. The queue itself neither merges nor drops items
//! while it is open.

use vstd::prelude::*;
use std::collections::VecDeque;

verus! {

/// What a transport holds, as mathematical values.
pub struct TransportView<W> {
    /// The queued items, oldest first.
    pub pending: Seq<W>,
    /// The receiving end is alive.
    pub open: bool,
}

impl<W> TransportView<W> {
    /// A new transport: open and empty.
    pub open spec fn fresh() -> TransportView<W> {
        TransportView { pending: Seq::empty(), open: true }
    }

    /// The transport after one item was offered to it: queued behind the
    /// others while the transport is open, discarded once it is closed.
    pub open spec fn sent(self, item: W) -> TransportView<W> {
        if self.open {
            TransportView { pending: self.pending.push(item), open: true }
        } else {
            self
        }
    }

    /// The transport after `items` were offered one after the other.
    pub open spec fn sent_all(self, items: Seq<W>) -> TransportView<W>
        decreases items.len(),
    {
        if items.len() == 0 {
            self
        } else {
            self.sent_all(items.drop_last()).sent(items.last())
        }
    }

    /// The transport after everything queued was taken out.
    pub open spec fn drained(self) -> TransportView<W> {
        TransportView { pending: Seq::empty(), open: self.open }
    }

    /// The transport after its receiving end went away: what was queued
    /// is lost with it.
    pub open spec fn closed(self) -> TransportView<W> {
        TransportView { pending: Seq::empty(), open: false }
    }
}

/// Ordering: what is sent to an open transport is queued behind what was
/// there before, in the order of sending, with nothing merged or dropped.
pub proof fn lemma_sent_in_order<W>(transport: TransportView<W>, items: Seq<W>)
    requires
        transport.open,
    ensures
        transport.sent_all(items).pending == transport.pending + items,
        transport.sent_all(items).open,
    decreases items.len(),
{
    if items.len() == 0 {
        assert(transport.pending + items =~= transport.pending);
    } else {
        lemma_sent_in_order(transport, items.drop_last());
        assert(transport.pending + items =~= (transport.pending + items.drop_last()).push(
            items.last(),
        ));
    }
}

/// A closed transport discards whatever is sent to it.
pub proof fn lemma_sent_to_closed<W>(transport: TransportView<W>, items: Seq<W>)
    requires
        !transport.open,
    ensures
        transport.sent_all(items) == transport,
    decreases items.len(),
{
    if items.len() > 0 {
        lemma_sent_to_closed(transport, items.drop_last());
    }
}

/// A first-in, first-out queue with an unbounded backlog.
pub struct Transport<W> {
    pending: VecDeque<W>,
    open: bool,
}

impl<W> View for Transport<W> {
    type V = TransportView<W>;

    closed spec fn view(&self) -> TransportView<W> {
        TransportView { pending: self.pending@, open: self.open }
    }
}

impl<W> Transport<W> {
    /// An open transport with nothing queued.
    pub fn new() -> (transport: Transport<W>)
        ensures
            transport@ == TransportView::<W>::fresh(),
    {
        Transport { pending: VecDeque::new(), open: true }
    }

    /// Queues `item` behind everything sent before. On a closed transport
    /// the item comes back in the error and nothing changes.
    pub fn send(&mut self, item: W) -> (result: Result<(), W>)
        ensures
            final(self)@ == old(self)@.sent(item),
            old(self)@.open ==> result.is_ok(),
            !old(self)@.open ==> result == Err::<(), W>(item),
    {
        if self.open {
            self.pending.push_back(item);
            Ok(())
        } else {
            Err(item)
        }
    }

    /// Takes out the oldest queued item, or returns `None` where nothing
    /// is queued.
    pub fn try_recv(&mut self) -> (item: Option<W>)
        ensures
            old(self)@.pending.len() > 0 ==> item == Some(old(self)@.pending[0]) && final(self)@
                == (TransportView {
                pending: old(self)@.pending.drop_first(),
                open: old(self)@.open,
            }),
            old(self)@.pending.len() == 0 ==> item.is_none() && final(self)@ == old(self)@,
    {
        let item = self.pending.pop_front();
        proof {
            if old(self)@.pending.len() > 0 {
                assert(self.pending@ =~= old(self)@.pending.drop_first());
            } else {
                assert(self.pending@ =~= old(self)@.pending);
            }
        }
        item
    }

    /// Takes out everything that is queued, oldest first.
    pub fn drain(&mut self) -> (items: Vec<W>)
        ensures
            items@ == old(self)@.pending,
            final(self)@ == old(self)@.drained(),
    {
        let mut items: Vec<W> = Vec::new();
        loop
            invariant
                self.open == old(self).open,
                items@ + self.pending@ == old(self)@.pending,
            ensures
                self.pending@.len() == 0,
            decreases self.pending@.len(),
        {
            let ghost before = self.pending@;
            let ghost taken = items@;
            match self.pending.pop_front() {
                Some(item) => {
                    items.push(item);
                    assert(items@ + self.pending@ =~= taken + before);
                },
                None => {
                    break ;
                },
            }
        }
        assert(items@ =~= items@ + self.pending@);
        assert(self.pending@ =~= Seq::<W>::empty());
        items
    }

    /// The receiving end goes away. Whatever was queued is lost, and from
    /// now on `send` fails.
    pub fn close(&mut self)
        ensures
            final(self)@ == old(self)@.closed(),
    {
        self.pending.clear();
        self.open = false;
        assert(self.pending@ =~= Seq::<W>::empty());
    }

    /// Number of queued items.
    pub fn len(&self) -> (n: usize)
        ensures
            n == self@.pending.len(),
    {
        self.pending.len()
    }

    /// Nothing is queued.
    pub fn is_empty(&self) -> (empty: bool)
        ensures
            empty == (self@.pending.len() == 0),
    {
        self.pending.len() == 0
    }

    /// The receiving end is alive.
    pub fn is_open(&self) -> (open: bool)
        ensures
            open == self@.open,
    {
        self.open
    }
}

} // verus!
