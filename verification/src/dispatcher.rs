//! Outbound dispatcher: the single writer to the client connection.
//!
//! It drains a FIFO queue of outbound items and turns each into one wire
//! frame; no reordering and no coalescing, so fragments reach the client in
//! the order they were queued. A write failure is terminal for the session.

use vstd::prelude::*;
use crate::frames::{FrameView, ItemView, OutboundFrame, OutboundItem, wire_view};

verus! {

/// The abstract value of the dispatcher: the queued items, oldest first,
/// and whether the dispatcher has stopped.
#[verifier::ext_equal]
pub ghost struct DispatcherView {
    pub items: Seq<ItemView>,
    pub stopped: bool,
}

/// The outbound queue and the stop flag.
pub struct Dispatcher {
    pub queue: Vec<OutboundItem>,
    pub stopped: bool,
}

impl View for Dispatcher {
    type V = DispatcherView;

    open spec fn view(&self) -> DispatcherView {
        DispatcherView {
            items: self.queue@.map_values(|i: OutboundItem| i@),
            stopped: self.stopped,
        }
    }
}

impl Dispatcher {
    /// An empty, running dispatcher.
    pub fn new() -> (d: Dispatcher)
        ensures
            d@.items =~= Seq::<ItemView>::empty(),
            !d@.stopped,
    {
        Dispatcher { queue: Vec::new(), stopped: false }
    }

    /// Queues one item at the back. A stopped dispatcher accepts nothing.
    pub fn enqueue(&mut self, item: OutboundItem)
        ensures
            !old(self)@.stopped ==> final(self)@ =~= (DispatcherView {
                items: old(self)@.items.push(item@),
                stopped: false,
            }),
            old(self)@.stopped ==> *final(self) == *old(self),
    {
        if !self.stopped {
            self.queue.push(item);
            proof {
                assert(final(self)@.items =~= old(self)@.items.push(item@));
            }
        }
    }

    /// Takes the oldest queued item, already shaped as a wire frame.
    ///
    /// Returns nothing when the queue is empty or the dispatcher has
    /// stopped; otherwise the head leaves the queue and the rest keep
    /// their order.
    pub fn next_frame(&mut self) -> (r: Option<OutboundFrame>)
        ensures
            (old(self)@.stopped || old(self)@.items.len() == 0) ==> {
                &&& *final(self) == *old(self)
                &&& r is None
            },
            (!old(self)@.stopped && old(self)@.items.len() > 0) ==> {
                &&& final(self)@ =~= (DispatcherView {
                    items: old(self)@.items.drop_first(),
                    stopped: false,
                })
                &&& r matches Some(f) && f@ == wire_view(old(self)@.items[0])
            },
    {
        if self.stopped || self.queue.len() == 0 {
            return None;
        }
        let item = self.queue.remove(0);
        proof {
            assert(final(self)@.items =~= old(self)@.items.drop_first());
        }
        let frame = match item {
            OutboundItem::Fragment(s) => OutboundFrame::Text(s),
            OutboundItem::Notice(s) => OutboundFrame::Text(s),
            OutboundItem::Pong(p) => OutboundFrame::Pong(p),
        };
        Some(frame)
    }

    /// Stops the dispatcher; queued items are abandoned, never written.
    pub fn stop(&mut self)
        ensures
            final(self)@ =~= (DispatcherView { items: old(self)@.items, stopped: true }),
    {
        self.stopped = true;
    }
}

} // verus!
