//! The event bus: a bounded, ordered queue of events with many producers
//! and exactly one consumer. The finite capacity is the backpressure
//! mechanism: a full bus refuses the send, and the producer must wait for
//! the consumer to drain before retrying. Order is preserved: events leave
//! in exactly the order they entered.

use vstd::prelude::*;

use crate::event::Event;

verus! {

/// A bounded first-in-first-out queue of [`Event`].
pub struct EventBus {
    items: Vec<Event>,
    cap: usize,
}

impl EventBus {
    /// The queued events, oldest first.
    pub closed spec fn contents(self) -> Seq<Event> {
        self.items@
    }

    /// The fixed capacity the bus was created with.
    pub closed spec fn capacity(self) -> usize {
        self.cap
    }

    /// The bus never holds more than its capacity.
    pub open spec fn wf(self) -> bool {
        self.contents().len() <= self.capacity()
    }

    /// An empty bus with the given capacity.
    pub fn new(cap: usize) -> (b: EventBus)
        requires
            cap >= 1,
        ensures
            b.contents() == Seq::<Event>::empty(),
            b.capacity() == cap,
            b.wf(),
    {
        EventBus { items: Vec::new(), cap }
    }

    /// How many events are queued.
    pub fn len(&self) -> (n: usize)
        ensures
            n == self.contents().len(),
    {
        self.items.len()
    }

    /// Tries to enqueue `e`: succeeds exactly when the bus is not full, and
    /// then appends `e` behind everything already queued. On a full bus
    /// nothing changes — the producer must wait and retry.
    pub fn try_send(&mut self, e: Event) -> (ok: bool)
        requires
            old(self).wf(),
        ensures
            final(self).wf(),
            final(self).capacity() == old(self).capacity(),
            ok == (old(self).contents().len() < old(self).capacity()),
            ok ==> final(self).contents() == old(self).contents().push(e),
            !ok ==> final(self).contents() == old(self).contents(),
    {
        if self.items.len() < self.cap {
            self.items.push(e);
            true
        } else {
            false
        }
    }

    /// Dequeues the oldest event, or `None` on an empty bus.
    pub fn recv(&mut self) -> (r: Option<Event>)
        requires
            old(self).wf(),
        ensures
            final(self).wf(),
            final(self).capacity() == old(self).capacity(),
            old(self).contents().len() == 0 ==> r is None && final(self).contents() == old(
                self,
            ).contents(),
            old(self).contents().len() > 0 ==> r == Some(old(self).contents()[0])
                && final(self).contents() == old(self).contents().drop_first(),
    {
        if self.items.len() == 0 {
            None
        } else {
            let e = self.items.remove(0);
            proof {
                assert(self.items@ =~= old(self).items@.drop_first());
            }
            Some(e)
        }
    }

    /// Empties the bus, returning every queued event in send order: what
    /// was sent is received exactly once, without loss, duplication or
    /// reordering.
    pub fn drain(&mut self) -> (out: Vec<Event>)
        requires
            old(self).wf(),
        ensures
            final(self).wf(),
            final(self).capacity() == old(self).capacity(),
            out@ == old(self).contents(),
            final(self).contents() == Seq::<Event>::empty(),
    {
        let mut out: Vec<Event> = Vec::new();
        loop
            invariant
                self.wf(),
                self.capacity() == old(self).capacity(),
                out@ + self.contents() == old(self).contents(),
            ensures
                out@ == old(self).contents(),
                self.contents() == Seq::<Event>::empty(),
            decreases self.contents().len(),
        {
            match self.recv() {
                Some(e) => {
                    out.push(e);
                    proof {
                        assert(out@ + self.contents() =~= old(self).contents());
                    }
                },
                None => {
                    proof {
                        assert(out@ =~= old(self).contents());
                    }
                    break;
                },
            }
        }
        out
    }
}

} // verus!
