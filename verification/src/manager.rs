//! The event manager: events dispatched during a frame are queued, with no
//! immediate side effect, and drained once per frame in FIFO order. At most
//! one handler is registered per event kind, the last registration winning;
//! handlers are identified here by opaque tokens, so the surrounding
//! program can map each token to whatever callback it likes.

use vstd::prelude::*;

use crate::events::{Event, EventKind};

verus! {

/// The handler registered for a kind, if any: the last registration wins.
pub open spec fn spec_handler_for(regs: Seq<(EventKind, usize)>, kind: EventKind) -> Option<usize>
    decreases regs.len(),
{
    if regs.len() == 0 {
        None
    } else if regs.last().0 == kind {
        Some(regs.last().1)
    } else {
        spec_handler_for(regs.drop_last(), kind)
    }
}

/// The event manager.
pub struct EventManager {
    /// The event queue of the current frame, FIFO.
    queue: Vec<Event>,
    /// The handler registrations, in order.
    handlers: Vec<(EventKind, usize)>,
}

impl EventManager {
    /// The queued events, in dispatch order.
    pub closed spec fn queue_view(&self) -> Seq<Event> {
        self.queue@
    }

    /// The handler registrations, in order.
    pub closed spec fn handlers_view(&self) -> Seq<(EventKind, usize)> {
        self.handlers@
    }

    /// Create a new event manager with an empty queue and no handlers.
    pub fn new() -> (r: Self)
        ensures
            r.queue_view() == Seq::<Event>::empty(),
            r.handlers_view() == Seq::<(EventKind, usize)>::empty(),
    {
        Self { queue: Vec::new(), handlers: Vec::new() }
    }

    /// Register an event handler token for a kind. A later registration for
    /// the same kind wins.
    pub fn register(&mut self, kind: EventKind, handler: usize)
        ensures
            final (self).handlers_view() == old(self).handlers_view().push((kind, handler)),
            final (self).queue_view() == old(self).queue_view(),
            spec_handler_for(final (self).handlers_view(), kind) == Some(handler),
    {
        self.handlers.push((kind, handler));
    }

    /// Dispatch an event: append it to the queue. No handler runs here; the
    /// queue is drained once per frame.
    pub fn dispatch(&mut self, event: Event)
        ensures
            final (self).queue_view() == old(self).queue_view().push(event),
            final (self).handlers_view() == old(self).handlers_view(),
    {
        self.queue.push(event);
    }

    /// Clear the event queue.
    pub fn clear(&mut self)
        ensures
            final (self).queue_view() == Seq::<Event>::empty(),
            final (self).handlers_view() == old(self).handlers_view(),
    {
        self.queue.clear();
    }

    /// Get a copy of the event queue, in dispatch order.
    pub fn queue(&self) -> (r: Vec<Event>)
        ensures
            r@ == self.queue_view(),
    {
        let mut r: Vec<Event> = Vec::new();
        let mut i: usize = 0;
        while i < self.queue.len()
            invariant
                i <= self.queue.len(),
                r@ == self.queue_view().take(i as int),
            decreases self.queue.len() - i,
        {
            r.push(self.queue[i]);
            proof {
                assert(self.queue_view().take(i + 1) =~= self.queue_view().take(i as int).push(
                    self.queue_view()[i as int],
                ));
            }
            i = i + 1;
        }
        proof {
            assert(self.queue_view().take(self.queue_view().len() as int) =~= self.queue_view());
        }
        r
    }

    /// The handler token registered for a kind, if any: the last
    /// registration for that kind wins.
    pub fn handler_for(&self, kind: EventKind) -> (r: Option<usize>)
        ensures
            r == spec_handler_for(self.handlers_view(), kind),
    {
        let mut j: usize = self.handlers.len();
        proof {
            assert(self.handlers_view().take(j as int) =~= self.handlers_view());
        }
        while j > 0
            invariant
                j <= self.handlers.len(),
                spec_handler_for(self.handlers_view(), kind) == spec_handler_for(
                    self.handlers_view().take(j as int),
                    kind,
                ),
            decreases j,
        {
            j = j - 1;
            let entry = self.handlers[j];
            proof {
                assert(self.handlers_view().take(j + 1).last() == self.handlers_view()[j as int]);
                assert(self.handlers_view().take(j + 1).drop_last() =~= self.handlers_view().take(
                    j as int,
                ));
            }
            if entry.0 == kind {
                return Some(entry.1);
            }
        }
        None
    }
}

} // verus!
