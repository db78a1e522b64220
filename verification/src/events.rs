//! The queued notification object.
//!
//! Notifications are computed inside an update call but may not be delivered
//! from within reentrant native callback contexts, so they are handed to the
//! caller as a one-shot bundle: compute once, deliver once. Delivery consumes
//! the payload; a second delivery attempt is a contract violation.

use vstd::prelude::*;

use crate::diff::Event;

verus! {

/// A one-shot, deferred-delivery bundle of computed notifications.
#[derive(Debug)]
pub struct QueuedEvents {
    events: Option<Vec<Event>>,
}

impl View for QueuedEvents {
    type V = Option<Seq<Event>>;

    closed spec fn view(&self) -> Option<Seq<Event>> {
        match self.events {
            Some(ref v) => Some(v@),
            None => None,
        }
    }
}

impl QueuedEvents {
    /// Bundles already-computed notifications for deferred delivery.
    pub(crate) fn new(events: Vec<Event>) -> (r: QueuedEvents)
        ensures
            r@ == Some(events@),
    {
        QueuedEvents { events: Some(events) }
    }

    /// Whether the bundle still holds its payload, i.e. delivery has not
    /// happened yet.
    pub fn is_pending(&self) -> (r: bool)
        ensures
            r == (self@ is Some),
    {
        match self.events {
            Some(_) => true,
            None => false,
        }
    }

    /// Delivers the bundled notifications, consuming the payload.
    ///
    /// Law: delivery succeeds exactly once. It requires the payload to be
    /// present and leaves the bundle empty, so no second delivery of the same
    /// bundle can be specified; attempting one anyway is a fatal misuse.
    pub fn raise_events(&mut self) -> (evs: Vec<Event>)
        requires
            old(self)@ is Some,
        ensures
            final(self)@ is None,
            old(self)@ == Some(evs@),
    {
        match self.events.take() {
            Some(evs) => evs,
            None => vstd::pervasive::unreached(),
        }
    }
}

} // verus!
