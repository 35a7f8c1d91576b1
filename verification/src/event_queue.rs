//! The bounded queue of the events that wait to be sent.
use vstd::prelude::*;

use crate::serde::Event;
use arraydeque::behavior::Saturating;
use arraydeque::ArrayDeque;

verus! {

/// Number of events that the queue can hold.
pub const MAX_QUEUED_EVENTS: usize = 64;

/// Double-ended queue of events, an `arraydeque::ArrayDeque` that refuses what does not fit.
#[verifier::external_body]
pub struct EventQueue {
    events: ArrayDeque<Event, 64, Saturating>,
}

/// The events in the deque, from its front to its back.
pub uninterp spec fn event_queue_contents(queue: EventQueue) -> Seq<Event>;

impl View for EventQueue {
    type V = Seq<Event>;

    open spec fn view(&self) -> Seq<Event> {
        event_queue_contents(*self)
    }
}

impl EventQueue {
    /// Calls `ArrayDeque::new`. Claimed: the deque is empty.
    #[verifier::external_body]
    pub(crate) fn new() -> (queue: Self)
        ensures
            event_queue_contents(queue) == Seq::<Event>::empty(),
    {
        EventQueue { events: ArrayDeque::new() }
    }

    /// Calls `ArrayDeque::push_front`. Claimed: the event becomes the first one if there
    /// are fewer than 64 events, and is handed back, with nothing changed, if there are not.
    #[verifier::external_body]
    pub(crate) fn push_front(&mut self, event: Event) -> (r: Result<(), Event>)
        ensures
            event_queue_contents(*old(self)).len() < 64 ==> r is Ok && event_queue_contents(
                *final(self),
            ) == seq![event] + event_queue_contents(*old(self)),
            event_queue_contents(*old(self)).len() >= 64 ==> r is Err && r->Err_0 == event
                && event_queue_contents(*final(self)) == event_queue_contents(*old(self)),
    {
        self.events.push_front(event).map_err(|e| e.element)
    }

    /// Calls `ArrayDeque::push_back`. Claimed: the event becomes the last one if there
    /// are fewer than 64 events, and is handed back, with nothing changed, if there are not.
    #[verifier::external_body]
    pub(crate) fn push_back(&mut self, event: Event) -> (r: Result<(), Event>)
        ensures
            event_queue_contents(*old(self)).len() < 64 ==> r is Ok && event_queue_contents(
                *final(self),
            ) == event_queue_contents(*old(self)).push(event),
            event_queue_contents(*old(self)).len() >= 64 ==> r is Err && r->Err_0 == event
                && event_queue_contents(*final(self)) == event_queue_contents(*old(self)),
    {
        self.events.push_back(event).map_err(|e| e.element)
    }

    /// Calls `ArrayDeque::pop_back`. Claimed: the last event is taken out and returned;
    /// `None`, with nothing changed, if there is none.
    #[verifier::external_body]
    pub(crate) fn pop_back(&mut self) -> (r: Option<Event>)
        ensures
            event_queue_contents(*old(self)).len() > 0 ==> r == Some(
                event_queue_contents(*old(self)).last(),
            ) && event_queue_contents(*final(self)) == event_queue_contents(
                *old(self),
            ).drop_last(),
            event_queue_contents(*old(self)).len() == 0 ==> r is None && event_queue_contents(
                *final(self),
            ) == event_queue_contents(*old(self)),
    {
        self.events.pop_back()
    }

    /// Calls `ArrayDeque::len`. Claimed: it is the number of events.
    #[verifier::external_body]
    pub(crate) fn len(&self) -> (n: usize)
        ensures
            n == event_queue_contents(*self).len(),
    {
        self.events.len()
    }

    /// Calls `ArrayDeque::is_empty`. Claimed: it tells whether there is no event.
    #[verifier::external_body]
    pub(crate) fn is_empty(&self) -> (b: bool)
        ensures
            b == (event_queue_contents(*self).len() == 0),
    {
        self.events.is_empty()
    }
}

} // verus!
