//! Events are how the service tells its host that something must be done.
//!
//! The queue hands each event out once, in the order in which the events
//! were put in. It is the sequential core of the hand-off: a caller that
//! shares it between threads keeps it behind a lock and does the waiting and
//! waking that the results here call for.
use crate::lsps2::event::{LSPS2ServiceEvent, LSPS2ServiceEventView};
use std::collections::VecDeque;
use vstd::prelude::*;

verus! {

/// An event which the host should act on.
#[derive(Debug, Clone, PartialEq, Eq)]
pub enum Event {
    /// An event of the just-in-time channel service.
    LSPS2Service(LSPS2ServiceEvent),
}

/// The mathematical content of an [`Event`].
pub enum EventView {
    LSPS2Service(LSPS2ServiceEventView),
}

impl View for Event {
    type V = EventView;

    open spec fn view(&self) -> EventView {
        match self {
            Event::LSPS2Service(event) => EventView::LSPS2Service(event@),
        }
    }
}

/// The contents of the given events, in their order.
pub open spec fn event_views(events: Seq<Event>) -> Seq<EventView> {
    events.map_values(|event: Event| event@)
}

/// What a consumer that waits for the next event must do.
#[derive(Debug, PartialEq, Eq)]
pub enum WaitStep {
    /// The queue held an event, which is now the consumer's. Where
    /// `wake_next` is set more events are left, and the consumer wakes
    /// another waiter before it goes on.
    Deliver { event: Event, wake_next: bool },
    /// The queue is empty: the consumer sleeps until an event is put in,
    /// and asks again.
    Block,
}

/// A first-in, first-out queue of events.
pub struct EventQueue {
    queue: VecDeque<Event>,
}

impl View for EventQueue {
    type V = Seq<EventView>;

    closed spec fn view(&self) -> Seq<EventView> {
        event_views(self.queue@)
    }
}

impl EventQueue {
    /// An empty queue.
    pub fn new() -> (queue: EventQueue)
        ensures
            queue@ == Seq::<EventView>::empty(),
    {
        let queue = EventQueue { queue: VecDeque::new() };
        assert(queue@ =~= Seq::<EventView>::empty());
        queue
    }

    /// The number of events in the queue.
    pub fn len(&self) -> (count: usize)
        ensures
            count == self@.len(),
    {
        self.queue.len()
    }

    /// Whether the queue holds no event.
    pub fn is_empty(&self) -> (empty: bool)
        ensures
            empty == (self@.len() == 0),
    {
        self.queue.len() == 0
    }

    /// Puts an event at the end of the queue. The caller then wakes one
    /// waiting consumer, if there is any.
    pub fn enqueue(&mut self, event: Event)
        ensures
            final(self)@ == old(self)@.push(event@),
    {
        self.queue.push_back(event);
        assert(self@ =~= old(self)@.push(event@));
    }

    /// Takes the first event out of the queue, if there is one.
    pub fn next_event(&mut self) -> (next: Option<Event>)
        ensures
            match next {
                Some(event) => {
                    &&& old(self)@.len() > 0
                    &&& event@ == old(self)@[0]
                    &&& final(self)@ == old(self)@.drop_first()
                },
                None => old(self)@.len() == 0 && final(self)@ == old(self)@,
            },
    {
        let next = self.queue.pop_front();
        assert(next is Some ==> self@ =~= old(self)@.drop_first());
        next
    }

    /// One step of a consumer that waits for the next event: the first event
    /// if there is one, with the word whether more are left for another
    /// waiter; else the instruction to sleep.
    pub fn wait_next_event(&mut self) -> (step: WaitStep)
        ensures
            match step {
                WaitStep::Deliver { event, wake_next } => {
                    &&& old(self)@.len() > 0
                    &&& event@ == old(self)@[0]
                    &&& final(self)@ == old(self)@.drop_first()
                    &&& wake_next == (old(self)@.len() > 1)
                },
                WaitStep::Block => old(self)@.len() == 0 && final(self)@ == old(self)@,
            },
    {
        match self.next_event() {
            Some(event) => {
                let wake_next = !self.is_empty();
                WaitStep::Deliver { event, wake_next }
            },
            None => WaitStep::Block,
        }
    }

    /// Takes all events out of the queue, in their order.
    pub fn get_and_clear_pending_events(&mut self) -> (events: Vec<Event>)
        ensures
            event_views(events@) == old(self)@,
            final(self)@.len() == 0,
    {
        let mut events: Vec<Event> = Vec::new();
        loop
            invariant
                event_views(events@) + self@ == old(self)@,
            ensures
                self@.len() == 0,
            decreases self@.len(),
        {
            match self.queue.pop_front() {
                Some(event) => {
                    let ghost before = events@;
                    events.push(event);
                    assert(event_views(events@) + self@ =~= old(self)@) by {
                        assert(event_views(events@) =~= event_views(before).push(event@));
                    }
                },
                None => {
                    break ;
                },
            }
        }
        assert(event_views(events@) =~= old(self)@);
        events
    }
}

} // verus!
