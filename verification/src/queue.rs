//! The path of an action from the reader of the stream to the frame loop.
//!
//! The reader is the only producer and the frame loop the only consumer. The
//! two share an [`ActionQueue`] under a lock. The reader never waits for the
//! lock while it reads: while the frame loop holds it, the reader keeps what
//! arrives in its own [`Backlog`] and hands the backlog over, oldest first,
//! the next time it gets the lock, and at the latest when it stops. The frame
//! loop takes the whole queue at once.

use vstd::prelude::*;

use crate::types::Action;

verus! {

/// The actions that wait for the frame loop, oldest first.
pub struct ActionQueue {
    pending: Vec<Action>,
}

impl View for ActionQueue {
    type V = Seq<Action>;

    closed spec fn view(&self) -> Seq<Action> {
        self.pending@
    }
}

impl ActionQueue {
    /// A queue with nothing in it.
    pub fn new() -> (queue: Self)
        ensures
            queue@ == Seq::<Action>::empty(),
    {
        ActionQueue { pending: Vec::new() }
    }

    /// The number of actions that wait.
    pub fn len(&self) -> (n: usize)
        ensures
            n == self@.len(),
    {
        self.pending.len()
    }

    /// Whether no action waits.
    pub fn is_empty(&self) -> (empty: bool)
        ensures
            empty == (self@.len() == 0),
    {
        self.pending.len() == 0
    }

    /// Puts an action behind those that wait.
    pub fn push(&mut self, action: Action)
        ensures
            final(self)@ == old(self)@.push(action),
    {
        self.pending.push(action);
    }

    /// Takes every action that waits, oldest first, and leaves the queue
    /// empty.
    pub fn drain(&mut self) -> (batch: Vec<Action>)
        ensures
            batch@ == old(self)@,
            final(self)@ == Seq::<Action>::empty(),
            Flow::holding(Seq::empty(), final(self)@, batch@) == Flow::holding(
                Seq::empty(),
                old(self)@,
                Seq::empty(),
            ).step(Event::Drained),
    {
        let mut batch: Vec<Action> = Vec::new();
        batch.append(&mut self.pending);
        batch
    }
}

/// The actions that the reader could not hand over yet, oldest first.
pub struct Backlog {
    held: Vec<Action>,
}

impl View for Backlog {
    type V = Seq<Action>;

    closed spec fn view(&self) -> Seq<Action> {
        self.held@
    }
}

impl Backlog {
    /// A backlog with nothing in it.
    pub fn new() -> (backlog: Self)
        ensures
            backlog@ == Seq::<Action>::empty(),
    {
        Backlog { held: Vec::new() }
    }

    /// The number of actions held back.
    pub fn len(&self) -> (n: usize)
        ensures
            n == self@.len(),
    {
        self.held.len()
    }

    /// Keeps an action that arrived while the queue was locked.
    pub fn hold(&mut self, action: Action)
        ensures
            final(self)@ == old(self)@.push(action),
            Flow::holding(final(self)@, Seq::empty(), Seq::empty()) == Flow::holding(
                old(self)@,
                Seq::empty(),
                Seq::empty(),
            ).step(Event::Held(seq![action])),
    {
        self.held.push(action);
        assert(self@ =~= old(self)@ + seq![action]);
    }

    /// Hands over what was held back and then the action that just arrived.
    pub fn deliver(&mut self, queue: &mut ActionQueue, action: Action)
        ensures
            final(queue)@ == (old(queue)@ + old(self)@).push(action),
            final(self)@ == Seq::<Action>::empty(),
            Flow::holding(final(self)@, final(queue)@, Seq::empty()) == Flow::holding(
                old(self)@,
                old(queue)@,
                Seq::empty(),
            ).step(Event::Delivered(seq![action])),
    {
        queue.pending.append(&mut self.held);
        queue.pending.push(action);
        assert(queue@ =~= old(queue)@ + old(self)@ + seq![action]);
    }

    /// Hands over what was held back, behind what waits in the queue. This
    /// is for a reader that has the queue in hand and nothing new to add,
    /// above all for one that is about to stop.
    pub fn flush(&mut self, queue: &mut ActionQueue)
        ensures
            final(queue)@ == old(queue)@ + old(self)@,
            final(self)@ == Seq::<Action>::empty(),
            Flow::holding(final(self)@, final(queue)@, Seq::empty()) == Flow::holding(
                old(self)@,
                old(queue)@,
                Seq::empty(),
            ).step(Event::Delivered(Seq::empty())),
    {
        queue.pending.append(&mut self.held);
    }

    /// Takes in the actions of one read, the oldest first. With the queue in
    /// hand the backlog and then the actions are handed over; without it the
    /// actions are held back behind the backlog.
    pub fn offer_all(&mut self, queue: Option<&mut ActionQueue>, batch: Vec<Action>)
        ensures
            final(self)@ == if queue is Some {
                Seq::<Action>::empty()
            } else {
                old(self)@ + batch@
            },
            queue matches Some(q) ==> final(q)@ == q@ + old(self)@ + batch@,
            queue matches Some(q) ==> Flow::holding(final(self)@, final(q)@, Seq::empty())
                == Flow::holding(old(self)@, q@, Seq::empty()).step(Event::Delivered(batch@)),
            queue is None ==> Flow::holding(final(self)@, Seq::empty(), Seq::empty())
                == Flow::holding(old(self)@, Seq::empty(), Seq::empty()).step(
                Event::Held(batch@),
            ),
    {
        let mut batch = batch;
        match queue {
            Some(q) => {
                q.pending.append(&mut self.held);
                q.pending.append(&mut batch);
            },
            None => {
                self.held.append(&mut batch);
            },
        }
    }
}

/// What can happen on the path, as seen from outside.
pub enum Event {
    /// The reader had the queue in hand and handed over its backlog and then
    /// the actions of a read. A read may complete no frame, or the reader may
    /// be about to stop: then the backlog alone is handed over.
    Delivered(Seq<Action>),
    /// The actions of a read arrived while the frame loop held the queue.
    Held(Seq<Action>),
    /// The frame loop took the queue.
    Drained,
}

/// Where the actions that have arrived so far are.
pub struct Flow {
    /// In the reader's backlog.
    pub held: Seq<Action>,
    /// In the shared queue.
    pub queued: Seq<Action>,
    /// With the frame loop, in the order in which it got them.
    pub drained: Seq<Action>,
}

impl Flow {
    /// The path before anything has arrived.
    pub open spec fn start() -> Flow {
        Flow { held: Seq::empty(), queued: Seq::empty(), drained: Seq::empty() }
    }

    /// The path with the given actions in the backlog, in the queue and with
    /// the frame loop.
    pub open spec fn holding(held: Seq<Action>, queued: Seq<Action>, drained: Seq<Action>) -> Flow {
        Flow { held, queued, drained }
    }

    /// The path after one more event, as [`Backlog::offer_all`],
    /// [`Backlog::flush`] and [`ActionQueue::drain`] leave it.
    pub open spec fn step(self, event: Event) -> Flow {
        match event {
            Event::Delivered(batch) => Flow {
                held: Seq::empty(),
                queued: self.queued + self.held + batch,
                ..self
            },
            Event::Held(batch) => Flow { held: self.held + batch, ..self },
            Event::Drained => Flow {
                queued: Seq::empty(),
                drained: self.drained + self.queued,
                ..self
            },
        }
    }

    /// The path after the events, the first of them first.
    pub open spec fn after(events: Seq<Event>) -> Flow
        decreases events.len(),
    {
        if events.len() == 0 {
            Flow::start()
        } else {
            Flow::after(events.drop_last()).step(events.last())
        }
    }

    /// Every action on the path, the oldest first: what the frame loop has,
    /// then the queue, then the backlog.
    pub open spec fn in_order(self) -> Seq<Action> {
        self.drained + self.queued + self.held
    }
}

/// The actions that arrived in the course of the events, in their order of
/// arrival.
pub open spec fn arrivals(events: Seq<Event>) -> Seq<Action>
    decreases events.len(),
{
    if events.len() == 0 {
        Seq::empty()
    } else {
        match events.last() {
            Event::Delivered(batch) => arrivals(events.drop_last()) + batch,
            Event::Held(batch) => arrivals(events.drop_last()) + batch,
            Event::Drained => arrivals(events.drop_last()),
        }
    }
}

/// Actions reach the frame loop in the order in which they arrived, none
/// lost and none twice, however arrivals and drains interleave and however
/// often the reader found the queue locked: at every moment what the frame
/// loop has taken, followed by what waits in the queue and in the backlog, is
/// exactly what has arrived.
pub proof fn delivery_is_fifo(events: Seq<Event>)
    ensures
        Flow::after(events).in_order() == arrivals(events),
        Flow::after(events).drained.is_prefix_of(arrivals(events)),
    decreases events.len(),
{
    if events.len() > 0 {
        delivery_is_fifo(events.drop_last());
    }
}

/// Nothing stays behind when the reader stops: once it has handed over its
/// backlog and the frame loop has taken the queue, the frame loop has every
/// action that ever arrived, in the order of arrival.
pub proof fn stopping_loses_nothing(events: Seq<Event>)
    ensures
        Flow::after(events.push(Event::Delivered(Seq::empty())).push(Event::Drained)).drained
            == arrivals(events),
        Flow::after(events.push(Event::Delivered(Seq::empty())).push(Event::Drained)).queued
            == Seq::<Action>::empty(),
        Flow::after(events.push(Event::Delivered(Seq::empty())).push(Event::Drained)).held
            == Seq::<Action>::empty(),
{
    let flushed = events.push(Event::Delivered(Seq::empty()));
    let drained = flushed.push(Event::Drained);
    delivery_is_fifo(events);
    assert(flushed.drop_last() =~= events);
    assert(drained.drop_last() =~= flushed);
    let flow = Flow::after(events);
    assert(Flow::after(drained) == Flow::after(flushed).step(Event::Drained));
    assert(flow.drained + (flow.queued + flow.held + Seq::<Action>::empty())
        =~= flow.in_order());
}

} // verus!
