use vstd::prelude::*;
use crate::event::{Event, EventKind, RawEvent, DecodeError, decode, raw_kind, is_malformed, has_bad_amount, decodes_to, first_amount};

verus! {

/// How many events may wait for the consumer at once.
pub const QUEUE_CAPACITY: usize = 32;

/// Why an event was not queued.
#[derive(Debug, Clone, Copy, PartialEq, Eq, Structural)]
pub enum QueueError {
    /// The queue already holds its capacity; the event is dropped.
    Full,
    /// The queue was closed for shutdown.
    Closed,
}

/// What an open queue holds after an event is offered to it: the event is
/// appended below capacity and dropped at capacity.
pub open spec fn offered(items: Seq<Event>, e: Event) -> Seq<Event> {
    if items.len() < QUEUE_CAPACITY {
        items.push(e)
    } else {
        items
    }
}

/// What an open queue holds after each of `events` is offered in turn.
pub open spec fn offered_all(items: Seq<Event>, events: Seq<Event>) -> Seq<Event>
    decreases events.len(),
{
    if events.len() == 0 {
        items
    } else {
        offered(offered_all(items, events.drop_last()), events.last())
    }
}

/// Offering events one by one to an empty open queue, with no consumer
/// taking any, keeps the first `QUEUE_CAPACITY` of them in the order
/// offered and drops every later one.
pub proof fn lemma_offers_keep_first(events: Seq<Event>)
    ensures
        offered_all(Seq::empty(), events) == events.take(
            if events.len() < QUEUE_CAPACITY {
                events.len() as int
            } else {
                QUEUE_CAPACITY as int
            },
        ),
    decreases events.len(),
{
    if events.len() > 0 {
        let init = events.drop_last();
        lemma_offers_keep_first(init);
        if init.len() < QUEUE_CAPACITY {
            assert(init.take(init.len() as int).push(events.last()) =~= events.take(
                events.len() as int,
            ));
        } else {
            assert(init.take(QUEUE_CAPACITY as int) =~= events.take(QUEUE_CAPACITY as int));
        }
    } else {
        assert(events.take(0) =~= Seq::<Event>::empty());
    }
}

/// A bounded first-in first-out queue of events, closed once at shutdown.
/// Producers never wait: an event that does not fit is refused.
pub struct EventQueue {
    items: Vec<Event>,
    closed: bool,
}

impl View for EventQueue {
    type V = Seq<Event>;

    closed spec fn view(&self) -> Seq<Event> {
        self.items@
    }
}

impl EventQueue {
    /// The queue holds no more than its capacity.
    pub closed spec fn wf(&self) -> bool {
        self.items@.len() <= QUEUE_CAPACITY
    }

    /// Whether the queue has been closed to new entries.
    pub closed spec fn is_closed_spec(&self) -> bool {
        self.closed
    }

    /// An empty, open queue.
    pub fn new() -> (q: EventQueue)
        ensures
            q.wf(),
            q@ == Seq::<Event>::empty(),
            !q.is_closed_spec(),
    {
        EventQueue { items: Vec::new(), closed: false }
    }

    /// The number of waiting events, never above the capacity.
    pub fn len(&self) -> (n: usize)
        requires
            self.wf(),
        ensures
            n == self@.len(),
            n <= QUEUE_CAPACITY,
    {
        self.items.len()
    }

    pub fn is_closed(&self) -> (c: bool)
        ensures
            c == self.is_closed_spec(),
    {
        self.closed
    }

    /// Appends an event unless the queue is closed or full; never waits.
    /// On an open queue the result is `offered(old, event)`.
    pub fn enqueue(&mut self, event: Event) -> (r: Result<(), QueueError>)
        requires
            old(self).wf(),
        ensures
            final(self).wf(),
            old(self).is_closed_spec() ==> r == Err::<(), QueueError>(QueueError::Closed),
            !old(self).is_closed_spec() && old(self)@.len() >= QUEUE_CAPACITY ==> r == Err::<
                (),
                QueueError,
            >(QueueError::Full),
            !old(self).is_closed_spec() && old(self)@.len() < QUEUE_CAPACITY ==> r == Ok::<
                (),
                QueueError,
            >(()),
            r is Ok ==> final(self)@ == old(self)@.push(event),
            r is Err ==> final(self)@ == old(self)@,
            !old(self).is_closed_spec() ==> final(self)@ == offered(old(self)@, event),
            final(self)@.len() <= QUEUE_CAPACITY,
            final(self).is_closed_spec() == old(self).is_closed_spec(),
    {
        if self.closed {
            return Err(QueueError::Closed);
        }
        if self.items.len() >= QUEUE_CAPACITY {
            return Err(QueueError::Full);
        }
        self.items.push(event);
        Ok(())
    }

    /// Takes the oldest waiting event, if any.
    pub fn dequeue(&mut self) -> (r: Option<Event>)
        requires
            old(self).wf(),
        ensures
            final(self).wf(),
            old(self)@.len() == 0 ==> r is None && final(self)@ == old(self)@,
            old(self)@.len() > 0 ==> r == Some(old(self)@[0]) && final(self)@ == old(self)@.skip(1),
            final(self).is_closed_spec() == old(self).is_closed_spec(),
    {
        if self.items.len() == 0 {
            return None;
        }
        let e = self.items.remove(0);
        assert(self.items@ =~= old(self)@.skip(1));
        Some(e)
    }

    /// Closes the queue to new entries; waiting events stay.
    pub fn close(&mut self)
        requires
            old(self).wf(),
        ensures
            final(self).wf(),
            final(self).is_closed_spec(),
            final(self)@ == old(self)@,
    {
        self.closed = true;
    }

    /// Discards every waiting event.
    pub fn clear(&mut self)
        requires
            old(self).wf(),
        ensures
            final(self).wf(),
            final(self)@ == Seq::<Event>::empty(),
            final(self).is_closed_spec() == old(self).is_closed_spec(),
    {
        self.items = Vec::new();
    }
}

/// What became of one pushed payload.
#[derive(Debug, Clone)]
pub enum Ingested {
    /// The event waits for the consumer.
    Queued,
    /// The event was of no recognized kind and was dropped on purpose.
    Ignored,
    /// The payload did not decode.
    Rejected(DecodeError),
    /// The queue refused the event.
    Dropped(QueueError),
}

/// What ingesting `raw` answers, for a queue that holds `len` events and
/// is closed or not.
pub open spec fn ingested_as(raw: RawEvent, len: int, closed: bool, r: Ingested) -> bool {
    if is_malformed(raw) {
        r matches Ingested::Rejected(DecodeError::Malformed)
    } else if has_bad_amount(raw) {
        r matches Ingested::Rejected(DecodeError::InvalidAmount(t)) && t@ == first_amount(raw)->0
    } else if raw_kind(raw) is Unknown {
        r is Ignored
    } else if closed {
        r matches Ingested::Dropped(QueueError::Closed)
    } else if len >= QUEUE_CAPACITY {
        r matches Ingested::Dropped(QueueError::Full)
    } else {
        r is Queued
    }
}

/// The transport's entry point: decodes a payload and queues the event
/// unless it failed to decode or is of no recognized kind.
pub fn ingest(queue: &mut EventQueue, raw: &RawEvent) -> (r: Ingested)
    requires
        old(queue).wf(),
    ensures
        final(queue).wf(),
        ingested_as(*raw, old(queue)@.len() as int, old(queue).is_closed_spec(), r),
        r is Queued ==> {
            &&& final(queue)@ == old(queue)@.push(final(queue)@.last())
            &&& decodes_to(*raw, final(queue)@.last())
            &&& final(queue)@.last().kind != EventKind::Unknown
        },
        !(r is Queued) ==> final(queue)@ == old(queue)@,
        final(queue)@.len() <= QUEUE_CAPACITY,
        final(queue).is_closed_spec() == old(queue).is_closed_spec(),
{
    match decode(raw) {
        Err(e) => Ingested::Rejected(e),
        Ok(event) => {
            if matches!(event.kind, EventKind::Unknown) {
                Ingested::Ignored
            } else {
                let ghost e = event;
                match queue.enqueue(event) {
                    Ok(()) => {
                        assert(queue@.last() == e);
                        Ingested::Queued
                    },
                    Err(q) => Ingested::Dropped(q),
                }
            }
        },
    }
}

} // verus!
