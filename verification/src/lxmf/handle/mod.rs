//! The caller's side of the LXMF stack: the queues it polls.

pub mod router_state;
pub mod sink;

use vstd::prelude::*;

use self::sink::EventSink;
use crate::lxmf::inbox::Inbox;
use crate::lxmf::poll::Report;

verus! {

/// Capped because a caller can stop polling while the mesh keeps delivering:
/// the loss is counted and reported as an `overflow` event rather than growing
/// until the process runs out of memory.
pub const MAX_QUEUED_EVENTS: usize = 4096;

/// Which queue overflowed.
#[derive(Clone, Copy, Debug, PartialEq, Eq, Structural)]
pub enum Overflow {
    /// Received messages are gone; only the sender can produce them again.
    Messages,
    /// Entries refused by a full event queue: delivery states superseded
    /// unseen, and announces from peers heard while it was full.
    Delivery,
}

pub open spec fn overflow_token(kind: Overflow) -> Seq<char> {
    match kind {
        Overflow::Messages => "messages"@,
        Overflow::Delivery => "delivery"@,
    }
}

impl Overflow {
    pub fn token(&self) -> (res: &'static str)
        ensures
            res@ == overflow_token(*self),
    {
        match self {
            Overflow::Messages => "messages",
            Overflow::Delivery => "delivery",
        }
    }
}

/// The oldest received message was handed over and taken out of the inbox.
pub open spec fn took_message(before: Queues, after: Queues, res: Option<Polled>) -> bool {
    &&& res is Some
    &&& res->0.report == Report::Rendered(before.inbox.messages()[0])
    &&& res->0.taken == Some(before.inbox.numbers()[0])
    &&& after.inbox.messages() == before.inbox.messages().drop_first()
    &&& after.inbox.refused() == before.inbox.refused()
    &&& after.events == before.events
}

/// The count of messages refused at the inbox's ceiling was handed over and reset.
pub open spec fn reported_refusals(before: Queues, after: Queues, res: Option<Polled>) -> bool {
    &&& res is Some
    &&& res->0.report == (Report::Overflow { kind: Overflow::Messages, dropped: before.inbox.refused() })
    &&& res->0.taken is None
    &&& after.inbox.refused() == 0
    &&& after.inbox.messages() == before.inbox.messages()
    &&& after.events == before.events
}

/// The oldest queued event was handed over, or nothing when none waits.
pub open spec fn took_event(before: Queues, after: Queues, res: Option<Polled>) -> bool {
    &&& after.inbox.messages() == before.inbox.messages()
    &&& after.inbox.refused() == 0
    &&& after.events.refused() == before.events.refused()
    &&& before.events.events().len() == 0 ==> res is None && after.events.events() == before.events.events()
    &&& before.events.events().len() > 0 ==> {
        &&& res is Some
        &&& res->0.report == before.events.events()[0]
        &&& res->0.taken is None
        &&& after.events.events() == before.events.events().drop_first()
        &&& after.events.places() == before.events.places().drop_first()
    }
}

/// What one poll hands the caller, and, for a received message, the number it
/// was held under in the inbox, so the store can forget it.
pub struct Polled {
    pub report: Report,
    pub taken: Option<u64>,
}

/// Everything the caller polls: received messages, held in the inbox, go first;
/// a delivery update can wait behind them.
pub struct Queues {
    pub inbox: Inbox,
    pub events: EventSink,
}

impl Queues {
    pub open spec fn wf(&self) -> bool {
        self.inbox.wf() && self.events.wf()
    }

    pub fn new(inbox: Inbox) -> (res: Queues)
        requires
            inbox.wf(),
        ensures
            res.wf(),
            res.inbox == inbox,
            res.events.events().len() == 0,
            res.events.refused() == 0,
    {
        Queues { inbox, events: sink::new() }
    }

    /// The next thing the caller should see: the oldest received message; else
    /// how many were refused at the inbox's ceiling, if any; else the oldest
    /// queued event.
    pub fn next_event(&mut self) -> (res: Option<Polled>)
        requires
            old(self).wf(),
        ensures
            final(self).wf(),
            old(self).inbox.messages().len() > 0 ==> took_message(*old(self), *final(self), res),
            old(self).inbox.messages().len() == 0 && old(self).inbox.refused() > 0 ==> (
            reported_refusals(*old(self), *final(self), res)),
            old(self).inbox.messages().len() == 0 && old(self).inbox.refused() == 0 ==> (
            took_event(*old(self), *final(self), res)),
    {
        if let Some((seq, json)) = self.inbox.pop() {
            return Some(Polled { report: Report::Rendered(json), taken: Some(seq) });
        }
        let refused = self.inbox.take_dropped();
        if refused > 0 {
            return Some(Polled { report: Report::Overflow { kind: Overflow::Messages, dropped: refused }, taken: None });
        }
        match self.events.take_next() {
            Some(report) => Some(Polled { report, taken: None }),
            None => None,
        }
    }
}

} // verus!
