//! Received messages, held until the caller takes them.
//!
//! The router hands a message over once and keeps no copy, so the event queue
//! dropping one would lose it: they wait here instead, under a ceiling.

pub mod store;

use vstd::prelude::*;

use self::store::Held;

verus! {

/// Without a ceiling a flood fills the disk instead of the queue.
pub const MAX_HELD: usize = 10000;

pub struct Inbox {
    held: Held,
    next_seq: u64,
    dropped: u64,
}

impl Inbox {
    pub closed spec fn wf(&self) -> bool {
        &&& self.held.wf()
        &&& forall|i: int| 0 <= i < self.held.entries().len() ==> #[trigger] self.held.entries()[i].0 < self.next_seq
    }

    /// The messages held, oldest first.
    pub closed spec fn messages(&self) -> Seq<String> {
        self.held.entries().map_values(|entry: (u64, String)| entry.1)
    }

    /// The sequence numbers they are held under, in the same order.
    pub closed spec fn numbers(&self) -> Seq<u64> {
        self.held.entries().map_values(|entry: (u64, String)| entry.0)
    }

    /// The number the next message will be held under.
    pub closed spec fn next_number(&self) -> u64 {
        self.next_seq
    }

    /// Messages refused at the ceiling and not yet reported.
    pub closed spec fn refused(&self) -> u64 {
        self.dropped
    }

    /// For a node with no storage directory: held, but not across a restart.
    pub fn ephemeral() -> (res: Inbox)
        ensures
            res.wf(),
            res.messages().len() == 0,
            res.next_number() == 0,
            res.refused() == 0,
    {
        Inbox { held: Held::new(), next_seq: 0, dropped: 0 }
    }

    /// What a previous run left held, numbering on after the last of it.
    pub fn restored(held: Held) -> (res: Inbox)
        requires
            held.wf(),
            forall|i: int| 0 <= i < held.entries().len() ==> #[trigger] held.entries()[i].0 < u64::MAX,
        ensures
            res.wf(),
            res.messages() == held.entries().map_values(|entry: (u64, String)| entry.1),
            res.numbers() == held.entries().map_values(|entry: (u64, String)| entry.0),
            res.refused() == 0,
            held.entries().len() == 0 ==> res.next_number() == 0,
            held.entries().len() > 0 ==> res.next_number() == held.entries().last().0 + 1,
    {
        let next_seq = match held.last_key() {
            Some(last) => {
                proof {
                    assert(held.entries()[held.entries().len() - 1].0 < u64::MAX);
                }
                last + 1
            },
            None => 0,
        };
        Inbox { held, next_seq, dropped: 0 }
    }

    /// Holds a message, or counts it refused at the ceiling. Either way it uses
    /// up a sequence number. Returns the number it is held under.
    pub fn push(&mut self, json: String) -> (res: Option<u64>)
        requires
            old(self).wf(),
            old(self).next_number() < u64::MAX,
            old(self).refused() < u64::MAX,
        ensures
            final(self).wf(),
            final(self).next_number() == old(self).next_number() + 1,
            old(self).messages().len() >= MAX_HELD ==> res is None
                && final(self).messages() == old(self).messages()
                && final(self).numbers() == old(self).numbers()
                && final(self).refused() == old(self).refused() + 1,
            old(self).messages().len() < MAX_HELD ==> res == Some(old(self).next_number())
                && final(self).messages() == old(self).messages().push(json)
                && final(self).numbers() == old(self).numbers().push(old(self).next_number())
                && final(self).refused() == old(self).refused(),
    {
        let seq = self.next_seq;
        self.next_seq = seq + 1;
        if self.held.len() >= MAX_HELD {
            self.dropped = self.dropped + 1;
            return None;
        }
        let ghost before = self.held.entries();
        self.held.append(seq, json);
        proof {
            assert(self.messages() =~= old(self).messages().push(json));
            assert(self.numbers() =~= old(self).numbers().push(seq));
        }
        Some(seq)
    }

    /// The oldest message held, and the number it was held under.
    pub fn pop(&mut self) -> (res: Option<(u64, String)>)
        requires
            old(self).wf(),
        ensures
            final(self).wf(),
            final(self).next_number() == old(self).next_number(),
            final(self).refused() == old(self).refused(),
            old(self).messages().len() == 0 ==> res is None && final(self).messages() == old(self).messages(),
            old(self).messages().len() > 0 ==> res == Some((old(self).numbers()[0], old(self).messages()[0]))
                && final(self).messages() == old(self).messages().drop_first()
                && final(self).numbers() == old(self).numbers().drop_first(),
    {
        let res = self.held.pop_first();
        proof {
            if old(self).messages().len() > 0 {
                assert(self.messages() =~= old(self).messages().drop_first());
                assert(self.numbers() =~= old(self).numbers().drop_first());
            }
        }
        res
    }

    /// Whether another message can be numbered, held or counted: sequence
    /// numbers and the refusal count are 64-bit and never wrap.
    pub fn has_room_to_count(&self) -> (res: bool)
        ensures
            res == (self.next_number() < u64::MAX && self.refused() < u64::MAX),
    {
        self.next_seq < u64::MAX && self.dropped < u64::MAX
    }

    /// How many messages were refused since the last call, which resets it.
    pub fn take_dropped(&mut self) -> (res: u64)
        requires
            old(self).wf(),
        ensures
            final(self).wf(),
            res == old(self).refused(),
            final(self).refused() == 0,
            final(self).messages() == old(self).messages(),
            final(self).numbers() == old(self).numbers(),
            final(self).next_number() == old(self).next_number(),
    {
        let dropped = self.dropped;
        self.dropped = 0;
        dropped
    }
}

} // verus!
