//! The processor's end of the event queue, and the caller's end that drains it.

use vstd::prelude::*;

use super::{Overflow, MAX_QUEUED_EVENTS};
use crate::bytes::same_bytes;
use crate::lxmf::poll::Report;

verus! {

/// Above this many remembered peers the map is swept of the ones whose
/// announce has already been read. Twice the queue bound, so a sweep always
/// has at least that many entries to reclaim and cannot become per-push work.
pub const MAX_REMEMBERED_PEERS: usize = 2 * MAX_QUEUED_EVENTS;

/// One entry of the queue. An announce is held indirectly, through its peer's
/// slot, so a newer one from the same peer can replace it where it already
/// sits instead of queueing behind it.
pub enum Queued {
    Report(Report),
    Announce([u8; 16]),
}

/// One peer's place in the queue, full exactly while that place is occupied.
pub struct Slot {
    held: Option<String>,
}

impl Slot {
    pub closed spec fn content(&self) -> Option<String> {
        self.held
    }

    pub fn empty() -> (res: Slot)
        ensures
            res.content() is None,
    {
        Slot { held: None }
    }

    pub fn held(&self) -> (res: &Option<String>)
        ensures
            *res == self.content(),
    {
        &self.held
    }

    /// Replaces a pending announce in place, or hands `json` back when this
    /// peer holds no place in the queue and one has to be taken.
    pub fn supersede(&mut self, json: String) -> (res: Option<String>)
        ensures
            old(self).content() is None ==> res == Some(json) && final(self).content() is None,
            old(self).content() is Some ==> res is None && final(self).content() == Some(json),
    {
        if self.held.is_none() {
            return Some(json);
        }
        self.held = Some(json);
        None
    }

    pub fn fill(&mut self, json: String)
        ensures
            final(self).content() == Some(json),
    {
        self.held = Some(json);
    }

    pub fn take(&mut self) -> (res: Option<String>)
        ensures
            res == old(self).content(),
            final(self).content() is None,
    {
        let mut out = None;
        std::mem::swap(&mut out, &mut self.held);
        out
    }

    pub fn is_pending(&self) -> (res: bool)
        ensures
            res == self.content() is Some,
    {
        self.held.is_some()
    }
}

/// The position of `peer` among `peers`, if it has one.
pub open spec fn has_peer(peers: Seq<[u8; 16]>, peer: [u8; 16]) -> bool {
    exists|k: int| 0 <= k < peers.len() && peers[k] == peer
}

pub open spec fn index_of_peer(peers: Seq<[u8; 16]>, peer: [u8; 16]) -> int {
    choose|k: int| 0 <= k < peers.len() && peers[k] == peer
}

pub open spec fn distinct_peers(peers: Seq<[u8; 16]>) -> bool {
    forall|i: int, j: int| 0 <= i < j < peers.len() ==> peers[i] != peers[j]
}

impl Queued {
    /// The peer whose place this entry is, for an announce.
    pub open spec fn place(self) -> Option<[u8; 16]> {
        match self {
            Queued::Announce(peer) => Some(peer),
            Queued::Report(_) => None,
        }
    }

    /// The entry as the caller reads it: a report as it is, an announce as
    /// whatever its peer's slot holds now, which empties the slot.
    pub fn into_json(self, peers: &Vec<[u8; 16]>, slots: &mut Vec<Slot>) -> (res: Option<Report>)
        requires
            peers@.len() == old(slots)@.len(),
            distinct_peers(peers@),
        ensures
            final(slots)@.len() == old(slots)@.len(),
            match self {
                Queued::Report(report) => res == Some(report) && final(slots)@ == old(slots)@,
                Queued::Announce(peer) => if has_peer(peers@, peer) {
                    let k = index_of_peer(peers@, peer);
                    &&& res == match old(slots)@[k].content() {
                        Some(json) => Some(Report::Rendered(json)),
                        None => None,
                    }
                    &&& final(slots)@[k].content() is None
                    &&& forall|j: int| 0 <= j < old(slots)@.len() && j != k ==> final(slots)@[j] == old(slots)@[j]
                } else {
                    res is None && final(slots)@ == old(slots)@
                },
            },
    {
        match self {
            Queued::Report(report) => Some(report),
            Queued::Announce(peer) => match find_peer(peers, &peer) {
                Some(k) => {
                    proof {
                        assert(has_peer(peers@, peer));
                        let c = index_of_peer(peers@, peer);
                        assert(c == k as int);
                    }
                    match slots[k].take() {
                        Some(json) => Some(Report::Rendered(json)),
                        None => None,
                    }
                },
                None => None,
            },
        }
    }
}

/// Where `peer` stands among `peers`.
pub fn find_peer(peers: &Vec<[u8; 16]>, peer: &[u8; 16]) -> (res: Option<usize>)
    ensures
        match res {
            Some(k) => k < peers@.len() && peers@[k as int] == *peer,
            None => !has_peer(peers@, *peer),
        },
{
    let mut k: usize = 0;
    while k < peers.len()
        invariant
            0 <= k <= peers@.len(),
            forall|j: int| 0 <= j < k ==> peers@[j] != *peer,
        decreases peers@.len() - k,
    {
        if same_bytes(&peers[k], peer) {
            return Some(k);
        }
        k += 1;
    }
    None
}

/// Every push is non-blocking, and the queue is read from the front. The
/// entries waiting are `queue`; an announce's content lives in its peer's slot.
pub struct EventSink {
    queue: Vec<Queued>,
    peers: Vec<[u8; 16]>,
    slots: Vec<Slot>,
    dropped: u64,
    /// Whether anyone still reads the queue.
    reader: bool,
}

impl EventSink {
    /// The queue is bounded, peers are remembered once each, and a peer's slot
    /// is full exactly while one entry of the queue is that peer's place.
    pub closed spec fn wf(&self) -> bool {
        &&& self.queue@.len() <= MAX_QUEUED_EVENTS + 1
        &&& self.peers@.len() == self.slots@.len()
        &&& distinct_peers(self.peers@)
        &&& forall|i: int| #![trigger self.queue@[i]]
            0 <= i < self.queue@.len() && self.queue@[i].place() is Some ==> {
                let peer = self.queue@[i].place()->0;
                has_peer(self.peers@, peer)
                    && self.slots@[index_of_peer(self.peers@, peer)].content() is Some
            }
        &&& forall|i: int, j: int|
            #![trigger self.queue@[i], self.queue@[j]]
            0 <= i < j < self.queue@.len() && self.queue@[i].place() is Some
                ==> self.queue@[i].place() != self.queue@[j].place()
        &&& forall|k: int| #![trigger self.slots@[k]]
            0 <= k < self.slots@.len() && self.slots@[k].content() is Some ==> exists|i: int|
                0 <= i < self.queue@.len() && self.queue@[i].place() == Some(self.peers@[k])
    }

    /// The entry at `i` as the caller will read it.
    pub closed spec fn event_at(&self, i: int) -> Report {
        match self.queue@[i] {
            Queued::Report(report) => report,
            Queued::Announce(peer) => Report::Rendered(
                self.slots@[index_of_peer(self.peers@, peer)].content()->0,
            ),
        }
    }

    /// What the caller will read, in order.
    pub closed spec fn events(&self) -> Seq<Report> {
        Seq::new(self.queue@.len(), |i: int| self.event_at(i))
    }

    /// Which entries are a peer's announce, and whose.
    pub closed spec fn places(&self) -> Seq<Option<[u8; 16]>> {
        Seq::new(self.queue@.len(), |i: int| self.queue@[i].place())
    }

    /// The entries waiting, as queued.
    pub closed spec fn entries(&self) -> Seq<Queued> {
        self.queue@
    }

    /// The peers remembered, and their slots, side by side.
    pub closed spec fn remembered(&self) -> (Seq<[u8; 16]>, Seq<Slot>) {
        (self.peers@, self.slots@)
    }

    /// Whether the caller still reads the queue: once it is gone, nothing
    /// more is queued.
    pub closed spec fn reader_alive(&self) -> bool {
        self.reader
    }

    /// Entries refused since the last overflow report.
    pub closed spec fn refused(&self) -> u64 {
        self.dropped
    }

    /// Whether `peer` holds a place in the queue.
    pub closed spec fn holds_place(&self, peer: [u8; 16]) -> bool {
        exists|i: int| 0 <= i < self.queue@.len() && self.queue@[i].place() == Some(peer)
    }

    /// Whether another refusal can be counted: the count is 64-bit and never
    /// wraps.
    pub fn has_room_to_count(&self) -> (res: bool)
        ensures
            res == (self.refused() < u64::MAX),
    {
        self.dropped < u64::MAX
    }

    /// How many entries wait to be read.
    pub fn depth(&self) -> (res: usize)
        ensures
            res == self.events().len(),
    {
        self.queue.len()
    }

    /// The caller's read: the oldest entry, as it reads now. An announce's
    /// place is given up as it is read, so the peer's next announce takes a
    /// new one.
    pub fn take_next(&mut self) -> (res: Option<Report>)
        requires
            old(self).wf(),
        ensures
            final(self).wf(),
            final(self).refused() == old(self).refused(),
            final(self).reader_alive() == old(self).reader_alive(),
            old(self).events().len() == 0 ==> res is None && final(self).events() == old(self).events()
                && final(self).places() == old(self).places(),
            old(self).events().len() > 0 ==> res == Some(old(self).events()[0])
                && final(self).events() == old(self).events().drop_first()
                && final(self).places() == old(self).places().drop_first(),
    {
        if self.queue.len() == 0 {
            return None;
        }
        let ghost before = *self;
        let queued = self.queue.remove(0);
        let res = queued.into_json(&self.peers, &mut self.slots);
        proof {
            lemma_read_front(before, *self);
        }
        res
    }

    pub fn push(&mut self, report: Report)
        requires
            old(self).wf(),
            old(self).refused() < u64::MAX,
        ensures
            final(self).wf(),
            pushed(*old(self), *final(self), report, None),
    {
        let ghost s0 = *self;
        if self.reserve() {
            let ghost before = *self;
            proof {
                if s0.dropped == 0 {
                    assert(before.events() =~= s0.events());
                    assert(before.places() =~= s0.places());
                }
            }
            if self.emit(Queued::Report(report)) {
                proof {
                    lemma_appended_report(before, *self, report);
                }
            } else {
                proof {
                    assert(self.events() =~= s0.events());
                    assert(self.places() =~= s0.places());
                }
            }
        } else {
            proof {
                assert(self.events() =~= s0.events());
                assert(self.places() =~= s0.places());
            }
        }
    }

    /// A peer's latest announce, superseding whatever it had queued.
    ///
    /// A supersede costs no slot, so it is allowed even on a full queue: what
    /// it loses is an announce the next one replaces anyway, and what it keeps
    /// are the delivery updates that would have been crowded out.
    pub fn push_announce(&mut self, source: [u8; 16], json: String)
        requires
            old(self).wf(),
            old(self).refused() < u64::MAX,
        ensures
            final(self).wf(),
            final(self).reader_alive() == old(self).reader_alive(),
            old(self).holds_place(source) ==> {
                &&& final(self).refused() == old(self).refused()
                &&& final(self).places() == old(self).places()
                &&& final(self).events().len() == old(self).events().len()
                &&& forall|i: int| 0 <= i < old(self).events().len() ==> #[trigger] final(self).events()[i]
                    == if old(self).places()[i] == Some(source) {
                        Report::Rendered(json)
                    } else {
                        old(self).events()[i]
                    }
            },
            !old(self).holds_place(source) ==> pushed(*old(self), *final(self), Report::Rendered(json), Some(source)),
    {
        self.forget_read_peers();
        let ghost s0 = *self;
        let k = match find_peer(&self.peers, &source) {
            Some(k) => {
                proof {
                    lemma_index_of_peer(self.peers@, source, k as int);
                }
                k
            },
            None => {
                self.peers.push(source);
                self.slots.push(Slot::empty());
                proof {
                    assert(self.slots@.take(s0.slots@.len() as int) =~= s0.slots@);
                    lemma_remember_new_peer(s0, *self, source);
                }
                self.peers.len() - 1
            },
        };
        let ghost s1 = *self;
        proof {
            lemma_index_of_peer(self.peers@, source, k as int);
            if s1.holds_place(source) {
                let i = choose|i: int| 0 <= i < s1.queue@.len() && s1.queue@[i].place() == Some(source);
                assert(s1.queue@[i].place() is Some);
            } else {
                if s1.slots@[k as int].content() is Some {
                    let i = choose|i: int|
                        0 <= i < s1.queue@.len() && s1.queue@[i].place() == Some(s1.peers@[k as int]);
                    assert(s1.holds_place(source));
                }
            }
        }
        let json = match self.slots[k].supersede(json) {
            Some(json) => json,
            None => {
                proof {
                    lemma_superseded(s1, *self, source, k as int);
                }
                return;
            },
        };
        proof {
            assert(self.slots@[k as int] == s1.slots@[k as int]);
            assert(self.slots@ =~= s1.slots@);
        }
        if !self.reserve() {
            proof {
                assert(self.events() =~= s1.events());
                assert(self.places() =~= s1.places());
            }
            return;
        }
        let ghost s2 = *self;
        proof {
            if s1.dropped == 0 {
                assert(s2.events() =~= s1.events());
                assert(s2.places() =~= s1.places());
            }
        }
        self.slots[k].fill(json);
        if !self.emit(Queued::Announce(source)) {
            self.slots[k].take();
            proof {
                assert(self.slots@ =~= s2.slots@);
                assert(self.events() =~= s2.events());
                assert(self.places() =~= s2.places());
                if s1.dropped == 0 {
                    assert(s2.events() =~= s1.events());
                    assert(s2.places() =~= s1.places());
                }
                assert(s1.events() == old(self).events());
                assert(s1.places() == old(self).places());
                assert(s1.refused() == old(self).refused());
                assert(!old(self).reader_alive());
                assert(self.reader_alive() == old(self).reader_alive());
                assert(old(self).events().len() < MAX_QUEUED_EVENTS);
                assert(self.refused() == 0);
                assert(self.events() == old(self).events());
                assert(self.places() == old(self).places());
            }
            return;
        }
        proof {
            lemma_placed(s2, *self, source, k as int);
            assert(s1.events() == old(self).events());
            assert(s1.places() == old(self).places());
            assert(self.slots@[k as int].content() == Some(json));
            assert(s1.refused() == old(self).refused());
            if old(self).refused() == 0 {
                assert(self.events() == old(self).events().push(Report::Rendered(json)));
                assert(self.places() == old(self).places().push(Some(source)));
            } else {
                assert(self.events() == old(self).events().push(
                    Report::Overflow { kind: Overflow::Delivery, dropped: old(self).refused() },
                ).push(Report::Rendered(json)));
            }
        }
    }

    /// Room for one more entry; on a full queue the refusal is counted, and the
    /// first entry after it reports the count.
    pub fn reserve(&mut self) -> (res: bool)
        requires
            old(self).wf(),
            old(self).refused() < u64::MAX,
        ensures
            final(self).wf(),
            final(self).remembered() == old(self).remembered(),
            final(self).reader_alive() == old(self).reader_alive(),
            res == (old(self).entries().len() < MAX_QUEUED_EVENTS),
            !res ==> final(self).entries() == old(self).entries() && final(self).refused() == old(self).refused() + 1,
            res && old(self).refused() == 0 ==> final(self).entries() == old(self).entries() && final(self).refused() == 0,
            res && old(self).refused() > 0 && !old(self).reader_alive() ==> final(self).refused() == 0
                && final(self).entries() == old(self).entries()
                && final(self).events() == old(self).events()
                && final(self).places() == old(self).places(),
            res && old(self).refused() > 0 && old(self).reader_alive() ==> final(self).refused() == 0
                && final(self).entries() == old(self).entries().push(
                    Queued::Report(Report::Overflow { kind: Overflow::Delivery, dropped: old(self).refused() }),
                )
                && final(self).events() == old(self).events().push(
                    Report::Overflow { kind: Overflow::Delivery, dropped: old(self).refused() },
                )
                && final(self).places() == old(self).places().push(None),
    {
        if self.queue.len() >= MAX_QUEUED_EVENTS {
            self.dropped = self.dropped + 1;
            return false;
        }
        if self.dropped > 0 {
            let lost = self.dropped;
            self.dropped = 0;
            let ghost before = *self;
            if self.emit(Queued::Report(Report::Overflow { kind: Overflow::Delivery, dropped: lost })) {
                proof {
                    lemma_appended_report(before, *self, Report::Overflow { kind: Overflow::Delivery, dropped: lost });
                }
            } else {
                proof {
                    assert(self.events() =~= old(self).events());
                    assert(self.places() =~= old(self).places());
                }
            }
        }
        true
    }

    /// Hands one entry to the reader: queued at the back while the reader is
    /// there, and nothing queued, reported as `false`, once it is gone.
    pub fn emit(&mut self, queued: Queued) -> (res: bool)
        requires
            old(self).entries().len() <= MAX_QUEUED_EVENTS,
        ensures
            res == old(self).reader_alive(),
            res ==> final(self).entries() == old(self).entries().push(queued),
            !res ==> final(self).entries() == old(self).entries(),
            final(self).remembered() == old(self).remembered(),
            final(self).refused() == old(self).refused(),
            final(self).reader_alive() == old(self).reader_alive(),
    {
        if !self.reader {
            return false;
        }
        self.queue.push(queued);
        true
    }

    /// The caller stopped reading: from now on nothing more is queued.
    pub fn reader_gone(&mut self)
        requires
            old(self).wf(),
        ensures
            final(self).wf(),
            !final(self).reader_alive(),
            final(self).entries() == old(self).entries(),
            final(self).events() == old(self).events(),
            final(self).places() == old(self).places(),
            final(self).remembered() == old(self).remembered(),
            final(self).refused() == old(self).refused(),
    {
        self.reader = false;
        proof {
            assert(self.events() =~= old(self).events());
            assert(self.places() =~= old(self).places());
        }
    }

    /// An emptied slot is one that has been read, so nothing points at it any
    /// more and the peer can be remembered again from scratch.
    pub fn forget_read_peers(&mut self)
        requires
            old(self).wf(),
        ensures
            final(self).wf(),
            final(self).entries() == old(self).entries(),
            final(self).refused() == old(self).refused(),
            final(self).reader_alive() == old(self).reader_alive(),
            final(self).events() == old(self).events(),
            final(self).places() == old(self).places(),
            old(self).remembered().0.len() <= MAX_REMEMBERED_PEERS ==> final(self).remembered() == old(self).remembered(),
            old(self).remembered().0.len() > MAX_REMEMBERED_PEERS ==> forall|k: int|
                0 <= k < final(self).remembered().1.len() ==> (#[trigger] final(self).remembered().1[k]).content() is Some,
            forall|k: int| 0 <= k < old(self).remembered().1.len() && (#[trigger] old(self).remembered().1[k]).content() is Some
                ==> final(self).remembered().0.contains(old(self).remembered().0[k]),
    {
        if self.peers.len() <= MAX_REMEMBERED_PEERS {
            return;
        }
        let ghost orig = *self;
        let mut old_peers: Vec<[u8; 16]> = Vec::new();
        let mut old_slots: Vec<Slot> = Vec::new();
        std::mem::swap(&mut old_peers, &mut self.peers);
        std::mem::swap(&mut old_slots, &mut self.slots);
        let ghost mut from: Seq<int> = Seq::empty();
        while old_peers.len() > 0
            invariant
                orig.wf(),
                self.queue == orig.queue,
                self.dropped == orig.dropped,
                self.reader == orig.reader,
                old_peers@.len() == old_slots@.len(),
                old_peers@.len() <= orig.peers@.len(),
                old_peers@ == orig.peers@.take(old_peers@.len() as int),
                old_slots@ == orig.slots@.take(old_slots@.len() as int),
                self.peers@.len() == self.slots@.len(),
                from.len() == self.peers@.len(),
                forall|j: int| #![trigger from[j]]
                    0 <= j < from.len() ==> old_peers@.len() <= from[j] < orig.peers@.len()
                        && self.peers@[j] == orig.peers@[from[j]]
                        && self.slots@[j] == orig.slots@[from[j]]
                        && orig.slots@[from[j]].content() is Some,
                forall|a: int, b: int| 0 <= a < b < from.len() ==> from[a] > from[b],
                forall|i: int| #![trigger orig.slots@[i]]
                    old_peers@.len() <= i < orig.peers@.len() && orig.slots@[i].content() is Some
                        ==> exists|j: int| 0 <= j < from.len() && from[j] == i,
            decreases old_peers@.len(),
        {
            let peer = old_peers.pop().unwrap();
            let slot = old_slots.pop().unwrap();
            let ghost at = old_peers@.len() as int;
            if slot.is_pending() {
                self.peers.push(peer);
                self.slots.push(slot);
                proof {
                    let ghost old_from = from;
                    from = from.push(at);
                    assert forall|i: int| #![trigger orig.slots@[i]]
                        old_peers@.len() <= i < orig.peers@.len() && orig.slots@[i].content() is Some
                            implies exists|j: int| 0 <= j < from.len() && from[j] == i by {
                        if i == at {
                            assert(from[from.len() - 1] == i);
                        } else {
                            assert(exists|j: int| 0 <= j < old_from.len() && old_from[j] == i);
                            let j = choose|j: int| 0 <= j < old_from.len() && old_from[j] == i;
                            assert(from[j] == i);
                        }
                    }
                }
            } else {
                proof {
                    assert forall|i: int| #![trigger orig.slots@[i]]
                        old_peers@.len() <= i < orig.peers@.len() && orig.slots@[i].content() is Some
                            implies exists|j: int| 0 <= j < from.len() && from[j] == i by {
                        if i == at {
                            assert(orig.slots@[at] == slot);
                        }
                    }
                }
            }
        }
        proof {
            lemma_swept(orig, *self, from);
            assert forall|k: int| 0 <= k < orig.slots@.len() && (#[trigger] orig.slots@[k]).content() is Some
                implies self.peers@.contains(orig.peers@[k]) by {
                let j = choose|j: int| 0 <= j < from.len() && from[j] == k;
                assert(self.peers@[j] == orig.peers@[k]);
            }
            assert forall|k: int| 0 <= k < self.slots@.len() implies (#[trigger] self.slots@[k]).content() is Some by {
                assert(self.slots@[k] == orig.slots@[from[k]]);
            }
        }
    }
}

/// A peer holds at most one place in the queue, however often it announces.
pub proof fn one_place_per_peer(sink: EventSink)
    requires
        sink.wf(),
    ensures
        forall|i: int, j: int|
            0 <= i < j < sink.places().len() && sink.places()[i] is Some ==> sink.places()[i] != sink.places()[j],
{
    assert forall|i: int, j: int|
        0 <= i < j < sink.places().len() && sink.places()[i] is Some implies sink.places()[i] != sink.places()[j] by {
        assert(sink.queue@[i].place() is Some);
        assert(sink.queue@[i].place() != sink.queue@[j].place());
    }
}

/// A peer holds a place in the queue exactly when one of the places is its.
pub proof fn a_held_place_is_a_place(sink: EventSink, peer: [u8; 16])
    ensures
        sink.holds_place(peer) <==> sink.places().contains(Some(peer)),
{
    if sink.holds_place(peer) {
        let i = choose|i: int| 0 <= i < sink.queue@.len() && sink.queue@[i].place() == Some(peer);
        assert(sink.places()[i] == Some(peer));
    }
    if sink.places().contains(Some(peer)) {
        let i = choose|i: int| 0 <= i < sink.places().len() && sink.places()[i] == Some(peer);
        assert(sink.queue@[i].place() == Some(peer));
    }
}

/// The queue never holds more than its bound plus the overflow report that
/// may precede the entry that fits last.
pub proof fn the_queue_is_bounded(sink: EventSink)
    requires
        sink.wf(),
    ensures
        sink.events().len() <= MAX_QUEUED_EVENTS + 1,
        sink.places().len() == sink.events().len(),
{
}

/// `after` is `before` with `report` appended as the place of `place` (none for
/// a plain report), or, on a full queue, `before` with one more refusal counted;
/// a pending count of refusals is reported just ahead of the first entry that
/// fits. Once the reader is gone, nothing is queued, and the pending count
/// goes with the report that would have carried it.
pub open spec fn pushed(before: EventSink, after: EventSink, report: Report, place: Option<[u8; 16]>) -> bool {
    &&& after.reader_alive() == before.reader_alive()
    &&& if before.events().len() >= MAX_QUEUED_EVENTS {
        &&& after.events() == before.events()
        &&& after.places() == before.places()
        &&& after.refused() == before.refused() + 1
    } else if !before.reader_alive() {
        &&& after.events() == before.events()
        &&& after.places() == before.places()
        &&& after.refused() == 0
    } else if before.refused() == 0 {
        &&& after.events() == before.events().push(report)
        &&& after.places() == before.places().push(place)
        &&& after.refused() == 0
    } else {
        &&& after.events() == before.events().push(
            Report::Overflow { kind: Overflow::Delivery, dropped: before.refused() },
        ).push(report)
        &&& after.places() == before.places().push(None).push(place)
        &&& after.refused() == 0
    }
}

/// An empty queue, with its reader there.
pub fn new() -> (res: EventSink)
    ensures
        res.wf(),
        res.events().len() == 0,
        res.refused() == 0,
        res.reader_alive(),
{
    EventSink { queue: Vec::new(), peers: Vec::new(), slots: Vec::new(), dropped: 0, reader: true }
}

/// Appending a plain report keeps the queue well formed and adds it at the end.
proof fn lemma_appended_report(before: EventSink, after: EventSink, report: Report)
    requires
        before.wf(),
        before.queue@.len() <= MAX_QUEUED_EVENTS,
        after.queue@ == before.queue@.push(Queued::Report(report)),
        after.peers@ == before.peers@,
        after.slots@ == before.slots@,
    ensures
        after.wf(),
        after.events() == before.events().push(report),
        after.places() == before.places().push(None),
{
    let n = before.queue@.len() as int;
    assert forall|i: int| #![trigger after.queue@[i]]
        0 <= i < after.queue@.len() && after.queue@[i].place() is Some implies {
            let p = after.queue@[i].place()->0;
            has_peer(after.peers@, p) && after.slots@[index_of_peer(after.peers@, p)].content() is Some
        } by {
        assert(before.queue@[i] == after.queue@[i]);
    }
    assert forall|i: int, j: int|
        #![trigger after.queue@[i], after.queue@[j]]
        0 <= i < j < after.queue@.len() && after.queue@[i].place() is Some
            implies after.queue@[i].place() != after.queue@[j].place() by {
        assert(before.queue@[i] == after.queue@[i]);
        if j < n {
            assert(before.queue@[j] == after.queue@[j]);
        }
    }
    assert forall|k: int| #![trigger after.slots@[k]]
        0 <= k < after.slots@.len() && after.slots@[k].content() is Some implies exists|i: int|
            0 <= i < after.queue@.len() && after.queue@[i].place() == Some(after.peers@[k]) by {
        assert(before.slots@[k] == after.slots@[k]);
        let i = choose|i: int| 0 <= i < before.queue@.len() && before.queue@[i].place() == Some(before.peers@[k]);
        assert(after.queue@[i] == before.queue@[i]);
    }
    assert forall|i: int| 0 <= i < n implies #[trigger] after.event_at(i) == before.event_at(i) by {
        assert(after.queue@[i] == before.queue@[i]);
    }
    assert(after.events() =~= before.events().push(report));
    assert(after.places() =~= before.places().push(None));
}

/// Reading the front entry drops it, and empties its peer's slot if it was a place.
proof fn lemma_read_front(before: EventSink, after: EventSink)
    requires
        before.wf(),
        before.queue@.len() > 0,
        after.queue@ == before.queue@.drop_first(),
        after.peers == before.peers,
        after.dropped == before.dropped,
        after.slots@.len() == before.slots@.len(),
        match before.queue@[0] {
            Queued::Report(_) => after.slots@ == before.slots@,
            Queued::Announce(peer) => {
                let k = index_of_peer(before.peers@, peer);
                &&& after.slots@[k].content() is None
                &&& forall|j: int| 0 <= j < before.slots@.len() && j != k ==> after.slots@[j] == before.slots@[j]
            },
        },
    ensures
        after.wf(),
        after.events() == before.events().drop_first(),
        after.places() == before.places().drop_first(),
{
    let n = before.queue@.len() as int;
    assert(before.queue@[0] == before.queue@[0]);
    let k = match before.queue@[0] {
        Queued::Report(_) => -1,
        Queued::Announce(peer) => index_of_peer(before.peers@, peer),
    };
    assert forall|i: int| #![trigger after.queue@[i]]
        0 <= i < after.queue@.len() && after.queue@[i].place() is Some implies {
            let p = after.queue@[i].place()->0;
            has_peer(after.peers@, p) && after.slots@[index_of_peer(after.peers@, p)].content() is Some
        } by {
        assert(after.queue@[i] == before.queue@[i + 1]);
        let p = after.queue@[i].place()->0;
        assert(before.queue@[i + 1].place() is Some);
        if k >= 0 {
            let c = index_of_peer(before.peers@, p);
            if c == k {
                assert(before.peers@[c] == p);
                assert(before.queue@[0].place() is Some);
                assert(before.queue@[0].place() != before.queue@[i + 1].place());
            }
        }
    }
    assert forall|i: int, j: int|
        #![trigger after.queue@[i], after.queue@[j]]
        0 <= i < j < after.queue@.len() && after.queue@[i].place() is Some
            implies after.queue@[i].place() != after.queue@[j].place() by {
        assert(after.queue@[i] == before.queue@[i + 1]);
        assert(after.queue@[j] == before.queue@[j + 1]);
    }
    assert forall|j: int| #![trigger after.slots@[j]]
        0 <= j < after.slots@.len() && after.slots@[j].content() is Some implies exists|i: int|
            0 <= i < after.queue@.len() && after.queue@[i].place() == Some(after.peers@[j]) by {
        assert(j != k);
        assert(before.slots@[j] == after.slots@[j]);
        let i = choose|i: int| 0 <= i < before.queue@.len() && before.queue@[i].place() == Some(before.peers@[j]);
        if i == 0 {
            let p = before.queue@[0].place()->0;
            assert(before.queue@[0].place() is Some);
            lemma_index_of_peer(before.peers@, p, j);
        } else {
            assert(after.queue@[i - 1] == before.queue@[i]);
        }
    }
    assert forall|i: int| 0 <= i < n - 1 implies #[trigger] after.event_at(i) == before.event_at(i + 1) by {
        assert(after.queue@[i] == before.queue@[i + 1]);
        match before.queue@[i + 1] {
            Queued::Report(_) => {},
            Queued::Announce(p) => {
                assert(before.queue@[i + 1].place() is Some);
                let c = index_of_peer(before.peers@, p);
                assert(before.peers@[c] == p);
                if k >= 0 && c == k {
                    assert(before.queue@[0].place() is Some);
                    assert(before.queue@[0].place() != before.queue@[i + 1].place());
                }
            },
        }
    }
    assert(after.events() =~= before.events().drop_first());
    assert(after.places() =~= before.places().drop_first());
}

proof fn lemma_index_of_peer(peers: Seq<[u8; 16]>, peer: [u8; 16], k: int)
    requires
        distinct_peers(peers),
        0 <= k < peers.len(),
        peers[k] == peer,
    ensures
        has_peer(peers, peer),
        index_of_peer(peers, peer) == k,
{
    assert(has_peer(peers, peer));
    let c = index_of_peer(peers, peer);
    if c < k {
        assert(peers[c] != peers[k]);
    } else if c > k {
        assert(peers[k] != peers[c]);
    }
}

/// Remembering a peer that was not remembered changes nothing the caller reads.
proof fn lemma_remember_new_peer(before: EventSink, after: EventSink, peer: [u8; 16])
    requires
        before.wf(),
        !has_peer(before.peers@, peer),
        after.queue == before.queue,
        after.dropped == before.dropped,
        after.peers@ == before.peers@.push(peer),
        after.slots@.len() == before.slots@.len() + 1,
        after.slots@.take(before.slots@.len() as int) == before.slots@,
        after.slots@.last().content() is None,
    ensures
        after.wf(),
        after.events() == before.events(),
        after.places() == before.places(),
        has_peer(after.peers@, peer),
        index_of_peer(after.peers@, peer) == before.peers@.len(),
{
    let n = before.peers@.len() as int;
    assert forall|i: int, j: int| 0 <= i < j < after.peers@.len() implies after.peers@[i] != after.peers@[j] by {
        if j == n {
            assert(before.peers@[i] == after.peers@[i]);
        } else {
            assert(before.peers@[i] != before.peers@[j]);
        }
    }
    assert forall|k: int| 0 <= k < n implies #[trigger] after.slots@[k] == before.slots@[k] by {
        assert(after.slots@.take(n)[k] == after.slots@[k]);
    }
    assert forall|p: [u8; 16]| has_peer(before.peers@, p) implies
        has_peer(after.peers@, p) && index_of_peer(after.peers@, p) == index_of_peer(before.peers@, p) by {
        let k = index_of_peer(before.peers@, p);
        lemma_index_of_peer(after.peers@, p, k);
    }
    lemma_index_of_peer(after.peers@, peer, n);
    assert forall|i: int| #![trigger after.queue@[i]]
        0 <= i < after.queue@.len() && after.queue@[i].place() is Some implies {
            let p = after.queue@[i].place()->0;
            has_peer(after.peers@, p) && after.slots@[index_of_peer(after.peers@, p)].content() is Some
        } by {
        assert(before.queue@[i] == after.queue@[i]);
    }
    assert forall|k: int| #![trigger after.slots@[k]]
        0 <= k < after.slots@.len() && after.slots@[k].content() is Some implies exists|i: int|
            0 <= i < after.queue@.len() && after.queue@[i].place() == Some(after.peers@[k]) by {
        assert(k < n);
        assert(before.slots@[k].content() is Some);
        assert(after.peers@[k] == before.peers@[k]);
    }
    assert(after.events() =~= before.events());
    assert(after.places() =~= before.places());
}

/// Replacing the content of a held place changes that entry and no other.
proof fn lemma_superseded(before: EventSink, after: EventSink, peer: [u8; 16], k: int)
    requires
        before.wf(),
        0 <= k < before.peers@.len(),
        before.peers@[k] == peer,
        index_of_peer(before.peers@, peer) == k,
        before.slots@[k].content() is Some,
        after.queue == before.queue,
        after.dropped == before.dropped,
        after.peers@ == before.peers@,
        after.slots@.len() == before.slots@.len(),
        after.slots@[k].content() is Some,
        forall|j: int| 0 <= j < before.slots@.len() && j != k ==> after.slots@[j] == before.slots@[j],
    ensures
        after.wf(),
        before.holds_place(peer),
        after.places() == before.places(),
        after.events().len() == before.events().len(),
        forall|i: int| 0 <= i < before.events().len() ==> #[trigger] after.events()[i]
            == if before.places()[i] == Some(peer) {
                Report::Rendered(after.slots@[k].content()->0)
            } else {
                before.events()[i]
            },
{
    assert(exists|i: int| 0 <= i < before.queue@.len() && before.queue@[i].place() == Some(before.peers@[k]));
    assert forall|i: int| #![trigger after.queue@[i]]
        0 <= i < after.queue@.len() && after.queue@[i].place() is Some implies {
            let p = after.queue@[i].place()->0;
            has_peer(after.peers@, p) && after.slots@[index_of_peer(after.peers@, p)].content() is Some
        } by {
        assert(before.queue@[i] == after.queue@[i]);
    }
    assert forall|j: int| #![trigger after.slots@[j]]
        0 <= j < after.slots@.len() && after.slots@[j].content() is Some implies exists|i: int|
            0 <= i < after.queue@.len() && after.queue@[i].place() == Some(after.peers@[j]) by {
        if j != k {
            assert(before.slots@[j] == after.slots@[j]);
        }
    }
    assert forall|i: int| 0 <= i < before.events().len() implies #[trigger] after.events()[i]
        == if before.places()[i] == Some(peer) {
            Report::Rendered(after.slots@[k].content()->0)
        } else {
            before.events()[i]
        } by {
        match before.queue@[i] {
            Queued::Report(_) => {},
            Queued::Announce(p) => {
                assert(before.queue@[i].place() is Some);
                if p != peer {
                    let c = index_of_peer(before.peers@, p);
                    assert(before.peers@[c] == p);
                    assert(c != k);
                }
            },
        }
    }
    assert(after.places() =~= before.places());
}

/// Filling an empty slot and queueing its place adds the announce at the end.
proof fn lemma_placed(before: EventSink, after: EventSink, peer: [u8; 16], k: int)
    requires
        before.wf(),
        before.queue@.len() <= MAX_QUEUED_EVENTS,
        0 <= k < before.peers@.len(),
        before.peers@[k] == peer,
        index_of_peer(before.peers@, peer) == k,
        !before.holds_place(peer),
        after.queue@ == before.queue@.push(Queued::Announce(peer)),
        after.dropped == before.dropped,
        after.peers@ == before.peers@,
        after.slots@.len() == before.slots@.len(),
        after.slots@[k].content() is Some,
        forall|j: int| 0 <= j < before.slots@.len() && j != k ==> after.slots@[j] == before.slots@[j],
    ensures
        after.wf(),
        after.events() == before.events().push(Report::Rendered(after.slots@[k].content()->0)),
        after.places() == before.places().push(Some(peer)),
{
    let n = before.queue@.len() as int;
    assert forall|i: int| #![trigger after.queue@[i]]
        0 <= i < after.queue@.len() && after.queue@[i].place() is Some implies {
            let p = after.queue@[i].place()->0;
            has_peer(after.peers@, p) && after.slots@[index_of_peer(after.peers@, p)].content() is Some
        } by {
        if i < n {
            assert(before.queue@[i] == after.queue@[i]);
            let p = after.queue@[i].place()->0;
            if p == peer {
                assert(before.holds_place(peer));
            }
        }
    }
    assert forall|i: int, j: int|
        #![trigger after.queue@[i], after.queue@[j]]
        0 <= i < j < after.queue@.len() && after.queue@[i].place() is Some
            implies after.queue@[i].place() != after.queue@[j].place() by {
        assert(before.queue@[i] == after.queue@[i]);
        if j == n {
            if after.queue@[i].place() == Some(peer) {
                assert(before.holds_place(peer));
            }
        } else {
            assert(before.queue@[j] == after.queue@[j]);
        }
    }
    assert forall|j: int| #![trigger after.slots@[j]]
        0 <= j < after.slots@.len() && after.slots@[j].content() is Some implies exists|i: int|
            0 <= i < after.queue@.len() && after.queue@[i].place() == Some(after.peers@[j]) by {
        if j != k {
            assert(before.slots@[j] == after.slots@[j]);
            let i = choose|i: int| 0 <= i < before.queue@.len() && before.queue@[i].place() == Some(before.peers@[j]);
            assert(after.queue@[i] == before.queue@[i]);
        } else {
            assert(after.queue@[n].place() == Some(after.peers@[j]));
        }
    }
    assert forall|i: int| 0 <= i < n implies #[trigger] after.event_at(i) == before.event_at(i) by {
        assert(after.queue@[i] == before.queue@[i]);
        match before.queue@[i] {
            Queued::Report(_) => {},
            Queued::Announce(p) => {
                assert(before.queue@[i].place() is Some);
                let c = index_of_peer(before.peers@, p);
                assert(before.peers@[c] == p);
                if c == k {
                    assert(before.holds_place(peer));
                }
            },
        }
    }
    assert(after.events() =~= before.events().push(Report::Rendered(after.slots@[k].content()->0)));
    assert(after.places() =~= before.places().push(Some(peer)));
}

/// Keeping exactly the pending slots changes nothing the caller reads.
proof fn lemma_swept(orig: EventSink, after: EventSink, from: Seq<int>)
    requires
        orig.wf(),
        after.queue == orig.queue,
        after.dropped == orig.dropped,
        after.peers@.len() == after.slots@.len(),
        from.len() == after.peers@.len(),
        forall|j: int| #![trigger from[j]]
            0 <= j < from.len() ==> 0 <= from[j] < orig.peers@.len()
                && after.peers@[j] == orig.peers@[from[j]]
                && after.slots@[j] == orig.slots@[from[j]]
                && orig.slots@[from[j]].content() is Some,
        forall|a: int, b: int| 0 <= a < b < from.len() ==> from[a] > from[b],
        forall|i: int| #![trigger orig.slots@[i]]
            0 <= i < orig.peers@.len() && orig.slots@[i].content() is Some
                ==> exists|j: int| 0 <= j < from.len() && from[j] == i,
    ensures
        after.wf(),
        after.events() == orig.events(),
{
    assert forall|a: int, b: int| 0 <= a < b < after.peers@.len() implies after.peers@[a] != after.peers@[b] by {
        assert(from[a] > from[b]);
        assert(orig.peers@[from[b]] != orig.peers@[from[a]]);
    }
    assert forall|i: int| #![trigger after.queue@[i]]
        0 <= i < after.queue@.len() && after.queue@[i].place() is Some implies {
            let p = after.queue@[i].place()->0;
            &&& has_peer(after.peers@, p)
            &&& index_of_peer(after.peers@, p) == choose|j: int| 0 <= j < from.len() && from[j] == index_of_peer(orig.peers@, p)
            &&& after.slots@[index_of_peer(after.peers@, p)] == orig.slots@[index_of_peer(orig.peers@, p)]
            &&& after.slots@[index_of_peer(after.peers@, p)].content() is Some
        } by {
        assert(orig.queue@[i] == after.queue@[i]);
        let p = after.queue@[i].place()->0;
        let c = index_of_peer(orig.peers@, p);
        assert(orig.slots@[c].content() is Some);
        let j = choose|j: int| 0 <= j < from.len() && from[j] == c;
        assert(from[j] == c);
        lemma_index_of_peer(after.peers@, p, j);
    }
    assert forall|k: int| #![trigger after.slots@[k]]
        0 <= k < after.slots@.len() && after.slots@[k].content() is Some implies exists|i: int|
            0 <= i < after.queue@.len() && after.queue@[i].place() == Some(after.peers@[k]) by {
        assert(from[k] == from[k]);
        assert(orig.slots@[from[k]].content() is Some);
    }
    assert forall|i: int| 0 <= i < orig.queue@.len() implies #[trigger] after.event_at(i) == orig.event_at(i) by {
        assert(after.queue@[i] == orig.queue@[i]);
        if orig.queue@[i].place() is Some {
        }
    }
    assert(after.events() =~= orig.events());
}

} // verus!
