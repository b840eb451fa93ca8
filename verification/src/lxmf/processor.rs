//! The decisions the processor makes inside the engine's tick: what the caller
//! is told of a refused enqueue, what a re-queue reports, where each router
//! event goes, and when the next announce, sync and wake-up fall due. The
//! router calls themselves are made by the caller of this library, which
//! hands each result back.

use vstd::prelude::*;

use super::handle::sink::{pushed, EventSink};
use super::poll::reason::{refusal_of, RouterError};
use super::poll::refusal::{failed, requeue_refused};
use super::poll::{state_report, MessageState, Report, RouterEvent};
use crate::bytes::same_bytes;

verus! {

/// Bounds how long a submitted message waits to be picked up.
pub const POLL_INTERVAL_MS: u64 = 200;

/// Bounds how stale store-and-forward delivery gets.
pub const SYNC_INTERVAL_MS: u64 = 300000;

/// Router events provoking more router events are re-fed this many rounds,
/// and no more: an unbounded loop under the core lock hangs the node.
pub const MAX_ABSORB_ROUNDS: usize = 8;

/// Turn an enqueue refusal into what the caller is told, if anything. Every
/// refusal but `Duplicate` becomes a `failed` update; a duplicate is already in
/// flight, and its verdict will come from that attempt.
pub fn report_enqueue_error(events: &mut EventSink, message_id: &[u8; 32], error: RouterError)
    requires
        old(events).wf(),
        old(events).refused() < u64::MAX,
    ensures
        final(events).wf(),
        error == RouterError::Duplicate ==> *final(events) == *old(events),
        error != RouterError::Duplicate ==> pushed(*old(events), *final(events), failed_report(*message_id, error), None),
{
    if error == RouterError::Duplicate {
        return;
    }
    events.push(failed(message_id, &error));
}

/// The `failed` report for a refused enqueue.
pub open spec fn failed_report(message_id: [u8; 32], error: RouterError) -> Report {
    Report::Failed { message_id, refusal: refusal_of(error) }
}

/// The `Cancelled` a re-queue's own cancel emits for the message it moves.
pub open spec fn own_cancellation(event: RouterEvent, message_id: [u8; 32]) -> bool {
    event matches RouterEvent::MessageState { message_id: id, state: MessageState::Cancelled } && id == message_id
}

pub open spec fn kept_after_cancel<E>(message_id: [u8; 32]) -> spec_fn((E, RouterEvent)) -> bool {
    |pair: (E, RouterEvent)| !own_cancellation(pair.1, message_id)
}

/// Drop the `Cancelled` this re-queue's own cancel emitted, and nothing else:
/// the message is being resent under a new method as the event is read, so a
/// terminal state for it would be a lie. Each event comes with what the router
/// reported, as the caller of this library read it.
pub fn without_cancelled<E>(events: Vec<(E, RouterEvent)>, message_id: &[u8; 32]) -> (res: Vec<(E, RouterEvent)>)
    ensures
        res@ == events@.filter(kept_after_cancel::<E>(*message_id)),
{
    let ghost all = events@;
    let ghost pred = kept_after_cancel::<E>(*message_id);
    let mut rest = events;
    let mut kept: Vec<(E, RouterEvent)> = Vec::new();
    let ghost mut done: int = 0;
    while rest.len() > 0
        invariant
            0 <= done <= all.len(),
            rest@ == all.skip(done),
            kept@ == all.take(done).filter(pred),
            pred == kept_after_cancel::<E>(*message_id),
        decreases rest@.len(),
    {
        let pair = rest.remove(0);
        let own = match &pair.1 {
            RouterEvent::MessageState { message_id: id, state: MessageState::Cancelled } => same_bytes(id, message_id),
            _ => false,
        };
        proof {
            assert(pair == all[done]);
            assert(all.take(done + 1).drop_last() =~= all.take(done));
            reveal(Seq::filter);
            assert(all.take(done + 1).last() == pair);
        }
        if !own {
            kept.push(pair);
        }
        proof {
            done = done + 1;
            assert(rest@ =~= all.skip(done));
        }
    }
    proof {
        assert(all.take(done) =~= all);
    }
    kept
}

/// Where one router event goes.
pub enum Disposition {
    /// A received message: rendered, and held in the inbox.
    Inbox,
    /// A peer's announce: rendered, and queued as that peer's place.
    Announce([u8; 16]),
    /// A report queued as it is.
    Report(Report),
    /// Work for the stamp thread: the recipient's stamp.
    DeliveryStamp,
    /// Work for the stamp thread: the propagation node's stamp.
    PropagationStamp,
    /// Nothing the caller hears of.
    Silent,
}

/// A stamp request goes to the mining thread and no further; a received
/// message to the inbox, since it has no successor to supersede it; an
/// announce to its peer's place; a state update to the event queue.
pub fn disposition(event: &RouterEvent) -> (res: Disposition)
    ensures
        match *event {
            RouterEvent::StampPending => res is DeliveryStamp,
            RouterEvent::PropagationStampPending => res is PropagationStamp,
            RouterEvent::MessageReceived => res is Inbox,
            RouterEvent::PeerAnnounced { destination } => res == Disposition::Announce(destination),
            RouterEvent::MessageState { message_id, state } => res == Disposition::Report(state_report(message_id, state)),
            _ => res is Silent,
        },
{
    match event {
        RouterEvent::StampPending => Disposition::DeliveryStamp,
        RouterEvent::PropagationStampPending => Disposition::PropagationStamp,
        RouterEvent::MessageReceived => Disposition::Inbox,
        RouterEvent::PeerAnnounced { destination } => Disposition::Announce(*destination),
        RouterEvent::MessageState { .. } => match super::poll::event_report(event) {
            Some(report) => Disposition::Report(report),
            None => Disposition::Silent,
        },
        _ => Disposition::Silent,
    }
}

/// Whether the router asked for its state to be persisted anywhere in `events`.
pub fn checkpoint_due(events: &Vec<RouterEvent>) -> (res: bool)
    ensures
        res == exists|i: int| 0 <= i < events@.len() && events@[i] is PersistenceRequested,
{
    let mut i: usize = 0;
    while i < events.len()
        invariant
            0 <= i <= events@.len(),
            forall|j: int| 0 <= j < i ==> !(events@[j] is PersistenceRequested),
        decreases events@.len() - i,
    {
        if let RouterEvent::PersistenceRequested = events[i] {
            return true;
        }
        i += 1;
    }
    false
}

/// Where one absorb stands: how many router outputs it has drained, and
/// whether any asked for the router's state to be persisted.
#[derive(Clone, Copy, Debug, PartialEq, Eq, Structural)]
pub struct Absorbing {
    pub rounds: usize,
    pub persist: bool,
}

/// Whether any of `rounds` asked for persistence.
pub open spec fn any_persistence(rounds: Seq<Seq<RouterEvent>>) -> bool {
    exists|r: int, i: int| 0 <= r < rounds.len() && 0 <= i < rounds[r].len() && rounds[r][i] is PersistenceRequested
}

/// One drained router output: the round is counted, a request to persist is
/// remembered for the end, and the core events it carried are fed back to the
/// router only within the bound. Returns whether they are.
pub fn absorb_round(state: Absorbing, events: &Vec<RouterEvent>) -> (res: (Absorbing, bool))
    requires
        state.rounds < usize::MAX,
    ensures
        res.0.rounds == state.rounds + 1,
        res.0.persist == (state.persist || exists|i: int| 0 <= i < events@.len() && events@[i] is PersistenceRequested),
        res.1 == (state.rounds + 1 <= MAX_ABSORB_ROUNDS),
{
    let rounds = state.rounds + 1;
    let persist = state.persist || checkpoint_due(events);
    (Absorbing { rounds, persist }, refeed(rounds))
}

/// Absorbing starts with nothing drained.
pub fn absorb_start() -> (res: Absorbing)
    ensures
        res.rounds == 0,
        !res.persist,
{
    Absorbing { rounds: 0, persist: false }
}

/// The checkpoint is taken once, after every output of the operation has been
/// drained, exactly when one of them asked for it.
pub proof fn persisted_once_if_asked(rounds: Seq<Seq<RouterEvent>>, states: Seq<Absorbing>)
    requires
        states.len() == rounds.len() + 1,
        states[0].rounds == 0,
        !states[0].persist,
        forall|r: int| #![trigger states[r + 1]] 0 <= r < rounds.len() ==> states[r + 1].rounds == states[r].rounds + 1
            && states[r + 1].persist == (states[r].persist
                || exists|i: int| 0 <= i < rounds[r].len() && rounds[r][i] is PersistenceRequested),
    ensures
        states[rounds.len() as int].persist == any_persistence(rounds),
        states[rounds.len() as int].rounds == rounds.len(),
    decreases rounds.len(),
{
    if rounds.len() > 0 {
        let n = rounds.len() - 1;
        persisted_once_if_asked(rounds.take(n), states.take(n + 1));
        if any_persistence(rounds) {
            let (r, i) = choose|r: int, i: int| 0 <= r < rounds.len() && 0 <= i < rounds[r].len() && rounds[r][i] is PersistenceRequested;
            if r < n {
                assert(rounds.take(n)[r] == rounds[r]);
                assert(any_persistence(rounds.take(n)));
            }
        }
        if any_persistence(rounds.take(n)) {
            let (r, i) = choose|r: int, i: int| 0 <= r < rounds.take(n).len() && 0 <= i < rounds.take(n)[r].len() && rounds.take(n)[r][i] is PersistenceRequested;
            assert(rounds[r] == rounds.take(n)[r]);
        }
        assert(states[n + 1].persist == (states[n].persist
            || exists|i: int| 0 <= i < rounds[n].len() && rounds[n][i] is PersistenceRequested));
    }
}

/// Where the processor stands with its delivery destination.
#[derive(Clone, Copy, Debug, PartialEq, Eq, Structural)]
pub enum Registration {
    /// Not yet: registering needs the node core, which only a hook has.
    Unregistered,
    /// Registered; the router is there.
    Ready,
    /// Registering failed; the processor stays idle for good.
    Failed,
}

/// Whether a hook tries to register: only while unregistered, so a failure
/// is never retried.
pub fn tries_registration(stage: Registration) -> (res: bool)
    ensures
        res == (stage == Registration::Unregistered),
{
    stage == Registration::Unregistered
}

/// The stage after a hook: an attempt leaves `Ready` when it registered and
/// `Failed` when it did not; `Ready` and `Failed` stay as they are.
pub fn after_hook(stage: Registration, registered: bool) -> (res: Registration)
    ensures
        stage == Registration::Unregistered ==> res == if registered { Registration::Ready } else { Registration::Failed },
        stage != Registration::Unregistered ==> res == stage,
        res == after_hook_spec(stage, registered),
{
    match stage {
        Registration::Unregistered => if registered { Registration::Ready } else { Registration::Failed },
        other => other,
    }
}

/// A failed registration is final: whatever later hooks bring, the processor
/// stays failed.
pub proof fn failed_stays_failed(registered: bool)
    ensures
        after_hook_spec(Registration::Failed, registered) == Registration::Failed,
{
}

/// The stage `after_hook` leaves.
pub open spec fn after_hook_spec(stage: Registration, registered: bool) -> Registration {
    match stage {
        Registration::Unregistered => if registered { Registration::Ready } else { Registration::Failed },
        other => other,
    }
}

/// Whether events from round `rounds` (counting from one) are fed back to the router.
pub fn refeed(rounds: usize) -> (res: bool)
    ensures
        res == (rounds <= MAX_ABSORB_ROUNDS),
{
    rounds <= MAX_ABSORB_ROUNDS
}

/// The instant `interval_ms` after `now_ms`, pinned at the end of time.
pub fn after(now_ms: u64, interval_ms: u64) -> (res: u64)
    ensures
        res == if now_ms + interval_ms > u64::MAX { u64::MAX } else { (now_ms + interval_ms) as u64 },
{
    now_ms.saturating_add(interval_ms)
}

/// When the tick hook asks to run next: the earlier of what the router asked
/// for and the command poll, which is always a future instant.
pub fn next_deadline(now_ms: u64, existing: Option<u64>) -> (res: u64)
    ensures
        ({
            let poll = if now_ms + POLL_INTERVAL_MS > u64::MAX { u64::MAX } else { (now_ms + POLL_INTERVAL_MS) as u64 };
            res == match existing {
                Some(e) => if e < poll { e } else { poll },
                None => poll,
            }
        }),
{
    let poll = after(now_ms, POLL_INTERVAL_MS);
    match existing {
        Some(e) => if e < poll { e } else { poll },
        None => poll,
    }
}

/// Whether a periodic step falls due, and when it is due next if it does.
pub fn due(now_ms: u64, next_ms: u64, interval_ms: u64) -> (res: Option<u64>)
    ensures
        now_ms < next_ms ==> res is None,
        now_ms >= next_ms ==> res == Some(
            if now_ms + interval_ms > u64::MAX { u64::MAX } else { (now_ms + interval_ms) as u64 },
        ),
{
    if now_ms < next_ms {
        None
    } else {
        Some(after(now_ms, interval_ms))
    }
}

/// Whether an outbound propagation node is in place when the sync would run.
#[derive(Clone, Copy, Debug, PartialEq, Eq, Structural)]
pub enum Selection {
    /// One was selected before this tick.
    Held,
    /// None was, and the router selected one now.
    Selected,
    /// None was, and none could be: no node has announced itself yet.
    Unavailable,
}

/// When the store-and-forward sync runs, and when it is due next: never
/// without a propagation node, which is the normal state on a mesh without
/// one; otherwise once it falls due.
pub fn sync_due(selection: Selection, now_ms: u64, next_sync_ms: u64) -> (res: Option<u64>)
    ensures
        selection == Selection::Unavailable ==> res is None,
        selection != Selection::Unavailable && now_ms < next_sync_ms ==> res is None,
        selection != Selection::Unavailable && now_ms >= next_sync_ms ==> res == Some(
            if now_ms + SYNC_INTERVAL_MS > u64::MAX { u64::MAX } else { (now_ms + SYNC_INTERVAL_MS) as u64 },
        ),
{
    match selection {
        Selection::Unavailable => None,
        Selection::Held | Selection::Selected => due(now_ms, next_sync_ms, SYNC_INTERVAL_MS),
    }
}

/// Where a re-queue stands.
#[derive(Clone, Copy, Debug)]
pub enum RequeueStage {
    /// Asking the router whether it still holds the message.
    LookingUp,
    /// Cancelling the queued copy.
    Cancelling,
    /// Enqueueing it under the new method.
    Enqueueing,
    /// Putting the original back after the new method was refused for this reason.
    Restoring(RouterError),
}

/// What the router answered to the last call.
#[derive(Clone, Copy, Debug)]
pub enum RequeueEvent {
    Held(bool),
    Cancelled(Option<RouterError>),
    Enqueued(Option<RouterError>),
    Restored(Option<RouterError>),
}

/// The call a re-queue asks of the router next.
#[derive(Clone, Copy, Debug, PartialEq, Eq, Structural)]
pub enum RouterCall {
    /// Cancel the queued message, dropping the `Cancelled` this raises.
    Cancel,
    /// Enqueue a copy under the new method.
    EnqueueRetried,
    /// Enqueue the original back.
    RestoreOriginal,
}

pub struct RequeueStep {
    /// The next stage and the call it makes; `None` when the re-queue is over.
    pub next: Option<(RequeueStage, RouterCall)>,
    /// What the caller is told, in order.
    pub reports: Vec<Report>,
}

/// The reports a finished step hands the caller.
pub open spec fn step_is(step: RequeueStep, next: Option<RouterCall>, reports: Seq<Report>) -> bool {
    &&& match step.next {
        Some((_, call)) => next == Some(call),
        None => next is None,
    }
    &&& step.reports@ == reports
}

/// One step of a re-queue. The queued message is moved verbatim: cancelled,
/// then enqueued under the new method; a refused enqueue puts the original
/// back, since losing a queued message over a refused re-queue would be the
/// worse outcome, and the caller hears `requeue_refused` for it. Answers that
/// do not fit the stage end the re-queue silently.
pub fn requeue_step(stage: RequeueStage, event: RequeueEvent, message_id: &[u8; 32]) -> (res: RequeueStep)
    ensures
        match (stage, event) {
            (RequeueStage::LookingUp, RequeueEvent::Held(true)) => res.next matches Some((RequeueStage::Cancelling, RouterCall::Cancel))
                && res.reports@.len() == 0,
            (RequeueStage::LookingUp, RequeueEvent::Held(false)) => step_is(res, None, seq![
                Report::RequeueRefused { message_id: *message_id, refusal: refusal_of(RouterError::NotFound) },
            ]),
            (RequeueStage::Cancelling, RequeueEvent::Cancelled(None)) => res.next matches Some((RequeueStage::Enqueueing, RouterCall::EnqueueRetried))
                && res.reports@.len() == 0,
            (RequeueStage::Cancelling, RequeueEvent::Cancelled(Some(e))) => step_is(res, None, seq![
                Report::RequeueRefused { message_id: *message_id, refusal: refusal_of(e) },
            ]),
            (RequeueStage::Enqueueing, RequeueEvent::Enqueued(None)) => step_is(res, None, Seq::empty()),
            (RequeueStage::Enqueueing, RequeueEvent::Enqueued(Some(e))) => (res.next matches Some((RequeueStage::Restoring(r), RouterCall::RestoreOriginal)) && r == e)
                && res.reports@.len() == 0,
            (RequeueStage::Restoring(refused), RequeueEvent::Restored(None)) => step_is(res, None, seq![
                Report::RequeueRefused { message_id: *message_id, refusal: refusal_of(refused) },
            ]),
            (RequeueStage::Restoring(refused), RequeueEvent::Restored(Some(e))) => step_is(res, None,
                if e == RouterError::Duplicate {
                    seq![Report::RequeueRefused { message_id: *message_id, refusal: refusal_of(refused) }]
                } else {
                    seq![
                        Report::Failed { message_id: *message_id, refusal: refusal_of(e) },
                        Report::RequeueRefused { message_id: *message_id, refusal: refusal_of(refused) },
                    ]
                }),
            _ => step_is(res, None, Seq::empty()),
        },
{
    let mut reports: Vec<Report> = Vec::new();
    let next = match (stage, event) {
        (RequeueStage::LookingUp, RequeueEvent::Held(true)) => Some((RequeueStage::Cancelling, RouterCall::Cancel)),
        (RequeueStage::LookingUp, RequeueEvent::Held(false)) => {
            reports.push(requeue_refused(message_id, &RouterError::NotFound));
            assert(reports@ =~= seq![Report::RequeueRefused { message_id: *message_id, refusal: refusal_of(RouterError::NotFound) }]);
            None
        },
        (RequeueStage::Cancelling, RequeueEvent::Cancelled(None)) => Some((RequeueStage::Enqueueing, RouterCall::EnqueueRetried)),
        (RequeueStage::Cancelling, RequeueEvent::Cancelled(Some(e))) => {
            reports.push(requeue_refused(message_id, &e));
            assert(reports@ =~= seq![Report::RequeueRefused { message_id: *message_id, refusal: refusal_of(e) }]);
            None
        },
        (RequeueStage::Enqueueing, RequeueEvent::Enqueued(None)) => None,
        (RequeueStage::Enqueueing, RequeueEvent::Enqueued(Some(e))) => Some((RequeueStage::Restoring(e), RouterCall::RestoreOriginal)),
        (RequeueStage::Restoring(refused), RequeueEvent::Restored(None)) => {
            reports.push(requeue_refused(message_id, &refused));
            assert(reports@ =~= seq![Report::RequeueRefused { message_id: *message_id, refusal: refusal_of(refused) }]);
            None
        },
        (RequeueStage::Restoring(refused), RequeueEvent::Restored(Some(e))) => {
            if e != RouterError::Duplicate {
                reports.push(failed(message_id, &e));
                reports.push(requeue_refused(message_id, &refused));
                assert(reports@ =~= seq![
                    Report::Failed { message_id: *message_id, refusal: refusal_of(e) },
                    Report::RequeueRefused { message_id: *message_id, refusal: refusal_of(refused) },
                ]);
            } else {
                reports.push(requeue_refused(message_id, &refused));
                assert(reports@ =~= seq![Report::RequeueRefused { message_id: *message_id, refusal: refusal_of(refused) }]);
            }
            None
        },
        _ => None,
    };
    RequeueStep { next, reports }
}

} // verus!
