use std::collections::HashSet;

use resilum_core::lxmf::inbox::store::{apply, Held};
use resilum_core::lxmf::inbox::Inbox;
use resilum_core::lxmf::poll::reason::{attempts_exhausted, refusal, Retry, RouterError};
use resilum_core::lxmf::poll::{event_report, MessageState, Report, RouterEvent};
use resilum_core::lxmf::stamp::Jobs;
use resilum_core::lxmf::processor::{
    disposition, requeue_step, without_cancelled, Disposition, RequeueEvent, RequeueStage,
    RouterCall,
};

/// One instance per variant.
fn all_variants() -> Vec<RouterError> {
    vec![
        RouterError::QueueFull,
        RouterError::Duplicate,
        RouterError::NotFound,
        RouterError::IdentityMismatch,
        RouterError::UnsupportedMethod,
        RouterError::PropagationNodeUnavailable,
        RouterError::PropagationStampUnavailable,
        RouterError::StaleStampRequest,
        RouterError::StaleBuild,
        RouterError::NoWallClock,
        RouterError::Node,
        RouterError::Message,
        RouterError::Propagation,
        RouterError::PropagationTransport,
        RouterError::Paper,
        RouterError::Stamp,
        RouterError::Storage,
        RouterError::CorruptSnapshot,
    ]
}

const VARIANT_COUNT: usize = 18;

/// A slot per variant, assigned by an exhaustive match.
fn slot_of(error: &RouterError) -> usize {
    match error {
        RouterError::QueueFull => 0,
        RouterError::Duplicate => 1,
        RouterError::NotFound => 2,
        RouterError::IdentityMismatch => 3,
        RouterError::UnsupportedMethod => 4,
        RouterError::PropagationNodeUnavailable => 5,
        RouterError::PropagationStampUnavailable => 6,
        RouterError::StaleStampRequest => 7,
        RouterError::StaleBuild => 8,
        RouterError::NoWallClock => 9,
        RouterError::Node => 10,
        RouterError::Message => 11,
        RouterError::Propagation => 12,
        RouterError::PropagationTransport => 13,
        RouterError::Paper => 14,
        RouterError::Stamp => 15,
        RouterError::Storage => 16,
        RouterError::CorruptSnapshot => 17,
    }
}

const NEVER: [&str; 5] = [
    "unsupported_method",
    "identity_mismatch",
    "not_found",
    "no_wall_clock",
    "malformed_message",
];

const REQUEUE: [&str; 5] = [
    "duplicate",
    "propagation_node_unavailable",
    "propagation_stamp_unavailable",
    "propagation_failed",
    "propagation_transport",
];

const ABSENT: [u8; 32] = [0xee; 32];

#[test]
fn the_variant_list_names_every_router_error() {
    let mut seen = [false; VARIANT_COUNT];
    for error in all_variants() {
        seen[slot_of(&error)] = true;
    }
    let missing: Vec<usize> = (0..VARIANT_COUNT).filter(|slot| !seen[*slot]).collect();
    assert!(missing.is_empty(), "no instance for slots {missing:?}");
}

#[test]
fn every_variant_gets_a_reason_no_other_variant_uses() {
    let mut seen = HashSet::new();
    for error in all_variants() {
        let reason = refusal(&error).reason;
        assert!(seen.insert(reason), "{error:?} reuses reason {reason:?}");
    }
}

#[test]
fn the_retry_token_matches_what_the_caller_can_actually_do() {
    for error in all_variants() {
        let refusal = refusal(&error);
        let expected = if NEVER.contains(&refusal.reason) {
            Retry::Never
        } else if REQUEUE.contains(&refusal.reason) {
            Retry::Requeue
        } else {
            Retry::Resubmit
        };
        assert_eq!(refusal.retry, expected, "{}", refusal.reason);
    }
}

#[test]
fn the_giveup_path_reports_attempts_exhausted() {
    let mid = [9u8; 32];
    let event = RouterEvent::MessageState { message_id: mid, state: MessageState::Failed };

    let report = event_report(&event).expect("a state event is reported");

    assert_eq!(report.message_id(), Some(mid));
    assert_eq!(report.kind(), Some("delivery"));
    assert_eq!(report.state(), Some("failed"));
    assert_eq!(report.reason(), Some("attempts_exhausted"));
    assert_eq!(report.retry(), Some("resubmit"));
}

#[test]
fn only_failed_carries_a_reason_and_a_retry_token() {
    for state in [
        MessageState::Generating,
        MessageState::Outbound,
        MessageState::Sending,
        MessageState::Sent,
        MessageState::AwaitingCollection,
        MessageState::Delivered,
        MessageState::Rejected,
        MessageState::Cancelled,
    ] {
        let event = RouterEvent::MessageState { message_id: [1u8; 32], state };

        let report = event_report(&event).expect("a state event is reported");

        assert!(report.reason().is_none(), "{state:?} should carry no reason");
        assert!(report.retry().is_none(), "{state:?} should carry no retry");
    }
}

#[test]
fn the_requeue_reports_no_cancelled_to_the_caller() {
    let moved = [3u8; 32];
    let other = [4u8; 32];
    let events = vec![
        (1u32, RouterEvent::MessageState { message_id: moved, state: MessageState::Cancelled }),
        (2u32, RouterEvent::MessageState { message_id: other, state: MessageState::Cancelled }),
        (3u32, RouterEvent::MessageState { message_id: moved, state: MessageState::Outbound }),
        (4u32, RouterEvent::MessageQueued),
    ];

    let kept = without_cancelled(events, &moved);

    let tags: Vec<u32> = kept.iter().map(|(tag, _)| *tag).collect();
    assert_eq!(tags, vec![2, 3, 4]);
    let states: Vec<&str> = kept
        .iter()
        .filter_map(|(_, event)| event_report(event))
        .filter(|report| report.message_id() == Some(moved))
        .filter_map(|report| report.state())
        .collect();
    assert!(!states.iter().any(|state| *state == "cancelled"), "{states:?}");
}

#[test]
fn an_ordinary_cancellation_still_reaches_the_caller() {
    let message_id = [5u8; 32];
    let event = RouterEvent::MessageState { message_id, state: MessageState::Cancelled };

    match disposition(&event) {
        Disposition::Report(report) => {
            assert_eq!(report.kind(), Some("delivery"));
            assert_eq!(report.state(), Some("cancelled"));
            assert_eq!(report.message_id(), Some(message_id));
        }
        _ => panic!("a cancellation is a report"),
    }
}

#[test]
fn requeuing_an_id_the_router_does_not_hold_is_refused_to_the_caller() {
    let step = requeue_step(RequeueStage::LookingUp, RequeueEvent::Held(false), &ABSENT);

    assert!(step.next.is_none());
    assert_eq!(step.reports.len(), 1);
    let event = &step.reports[0];
    assert_eq!(event.kind(), Some("requeue_refused"));
    assert_eq!(event.message_id(), Some(ABSENT));
    assert_eq!(event.reason(), Some("not_found"));
    assert_eq!(event.retry(), Some("never"));
}

#[test]
fn a_direct_message_requeued_as_propagated_is_queued_as_propagated() {
    let message_id = [6u8; 32];

    let held = requeue_step(RequeueStage::LookingUp, RequeueEvent::Held(true), &message_id);
    let (stage, call) = held.next.expect("a held message is cancelled");
    assert_eq!(call, RouterCall::Cancel);
    assert!(held.reports.is_empty());

    let cancelled = requeue_step(stage, RequeueEvent::Cancelled(None), &message_id);
    let (stage, call) = cancelled.next.expect("a cancelled message is enqueued again");
    assert_eq!(call, RouterCall::EnqueueRetried);
    assert!(cancelled.reports.is_empty());

    let enqueued = requeue_step(stage, RequeueEvent::Enqueued(None), &message_id);
    assert!(enqueued.next.is_none());
    assert!(enqueued.reports.is_empty());
}

#[test]
fn a_refused_requeue_leaves_the_message_queued_under_its_old_method() {
    let message_id = [7u8; 32];

    let refused = requeue_step(
        RequeueStage::Enqueueing,
        RequeueEvent::Enqueued(Some(RouterError::PropagationNodeUnavailable)),
        &message_id,
    );
    let (stage, call) = refused.next.expect("the original goes back");
    assert_eq!(call, RouterCall::RestoreOriginal);
    assert!(refused.reports.is_empty());

    let restored = requeue_step(stage, RequeueEvent::Restored(None), &message_id);
    assert!(restored.next.is_none());
    assert_eq!(restored.reports.len(), 1);
    let event = &restored.reports[0];
    assert_eq!(event.kind(), Some("requeue_refused"));
    assert_eq!(event.message_id(), Some(message_id));
    assert_eq!(event.reason(), Some("propagation_node_unavailable"));
    assert_eq!(event.retry(), Some("requeue"));
}

#[test]
fn a_restore_that_fails_too_is_told_as_failed_then_refused() {
    let message_id = [8u8; 32];
    let step = requeue_step(
        RequeueStage::Restoring(RouterError::PropagationNodeUnavailable),
        RequeueEvent::Restored(Some(RouterError::QueueFull)),
        &message_id,
    );
    assert!(step.next.is_none());
    let kinds: Vec<Option<&str>> = step.reports.iter().map(Report::kind).collect();
    assert_eq!(kinds, vec![Some("delivery"), Some("requeue_refused")]);
    assert_eq!(step.reports[0].state(), Some("failed"));
    assert_eq!(step.reports[0].reason(), Some("queue_full"));
    assert_eq!(step.reports[1].reason(), Some("propagation_node_unavailable"));
}

#[test]
fn a_message_outlives_the_process_that_received_it() {
    let mut held = Held::new();
    let mut inbox = Inbox::restored(Held::new());
    let number = inbox.push("kept".into()).expect("room for it");
    apply(&mut held, (number, Some("kept".into())));
    drop(inbox);

    let mut reopened = Inbox::restored(held);
    assert_eq!(reopened.pop(), Some((number, "kept".to_owned())));
}

#[test]
fn a_taken_message_does_not_come_back_after_a_restart() {
    let mut held = Held::new();
    let mut inbox = Inbox::restored(Held::new());
    let number = inbox.push("taken".into()).expect("room for it");
    apply(&mut held, (number, Some("taken".into())));
    let (taken, json) = inbox.pop().expect("the message");
    assert_eq!(json, "taken");
    apply(&mut held, (taken, None));
    drop(inbox);

    assert_eq!(Inbox::restored(held).pop(), None);
}

#[test]
fn the_router_give_up_is_a_resubmit() {
    let refusal = attempts_exhausted();
    assert_eq!(refusal.reason, "attempts_exhausted");
    assert_eq!(refusal.retry.token(), "resubmit");
    assert_eq!(Retry::Requeue.token(), "requeue");
    assert_eq!(Retry::Never.token(), "never");
}

#[test]
fn a_message_id_is_read_as_lowercase_hex() {
    let report = event_report(&RouterEvent::MessageState { message_id: [0xab; 32], state: MessageState::Sent })
        .expect("a state event is reported");
    assert_eq!(report.message_id_hex(), Some("ab".repeat(32)));
    assert_eq!(Report::Rendered("{}".to_owned()).message_id_hex(), None);
}

#[test]
fn a_propagation_stamp_request_reaches_the_stamp_thread() {
    assert!(matches!(disposition(&RouterEvent::PropagationStampPending), Disposition::PropagationStamp));
    assert!(matches!(disposition(&RouterEvent::StampPending), Disposition::DeliveryStamp));
    let mut jobs = Jobs::new();
    let message_id = [0x11; 32];
    assert!(jobs.propagation(&message_id), "the first ask for a message goes to the stamp thread");
}

#[test]
fn the_message_id_is_unchanged_by_the_requeue() {
    let message_id = [0x5a; 32];
    let steps = [
        (RequeueStage::LookingUp, RequeueEvent::Held(false)),
        (RequeueStage::Cancelling, RequeueEvent::Cancelled(Some(RouterError::NotFound))),
        (RequeueStage::Restoring(RouterError::UnsupportedMethod), RequeueEvent::Restored(None)),
        (RequeueStage::Restoring(RouterError::UnsupportedMethod), RequeueEvent::Restored(Some(RouterError::QueueFull))),
    ];
    for (stage, event) in steps {
        let step = requeue_step(stage, event, &message_id);
        assert!(!step.reports.is_empty());
        for report in &step.reports {
            assert_eq!(report.message_id(), Some(message_id));
        }
    }
}
