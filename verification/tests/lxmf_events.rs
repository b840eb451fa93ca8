use resilum_core::lxmf::handle::router_state::RouterState;
use resilum_core::lxmf::handle::sink::{self, EventSink};
use resilum_core::lxmf::handle::{Overflow, Polled, Queues, MAX_QUEUED_EVENTS};
use resilum_core::lxmf::inbox::store::{apply, Held};
use resilum_core::lxmf::inbox::{Inbox, MAX_HELD};
use resilum_core::lxmf::poll::reason::RouterError;
use resilum_core::lxmf::poll::{MessageState, Report};
use resilum_core::lxmf::processor::report_enqueue_error;
use serde_json::Value;

const ALICE: [u8; 16] = [0xaa; 16];
const BOB: [u8; 16] = [0xbb; 16];

fn pair() -> Queues {
    Queues::new(Inbox::ephemeral())
}

fn announce(display_name: &str) -> String {
    format!(r#"{{"type":"announce","display_name":"{display_name}"}}"#)
}

/// Every report drained, as the JSON a rendered one carries, and the rest kept as they are.
fn drain(queues: &mut Queues) -> Vec<Report> {
    std::iter::from_fn(|| queues.next_event().map(|Polled { report, .. }| report)).collect()
}

fn json(report: &Report) -> Value {
    match report {
        Report::Rendered(json) => serde_json::from_str(json).expect("an event is json"),
        other => panic!("not a rendered event: {other:?}"),
    }
}

#[test]
fn a_newer_announce_replaces_the_pending_one_from_that_peer() {
    let mut queues = pair();

    queues.events.push_announce(ALICE, announce("old"));
    queues.events.push_announce(ALICE, announce("new"));

    assert_eq!(queues.events.depth(), 1, "one place in the queue per peer");
    let events = drain(&mut queues);
    assert_eq!(events.len(), 1);
    assert_eq!(json(&events[0])["display_name"], "new");
}

#[test]
fn announces_from_different_peers_each_keep_their_place() {
    let mut queues = pair();

    queues.events.push_announce(ALICE, announce("alice"));
    queues.events.push_announce(BOB, announce("bob"));

    let events = drain(&mut queues);
    let names: Vec<Value> = events.iter().map(|e| json(e)["display_name"].clone()).collect();
    assert_eq!(names, ["alice", "bob"]);
}

#[test]
fn a_delivery_update_between_two_announces_keeps_its_place() {
    let mut queues = pair();

    queues.events.push_announce(ALICE, announce("old"));
    queues.events.push(Report::Rendered(r#"{"type":"delivery","state":"sent"}"#.to_owned()));
    queues.events.push_announce(ALICE, announce("new"));

    assert_eq!(queues.events.depth(), 2, "the announce slot plus the update");
    let events = drain(&mut queues);
    assert_eq!(json(&events[0])["display_name"], "new");
    assert_eq!(json(&events[1])["type"], "delivery");
}

#[test]
fn a_peer_announces_again_after_the_first_has_been_read() {
    let mut queues = pair();

    queues.events.push_announce(ALICE, announce("first"));
    assert!(queues.next_event().is_some(), "the first announce");
    queues.events.push_announce(ALICE, announce("second"));

    let events = drain(&mut queues);
    assert_eq!(events.len(), 1);
    assert_eq!(json(&events[0])["display_name"], "second");
}

#[test]
fn a_full_queue_counts_what_it_refuses_and_reports_it_once_there_is_room() {
    let mut sink: EventSink = sink::new();
    for _ in 0..MAX_QUEUED_EVENTS {
        sink.push(Report::Rendered("{}".to_owned()));
    }
    sink.push(Report::Rendered("refused".to_owned()));
    sink.push_announce(ALICE, announce("refused too"));
    assert_eq!(sink.depth(), MAX_QUEUED_EVENTS);

    assert!(sink.take_next().is_some());
    sink.push(Report::Rendered("fits".to_owned()));
    assert_eq!(sink.depth(), MAX_QUEUED_EVENTS + 1);

    let mut rest = Vec::new();
    while let Some(report) = sink.take_next() {
        rest.push(report);
    }
    match &rest[rest.len() - 2] {
        Report::Overflow { kind, dropped } => {
            assert_eq!(*kind, Overflow::Delivery);
            assert_eq!(*dropped, 2);
            assert_eq!(kind.token(), "delivery");
        },
        other => panic!("expected the overflow report, got {other:?}"),
    }
    assert!(matches!(&rest[rest.len() - 1], Report::Rendered(json) if json == "fits"));
}

#[test]
fn a_superseding_announce_fits_even_in_a_full_queue() {
    let mut sink: EventSink = sink::new();
    sink.push_announce(ALICE, announce("old"));
    for _ in 1..MAX_QUEUED_EVENTS {
        sink.push(Report::Rendered("{}".to_owned()));
    }
    sink.push_announce(ALICE, announce("new"));
    assert_eq!(sink.depth(), MAX_QUEUED_EVENTS);
    assert_eq!(json(&sink.take_next().unwrap())["display_name"], "new");
}

#[test]
fn received_messages_go_before_delivery_updates() {
    let mut queues = pair();
    queues.events.push(Report::Delivery { message_id: [1; 32], state: MessageState::Sent });
    let _ = queues.inbox.push("message".to_owned());

    let first = queues.next_event().unwrap();
    assert!(matches!(&first.report, Report::Rendered(json) if json == "message"));
    assert_eq!(first.taken, Some(0));
    let second = queues.next_event().unwrap();
    assert_eq!(second.report.state(), Some("sent"));
    assert!(queues.next_event().is_none());
}

#[test]
fn messages_leave_in_the_order_they_arrived() {
    let mut inbox = Inbox::ephemeral();
    inbox.push("first".into());
    inbox.push("second".into());

    assert_eq!(inbox.pop().map(|(_, m)| m).as_deref(), Some("first"));
    assert_eq!(inbox.pop().map(|(_, m)| m).as_deref(), Some("second"));
    assert_eq!(inbox.pop(), None);
}

#[test]
fn refusals_past_the_ceiling_are_counted_once() {
    let mut inbox = Inbox::ephemeral();
    for i in 0..MAX_HELD + 3 {
        inbox.push(format!("{i}"));
    }
    assert_eq!(inbox.take_dropped(), 3);
    assert_eq!(inbox.take_dropped(), 0);
}

#[test]
fn refused_messages_are_reported_as_a_messages_overflow() {
    let mut queues = pair();
    for i in 0..MAX_HELD + 2 {
        let _ = queues.inbox.push(format!("{i}"));
    }
    let mut last = None;
    for _ in 0..MAX_HELD + 1 {
        last = queues.next_event();
    }
    let last = last.unwrap();
    assert!(matches!(last.report, Report::Overflow { kind: Overflow::Messages, dropped: 2 }));
    assert_eq!(Overflow::Messages.token(), "messages");
    assert!(queues.next_event().is_none());
}

#[test]
fn a_restored_inbox_numbers_on_after_what_it_held() {
    let mut held = Held::new();
    apply(&mut held, (4, Some("four".to_owned())));
    apply(&mut held, (2, Some("two".to_owned())));
    apply(&mut held, (3, Some("three".to_owned())));
    apply(&mut held, (3, None));
    let mut inbox = Inbox::restored(held);
    assert_eq!(inbox.push("five".to_owned()), Some(5));
    assert_eq!(inbox.pop(), Some((2, "two".to_owned())));
    assert_eq!(inbox.pop(), Some((4, "four".to_owned())));
    assert_eq!(inbox.pop(), Some((5, "five".to_owned())));
}

#[test]
fn a_duplicate_produces_no_event() {
    let mut queues = pair();

    report_enqueue_error(&mut queues.events, &[1u8; 32], RouterError::Duplicate);

    assert!(queues.next_event().is_none());
}

#[test]
fn any_other_error_still_produces_failed() {
    let mut queues = pair();

    report_enqueue_error(&mut queues.events, &[2u8; 32], RouterError::QueueFull);

    let event = queues.next_event().expect("a failed event").report;
    assert_eq!(event.kind(), Some("delivery"));
    assert_eq!(event.state(), Some("failed"));
    assert_eq!(event.reason(), Some("queue_full"));
    assert_eq!(event.retry(), Some("resubmit"));
}

#[test]
fn a_selected_propagation_node_is_published_to_the_handle() {
    let mut state = RouterState::new();
    let selected = [0x5e; 16];

    state.publish(Vec::new(), Some(selected));

    assert_eq!(state.propagation_node(), Some(selected));
}

#[test]
fn clearing_the_selection_turns_the_published_node_back_to_none() {
    let mut state = RouterState::new();
    state.publish(Vec::new(), Some([0x5e; 16]));
    assert!(state.propagation_node().is_some(), "setup did not select one");

    state.publish(Vec::new(), None);

    assert_eq!(state.propagation_node(), None);
}

#[test]
fn the_depth_is_read_off_the_ids() {
    let mut state = RouterState::new();
    assert_eq!(state.outbound_depth(), 0);
    state.publish(vec![[1; 32], [2; 32]], None);
    assert_eq!(state.outbound_depth(), 2);
    assert_eq!(state.queued_ids(), vec![[1; 32], [2; 32]]);
}

#[test]
fn nothing_is_queued_once_the_reader_is_gone() {
    let mut sink: EventSink = sink::new();
    sink.push(Report::Rendered("before".to_owned()));
    sink.reader_gone();
    assert!(!sink.emit(sink::Queued::Report(Report::Rendered("lost".to_owned()))));
    sink.push(Report::Rendered("after".to_owned()));
    sink.push_announce(BOB, announce("unheard"));
    assert_eq!(sink.depth(), 1);

    let mut live: EventSink = sink::new();
    assert!(live.emit(sink::Queued::Report(Report::Rendered("heard".to_owned()))));
    assert_eq!(live.depth(), 1);
}

#[test]
fn a_gone_reader_lets_the_pending_overflow_count_go() {
    let mut sink: EventSink = sink::new();
    for _ in 0..MAX_QUEUED_EVENTS {
        sink.push(Report::Rendered("{}".to_owned()));
    }
    sink.push(Report::Rendered("refused".to_owned()));
    assert!(sink.take_next().is_some());
    sink.reader_gone();
    sink.push(Report::Rendered("unheard".to_owned()));
    assert_eq!(sink.depth(), MAX_QUEUED_EVENTS - 1);
    assert!(sink.has_room_to_count());
}
