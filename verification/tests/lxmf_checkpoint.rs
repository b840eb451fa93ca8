use resilum_core::lxmf::checkpoint::{compare_keys, starts_with, KeyOrder, Slots};
use resilum_core::lxmf::processor::{due, sync_due, Selection, SYNC_INTERVAL_MS};
use resilum_core::lxmf::stamp::Jobs;
use resilum_core::lxmf::poll::{MessageState, RouterEvent};
use resilum_core::lxmf::processor::{absorb_round, absorb_start, MAX_ABSORB_ROUNDS};
use resilum_core::lxmf::processor::{after_hook, tries_registration, Registration};
use resilum_core::lxmf::fields::custom_fields;

#[test]
fn keys_are_ordered_as_a_dictionary_orders_words() {
    assert_eq!(compare_keys(b"abc", b"abd"), KeyOrder::Before);
    assert_eq!(compare_keys(b"ab", b"abc"), KeyOrder::Before);
    assert_eq!(compare_keys(b"", b"a"), KeyOrder::Before);
    assert_eq!(compare_keys(b"abc", b"abc"), KeyOrder::Same);
    assert_eq!(compare_keys(b"b", b"abc"), KeyOrder::After);
    assert_eq!(compare_keys(&[0xff], &[0x00, 0xff]), KeyOrder::After);
}

#[test]
fn a_prefix_is_where_a_key_begins() {
    assert!(starts_with(b"outbound/1", b"outbound/"));
    assert!(starts_with(b"outbound/", b""));
    assert!(!starts_with(b"out", b"outbound/"));
    assert!(!starts_with(b"inbound/1", b"outbound/"));
}

#[test]
fn a_stored_slot_is_loaded_back() {
    let mut slots = Slots::new();
    assert_eq!(slots.load(b"ids"), None);
    slots.store(b"ids", &[1, 2, 3]);
    assert_eq!(slots.load(b"ids"), Some(vec![1, 2, 3]));
    slots.store(b"ids", &[4]);
    assert_eq!(slots.load(b"ids"), Some(vec![4]));
    slots.remove(b"ids");
    assert_eq!(slots.load(b"ids"), None);
    slots.remove(b"ids");
    assert_eq!(slots.load(b"ids"), None);
}

#[test]
fn keys_under_a_prefix_come_out_in_key_order() {
    let mut slots = Slots::new();
    slots.store(b"outbound/c", b"3");
    slots.store(b"inbound/a", b"x");
    slots.store(b"outbound/a", b"1");
    slots.store(b"outbound/b", b"2");
    slots.store(b"outbound", b"root");
    assert_eq!(
        slots.keys(b"outbound/"),
        vec![b"outbound/a".to_vec(), b"outbound/b".to_vec(), b"outbound/c".to_vec()],
    );
    assert_eq!(slots.keys(b"").len(), 5);
    assert_eq!(slots.keys(b"").first(), Some(&b"inbound/a".to_vec()));
    assert!(slots.keys(b"missing").is_empty());
    let order: Vec<Vec<u8>> = slots.entries().iter().map(|(key, _)| key.clone()).collect();
    assert_eq!(order, slots.keys(b""));
}

#[test]
fn no_propagation_node_means_no_sync() {
    assert_eq!(sync_due(Selection::Unavailable, 10_000, 0), None);
    assert_eq!(sync_due(Selection::Held, 10_000, 0), Some(10_000 + SYNC_INTERVAL_MS));
    assert_eq!(sync_due(Selection::Selected, 10_000, 20_000), None);
    assert_eq!(sync_due(Selection::Selected, u64::MAX, 0), Some(u64::MAX));
    assert_eq!(due(5, 5, 7), Some(12));
}

#[test]
fn a_repeated_ask_does_not_queue_a_second_grind() {
    let mut jobs = Jobs::new();
    let message = [0x42; 32];
    assert!(jobs.propagation(&message));
    assert!(!jobs.propagation(&message), "the same grind was queued twice");
    jobs.finished(&message);
    assert!(jobs.propagation(&message), "a message off the thread must be grindable again");
    assert!(jobs.propagation(&[0x43; 32]), "another message is ground on its own");
    jobs.finished(&[0x77; 32]);
    assert!(!jobs.propagation(&[0x43; 32]));
}

#[test]
fn the_checkpoint_is_taken_once_if_any_round_asked() {
    let quiet = vec![RouterEvent::MessageQueued];
    let asking = vec![RouterEvent::MessageState { message_id: [1; 32], state: MessageState::Sent }, RouterEvent::PersistenceRequested];
    let (after_one, again) = absorb_round(absorb_start(), &quiet);
    assert!(again);
    assert!(!after_one.persist);
    let (after_two, _) = absorb_round(after_one, &asking);
    let (after_three, _) = absorb_round(after_two, &quiet);
    assert!(after_three.persist);
    assert_eq!(after_three.rounds, 3);
    let mut state = absorb_start();
    let mut fed = 0;
    for _ in 0..MAX_ABSORB_ROUNDS + 2 {
        let (next, again) = absorb_round(state, &quiet);
        state = next;
        if again {
            fed += 1;
        }
    }
    assert_eq!(fed, MAX_ABSORB_ROUNDS);
    assert!(!state.persist);
}

#[test]
fn a_failed_registration_is_never_retried() {
    assert!(tries_registration(Registration::Unregistered));
    assert!(!tries_registration(Registration::Failed));
    assert!(!tries_registration(Registration::Ready));
    assert_eq!(after_hook(Registration::Unregistered, true), Registration::Ready);
    assert_eq!(after_hook(Registration::Unregistered, false), Registration::Failed);
    assert_eq!(after_hook(Registration::Failed, true), Registration::Failed);
    assert_eq!(after_hook(Registration::Ready, false), Registration::Ready);
}

#[test]
fn the_last_custom_field_of_each_id_is_the_one_read() {
    let ids = vec![0x01, 0xfb, 0x02, 0xfc, 0xfb];
    assert_eq!(custom_fields(&ids, 0xfb, 0xfc), (Some(4), Some(3)));
    assert_eq!(custom_fields(&ids, 0x10, 0x11), (None, None));
    assert_eq!(custom_fields(&Vec::new(), 0xfb, 0xfc), (None, None));
}
