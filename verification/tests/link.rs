use std::sync::mpsc::{channel, Receiver, Sender};

use resilum_core::link::dial::{answered_step, established_step, signing_half_of, Answer};
use resilum_core::link::inbox::Inbox;
use resilum_core::link::route::{route, NodeEvent};
use resilum_core::link::{LinkMsg, LinkRouter};

type Inbound = ([u8; 16], [u8; 16], Receiver<LinkMsg>);

fn lid(b: u8) -> [u8; 16] {
    [b; 16]
}

/// Carries out what `route` decides, the way the event pump does.
fn dispatch(router: &mut LinkRouter<Sender<LinkMsg>>, inbound: &Sender<Inbound>, ev: NodeEvent) {
    let decided = route(ev);
    if let Some((link_id, msg)) = decided.deliver {
        let delivered = match router.deliver(&link_id) {
            Some(tx) => tx.send(msg).is_ok(),
            None => false,
        };
        if !delivered {
            if let Some((link_id, destination)) = decided.surface_if_undelivered {
                let (tx, rx) = channel();
                router.attach(link_id, tx);
                let _ = inbound.send((link_id, destination, rx));
            }
        }
    }
    if let Some(link_id) = decided.detach {
        router.detach(&link_id);
    }
}

fn established(link_id: [u8; 16], is_initiator: bool) -> NodeEvent {
    NodeEvent::LinkEstablished { link_id, is_initiator, destination_hash: [7; 16] }
}

fn message(link_id: [u8; 16], data: &[u8]) -> NodeEvent {
    NodeEvent::MessageReceived { link_id, data: data.to_vec() }
}

#[test]
fn route_routes_established_and_data_to_attached_session() {
    let mut router = LinkRouter::new();
    let (tx, rx) = channel();
    router.attach(lid(1), tx);
    let (itx, irx) = channel();

    dispatch(&mut router, &itx, established(lid(1), true));
    dispatch(&mut router, &itx, message(lid(1), b"hi"));

    assert_eq!(rx.try_recv().unwrap(), LinkMsg::Established);
    assert_eq!(rx.try_recv().unwrap(), LinkMsg::Data(b"hi".to_vec()));
    assert!(irx.try_recv().is_err(), "attached link is not surfaced");
}

#[test]
fn link_routes_established_and_data_to_attached_session() {
    let mut router = LinkRouter::new();
    let (tx, rx) = channel();
    router.attach(lid(1), tx);
    let (itx, irx) = channel();

    dispatch(&mut router, &itx, established(lid(1), true));
    dispatch(&mut router, &itx, message(lid(1), b"hi"));

    assert_eq!(rx.try_recv().unwrap(), LinkMsg::Established);
    assert_eq!(rx.try_recv().unwrap(), LinkMsg::Data(b"hi".to_vec()));
    assert!(irx.try_recv().is_err(), "attached link is not surfaced");
}

#[test]
fn surfaces_unclaimed_responder_link() {
    let mut router = LinkRouter::new();
    let (itx, irx) = channel();

    dispatch(&mut router, &itx, established(lid(2), false));

    assert_eq!(irx.try_recv().unwrap().0, lid(2));
}

#[test]
fn surfaces_and_attaches_responder_link() {
    let mut router = LinkRouter::new();
    let (itx, irx) = channel();

    dispatch(&mut router, &itx, established(lid(2), false));
    let (id, dest, rx) = irx.try_recv().unwrap();
    assert_eq!(id, lid(2));
    assert_eq!(dest, [7; 16]);

    dispatch(&mut router, &itx, message(lid(2), b"x"));
    assert_eq!(rx.try_recv().unwrap(), LinkMsg::Data(b"x".to_vec()));
}

#[test]
fn an_initiator_link_nobody_waits_for_is_not_surfaced() {
    let mut router: LinkRouter<Sender<LinkMsg>> = LinkRouter::new();
    let (itx, irx) = channel();
    dispatch(&mut router, &itx, established(lid(4), true));
    assert!(irx.try_recv().is_err());
}

#[test]
fn route_detach_removes_the_session() {
    let mut router = LinkRouter::new();
    let (tx, _rx) = channel::<LinkMsg>();
    router.attach(lid(3), tx);
    router.detach(&lid(3));
    assert!(router.is_empty());
}

#[test]
fn link_detach_removes_the_session() {
    let mut router = LinkRouter::new();
    let (tx, _rx) = channel::<LinkMsg>();
    router.attach(lid(3), tx);
    router.detach(&lid(3));
    assert!(router.is_empty());
}

#[test]
fn a_closed_link_hears_closed_and_is_detached() {
    let mut router = LinkRouter::new();
    let (tx, rx) = channel();
    router.attach(lid(5), tx);
    let (itx, _irx) = channel();
    dispatch(&mut router, &itx, NodeEvent::LinkClosed { link_id: lid(5) });
    assert_eq!(rx.try_recv().unwrap(), LinkMsg::Closed);
    assert!(router.is_empty());
}

#[test]
fn a_link_goes_to_whoever_claimed_its_destination() {
    let mut inbox: Inbox<&'static str> = Inbox::new();
    inbox.claim([1; 16], "claimant");
    assert_eq!(inbox.sort(&[1; 16]), Some(&"claimant"));
    assert_eq!(inbox.sort(&[2; 16]), None);
}

#[test]
fn the_signing_half_is_the_second_32_bytes() {
    let key: Vec<u8> = (0u8..64).collect();
    assert_eq!(signing_half_of(&key), Some(core_array(32)));
    assert_eq!(signing_half_of(&key[..63]), None);
}

fn core_array(start: u8) -> [u8; 32] {
    let mut out = [0u8; 32];
    for (i, b) in out.iter_mut().enumerate() {
        *b = start + i as u8;
    }
    out
}

#[test]
fn establishing_waits_past_data_and_gives_up_on_anything_else() {
    assert_eq!(established_step(Some(LinkMsg::Established)), Some(true));
    assert_eq!(established_step(Some(LinkMsg::Data(vec![1]))), None);
    assert_eq!(established_step(Some(LinkMsg::Closed)), Some(false));
    assert_eq!(established_step(None), Some(false));
}

#[test]
fn an_answer_is_the_first_data() {
    assert!(matches!(answered_step(Some(LinkMsg::Data(vec![1]))), Answer::Parse(bytes) if bytes == vec![1]));
    assert!(matches!(answered_step(Some(LinkMsg::Established)), Answer::Wait));
    assert!(matches!(answered_step(Some(LinkMsg::Closed)), Answer::Unanswered));
    assert!(matches!(answered_step(None), Answer::Unanswered));
}
