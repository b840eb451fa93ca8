//! Turning a node event into per-session traffic.

use vstd::prelude::*;

use super::LinkMsg;

verus! {

/// The node events a link session hears of; every other event is `Other`.
pub enum NodeEvent {
    LinkEstablished { link_id: [u8; 16], is_initiator: bool, destination_hash: [u8; 16] },
    /// A message on a link's reliable channel.
    MessageReceived { link_id: [u8; 16], data: Vec<u8> },
    LinkClosed { link_id: [u8; 16] },
    Other,
}

/// What to do with one event: deliver a message to a link's session; if no
/// session took it, surface the link to the listen side (attaching a session
/// for it first, so nothing can slip in before the listen side owns it); and
/// after delivering, detach the session.
pub struct Route {
    pub deliver: Option<([u8; 16], LinkMsg)>,
    /// The link and the local destination it targeted, for a responder-side
    /// link nobody was waiting for.
    pub surface_if_undelivered: Option<([u8; 16], [u8; 16])>,
    pub detach: Option<[u8; 16]>,
}

pub fn route(ev: NodeEvent) -> (res: Route)
    ensures
        match ev {
            NodeEvent::LinkEstablished { link_id, is_initiator, destination_hash } => {
                &&& res.deliver == Some((link_id, LinkMsg::Established))
                &&& res.surface_if_undelivered == if is_initiator { None } else { Some((link_id, destination_hash)) }
                &&& res.detach is None
            },
            NodeEvent::MessageReceived { link_id, data } => {
                &&& res.deliver == Some((link_id, LinkMsg::Data(data)))
                &&& res.surface_if_undelivered is None
                &&& res.detach is None
            },
            NodeEvent::LinkClosed { link_id } => {
                &&& res.deliver == Some((link_id, LinkMsg::Closed))
                &&& res.surface_if_undelivered is None
                &&& res.detach == Some(link_id)
            },
            NodeEvent::Other => res.deliver is None && res.surface_if_undelivered is None && res.detach is None,
        },
{
    match ev {
        NodeEvent::LinkEstablished { link_id, is_initiator, destination_hash } => Route {
            deliver: Some((link_id, LinkMsg::Established)),
            surface_if_undelivered: if is_initiator { None } else { Some((link_id, destination_hash)) },
            detach: None,
        },
        NodeEvent::MessageReceived { link_id, data } => Route {
            deliver: Some((link_id, LinkMsg::Data(data))),
            surface_if_undelivered: None,
            detach: None,
        },
        NodeEvent::LinkClosed { link_id } => Route {
            deliver: Some((link_id, LinkMsg::Closed)),
            surface_if_undelivered: None,
            detach: Some(link_id),
        },
        NodeEvent::Other => Route { deliver: None, surface_if_undelivered: None, detach: None },
    }
}

} // verus!
