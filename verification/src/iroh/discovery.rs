//! Announce-driven discovery: what an announced endpoint is dialled as, and
//! the bootstrap peers the configuration names.

use vstd::prelude::*;

use super::addr::{parse_addr, relay_of_host};
use super::wiring::{attached_as, attached_name};
use super::{is_endpoint_id, relay_view, EndpointAddr};

verus! {

/// What an announced payload is dialled as: the address it parses to, and the
/// name its link is attached under; `None` when it is no address.
pub fn consumed_endpoint(payload: &[u8]) -> (res: Option<(EndpointAddr, String)>)
    ensures
        payload@.len() < 32 || !is_endpoint_id(payload@.subrange(0, 32)) ==> res is None,
        payload@.len() >= 32 && is_endpoint_id(payload@.subrange(0, 32)) ==> (res matches Some((addr, name))
            && addr.id@ == payload@.subrange(0, 32)
            && relay_view(addr.relay) == relay_of_host(payload@.subrange(32, payload@.len() as int))
            && name@ == attached_name(addr.id)),
{
    match parse_addr(payload) {
        Some(addr) => {
            let name = attached_as(&addr.id);
            Some((addr, name))
        },
        None => None,
    }
}

/// What an announced endpoint leads to.
#[derive(Clone, Copy, Debug, PartialEq, Eq, Structural)]
pub enum EndpointAction {
    /// Nothing: the payload is no address, or it names a link already held
    /// whose announcer is not known.
    Ignore,
    /// The link is held already: name the peer that announced it.
    Learn,
    /// Dial it, if the discovery layer has room for one more link.
    Admit,
}

/// A held link is never dialled twice: its announcer is named, when known.
/// Any other address is dialled when there is room for it.
pub fn endpoint_action(parsed: bool, held: bool, announcer_known: bool) -> (res: EndpointAction)
    ensures
        !parsed ==> res == EndpointAction::Ignore,
        parsed && held && announcer_known ==> res == EndpointAction::Learn,
        parsed && held && !announcer_known ==> res == EndpointAction::Ignore,
        parsed && !held ==> res == EndpointAction::Admit,
{
    if !parsed {
        EndpointAction::Ignore
    } else if held {
        if announcer_known {
            EndpointAction::Learn
        } else {
            EndpointAction::Ignore
        }
    } else {
        EndpointAction::Admit
    }
}

} // verus!
