//! Dialling a link: the key it is opened to, and when to stop waiting.

use vstd::prelude::*;

use super::LinkMsg;

verus! {

/// The signing half of an identity's 64 public-key bytes.
pub fn signing_half_of(public_key: &[u8]) -> (res: Option<[u8; 32]>)
    ensures
        match res {
            Some(key) => public_key@.len() >= 64 && key@ == public_key@.subrange(32, 64),
            None => public_key@.len() < 64,
        },
{
    if public_key.len() < 64 {
        return None;
    }
    Some(crate::bytes::array_at(public_key, 32))
}

/// While waiting for a link to come up: `Established` ends the wait with
/// success, data before it is passed over, and anything else — the link
/// closing, the channel gone, the deadline (`None`) — ends it with failure.
/// `None` means wait on.
pub fn established_step(msg: Option<LinkMsg>) -> (res: Option<bool>)
    ensures
        res == match msg {
            Some(LinkMsg::Established) => Some(true),
            Some(LinkMsg::Data(_)) => None,
            _ => Some(false),
        },
{
    match msg {
        Some(LinkMsg::Established) => Some(true),
        Some(LinkMsg::Data(_)) => None,
        _ => Some(false),
    }
}

/// While waiting for an answer: the first data is the answer, a late
/// `Established` is passed over, and anything else ends the wait unanswered.
pub enum Answer {
    Parse(Vec<u8>),
    Wait,
    Unanswered,
}

pub fn answered_step(msg: Option<LinkMsg>) -> (res: Answer)
    ensures
        match msg {
            Some(LinkMsg::Data(bytes)) => res == Answer::Parse(bytes),
            Some(LinkMsg::Established) => res == Answer::Wait,
            _ => res == Answer::Unanswered,
        },
{
    match msg {
        Some(LinkMsg::Data(bytes)) => Answer::Parse(bytes),
        Some(LinkMsg::Established) => Answer::Wait,
        _ => Answer::Unanswered,
    }
}

} // verus!
