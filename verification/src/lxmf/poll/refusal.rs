//! Something the router would not do, as the caller reads it.

use vstd::prelude::*;

use super::reason::{refusal, refusal_of, Refusal, RouterError};
use super::Report;

verus! {

/// The `failed` update for a message the router refused outright, which it
/// reports through its return value rather than as an event.
pub fn failed(message_id: &[u8; 32], error: &RouterError) -> (res: Report)
    ensures
        res == (Report::Failed { message_id: *message_id, refusal: refusal_of(*error) }),
{
    failed_value(message_id, refusal(error))
}

/// Why a re-queue did not happen. Deliberately not a `delivery` event: a
/// refused re-queue leaves the message exactly where it was, and for the
/// common refusal — an id the router no longer holds — that place is a
/// terminal state the caller was already told about.
pub fn requeue_refused(message_id: &[u8; 32], error: &RouterError) -> (res: Report)
    ensures
        res == (Report::RequeueRefused { message_id: *message_id, refusal: refusal_of(*error) }),
{
    Report::RequeueRefused { message_id: *message_id, refusal: refusal(error) }
}

/// `reason`/`retry` are additive to a plain delivery update and only ever
/// present on `failed`.
pub fn failed_value(message_id: &[u8; 32], refusal: Refusal) -> (res: Report)
    ensures
        res == (Report::Failed { message_id: *message_id, refusal }),
{
    Report::Failed { message_id: *message_id, refusal }
}

} // verus!
