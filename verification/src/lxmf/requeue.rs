//! Parse a re-queue request into what the router is asked for.

use vstd::prelude::*;

use super::request::RequestError;
use super::send::{hex_of_len, method_named, parse_method, DeliveryMethod};
use crate::bytes::array_at;
use crate::text::{hex_decode, hex_decoded};

verus! {

/// The message and delivery method a re-queue names. `message_id` is
/// lowercase hex, as every id this library hands out is.
pub fn parse_request(message_id: &str, method: &str) -> (res: Result<([u8; 32], DeliveryMethod), RequestError>)
    ensures
        !hex_of_len(message_id@, 32) ==> res == Err::<([u8; 32], DeliveryMethod), RequestError>(
            RequestError::Hex { field: "message_id" },
        ),
        hex_of_len(message_id@, 32) && method_named(method@) is None ==> (res matches Err(
            RequestError::UnknownMethod(named),
        ) && named@ == method@),
        hex_of_len(message_id@, 32) && method_named(method@) is Some ==> (res matches Ok((id, m))
            && id@ == hex_decoded(message_id@) && Some(m) == method_named(method@)),
{
    let refuse = RequestError::Hex { field: "message_id" };
    let bytes = match hex_decode(message_id) {
        Some(bytes) => bytes,
        None => return Err(refuse),
    };
    if bytes.len() != 32 {
        return Err(refuse);
    }
    let id: [u8; 32] = array_at(bytes.as_slice(), 0);
    let method = parse_method(method)?;
    Ok((id, method))
}

} // verus!
