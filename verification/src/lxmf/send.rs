//! The fields of a send request, checked and decoded. The JSON around them is
//! read, and the message built and signed, by the caller of this library.

use vstd::prelude::*;

use super::request::RequestError;
use crate::bytes::array_at;
use crate::text::{base64_decode, base64_decoded, hex_decode, hex_decoded, is_lower_hex, same_text};

verus! {

/// How a message travels to its recipient.
#[derive(Clone, Copy, Debug, PartialEq, Eq, Structural)]
pub enum DeliveryMethod {
    Opportunistic,
    Direct,
    Propagated,
}

/// The method a request names, if it names one.
pub open spec fn method_named(name: Seq<char>) -> Option<DeliveryMethod> {
    if name == "opportunistic"@ {
        Some(DeliveryMethod::Opportunistic)
    } else if name == "direct"@ {
        Some(DeliveryMethod::Direct)
    } else if name == "propagated"@ {
        Some(DeliveryMethod::Propagated)
    } else {
        None
    }
}

pub fn parse_method(method: &str) -> (res: Result<DeliveryMethod, RequestError>)
    ensures
        match method_named(method@) {
            Some(m) => res == Ok::<DeliveryMethod, RequestError>(m),
            None => (res matches Err(RequestError::UnknownMethod(named)) && named@ == method@),
        },
{
    if same_text(method, "opportunistic") {
        Ok(DeliveryMethod::Opportunistic)
    } else if same_text(method, "direct") {
        Ok(DeliveryMethod::Direct)
    } else if same_text(method, "propagated") {
        Ok(DeliveryMethod::Propagated)
    } else {
        Err(RequestError::UnknownMethod(method.to_owned()))
    }
}

/// Lowercase hex that spells exactly `n` bytes.
pub open spec fn hex_of_len(text: Seq<char>, n: nat) -> bool {
    is_lower_hex(text) && text.len() == 2 * n
}

/// A 16-byte destination hash in lowercase hex.
pub fn parse_hex16(hex: &str) -> (res: Result<[u8; 16], RequestError>)
    ensures
        hex_of_len(hex@, 16) ==> (res matches Ok(hash) && hash@ == hex_decoded(hex@)),
        !hex_of_len(hex@, 16) ==> res == Err::<[u8; 16], RequestError>(RequestError::Hex { field: "destination" }),
{
    let refuse = RequestError::Hex { field: "destination" };
    let bytes = match hex_decode(hex) {
        Some(bytes) => bytes,
        None => return Err(refuse),
    };
    if bytes.len() != 16 {
        return Err(refuse);
    }
    Ok(array_at(bytes.as_slice(), 0))
}

/// A base64 field, absent meaning empty.
pub fn decode_b64(value: Option<&str>, field: &'static str) -> (res: Result<Vec<u8>, RequestError>)
    ensures
        match value {
            None => (res matches Ok(bytes) && bytes@.len() == 0),
            Some(text) => match base64_decoded(text@) {
                Some(decoded) => (res matches Ok(bytes) && bytes@ == decoded),
                None => res == Err::<Vec<u8>, RequestError>(RequestError::Base64 { field }),
            },
        },
{
    match value {
        Some(text) => match base64_decode(text) {
            Some(bytes) => Ok(bytes),
            None => Err(RequestError::Base64 { field }),
        },
        None => Ok(Vec::new()),
    }
}

/// The checked fields of a send request.
pub struct MessageParts {
    pub destination_hash: [u8; 16],
    pub method: DeliveryMethod,
    pub title: Vec<u8>,
    pub content: Vec<u8>,
}

/// The decoded bytes of an optional base64 field, absent meaning empty.
pub open spec fn b64_field(value: Option<Seq<char>>) -> Option<Seq<u8>> {
    match value {
        None => Some(Seq::empty()),
        Some(text) => base64_decoded(text),
    }
}

pub open spec fn opt_view(value: Option<&str>) -> Option<Seq<char>> {
    match value {
        Some(text) => Some(text@),
        None => None,
    }
}

/// The fields of a send request in the order they are checked: the
/// destination, the method, the title, the content. The first that fails
/// names the refusal.
pub fn build_message_parts(
    destination: &str,
    method: &str,
    title_b64: Option<&str>,
    content_b64: Option<&str>,
) -> (res: Result<MessageParts, RequestError>)
    ensures
        !hex_of_len(destination@, 16) ==> res == Err::<MessageParts, RequestError>(
            RequestError::Hex { field: "destination" },
        ),
        hex_of_len(destination@, 16) && method_named(method@) is None ==> (res matches Err(
            RequestError::UnknownMethod(named),
        ) && named@ == method@),
        hex_of_len(destination@, 16) && method_named(method@) is Some && b64_field(opt_view(title_b64)) is None
            ==> res == Err::<MessageParts, RequestError>(RequestError::Base64 { field: "title_b64" }),
        hex_of_len(destination@, 16) && method_named(method@) is Some && b64_field(opt_view(title_b64)) is Some
            && b64_field(opt_view(content_b64)) is None ==> res == Err::<MessageParts, RequestError>(
            RequestError::Base64 { field: "content_b64" },
        ),
        res matches Ok(parts) ==> {
            &&& hex_of_len(destination@, 16)
            &&& parts.destination_hash@ == hex_decoded(destination@)
            &&& method_named(method@) == Some(parts.method)
            &&& b64_field(opt_view(title_b64)) == Some(parts.title@)
            &&& b64_field(opt_view(content_b64)) == Some(parts.content@)
        },
        (hex_of_len(destination@, 16) && method_named(method@) is Some && b64_field(opt_view(title_b64)) is Some
            && b64_field(opt_view(content_b64)) is Some) ==> res is Ok,
{
    let destination_hash = parse_hex16(destination)?;
    let method = parse_method(method)?;
    let title = decode_b64(title_b64, "title_b64")?;
    let content = decode_b64(content_b64, "content_b64")?;
    Ok(MessageParts { destination_hash, method, title, content })
}

} // verus!
