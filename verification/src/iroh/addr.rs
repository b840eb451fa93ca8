//! How an endpoint travels in an announce: the 32-byte endpoint id, then the
//! relay's host if there is one. Raw rather than hex, and the host without its
//! scheme: both halved a field that shares one announce with every other
//! transport.

use vstd::prelude::*;
use vstd::utf8::{decode_utf8, encode_utf8, encode_utf8_decode_utf8, valid_utf8, encode_utf8_valid_utf8};

use super::{endpoint_id_from_bytes, is_endpoint_id, relay_url_parse, relay_view, EndpointAddr, RelayUrl};
use crate::bytes::{append_bytes, array_at};
use crate::text::{from_utf8, joined};

verus! {

/// The bytes an address is announced as.
pub open spec fn addr_bytes(id: [u8; 32], relay: Option<(Seq<char>, Option<Seq<char>>)>) -> Seq<u8> {
    id@ + match relay {
        Some((_, Some(host))) => encode_utf8(host),
        _ => Seq::empty(),
    }
}

/// The relay a host in an announce stands for: `https://<host>/`, when the host
/// is present, UTF-8, and makes a URL.
pub open spec fn relay_of_host(host: Seq<u8>) -> Option<(Seq<char>, Option<Seq<char>>)> {
    if host.len() > 0 && valid_utf8(host) {
        relay_url_parse("https://"@ + decode_utf8(host) + "/"@)
    } else {
        None
    }
}

pub fn encode_addr(addr: &EndpointAddr) -> (res: Vec<u8>)
    ensures
        res@ == addr_bytes(addr.id, relay_view(addr.relay)),
{
    let mut out: Vec<u8> = Vec::new();
    append_bytes(&mut out, &addr.id);
    match &addr.relay {
        Some(url) => match url.host_str() {
            Some(host) => append_bytes(&mut out, host.as_bytes()),
            None => {},
        },
        None => {},
    }
    proof {
        assert(out@ =~= addr_bytes(addr.id, relay_view(addr.relay)));
    }
    out
}

pub fn parse_addr(payload: &[u8]) -> (res: Option<EndpointAddr>)
    ensures
        payload@.len() < 32 ==> res is None,
        payload@.len() >= 32 ==> {
            let id = payload@.subrange(0, 32);
            &&& res is Some <==> is_endpoint_id(id)
            &&& res matches Some(addr) ==> addr.id@ == id && relay_view(addr.relay) == relay_of_host(
                payload@.subrange(32, payload@.len() as int),
            )
        },
{
    if payload.len() < 32 {
        return None;
    }
    let id_bytes: [u8; 32] = array_at(payload, 0);
    let id = endpoint_id_from_bytes(&id_bytes)?;
    let host = &payload[32..payload.len()];
    let mut relay: Option<RelayUrl> = None;
    if host.len() > 0 {
        if let Some(host) = from_utf8(host) {
            let text = joined(&joined("https://", host), "/");
            relay = RelayUrl::parse(&text);
        }
    }
    Some(EndpointAddr { id, relay })
}

/// An address survives its announce: parsing what it was encoded as gives it
/// back, for a valid endpoint id and either no relay or one whose URL is the
/// `https://<host>/` its host makes.
pub proof fn encoded_addr_parses_back(id: [u8; 32], relay: Option<(Seq<char>, Option<Seq<char>>)>)
    requires
        is_endpoint_id(id@),
        relay matches Some((text, host)) ==> host matches Some(h) && h.len() > 0
            && relay_url_parse("https://"@ + h + "/"@) == Some((text, host)),
    ensures
        addr_bytes(id, relay).len() >= 32,
        addr_bytes(id, relay).subrange(0, 32) == id@,
        relay_of_host(addr_bytes(id, relay).subrange(32, addr_bytes(id, relay).len() as int)) == relay,
{
    let bytes = addr_bytes(id, relay);
    assert(bytes.subrange(0, 32) =~= id@);
    match relay {
        Some((text, Some(h))) => {
            let tail = bytes.subrange(32, bytes.len() as int);
            assert(tail =~= encode_utf8(h));
            encode_utf8_valid_utf8(h);
            encode_utf8_decode_utf8(h);
            if encode_utf8(h).len() == 0 {
                assert(decode_utf8(encode_utf8(h)).len() == 0);
            }
        },
        _ => {
            assert(bytes.subrange(32, bytes.len() as int).len() == 0);
        },
    }
}

} // verus!
