//! How an iroh endpoint is named and addressed: the encodings that carry it
//! through an announce, and the protected transport's addresses.

pub mod addr;
pub mod custom;
pub mod discovery;
pub mod engine;
pub mod resolvers;
pub mod text_addr;
pub mod wiring;

use vstd::prelude::*;

use crate::text::{hex_decoded, is_lower_hex, trim, trimmed};

verus! {

/// Whether 32 bytes are an iroh endpoint id: an ed25519 public key whose
/// compressed point decompresses.
pub uninterp spec fn is_endpoint_id(bytes: Seq<u8>) -> bool;

/// What a URL text parses to, if it parses: its serialization and its host.
pub uninterp spec fn relay_url_parse(text: Seq<char>) -> Option<(Seq<char>, Option<Seq<char>>)>;

/// `iroh_base::EndpointId::from_bytes`: the id the bytes are, when they are one
/// (it keeps the bytes it was given); `None` when the point does not decompress.
#[verifier::external_body]
fn endpoint_id_from_bytes(bytes: &[u8; 32]) -> (res: Option<[u8; 32]>)
    ensures
        res is Some <==> is_endpoint_id(bytes@),
        res matches Some(id) ==> id == *bytes,
{
    match iroh_base::EndpointId::from_bytes(bytes) {
        Ok(id) => Some(*id.as_bytes()),
        Err(_) => None,
    }
}

/// What `EndpointId::from_str` makes of a text: the id's bytes, if it names one.
pub uninterp spec fn endpoint_id_text(text: Seq<char>) -> Option<Seq<u8>>;

/// `<iroh_base::EndpointId as FromStr>::from_str`. Sixty-four lowercase hex
/// digits are read as hex, and name an id when their bytes are one; what other
/// texts name (unpadded base32, in either case) is left to the name.
#[verifier::external_body]
fn endpoint_id_from_text(text: &str) -> (res: Option<[u8; 32]>)
    ensures
        match res {
            Some(id) => endpoint_id_text(text@) == Some(id@),
            None => endpoint_id_text(text@) is None,
        },
        text@.len() == 64 && is_lower_hex(text@) ==> (res is Some <==> is_endpoint_id(hex_decoded(text@)))
            && (res matches Some(id) ==> id@ == hex_decoded(text@)),
{
    match text.parse::<iroh_base::EndpointId>() {
        Ok(id) => Some(*id.as_bytes()),
        Err(_) => None,
    }
}

/// The endpoint id a configured bootstrap peer names, read without the white
/// space around it; `None` when it names none.
pub fn bootstrap_peer(peer: &str) -> (res: Option<[u8; 32]>)
    ensures
        match res {
            Some(id) => endpoint_id_text(trimmed(peer@)) == Some(id@),
            None => endpoint_id_text(trimmed(peer@)) is None,
        },
{
    endpoint_id_from_text(trim(peer))
}

/// What the refusal of a text that is no URL says.
pub uninterp spec fn relay_url_refusal(text: Seq<char>) -> Seq<char>;

/// `<iroh_base::RelayUrl as FromStr>::from_str`, with the parsed URL's
/// serialization and host read back out; the refusal's text when the text is
/// no URL.
#[verifier::external_body]
fn parse_relay_url(text: &str) -> (res: Result<RelayUrl, String>)
    ensures
        match res {
            Ok(url) => relay_url_parse(text@) == Some((url.text(), url.host())),
            Err(detail) => relay_url_parse(text@) is None && detail@ == relay_url_refusal(text@),
        },
{
    match text.parse::<iroh_base::RelayUrl>() {
        Ok(url) => Ok(RelayUrl { text: url.to_string(), host: url.host_str().map(str::to_owned) }),
        Err(e) => Err(e.to_string()),
    }
}

/// A relay server's URL, as its serialization and its host.
#[derive(Clone, Debug)]
pub struct RelayUrl {
    text: String,
    host: Option<String>,
}

pub open spec fn opt_text(value: Option<String>) -> Option<Seq<char>> {
    match value {
        Some(text) => Some(text@),
        None => None,
    }
}

impl RelayUrl {
    pub closed spec fn text(&self) -> Seq<char> {
        self.text@
    }

    pub closed spec fn host(&self) -> Option<Seq<char>> {
        opt_text(self.host)
    }

    /// The URL `text` parses to, `None` when it is no URL.
    pub fn parse(text: &str) -> (res: Option<RelayUrl>)
        ensures
            match res {
                Some(url) => relay_url_parse(text@) == Some((url.text(), url.host())),
                None => relay_url_parse(text@) is None,
            },
    {
        match parse_relay_url(text) {
            Ok(url) => Some(url),
            Err(_) => None,
        }
    }

    /// The URL `text` parses to, or what its refusal says.
    pub fn parse_or_refuse(text: &str) -> (res: Result<RelayUrl, String>)
        ensures
            match res {
                Ok(url) => relay_url_parse(text@) == Some((url.text(), url.host())),
                Err(detail) => relay_url_parse(text@) is None && detail@ == relay_url_refusal(text@),
            },
    {
        parse_relay_url(text)
    }

    pub fn as_str(&self) -> (res: &str)
        ensures
            res@ == self.text(),
    {
        self.text.as_str()
    }

    pub fn host_str(&self) -> (res: Option<&str>)
        ensures
            match res {
                Some(host) => self.host() == Some(host@),
                None => self.host() is None,
            },
    {
        match &self.host {
            Some(host) => Some(host.as_str()),
            None => None,
        }
    }

    /// Whether two URLs are the same.
    pub fn same(&self, other: &RelayUrl) -> (res: bool)
        ensures
            res == (self.text() == other.text() && self.host() == other.host()),
    {
        crate::text::same_text(self.text.as_str(), other.text.as_str()) && match (&self.host, &other.host) {
            (Some(a), Some(b)) => crate::text::same_text(a.as_str(), b.as_str()),
            (None, None) => true,
            _ => false,
        }
    }
}

/// What a peer needs to route to an endpoint: its id, and its home relay if
/// it has one.
#[derive(Clone, Debug)]
pub struct EndpointAddr {
    pub id: [u8; 32],
    pub relay: Option<RelayUrl>,
}

/// The relay an address carries, as serialization and host.
pub open spec fn relay_view(relay: Option<RelayUrl>) -> Option<(Seq<char>, Option<Seq<char>>)> {
    match relay {
        Some(url) => Some((url.text(), url.host())),
        None => None,
    }
}

} // verus!
