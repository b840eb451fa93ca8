//! What the in-process iroh endpoint is built with: the protocol it accepts,
//! the relays it uses, and whether it publishes where it is.

use vstd::prelude::*;

use super::{relay_url_parse, relay_url_refusal, RelayUrl};
use crate::text::{debug_quoted, debug_text, joined};

verus! {

/// The ALPN the endpoint accepts, and dials with.
pub const ALPN: &'static str = "resilum/iroh/1";

/// What the node's configuration says of iroh.
pub struct IrohConfig {
    /// A relay of our own, in place of iroh's default ones.
    pub relay: Option<String>,
    /// Publish our own address, so peers resolve us by id alone. A leaf leaves
    /// it unset, and never beacons where it is.
    pub publish: bool,
    /// Endpoint ids dialled at startup.
    pub bootstrap: Vec<String>,
}

/// Which relays the endpoint uses.
#[derive(Clone, Debug)]
pub enum RelayChoice {
    /// iroh's default relays.
    Default,
    /// The one relay the configuration names.
    Custom(RelayUrl),
}

/// A choice as the URL it names, if any.
pub open spec fn choice_view(choice: RelayChoice) -> Option<(Seq<char>, Option<Seq<char>>)> {
    match choice {
        RelayChoice::Default => None,
        RelayChoice::Custom(url) => Some((url.text(), url.host())),
    }
}

/// The relay a configuration asks for: `Ok(None)` for iroh's default ones,
/// the URL it names, or why that text is no relay URL.
pub open spec fn configured_relay(relay: Option<String>) -> Result<Option<(Seq<char>, Option<Seq<char>>)>, Seq<char>> {
    match relay {
        None => Ok(None),
        Some(url) => match relay_url_parse(url@) {
            Some(parsed) => Ok(Some(parsed)),
            None => Err("invalid iroh relay url "@ + debug_quoted(url@) + ": "@ + relay_url_refusal(url@)),
        },
    }
}

/// The relays the configuration asks for.
pub fn relay_mode(cfg: &IrohConfig) -> (res: Result<RelayChoice, String>)
    ensures
        match res {
            Ok(choice) => configured_relay(cfg.relay) == Ok::<_, Seq<char>>(choice_view(choice)),
            Err(detail) => configured_relay(cfg.relay) == Err::<Option<(Seq<char>, Option<Seq<char>>)>, _>(detail@),
        },
{
    match &cfg.relay {
        None => Ok(RelayChoice::Default),
        Some(url) => match RelayUrl::parse_or_refuse(url.as_str()) {
            Ok(parsed) => Ok(RelayChoice::Custom(parsed)),
            Err(detail) => {
                let quoted = debug_text(url.as_str());
                let head = joined(&joined("invalid iroh relay url ", quoted.as_str()), ": ");
                Err(joined(head.as_str(), detail.as_str()))
            },
        },
    }
}

/// How the endpoint is built: it accepts [`ALPN`], resolves peers by id through
/// pkarr and DNS, uses the relays the configuration asks for, and publishes its
/// own address only when told to.
pub struct EndpointPlan {
    pub alpn: &'static str,
    pub relay: RelayChoice,
    pub publish: bool,
}

/// The configuration shared by the stable and the protected builder.
pub fn base_builder(cfg: &IrohConfig) -> (res: Result<EndpointPlan, String>)
    ensures
        match res {
            Ok(plan) => {
                &&& plan.alpn@ == ALPN@
                &&& plan.publish == cfg.publish
                &&& configured_relay(cfg.relay) == Ok::<_, Seq<char>>(choice_view(plan.relay))
            },
            Err(detail) => configured_relay(cfg.relay) == Err::<Option<(Seq<char>, Option<Seq<char>>)>, _>(detail@),
        },
{
    match relay_mode(cfg) {
        Ok(relay) => Ok(EndpointPlan { alpn: ALPN, relay, publish: cfg.publish }),
        Err(detail) => Err(detail),
    }
}

} // verus!
