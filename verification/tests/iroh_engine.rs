use iroh_base::SecretKey;
use resilum_core::iroh::addr::encode_addr;
use resilum_core::iroh::discovery::consumed_endpoint;
use resilum_core::iroh::engine::{base_builder, relay_mode, IrohConfig, RelayChoice, ALPN};
use resilum_core::iroh::resolvers::{log_system, DnsNotice};
use resilum_core::iroh::{bootstrap_peer, EndpointAddr, RelayUrl};
use resilum_core::iroh::discovery::{endpoint_action, EndpointAction};

fn config(relay: Option<&str>, publish: bool) -> IrohConfig {
    IrohConfig { relay: relay.map(str::to_owned), publish, bootstrap: Vec::new() }
}

fn fresh_id() -> [u8; 32] {
    *SecretKey::generate().public().as_bytes()
}

fn hex_text(bytes: &[u8]) -> String {
    bytes.iter().map(|b| format!("{b:02x}")).collect()
}

#[test]
fn no_relay_configured_means_the_default_relays() {
    assert!(matches!(relay_mode(&config(None, false)), Ok(RelayChoice::Default)));
}

#[test]
fn a_configured_relay_is_the_one_used() {
    match relay_mode(&config(Some("https://relay.example.com"), false)) {
        Ok(RelayChoice::Custom(url)) => {
            assert_eq!(url.as_str(), "https://relay.example.com/");
            assert_eq!(url.host_str(), Some("relay.example.com"));
        }
        other => panic!("a custom relay: {other:?}"),
    }
}

#[test]
fn a_relay_that_is_no_url_is_refused_with_its_text() {
    let refusal = relay_mode(&config(Some("not a url"), false)).expect_err("no url");
    assert!(refusal.starts_with("invalid iroh relay url \"not a url\": "), "{refusal}");
    assert!(refusal.len() > "invalid iroh relay url \"not a url\": ".len(), "{refusal}");
}

#[test]
fn the_plan_accepts_the_alpn_and_publishes_only_when_told() {
    let quiet = base_builder(&config(None, false)).expect("a plan");
    assert_eq!(quiet.alpn, "resilum/iroh/1");
    assert_eq!(quiet.alpn, ALPN);
    assert!(!quiet.publish);
    assert!(matches!(quiet.relay, RelayChoice::Default));
    let loud = base_builder(&config(Some("https://relay.example.com/"), true)).expect("a plan");
    assert!(loud.publish);
    assert!(matches!(loud.relay, RelayChoice::Custom(_)));
    assert!(base_builder(&config(Some("::"), true)).is_err());
}

#[test]
fn the_system_nameservers_are_listed_in_order() {
    match log_system(Ok(vec!["10.0.0.1".to_owned(), "fd00::1".to_owned()])) {
        DnsNotice::FromSystem(text) => assert_eq!(text, "10.0.0.1, fd00::1"),
        other => panic!("from the system: {other:?}"),
    }
    match log_system(Ok(vec!["1.1.1.1".to_owned()])) {
        DnsNotice::FromSystem(text) => assert_eq!(text, "1.1.1.1"),
        other => panic!("from the system: {other:?}"),
    }
}

#[test]
fn no_nameserver_and_no_configuration_fall_back_to_public_dns() {
    assert!(matches!(log_system(Ok(Vec::new())), DnsNotice::NoNameserver));
    match log_system(Err("no resolv.conf".to_owned())) {
        DnsNotice::NoSystemConfiguration(reason) => assert_eq!(reason, "no resolv.conf"),
        other => panic!("no configuration: {other:?}"),
    }
}

#[test]
fn a_bootstrap_peer_is_read_without_its_surrounding_space() {
    let id = fresh_id();
    assert_eq!(bootstrap_peer(&format!("  {}\n", hex_text(&id))), Some(id));
    assert_eq!(bootstrap_peer(&hex_text(&id)), Some(id));
    assert_eq!(bootstrap_peer("not an endpoint"), None);
    assert_eq!(bootstrap_peer(&hex_text(&id)[..62]), None);
}

#[test]
fn an_announced_endpoint_is_dialled_under_its_attachment_name() {
    let id = fresh_id();
    let relay = RelayUrl::parse("https://relay.example./").unwrap();
    let payload = encode_addr(&EndpointAddr { id, relay: Some(relay) });
    let (addr, name) = consumed_endpoint(&payload).expect("an address");
    assert_eq!(addr.id, id);
    assert_eq!(addr.relay.as_ref().and_then(RelayUrl::host_str), Some("relay.example."));
    assert_eq!(name, format!("iroh[{}]", hex_text(&id)));
    assert!(consumed_endpoint(&payload[..31]).is_none());
}

/// Little-endian y = 2 is on no point of the curve, so these bytes are no key.
fn not_a_key() -> [u8; 32] {
    let mut bytes = [0u8; 32];
    bytes[0] = 2;
    bytes
}

#[test]
fn bytes_that_are_no_key_name_no_endpoint() {
    let bytes = not_a_key();
    assert!(resilum_core::iroh::addr::parse_addr(&bytes).is_none());
    assert!(consumed_endpoint(&bytes).is_none());
    assert_eq!(bootstrap_peer(&hex_text(&bytes)), None);
}

#[test]
fn a_held_link_is_named_not_dialled_again() {
    assert_eq!(endpoint_action(false, false, true), EndpointAction::Ignore);
    assert_eq!(endpoint_action(true, true, true), EndpointAction::Learn);
    assert_eq!(endpoint_action(true, true, false), EndpointAction::Ignore);
    assert_eq!(endpoint_action(true, false, false), EndpointAction::Admit);
    assert_eq!(endpoint_action(true, false, true), EndpointAction::Admit);
}
