use iroh_base::SecretKey;
use resilum_core::iroh::custom::{from_custom, to_custom, CustomAddr, IpAddress, SocketAddress};
use resilum_core::iroh::wiring::attached_as;
use resilum_core::iroh::{addr, text_addr, EndpointAddr, RelayUrl};

fn some_id() -> [u8; 32] {
    *SecretKey::generate().public().as_bytes()
}

fn relay(text: &str) -> RelayUrl {
    RelayUrl::parse(text).unwrap()
}

#[test]
fn plugin_roundtrips_id_only() {
    let id = some_id();
    let back = text_addr::parse_addr(&text_addr::encode_addr(&EndpointAddr { id, relay: None })).unwrap();
    assert_eq!(back.id, id);
    assert!(back.relay.is_none());
}

#[test]
fn plugin_roundtrips_with_relay() {
    let id = some_id();
    let url = relay("https://relay.example./");
    let bytes = text_addr::encode_addr(&EndpointAddr { id, relay: Some(url.clone()) });
    let back = text_addr::parse_addr(&bytes).unwrap();
    assert_eq!(back.id, id);
    assert!(back.relay.iter().any(|u| u.same(&url)));
}

#[test]
fn plugin_rejects_short_payload() {
    assert!(text_addr::parse_addr(&[0u8; 8]).is_none());
}

#[test]
fn addr_roundtrips_id_only() {
    let id = some_id();
    let back = addr::parse_addr(&addr::encode_addr(&EndpointAddr { id, relay: None })).unwrap();
    assert_eq!(back.id, id);
    assert!(back.relay.is_none());
}

#[test]
fn addr_roundtrips_with_relay() {
    let id = some_id();
    let url = relay("https://relay.example./");
    let bytes = addr::encode_addr(&EndpointAddr { id, relay: Some(url.clone()) });
    let back = addr::parse_addr(&bytes).unwrap();
    assert_eq!(back.id, id);
    assert!(back.relay.iter().any(|u| u.same(&url)));
}

#[test]
fn addr_rejects_short_payload() {
    assert!(addr::parse_addr(&[0u8; 8]).is_none());
}

#[test]
fn the_raw_form_is_the_id_then_the_relay_host() {
    let id = some_id();
    let bytes = addr::encode_addr(&EndpointAddr { id, relay: Some(relay("https://relay.example./")) });
    assert_eq!(&bytes[..32], &id[..]);
    assert_eq!(&bytes[32..], b"relay.example.");
}

#[test]
fn the_text_form_is_hex_then_the_relay_url() {
    let id = [0xab; 32];
    let bytes = text_addr::encode_addr(&EndpointAddr { id, relay: Some(relay("https://relay.example./")) });
    assert_eq!(String::from_utf8(bytes).unwrap(), format!("{}@https://relay.example./", "ab".repeat(32)));
}

#[test]
fn a_key_that_is_no_curve_point_is_refused() {
    let id = (0u8..=255)
        .map(|b| {
            let mut id = [0u8; 32];
            id[0] = b;
            id
        })
        .find(|id| iroh_base::PublicKey::from_bytes(id).is_err())
        .expect("some y-coordinate is no curve point");
    assert!(addr::parse_addr(&id).is_none());
    assert!(text_addr::parse_addr(hex(&id).as_bytes()).is_none());
}

#[test]
fn an_unparsable_relay_host_leaves_the_address_without_one() {
    let id = some_id();
    let mut bytes = id.to_vec();
    bytes.extend_from_slice(b"bad host");
    let back = addr::parse_addr(&bytes).unwrap();
    assert_eq!(back.id, id);
    assert!(back.relay.is_none());
}

#[test]
fn uppercase_hex_is_refused() {
    let id = some_id();
    let text = hex(&id).to_uppercase();
    if text.chars().any(|c| c.is_ascii_alphabetic()) {
        assert!(text_addr::parse_addr(text.as_bytes()).is_none());
    }
}

fn hex(bytes: &[u8]) -> String {
    bytes.iter().map(|b| format!("{b:02x}")).collect()
}

#[test]
fn an_attached_link_is_named_by_its_hex_id() {
    let id = some_id();
    assert_eq!(attached_as(&id), format!("iroh[{}]", iroh_base::PublicKey::from_bytes(&id).unwrap()));
}

#[test]
fn roundtrips_v4_and_v6() {
    let v4 = SocketAddress { ip: IpAddress::V4([203, 0, 113, 7]), port: 4242 };
    let v6 = SocketAddress {
        ip: IpAddress::V6([0x20, 0x01, 0x0d, 0xb8, 0, 0, 0, 0, 0, 0, 0, 0, 0, 0, 0, 1]),
        port: 9000,
    };
    for addr in [v4, v6] {
        assert_eq!(from_custom(&to_custom(addr)), Some(addr));
    }
}

#[test]
fn rejects_foreign_transport_id() {
    let foreign = CustomAddr { id: 0x99, data: vec![4, 203, 0, 113, 7, 0x10, 0x92] };
    assert!(from_custom(&foreign).is_none());
}

#[test]
fn a_v4_address_is_tag_octets_then_port_big_endian() {
    let addr = SocketAddress { ip: IpAddress::V4([203, 0, 113, 7]), port: 0x1092 };
    let custom = to_custom(addr);
    assert_eq!(custom.id, 0x2020);
    assert_eq!(custom.data, vec![4, 203, 0, 113, 7, 0x10, 0x92]);
}

#[test]
fn truncated_or_unknown_custom_data_is_refused() {
    for data in [vec![], vec![4, 1, 2, 3], vec![4, 1, 2, 3, 4, 5], vec![5, 1, 2, 3, 4, 0, 1], vec![6, 1, 2]] {
        assert!(from_custom(&CustomAddr { id: 0x2020, data }).is_none());
    }
}
