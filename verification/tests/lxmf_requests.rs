use resilum_core::lxmf::request::RequestError;
use resilum_core::lxmf::requeue::parse_request;
use resilum_core::lxmf::send::{build_message_parts, decode_b64, parse_hex16, parse_method, DeliveryMethod};

#[test]
fn a_well_formed_request_parses_to_the_id_and_method_it_names() {
    let (id, method) = parse_request(&"ab".repeat(32), "propagated").expect("parses");
    assert_eq!(id, [0xab; 32]);
    assert_eq!(method, DeliveryMethod::Propagated);
}

#[test]
fn an_id_of_the_wrong_length_is_refused() {
    assert!(parse_request(&"ab".repeat(16), "direct").is_err());
}

#[test]
fn an_unknown_method_is_named_in_the_refusal() {
    assert_eq!(parse_request(&"ab".repeat(32), "carrier pigeon"), Err(RequestError::UnknownMethod("carrier pigeon".into())));
    assert_eq!(parse_method("direct"), Ok(DeliveryMethod::Direct));
    assert_eq!(parse_method("opportunistic"), Ok(DeliveryMethod::Opportunistic));
}

#[test]
fn a_malformed_id_is_a_hex_refusal() {
    assert_eq!(parse_request(&"AB".repeat(32), "direct"), Err(RequestError::Hex { field: "message_id" }));
    assert_eq!(parse_request("abc", "direct"), Err(RequestError::Hex { field: "message_id" }));
}

#[test]
fn a_destination_is_sixteen_bytes_of_lowercase_hex() {
    assert_eq!(parse_hex16(&"0f".repeat(16)), Ok([0x0f; 16]));
    assert_eq!(parse_hex16(&"0f".repeat(15)), Err(RequestError::Hex { field: "destination" }));
}

#[test]
fn base64_fields_decode_and_absent_ones_are_empty() {
    assert_eq!(decode_b64(Some("aGk="), "content_b64"), Ok(b"hi".to_vec()));
    assert_eq!(decode_b64(None, "content_b64"), Ok(Vec::new()));
    assert_eq!(decode_b64(Some("%%"), "title_b64"), Err(RequestError::Base64 { field: "title_b64" }));
}

#[test]
fn the_first_bad_field_names_the_refusal() {
    let destination = "ab".repeat(16);
    assert!(matches!(build_message_parts("zz", "nope", Some("%%"), None), Err(RequestError::Hex { field: "destination" })));
    assert!(matches!(build_message_parts(&destination, "nope", Some("%%"), None), Err(RequestError::UnknownMethod(_))));
    assert!(matches!(build_message_parts(&destination, "direct", Some("%%"), Some("%%")), Err(RequestError::Base64 { field: "title_b64" })));
    assert!(matches!(build_message_parts(&destination, "direct", None, Some("%%")), Err(RequestError::Base64 { field: "content_b64" })));
    let parts = build_message_parts(&destination, "propagated", None, Some("aGk=")).expect("parts");
    assert_eq!(parts.destination_hash, [0xab; 16]);
    assert_eq!(parts.method, DeliveryMethod::Propagated);
    assert!(parts.title.is_empty());
    assert_eq!(parts.content, b"hi".to_vec());
}

#[test]
fn a_request_error_reads_as_a_log_line() {
    assert_eq!(RequestError::Hex { field: "destination" }.message(), "destination is not the lowercase hex it must be");
    assert_eq!(RequestError::UnknownMethod("x".into()).message(), "unknown delivery method: x");
    assert_eq!(RequestError::Base64 { field: "title_b64" }.message(), "title_b64 is not valid base64");
    assert_eq!(RequestError::Json("eof".into()).message(), "malformed request json: eof");
    assert_eq!(RequestError::Signing("key".into()).message(), "could not build the message: key");
}
