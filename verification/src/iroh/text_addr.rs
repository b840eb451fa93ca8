//! The text form an endpoint travelled in: `<hex endpoint id>[@<relay url>]`.
//! Text, because an envelope that carries endpoints as UTF-8 would not carry
//! raw key bytes.

use vstd::prelude::*;
use vstd::utf8::*;

use super::{endpoint_id_from_bytes, is_endpoint_id, relay_url_parse, relay_view, EndpointAddr, RelayUrl};
use crate::bytes::{append_bytes, array_at};
use crate::lxmf::send::hex_of_len;
use crate::text::{from_utf8, hex_decode, hex_decoded, hex_digit, hex_encode, hex_lower, hex_value, is_lower_hex, joined};

verus! {

/// The characters an address is written as.
pub open spec fn addr_text(id: [u8; 32], relay: Option<(Seq<char>, Option<Seq<char>>)>) -> Seq<char> {
    hex_lower(id@) + match relay {
        Some((text, _)) => seq!['@'] + text,
        None => Seq::empty(),
    }
}

/// `i` is where the first `@` stands.
pub open spec fn first_at_sign(bytes: Seq<u8>, i: int) -> bool {
    &&& 0 <= i < bytes.len()
    &&& bytes[i] == 64
    &&& forall|j: int| 0 <= j < i ==> bytes[j] != 64
}

pub open spec fn has_at_sign(bytes: Seq<u8>) -> bool {
    exists|i: int| first_at_sign(bytes, i)
}

/// The id part and the relay part of an address, split at the first `@`.
pub open spec fn addr_parts(bytes: Seq<u8>) -> (Seq<u8>, Option<Seq<u8>>) {
    if has_at_sign(bytes) {
        let i = choose|i: int| first_at_sign(bytes, i);
        (bytes.subrange(0, i), Some(bytes.subrange(i + 1, bytes.len() as int)))
    } else {
        (bytes, None)
    }
}

/// The id an address's id part names, when it is 64 lowercase hex digits.
pub open spec fn id_of_part(part: Seq<u8>) -> Seq<u8> {
    hex_decoded(decode_utf8(part))
}

pub open spec fn id_part_ok(part: Seq<u8>) -> bool {
    hex_of_len(decode_utf8(part), 32) && is_endpoint_id(id_of_part(part))
}

/// The relay an address's relay part names, when it parses as a URL.
pub open spec fn relay_of_part(part: Option<Seq<u8>>) -> Option<(Seq<char>, Option<Seq<char>>)> {
    match part {
        Some(text) => relay_url_parse(decode_utf8(text)),
        None => None,
    }
}

pub fn encode_addr(addr: &EndpointAddr) -> (res: Vec<u8>)
    ensures
        res@ == encode_utf8(addr_text(addr.id, relay_view(addr.relay))),
{
    let mut text = hex_encode(&addr.id);
    match &addr.relay {
        Some(url) => {
            text = joined(&joined(text.as_str(), "@"), url.as_str());
        },
        None => {},
    }
    let mut out: Vec<u8> = Vec::new();
    append_bytes(&mut out, text.as_str().as_bytes());
    proof {
        reveal_strlit("@");
        assert(text@ =~= addr_text(addr.id, relay_view(addr.relay)));
        assert(out@ =~= encode_utf8(text@));
    }
    out
}

fn find_at_sign(bytes: &[u8]) -> (res: Option<usize>)
    ensures
        match res {
            Some(i) => first_at_sign(bytes@, i as int),
            None => !has_at_sign(bytes@),
        },
{
    let n = bytes.len();
    let mut i: usize = 0;
    while i < n
        invariant
            n == bytes@.len(),
            0 <= i <= n,
            forall|j: int| 0 <= j < i ==> bytes@[j] != 64,
        decreases n - i,
    {
        if bytes[i] == 64 {
            return Some(i);
        }
        i += 1;
    }
    None
}

proof fn lemma_first_at_sign_unique(bytes: Seq<u8>, i: int)
    requires
        first_at_sign(bytes, i),
    ensures
        has_at_sign(bytes),
        (choose|k: int| first_at_sign(bytes, k)) == i,
{
    let k = choose|k: int| first_at_sign(bytes, k);
    if k < i {
        assert(bytes[k] != 64);
    } else if k > i {
        assert(bytes[i] != 64);
    }
}

/// Splitting valid UTF-8 at an ASCII byte leaves valid UTF-8 on both sides.
proof fn lemma_split_at_ascii(bytes: Seq<u8>, i: int)
    requires
        valid_utf8(bytes),
        0 <= i < bytes.len(),
        bytes[i] < 128,
    ensures
        valid_utf8(bytes.subrange(0, i)),
        valid_utf8(bytes.subrange(i + 1, bytes.len() as int)),
{
    is_char_boundary_iff_is_leading_byte(bytes, i);
    valid_utf8_split(bytes, i);
    let rest = bytes.subrange(i, bytes.len() as int);
    assert(rest[0] == bytes[i]);
    assert(is_char_boundary(rest, 1)) by {
        reveal_with_fuel(is_char_boundary, 2);
        assert(length_of_first_scalar(rest) == 1);
    }
    valid_utf8_split(rest, 1);
    assert(rest.subrange(1, rest.len() as int) =~= bytes.subrange(i + 1, bytes.len() as int));
}

pub fn parse_addr(payload: &[u8]) -> (res: Option<EndpointAddr>)
    ensures
        !valid_utf8(payload@) ==> res is None,
        valid_utf8(payload@) ==> {
            let (id_part, relay_part) = addr_parts(payload@);
            &&& res is Some <==> id_part_ok(id_part)
            &&& res matches Some(addr) ==> addr.id@ == id_of_part(id_part) && relay_view(addr.relay)
                == relay_of_part(relay_part)
        },
{
    let _whole = from_utf8(payload)?;
    let n = payload.len();
    let (id_bytes, relay_bytes) = match find_at_sign(payload) {
        Some(i) => {
            proof {
                lemma_first_at_sign_unique(payload@, i as int);
                lemma_split_at_ascii(payload@, i as int);
            }
            (&payload[0..i], Some(&payload[i + 1..n]))
        },
        None => (payload, None),
    };
    let id_text = match from_utf8(id_bytes) {
        Some(text) => text,
        None => return None,
    };
    let decoded = hex_decode(id_text)?;
    if decoded.len() != 32 {
        return None;
    }
    let id_array: [u8; 32] = array_at(decoded.as_slice(), 0);
    proof {
        assert(id_array@ =~= decoded@);
    }
    let id = endpoint_id_from_bytes(&id_array)?;
    let relay = match relay_bytes {
        Some(bytes) => match from_utf8(bytes) {
            Some(text) => RelayUrl::parse(text),
            None => None,
        },
        None => None,
    };
    Some(EndpointAddr { id, relay })
}

proof fn lemma_encode_concat(a: Seq<char>, b: Seq<char>)
    ensures
        encode_utf8(a + b) == encode_utf8(a) + encode_utf8(b),
    decreases a.len(),
{
    if a.len() == 0 {
        assert(a + b =~= b);
    } else {
        assert((a + b).drop_first() =~= a.drop_first() + b);
        lemma_encode_concat(a.drop_first(), b);
        assert((a + b)[0] == a[0]);
    }
}

proof fn lemma_hex_digit(v: int)
    requires
        0 <= v < 16,
    ensures
        hex_value(hex_digit(v)) == Some(v as u8),
        hex_digit(v) != '@',
        '\0' <= hex_digit(v) <= '\u{7f}',
{
}

proof fn lemma_hex_roundtrip(bytes: Seq<u8>)
    ensures
        is_lower_hex(hex_lower(bytes)),
        hex_decoded(hex_lower(bytes)) == bytes,
        is_ascii_chars(hex_lower(bytes)),
        forall|i: int| 0 <= i < hex_lower(bytes).len() ==> #[trigger] hex_lower(bytes)[i] != '@',
{
    let h = hex_lower(bytes);
    assert forall|i: int| 0 <= i < h.len() implies #[trigger] hex_value(h[i]) is Some && h[i] != '@'
        && '\0' <= h[i] <= '\u{7f}' by {
        if i % 2 == 0 {
            lemma_hex_digit((bytes[i / 2] / 16) as int);
        } else {
            lemma_hex_digit((bytes[i / 2] % 16) as int);
        }
    }
    assert forall|k: int| 0 <= k < bytes.len() implies #[trigger] hex_decoded(h)[k] == bytes[k] by {
        lemma_hex_digit((bytes[k] / 16) as int);
        lemma_hex_digit((bytes[k] % 16) as int);
        assert(h[2 * k] == hex_digit((bytes[k] / 16) as int));
        assert(h[2 * k + 1] == hex_digit((bytes[k] % 16) as int));
    }
    assert(hex_decoded(h) =~= bytes);
}

/// An address survives its text form: parsing what it was encoded as gives it
/// back, for a valid endpoint id and either no relay or one whose URL text
/// parses back to itself.
pub proof fn encoded_text_addr_parses_back(id: [u8; 32], relay: Option<(Seq<char>, Option<Seq<char>>)>)
    requires
        is_endpoint_id(id@),
        relay matches Some((text, host)) ==> relay_url_parse(text) == Some((text, host)),
    ensures
        valid_utf8(encode_utf8(addr_text(id, relay))),
        id_part_ok(addr_parts(encode_utf8(addr_text(id, relay))).0),
        id_of_part(addr_parts(encode_utf8(addr_text(id, relay))).0) == id@,
        relay_of_part(addr_parts(encode_utf8(addr_text(id, relay))).1) == relay,
{
    let hex = hex_lower(id@);
    lemma_hex_roundtrip(id@);
    is_ascii_chars_encode_utf8(hex);
    encode_utf8_valid_utf8(addr_text(id, relay));
    encode_utf8_decode_utf8(hex);
    let bytes = encode_utf8(addr_text(id, relay));
    match relay {
        Some((text, host)) => {
            assert(addr_text(id, relay) =~= hex + (seq!['@'] + text));
            lemma_encode_concat(hex, seq!['@'] + text);
            lemma_encode_concat(seq!['@'], text);
            assert(encode_utf8(seq!['@']) =~= seq![64u8]) by {
                is_ascii_chars_encode_utf8(seq!['@']);
                assert(seq!['@'][0] as u8 == 64);
            }
            let eh = encode_utf8(hex);
            assert(bytes =~= eh + seq![64u8] + encode_utf8(text));
            assert(first_at_sign(bytes, 64)) by {
                assert forall|j: int| 0 <= j < 64 implies bytes[j] != 64 by {
                    assert(bytes[j] == eh[j]);
                    assert(hex[j] as u8 == eh[j]);
                    assert(hex[j] != '@');
                }
            }
            lemma_first_at_sign_unique(bytes, 64);
            assert(bytes.subrange(0, 64) =~= eh);
            assert(bytes.subrange(65, bytes.len() as int) =~= encode_utf8(text));
            encode_utf8_decode_utf8(text);
        },
        None => {
            assert(addr_text(id, relay) =~= hex);
            assert(!has_at_sign(bytes)) by {
                if has_at_sign(bytes) {
                    let i = choose|i: int| first_at_sign(bytes, i);
                    assert(hex[i] as u8 == bytes[i]);
                    assert(hex[i] != '@');
                }
            }
        },
    }
}

} // verus!
