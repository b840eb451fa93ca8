//! Socket addresses as iroh custom-transport addresses, for the protected UDP
//! transport: a tag byte (4 or 6), the IP octets, then the port big-endian.

use vstd::prelude::*;

use crate::bytes::{append_bytes, array_at};

verus! {

/// Our transport id in iroh's custom-address namespace.
pub const TRANSPORT_ID: u64 = 0x2020;

#[derive(Clone, Copy, Debug, PartialEq, Eq)]
pub enum IpAddress {
    V4([u8; 4]),
    V6([u8; 16]),
}

#[derive(Clone, Copy, Debug, PartialEq, Eq)]
pub struct SocketAddress {
    pub ip: IpAddress,
    pub port: u16,
}

/// A custom-transport address: which transport, and its opaque data.
#[derive(Clone, Debug, PartialEq, Eq)]
pub struct CustomAddr {
    pub id: u64,
    pub data: Vec<u8>,
}

/// The port, big-endian.
pub open spec fn port_bytes(port: u16) -> Seq<u8> {
    seq![(port / 256) as u8, (port % 256) as u8]
}

/// The data a socket address is carried as.
pub open spec fn socket_bytes(addr: SocketAddress) -> Seq<u8> {
    match addr.ip {
        IpAddress::V4(octets) => seq![4u8] + octets@ + port_bytes(addr.port),
        IpAddress::V6(octets) => seq![6u8] + octets@ + port_bytes(addr.port),
    }
}

/// The port read from the first two bytes of `rest`, when there are two.
pub open spec fn port_from(rest: Seq<u8>) -> Option<u16> {
    if rest.len() >= 2 {
        Some((rest[0] * 256 + rest[1]) as u16)
    } else {
        None
    }
}

/// The socket address custom data stands for, if it is one of ours. Bytes
/// after the port are not looked at.
pub open spec fn socket_of(data: Seq<u8>) -> Option<SocketAddress> {
    if data.len() >= 1 && data[0] == 4 && data.len() >= 5 {
        match port_from(data.subrange(5, data.len() as int)) {
            Some(port) => Some(SocketAddress { ip: IpAddress::V4(choose|o: [u8; 4]| o@ == data.subrange(1, 5)), port }),
            None => None,
        }
    } else if data.len() >= 1 && data[0] == 6 && data.len() >= 17 {
        match port_from(data.subrange(17, data.len() as int)) {
            Some(port) => Some(SocketAddress { ip: IpAddress::V6(choose|o: [u8; 16]| o@ == data.subrange(1, 17)), port }),
            None => None,
        }
    } else {
        None
    }
}

pub fn to_custom(addr: SocketAddress) -> (res: CustomAddr)
    ensures
        res.id == TRANSPORT_ID,
        res.data@ == socket_bytes(addr),
{
    let mut data: Vec<u8> = Vec::new();
    match addr.ip {
        IpAddress::V4(octets) => {
            data.push(4);
            append_bytes(&mut data, &octets);
        },
        IpAddress::V6(octets) => {
            data.push(6);
            append_bytes(&mut data, &octets);
        },
    }
    data.push((addr.port / 256) as u8);
    data.push((addr.port % 256) as u8);
    proof {
        assert(data@ =~= socket_bytes(addr));
    }
    CustomAddr { id: TRANSPORT_ID, data }
}

pub fn from_custom(addr: &CustomAddr) -> (res: Option<SocketAddress>)
    ensures
        addr.id != TRANSPORT_ID ==> res is None,
        addr.id == TRANSPORT_ID ==> res == socket_of(addr.data@),
{
    if addr.id != TRANSPORT_ID {
        return None;
    }
    let data = addr.data.as_slice();
    let n = data.len();
    if n < 1 {
        return None;
    }
    let (ip, rest_start) = if data[0] == 4 {
        if n < 5 {
            return None;
        }
        let octets: [u8; 4] = array_at(data, 1);
        (IpAddress::V4(octets), 5usize)
    } else if data[0] == 6 {
        if n < 17 {
            return None;
        }
        let octets: [u8; 16] = array_at(data, 1);
        (IpAddress::V6(octets), 17usize)
    } else {
        return None;
    };
    if n - rest_start < 2 {
        return None;
    }
    let port: u16 = (data[rest_start] as u16) * 256 + (data[rest_start + 1] as u16);
    let res = SocketAddress { ip, port };
    proof {
        match ip {
            IpAddress::V4(o) => {
                assert(o@ == data@.subrange(1, 5));
                let c = choose|c: [u8; 4]| c@ == data@.subrange(1, 5);
                assert(c@ =~= o@);
                assert(c =~= o);
            },
            IpAddress::V6(o) => {
                assert(o@ == data@.subrange(1, 17));
                let c = choose|c: [u8; 16]| c@ == data@.subrange(1, 17);
                assert(c@ =~= o@);
                assert(c =~= o);
            },
        }
    }
    Some(res)
}

/// A socket address survives the custom-address form.
pub proof fn custom_addr_roundtrips(addr: SocketAddress)
    ensures
        socket_of(socket_bytes(addr)) == Some(addr),
{
    let b = socket_bytes(addr);
    match addr.ip {
        IpAddress::V4(o) => {
            assert(b.subrange(1, 5) =~= o@);
            assert(b.subrange(5, b.len() as int) =~= port_bytes(addr.port));
            let c = choose|c: [u8; 4]| c@ == b.subrange(1, 5);
            assert(c@ =~= o@);
            assert(c =~= o);
        },
        IpAddress::V6(o) => {
            assert(b.subrange(1, 17) =~= o@);
            assert(b.subrange(17, b.len() as int) =~= port_bytes(addr.port));
            let c = choose|c: [u8; 16]| c@ == b.subrange(1, 17);
            assert(c@ =~= o@);
            assert(c =~= o);
        },
    }
}

/// The port, read back from its two bytes.
proof fn lemma_port(port: u16)
    ensures
        port_bytes(port).len() == 2,
        port_bytes(port)[0] * 256 + port_bytes(port)[1] == port,
        port_from(port_bytes(port)) == Some(port),
{
    assert(port / 256 < 256 && port % 256 < 256);
    assert((port / 256) * 256 + port % 256 == port) by (nonlinear_arith);
}

/// A socket address is carried as a tag byte, 4 for IPv4 and 6 for IPv6, the
/// address's octets in order, then the port, high byte first.
pub proof fn the_custom_data_is_tag_octets_port(addr: SocketAddress)
    ensures
        addr.ip matches IpAddress::V4(octets) ==> {
            let b = socket_bytes(addr);
            &&& b.len() == 7
            &&& b[0] == 4
            &&& b.subrange(1, 5) == octets@
            &&& b[5] * 256 + b[6] == addr.port
        },
        addr.ip matches IpAddress::V6(octets) ==> {
            let b = socket_bytes(addr);
            &&& b.len() == 19
            &&& b[0] == 6
            &&& b.subrange(1, 17) == octets@
            &&& b[17] * 256 + b[18] == addr.port
        },
{
    lemma_port(addr.port);
    let b = socket_bytes(addr);
    match addr.ip {
        IpAddress::V4(o) => {
            assert(b.subrange(1, 5) =~= o@);
            assert(b[5] == port_bytes(addr.port)[0] && b[6] == port_bytes(addr.port)[1]);
        },
        IpAddress::V6(o) => {
            assert(b.subrange(1, 17) =~= o@);
            assert(b[17] == port_bytes(addr.port)[0] && b[18] == port_bytes(addr.port)[1]);
        },
    }
}

/// Custom data of that shape stands for that address: a 6 is followed by the
/// sixteen octets of an IPv6 address and a 4 by the four of an IPv4 one, then
/// the port, high byte first; any other tag, or too few bytes, stands for none.
pub proof fn tagged_data_is_its_address(data: Seq<u8>)
    ensures
        data.len() >= 19 && data[0] == 6 ==> (socket_of(data) matches Some(addr) && (addr.ip matches IpAddress::V6(
            octets,
        ) && octets@ == data.subrange(1, 17)) && addr.port == data[17] * 256 + data[18]),
        data.len() >= 7 && data[0] == 4 ==> (socket_of(data) matches Some(addr) && (addr.ip matches IpAddress::V4(
            octets,
        ) && octets@ == data.subrange(1, 5)) && addr.port == data[5] * 256 + data[6]),
        data.len() == 0 || (data[0] != 4 && data[0] != 6) ==> socket_of(data) is None,
        data.len() >= 1 && data[0] == 6 && data.len() < 19 ==> socket_of(data) is None,
        data.len() >= 1 && data[0] == 4 && data.len() < 7 ==> socket_of(data) is None,
{
    if data.len() >= 19 && data[0] == 6 {
        let w = data.subrange(1, 17);
        assert(exists|o: [u8; 16]| o@ == w) by {
            let a: [u8; 16] = [w[0], w[1], w[2], w[3], w[4], w[5], w[6], w[7], w[8], w[9], w[10], w[11], w[12], w[13], w[14], w[15]];
            assert(a@ =~= w);
        }
        assert(data.subrange(17, data.len() as int)[0] == data[17]);
        assert(data.subrange(17, data.len() as int)[1] == data[18]);
        assert(data[17] * 256 + data[18] < 65536);
    }
    if data.len() >= 7 && data[0] == 4 {
        let w = data.subrange(1, 5);
        assert(exists|o: [u8; 4]| o@ == w) by {
            let a: [u8; 4] = [w[0], w[1], w[2], w[3]];
            assert(a@ =~= w);
        }
        assert(data.subrange(5, data.len() as int)[0] == data[5]);
        assert(data.subrange(5, data.len() as int)[1] == data[6]);
        assert(data[5] * 256 + data[6] < 65536);
    }
}

} // verus!
