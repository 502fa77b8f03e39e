//! Socket addresses of peers, held as plain integers, and their bytes in
//! payloads.
use vstd::prelude::*;
use vstd::bytes::{
    spec_u128_from_le_bytes, spec_u128_to_le_bytes, spec_u16_from_le_bytes, spec_u16_to_le_bytes,
    spec_u32_from_le_bytes, spec_u32_to_le_bytes, u128_from_le_bytes, u128_to_le_bytes,
    u16_from_le_bytes, u16_to_le_bytes, u32_from_le_bytes, u32_to_le_bytes,
};

verus! {

/// The address of a peer: an IP address and a port.
///
/// An IPv4 address is held as the big-endian integer of its four octets, an
/// IPv6 address as the big-endian integer of its sixteen octets, together
/// with the flow information and the scope identifier that an IPv6 socket
/// address carries.
#[derive(Clone, Copy, Debug, PartialEq, Eq, Structural)]
pub enum PeerAddr {
    V4 { ip: u32, port: u16 },
    V6 { ip6: u128, port: u16, flowinfo: u32, scope_id: u32 },
}

impl PeerAddr {
    /// The port of the address.
    pub fn port(&self) -> (p: u16)
        ensures
            p == match *self {
                PeerAddr::V4 { port, .. } => port,
                PeerAddr::V6 { port, .. } => port,
            },
    {
        match self {
            PeerAddr::V4 { port, .. } => *port,
            PeerAddr::V6 { port, .. } => *port,
        }
    }
}

/// The bytes of address `a` in a payload, as bincode writes a socket
/// address: the variant as a little-endian `u32` (0 for IPv4, 1 for IPv6),
/// the octets of the IP address in network order, then the port as a
/// little-endian `u16`. The flow information and scope of an IPv6 address
/// are not written.
pub open spec fn peer_addr_bytes(a: PeerAddr) -> Seq<u8> {
    match a {
        PeerAddr::V4 { ip, port } => spec_u32_to_le_bytes(0) + spec_u32_to_le_bytes(ip).reverse()
            + spec_u16_to_le_bytes(port),
        PeerAddr::V6 { ip6, port, .. } => spec_u32_to_le_bytes(1) + spec_u128_to_le_bytes(ip6).reverse()
            + spec_u16_to_le_bytes(port),
    }
}

/// The address at the start of `bytes`, as bincode reads a socket address:
/// `None` for a variant other than 0 and 1 and where the bytes run out.
/// An IPv6 address is read with no flow information and scope 0. Bytes
/// after the address are ignored.
pub open spec fn parse_peer_addr(bytes: Seq<u8>) -> Option<PeerAddr> {
    if bytes.len() < 4 {
        None
    } else {
        let variant = spec_u32_from_le_bytes(bytes.subrange(0, 4));
        if variant == 0 && bytes.len() >= 10 {
            Some(PeerAddr::V4 {
                ip: spec_u32_from_le_bytes(bytes.subrange(4, 8).reverse()),
                port: spec_u16_from_le_bytes(bytes.subrange(8, 10)),
            })
        } else if variant == 1 && bytes.len() >= 22 {
            Some(PeerAddr::V6 {
                ip6: spec_u128_from_le_bytes(bytes.subrange(4, 20).reverse()),
                port: spec_u16_from_le_bytes(bytes.subrange(20, 22)),
                flowinfo: 0,
                scope_id: 0,
            })
        } else {
            None
        }
    }
}

/// What an address is read back as: the same address, without the flow
/// information and scope of an IPv6 address.
pub open spec fn as_written(a: PeerAddr) -> PeerAddr {
    match a {
        PeerAddr::V4 { .. } => a,
        PeerAddr::V6 { ip6, port, .. } => PeerAddr::V6 { ip6, port, flowinfo: 0, scope_id: 0 },
    }
}

/// The bytes of `s` in reverse order.
fn reversed(s: &[u8]) -> (r: Vec<u8>)
    ensures
        r@ == s@.reverse(),
{
    let mut r: Vec<u8> = Vec::new();
    let mut i: usize = s.len();
    while i > 0
        invariant
            i <= s@.len(),
            r@.len() == s@.len() - i,
            forall|k: int| 0 <= k < r@.len() ==> r@[k] == s@[s@.len() - 1 - k],
        decreases i,
    {
        i = i - 1;
        r.push(s[i]);
    }
    assert(r@ =~= s@.reverse());
    r
}

/// The payload that carries address `a`.
pub fn encode_peer_addr(a: PeerAddr) -> (out: Vec<u8>)
    ensures
        out@ == peer_addr_bytes(a),
{
    match a {
        PeerAddr::V4 { ip, port } => {
            let mut out = u32_to_le_bytes(0);
            let ip_le = u32_to_le_bytes(ip);
            let mut ip_be = reversed(ip_le.as_slice());
            let mut port_le = u16_to_le_bytes(port);
            out.append(&mut ip_be);
            out.append(&mut port_le);
            out
        },
        PeerAddr::V6 { ip6, port, .. } => {
            let mut out = u32_to_le_bytes(1);
            let ip_le = u128_to_le_bytes(ip6);
            let mut ip_be = reversed(ip_le.as_slice());
            let mut port_le = u16_to_le_bytes(port);
            out.append(&mut ip_be);
            out.append(&mut port_le);
            out
        },
    }
}

/// The address that a payload carries, `None` where it carries none.
pub fn decode_peer_addr(bytes: &[u8]) -> (r: Option<PeerAddr>)
    ensures
        r == parse_peer_addr(bytes@),
{
    if bytes.len() < 4 {
        return None;
    }
    let variant = u32_from_le_bytes(&bytes[0..4]);
    if variant == 0 && bytes.len() >= 10 {
        let ip_be = &bytes[4..8];
        let ip_le = reversed(ip_be);
        let ip = u32_from_le_bytes(ip_le.as_slice());
        let port = u16_from_le_bytes(&bytes[8..10]);
        Some(PeerAddr::V4 { ip, port })
    } else if variant == 1 && bytes.len() >= 22 {
        let ip_be = &bytes[4..20];
        let ip_le = reversed(ip_be);
        let ip6 = u128_from_le_bytes(ip_le.as_slice());
        let port = u16_from_le_bytes(&bytes[20..22]);
        Some(PeerAddr::V6 { ip6, port, flowinfo: 0, scope_id: 0 })
    } else {
        None
    }
}

/// An address is read back from its payload as written.
pub proof fn lemma_peer_addr_round_trip(a: PeerAddr)
    ensures
        parse_peer_addr(peer_addr_bytes(a)) == Some(as_written(a)),
{
    vstd::bytes::lemma_auto_spec_u16_to_from_le_bytes();
    vstd::bytes::lemma_auto_spec_u32_to_from_le_bytes();
    vstd::bytes::lemma_auto_spec_u128_to_from_le_bytes();
    let b = peer_addr_bytes(a);
    match a {
        PeerAddr::V4 { ip, port } => {
            let le = spec_u32_to_le_bytes(ip);
            assert(b.subrange(0, 4) =~= spec_u32_to_le_bytes(0));
            assert(b.subrange(4, 8) =~= le.reverse());
            assert(le.reverse().reverse() =~= le);
            assert(b.subrange(8, 10) =~= spec_u16_to_le_bytes(port));
        },
        PeerAddr::V6 { ip6, port, .. } => {
            let le = spec_u128_to_le_bytes(ip6);
            assert(b.subrange(0, 4) =~= spec_u32_to_le_bytes(1));
            assert(b.subrange(4, 20) =~= le.reverse());
            assert(le.reverse().reverse() =~= le);
            assert(b.subrange(20, 22) =~= spec_u16_to_le_bytes(port));
        },
    }
}

} // verus!
