//! The datagram frame: every datagram carries one `UdpPackage`, written as
//! its command byte, the length of its payload as a little-endian `u64`,
//! and the payload bytes.
use vstd::prelude::*;
use vstd::bytes::{spec_u64_to_le_bytes, spec_u64_from_le_bytes, u64_to_le_bytes, u64_from_le_bytes};
use vstd::slice::slice_to_vec;

verus! {

/// Number of bytes in front of the payload: the command byte and the length.
pub const HEADER_LEN: usize = 9;

/// One datagram of the protocol: a command and the serialized payload that
/// belongs to it.
#[derive(Debug, PartialEq, Eq)]
pub struct UdpPackage {
    pub cmd: u8,
    pub buf: Vec<u8>,
}

/// The bytes of the frame that carries command `cmd` and payload `buf`.
pub open spec fn package_bytes(cmd: u8, buf: Seq<u8>) -> Seq<u8> {
    seq![cmd] + spec_u64_to_le_bytes(buf.len() as u64) + buf
}

/// What a frame holds, read from the start of `bytes`: `None` when `bytes`
/// is shorter than the header or than the payload length that the header
/// announces. Bytes after the payload are ignored.
pub open spec fn parse_package(bytes: Seq<u8>) -> Option<(u8, Seq<u8>)> {
    if bytes.len() < HEADER_LEN {
        None
    } else {
        let len = spec_u64_from_le_bytes(bytes.subrange(1, HEADER_LEN as int));
        if len <= bytes.len() - HEADER_LEN {
            Some((bytes[0], bytes.subrange(HEADER_LEN as int, HEADER_LEN + len)))
        } else {
            None
        }
    }
}

impl UdpPackage {
    /// The frame of this package.
    pub fn to_bytes(&self) -> (out: Vec<u8>)
        ensures
            out@ == package_bytes(self.cmd, self.buf@),
            out@.len() == HEADER_LEN + self.buf@.len(),
    {
        proof { vstd::bytes::lemma_auto_spec_u64_to_from_le_bytes(); }
        let mut out: Vec<u8> = Vec::new();
        out.push(self.cmd);
        let mut len = u64_to_le_bytes(self.buf.len() as u64);
        out.append(&mut len);
        let mut body = slice_to_vec(self.buf.as_slice());
        out.append(&mut body);
        out
    }

    /// Reads the package at the start of `bytes`; `None` when `bytes` holds
    /// no complete frame.
    pub fn from_bytes(bytes: &[u8]) -> (r: Option<UdpPackage>)
        ensures
            match r {
                Some(p) => parse_package(bytes@) == Some((p.cmd, p.buf@)),
                None => parse_package(bytes@) is None,
            },
    {
        if bytes.len() < HEADER_LEN {
            return None;
        }
        let len = u64_from_le_bytes(&bytes[1..HEADER_LEN]);
        let room = bytes.len() - HEADER_LEN;
        if len > room as u64 {
            return None;
        }
        let end = HEADER_LEN + len as usize;
        let buf = slice_to_vec(&bytes[HEADER_LEN..end]);
        Some(UdpPackage { cmd: bytes[0], buf })
    }
}

/// Reading a frame gives back the command and the payload that were written
/// into it.
pub proof fn lemma_parse_of_package(cmd: u8, buf: Seq<u8>)
    requires
        buf.len() <= u64::MAX,
    ensures
        parse_package(package_bytes(cmd, buf)) == Some((cmd, buf)),
{
    vstd::bytes::lemma_auto_spec_u64_to_from_le_bytes();
    let b = package_bytes(cmd, buf);
    assert(b.subrange(1, HEADER_LEN as int) =~= spec_u64_to_le_bytes(buf.len() as u64));
    assert(b.subrange(HEADER_LEN as int, HEADER_LEN + buf.len()) =~= buf);
}

/// A frame is read only from bytes that start with the writing of what was
/// read: whatever follows the payload is ignored, nothing else is.
pub proof fn lemma_package_of_parse(bytes: Seq<u8>)
    requires
        parse_package(bytes) is Some,
    ensures
        ({
            let (cmd, buf) = parse_package(bytes).unwrap();
            package_bytes(cmd, buf) == bytes.subrange(0, HEADER_LEN + buf.len())
        }),
{
    vstd::bytes::lemma_auto_spec_u64_to_from_le_bytes();
    let (cmd, buf) = parse_package(bytes).unwrap();
    let len_bytes = bytes.subrange(1, HEADER_LEN as int);
    assert(spec_u64_to_le_bytes(spec_u64_from_le_bytes(len_bytes)) == len_bytes);
    assert(package_bytes(cmd, buf) =~= bytes.subrange(0, HEADER_LEN + buf.len()));
}

} // verus!
