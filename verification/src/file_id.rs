//! File ids: 128-bit UUIDs, drawn at random for every file that is sent and
//! written into payloads as bincode writes a `uuid::Uuid`.
use vstd::prelude::*;
use vstd::bytes::{
    spec_u128_from_le_bytes, spec_u128_to_le_bytes, spec_u64_from_le_bytes, spec_u64_to_le_bytes,
};

verus! {

/// The bytes of file id `id` in a payload: the byte count 16 as a
/// little-endian `u64`, then the sixteen bytes of the id, most significant
/// first.
pub open spec fn file_id_bytes(id: u128) -> Seq<u8> {
    spec_u64_to_le_bytes(16) + spec_u128_to_le_bytes(id).reverse()
}

/// The file id at the start of `bytes`: `None` unless `bytes` announces
/// sixteen bytes and holds them. Bytes after the id are ignored.
pub open spec fn parse_file_id(bytes: Seq<u8>) -> Option<u128> {
    if bytes.len() >= 24 && spec_u64_from_le_bytes(bytes.subrange(0, 8)) == 16 {
        Some(spec_u128_from_le_bytes(bytes.subrange(8, 24).reverse()))
    } else {
        None
    }
}

/// Writes `id` as bincode writes `uuid::Uuid::from_u128(id)`: the uuid is
/// written as a byte string of its sixteen big-endian bytes, which bincode
/// writes as its length, a little-endian `u64`, and the bytes.
#[verifier::external_body]
fn bincode_uuid_bytes(id: u128) -> (out: Vec<u8>)
    ensures
        out@ == file_id_bytes(id),
{
    bincode::serialize(&uuid::Uuid::from_u128(id)).expect("a uuid is always written")
}

/// Reads a `uuid::Uuid` with `bincode::deserialize` and gives its value as
/// `Uuid::as_u128` does. bincode reads a little-endian `u64` length, fails
/// where fewer bytes follow, and the uuid takes exactly sixteen bytes,
/// read most significant first; trailing bytes are allowed.
#[verifier::external_body]
fn bincode_uuid_parse(bytes: &[u8]) -> (r: Option<u128>)
    ensures
        r == parse_file_id(bytes@),
{
    match bincode::deserialize::<uuid::Uuid>(bytes) {
        Ok(u) => Some(u.as_u128()),
        Err(_) => None,
    }
}

/// Draws a new id with `uuid::Uuid::new_v4` and gives its value as
/// `Uuid::as_u128` does. Of the random value, only what `new_v4` sets is
/// stated: the version field is 4 and the variant is the one of RFC 4122.
#[verifier::external_body]
fn uuid_v4() -> (id: u128)
    ensures
        (id >> 76u128) & 0xfu128 == 4,
        (id >> 62u128) & 0x3u128 == 2,
{
    uuid::Uuid::new_v4().as_u128()
}

/// The payload that carries file id `id`.
pub fn encode_file_id(id: u128) -> (out: Vec<u8>)
    ensures
        out@ == file_id_bytes(id),
        out@.len() == 24,
{
    proof {
        vstd::bytes::lemma_auto_spec_u64_to_from_le_bytes();
        vstd::bytes::lemma_auto_spec_u128_to_from_le_bytes();
    }
    bincode_uuid_bytes(id)
}

/// The file id that a payload carries, `None` where it carries none.
pub fn decode_file_id(bytes: &[u8]) -> (r: Option<u128>)
    ensures
        r == parse_file_id(bytes@),
{
    bincode_uuid_parse(bytes)
}

/// A fresh, randomly drawn file id: a version 4 UUID.
pub fn new_file_id() -> (id: u128)
    ensures
        (id >> 76u128) & 0xfu128 == 4,
        (id >> 62u128) & 0x3u128 == 2,
{
    uuid_v4()
}

/// A file id is read back from its payload as written.
pub proof fn lemma_file_id_round_trip(id: u128)
    ensures
        parse_file_id(file_id_bytes(id)) == Some(id),
{
    vstd::bytes::lemma_auto_spec_u64_to_from_le_bytes();
    vstd::bytes::lemma_auto_spec_u128_to_from_le_bytes();
    let le = spec_u128_to_le_bytes(id);
    let b = file_id_bytes(id);
    assert(b.subrange(0, 8) =~= spec_u64_to_le_bytes(16));
    assert(b.subrange(8, 24) =~= le.reverse());
    assert(le.reverse().reverse() =~= le);
}

/// Reading a file id looks at the first 24 bytes only: a payload that
/// carries an id starts with the writing of that id.
pub proof fn lemma_file_id_prefix(bytes: Seq<u8>)
    requires
        parse_file_id(bytes) is Some,
    ensures
        file_id_bytes(parse_file_id(bytes).unwrap()) == bytes.subrange(0, 24),
{
    vstd::bytes::lemma_auto_spec_u64_to_from_le_bytes();
    vstd::bytes::lemma_auto_spec_u128_to_from_le_bytes();
    let id = parse_file_id(bytes).unwrap();
    let tail = bytes.subrange(8, 24);
    assert(spec_u64_to_le_bytes(spec_u64_from_le_bytes(bytes.subrange(0, 8))) == bytes.subrange(0, 8));
    assert(tail.reverse().len() == 16);
    assert(spec_u128_to_le_bytes(spec_u128_from_le_bytes(tail.reverse())) == tail.reverse());
    assert(tail.reverse().reverse() =~= tail);
    assert(file_id_bytes(id) =~= bytes.subrange(0, 24));
}

} // verus!
