//! Files travel in fixed-size chunks; chunk `i` holds the bytes
//! `[i * CHUNK_SIZE, (i + 1) * CHUNK_SIZE)` of the file.
use vstd::prelude::*;

verus! {

/// Number of file bytes carried by one chunk.
pub const CHUNK_SIZE: u64 = 1024;

/// Largest chunk index whose byte offset still fits in a `u64`.
pub const MAX_CHUNK_INDEX: u64 = 18014398509481983;

/// Number of chunks a file of `size` bytes is cut into: the size divided by
/// the chunk size, rounded up.
pub open spec fn chunk_count_spec(size: nat) -> nat {
    if size % (CHUNK_SIZE as nat) == 0 {
        size / (CHUNK_SIZE as nat)
    } else {
        size / (CHUNK_SIZE as nat) + 1
    }
}

/// Byte offset at which chunk `index` starts in the file.
pub open spec fn chunk_offset_spec(index: nat) -> nat {
    index * (CHUNK_SIZE as nat)
}

/// Number of chunks of a file of `size` bytes.
pub fn chunk_count(size: u64) -> (n: u64)
    ensures
        n == chunk_count_spec(size as nat),
        n * CHUNK_SIZE >= size,
        n * CHUNK_SIZE < size + CHUNK_SIZE,
        n <= MAX_CHUNK_INDEX + 1,
{
    if size % CHUNK_SIZE == 0 {
        size / CHUNK_SIZE
    } else {
        size / CHUNK_SIZE + 1
    }
}

/// Byte offset of chunk `index` in its file.
pub fn chunk_offset(index: u64) -> (offset: u64)
    requires
        index <= MAX_CHUNK_INDEX,
    ensures
        offset == chunk_offset_spec(index as nat),
{
    index * CHUNK_SIZE
}

/// The indices `0, 1, ..., n - 1` of all chunks of a file with `n` chunks,
/// in increasing order.
pub fn all_chunks(n: u64) -> (v: Vec<u64>)
    requires
        n <= usize::MAX,
    ensures
        v@ == Seq::new(n as nat, |i: int| i as u64),
{
    let mut v: Vec<u64> = Vec::new();
    let mut i: u64 = 0;
    while i < n
        invariant
            i <= n,
            v@ == Seq::new(i as nat, |k: int| k as u64),
        decreases n - i,
    {
        v.push(i);
        i = i + 1;
        assert(v@ =~= Seq::new(i as nat, |k: int| k as u64));
    }
    v
}

/// A file of at most `u64::MAX` bytes has at most `MAX_CHUNK_INDEX + 1`
/// chunks, and each of its chunks starts inside the file.
pub proof fn lemma_chunk_count_bound(size: u64, i: nat)
    ensures
        chunk_count_spec(size as nat) <= MAX_CHUNK_INDEX + 1,
        i < chunk_count_spec(size as nat) ==> chunk_offset_spec(i) < size,
{
    let sz = size as int;
    let q = sz / 1024;
    let r = sz % 1024;
    vstd::arithmetic::div_mod::lemma_fundamental_div_mod(sz, 1024);
    if i < chunk_count_spec(size as nat) {
        assert(i * 1024 < sz) by (nonlinear_arith)
            requires
                sz == 1024 * q + r, 0 <= r < 1024, i >= 0,
                (r == 0 ==> i < q), (r != 0 ==> i < q + 1);
    }
}

/// Every byte of a file lies in exactly one of its chunks: byte `b` of a file
/// of `size` bytes lies in chunk `b / CHUNK_SIZE`, which is one of the file's
/// chunks, and in no other chunk.
pub proof fn lemma_byte_in_one_chunk(size: nat, b: nat, i: nat)
    requires
        b < size,
    ensures
        b / (CHUNK_SIZE as nat) < chunk_count_spec(size),
        chunk_offset_spec(b / (CHUNK_SIZE as nat)) <= b < chunk_offset_spec(b / (CHUNK_SIZE as nat)) + CHUNK_SIZE,
        (chunk_offset_spec(i) <= b < chunk_offset_spec(i) + CHUNK_SIZE) <==> i == b / (CHUNK_SIZE as nat),
{
    assert(chunk_offset_spec(i) <= b < chunk_offset_spec(i) + CHUNK_SIZE ==> i == b / 1024) by (nonlinear_arith)
        requires b >= 0, i >= 0;
}

} // verus!
