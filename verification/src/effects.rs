//! What the actions of a node do outside it: the datagrams they send and
//! the bytes they write into files.
use vstd::prelude::*;
use crate::addr::PeerAddr;
use crate::chunk::{chunk_offset_spec, CHUNK_SIZE};
use crate::node::Action;
use crate::protocol::Message;

verus! {

/// The bytes of chunk `index` of a file whose contents are `file`: the
/// chunk's share of the file, shorter than a full chunk at the end of the
/// file, empty past its end.
pub open spec fn chunk_bytes(file: Seq<u8>, index: nat) -> Seq<u8> {
    let start = chunk_offset_spec(index) as int;
    if start < file.len() {
        if start + CHUNK_SIZE <= file.len() {
            file.subrange(start, start + CHUNK_SIZE)
        } else {
            file.subrange(start, file.len() as int)
        }
    } else {
        Seq::empty()
    }
}

/// A datagram as the program sends it.
pub enum Datagram {
    /// Chunk `index` of file `id`, with the bytes `data` read from the file.
    Chunk { to: PeerAddr, id: u128, index: u64, data: Seq<u8> },
    /// A message that the node built itself.
    Other { to: PeerAddr, message: Message },
}

/// The datagrams that action `a` makes the program send, in order, where
/// the file it reads chunks from holds `file`.
pub open spec fn datagrams_of(a: Action, file: Seq<u8>) -> Seq<Datagram> {
    match a {
        Action::Send { to, message } => seq![Datagram::Other { to, message }],
        Action::SendAllChunks { to, id, count } => Seq::new(
            count as nat,
            |i: int| Datagram::Chunk { to, id, index: i as u64, data: chunk_bytes(file, i as nat) },
        ),
        Action::SendChunks { to, id, indices } => indices@.map_values(
            |i: u64| Datagram::Chunk { to, id, index: i, data: chunk_bytes(file, i as nat) },
        ),
        _ => Seq::empty(),
    }
}

/// The datagrams that the actions `acts` make the program send, in order.
pub open spec fn datagrams(acts: Seq<Action>, file: Seq<u8>) -> Seq<Datagram>
    decreases acts.len(),
{
    if acts.len() == 0 {
        Seq::empty()
    } else {
        datagrams(acts.drop_last(), file) + datagrams_of(acts.last(), file)
    }
}

/// The contents of a file after `data` is written at byte `offset`: the
/// file grows, with zero bytes, as far as the data reaches.
pub open spec fn write_at(file: Seq<u8>, offset: nat, data: Seq<u8>) -> Seq<u8> {
    let end = offset + data.len();
    let len: nat = if end > file.len() { end } else { file.len() };
    Seq::new(
        len,
        |b: int|
            if offset <= b < end {
                data[b - offset]
            } else if b < file.len() {
                file[b]
            } else {
                0u8
            },
    )
}

/// The contents of a file after the writes among `acts`, in order.
pub open spec fn apply_writes(file: Seq<u8>, acts: Seq<Action>) -> Seq<u8>
    decreases acts.len(),
{
    if acts.len() == 0 {
        file
    } else {
        let before = apply_writes(file, acts.drop_last());
        match acts.last() {
            Action::WriteChunk { offset, data, .. } => write_at(before, offset as nat, data@),
            _ => before,
        }
    }
}

/// The contents of a file after the writes of the steps `steps`, in order.
pub open spec fn apply_steps(file: Seq<u8>, steps: Seq<Seq<Action>>) -> Seq<u8>
    decreases steps.len(),
{
    if steps.len() == 0 {
        file
    } else {
        apply_writes(apply_steps(file, steps.drop_last()), steps.last())
    }
}

} // verus!
