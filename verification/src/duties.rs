//! What a node must take and what it must do with each message, stated over
//! the inputs and results of a step, one law per kind of message.
use vstd::prelude::*;
use vstd::utf8::valid_utf8;
use crate::addr::PeerAddr;
use crate::chunk::MAX_CHUNK_INDEX;
use crate::node::{accepts, handles, state_wf, Action, NodeState};
use crate::protocol::{FileInfo, FileSend, Message, NotReceived, Role};
use crate::task::{chunk_indices, lemma_chunk_indices_wf, lemma_remove_missing, TaskView};
use crate::chunk::lemma_chunk_count_bound;

verus! {

/// A node takes every report of its own address, every request for the
/// sender's address and every datagram of an unknown command, whatever its
/// state.
pub proof fn lemma_takes_stateless_messages(s: NodeState, a: PeerAddr, b: Vec<u8>, c: u8)
    ensures
        accepts(s, Message::SelfAddress(a)),
        accepts(s, Message::WhoAmI(b)),
        accepts(s, Message::Unknown(c)),
{
}

/// A node takes tunnel messages: a sender takes every one, whether or not
/// it read an address from it; every other node, a receiver as well as the
/// echo server, takes every one that names a peer, and only those.
pub proof fn lemma_takes_tunnels(s: NodeState, t: Option<PeerAddr>)
    ensures
        s.role == Role::Send ==> accepts(s, Message::Tunnel(t)),
        s.role == Role::Get && t is Some ==> accepts(s, Message::Tunnel(t)),
        s.role == Role::EchoIp && t is Some ==> accepts(s, Message::Tunnel(t)),
        s.role != Role::Send && t is None ==> !accepts(s, Message::Tunnel(t)),
{
}

/// A node takes the end of the transfer, the accept and the list of missing
/// chunks of every file it knows, whatever that file's missing list holds,
/// whether it sends or receives the file; of a file it does not know it
/// takes none of them.
pub proof fn lemma_takes_messages_on_known_files(s: NodeState, id: u128, nr: NotReceived)
    requires
        nr.id == id,
    ensures
        s.tasks.contains_key(id) <==> accepts(s, Message::FileDone(id)),
        s.tasks.contains_key(id) <==> accepts(s, Message::FileAccept(id)),
        s.tasks.contains_key(id) <==> accepts(s, Message::Missing(nr)),
{
}

/// Taking an offer does not depend on the transfers the node has: an offer
/// with a name in UTF-8 whose file has at most `usize::MAX` chunks is taken
/// in every state, and an offer whose name is not UTF-8 in none.
pub proof fn lemma_takes_offers_in_any_state(s: NodeState, t: NodeState, info: FileInfo)
    ensures
        accepts(s, Message::FileOffer(info)) == accepts(t, Message::FileOffer(info)),
        valid_utf8(info.filename@) && (info.size + 1023) / 1024 <= usize::MAX ==> accepts(
            s,
            Message::FileOffer(info),
        ),
        !valid_utf8(info.filename@) ==> !accepts(s, Message::FileOffer(info)),
{
}

/// A node takes a chunk of a file it receives exactly when that chunk is
/// still missing, and every chunk of a file it sends; a chunk of a file it
/// does not know it does not take.
pub proof fn lemma_takes_chunks(s: NodeState, fs: FileSend)
    ensures
        !s.tasks.contains_key(fs.id) ==> !accepts(s, Message::Chunk(fs)),
        s.tasks.contains_key(fs.id) && s.tasks[fs.id] is Sending ==> accepts(s, Message::Chunk(fs)),
        s.tasks.contains_key(fs.id) && s.tasks[fs.id] is Receiving ==> (accepts(s, Message::Chunk(fs))
            <==> s.tasks[fs.id]->Receiving_missing.contains(fs.index)),
{
}

/// Told its own address, a node keeps it, changes nothing else, and reports
/// it exactly when it differs, in IP address or in port, from the address
/// it held.
pub proof fn lemma_own_address_outcome(
    pre: NodeState,
    from: PeerAddr,
    a: PeerAddr,
    post: NodeState,
    acts: Seq<Action>,
)
    requires
        handles(pre, from, Message::SelfAddress(a), post, acts),
    ensures
        post.self_addr == Some(a),
        post.role == pre.role,
        post.tasks == pre.tasks,
        pre.self_addr != Some(a) ==> acts.len() == 1 && acts[0] == Action::NewSelfAddress(a),
        pre.self_addr == Some(a) ==> acts.len() == 0,
        forall|b: PeerAddr| pre.self_addr == Some(b) && b != a ==> acts == seq![Action::NewSelfAddress(a)],
{
}

/// Asked for its address, a node answers the asker with the address under
/// which the request reached it, and changes nothing.
pub proof fn lemma_who_am_i_outcome(
    pre: NodeState,
    from: PeerAddr,
    b: Vec<u8>,
    post: NodeState,
    acts: Seq<Action>,
)
    requires
        handles(pre, from, Message::WhoAmI(b), post, acts),
    ensures
        post == pre,
        acts.len() == 1,
        acts[0] == (Action::Send { to: from, message: Message::SelfAddress(from) }),
{
}

/// A node that is not a sender, the echo server or a receiver, passes a
/// tunnel message that names a peer on to that peer, naming the node it
/// came from, and changes nothing.
pub proof fn lemma_tunnel_forward_outcome(
    pre: NodeState,
    from: PeerAddr,
    peer: PeerAddr,
    post: NodeState,
    acts: Seq<Action>,
)
    requires
        pre.role != Role::Send,
        handles(pre, from, Message::Tunnel(Some(peer)), post, acts),
    ensures
        post == pre,
        acts.len() == 1,
        acts[0] == (Action::Send { to: peer, message: Message::Tunnel(Some(from)) }),
{
}

/// A sender that gets a tunnel message from a peer offers that peer every
/// file it sends to it, once, with the file's name and size, offers nothing
/// else, and changes nothing.
pub proof fn lemma_tunnel_offers_outcome(
    pre: NodeState,
    from: PeerAddr,
    t: Option<PeerAddr>,
    post: NodeState,
    acts: Seq<Action>,
)
    requires
        pre.role == Role::Send,
        handles(pre, from, Message::Tunnel(t), post, acts),
    ensures
        post == pre,
        forall|i: int| #![trigger acts[i]] 0 <= i < acts.len() ==> {
            &&& acts[i] matches Action::Send { to, message: Message::FileOffer(info) }
            &&& acts[i]->Send_to == from
            &&& pre.tasks.contains_key(acts[i]->Send_message->FileOffer_0.id)
            &&& pre.tasks[acts[i]->Send_message->FileOffer_0.id] matches TaskView::Sending {
                filename,
                size,
                remote,
            } && remote == from && acts[i]->Send_message->FileOffer_0.filename@ == filename
                && acts[i]->Send_message->FileOffer_0.size == size
        },
        forall|i: int, j: int|
            #![trigger acts[i], acts[j]]
            0 <= i < j < acts.len() ==> acts[i]->Send_message->FileOffer_0.id
                != acts[j]->Send_message->FileOffer_0.id,
        forall|id: u128|
            pre.tasks.contains_key(id) && #[trigger] pre.tasks[id] is Sending
                && pre.tasks[id]->Sending_remote == from ==> exists|i: int|
                0 <= i < acts.len() && (#[trigger] acts[i])->Send_message->FileOffer_0.id == id,
{
    assert forall|id: u128|
        pre.tasks.contains_key(id) && #[trigger] pre.tasks[id] is Sending
            && pre.tasks[id]->Sending_remote == from implies exists|i: int|
            0 <= i < acts.len() && (#[trigger] acts[i])->Send_message->FileOffer_0.id == id by {
        assert(crate::node::sends_to(pre, id, from));
        let i = choose|i: int| 0 <= i < acts.len() && crate::node::offer_id(#[trigger] acts[i]) == id;
        assert(crate::node::is_offer_to(pre, from, acts[i], crate::node::offer_id(acts[i])));
    }
    assert forall|i: int, j: int|
        #![trigger acts[i], acts[j]]
        0 <= i < j < acts.len() implies acts[i]->Send_message->FileOffer_0.id
            != acts[j]->Send_message->FileOffer_0.id by {
        assert(crate::node::is_offer_to(pre, from, acts[i], crate::node::offer_id(acts[i])));
        assert(crate::node::is_offer_to(pre, from, acts[j], crate::node::offer_id(acts[j])));
        assert(crate::node::offer_id(acts[i]) != crate::node::offer_id(acts[j]));
    }
    assert forall|i: int| #![trigger acts[i]] 0 <= i < acts.len() implies {
        &&& acts[i] matches Action::Send { to, message: Message::FileOffer(info) }
        &&& acts[i]->Send_to == from
        &&& pre.tasks.contains_key(acts[i]->Send_message->FileOffer_0.id)
        &&& pre.tasks[acts[i]->Send_message->FileOffer_0.id] matches TaskView::Sending {
            filename,
            size,
            remote,
        } && remote == from && acts[i]->Send_message->FileOffer_0.filename@ == filename
            && acts[i]->Send_message->FileOffer_0.size == size
    } by {
        assert(crate::node::is_offer_to(pre, from, acts[i], crate::node::offer_id(acts[i])));
    }
}

/// The number of chunks of a file of `size` bytes is the least number of
/// 1024-byte chunks that hold it: chunk `x` is one of them exactly when it
/// starts before the end of the file.
proof fn lemma_chunk_count_meaning(size: u64, x: int)
    ensures
        crate::chunk::chunk_count_spec(size as nat) * 1024 >= size,
        crate::chunk::chunk_count_spec(size as nat) * 1024 < size + 1024,
        0 <= x ==> (x < crate::chunk::chunk_count_spec(size as nat) <==> x * 1024 < size),
{
    let sz = size as int;
    let q = sz / 1024;
    let r = sz % 1024;
    vstd::arithmetic::div_mod::lemma_fundamental_div_mod(sz, 1024);
    let n = crate::chunk::chunk_count_spec(size as nat) as int;
    assert(n == if r == 0 { q } else { q + 1 });
    assert(n * 1024 >= sz && n * 1024 < sz + 1024) by (nonlinear_arith)
        requires
            sz == 1024 * q + r,
            0 <= r < 1024,
            n == if r == 0 { q } else { q + 1 };
    if 0 <= x {
        assert(x < n <==> x * 1024 < sz) by (nonlinear_arith)
            requires
                sz == 1024 * q + r,
                0 <= r < 1024,
                n == if r == 0 { q } else { q + 1 },
                0 <= x;
    }
}

/// A receiver that takes a chunk writes its bytes at the chunk's offset,
/// `index * 1024`, crosses off exactly that chunk, and changes nothing else;
/// a sender ignores a chunk of a file it sends.
pub proof fn lemma_chunk_outcome(
    pre: NodeState,
    from: PeerAddr,
    fs: FileSend,
    post: NodeState,
    acts: Seq<Action>,
)
    requires
        state_wf(pre),
        accepts(pre, Message::Chunk(fs)),
        handles(pre, from, Message::Chunk(fs), post, acts),
    ensures
        post.role == pre.role,
        post.self_addr == pre.self_addr,
        post.tasks.dom() == pre.tasks.dom(),
        forall|j: u128| j != fs.id && #[trigger] pre.tasks.contains_key(j) ==> post.tasks[j] == pre.tasks[j],
        pre.tasks[fs.id] is Sending ==> post == pre && acts.len() == 0,
        pre.tasks[fs.id] is Receiving ==> {
            &&& post.tasks[fs.id] is Receiving
            &&& post.tasks[fs.id]->Receiving_from == pre.tasks[fs.id]->Receiving_from
            &&& forall|x: u64| #[trigger] post.tasks[fs.id]->Receiving_missing.contains(x)
                <==> (pre.tasks[fs.id]->Receiving_missing.contains(x) && x != fs.index)
            &&& post.tasks[fs.id]->Receiving_missing.len() + 1 == pre.tasks[fs.id]->Receiving_missing.len()
            &&& acts.len() == 1
            &&& acts[0] matches Action::WriteChunk { id, offset, data }
            &&& acts[0]->WriteChunk_id == fs.id
            &&& acts[0]->WriteChunk_offset == fs.index * 1024
            &&& acts[0]->WriteChunk_data@ == fs.buf@
        },
{
    if pre.tasks[fs.id] is Receiving {
        assert(crate::node::task_view_wf(pre.tasks[fs.id]));
        lemma_remove_missing(pre.tasks[fs.id]->Receiving_missing, fs.index);
    }
    assert(post.tasks.dom() =~= pre.tasks.dom());
}

/// A node that takes an offer starts receiving the file from the offerer
/// with exactly the chunks `x` with `x * 1024 < size` missing, in
/// increasing order; it keeps every other transfer as it was, creates the
/// file under the offered name, and accepts the file back to the offerer.
pub proof fn lemma_offer_outcome(
    pre: NodeState,
    from: PeerAddr,
    info: FileInfo,
    post: NodeState,
    acts: Seq<Action>,
)
    requires
        handles(pre, from, Message::FileOffer(info), post, acts),
    ensures
        post.role == pre.role,
        post.self_addr == pre.self_addr,
        post.tasks.dom() == pre.tasks.dom().insert(info.id),
        forall|j: u128| j != info.id && #[trigger] pre.tasks.contains_key(j) ==> post.tasks[j] == pre.tasks[j],
        post.tasks[info.id] is Receiving,
        post.tasks[info.id]->Receiving_from == from,
        forall|x: u64| #[trigger] post.tasks[info.id]->Receiving_missing.contains(x) <==> x * 1024 < info.size,
        forall|i: int, j: int|
            0 <= i < j < post.tasks[info.id]->Receiving_missing.len() ==> post.tasks[info.id]->Receiving_missing[i]
                < post.tasks[info.id]->Receiving_missing[j],
        acts.len() == 2,
        acts[0] matches Action::CreateFile { id, name },
        acts[0]->CreateFile_id == info.id,
        acts[0]->CreateFile_name@ == info.filename@,
        acts[1] == (Action::Send { to: from, message: Message::FileAccept(info.id) }),
{
    let n = crate::chunk::chunk_count_spec(info.size as nat);
    lemma_chunk_count_bound(info.size, 0);
    lemma_chunk_indices_wf(n);
    assert forall|x: u64| #[trigger] chunk_indices(n).contains(x) <==> x * 1024 < info.size by {
        lemma_chunk_count_meaning(info.size, x as int);
    }
    assert(post.tasks.dom() =~= pre.tasks.dom().insert(info.id));
}

/// At the end of a transfer, a receiver changes nothing; it flushes the
/// file when no chunk is missing, and otherwise sends the node the end came
/// from one list of exactly the missing chunks, in the order it keeps them.
/// A sender does nothing.
pub proof fn lemma_end_outcome(
    pre: NodeState,
    from: PeerAddr,
    id: u128,
    post: NodeState,
    acts: Seq<Action>,
)
    requires
        accepts(pre, Message::FileDone(id)),
        handles(pre, from, Message::FileDone(id), post, acts),
    ensures
        post == pre,
        pre.tasks[id] is Sending ==> acts.len() == 0,
        pre.tasks[id] is Receiving && pre.tasks[id]->Receiving_missing.len() == 0 ==> acts == seq![
            Action::Flush { id },
        ],
        pre.tasks[id] is Receiving && pre.tasks[id]->Receiving_missing.len() > 0 ==> {
            &&& acts.len() == 1
            &&& acts[0] matches Action::Send { to, message: Message::Missing(nr) }
            &&& acts[0]->Send_to == from
            &&& acts[0]->Send_message->Missing_0.id == id
            &&& acts[0]->Send_message->Missing_0.not_received@ == pre.tasks[id]->Receiving_missing
        },
{
}

/// A sender that gets the accept of a file sends the peer the file is for
/// every chunk of it, as many as it takes to hold the file's bytes and no
/// more, then the end of the transfer, and changes nothing. A receiver does
/// nothing.
pub proof fn lemma_accept_outcome(
    pre: NodeState,
    from: PeerAddr,
    id: u128,
    post: NodeState,
    acts: Seq<Action>,
)
    requires
        accepts(pre, Message::FileAccept(id)),
        handles(pre, from, Message::FileAccept(id), post, acts),
    ensures
        post == pre,
        pre.tasks[id] is Receiving ==> acts.len() == 0,
        pre.tasks[id] is Sending ==> {
            &&& acts.len() == 2
            &&& acts[0] matches Action::SendAllChunks { to, id: file, count }
            &&& acts[0]->SendAllChunks_to == pre.tasks[id]->Sending_remote
            &&& acts[0]->SendAllChunks_id == id
            &&& acts[0]->SendAllChunks_count * 1024 >= pre.tasks[id]->Sending_size
            &&& acts[0]->SendAllChunks_count * 1024 < pre.tasks[id]->Sending_size + 1024
            &&& acts[1] == (Action::Send {
                to: pre.tasks[id]->Sending_remote,
                message: Message::FileDone(id),
            })
        },
{
    if pre.tasks[id] is Sending {
        let size = pre.tasks[id]->Sending_size;
        let n = crate::chunk::chunk_count_spec(size as nat);
        lemma_chunk_count_bound(size, 0);
        assert((n as u64) as nat == n);
        lemma_chunk_count_meaning(size, 0);
    }
}

/// A sender that gets a list of missing chunks sends the peer the file is
/// for exactly those chunks, in the order listed, then the end of the
/// transfer, and changes nothing. A receiver does nothing.
pub proof fn lemma_missing_outcome(
    pre: NodeState,
    from: PeerAddr,
    nr: NotReceived,
    post: NodeState,
    acts: Seq<Action>,
)
    requires
        accepts(pre, Message::Missing(nr)),
        handles(pre, from, Message::Missing(nr), post, acts),
    ensures
        post == pre,
        pre.tasks[nr.id] is Receiving ==> acts.len() == 0,
        pre.tasks[nr.id] is Sending ==> {
            &&& acts.len() == 2
            &&& acts[0] matches Action::SendChunks { to, id, indices }
            &&& acts[0]->SendChunks_to == pre.tasks[nr.id]->Sending_remote
            &&& acts[0]->SendChunks_id == nr.id
            &&& acts[0]->SendChunks_indices@ == nr.not_received@
            &&& acts[1] == (Action::Send {
                to: pre.tasks[nr.id]->Sending_remote,
                message: Message::FileDone(nr.id),
            })
        },
{
}

/// A datagram of an unknown command changes nothing and asks for nothing.
pub proof fn lemma_unknown_outcome(
    pre: NodeState,
    from: PeerAddr,
    c: u8,
    post: NodeState,
    acts: Seq<Action>,
)
    requires
        handles(pre, from, Message::Unknown(c), post, acts),
    ensures
        post == pre,
        acts.len() == 0,
{
}

} // verus!
