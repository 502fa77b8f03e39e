//! Properties of the protocol that span several messages or several nodes.
use vstd::prelude::*;
use crate::addr::PeerAddr;
use crate::chunk::{
    chunk_count_spec, chunk_offset_spec, lemma_byte_in_one_chunk, lemma_chunk_count_bound, CHUNK_SIZE, MAX_CHUNK_INDEX,
};
use crate::effects::{apply_steps, apply_writes, chunk_bytes, datagrams, datagrams_of, write_at, Datagram};
use crate::node::{accepts, handles, is_offer_to, offers_all, state_wf, task_view_wf, Action, NodeState};
use crate::protocol::{FileSend, Message, NotReceived, Role};
use crate::task::{chunk_indices, lemma_chunk_indices_wf, lemma_remove_missing, missing_wf, TaskView};

verus! {

/// The missing list left after the chunks `arrived` came in, in that order,
/// starting from the list `missing`.
pub open spec fn after_arrivals(missing: Seq<u64>, arrived: Seq<u64>) -> Seq<u64>
    decreases arrived.len(),
{
    if arrived.len() == 0 {
        missing
    } else {
        after_arrivals(missing, arrived.drop_last()).remove_value(arrived.last())
    }
}

/// After some chunks came in, the missing list holds exactly the chunks it
/// held before and that did not come in, and stays well formed.
pub proof fn lemma_after_arrivals(missing: Seq<u64>, arrived: Seq<u64>)
    requires
        missing_wf(missing),
    ensures
        missing_wf(after_arrivals(missing, arrived)),
        forall|x: u64| #[trigger] after_arrivals(missing, arrived).contains(x)
            <==> (missing.contains(x) && !arrived.contains(x)),
    decreases arrived.len(),
{
    if arrived.len() > 0 {
        let prev = arrived.drop_last();
        lemma_after_arrivals(missing, prev);
        lemma_remove_missing(after_arrivals(missing, prev), arrived.last());
        assert forall|x: u64| arrived.contains(x) <==> (prev.contains(x) || x == arrived.last()) by {
            if arrived.contains(x) {
                let k = choose|k: int| 0 <= k < arrived.len() && arrived[k] == x;
                if k < arrived.len() - 1 {
                    assert(prev[k] == x);
                }
            }
            if prev.contains(x) {
                let k = choose|k: int| 0 <= k < prev.len() && prev[k] == x;
                assert(arrived[k] == x);
            }
        }
        let before = after_arrivals(missing, prev);
        assert(after_arrivals(missing, arrived) == before.remove_value(arrived.last()));
        assert forall|x: u64| #[trigger] after_arrivals(missing, arrived).contains(x)
            <==> (missing.contains(x) && !arrived.contains(x)) by {
            assert(before.contains(x) <==> (missing.contains(x) && !prev.contains(x)));
        }
    }
}

/// Every message keeps a node well formed: whatever it takes, each missing
/// list stays strictly increasing and within the chunks a file can have.
pub proof fn lemma_handles_keeps_wf(
    pre: NodeState,
    from: PeerAddr,
    m: Message,
    post: NodeState,
    acts: Seq<Action>,
)
    requires
        state_wf(pre),
        accepts(pre, m),
        handles(pre, from, m, post, acts),
    ensures
        state_wf(post),
{
    match m {
        Message::Chunk(fs) => {
            if let TaskView::Receiving { missing, .. } = pre.tasks[fs.id] {
                assert(task_view_wf(pre.tasks[fs.id]));
                lemma_remove_missing(missing, fs.index);
            }
            assert forall|id: u128| #[trigger] post.tasks.contains_key(id) implies task_view_wf(post.tasks[id]) by {
                if id != fs.id {
                    assert(pre.tasks.contains_key(id));
                }
            }
        },
        Message::FileOffer(info) => {
            let n = chunk_count_spec(info.size as nat);
            lemma_chunk_count_bound(info.size, 0);
            lemma_chunk_indices_wf(n);
            assert forall|id: u128| #[trigger] post.tasks.contains_key(id) implies task_view_wf(post.tasks[id]) by {
                if id != info.id {
                    assert(pre.tasks.contains_key(id));
                }
            }
        },
        _ => {},
    }
}

/// A receiver's missing list never grows: except through a new offer of the
/// same file, no message adds a chunk to it, and the file stays a file being
/// received from the same peer.
pub proof fn lemma_missing_only_shrinks(
    pre: NodeState,
    from: PeerAddr,
    m: Message,
    post: NodeState,
    acts: Seq<Action>,
    id: u128,
    x: u64,
)
    requires
        state_wf(pre),
        accepts(pre, m),
        handles(pre, from, m, post, acts),
        pre.tasks.contains_key(id),
        pre.tasks[id] is Receiving,
        !(m matches Message::FileOffer(info) && info.id == id),
    ensures
        post.tasks.contains_key(id),
        post.tasks[id] is Receiving,
        post.tasks[id]->Receiving_from == pre.tasks[id]->Receiving_from,
        post.tasks[id]->Receiving_missing.contains(x) ==> pre.tasks[id]->Receiving_missing.contains(x),
{
    if let Message::Chunk(fs) = m {
        if fs.id == id {
            assert(task_view_wf(pre.tasks[id]));
            lemma_remove_missing(pre.tasks[id]->Receiving_missing, fs.index);
        }
    }
}

/// Only three messages change a node: its own address, a chunk and an
/// offer. Every other message leaves the node as it was and only makes it
/// send or do something.
pub proof fn lemma_state_changes(
    pre: NodeState,
    from: PeerAddr,
    m: Message,
    post: NodeState,
    acts: Seq<Action>,
)
    requires
        handles(pre, from, m, post, acts),
        !(m is SelfAddress),
        !(m is Chunk),
        !(m is FileOffer),
    ensures
        post == pre,
{
}

/// Chunks cross off exactly themselves: a receiver that takes the chunks
/// `chunks` of file `id`, one after the other, is left missing exactly the
/// chunks it missed before and that did not arrive.
pub proof fn lemma_chunks_cross_off(
    states: Seq<NodeState>,
    senders: Seq<PeerAddr>,
    chunks: Seq<FileSend>,
    acts: Seq<Seq<Action>>,
    id: u128,
)
    requires
        states.len() == chunks.len() + 1,
        senders.len() == chunks.len(),
        acts.len() == chunks.len(),
        state_wf(states[0]),
        states[0].tasks.contains_key(id),
        states[0].tasks[id] is Receiving,
        forall|i: int| 0 <= i < chunks.len() ==> (#[trigger] chunks[i]).id == id,
        forall|i: int|
            0 <= i < chunks.len() ==> accepts(states[i], Message::Chunk(#[trigger] chunks[i])),
        forall|i: int|
            0 <= i < chunks.len() ==> handles(
                states[i],
                senders[i],
                Message::Chunk(#[trigger] chunks[i]),
                states[i + 1],
                acts[i],
            ),
    ensures
        state_wf(states.last()),
        states.last().tasks.contains_key(id),
        states.last().tasks[id] == (TaskView::Receiving {
            from: states[0].tasks[id]->Receiving_from,
            missing: after_arrivals(
                states[0].tasks[id]->Receiving_missing,
                chunks.map_values(|c: FileSend| c.index),
            ),
        }),
    decreases chunks.len(),
{
    let n = chunks.len();
    let missing0 = states[0].tasks[id]->Receiving_missing;
    if n > 0 {
        let k = (n - 1) as int;
        lemma_chunks_cross_off(states.drop_last(), senders.drop_last(), chunks.drop_last(), acts.drop_last(), id);
        assert(chunks.drop_last().map_values(|c: FileSend| c.index) =~= chunks.map_values(|c: FileSend| c.index).drop_last());
        assert(states.drop_last().last() == states[k]);
        lemma_handles_keeps_wf(states[k], senders[k], Message::Chunk(chunks[k]), states[k + 1], acts[k]);
    }
}

/// Whether some chunk among `chunks` is chunk `x`.
pub open spec fn has_arrived(chunks: Seq<FileSend>, x: u64) -> bool {
    exists|i: int| 0 <= i < chunks.len() && (#[trigger] chunks[i]).index == x
}

/// A file is complete once every chunk has arrived: a receiver that
/// accepted a file of `n` chunks and then took chunks covering `0 .. n`
/// misses nothing, and at the end of the transfer it flushes the file and
/// asks for nothing.
pub proof fn lemma_transfer_completes(
    states: Seq<NodeState>,
    senders: Seq<PeerAddr>,
    chunks: Seq<FileSend>,
    acts: Seq<Seq<Action>>,
    id: u128,
    n: nat,
    sender: PeerAddr,
    done_post: NodeState,
    done_acts: Seq<Action>,
)
    requires
        states.len() == chunks.len() + 1,
        senders.len() == chunks.len(),
        acts.len() == chunks.len(),
        state_wf(states[0]),
        states[0].tasks.contains_key(id),
        states[0].tasks[id] is Receiving,
        states[0].tasks[id]->Receiving_missing == chunk_indices(n),
        n <= MAX_CHUNK_INDEX + 1,
        forall|i: int| 0 <= i < chunks.len() ==> (#[trigger] chunks[i]).id == id,
        forall|i: int|
            0 <= i < chunks.len() ==> accepts(states[i], Message::Chunk(#[trigger] chunks[i])),
        forall|i: int|
            0 <= i < chunks.len() ==> handles(
                states[i],
                senders[i],
                Message::Chunk(#[trigger] chunks[i]),
                states[i + 1],
                acts[i],
            ),
        forall|x: u64| x < n ==> #[trigger] has_arrived(chunks, x),
        handles(states.last(), sender, Message::FileDone(id), done_post, done_acts),
    ensures
        states.last().tasks[id]->Receiving_missing.len() == 0,
        done_acts == seq![Action::Flush { id }],
{
    lemma_chunk_indices_wf(n);
    lemma_chunks_cross_off(states, senders, chunks, acts, id);
    let arrived = chunks.map_values(|c: FileSend| c.index);
    lemma_after_arrivals(chunk_indices(n), arrived);
    let last = after_arrivals(chunk_indices(n), arrived);
    if last.len() > 0 {
        let x = last[0];
        assert(last.contains(x));
        assert(x < n);
        assert(has_arrived(chunks, x));
        let i = choose|i: int| 0 <= i < chunks.len() && (#[trigger] chunks[i]).index == x;
        assert(arrived[i] == x);
    }
}

/// Whether the chunks `chunks` are chunks of a file of `n` chunks, each at
/// most once.
pub open spec fn distinct_chunks_within(chunks: Seq<FileSend>, n: nat) -> bool {
    &&& forall|i: int| 0 <= i < chunks.len() ==> (#[trigger] chunks[i]).index < n
    &&& forall|i: int, j: int|
        0 <= i < j < chunks.len() ==> (#[trigger] chunks[i]).index != (#[trigger] chunks[j]).index
}

/// A receiver takes every chunk of a run of distinct chunks of the file it
/// accepted: after an offer of `n` chunks, each chunk of `0 .. n` that has
/// not come yet is accepted when it comes.
pub proof fn lemma_distinct_chunks_accepted(
    states: Seq<NodeState>,
    senders: Seq<PeerAddr>,
    chunks: Seq<FileSend>,
    acts: Seq<Seq<Action>>,
    id: u128,
    n: nat,
)
    requires
        states.len() == chunks.len() + 1,
        senders.len() == chunks.len(),
        acts.len() == chunks.len(),
        state_wf(states[0]),
        states[0].tasks.contains_key(id),
        states[0].tasks[id] is Receiving,
        states[0].tasks[id]->Receiving_missing == chunk_indices(n),
        n <= MAX_CHUNK_INDEX + 1,
        forall|i: int| 0 <= i < chunks.len() ==> (#[trigger] chunks[i]).id == id,
        distinct_chunks_within(chunks, n),
        forall|i: int|
            0 <= i < chunks.len() ==> handles(
                states[i],
                senders[i],
                Message::Chunk(#[trigger] chunks[i]),
                states[i + 1],
                acts[i],
            ),
    ensures
        forall|i: int|
            0 <= i < chunks.len() ==> accepts(states[i], Message::Chunk(#[trigger] chunks[i])),
    decreases chunks.len(),
{
    if chunks.len() > 0 {
        let k = chunks.len() - 1;
        let st = states.drop_last();
        let se = senders.drop_last();
        let ch = chunks.drop_last();
        let ac = acts.drop_last();
        assert forall|i: int| 0 <= i < ch.len() implies handles(
            st[i],
            se[i],
            Message::Chunk(#[trigger] ch[i]),
            st[i + 1],
            ac[i],
        ) by {
            assert(ch[i] == chunks[i]);
        }
        assert forall|i: int| 0 <= i < ch.len() implies (#[trigger] ch[i]).id == id by {
            assert(ch[i] == chunks[i]);
        }
        assert(distinct_chunks_within(ch, n)) by {
            assert forall|i: int| 0 <= i < ch.len() implies (#[trigger] ch[i]).index < n by {
                assert(ch[i] == chunks[i]);
            }
            assert forall|i: int, j: int| 0 <= i < j < ch.len() implies (#[trigger] ch[i]).index
                != (#[trigger] ch[j]).index by {
                assert(ch[i] == chunks[i]);
                assert(ch[j] == chunks[j]);
            }
        }
        lemma_distinct_chunks_accepted(st, se, ch, ac, id, n);
        assert forall|i: int| 0 <= i < ch.len() implies accepts(st[i], Message::Chunk(#[trigger] ch[i])) by {}
        lemma_chunk_indices_wf(n);
        lemma_chunks_cross_off(st, se, ch, ac, id);
        assert(st.last() == states[k]);
        let arrived = ch.map_values(|c: FileSend| c.index);
        lemma_after_arrivals(chunk_indices(n), arrived);
        let x = chunks[k].index;
        assert(chunks[k].index < n);
        assert(chunk_indices(n).contains(x));
        assert(!arrived.contains(x)) by {
            if arrived.contains(x) {
                let j = choose|j: int| 0 <= j < arrived.len() && arrived[j] == x;
                assert(chunks[j].index == x);
            }
        }
        assert(after_arrivals(chunk_indices(n), arrived).contains(x));
        assert forall|i: int| 0 <= i < chunks.len() implies accepts(states[i], Message::Chunk(#[trigger] chunks[i])) by {
            if i < k {
                assert(accepts(st[i], Message::Chunk(ch[i])));
                assert(ch[i] == chunks[i]);
            }
        }
    }
}

/// The end of a transfer answers for exactly the chunks that did not come:
/// a receiver that accepted a file of `n` chunks and then took `chunks`,
/// distinct chunks of that file, is unchanged by the end of the transfer; it flushes the file
/// when every chunk of `0 .. n` arrived, and otherwise sends back to the
/// sender one list of the missing chunks, in increasing order, holding
/// exactly the chunks of `0 .. n` that did not arrive.
pub proof fn lemma_end_of_transfer(
    states: Seq<NodeState>,
    senders: Seq<PeerAddr>,
    chunks: Seq<FileSend>,
    acts: Seq<Seq<Action>>,
    id: u128,
    n: nat,
    sender: PeerAddr,
    done_post: NodeState,
    done_acts: Seq<Action>,
)
    requires
        states.len() == chunks.len() + 1,
        senders.len() == chunks.len(),
        acts.len() == chunks.len(),
        state_wf(states[0]),
        states[0].tasks.contains_key(id),
        states[0].tasks[id] is Receiving,
        states[0].tasks[id]->Receiving_missing == chunk_indices(n),
        n <= MAX_CHUNK_INDEX + 1,
        forall|i: int| 0 <= i < chunks.len() ==> (#[trigger] chunks[i]).id == id,
        distinct_chunks_within(chunks, n),
        forall|i: int|
            0 <= i < chunks.len() ==> handles(
                states[i],
                senders[i],
                Message::Chunk(#[trigger] chunks[i]),
                states[i + 1],
                acts[i],
            ),
        handles(states.last(), sender, Message::FileDone(id), done_post, done_acts),
    ensures
        done_post == states.last(),
        (forall|x: u64| x < n ==> #[trigger] has_arrived(chunks, x)) ==> done_acts == seq![Action::Flush { id }],
        !(forall|x: u64| x < n ==> #[trigger] has_arrived(chunks, x)) ==> {
            &&& done_acts.len() == 1
            &&& done_acts[0] matches Action::Send { to, message: Message::Missing(nr) } && to == sender
                && nr.id == id && missing_wf(nr.not_received@)
                && forall|x: u64| #[trigger] nr.not_received@.contains(x) <==> (x < n && !has_arrived(chunks, x))
        },
{
    lemma_distinct_chunks_accepted(states, senders, chunks, acts, id, n);
    lemma_chunk_indices_wf(n);
    lemma_chunks_cross_off(states, senders, chunks, acts, id);
    let arrived = chunks.map_values(|c: FileSend| c.index);
    lemma_after_arrivals(chunk_indices(n), arrived);
    let last = after_arrivals(chunk_indices(n), arrived);
    assert forall|x: u64| arrived.contains(x) <==> has_arrived(chunks, x) by {
        if arrived.contains(x) {
            let i = choose|i: int| 0 <= i < arrived.len() && arrived[i] == x;
            assert(chunks[i].index == x);
        }
        if has_arrived(chunks, x) {
            let i = choose|i: int| 0 <= i < chunks.len() && (#[trigger] chunks[i]).index == x;
            assert(arrived[i] == x);
        }
    }
    if forall|x: u64| x < n ==> #[trigger] has_arrived(chunks, x) {
        if last.len() > 0 {
            let x = last[0];
            assert(last.contains(x));
            assert(has_arrived(chunks, x));
        }
    } else {
        let x = choose|x: u64| !(x < n ==> #[trigger] has_arrived(chunks, x));
        assert(chunk_indices(n).contains(x));
        assert(last.contains(x));
    }
}

/// The chunks a sender resends are exactly those its receiver misses: the
/// list that a receiver sends at the end of a transfer makes the sender of
/// the file send those chunks, in the same order, to the address it sends
/// the file to, and then the end of the transfer again.
pub proof fn lemma_resend_what_is_missing(
    receiver: NodeState,
    sender_addr: PeerAddr,
    id: u128,
    receiver_post: NodeState,
    receiver_acts: Seq<Action>,
    nr: NotReceived,
    sender: NodeState,
    receiver_addr: PeerAddr,
    sender_post: NodeState,
    sender_acts: Seq<Action>,
)
    requires
        receiver.tasks.contains_key(id),
        handles(receiver, sender_addr, Message::FileDone(id), receiver_post, receiver_acts),
        receiver_acts.len() == 1,
        receiver_acts[0] == (Action::Send { to: sender_addr, message: Message::Missing(nr) }),
        sender.tasks.contains_key(id),
        sender.tasks[id] is Sending,
        handles(sender, receiver_addr, Message::Missing(nr), sender_post, sender_acts),
    ensures
        receiver.tasks[id] is Receiving,
        sender_acts.len() == 2,
        sender_acts[0] matches Action::SendChunks { to, id: file, indices }
            && to == sender.tasks[id]->Sending_remote && file == id
            && indices@ == receiver.tasks[id]->Receiving_missing,
        sender_acts[1] == (Action::Send { to: sender.tasks[id]->Sending_remote, message: Message::FileDone(id) }),
{
}

/// The chunks a sender sends after an accept are exactly those its
/// receiver starts out missing: a receiver that takes the sender's offer
/// accepts it back to the sender, and the accept makes the sender send the
/// chunks `0 .. n` of the file, where `n` is the number of chunks that the
/// receiver waits for.
pub proof fn lemma_send_what_is_awaited(
    sender: NodeState,
    receiver_addr: PeerAddr,
    offer: Action,
    id: u128,
    receiver: NodeState,
    sender_addr: PeerAddr,
    receiver_post: NodeState,
    receiver_acts: Seq<Action>,
    sender_post: NodeState,
    sender_acts: Seq<Action>,
)
    requires
        is_offer_to(sender, receiver_addr, offer, id),
        handles(receiver, sender_addr, offer->Send_message, receiver_post, receiver_acts),
        handles(sender, receiver_addr, Message::FileAccept(id), sender_post, sender_acts),
    ensures
        receiver_acts[1] == (Action::Send { to: sender_addr, message: Message::FileAccept(id) }),
        receiver_post.tasks[id] is Receiving,
        sender_acts.len() == 2,
        sender_acts[0] matches Action::SendAllChunks { to, id: file, count }
            && to == receiver_addr && file == id
            && chunk_indices(count as nat) == receiver_post.tasks[id]->Receiving_missing,
        sender_acts[1] == (Action::Send { to: receiver_addr, message: Message::FileDone(id) }),
{
    let size = sender.tasks[id]->Sending_size;
    let n = chunk_count_spec(size as nat);
    lemma_chunk_count_bound(size, 0);
    assert((n as u64) as nat == n);
}

/// A node learns its own address from the echo server: the server answers a
/// request with the address under which the request reached it, and the
/// node keeps that address as its own.
pub proof fn lemma_learns_own_address(
    server: NodeState,
    node_addr: PeerAddr,
    request: Vec<u8>,
    server_post: NodeState,
    server_acts: Seq<Action>,
    node: NodeState,
    server_addr: PeerAddr,
    node_post: NodeState,
    node_acts: Seq<Action>,
)
    requires
        handles(server, node_addr, Message::WhoAmI(request), server_post, server_acts),
        handles(node, server_addr, server_acts[0]->Send_message, node_post, node_acts),
    ensures
        server_post == server,
        server_acts.len() == 1,
        server_acts[0]->Send_to == node_addr,
        node_post.self_addr == Some(node_addr),
        node_post.tasks == node.tasks,
{
}

/// The address a node is told is reported once: told the same address
/// again, the node does nothing.
pub proof fn lemma_same_address_is_quiet(
    s0: NodeState,
    a: PeerAddr,
    from1: PeerAddr,
    s1: NodeState,
    acts1: Seq<Action>,
    from2: PeerAddr,
    s2: NodeState,
    acts2: Seq<Action>,
)
    requires
        handles(s0, from1, Message::SelfAddress(a), s1, acts1),
        handles(s1, from2, Message::SelfAddress(a), s2, acts2),
    ensures
        s2 == s1,
        acts2.len() == 0,
        acts1.len() <= 1,
{
}

/// A tunnel opens through the echo server: a sender's request to reach a
/// receiver, forwarded by the server to the receiver and by the receiver
/// back to the sender, makes the sender offer the receiver every file it
/// sends to it.
pub proof fn lemma_tunnel_brings_offers(
    sender_addr: PeerAddr,
    server: NodeState,
    server_addr: PeerAddr,
    receiver: NodeState,
    receiver_addr: PeerAddr,
    server_post: NodeState,
    server_acts: Seq<Action>,
    receiver_post: NodeState,
    receiver_acts: Seq<Action>,
    sender: NodeState,
    sender_post: NodeState,
    sender_acts: Seq<Action>,
)
    requires
        server.role != Role::Send,
        receiver.role != Role::Send,
        sender.role == Role::Send,
        handles(server, sender_addr, Message::Tunnel(Some(receiver_addr)), server_post, server_acts),
        handles(receiver, server_addr, server_acts[0]->Send_message, receiver_post, receiver_acts),
        handles(sender, receiver_addr, Message::Tunnel(None), sender_post, sender_acts),
    ensures
        server_acts.len() == 1,
        server_acts[0]->Send_to == receiver_addr,
        receiver_acts.len() == 1,
        receiver_acts[0]->Send_to == sender_addr,
        receiver_acts[0]->Send_message == Message::Tunnel(Some(server_addr)),
        offers_all(sender, receiver_addr, sender_acts),
        sender_post == sender,
{
}

/// Sending the list of all chunks of a file sends what sending the whole
/// file sends: the same datagrams, in the same order, to the same peer.
pub proof fn lemma_all_chunks_as_list(whole: Action, listed: Action, file: Seq<u8>)
    requires
        whole matches Action::SendAllChunks { to, id, count } && (listed matches Action::SendChunks {
            to: to2,
            id: id2,
            indices,
        } && to2 == to && id2 == id && indices@ == chunk_indices(count as nat)),
    ensures
        datagrams_of(listed, file) == datagrams_of(whole, file),
{
    assert(datagrams_of(listed, file) =~= datagrams_of(whole, file));
}

/// A sender asked for every chunk of a file sends exactly what it sent when
/// the file was accepted: the same chunk datagrams, in the same order, to
/// the same peer, then the end of the transfer.
pub proof fn lemma_full_resend_is_first_send(
    sender: NodeState,
    id: u128,
    accept_from: PeerAddr,
    accept_post: NodeState,
    accept_acts: Seq<Action>,
    nr: NotReceived,
    missing_from: PeerAddr,
    missing_post: NodeState,
    missing_acts: Seq<Action>,
    file: Seq<u8>,
)
    requires
        sender.tasks.contains_key(id),
        sender.tasks[id] is Sending,
        nr.id == id,
        nr.not_received@ == chunk_indices(chunk_count_spec(sender.tasks[id]->Sending_size as nat)),
        handles(sender, accept_from, Message::FileAccept(id), accept_post, accept_acts),
        handles(sender, missing_from, Message::Missing(nr), missing_post, missing_acts),
    ensures
        datagrams(missing_acts, file) == datagrams(accept_acts, file),
{
    let size = sender.tasks[id]->Sending_size;
    lemma_chunk_count_bound(size, 0);
    let n = chunk_count_spec(size as nat);
    assert((n as u64) as nat == n);
    lemma_all_chunks_as_list(accept_acts[0], missing_acts[0], file);
    assert(missing_acts[1] == accept_acts[1]);
    assert(accept_acts.drop_last().drop_last() =~= Seq::<Action>::empty());
    assert(missing_acts.drop_last().drop_last() =~= Seq::<Action>::empty());
    assert(accept_acts.drop_last() =~= seq![accept_acts[0]]);
    assert(missing_acts.drop_last() =~= seq![missing_acts[0]]);
    assert(datagrams(accept_acts.drop_last(), file) == datagrams_of(accept_acts[0], file)) by {
        assert(datagrams(accept_acts.drop_last(), file) == datagrams(accept_acts.drop_last().drop_last(), file)
            + datagrams_of(accept_acts[0], file));
        assert(datagrams(Seq::<Action>::empty(), file) =~= Seq::<Datagram>::empty());
        assert(Seq::<Datagram>::empty() + datagrams_of(accept_acts[0], file) =~= datagrams_of(accept_acts[0], file));
    }
    assert(datagrams(missing_acts.drop_last(), file) == datagrams_of(missing_acts[0], file)) by {
        assert(datagrams(missing_acts.drop_last(), file) == datagrams(missing_acts.drop_last().drop_last(), file)
            + datagrams_of(missing_acts[0], file));
        assert(datagrams(Seq::<Action>::empty(), file) =~= Seq::<Datagram>::empty());
        assert(Seq::<Datagram>::empty() + datagrams_of(missing_acts[0], file) =~= datagrams_of(missing_acts[0], file));
    }
    assert(datagrams(accept_acts, file) == datagrams(accept_acts.drop_last(), file) + datagrams_of(accept_acts[1], file));
    assert(datagrams(missing_acts, file) == datagrams(missing_acts.drop_last(), file) + datagrams_of(missing_acts[1], file));
}

/// Whether byte `b` of a file lies in chunk `index`.
pub open spec fn in_chunk(b: int, index: u64) -> bool {
    chunk_offset_spec(index as nat) <= b < chunk_offset_spec(index as nat) + CHUNK_SIZE
}

/// Along a run of chunks of one file, each chunk is one the receiver still
/// missed, and so one of the chunks `0 .. n` of the file.
proof fn lemma_run_chunk_in_file(
    states: Seq<NodeState>,
    senders: Seq<PeerAddr>,
    chunks: Seq<FileSend>,
    acts: Seq<Seq<Action>>,
    id: u128,
    n: nat,
    i: int,
)
    requires
        states.len() == chunks.len() + 1,
        senders.len() == chunks.len(),
        acts.len() == chunks.len(),
        state_wf(states[0]),
        states[0].tasks.contains_key(id),
        states[0].tasks[id] is Receiving,
        states[0].tasks[id]->Receiving_missing == chunk_indices(n),
        n <= MAX_CHUNK_INDEX + 1,
        forall|i: int| 0 <= i < chunks.len() ==> (#[trigger] chunks[i]).id == id,
        forall|i: int|
            0 <= i < chunks.len() ==> accepts(states[i], Message::Chunk(#[trigger] chunks[i])),
        forall|i: int|
            0 <= i < chunks.len() ==> handles(
                states[i],
                senders[i],
                Message::Chunk(#[trigger] chunks[i]),
                states[i + 1],
                acts[i],
            ),
        0 <= i < chunks.len(),
    ensures
        states[i].tasks.contains_key(id),
        states[i].tasks[id] is Receiving,
        chunks[i].index < n,
{
    lemma_chunk_indices_wf(n);
    let st = states.take(i + 1);
    let se = senders.take(i);
    let ch = chunks.take(i);
    let ac = acts.take(i);
    assert forall|j: int| 0 <= j < ch.len() implies handles(
        st[j],
        se[j],
        Message::Chunk(#[trigger] ch[j]),
        st[j + 1],
        ac[j],
    ) by {
        assert(ch[j] == chunks[j]);
    }
    assert forall|j: int| 0 <= j < ch.len() implies accepts(st[j], Message::Chunk(#[trigger] ch[j])) by {
        assert(ch[j] == chunks[j]);
    }
    assert forall|j: int| 0 <= j < ch.len() implies (#[trigger] ch[j]).id == id by {
        assert(ch[j] == chunks[j]);
    }
    lemma_chunks_cross_off(st, se, ch, ac, id);
    assert(st.last() == states[i]);
    let arrived = ch.map_values(|c: FileSend| c.index);
    lemma_after_arrivals(chunk_indices(n), arrived);
    assert(accepts(states[i], Message::Chunk(chunks[i])));
    assert(after_arrivals(chunk_indices(n), arrived).contains(chunks[i].index));
}

/// Whether `a` writes chunk `c` at its offset in the file.
pub open spec fn writes_chunk(a: Action, c: FileSend) -> bool {
    match a {
        Action::WriteChunk { offset, data, .. } => offset == chunk_offset_spec(c.index as nat) && data@ == c.buf@,
        _ => false,
    }
}

/// Whether the actions `step` are the one write of chunk `c`.
pub open spec fn writes_step(step: Seq<Action>, c: FileSend) -> bool {
    step.len() == 1 && writes_chunk(step[0], c)
}

/// The writes of the first `k` chunks of a run put each chunk's bytes where
/// they belong and reach no further than the file.
proof fn lemma_rebuild_prefix(content: Seq<u8>, chunks: Seq<FileSend>, steps: Seq<Seq<Action>>, k: int)
    requires
        0 <= k <= chunks.len(),
        steps.len() == chunks.len(),
        forall|i: int|
            0 <= i < chunks.len() ==> chunk_offset_spec((#[trigger] chunks[i]).index as nat) < content.len(),
        forall|i: int|
            0 <= i < chunks.len() ==> (#[trigger] chunks[i]).buf@ == chunk_bytes(content, chunks[i].index as nat),
        forall|i: int|
            0 <= i < chunks.len() ==> writes_step(steps[i], #[trigger] chunks[i]),
    ensures
        apply_steps(Seq::empty(), steps.take(k)).len() <= content.len(),
        forall|j: int|
            0 <= j < k ==> chunk_offset_spec((#[trigger] chunks[j]).index as nat) + chunks[j].buf@.len()
                <= apply_steps(Seq::empty(), steps.take(k)).len(),
        forall|j: int, b: int|
            0 <= j < k && #[trigger] in_chunk(b, chunks[j].index) && 0 <= b < content.len()
                ==> apply_steps(Seq::empty(), steps.take(k))[b] == content[b],
    decreases k,
{
    if k > 0 {
        let k1 = k - 1;
        lemma_rebuild_prefix(content, chunks, steps, k1);
        let w = apply_steps(Seq::empty(), steps.take(k1));
        assert(steps.take(k).drop_last() =~= steps.take(k1));
        assert(steps.take(k).last() == steps[k1]);
        let c = chunks[k1];
        let step = steps[k1];
        assert(writes_step(step, c));
        assert(step.drop_last() =~= Seq::<Action>::empty());
        assert(apply_writes(w, step.drop_last()) == w);
        let off = chunk_offset_spec(c.index as nat);
        let d = c.buf@;
        assert(off < content.len());
        let w2 = write_at(w, off, d);
        assert(apply_steps(Seq::empty(), steps.take(k)) == w2);
        assert(off + d.len() <= content.len());
        assert forall|j: int|
            0 <= j < k implies chunk_offset_spec((#[trigger] chunks[j]).index as nat) + chunks[j].buf@.len()
                <= w2.len() by {
        }
        assert forall|j: int, b: int|
            0 <= j < k && #[trigger] in_chunk(b, chunks[j].index) && 0 <= b < content.len()
                implies w2[b] == content[b] by {
            if off <= b < off + d.len() {
                assert(w2[b] == d[b - off]);
            } else {
                let cj = chunks[j];
                let oj = chunk_offset_spec(cj.index as nat);
                assert(b < oj + cj.buf@.len());
                if j == k1 {
                    assert(false);
                } else {
                    assert(b < w.len());
                    assert(w2[b] == w[b]);
                }
            }
        }
    }
}

/// The writes of a complete transfer rebuild the file: a receiver that
/// accepted a file of `content.len()` bytes and then took every chunk of
/// it once, each with the file's bytes for that chunk, in any order, writes into an empty file exactly `content`.
pub proof fn lemma_transfer_rebuilds_file(
    states: Seq<NodeState>,
    senders: Seq<PeerAddr>,
    chunks: Seq<FileSend>,
    acts: Seq<Seq<Action>>,
    id: u128,
    content: Seq<u8>,
)
    requires
        content.len() <= u64::MAX,
        states.len() == chunks.len() + 1,
        senders.len() == chunks.len(),
        acts.len() == chunks.len(),
        state_wf(states[0]),
        states[0].tasks.contains_key(id),
        states[0].tasks[id] is Receiving,
        states[0].tasks[id]->Receiving_missing == chunk_indices(chunk_count_spec(content.len())),
        forall|i: int| 0 <= i < chunks.len() ==> (#[trigger] chunks[i]).id == id,
        forall|i: int|
            0 <= i < chunks.len() ==> (#[trigger] chunks[i]).buf@ == chunk_bytes(content, chunks[i].index as nat),
        distinct_chunks_within(chunks, chunk_count_spec(content.len())),
        forall|i: int|
            0 <= i < chunks.len() ==> handles(
                states[i],
                senders[i],
                Message::Chunk(#[trigger] chunks[i]),
                states[i + 1],
                acts[i],
            ),
        forall|x: u64| x < chunk_count_spec(content.len()) ==> #[trigger] has_arrived(chunks, x),
    ensures
        apply_steps(Seq::empty(), acts) == content,
{
    let len = content.len();
    let n = chunk_count_spec(len);
    lemma_chunk_count_bound(len as u64, 0);
    lemma_distinct_chunks_accepted(states, senders, chunks, acts, id, n);
    assert forall|i: int| 0 <= i < chunks.len() implies {
        &&& chunk_offset_spec((#[trigger] chunks[i]).index as nat) < content.len()
        &&& writes_step(acts[i], chunks[i])
    } by {
        assert(handles(states[i], senders[i], Message::Chunk(chunks[i]), states[i + 1], acts[i]));
        lemma_run_chunk_in_file(states, senders, chunks, acts, id, n, i);
        lemma_chunk_count_bound(len as u64, chunks[i].index as nat);
    }
    lemma_rebuild_prefix(content, chunks, acts, chunks.len() as int);
    assert(acts.take(chunks.len() as int) =~= acts);
    let w = apply_steps(Seq::empty(), acts);
    assert forall|b: int| 0 <= b < len implies w[b] == content[b] by {
        let x = (b / 1024) as u64;
        lemma_byte_in_one_chunk(len, b as nat, x as nat);
        assert(has_arrived(chunks, x));
        let j = choose|j: int| 0 <= j < chunks.len() && (#[trigger] chunks[j]).index == x;
        assert(in_chunk(b, chunks[j].index));
    }
    if len > 0 {
        let b = len - 1;
        let x = (b / 1024) as u64;
        lemma_byte_in_one_chunk(len, b as nat, x as nat);
        assert(has_arrived(chunks, x));
        let j = choose|j: int| 0 <= j < chunks.len() && (#[trigger] chunks[j]).index == x;
        assert(chunk_offset_spec(chunks[j].index as nat) + chunks[j].buf@.len() == len);
    }
    assert(w =~= content);
}

} // verus!
