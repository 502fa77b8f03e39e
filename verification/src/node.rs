//! The decisions of a node: for every message it receives, how its state
//! changes and which actions (datagrams to send, file operations) follow.
use vstd::prelude::*;
use vstd::slice::slice_to_vec;
use std::collections::HashMap;
use vstd::utf8::valid_utf8;
use crate::addr::PeerAddr;
use crate::file_id::new_file_id;
use crate::chunk::{chunk_count, chunk_count_spec, chunk_offset, chunk_offset_spec, MAX_CHUNK_INDEX};
use crate::protocol::{FileInfo, FileSend, Message, NotReceived, Role};
use crate::task::{
    chunk_indices, lemma_remove_missing, missing_wf, ReceiveFileTask, SendFileTask, Task, TaskView,
};

verus! {

broadcast use vstd::std_specs::hash::group_hash_axioms;

/// What the surrounding program is to do after a node took a decision.
#[derive(Debug, PartialEq, Eq)]
pub enum Action {
    /// Send `message` to `to`.
    Send { to: PeerAddr, message: Message },
    /// Read the chunks `0 .. count` of file `id` and send each to `to`.
    SendAllChunks { to: PeerAddr, id: u128, count: u64 },
    /// Read the chunks `indices` of file `id`, in that order, and send each
    /// to `to`.
    SendChunks { to: PeerAddr, id: u128, indices: Vec<u64> },
    /// Write `data` into file `id` at byte `offset`.
    WriteChunk { id: u128, offset: u64, data: Vec<u8> },
    /// Create the file `name` that receives file `id`.
    CreateFile { id: u128, name: Vec<u8> },
    /// Flush the file that received file `id`: it is complete.
    Flush { id: u128 },
    /// The node learnt a new address of its own.
    NewSelfAddress(PeerAddr),
}

/// Whether `bytes` are UTF-8, as `std::str::from_utf8` decides it: the
/// call succeeds exactly on valid UTF-8 (no overlong encoding, no
/// surrogate, nothing above U+10FFFF), which is `valid_utf8`.
#[verifier::external_body]
fn is_utf8(bytes: &[u8]) -> (b: bool)
    ensures
        b == valid_utf8(bytes@),
{
    std::str::from_utf8(bytes).is_ok()
}

/// The state of a node as a mathematical value.
#[verifier::ext_equal]
pub struct NodeState {
    pub role: Role,
    pub self_addr: Option<PeerAddr>,
    pub tasks: Map<u128, TaskView>,
}

/// A transfer whose missing list, if it has one, is well formed.
pub open spec fn task_view_wf(t: TaskView) -> bool {
    t matches TaskView::Receiving { missing, .. } ==> missing_wf(missing)
}

/// Every transfer of the node is well formed.
pub open spec fn state_wf(s: NodeState) -> bool {
    forall|id: u128| #[trigger] s.tasks.contains_key(id) ==> task_view_wf(s.tasks[id])
}

/// Whether file `id` is one that the node sends to `to`.
pub open spec fn sends_to(s: NodeState, id: u128, to: PeerAddr) -> bool {
    &&& s.tasks.contains_key(id)
    &&& s.tasks[id] matches TaskView::Sending { remote, .. } && remote == to
}

/// The file id that action `a` offers, if it is an offer.
pub open spec fn offer_id(a: Action) -> u128 {
    match a {
        Action::Send { message: Message::FileOffer(info), .. } => info.id,
        _ => 0,
    }
}

/// Whether `a` sends to `to` the offer of file `id`, with the name and size
/// under which the node sends that file to `to`.
pub open spec fn is_offer_to(s: NodeState, to: PeerAddr, a: Action, id: u128) -> bool {
    match a {
        Action::Send { to: t, message: Message::FileOffer(info) } => {
            &&& t == to
            &&& info.id == id
            &&& s.tasks.contains_key(id)
            &&& match s.tasks[id] {
                TaskView::Sending { filename, size, remote } => {
                    remote == to && info.filename@ == filename && info.size == size
                },
                _ => false,
            }
        },
        _ => false,
    }
}

/// `acts` offers to `to`, once each and in some order, every file that the
/// node sends to `to`, and nothing else.
pub open spec fn offers_all(s: NodeState, to: PeerAddr, acts: Seq<Action>) -> bool {
    &&& forall|i: int| 0 <= i < acts.len() ==> is_offer_to(s, to, #[trigger] acts[i], offer_id(acts[i]))
    &&& forall|i: int, j: int|
        0 <= i < j < acts.len() ==> offer_id(#[trigger] acts[i]) != offer_id(#[trigger] acts[j])
    &&& forall|id: u128|
        #[trigger] sends_to(s, id, to) ==> exists|i: int| 0 <= i < acts.len() && offer_id(#[trigger] acts[i]) == id
}

/// The messages a node in state `s` can take: those for which the node does
/// not stop. A chunk, the end of a transfer, an accept and a list of missing
/// chunks must name a file the node knows; a chunk of a file being received
/// must be one that is still missing; a node that is not a sender must have
/// read an address from a tunnel message; an offered file must have a name
/// in UTF-8 and a number of chunks that fits in memory.
pub open spec fn accepts(s: NodeState, m: Message) -> bool {
    match m {
        Message::Chunk(fs) => {
            &&& s.tasks.contains_key(fs.id)
            &&& s.tasks[fs.id] matches TaskView::Receiving { missing, .. } ==> missing.contains(fs.index)
        },
        Message::Tunnel(t) => s.role != Role::Send ==> t is Some,
        Message::FileDone(id) => s.tasks.contains_key(id),
        Message::FileOffer(info) => {
            &&& valid_utf8(info.filename@)
            &&& chunk_count_spec(info.size as nat) <= usize::MAX
        },
        Message::FileAccept(id) => s.tasks.contains_key(id),
        Message::Missing(nr) => s.tasks.contains_key(nr.id),
        _ => true,
    }
}

/// The protocol: a node in state `pre` that receives message `m` from
/// `from` moves to state `post` and asks for the actions `acts`.
///
/// - Its own address: it is kept; it is reported when it changed.
/// - A chunk of a file being received: the chunk is crossed off the missing
///   list and written at its offset; a chunk of a file being sent is ignored.
/// - A request for one's address: the sender's address goes back to it.
/// - A tunnel message: a sender offers every file it sends to that peer; any
///   other node forwards the request, with the requester's address, to the
///   peer it names.
/// - The end of a transfer: a receiver whose file lacks no chunk flushes
///   it; otherwise it answers with the list of missing chunks.
/// - An offer: the node starts receiving the file from the offerer, with
///   every chunk missing, creates the file and accepts it.
/// - An accept: the sender sends every chunk of the file, then the end.
/// - A list of missing chunks: the sender sends those chunks, then the end.
/// - An unknown command: nothing happens.
pub open spec fn handles(
    pre: NodeState,
    from: PeerAddr,
    m: Message,
    post: NodeState,
    acts: Seq<Action>,
) -> bool {
    match m {
        Message::SelfAddress(a) => {
            &&& post == NodeState { role: pre.role, self_addr: Some(a), tasks: pre.tasks }
            &&& acts == if pre.self_addr == Some(a) {
                Seq::<Action>::empty()
            } else {
                seq![Action::NewSelfAddress(a)]
            }
        },
        Message::Chunk(fs) => match pre.tasks[fs.id] {
            TaskView::Receiving { from: owner, missing } => {
                &&& post == NodeState {
                    role: pre.role,
                    self_addr: pre.self_addr,
                    tasks: pre.tasks.insert(
                        fs.id,
                        TaskView::Receiving { from: owner, missing: missing.remove_value(fs.index) },
                    ),
                }
                &&& acts.len() == 1
                &&& acts[0] matches Action::WriteChunk { id, offset, data } && id == fs.id
                    && offset == chunk_offset_spec(fs.index as nat) && data@ == fs.buf@
            },
            TaskView::Sending { .. } => post == pre && acts.len() == 0,
        },
        Message::WhoAmI(_) => {
            &&& post == pre
            &&& acts == seq![Action::Send { to: from, message: Message::SelfAddress(from) }]
        },
        Message::Tunnel(t) => {
            &&& post == pre
            &&& if pre.role == Role::Send {
                offers_all(pre, from, acts)
            } else {
                acts == seq![Action::Send { to: t.unwrap(), message: Message::Tunnel(Some(from)) }]
            }
        },
        Message::FileDone(id) => {
            &&& post == pre
            &&& match pre.tasks[id] {
                TaskView::Receiving { missing, .. } => if missing.len() == 0 {
                    acts == seq![Action::Flush { id }]
                } else {
                    &&& acts.len() == 1
                    &&& acts[0] matches Action::Send { to, message: Message::Missing(nr) } && to == from
                        && nr.id == id && nr.not_received@ == missing
                },
                TaskView::Sending { .. } => acts.len() == 0,
            }
        },
        Message::FileOffer(info) => {
            &&& post == NodeState {
                role: pre.role,
                self_addr: pre.self_addr,
                tasks: pre.tasks.insert(
                    info.id,
                    TaskView::Receiving {
                        from,
                        missing: chunk_indices(chunk_count_spec(info.size as nat)),
                    },
                ),
            }
            &&& acts.len() == 2
            &&& acts[0] matches Action::CreateFile { id, name } && id == info.id && name@ == info.filename@
            &&& acts[1] == Action::Send { to: from, message: Message::FileAccept(info.id) }
        },
        Message::FileAccept(id) => {
            &&& post == pre
            &&& match pre.tasks[id] {
                TaskView::Sending { size, remote, .. } => acts == seq![
                    Action::SendAllChunks { to: remote, id, count: chunk_count_spec(size as nat) as u64 },
                    Action::Send { to: remote, message: Message::FileDone(id) },
                ],
                TaskView::Receiving { .. } => acts.len() == 0,
            }
        },
        Message::Missing(nr) => {
            &&& post == pre
            &&& match pre.tasks[nr.id] {
                TaskView::Sending { remote, .. } => {
                    &&& acts.len() == 2
                    &&& acts[0] matches Action::SendChunks { to, id, indices } && to == remote
                        && id == nr.id && indices@ == nr.not_received@
                    &&& acts[1] == Action::Send { to: remote, message: Message::FileDone(nr.id) }
                },
                TaskView::Receiving { .. } => acts.len() == 0,
            }
        },
        Message::Unknown(_) => post == pre && acts.len() == 0,
    }
}

/// A node: its role, the address under which it was last told it is seen,
/// and its transfers by file id.
pub struct Node {
    role: Role,
    self_addr: Option<PeerAddr>,
    tasks: HashMap<u128, Task>,
}

impl View for Node {
    type V = NodeState;

    closed spec fn view(&self) -> NodeState {
        NodeState {
            role: self.role,
            self_addr: self.self_addr,
            tasks: self.tasks@.map_values(|t: Task| t@),
        }
    }
}

impl Node {
    #[verifier::type_invariant]
    closed spec fn inv(self) -> bool {
        forall|id: u128| #[trigger] self.tasks@.contains_key(id) ==> task_view_wf(self.tasks@[id]@)
    }

    /// A node of role `role` that knows no address of its own and no
    /// transfer.
    pub fn new(role: Role) -> (n: Node)
        ensures
            n@ == (NodeState { role, self_addr: None, tasks: Map::empty() }),
            state_wf(n@),
    {
        let n = Node { role, self_addr: None, tasks: HashMap::new() };
        assert(n@.tasks =~= Map::<u128, TaskView>::empty());
        n
    }

    /// The role of the node.
    pub fn role(&self) -> (r: Role)
        ensures
            r == self@.role,
    {
        self.role
    }

    /// The node's own address, as it was last told.
    pub fn self_addr(&self) -> (a: Option<PeerAddr>)
        ensures
            a == self@.self_addr,
    {
        self.self_addr
    }

    /// The transfer of file `id`, if the node has one.
    pub fn task(&self, id: u128) -> (t: Option<&Task>)
        ensures
            match t {
                Some(t) => self@.tasks.contains_key(id) && self@.tasks[id] == t@,
                None => !self@.tasks.contains_key(id),
            },
    {
        self.tasks.get(&id)
    }

    /// Registers file `id` as one the node sends.
    pub fn add_send_task(&mut self, id: u128, task: SendFileTask)
        ensures
            final(self)@ == (NodeState {
                role: old(self)@.role,
                self_addr: old(self)@.self_addr,
                tasks: old(self)@.tasks.insert(id, Task::SendFile(task)@),
            }),
            state_wf(final(self)@),
    {
        proof { use_type_invariant(&*self); }
        let ghost t = Task::SendFile(task)@;
        let mut tasks = self.take_tasks();
        tasks.insert(id, Task::SendFile(task));
        self.tasks = tasks;
        assert(self@.tasks =~= old(self)@.tasks.insert(id, t));
        proof { self.lemma_view_wf(); }
    }

    /// Takes message `m` from `from`: moves the node to its next state and
    /// returns the actions that follow, as `handles` states.
    pub fn step(&mut self, from: PeerAddr, m: Message) -> (acts: Vec<Action>)
        requires
            accepts(old(self)@, m),
        ensures
            handles(old(self)@, from, m, final(self)@, acts@),
            state_wf(final(self)@),
    {
        proof { use_type_invariant(&*self); }
        let acts = match m {
            Message::SelfAddress(a) => {
                let same = match self.self_addr {
                    Some(s) => s == a,
                    None => false,
                };
                self.self_addr = Some(a);
                if same {
                    let v: Vec<Action> = Vec::new();
                    assert(v@ =~= Seq::<Action>::empty());
                    v
                } else {
                    let v = vec![Action::NewSelfAddress(a)];
                    assert(v@ =~= seq![Action::NewSelfAddress(a)]);
                    v
                }
            },
            Message::Chunk(fs) => self.take_chunk(from, fs),
            Message::WhoAmI(_) => {
                let v = vec![Action::Send { to: from, message: Message::SelfAddress(from) }];
                assert(v@ =~= seq![Action::Send { to: from, message: Message::SelfAddress(from) }]);
                v
            },
            Message::Tunnel(t) => match self.role {
                Role::Send => self.send_file_for_remote_addr(from),
                _ => match t {
                    Some(peer) => {
                        let v = vec![Action::Send { to: peer, message: Message::Tunnel(Some(from)) }];
                        assert(v@ =~= seq![Action::Send { to: peer, message: Message::Tunnel(Some(from)) }]);
                        v
                    },
                    None => Vec::new(),
                },
            },
            Message::FileDone(id) => match self.tasks.get(&id) {
                Some(Task::ReceiveFile(rt)) => {
                    if rt.is_complete() {
                        let v = vec![Action::Flush { id }];
                        assert(v@ =~= seq![Action::Flush { id }]);
                        v
                    } else {
                        let not_received = slice_to_vec(rt.received.as_slice());
                        vec![Action::Send { to: from, message: Message::Missing(NotReceived { id, not_received }) }]
                    }
                },
                _ => Vec::new(),
            },
            Message::FileOffer(info) => self.take_offer(from, info),
            Message::FileAccept(id) => self.send_file(id),
            Message::Missing(nr) => self.send_not_received(nr),
            Message::Unknown(_) => Vec::new(),
        };
        proof {
            use_type_invariant(&*self);
            self.lemma_view_wf();
        }
        acts
    }

    /// A chunk arrives: a receiver crosses it off and writes it; a sender
    /// ignores it.
    fn take_chunk(&mut self, from: PeerAddr, fs: FileSend) -> (acts: Vec<Action>)
        requires
            accepts(old(self)@, Message::Chunk(fs)),
        ensures
            handles(old(self)@, from, Message::Chunk(fs), final(self)@, acts@),
    {
        let ghost pre = self@;
        let FileSend { id, index, buf } = fs;
        let mut tasks = self.take_tasks();
        assert(pre.tasks[id] == tasks@[id]@);
        let t = tasks.remove(&id);
        match t {
            Some(Task::ReceiveFile(mut rt)) => {
                let ghost old_missing = rt.received@;
                let ghost owner = rt.from_addr;
                proof {
                    lemma_remove_missing(old_missing, index);
                    assert(missing_wf(old_missing));
                    assert(index <= MAX_CHUNK_INDEX) by {
                        let k = old_missing.index_of(index);
                        assert(old_missing[k] <= MAX_CHUNK_INDEX);
                    }
                }
                let offset = chunk_offset(index);
                rt.mark_received(index);
                tasks.insert(id, Task::ReceiveFile(rt));
                self.tasks = tasks;
                assert(self@.tasks =~= pre.tasks.insert(
                    id,
                    TaskView::Receiving { from: owner, missing: old_missing.remove_value(index) },
                ));
                vec![Action::WriteChunk { id, offset, data: buf }]
            },
            Some(Task::SendFile(st)) => {
                tasks.insert(id, Task::SendFile(st));
                self.tasks = tasks;
                assert(self@.tasks =~= pre.tasks);
                Vec::new()
            },
            None => {
                self.tasks = tasks;
                Vec::new()
            },
        }
    }

    /// A file is offered: the node starts receiving it with every chunk
    /// missing, creates it and accepts it.
    fn take_offer(&mut self, from: PeerAddr, info: FileInfo) -> (acts: Vec<Action>)
        requires
            accepts(old(self)@, Message::FileOffer(info)),
        ensures
            handles(old(self)@, from, Message::FileOffer(info), final(self)@, acts@),
    {
        let ghost pre = self@;
        let FileInfo { id, filename, size } = info;
        let rt = ReceiveFileTask::new(from, size);
        let ghost tv = TaskView::Receiving { from, missing: rt.received@ };
        let mut tasks = self.take_tasks();
        tasks.insert(id, Task::ReceiveFile(rt));
        self.tasks = tasks;
        assert(self@.tasks =~= pre.tasks.insert(id, tv));
        vec![Action::CreateFile { id, name: filename }, Action::Send { to: from, message: Message::FileAccept(id) }]
    }

    /// The ids of all transfers, each once, in the order the table is walked.
    fn task_ids(&self) -> (ids: Vec<u128>)
        ensures
            forall|id: u128| self.tasks@.contains_key(id) <==> ids@.contains(id),
            ids@.no_duplicates(),
    {
        let mut ids: Vec<u128> = Vec::new();
        for k in it: self.tasks.keys()
            invariant
                ids@.len() == it.index(),
                forall|i: int| 0 <= i < it.index() ==> ids@[i] == *it.seq()[i],
                it.seq().unref().to_set() == self.tasks@.dom(),
                it.seq().no_duplicates(),
                forall|i: int| 0 <= i < ids@.len() ==> self.tasks@.contains_key(ids@[i]),
        {
            assert(it.seq().unref().to_set().contains(*k));
            ids.push(*k);
        }
        ids
    }

    /// The offer of file `file_id`, sent to the peer the file is for; `None`
    /// where the node receives that file rather than sends it.
    pub fn send_file_info(&self, file_id: u128) -> (a: Option<Action>)
        requires
            self@.tasks.contains_key(file_id),
        ensures
            match self@.tasks[file_id] {
                TaskView::Sending { remote, .. } => a matches Some(act) && is_offer_to(self@, remote, act, file_id),
                TaskView::Receiving { .. } => a is None,
            },
    {
        match self.tasks.get(&file_id) {
            Some(Task::SendFile(task)) => {
                let fi = FileInfo {
                    filename: slice_to_vec(task.filename.as_slice()),
                    id: file_id,
                    size: task.size,
                };
                Some(Action::Send { to: task.remote_addr, message: Message::FileOffer(fi) })
            },
            _ => None,
        }
    }

    /// What a sender does when file `file_id` is accepted: it sends every
    /// chunk of the file to the peer the file is for, then the end of the
    /// transfer. A receiver does nothing.
    pub fn send_file(&self, file_id: u128) -> (acts: Vec<Action>)
        requires
            self@.tasks.contains_key(file_id),
        ensures
            match self@.tasks[file_id] {
                TaskView::Sending { size, remote, .. } => acts@ == seq![
                    Action::SendAllChunks { to: remote, id: file_id, count: chunk_count_spec(size as nat) as u64 },
                    Action::Send { to: remote, message: Message::FileDone(file_id) },
                ],
                TaskView::Receiving { .. } => acts@.len() == 0,
            },
    {
        match self.tasks.get(&file_id) {
            Some(Task::SendFile(task)) => {
                let l = chunk_count(task.size);
                let v = vec![
                    Action::SendAllChunks { to: task.remote_addr, id: file_id, count: l },
                    Action::Send { to: task.remote_addr, message: Message::FileDone(file_id) },
                ];
                assert(v@ =~= seq![
                    Action::SendAllChunks { to: task.remote_addr, id: file_id, count: l },
                    Action::Send { to: task.remote_addr, message: Message::FileDone(file_id) },
                ]);
                v
            },
            _ => Vec::new(),
        }
    }

    /// What a sender does with the list of chunks its receiver misses: it
    /// sends those chunks, in that order, to the peer the file is for, then
    /// the end of the transfer. A receiver does nothing.
    pub fn send_not_received(&self, not_received: NotReceived) -> (acts: Vec<Action>)
        requires
            self@.tasks.contains_key(not_received.id),
        ensures
            match self@.tasks[not_received.id] {
                TaskView::Sending { remote, .. } => {
                    &&& acts@.len() == 2
                    &&& acts@[0] matches Action::SendChunks { to, id, indices } && to == remote
                        && id == not_received.id && indices@ == not_received.not_received@
                    &&& acts@[1] == Action::Send { to: remote, message: Message::FileDone(not_received.id) }
                },
                TaskView::Receiving { .. } => acts@.len() == 0,
            },
    {
        let NotReceived { id, not_received } = not_received;
        match self.tasks.get(&id) {
            Some(Task::SendFile(task)) => vec![
                Action::SendChunks { to: task.remote_addr, id, indices: not_received },
                Action::Send { to: task.remote_addr, message: Message::FileDone(id) },
            ],
            _ => Vec::new(),
        }
    }

    /// The offers that a sender makes to `remote_addr` once the tunnel to it
    /// is open: one for every file it sends to `remote_addr`.
    pub fn send_file_for_remote_addr(&self, remote_addr: PeerAddr) -> (acts: Vec<Action>)
        ensures
            offers_all(self@, remote_addr, acts@),
    {
        let to = remote_addr;
        let ids = self.task_ids();
        let mut acts: Vec<Action> = Vec::new();
        let mut n: usize = 0;
        while n < ids.len()
            invariant
                n <= ids@.len(),
                forall|id: u128| self.tasks@.contains_key(id) <==> ids@.contains(id),
                ids@.no_duplicates(),
                forall|i: int| 0 <= i < acts@.len() ==> is_offer_to(self@, to, #[trigger] acts@[i], offer_id(acts@[i])),
                forall|i: int| 0 <= i < acts@.len() ==> exists|j: int| 0 <= j < n && offer_id(#[trigger] acts@[i]) == ids@[j],
                forall|i: int, j: int|
                    0 <= i < j < acts@.len() ==> offer_id(#[trigger] acts@[i]) != offer_id(#[trigger] acts@[j]),
                forall|j: int|
                    0 <= j < n && sends_to(self@, #[trigger] ids@[j], to) ==> exists|i: int|
                        0 <= i < acts@.len() && offer_id(#[trigger] acts@[i]) == ids@[j],
            decreases ids@.len() - n,
        {
            let id = ids[n];
            assert(self.tasks@.contains_key(id)) by { assert(ids@.contains(id)); }
            assert(self@.tasks[id] == self.tasks@[id]@);
            match self.tasks.get(&id) {
                Some(Task::SendFile(st)) => {
                    if st.remote_addr == to {
                        let a = self.send_file_info(id).unwrap();
                        assert(is_offer_to(self@, to, a, id));
                        let ghost before = acts@;
                        acts.insert(0, a);
                        assert(acts@ == seq![a] + before) by {
                            assert(acts@ =~= seq![a] + before);
                        }
                        assert(forall|i: int| 0 <= i < before.len() ==> #[trigger] acts@[i + 1] == before[i]);
                        assert forall|i: int| 0 <= i < before.len() implies offer_id(#[trigger] before[i]) != id by {
                            let j = choose|j: int| 0 <= j < n && offer_id(before[i]) == ids@[j];
                            assert(ids@[j] != ids@[n as int]);
                        }
                        assert forall|i: int| 0 <= i < acts@.len() implies exists|j: int| 0 <= j < n + 1 && offer_id(#[trigger] acts@[i]) == ids@[j] by {
                            if i == 0 {
                                assert(offer_id(acts@[0]) == ids@[n as int]);
                            } else {
                                assert(acts@[i] == before[i - 1]);
                                let j = choose|j: int| 0 <= j < n && offer_id(before[i - 1]) == ids@[j];
                                assert(offer_id(acts@[i]) == ids@[j]);
                            }
                        }
                        assert forall|j: int| 0 <= j < n + 1 && sends_to(self@, #[trigger] ids@[j], to) implies exists|i: int|
                                0 <= i < acts@.len() && offer_id(#[trigger] acts@[i]) == ids@[j] by {
                            if j == n {
                                assert(offer_id(acts@[0]) == ids@[j]);
                            } else {
                                let i = choose|i: int| 0 <= i < before.len() && offer_id(before[i]) == ids@[j];
                                assert(acts@[i + 1] == before[i]);
                            }
                        }
                    }
                },
                _ => {},
            }
            n = n + 1;
        }
        assert forall|id: u128| #[trigger] sends_to(self@, id, to) implies exists|i: int| 0 <= i < acts@.len() && offer_id(#[trigger] acts@[i]) == id by {
            assert(ids@.contains(id));
            let j = choose|j: int| 0 <= j < ids@.len() && ids@[j] == id;
            assert(sends_to(self@, ids@[j], to));
        }
        acts
    }

    /// Moves the transfers out of the node, leaving it with none.
    fn take_tasks(&mut self) -> (tasks: HashMap<u128, Task>)
        ensures
            tasks@ == old(self).tasks@,
            forall|id: u128| #[trigger] tasks@.contains_key(id) ==> task_view_wf(tasks@[id]@),
            final(self).tasks@ == Map::<u128, Task>::empty(),
            final(self).role == old(self).role,
            final(self).self_addr == old(self).self_addr,
    {
        proof { use_type_invariant(&*self); }
        let mut tasks: HashMap<u128, Task> = HashMap::new();
        std::mem::swap(&mut tasks, &mut self.tasks);
        tasks
    }

    /// The view of a node whose invariant holds is well formed.
    proof fn lemma_view_wf(&self)
        requires
            self.inv(),
        ensures
            state_wf(self@),
    {
        assert forall|id: u128| #[trigger] self@.tasks.contains_key(id) implies task_view_wf(
            self@.tasks[id],
        ) by {
            assert(self.tasks@.contains_key(id));
        }
    }

    /// Registers a file the node sends under a fresh, randomly drawn id and
    /// returns that id.
    pub fn add_new_send_task(&mut self, task: SendFileTask) -> (id: u128)
        ensures
            final(self)@ == (NodeState {
                role: old(self)@.role,
                self_addr: old(self)@.self_addr,
                tasks: old(self)@.tasks.insert(id, Task::SendFile(task)@),
            }),
            state_wf(final(self)@),
            (id >> 76u128) & 0xfu128 == 4,
            (id >> 62u128) & 0x3u128 == 2,
    {
        let id = new_file_id();
        self.add_send_task(id, task);
        id
    }

    /// Whether the node can take message `m`; see `accepts`.
    pub fn can_handle(&self, m: &Message) -> (b: bool)
        ensures
            b == accepts(self@, *m),
    {
        match m {
            Message::Chunk(fs) => match self.tasks.get(&fs.id) {
                Some(Task::ReceiveFile(rt)) => {
                    let p = rt.position(fs.index);
                    p.is_some()
                },
                Some(Task::SendFile(_)) => true,
                None => false,
            },
            Message::Tunnel(t) => match self.role {
                Role::Send => true,
                _ => t.is_some(),
            },
            Message::FileDone(id) => self.tasks.contains_key(id),
            Message::FileOffer(info) => {
                let n = chunk_count(info.size);
                is_utf8(info.filename.as_slice()) && n as u128 <= usize::MAX as u128
            },
            Message::FileAccept(id) => self.tasks.contains_key(id),
            Message::Missing(nr) => self.tasks.contains_key(&nr.id),
            _ => true,
        }
    }
}

} // verus!
