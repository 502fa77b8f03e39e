//! The transfers a node takes part in: files it sends and files it receives,
//! with the chunks of each received file that are still missing.
use vstd::prelude::*;
use crate::addr::PeerAddr;
use crate::chunk::{chunk_count, chunk_count_spec, all_chunks, MAX_CHUNK_INDEX};

verus! {

/// A file this node offers to `remote_addr`.
#[derive(Debug, PartialEq, Eq)]
pub struct SendFileTask {
    pub filename: Vec<u8>,
    pub size: u64,
    pub remote_addr: PeerAddr,
}

/// A file this node receives from `from_addr`. `received` lists the chunks
/// that have not arrived yet, in increasing order.
#[derive(Debug, PartialEq, Eq)]
pub struct ReceiveFileTask {
    pub from_addr: PeerAddr,
    pub received: Vec<u64>,
}

/// A transfer.
#[derive(Debug, PartialEq, Eq)]
pub enum Task {
    SendFile(SendFileTask),
    ReceiveFile(ReceiveFileTask),
}

/// A transfer as a mathematical value.
#[verifier::ext_equal]
pub enum TaskView {
    Sending { filename: Seq<u8>, size: u64, remote: PeerAddr },
    Receiving { from: PeerAddr, missing: Seq<u64> },
}

impl View for Task {
    type V = TaskView;

    open spec fn view(&self) -> TaskView {
        match self {
            Task::SendFile(t) => TaskView::Sending {
                filename: t.filename@,
                size: t.size,
                remote: t.remote_addr,
            },
            Task::ReceiveFile(t) => TaskView::Receiving { from: t.from_addr, missing: t.received@ },
        }
    }
}

/// The indices `0 .. n` of all chunks of a file of `n` chunks.
pub open spec fn chunk_indices(n: nat) -> Seq<u64> {
    Seq::new(n, |i: int| i as u64)
}

/// A list of missing chunks as the receiver keeps it: strictly increasing,
/// so that no chunk is listed twice, and made of indices whose byte offset
/// fits in a `u64`.
pub open spec fn missing_wf(s: Seq<u64>) -> bool {
    &&& forall|i: int, j: int| 0 <= i < j < s.len() ==> s[i] < s[j]
    &&& forall|i: int| 0 <= i < s.len() ==> s[i] <= MAX_CHUNK_INDEX
}

/// The list of all chunks of a file is a well-formed missing list.
pub proof fn lemma_chunk_indices_wf(n: nat)
    requires
        n <= MAX_CHUNK_INDEX + 1,
    ensures
        missing_wf(chunk_indices(n)),
        chunk_indices(n).len() == n,
        forall|x: u64| chunk_indices(n).contains(x) <==> x < n,
{
    assert forall|x: u64| x < n implies chunk_indices(n).contains(x) by {
        assert(chunk_indices(n)[x as int] == x);
    }
}

/// Crossing a chunk off a well-formed missing list leaves a well-formed
/// list that holds exactly the other chunks it held.
pub proof fn lemma_remove_missing(s: Seq<u64>, x: u64)
    requires
        missing_wf(s),
    ensures
        missing_wf(s.remove_value(x)),
        forall|y: u64| s.remove_value(x).contains(y) <==> (s.contains(y) && y != x),
        s.contains(x) ==> s.remove_value(x).len() == s.len() - 1,
        !s.contains(x) ==> s.remove_value(x) == s,
{
    s.index_of_first_ensures(x);
    match s.index_of_first(x) {
        Some(p) => {
            let r = s.remove_value(x);
            s.remove_ensures(p);
            assert(r == s.remove(p));
            assert forall|y: u64| r.contains(y) implies (s.contains(y) && y != x) by {
                let k = choose|k: int| 0 <= k < r.len() && r[k] == y;
                if k < p {
                    assert(s[k] == y);
                } else {
                    assert(s[k + 1] == y);
                }
            }
            assert forall|y: u64| (s.contains(y) && y != x) implies r.contains(y) by {
                let k = choose|k: int| 0 <= k < s.len() && s[k] == y;
                if k < p {
                    assert(r[k] == y);
                } else {
                    assert(k != p);
                    assert(r[k - 1] == y);
                }
            }
            assert forall|i: int, j: int| 0 <= i < j < r.len() implies r[i] < r[j] by {
                let si = if i < p { i } else { i + 1 };
                let sj = if j < p { j } else { j + 1 };
                assert(r[i] == s[si]);
                assert(r[j] == s[sj]);
            }
            assert forall|i: int| 0 <= i < r.len() implies r[i] <= MAX_CHUNK_INDEX by {
                let si = if i < p { i } else { i + 1 };
                assert(r[i] == s[si]);
            }
        },
        None => {},
    }
}

impl ReceiveFileTask {
    /// A new receive task for a file of `size` bytes from `from_addr`: no
    /// chunk has arrived yet.
    pub fn new(from_addr: PeerAddr, size: u64) -> (t: ReceiveFileTask)
        requires
            chunk_count_spec(size as nat) <= usize::MAX,
        ensures
            t.from_addr == from_addr,
            t.received@ == chunk_indices(chunk_count_spec(size as nat)),
            missing_wf(t.received@),
    {
        let n = chunk_count(size);
        let received = all_chunks(n);
        proof { lemma_chunk_indices_wf(n as nat); }
        ReceiveFileTask { from_addr, received }
    }

    /// Where chunk `index` stands in the missing list, if it is there: the
    /// first position that holds it.
    pub fn position(&self, index: u64) -> (r: Option<usize>)
        ensures
            match r {
                Some(p) => {
                    &&& p < self.received@.len()
                    &&& self.received@[p as int] == index
                    &&& forall|q: int| 0 <= q < p ==> self.received@[q] != index
                },
                None => !self.received@.contains(index),
            },
    {
        let mut i: usize = 0;
        while i < self.received.len()
            invariant
                i <= self.received@.len(),
                forall|q: int| 0 <= q < i ==> self.received@[q] != index,
            decreases self.received@.len() - i,
        {
            if self.received[i] == index {
                return Some(i);
            }
            i = i + 1;
        }
        None
    }

    /// Crosses chunk `index` off the missing list: its first occurrence is
    /// removed, the rest keeps its order.
    pub fn mark_received(&mut self, index: u64)
        requires
            old(self).received@.contains(index),
        ensures
            final(self).received@ == old(self).received@.remove_value(index),
            final(self).from_addr == old(self).from_addr,
    {
        let p = self.position(index);
        proof { self.received@.index_of_first_ensures(index); }
        match p {
            Some(p) => {
                proof {
                    let q = self.received@.index_of_first(index).unwrap();
                    assert(q == p as int) by {
                        if q < p as int {
                        } else if (p as int) < q {
                        }
                    }
                }
                let ghost before = self.received@;
                self.received.remove(p);
                assert(self.received@ =~= before.remove(p as int));
            },
            None => {},
        }
    }

    /// Whether every chunk has arrived.
    pub fn is_complete(&self) -> (b: bool)
        ensures
            b == (self.received@.len() == 0),
    {
        self.received.len() == 0
    }
}

} // verus!
