//! The messages that nodes exchange, one per datagram, and the command byte
//! that tells them apart.
use vstd::prelude::*;
use crate::addr::PeerAddr;

verus! {

/// Server to node: the address under which the server saw the node.
pub const CMD_SELF_ADDRESS: u8 = 1;
/// Sender to receiver: one chunk of a file.
pub const CMD_FILE_CHUNK: u8 = 2;
/// Node to server: asks for the node's own address.
pub const CMD_WHO_AM_I: u8 = 3;
/// Sender to server: open a tunnel to a peer; server to peer: forward of it.
pub const CMD_TUNNEL: u8 = 4;
/// Sender to receiver: every chunk of a file has been sent.
pub const CMD_FILE_DONE: u8 = 5;
/// Sender to receiver: the name, id and size of a file on offer.
pub const CMD_FILE_OFFER: u8 = 6;
/// Receiver to sender: the receiver wants the offered file.
pub const CMD_FILE_ACCEPT: u8 = 7;
/// Receiver to sender: the chunks that have not arrived yet.
pub const CMD_MISSING: u8 = 8;

/// What a node was started as.
#[derive(Clone, Copy, Debug, PartialEq, Eq, Structural)]
pub enum Role {
    /// Waits for files and receives them.
    Get,
    /// Offers one file to a peer and sends it.
    Send,
    /// Tells nodes their public address and forwards tunnel requests.
    EchoIp,
}

/// One chunk of a file in transit.
#[derive(Debug, PartialEq, Eq)]
pub struct FileSend {
    pub id: u128,
    pub index: u64,
    pub buf: Vec<u8>,
}

/// A file on offer: its id, its name and its size in bytes.
#[derive(Debug, PartialEq, Eq)]
pub struct FileInfo {
    pub id: u128,
    pub filename: Vec<u8>,
    pub size: u64,
}

/// The chunks of a file that the receiver still misses.
#[derive(Debug, PartialEq, Eq)]
pub struct NotReceived {
    pub id: u128,
    pub not_received: Vec<u64>,
}

/// A message of the protocol, with its payload decoded.
#[derive(Debug, PartialEq, Eq)]
pub enum Message {
    /// The address under which the server sees the node.
    SelfAddress(PeerAddr),
    /// One chunk of a file.
    Chunk(FileSend),
    /// A request for the sender's own address, with the bytes it carries.
    WhoAmI(Vec<u8>),
    /// A tunnel message; it names the peer to forward to, except where the
    /// node is a sender, which does not read it.
    Tunnel(Option<PeerAddr>),
    /// All chunks of file `id` were sent.
    FileDone(u128),
    /// A file on offer.
    FileOffer(FileInfo),
    /// The receiver wants file `id`.
    FileAccept(u128),
    /// The chunks of a file that have not arrived.
    Missing(NotReceived),
    /// A datagram with a command this protocol does not know.
    Unknown(u8),
}

/// The command byte of a message.
pub open spec fn message_cmd(m: Message) -> u8 {
    match m {
        Message::SelfAddress(_) => CMD_SELF_ADDRESS,
        Message::Chunk(_) => CMD_FILE_CHUNK,
        Message::WhoAmI(_) => CMD_WHO_AM_I,
        Message::Tunnel(_) => CMD_TUNNEL,
        Message::FileDone(_) => CMD_FILE_DONE,
        Message::FileOffer(_) => CMD_FILE_OFFER,
        Message::FileAccept(_) => CMD_FILE_ACCEPT,
        Message::Missing(_) => CMD_MISSING,
        Message::Unknown(c) => c,
    }
}

impl Message {
    /// The command byte that goes in front of this message.
    pub fn cmd(&self) -> (c: u8)
        ensures
            c == message_cmd(*self),
    {
        match self {
            Message::SelfAddress(_) => CMD_SELF_ADDRESS,
            Message::Chunk(_) => CMD_FILE_CHUNK,
            Message::WhoAmI(_) => CMD_WHO_AM_I,
            Message::Tunnel(_) => CMD_TUNNEL,
            Message::FileDone(_) => CMD_FILE_DONE,
            Message::FileOffer(_) => CMD_FILE_OFFER,
            Message::FileAccept(_) => CMD_FILE_ACCEPT,
            Message::Missing(_) => CMD_MISSING,
            Message::Unknown(c) => *c,
        }
    }

    /// The message that a node sends to the server to learn its own
    /// address: a single zero byte.
    pub fn who_am_i() -> (m: Message)
        ensures
            m matches Message::WhoAmI(b) && b@ == seq![0u8],
    {
        Message::WhoAmI(vec![0u8])
    }
}

/// What the payload of a datagram holds, and so how it is to be decoded.
#[derive(Clone, Copy, Debug, PartialEq, Eq, Structural)]
pub enum PayloadKind {
    /// A socket address.
    Address,
    /// A `FileSend`.
    Chunk,
    /// Raw bytes, kept as they are.
    Bytes,
    /// Nothing is read from the payload.
    Ignored,
    /// A file id.
    FileId,
    /// A `FileInfo`.
    FileInfo,
    /// A `NotReceived`.
    NotReceived,
    /// The command is unknown: nothing is read.
    Unknown,
}

/// How the payload of a datagram with command `cmd` is read by a node of
/// role `role`.
pub open spec fn payload_kind_spec(role: Role, cmd: u8) -> PayloadKind {
    if cmd == CMD_SELF_ADDRESS {
        PayloadKind::Address
    } else if cmd == CMD_FILE_CHUNK {
        PayloadKind::Chunk
    } else if cmd == CMD_WHO_AM_I {
        PayloadKind::Bytes
    } else if cmd == CMD_TUNNEL {
        if role == Role::Send { PayloadKind::Ignored } else { PayloadKind::Address }
    } else if cmd == CMD_FILE_DONE || cmd == CMD_FILE_ACCEPT {
        PayloadKind::FileId
    } else if cmd == CMD_FILE_OFFER {
        PayloadKind::FileInfo
    } else if cmd == CMD_MISSING {
        PayloadKind::NotReceived
    } else {
        PayloadKind::Unknown
    }
}

/// Whether message `m` is what a node of role `role` makes of a datagram
/// with command `message_cmd(m)`: the variant fits the payload kind.
pub open spec fn fits_kind(role: Role, m: Message) -> bool {
    match m {
        Message::SelfAddress(_) => payload_kind_spec(role, message_cmd(m)) == PayloadKind::Address,
        Message::Chunk(_) => payload_kind_spec(role, message_cmd(m)) == PayloadKind::Chunk,
        Message::WhoAmI(_) => payload_kind_spec(role, message_cmd(m)) == PayloadKind::Bytes,
        Message::Tunnel(t) => match payload_kind_spec(role, message_cmd(m)) {
            PayloadKind::Ignored => t is None,
            PayloadKind::Address => t is Some,
            _ => false,
        },
        Message::FileDone(_) => payload_kind_spec(role, message_cmd(m)) == PayloadKind::FileId,
        Message::FileOffer(_) => payload_kind_spec(role, message_cmd(m)) == PayloadKind::FileInfo,
        Message::FileAccept(_) => payload_kind_spec(role, message_cmd(m)) == PayloadKind::FileId,
        Message::Missing(_) => payload_kind_spec(role, message_cmd(m)) == PayloadKind::NotReceived,
        Message::Unknown(_) => payload_kind_spec(role, message_cmd(m)) == PayloadKind::Unknown,
    }
}

/// How a node of role `role` reads the payload of a datagram with command
/// `cmd`. A sender does not read the payload of a tunnel message; other
/// nodes read the address to forward to.
pub fn payload_kind(role: Role, cmd: u8) -> (k: PayloadKind)
    ensures
        k == payload_kind_spec(role, cmd),
{
    if cmd == CMD_SELF_ADDRESS {
        PayloadKind::Address
    } else if cmd == CMD_FILE_CHUNK {
        PayloadKind::Chunk
    } else if cmd == CMD_WHO_AM_I {
        PayloadKind::Bytes
    } else if cmd == CMD_TUNNEL {
        match role {
            Role::Send => PayloadKind::Ignored,
            _ => PayloadKind::Address,
        }
    } else if cmd == CMD_FILE_DONE || cmd == CMD_FILE_ACCEPT {
        PayloadKind::FileId
    } else if cmd == CMD_FILE_OFFER {
        PayloadKind::FileInfo
    } else if cmd == CMD_MISSING {
        PayloadKind::NotReceived
    } else {
        PayloadKind::Unknown
    }
}

/// The decoded payload of a datagram.
#[derive(Debug, PartialEq, Eq)]
pub enum Payload {
    Address(PeerAddr),
    Chunk(FileSend),
    Bytes(Vec<u8>),
    Ignored,
    FileId(u128),
    FileInfo(FileInfo),
    NotReceived(NotReceived),
    Unknown,
}

/// The kind of a decoded payload.
pub open spec fn kind_of(p: Payload) -> PayloadKind {
    match p {
        Payload::Address(_) => PayloadKind::Address,
        Payload::Chunk(_) => PayloadKind::Chunk,
        Payload::Bytes(_) => PayloadKind::Bytes,
        Payload::Ignored => PayloadKind::Ignored,
        Payload::FileId(_) => PayloadKind::FileId,
        Payload::FileInfo(_) => PayloadKind::FileInfo,
        Payload::NotReceived(_) => PayloadKind::NotReceived,
        Payload::Unknown => PayloadKind::Unknown,
    }
}

/// Whether message `m` is carried by a datagram with command `cmd` and
/// payload `p`, as a node of role `role` reads it.
pub open spec fn carries(role: Role, cmd: u8, p: Payload, m: Message) -> bool {
    &&& message_cmd(m) == cmd
    &&& payload_of_spec(m) == p
    &&& fits_kind(role, m)
}

/// The message that a node of role `role` reads from a datagram with
/// command `cmd` and decoded payload `p`: the message that such a datagram
/// carries, `None` when it carries none.
pub open spec fn message_from_spec(role: Role, cmd: u8, p: Payload) -> Option<Message> {
    if exists|m: Message| carries(role, cmd, p, m) {
        Some(choose|m: Message| carries(role, cmd, p, m))
    } else {
        None
    }
}

/// A datagram carries at most one message.
pub proof fn lemma_carries_unique(role: Role, cmd: u8, p: Payload, m1: Message, m2: Message)
    requires
        carries(role, cmd, p, m1),
        carries(role, cmd, p, m2),
    ensures
        m1 == m2,
{
}

/// A datagram that carries a message has a payload of the kind its
/// command calls for.
pub proof fn lemma_carries_kind(role: Role, cmd: u8, p: Payload, m: Message)
    requires
        carries(role, cmd, p, m),
    ensures
        kind_of(p) == payload_kind_spec(role, cmd),
{
}

/// `message_from_spec` is `Some(m)` exactly when the datagram carries `m`.
pub proof fn lemma_message_from_carries(role: Role, cmd: u8, p: Payload, m: Message)
    requires
        carries(role, cmd, p, m),
    ensures
        message_from_spec(role, cmd, p) == Some(m),
{
    let c = choose|x: Message| carries(role, cmd, p, x);
    lemma_carries_unique(role, cmd, p, c, m);
}

/// The payload that carries message `m`.
pub open spec fn payload_of_spec(m: Message) -> Payload {
    match m {
        Message::SelfAddress(a) => Payload::Address(a),
        Message::Chunk(fs) => Payload::Chunk(fs),
        Message::WhoAmI(b) => Payload::Bytes(b),
        Message::Tunnel(t) => match t {
            Some(a) => Payload::Address(a),
            None => Payload::Ignored,
        },
        Message::FileDone(id) => Payload::FileId(id),
        Message::FileOffer(info) => Payload::FileInfo(info),
        Message::FileAccept(id) => Payload::FileId(id),
        Message::Missing(nr) => Payload::NotReceived(nr),
        Message::Unknown(_) => Payload::Unknown,
    }
}

/// Reads the message of a datagram with command `cmd` whose payload was
/// decoded as `p`, for a node of role `role`.
pub fn message_from(role: Role, cmd: u8, p: Payload) -> (m: Option<Message>)
    ensures
        m == message_from_spec(role, cmd, p),
{
    let kind = payload_kind(role, cmd);
    let matches_kind = match (&p, kind) {
        (Payload::Address(_), PayloadKind::Address) => true,
        (Payload::Chunk(_), PayloadKind::Chunk) => true,
        (Payload::Bytes(_), PayloadKind::Bytes) => true,
        (Payload::Ignored, PayloadKind::Ignored) => true,
        (Payload::FileId(_), PayloadKind::FileId) => true,
        (Payload::FileInfo(_), PayloadKind::FileInfo) => true,
        (Payload::NotReceived(_), PayloadKind::NotReceived) => true,
        (Payload::Unknown, PayloadKind::Unknown) => true,
        _ => false,
    };
    if !matches_kind {
        proof {
            if exists|m: Message| carries(role, cmd, p, m) {
                let m = choose|m: Message| carries(role, cmd, p, m);
                lemma_carries_kind(role, cmd, p, m);
            }
        }
        return None;
    }
    let ghost p0 = p;
    let m = match p {
        Payload::Address(a) => if cmd == CMD_SELF_ADDRESS {
            Message::SelfAddress(a)
        } else {
            Message::Tunnel(Some(a))
        },
        Payload::Chunk(fs) => Message::Chunk(fs),
        Payload::Bytes(b) => Message::WhoAmI(b),
        Payload::Ignored => Message::Tunnel(None),
        Payload::FileId(id) => if cmd == CMD_FILE_DONE {
            Message::FileDone(id)
        } else {
            Message::FileAccept(id)
        },
        Payload::FileInfo(info) => Message::FileOffer(info),
        Payload::NotReceived(nr) => Message::Missing(nr),
        Payload::Unknown => Message::Unknown(cmd),
    };
    proof {
        assert(carries(role, cmd, p0, m));
        lemma_message_from_carries(role, cmd, p0, m);
    }
    Some(m)
}

impl Message {
    /// The payload that carries this message.
    pub fn into_payload(self) -> (p: Payload)
        ensures
            p == payload_of_spec(self),
    {
        match self {
            Message::SelfAddress(a) => Payload::Address(a),
            Message::Chunk(fs) => Payload::Chunk(fs),
            Message::WhoAmI(b) => Payload::Bytes(b),
            Message::Tunnel(t) => match t {
                Some(a) => Payload::Address(a),
                None => Payload::Ignored,
            },
            Message::FileDone(id) => Payload::FileId(id),
            Message::FileOffer(info) => Payload::FileInfo(info),
            Message::FileAccept(id) => Payload::FileId(id),
            Message::Missing(nr) => Payload::NotReceived(nr),
            Message::Unknown(_) => Payload::Unknown,
        }
    }
}

/// A message survives the way to its peer: written as its command and its
/// payload, it is read back as the same message by a peer whose role reads
/// that payload (see `lemma_messages_fit` for which roles do).
pub proof fn lemma_message_round_trip(role: Role, m: Message)
    requires
        fits_kind(role, m),
    ensures
        message_from_spec(role, message_cmd(m), payload_of_spec(m)) == Some(m),
{
    lemma_message_from_carries(role, message_cmd(m), payload_of_spec(m), m);
}

/// Every message but a tunnel message and one of an unknown command is read
/// the same way by every role. (A sender does not read the address of a
/// tunnel message; other roles do.)
pub proof fn lemma_messages_fit(role: Role, m: Message)
    requires
        !(m is Unknown),
        !(m is Tunnel),
    ensures
        fits_kind(role, m),
{
}

} // verus!
