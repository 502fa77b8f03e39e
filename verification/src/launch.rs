//! How a node is started and how datagrams reach it.
use vstd::prelude::*;
use crate::addr::PeerAddr;
use crate::protocol::Role;
use vstd::slice::slice_to_vec;

verus! {

/// Milliseconds between two requests of a receiving node for its own
/// address, which also keep its mapping in a NAT open.
pub const KEEPALIVE_MS: u64 = 60000;

/// Size of the buffer a datagram is received into.
pub const RECV_BUF_LEN: usize = 2048;

/// What the command line asks for.
#[derive(Debug, PartialEq, Eq)]
pub enum Launch {
    /// `transfer`: wait for files.
    Get,
    /// `transfer echoip`: run the echo server.
    EchoIp,
    /// `transfer send ip:port filename`: send a file to a peer.
    Send { remote_addr: String, filename: String },
}

/// The command line `args`, program name first, read as a launch, `None`
/// where it matches no usage.
pub open spec fn launch_of(args: Seq<Seq<char>>, launch: Option<Launch>) -> bool {
    if args.len() == 1 {
        launch matches Some(Launch::Get)
    } else if args.len() == 2 && args[1] == "echoip"@ {
        launch matches Some(Launch::EchoIp)
    } else if args.len() == 4 && args[1] == "send"@ {
        launch matches Some(Launch::Send { remote_addr, filename })
            && remote_addr@ == args[2] && filename@ == args[3]
    } else {
        launch is None
    }
}

/// Reads the command line, program name first.
pub fn parse_args(args: &Vec<String>) -> (launch: Option<Launch>)
    ensures
        launch_of(args@.map_values(|a: String| a@), launch),
{
    let n = args.len();
    if n == 1 {
        Some(Launch::Get)
    } else if n == 2 && args[1] == "echoip".to_owned() {
        Some(Launch::EchoIp)
    } else if n == 4 && args[1] == "send".to_owned() {
        let remote_addr = args[2].clone();
        let filename = args[3].clone();
        Some(Launch::Send { remote_addr, filename })
    } else {
        None
    }
}

impl Launch {
    /// The role a node takes for this launch.
    pub fn role(&self) -> (r: Role)
        ensures
            r == match *self {
                Launch::Get => Role::Get,
                Launch::EchoIp => Role::EchoIp,
                Launch::Send { .. } => Role::Send,
            },
    {
        match self {
            Launch::Get => Role::Get,
            Launch::EchoIp => Role::EchoIp,
            Launch::Send { .. } => Role::Send,
        }
    }
}

/// The local address a node of role `role` listens on.
pub fn local_addr(role: Role) -> (addr: &'static str)
    ensures
        addr@ == match role {
            Role::Get => "0.0.0.0:8880"@,
            Role::Send => "0.0.0.0:8881"@,
            Role::EchoIp => "0.0.0.0:8882"@,
        },
{
    match role {
        Role::Get => "0.0.0.0:8880",
        Role::Send => "0.0.0.0:8881",
        Role::EchoIp => "0.0.0.0:8882",
    }
}

/// The address of the echo server that nodes ask for their own address
/// and for tunnels.
pub fn echo_server() -> (addr: &'static str)
    ensures
        addr@ == "127.0.0.1:8882"@,
{
    "127.0.0.1:8882"
}

/// A datagram as it was received: its bytes and where it came from.
#[derive(Debug, PartialEq, Eq)]
pub struct ReceiveBuf {
    pub from_addr: PeerAddr,
    pub buf: Vec<u8>,
}

impl ReceiveBuf {
    /// The datagram of `size` bytes that was received into `buf` from
    /// `from_addr`; `None` for an empty datagram, which is dropped.
    pub fn from_datagram(buf: &[u8], size: usize, from_addr: PeerAddr) -> (r: Option<ReceiveBuf>)
        requires
            size <= buf@.len(),
        ensures
            match r {
                Some(rb) => size != 0 && rb.from_addr == from_addr && rb.buf@ == buf@.subrange(0, size as int),
                None => size == 0,
            },
    {
        if size == 0 {
            None
        } else {
            let bytes = slice_to_vec(&buf[0..size]);
            Some(ReceiveBuf { from_addr, buf: bytes })
        }
    }
}

} // verus!
