use transfer::addr::PeerAddr;
use transfer::chunk::chunk_count;
use transfer::node::{Action, Node};
use transfer::protocol::{FileInfo, FileSend, Message, NotReceived, Role};
use transfer::task::{ReceiveFileTask, SendFileTask, Task};

fn at(last: u8, port: u16) -> PeerAddr {
    PeerAddr::V4 { ip: u32::from_be_bytes([192, 168, 1, last]), port }
}

fn offer(id: u128, size: u64) -> Message {
    Message::FileOffer(FileInfo { id, filename: b"report.pdf".to_vec(), size })
}

fn chunk(id: u128, index: u64, data: &[u8]) -> Message {
    Message::Chunk(FileSend { id, index, buf: data.to_vec() })
}

fn missing_of(node: &Node, id: u128) -> Vec<u64> {
    match node.task(id) {
        Some(Task::ReceiveFile(t)) => t.received.clone(),
        _ => panic!("no receive task"),
    }
}

#[test]
fn echo_server_answers_with_senders_address() {
    let mut server = Node::new(Role::EchoIp);
    let client = at(7, 40000);
    let acts = server.step(client, Message::WhoAmI(vec![0]));
    assert_eq!(acts, vec![Action::Send { to: client, message: Message::SelfAddress(client) }]);
    assert_eq!(server.self_addr(), None);
}

#[test]
fn new_address_is_reported_once() {
    let mut node = Node::new(Role::Get);
    let server = at(1, 8882);
    let me = at(9, 50000);
    assert_eq!(node.step(server, Message::SelfAddress(me)), vec![Action::NewSelfAddress(me)]);
    assert_eq!(node.self_addr(), Some(me));
    assert_eq!(node.step(server, Message::SelfAddress(me)), vec![]);
    let moved = at(9, 50001);
    assert_eq!(node.step(server, Message::SelfAddress(moved)), vec![Action::NewSelfAddress(moved)]);
    assert_eq!(node.self_addr(), Some(moved));
}

#[test]
fn server_forwards_tunnel_request() {
    let mut server = Node::new(Role::EchoIp);
    let sender = at(2, 8881);
    let receiver = at(3, 8880);
    assert!(server.can_handle(&Message::Tunnel(Some(receiver))));
    assert!(!server.can_handle(&Message::Tunnel(None)));
    let acts = server.step(sender, Message::Tunnel(Some(receiver)));
    assert_eq!(acts, vec![Action::Send { to: receiver, message: Message::Tunnel(Some(sender)) }]);
}

#[test]
fn sender_offers_its_files_for_that_peer() {
    let mut sender = Node::new(Role::Send);
    let receiver = at(3, 8880);
    let other = at(4, 8880);
    sender.add_send_task(11, SendFileTask { filename: b"a".to_vec(), size: 10, remote_addr: receiver });
    sender.add_send_task(12, SendFileTask { filename: b"b".to_vec(), size: 3000, remote_addr: receiver });
    sender.add_send_task(13, SendFileTask { filename: b"c".to_vec(), size: 5, remote_addr: other });
    assert!(sender.can_handle(&Message::Tunnel(None)));
    let mut acts = sender.step(receiver, Message::Tunnel(None));
    acts.sort_by_key(|a| match a {
        Action::Send { message: Message::FileOffer(info), .. } => info.id,
        _ => 0,
    });
    assert_eq!(
        acts,
        vec![
            Action::Send {
                to: receiver,
                message: Message::FileOffer(FileInfo { id: 11, filename: b"a".to_vec(), size: 10 }),
            },
            Action::Send {
                to: receiver,
                message: Message::FileOffer(FileInfo { id: 12, filename: b"b".to_vec(), size: 3000 }),
            },
        ]
    );
    assert_eq!(sender.step(at(5, 1), Message::Tunnel(None)), vec![]);
}

#[test]
fn receiver_accepts_offer_and_creates_file() {
    let mut node = Node::new(Role::Get);
    let sender = at(2, 8881);
    let acts = node.step(sender, offer(21, 2500));
    assert_eq!(
        acts,
        vec![
            Action::CreateFile { id: 21, name: b"report.pdf".to_vec() },
            Action::Send { to: sender, message: Message::FileAccept(21) },
        ]
    );
    assert_eq!(
        node.task(21),
        Some(&Task::ReceiveFile(ReceiveFileTask { from_addr: sender, received: vec![0, 1, 2] }))
    );
}

#[test]
fn chunks_are_written_at_their_offsets() {
    let mut node = Node::new(Role::Get);
    let sender = at(2, 8881);
    node.step(sender, offer(21, 2500));
    let acts = node.step(sender, chunk(21, 2, b"tail"));
    assert_eq!(acts, vec![Action::WriteChunk { id: 21, offset: 2048, data: b"tail".to_vec() }]);
    assert_eq!(missing_of(&node, 21), vec![0, 1]);
    assert!(!node.can_handle(&chunk(21, 2, b"again")));
    assert!(!node.can_handle(&chunk(22, 0, b"x")));
    assert!(node.can_handle(&chunk(21, 0, b"x")));
}

#[test]
fn end_of_transfer_asks_for_missing_chunks() {
    let mut node = Node::new(Role::Get);
    let sender = at(2, 8881);
    node.step(sender, offer(21, 4000));
    node.step(sender, chunk(21, 1, b"x"));
    node.step(sender, chunk(21, 3, b"y"));
    let acts = node.step(sender, Message::FileDone(21));
    assert_eq!(
        acts,
        vec![Action::Send { to: sender, message: Message::Missing(NotReceived { id: 21, not_received: vec![0, 2] }) }]
    );
}

#[test]
fn complete_file_is_flushed() {
    let mut node = Node::new(Role::Get);
    let sender = at(2, 8881);
    node.step(sender, offer(21, 2048));
    node.step(sender, chunk(21, 1, b"b"));
    node.step(sender, chunk(21, 0, b"a"));
    assert_eq!(node.step(sender, Message::FileDone(21)), vec![Action::Flush { id: 21 }]);
}

#[test]
fn empty_file_is_complete_at_once() {
    let mut node = Node::new(Role::Get);
    let sender = at(2, 8881);
    node.step(sender, offer(30, 0));
    assert_eq!(node.step(sender, Message::FileDone(30)), vec![Action::Flush { id: 30 }]);
}

#[test]
fn sender_sends_whole_file_on_accept() {
    let mut node = Node::new(Role::Send);
    let receiver = at(3, 8880);
    node.add_send_task(40, SendFileTask { filename: b"f".to_vec(), size: 5000, remote_addr: receiver });
    let acts = node.step(at(99, 1), Message::FileAccept(40));
    assert_eq!(
        acts,
        vec![
            Action::SendAllChunks { to: receiver, id: 40, count: 5 },
            Action::Send { to: receiver, message: Message::FileDone(40) },
        ]
    );
}

#[test]
fn sender_resends_missing_chunks() {
    let mut node = Node::new(Role::Send);
    let receiver = at(3, 8880);
    node.add_send_task(40, SendFileTask { filename: b"f".to_vec(), size: 5000, remote_addr: receiver });
    let acts = node.step(receiver, Message::Missing(NotReceived { id: 40, not_received: vec![4, 1] }));
    assert_eq!(
        acts,
        vec![
            Action::SendChunks { to: receiver, id: 40, indices: vec![4, 1] },
            Action::Send { to: receiver, message: Message::FileDone(40) },
        ]
    );
}

#[test]
fn messages_for_the_other_side_are_ignored() {
    let mut node = Node::new(Role::Send);
    let receiver = at(3, 8880);
    node.add_send_task(40, SendFileTask { filename: b"f".to_vec(), size: 5000, remote_addr: receiver });
    assert_eq!(node.step(receiver, chunk(40, 0, b"z")), vec![]);
    assert_eq!(node.step(receiver, Message::FileDone(40)), vec![]);
    assert_eq!(node.step(receiver, Message::Unknown(99)), vec![]);
    let mut getter = Node::new(Role::Get);
    getter.step(receiver, offer(41, 10));
    assert_eq!(getter.step(receiver, Message::FileAccept(41)), vec![]);
    assert_eq!(getter.step(receiver, Message::Missing(NotReceived { id: 41, not_received: vec![0] })), vec![]);
}

#[test]
fn unknown_files_are_refused() {
    let node = Node::new(Role::Get);
    assert!(!node.can_handle(&Message::FileDone(1)));
    assert!(!node.can_handle(&Message::FileAccept(1)));
    assert!(!node.can_handle(&Message::Missing(NotReceived { id: 1, not_received: vec![] })));
    assert!(node.can_handle(&Message::Unknown(0)));
    assert!(node.can_handle(&offer(1, u64::MAX)) == (chunk_count(u64::MAX) as u128 <= usize::MAX as u128));
}

#[test]
fn whole_transfer_between_two_nodes() {
    let sender_addr = at(2, 8881);
    let receiver_addr = at(3, 8880);
    let mut sender = Node::new(Role::Send);
    let mut receiver = Node::new(Role::Get);
    let content: Vec<u8> = (0..3000u32).map(|i| (i % 251) as u8).collect();
    sender.add_send_task(
        77,
        SendFileTask { filename: b"data.bin".to_vec(), size: content.len() as u64, remote_addr: receiver_addr },
    );
    let offers = sender.step(receiver_addr, Message::Tunnel(None));
    assert_eq!(offers.len(), 1);
    let offer_msg = match offers.into_iter().next().unwrap() {
        Action::Send { to, message } => {
            assert_eq!(to, receiver_addr);
            message
        }
        other => panic!("unexpected {:?}", other),
    };
    let replies = receiver.step(sender_addr, offer_msg);
    assert_eq!(replies[1], Action::Send { to: sender_addr, message: Message::FileAccept(77) });
    let plan = sender.step(receiver_addr, Message::FileAccept(77));
    let count = match &plan[0] {
        Action::SendAllChunks { to, id, count } => {
            assert_eq!((*to, *id), (receiver_addr, 77));
            *count
        }
        other => panic!("unexpected {:?}", other),
    };
    let mut file = vec![0u8; content.len()];
    // chunk 1 is lost on the way
    for i in (0..count).rev().filter(|i| *i != 1) {
        let start = (i * 1024) as usize;
        let end = std::cmp::min(start + 1024, content.len());
        for act in receiver.step(sender_addr, chunk(77, i, &content[start..end])) {
            if let Action::WriteChunk { offset, data, .. } = act {
                file[offset as usize..offset as usize + data.len()].copy_from_slice(&data);
            }
        }
    }
    let ask = receiver.step(sender_addr, Message::FileDone(77));
    let nr = match ask.into_iter().next().unwrap() {
        Action::Send { message: Message::Missing(nr), .. } => nr,
        other => panic!("unexpected {:?}", other),
    };
    assert_eq!(nr.not_received, vec![1]);
    let resend = sender.step(receiver_addr, Message::Missing(nr));
    let indices = match &resend[0] {
        Action::SendChunks { indices, .. } => indices.clone(),
        other => panic!("unexpected {:?}", other),
    };
    for i in indices {
        let start = (i * 1024) as usize;
        let end = std::cmp::min(start + 1024, content.len());
        for act in receiver.step(sender_addr, chunk(77, i, &content[start..end])) {
            if let Action::WriteChunk { offset, data, .. } = act {
                file[offset as usize..offset as usize + data.len()].copy_from_slice(&data);
            }
        }
    }
    assert_eq!(receiver.step(sender_addr, Message::FileDone(77)), vec![Action::Flush { id: 77 }]);
    assert_eq!(file, content);
}

#[test]
fn send_file_info_offers_to_the_files_peer() {
    let mut node = Node::new(Role::Send);
    let receiver = at(3, 8880);
    node.add_send_task(50, SendFileTask { filename: b"n".to_vec(), size: 9, remote_addr: receiver });
    assert_eq!(
        node.send_file_info(50),
        Some(Action::Send {
            to: receiver,
            message: Message::FileOffer(FileInfo { id: 50, filename: b"n".to_vec(), size: 9 }),
        })
    );
    node.step(receiver, offer(51, 9));
    assert_eq!(node.send_file_info(51), None);
    assert_eq!(node.send_file_for_remote_addr(at(8, 8)), vec![]);
}

#[test]
fn send_file_and_resend_directly() {
    let mut node = Node::new(Role::Send);
    let receiver = at(3, 8880);
    node.add_send_task(60, SendFileTask { filename: b"m".to_vec(), size: 1024, remote_addr: receiver });
    assert_eq!(
        node.send_file(60),
        vec![
            Action::SendAllChunks { to: receiver, id: 60, count: 1 },
            Action::Send { to: receiver, message: Message::FileDone(60) },
        ]
    );
    assert_eq!(
        node.send_not_received(NotReceived { id: 60, not_received: vec![0] }),
        vec![
            Action::SendChunks { to: receiver, id: 60, indices: vec![0] },
            Action::Send { to: receiver, message: Message::FileDone(60) },
        ]
    );
}

#[test]
fn tunnel_through_echo_server_brings_offers() {
    let sender_addr = at(2, 8881);
    let server_addr = at(1, 8882);
    let receiver_addr = at(3, 8880);
    let mut server = Node::new(Role::EchoIp);
    let mut receiver = Node::new(Role::Get);
    let mut sender = Node::new(Role::Send);
    sender.add_send_task(90, SendFileTask { filename: b"t".to_vec(), size: 1, remote_addr: receiver_addr });
    let relayed = server.step(sender_addr, Message::Tunnel(Some(receiver_addr)));
    let (to, msg) = match relayed.into_iter().next().unwrap() {
        Action::Send { to, message } => (to, message),
        other => panic!("unexpected {:?}", other),
    };
    assert_eq!(to, receiver_addr);
    let back = receiver.step(server_addr, msg);
    assert_eq!(back, vec![Action::Send { to: sender_addr, message: Message::Tunnel(Some(server_addr)) }]);
    let offers = sender.step(receiver_addr, Message::Tunnel(None));
    assert_eq!(
        offers,
        vec![Action::Send {
            to: receiver_addr,
            message: Message::FileOffer(FileInfo { id: 90, filename: b"t".to_vec(), size: 1 }),
        }]
    );
}

#[test]
fn node_learns_its_address_from_echo_server() {
    let server_addr = at(1, 8882);
    let node_addr = at(6, 33333);
    let mut server = Node::new(Role::EchoIp);
    let mut node = Node::new(Role::Get);
    let reply = server.step(node_addr, Message::who_am_i());
    let msg = match reply.into_iter().next().unwrap() {
        Action::Send { to, message } => {
            assert_eq!(to, node_addr);
            message
        }
        other => panic!("unexpected {:?}", other),
    };
    assert_eq!(node.step(server_addr, msg), vec![Action::NewSelfAddress(node_addr)]);
    assert_eq!(node.self_addr(), Some(node_addr));
}

#[test]
fn missing_list_only_shrinks() {
    let mut node = Node::new(Role::Get);
    let sender = at(2, 8881);
    node.step(sender, offer(70, 5 * 1024));
    let mut before = missing_of(&node, 70);
    for i in [3u64, 0, 4] {
        node.step(sender, chunk(70, i, b"q"));
        node.step(sender, Message::FileDone(70));
        node.step(sender, Message::Unknown(0));
        let after = missing_of(&node, 70);
        assert!(after.iter().all(|x| before.contains(x)));
        assert!(!after.contains(&i));
        assert_eq!(after.len() + 1, before.len());
        before = after;
    }
    assert_eq!(before, vec![1, 2]);
}

#[test]
fn offer_with_non_utf8_name_is_refused() {
    let node = Node::new(Role::Get);
    let bad = Message::FileOffer(FileInfo { id: 3, filename: vec![0xff, 0xfe], size: 10 });
    assert!(!node.can_handle(&bad));
    let good = Message::FileOffer(FileInfo { id: 3, filename: "naïve.txt".as_bytes().to_vec(), size: 10 });
    assert!(node.can_handle(&good));
}

#[test]
fn full_resend_list_matches_first_send() {
    let mut node = Node::new(Role::Send);
    let receiver = at(3, 8880);
    node.add_send_task(80, SendFileTask { filename: b"w".to_vec(), size: 4097, remote_addr: receiver });
    let first = node.send_file(80);
    let count = match &first[0] {
        Action::SendAllChunks { count, .. } => *count,
        other => panic!("unexpected {:?}", other),
    };
    assert_eq!(count, 5);
    let again = node.send_not_received(NotReceived { id: 80, not_received: transfer::chunk::all_chunks(count) });
    assert_eq!(again[0], Action::SendChunks { to: receiver, id: 80, indices: vec![0, 1, 2, 3, 4] });
    assert_eq!(again[1], first[1]);
}
