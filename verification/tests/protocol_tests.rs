use transfer::addr::PeerAddr;
use transfer::protocol::{
    message_from, payload_kind, FileInfo, FileSend, Message, NotReceived, Payload, PayloadKind, Role,
    CMD_FILE_ACCEPT, CMD_FILE_CHUNK, CMD_FILE_DONE, CMD_FILE_OFFER, CMD_MISSING, CMD_SELF_ADDRESS,
    CMD_TUNNEL, CMD_WHO_AM_I,
};

fn addr(last: u8, port: u16) -> PeerAddr {
    PeerAddr::V4 { ip: u32::from_be_bytes([10, 0, 0, last]), port }
}

#[test]
fn command_numbers() {
    assert_eq!(CMD_SELF_ADDRESS, 1);
    assert_eq!(CMD_FILE_CHUNK, 2);
    assert_eq!(CMD_WHO_AM_I, 3);
    assert_eq!(CMD_TUNNEL, 4);
    assert_eq!(CMD_FILE_DONE, 5);
    assert_eq!(CMD_FILE_OFFER, 6);
    assert_eq!(CMD_FILE_ACCEPT, 7);
    assert_eq!(CMD_MISSING, 8);
}

#[test]
fn payload_kinds_by_role() {
    assert_eq!(payload_kind(Role::Get, 1), PayloadKind::Address);
    assert_eq!(payload_kind(Role::Get, 2), PayloadKind::Chunk);
    assert_eq!(payload_kind(Role::EchoIp, 3), PayloadKind::Bytes);
    assert_eq!(payload_kind(Role::Send, 4), PayloadKind::Ignored);
    assert_eq!(payload_kind(Role::Get, 4), PayloadKind::Address);
    assert_eq!(payload_kind(Role::EchoIp, 4), PayloadKind::Address);
    assert_eq!(payload_kind(Role::Get, 5), PayloadKind::FileId);
    assert_eq!(payload_kind(Role::Get, 6), PayloadKind::FileInfo);
    assert_eq!(payload_kind(Role::Send, 7), PayloadKind::FileId);
    assert_eq!(payload_kind(Role::Send, 8), PayloadKind::NotReceived);
    assert_eq!(payload_kind(Role::Send, 0), PayloadKind::Unknown);
    assert_eq!(payload_kind(Role::Send, 9), PayloadKind::Unknown);
}

#[test]
fn message_commands() {
    assert_eq!(Message::SelfAddress(addr(1, 2)).cmd(), 1);
    assert_eq!(Message::Tunnel(None).cmd(), 4);
    assert_eq!(Message::Missing(NotReceived { id: 1, not_received: vec![] }).cmd(), 8);
    assert_eq!(Message::Unknown(42).cmd(), 42);
    assert_eq!(Message::who_am_i(), Message::WhoAmI(vec![0]));
    assert_eq!(Message::who_am_i().cmd(), 3);
}

fn round_trip(role: Role, m: Message) -> Option<Message> {
    let cmd = m.cmd();
    message_from(role, cmd, m.into_payload())
}

#[test]
fn messages_round_trip_through_payloads() {
    let msgs = vec![
        Message::SelfAddress(addr(3, 80)),
        Message::Chunk(FileSend { id: 5, index: 2, buf: vec![1, 2] }),
        Message::WhoAmI(vec![0]),
        Message::FileDone(9),
        Message::FileOffer(FileInfo { id: 9, filename: b"a.txt".to_vec(), size: 10 }),
        Message::FileAccept(9),
        Message::Missing(NotReceived { id: 9, not_received: vec![0, 4] }),
        Message::Unknown(77),
    ];
    for role in [Role::Get, Role::Send, Role::EchoIp] {
        for m in msgs.iter() {
            let copy = round_trip(role, rebuild(m));
            assert_eq!(copy.as_ref(), Some(m));
        }
    }
    assert_eq!(round_trip(Role::Get, Message::Tunnel(Some(addr(4, 1)))), Some(Message::Tunnel(Some(addr(4, 1)))));
    assert_eq!(round_trip(Role::Send, Message::Tunnel(None)), Some(Message::Tunnel(None)));
}

fn rebuild(m: &Message) -> Message {
    match m {
        Message::SelfAddress(a) => Message::SelfAddress(*a),
        Message::Chunk(fs) => Message::Chunk(FileSend { id: fs.id, index: fs.index, buf: fs.buf.clone() }),
        Message::WhoAmI(b) => Message::WhoAmI(b.clone()),
        Message::Tunnel(t) => Message::Tunnel(*t),
        Message::FileDone(id) => Message::FileDone(*id),
        Message::FileOffer(i) => Message::FileOffer(FileInfo { id: i.id, filename: i.filename.clone(), size: i.size }),
        Message::FileAccept(id) => Message::FileAccept(*id),
        Message::Missing(nr) => Message::Missing(NotReceived { id: nr.id, not_received: nr.not_received.clone() }),
        Message::Unknown(c) => Message::Unknown(*c),
    }
}

#[test]
fn payload_of_wrong_kind_is_refused() {
    assert_eq!(message_from(Role::Get, 1, Payload::FileId(3)), None);
    assert_eq!(message_from(Role::Send, 4, Payload::Address(addr(1, 1))), None);
    assert_eq!(message_from(Role::Get, 4, Payload::Ignored), None);
    assert_eq!(message_from(Role::Get, 12, Payload::Bytes(vec![])), None);
    assert_eq!(message_from(Role::Get, 12, Payload::Unknown), Some(Message::Unknown(12)));
    assert_eq!(message_from(Role::Get, 7, Payload::FileId(3)), Some(Message::FileAccept(3)));
    assert_eq!(message_from(Role::Get, 5, Payload::FileId(3)), Some(Message::FileDone(3)));
}

#[test]
fn peer_port() {
    assert_eq!(addr(1, 8880).port(), 8880);
    assert_eq!(PeerAddr::V6 { ip6: 1, port: 9, flowinfo: 0, scope_id: 0 }.port(), 9);
}
