use transfer::addr::PeerAddr;
use transfer::file_id::{decode_file_id, encode_file_id, new_file_id};
use transfer::node::Node;
use transfer::protocol::Role;
use transfer::task::{SendFileTask, Task};
use uuid::Uuid;

#[test]
fn file_id_payload_layout() {
    let id: u128 = 0x00112233_44556677_8899aabb_ccddeeff;
    let bytes = encode_file_id(id);
    let mut expected = vec![16, 0, 0, 0, 0, 0, 0, 0];
    expected.extend_from_slice(&id.to_be_bytes());
    assert_eq!(bytes, expected);
    assert_eq!(bytes, bincode::serialize(&Uuid::from_u128(id)).unwrap());
}

#[test]
fn file_id_round_trip() {
    for id in [0u128, 1, u128::MAX, 0xdeadbeef << 64] {
        assert_eq!(decode_file_id(&encode_file_id(id)), Some(id));
    }
    let mut longer = encode_file_id(5);
    longer.push(1);
    assert_eq!(decode_file_id(&longer), Some(5));
}

#[test]
fn malformed_file_id_payloads() {
    assert_eq!(decode_file_id(&[]), None);
    let mut short = encode_file_id(5);
    short.pop();
    assert_eq!(decode_file_id(&short), None);
    let mut wrong_len = encode_file_id(5);
    wrong_len[0] = 15;
    assert_eq!(decode_file_id(&wrong_len), None);
}

#[test]
fn fresh_ids_are_version_four() {
    let a = new_file_id();
    let b = new_file_id();
    assert_ne!(a, b);
    for id in [a, b] {
        assert_eq!((id >> 76) & 0xf, 4);
        assert_eq!((id >> 62) & 0x3, 2);
        assert_eq!(Uuid::from_u128(id).get_version_num(), 4);
    }
}

#[test]
fn new_send_task_gets_fresh_id() {
    let mut node = Node::new(Role::Send);
    let remote = PeerAddr::V4 { ip: 1, port: 8880 };
    let id = node.add_new_send_task(SendFileTask { filename: b"x".to_vec(), size: 3, remote_addr: remote });
    assert_eq!(
        node.task(id),
        Some(&Task::SendFile(SendFileTask { filename: b"x".to_vec(), size: 3, remote_addr: remote }))
    );
}
