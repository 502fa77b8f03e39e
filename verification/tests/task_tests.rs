use transfer::addr::PeerAddr;
use transfer::task::ReceiveFileTask;

fn peer() -> PeerAddr {
    PeerAddr::V4 { ip: 0x7f000001, port: 8881 }
}

#[test]
fn new_receive_task_misses_every_chunk() {
    let t = ReceiveFileTask::new(peer(), 3000);
    assert_eq!(t.from_addr, peer());
    assert_eq!(t.received, vec![0, 1, 2]);
    assert!(!t.is_complete());
    let empty = ReceiveFileTask::new(peer(), 0);
    assert!(empty.received.is_empty());
    assert!(empty.is_complete());
}

#[test]
fn position_finds_missing_chunk() {
    let t = ReceiveFileTask::new(peer(), 5000);
    assert_eq!(t.position(0), Some(0));
    assert_eq!(t.position(4), Some(4));
    assert_eq!(t.position(5), None);
}

#[test]
fn mark_received_crosses_off_one_chunk() {
    let mut t = ReceiveFileTask::new(peer(), 4096);
    t.mark_received(2);
    assert_eq!(t.received, vec![0, 1, 3]);
    assert_eq!(t.position(2), None);
    t.mark_received(0);
    t.mark_received(3);
    t.mark_received(1);
    assert!(t.is_complete());
}
