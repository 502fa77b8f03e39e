use transfer::addr::PeerAddr;
use transfer::launch::{echo_server, local_addr, parse_args, Launch, ReceiveBuf, KEEPALIVE_MS, RECV_BUF_LEN};
use transfer::protocol::Role;

fn argv(words: &[&str]) -> Vec<String> {
    words.iter().map(|w| w.to_string()).collect()
}

#[test]
fn no_arguments_waits_for_files() {
    assert_eq!(parse_args(&argv(&["transfer"])), Some(Launch::Get));
    assert_eq!(Launch::Get.role(), Role::Get);
}

#[test]
fn echoip_runs_the_server() {
    assert_eq!(parse_args(&argv(&["transfer", "echoip"])), Some(Launch::EchoIp));
    assert_eq!(Launch::EchoIp.role(), Role::EchoIp);
}

#[test]
fn send_takes_peer_and_file() {
    let l = parse_args(&argv(&["transfer", "send", "1.2.3.4:8880", "notes.txt"]));
    assert_eq!(
        l,
        Some(Launch::Send { remote_addr: "1.2.3.4:8880".to_string(), filename: "notes.txt".to_string() })
    );
    assert_eq!(l.unwrap().role(), Role::Send);
}

#[test]
fn other_command_lines_show_usage() {
    assert_eq!(parse_args(&argv(&[])), None);
    assert_eq!(parse_args(&argv(&["transfer", "get"])), None);
    assert_eq!(parse_args(&argv(&["transfer", "send", "1.2.3.4:8880"])), None);
    assert_eq!(parse_args(&argv(&["transfer", "echoip", "x"])), None);
    assert_eq!(parse_args(&argv(&["transfer", "push", "a", "b"])), None);
    assert_eq!(parse_args(&argv(&["transfer", "send", "a", "b", "c"])), None);
}

#[test]
fn listening_addresses() {
    assert_eq!(local_addr(Role::Get), "0.0.0.0:8880");
    assert_eq!(local_addr(Role::Send), "0.0.0.0:8881");
    assert_eq!(local_addr(Role::EchoIp), "0.0.0.0:8882");
    assert_eq!(echo_server(), "127.0.0.1:8882");
    assert_eq!(KEEPALIVE_MS, 60000);
    assert_eq!(RECV_BUF_LEN, 2048);
}

#[test]
fn datagrams_are_copied_and_empty_ones_dropped() {
    let from = PeerAddr::V4 { ip: 1, port: 2 };
    let mut buf = vec![0u8; RECV_BUF_LEN];
    buf[..3].copy_from_slice(&[5, 6, 7]);
    assert_eq!(ReceiveBuf::from_datagram(&buf, 3, from), Some(ReceiveBuf { from_addr: from, buf: vec![5, 6, 7] }));
    assert_eq!(ReceiveBuf::from_datagram(&buf, 0, from), None);
}
