use transfer::frame::{UdpPackage, HEADER_LEN};

#[test]
fn who_am_i_frame_bytes() {
    let p = UdpPackage { cmd: 3, buf: vec![0] };
    assert_eq!(p.to_bytes(), vec![3, 1, 0, 0, 0, 0, 0, 0, 0, 0]);
    assert_eq!(HEADER_LEN, 9);
}

#[test]
fn frame_matches_bincode_of_command_and_payload() {
    let cases: Vec<(u8, Vec<u8>)> = vec![
        (1, vec![]),
        (2, vec![1, 2, 3]),
        (8, (0..=255u8).collect()),
        (200, vec![7; 1500]),
    ];
    for (cmd, buf) in cases {
        let ours = UdpPackage { cmd, buf: buf.clone() }.to_bytes();
        let theirs = bincode::serialize(&(cmd, buf.clone())).unwrap();
        assert_eq!(ours, theirs);
    }
}

#[test]
fn frame_round_trip() {
    let p = UdpPackage { cmd: 6, buf: vec![9, 8, 7, 6] };
    let bytes = p.to_bytes();
    assert_eq!(UdpPackage::from_bytes(&bytes), Some(p));
}

#[test]
fn frame_ignores_trailing_bytes() {
    let mut bytes = UdpPackage { cmd: 5, buf: vec![1, 2] }.to_bytes();
    bytes.extend_from_slice(&[99, 98]);
    assert_eq!(UdpPackage::from_bytes(&bytes), Some(UdpPackage { cmd: 5, buf: vec![1, 2] }));
}

#[test]
fn frame_too_short() {
    assert_eq!(UdpPackage::from_bytes(&[]), None);
    assert_eq!(UdpPackage::from_bytes(&[1, 0, 0, 0, 0, 0, 0, 0]), None);
}

#[test]
fn frame_payload_cut_off() {
    let bytes = vec![2, 5, 0, 0, 0, 0, 0, 0, 0, 1, 2, 3, 4];
    assert_eq!(UdpPackage::from_bytes(&bytes), None);
    let huge = vec![2, 255, 255, 255, 255, 255, 255, 255, 255, 1];
    assert_eq!(UdpPackage::from_bytes(&huge), None);
}

#[test]
fn frame_empty_payload() {
    let bytes = vec![4, 0, 0, 0, 0, 0, 0, 0, 0];
    assert_eq!(UdpPackage::from_bytes(&bytes), Some(UdpPackage { cmd: 4, buf: vec![] }));
}

#[test]
fn frame_reading_agrees_with_bincode() {
    let inputs: Vec<Vec<u8>> = vec![
        vec![],
        vec![1],
        vec![1, 0, 0, 0, 0, 0, 0, 0, 0],
        vec![1, 2, 0, 0, 0, 0, 0, 0, 0, 5],
        vec![1, 2, 0, 0, 0, 0, 0, 0, 0, 5, 6],
        vec![1, 2, 0, 0, 0, 0, 0, 0, 0, 5, 6, 7, 8],
        vec![9, 1, 0, 0, 0, 0, 0, 0, 1, 5],
    ];
    for input in inputs {
        let ours = UdpPackage::from_bytes(&input).map(|p| (p.cmd, p.buf));
        let theirs = bincode::deserialize::<(u8, Vec<u8>)>(&input).ok();
        assert_eq!(ours, theirs, "input {:?}", input);
    }
}
