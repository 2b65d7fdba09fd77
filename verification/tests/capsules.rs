use nada::capsules::{
    dgram_capsule_from_udp_payload, sfv_bool_from_header, CapsuleDeframer, CapsuleError,
};
use nada::frames::OutboundFrame;

fn capsule(payload: &[u8]) -> Vec<u8> {
    match dgram_capsule_from_udp_payload(payload) {
        OutboundFrame::Body(bytes, false) => bytes,
        other => panic!("not an open body: {:?}", other),
    }
}

fn drain(deframer: &mut CapsuleDeframer) -> Vec<Vec<u8>> {
    let mut payloads = Vec::new();
    while let Some(payload) = deframer.pop_udp_payload() {
        payloads.push(payload);
    }
    payloads
}

#[test]
fn capsule_layout() {
    assert_eq!(capsule(&[]), vec![0x00, 0x01, 0x00]);
    assert_eq!(capsule(&[7, 8, 9]), vec![0x00, 0x04, 0x00, 7, 8, 9]);
    // 63 bytes and the context ID no longer fit in a length of one byte.
    let long = capsule(&[1; 63]);
    assert_eq!(long[..4], [0x00, 0x40, 0x40, 0x00]);
    assert_eq!(long.len(), 67);
    let longer = capsule(&vec![2; 16_383]);
    assert_eq!(longer[..6], [0x00, 0x80, 0x00, 0x40, 0x00, 0x00]);
    assert_eq!(longer.len(), 6 + 16_383);
}

#[test]
fn capsules_come_back() {
    let payloads: Vec<Vec<u8>> = vec![vec![], vec![1], vec![2; 62], vec![3; 63], vec![4; 20_000]];
    let mut deframer = CapsuleDeframer::new();
    let mut stream = Vec::new();
    for payload in &payloads {
        stream.extend(capsule(payload));
    }
    deframer.feed(&stream);
    assert_eq!(drain(&mut deframer), payloads);
    assert_eq!(deframer.pop_udp_payload(), None);
}

#[test]
fn chunks_do_not_matter() {
    let payloads: Vec<Vec<u8>> = vec![vec![9; 100], vec![], vec![8; 300]];
    let stream: Vec<u8> = payloads.iter().flat_map(|p| capsule(p)).collect();
    for size in 1..stream.len() + 1 {
        let mut deframer = CapsuleDeframer::default();
        let mut got = Vec::new();
        for chunk in stream.chunks(size) {
            deframer.feed(chunk);
            got.extend(drain(&mut deframer));
        }
        assert_eq!(got, payloads);
    }
}

#[test]
fn longer_encodings_are_read_too() {
    let mut deframer = CapsuleDeframer::new();
    // A length in four bytes and a context ID in two.
    deframer.feed(&[0x00, 0x80, 0x00, 0x00, 0x04, 0x40, 0x00, 5, 6]);
    assert_eq!(deframer.pop_udp_payload(), Some(vec![5, 6]));
}

#[test]
fn nothing_comes_of_half_a_capsule() {
    let mut deframer = CapsuleDeframer::new();
    deframer.feed(&[]);
    deframer.feed(&[0x00, 0x40]);
    assert_eq!(deframer.pop_udp_payload(), None);
    deframer.feed(&[0x03, 0x00, 1]);
    assert_eq!(deframer.pop_udp_payload(), None);
    deframer.feed(&[2]);
    assert_eq!(deframer.pop_udp_payload(), Some(vec![1, 2]));
}

#[test]
fn other_capsule_types_are_refused() {
    let mut deframer = CapsuleDeframer::new();
    assert_eq!(deframer.try_feed(&[0x37, 0x00]), Err(CapsuleError::UnsupportedType(0x37)));
    assert_eq!(deframer.try_feed(&capsule(&[1])), Err(CapsuleError::UnsupportedType(0x37)));
    assert_eq!(deframer.pop_udp_payload(), None);
}

#[test]
fn long_capsule_types_are_refused() {
    let mut deframer = CapsuleDeframer::new();
    assert_eq!(deframer.try_feed(&[0x40, 0x00]), Err(CapsuleError::LongType));
}

#[test]
fn values_need_a_context_id() {
    let mut deframer = CapsuleDeframer::new();
    assert_eq!(deframer.try_feed(&[0x00, 0x00]), Ok(()));
    assert_eq!(deframer.try_feed(&[0x00]), Err(CapsuleError::MissingContextId));
    let mut deframer = CapsuleDeframer::new();
    assert_eq!(deframer.try_feed(&[0x00, 0x01, 0x40]), Err(CapsuleError::MissingContextId));
}

#[test]
fn other_context_ids_are_refused() {
    let mut deframer = CapsuleDeframer::new();
    let mut stream = capsule(&[1]);
    stream.extend([0x00, 0x02, 0x05, 9]);
    assert_eq!(deframer.try_feed(&stream), Err(CapsuleError::UnknownContextId(5)));
    // What was complete before is still there.
    assert_eq!(deframer.pop_udp_payload(), Some(vec![1]));
    assert_eq!(deframer.pop_udp_payload(), None);
}

#[test]
fn capsule_protocol_values() {
    assert_eq!(sfv_bool_from_header(Some(b"?1".to_vec())), b"?1".to_vec());
    assert_eq!(sfv_bool_from_header(Some(b"?0".to_vec())), b"?0".to_vec());
    assert_eq!(sfv_bool_from_header(None), b"?0".to_vec());
    for other in [&b""[..], b"1", b"?1 ", b"?2", b"true"] {
        assert_eq!(sfv_bool_from_header(Some(other.to_vec())), b"?0".to_vec());
    }
    let once = sfv_bool_from_header(Some(b"yes".to_vec()));
    assert_eq!(sfv_bool_from_header(Some(once.clone())), once);
}
