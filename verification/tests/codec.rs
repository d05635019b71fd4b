use katya_mesh::codec::{
    decode_datagram, decode_message, encode_message, frame, unframe, FrameStatus,
    MAX_DATAGRAM_LEN, MAX_FRAME_LEN,
};
use katya_mesh::error::Error;
use katya_mesh::types::{Message, MessageType, NodeId, ProtocolType};

fn id_of(byte: u8) -> NodeId {
    NodeId::from_bytes([byte; 32])
}

fn sample() -> Message {
    let mut m = Message::originate(0x0102030405060708, 0x1112131415161718, id_of(0xAA), b"hi".to_vec());
    m.message_type = MessageType::Unicast;
    m.protocol_type = ProtocolType::Gossip;
    m.to = Some(id_of(0xBB));
    m.ttl = 4;
    m.hops = 1;
    m.signature = Some(vec![0xCC, 0xDD, 0xEE]);
    m
}

fn same(a: &Message, b: &Message) -> bool {
    a.id == b.id
        && a.message_type == b.message_type
        && a.protocol_type == b.protocol_type
        && a.from == b.from
        && a.to == b.to
        && a.payload == b.payload
        && a.timestamp == b.timestamp
        && a.ttl == b.ttl
        && a.hops == b.hops
        && a.signature == b.signature
}

#[test]
fn encoding_is_exact() {
    let bytes = encode_message(&sample());
    let mut expected: Vec<u8> = Vec::new();
    expected.extend_from_slice(&[8, 7, 6, 5, 4, 3, 2, 1]);
    expected.extend_from_slice(&[5, 0, 0, 0]);
    expected.extend_from_slice(&[1, 0, 0, 0]);
    expected.extend_from_slice(&[0xAA; 32]);
    expected.push(1);
    expected.extend_from_slice(&[0xBB; 32]);
    expected.extend_from_slice(&[2, 0, 0, 0, 0, 0, 0, 0]);
    expected.extend_from_slice(b"hi");
    expected.extend_from_slice(&[0x18, 0x17, 0x16, 0x15, 0x14, 0x13, 0x12, 0x11]);
    expected.extend_from_slice(&[4, 0, 0, 0]);
    expected.extend_from_slice(&[1, 0, 0, 0]);
    expected.push(1);
    expected.extend_from_slice(&[3, 0, 0, 0, 0, 0, 0, 0]);
    expected.extend_from_slice(&[0xCC, 0xDD, 0xEE]);
    assert_eq!(bytes, expected);
}

#[test]
fn encoding_of_a_broadcast_without_signature_is_exact() {
    let m = Message::originate(1, 2, id_of(0), Vec::new());
    let bytes = encode_message(&m);
    let mut expected: Vec<u8> = Vec::new();
    expected.extend_from_slice(&[1, 0, 0, 0, 0, 0, 0, 0]);
    expected.extend_from_slice(&[0, 0, 0, 0]);
    expected.extend_from_slice(&[3, 0, 0, 0]);
    expected.extend_from_slice(&[0; 32]);
    expected.push(0);
    expected.extend_from_slice(&[0; 8]);
    expected.extend_from_slice(&[2, 0, 0, 0, 0, 0, 0, 0]);
    expected.extend_from_slice(&[64, 0, 0, 0]);
    expected.extend_from_slice(&[0, 0, 0, 0]);
    expected.push(0);
    assert_eq!(bytes, expected);
    assert_eq!(bytes.len(), 74);
}

#[test]
fn encoding_matches_bincode_of_the_fields() {
    let m = sample();
    let fields = (
        m.id,
        5u32,
        1u32,
        *m.from.as_bytes(),
        m.to.map(|id| *id.as_bytes()),
        m.payload.clone(),
        m.timestamp,
        m.ttl,
        m.hops,
        m.signature.clone(),
    );
    let reference = bincode::serialize(&fields).unwrap();
    assert_eq!(encode_message(&m), reference);
    let plain = Message::originate(9, 10, id_of(3), b"plain".to_vec());
    let fields = (
        9u64,
        0u32,
        3u32,
        [3u8; 32],
        None::<[u8; 32]>,
        b"plain".to_vec(),
        10u64,
        64u32,
        0u32,
        None::<Vec<u8>>,
    );
    assert_eq!(encode_message(&plain), bincode::serialize(&fields).unwrap());
}

#[test]
fn decode_inverts_encode() {
    let m = sample();
    let back = decode_message(&encode_message(&m)).unwrap();
    assert!(same(&m, &back));
    let empty = Message::originate(0, 0, id_of(0), Vec::new());
    let back = decode_message(&encode_message(&empty)).unwrap();
    assert!(same(&empty, &back));
    assert!(back.payload.is_empty());
}

#[test]
fn every_kind_and_protocol_round_trips() {
    let kinds = [
        MessageType::Data,
        MessageType::Control,
        MessageType::Discovery,
        MessageType::Encrypted,
        MessageType::Broadcast,
        MessageType::Unicast,
        MessageType::Multicast,
    ];
    let protocols = [
        ProtocolType::Flooding,
        ProtocolType::Gossip,
        ProtocolType::Consensus,
        ProtocolType::Direct,
    ];
    for (i, kind) in kinds.iter().enumerate() {
        for (j, protocol) in protocols.iter().enumerate() {
            let mut m = sample();
            m.message_type = *kind;
            m.protocol_type = *protocol;
            let bytes = encode_message(&m);
            assert_eq!(bytes[8], i as u8);
            assert_eq!(bytes[12], j as u8);
            assert!(same(&m, &decode_message(&bytes).unwrap()));
        }
    }
}

#[test]
fn decode_reencodes_to_the_same_bytes() {
    let bytes = encode_message(&sample());
    let m = decode_message(&bytes).unwrap();
    assert_eq!(encode_message(&m), bytes);
}

#[test]
fn decode_refuses_what_is_no_encoding() {
    let good = encode_message(&sample());
    assert!(matches!(decode_message(&[]), Err(Error::Serialization(_))));
    for cut in 0..good.len() {
        assert!(matches!(decode_message(&good[..cut]), Err(Error::Serialization(_))));
    }
    let mut trailing = good.clone();
    trailing.push(0);
    assert!(matches!(decode_message(&trailing), Err(Error::Serialization(_))));
    let mut bad_kind = good.clone();
    bad_kind[8] = 7;
    assert!(matches!(decode_message(&bad_kind), Err(Error::Serialization(_))));
    let mut bad_protocol = good.clone();
    bad_protocol[12] = 4;
    assert!(matches!(decode_message(&bad_protocol), Err(Error::Serialization(_))));
    let mut bad_tag = good.clone();
    bad_tag[48] = 2;
    assert!(matches!(decode_message(&bad_tag), Err(Error::Serialization(_))));
    let mut bad_len = good.clone();
    bad_len[81] = 0xFF;
    bad_len[88] = 0xFF;
    assert!(matches!(decode_message(&bad_len), Err(Error::Serialization(_))));
}

#[test]
fn frame_prefix_is_big_endian_length() {
    let framed = frame(b"hello").unwrap();
    assert_eq!(framed, vec![0, 0, 0, 5, b'h', b'e', b'l', b'l', b'o']);
    let framed = frame(&[]).unwrap();
    assert_eq!(framed, vec![0, 0, 0, 0]);
    let big = vec![7u8; 0x01_02_03];
    let framed = frame(&big).unwrap();
    assert_eq!(framed[..4], [0, 1, 2, 3]);
    assert_eq!(framed.len(), 4 + big.len());
}

#[test]
fn frame_refuses_more_than_sixteen_mebibytes() {
    assert_eq!(MAX_FRAME_LEN, 16 * 1024 * 1024);
    let at_limit = vec![0u8; MAX_FRAME_LEN];
    assert!(frame(&at_limit).is_ok());
    let over = vec![0u8; MAX_FRAME_LEN + 1];
    assert!(matches!(frame(&over), Err(Error::Network(_))));
}

#[test]
fn unframe_reads_one_frame_at_a_time() {
    let mut buffer = frame(b"one").unwrap();
    buffer.extend_from_slice(&frame(b"three").unwrap());
    match unframe(&buffer) {
        FrameStatus::Complete { payload, consumed } => {
            assert_eq!(payload, b"one".to_vec());
            assert_eq!(consumed, 7);
            match unframe(&buffer[consumed..]) {
                FrameStatus::Complete { payload, consumed } => {
                    assert_eq!(payload, b"three".to_vec());
                    assert_eq!(consumed, 9);
                }
                _ => panic!("second frame not read"),
            }
        }
        _ => panic!("first frame not read"),
    }
}

#[test]
fn unframe_waits_for_missing_bytes_and_refuses_oversize() {
    assert!(matches!(unframe(&[]), FrameStatus::Incomplete));
    assert!(matches!(unframe(&[0, 0, 0]), FrameStatus::Incomplete));
    assert!(matches!(unframe(&[0, 0, 0, 2, 1]), FrameStatus::Incomplete));
    assert!(matches!(
        unframe(&[0, 0, 0, 0]),
        FrameStatus::Complete { consumed: 4, .. }
    ));
    assert!(matches!(unframe(&[1, 0, 0, 1]), FrameStatus::Oversized));
    assert!(matches!(unframe(&[1, 0, 0, 0]), FrameStatus::Incomplete));
    assert!(matches!(unframe(&[0xFF, 0xFF, 0xFF, 0xFF, 0]), FrameStatus::Oversized));
}

#[test]
fn datagram_over_the_limit_is_refused_unread() {
    assert_eq!(MAX_DATAGRAM_LEN, 65536);
    let mut m = sample();
    m.signature = None;
    m.payload = vec![1u8; 65536];
    let bytes = encode_message(&m);
    assert!(bytes.len() > MAX_DATAGRAM_LEN);
    assert!(decode_message(&bytes).is_ok());
    assert!(matches!(decode_datagram(&bytes), Err(Error::Serialization(_))));
    let header = encode_message(&{
        let mut h = sample();
        h.signature = None;
        h.payload = Vec::new();
        h
    })
    .len();
    m.payload = vec![1u8; 65536 - header];
    let bytes = encode_message(&m);
    assert_eq!(bytes.len(), MAX_DATAGRAM_LEN);
    let back = decode_datagram(&bytes).unwrap();
    assert_eq!(back.payload.len(), 65536 - header);
    assert!(matches!(decode_datagram(&[1, 2, 3]), Err(Error::Serialization(_))));
}
