use katya_mesh::codec::{decode_message, encode_message, frame, unframe, FrameStatus};
use katya_mesh::error::Error;
use katya_mesh::network::{
    broadcast_result, NetworkTransport, UdpDiscovery, ANNOUNCE_INTERVAL_SECS,
    MAX_ANNOUNCEMENT_LEN,
};
use katya_mesh::types::{discovery_group, Endpoint, Message, NodeId, Peer};

fn id_of(byte: u8) -> NodeId {
    NodeId::from_bytes([byte; 32])
}

fn peer(byte: u8) -> Peer {
    Peer::sighted(id_of(byte), Endpoint::v4(10, 0, 0, byte, 4000), 0)
}

fn transport() -> NetworkTransport {
    NetworkTransport::new(id_of(1), Endpoint::v4(127, 0, 0, 1, 0))
}

#[test]
fn test_network_transport_creation() {
    let node_id = NodeId::new();
    let addr = Endpoint::v4(127, 0, 0, 1, 0);

    let transport = NetworkTransport::new(node_id, addr);
    assert!(transport.get_peers().is_empty());
    assert_eq!(transport.connection_count(), 0);
    assert_eq!(transport.get_stats().messages_sent, 0);
}

#[test]
fn test_udp_discovery_creation() {
    let node_id = NodeId::new();
    let listen_addr = Endpoint::v4(127, 0, 0, 1, 0);
    let multicast_addr = Endpoint::v4(224, 0, 0, 1, 9999);

    let discovery = UdpDiscovery::new(node_id, listen_addr, multicast_addr);
    assert!(discovery.is_ok());
}

#[test]
fn transport_starts_once() {
    let mut t = transport();
    assert!(t.start().is_ok());
    assert!(matches!(t.start(), Err(Error::Network(_))));
}

#[test]
fn peer_without_address_cannot_be_connected() {
    let mut t = transport();
    let mut p = peer(2);
    p.addresses.clear();
    match NetworkTransport::dial_target(&p) {
        Err(Error::Network(text)) => assert_eq!(text, "Peer has no addresses"),
        _ => panic!("a peer without addresses got a dial target"),
    }
    assert!(matches!(t.connect_to_peer(p, 5), Err(Error::Network(_))));
    assert_eq!(t.connection_count(), 0);
}

#[test]
fn the_first_address_is_dialled() {
    let mut p = peer(2);
    p.addresses.push(Endpoint::v4(10, 9, 9, 9, 1));
    assert_eq!(NetworkTransport::dial_target(&p).unwrap(), Endpoint::v4(10, 0, 0, 2, 4000));
}

#[test]
fn unicast_dispatch() {
    let mut t = transport();
    t.connect_to_peer(peer(2), 5).unwrap();
    assert!(t.is_connected(&id_of(2)));
    let m = Message::unicast(id_of(1), id_of(2), b"q".to_vec());
    let out = t.dispatch(&m);
    assert!(out.result.is_ok());
    assert_eq!(out.frames.len(), 1);
    assert_eq!(out.frames[0].0, id_of(2));
    let encoded = encode_message(&m);
    assert_eq!(out.frames[0].1, frame(&encoded).unwrap());
    assert_eq!(out.frames[0].1.len(), encoded.len() + 4);
    let before = t.get_stats();
    t.record_sent(out.frames[0].1.len());
    let after = t.get_stats();
    assert_eq!(after.messages_sent, before.messages_sent + 1);
    assert_eq!(after.bytes_sent, before.bytes_sent + encoded.len() as u64 + 4);
    match unframe(&out.frames[0].1) {
        FrameStatus::Complete { payload, consumed } => {
            assert_eq!(consumed, out.frames[0].1.len());
            let back = decode_message(&payload).unwrap();
            assert_eq!(back.payload, b"q".to_vec());
            assert_eq!(back.to, Some(id_of(2)));
        }
        _ => panic!("the frame does not read back"),
    }
}

#[test]
fn send_reports_each_error() {
    let mut t = transport();
    let m = Message::unicast(id_of(1), id_of(2), b"q".to_vec());
    match t.send_message(&m, &id_of(2)) {
        Err(Error::PeerNotFound(text)) => assert_eq!(text, "0202020202020202"),
        _ => panic!("an unknown peer was served"),
    }
    t.connect_to_peer(peer(2), 5).unwrap();
    assert!(t.send_message(&m, &id_of(2)).is_ok());
    t.connection_closed(&id_of(2));
    match t.send_message(&m, &id_of(2)) {
        Err(Error::Network(text)) => assert_eq!(text, "No active connection to peer"),
        _ => panic!("a closed connection was served"),
    }
    t.connect_to_peer(peer(2), 6).unwrap();
    let mut huge = Message::unicast(id_of(1), id_of(2), vec![0u8; 16 * 1024 * 1024]);
    huge.id = 1;
    assert!(matches!(t.send_message(&huge, &id_of(2)), Err(Error::Network(_))));
    t.listener_failed("accept failed".to_string());
    match t.send_message(&m, &id_of(2)) {
        Err(Error::Network(text)) => assert_eq!(text, "accept failed"),
        _ => panic!("a failed listener was not reported"),
    }
    assert!(matches!(t.connect_to_peer(peer(3), 7), Err(Error::Network(_))));
    assert!(!t.is_connected(&id_of(3)));
}

#[test]
fn broadcast_partial_failure() {
    let mut t = transport();
    t.connect_to_peer(peer(1), 5).unwrap();
    t.connect_to_peer(peer(2), 5).unwrap();
    t.connection_closed(&id_of(2));
    let m = Message::broadcast(id_of(9), b"all".to_vec());
    let b = t.broadcast_message(&m);
    assert_eq!(b.failures, 1);
    assert_eq!(b.frames.len(), 1);
    assert_eq!(b.frames[0].0, id_of(1));
    assert_eq!(b.frames[0].1, frame(&encode_message(&m)).unwrap());
    match broadcast_result(b.failures) {
        Err(Error::Network(text)) => assert_eq!(text, "Broadcast failed with 1 errors"),
        _ => panic!("a partial failure was reported as success"),
    }
    let out = t.dispatch(&m);
    assert_eq!(out.frames.len(), 1);
    assert_eq!(out.frames[0].0, id_of(1));
    match out.result {
        Err(e) => assert_eq!(e.to_string(), "Network error: Broadcast failed with 1 errors"),
        Ok(_) => panic!("a partial failure was reported as success"),
    }
}

#[test]
fn broadcast_reaches_every_open_stream_in_order() {
    let mut t = transport();
    for b in [5u8, 3, 9, 4] {
        t.connect_to_peer(peer(b), 1).unwrap();
    }
    t.connection_closed(&id_of(9));
    let m = Message::broadcast(id_of(1), Vec::new());
    let b = t.broadcast_message(&m);
    let ids: Vec<NodeId> = b.frames.iter().map(|f| f.0).collect();
    assert_eq!(ids, vec![id_of(5), id_of(3), id_of(4)]);
    assert_eq!(b.failures, 1);
    assert!(b.frames.iter().all(|f| f.1 == b.frames[0].1));
    let empty = transport().broadcast_message(&m);
    assert!(empty.frames.is_empty());
    assert_eq!(empty.failures, 0);
    assert!(broadcast_result(0).is_ok());
    match broadcast_result(120) {
        Err(Error::Network(text)) => assert_eq!(text, "Broadcast failed with 120 errors"),
        _ => panic!("failures were reported as success"),
    }
    t.listener_failed("down".to_string());
    let b = t.broadcast_message(&m);
    assert!(b.frames.is_empty());
    assert_eq!(b.failures, 4);
}

#[test]
fn reconnecting_keeps_the_place_and_reopens_the_stream() {
    let mut t = transport();
    t.connect_to_peer(peer(2), 1).unwrap();
    t.connect_to_peer(peer(3), 1).unwrap();
    t.connection_closed(&id_of(2));
    t.connection_closed(&id_of(7));
    assert_eq!(t.connection_count(), 2);
    t.connect_to_peer(peer(2), 2).unwrap();
    assert_eq!(t.connection_count(), 2);
    let peers = t.get_peers();
    assert_eq!(peers[0].id, id_of(2));
    assert_eq!(peers[1].id, id_of(3));
    let b = t.broadcast_message(&Message::broadcast(id_of(1), Vec::new()));
    assert_eq!(b.failures, 0);
    assert_eq!(b.frames.len(), 2);
    assert_eq!(t.get_stats().peers_connected, 2);
    assert!(t.disconnect_peer(&id_of(2)).is_ok());
    assert!(t.disconnect_peer(&id_of(2)).is_ok());
    assert!(!t.is_connected(&id_of(2)));
    assert_eq!(t.get_peers().len(), 1);
    assert_eq!(t.get_stats().peers_connected, 1);
}

#[test]
fn inbound_queue_is_first_in_first_out() {
    let mut t = transport();
    assert!(t.receive_message().is_none());
    let a = Message::originate(1, 0, id_of(1), b"a".to_vec());
    let b = Message::originate(2, 0, id_of(1), b"b".to_vec());
    let from_a = Endpoint::v4(10, 0, 0, 1, 1);
    let from_b = Endpoint::v4(10, 0, 0, 2, 2);
    assert!(t.accept_frame(&encode_message(&a), from_a));
    assert!(t.accept_datagram(&encode_message(&b), from_b));
    assert!(!t.accept_frame(&[1, 2, 3], from_a));
    assert!(!t.accept_datagram(&[], from_b));
    assert_eq!(t.dropped_count(), 2);
    let (m, from) = t.receive_message().unwrap();
    assert_eq!(m.id, 1);
    assert_eq!(m.payload, b"a".to_vec());
    assert_eq!(from, from_a);
    let (m, from) = t.receive_message().unwrap();
    assert_eq!(m.id, 2);
    assert_eq!(from, from_b);
    assert!(t.receive_message().is_none());
}

#[test]
fn oversized_datagram_is_dropped_and_counted() {
    let mut t = transport();
    let big = Message::originate(1, 0, id_of(1), vec![0u8; 70_000]);
    let bytes = encode_message(&big);
    assert!(!t.accept_datagram(&bytes, Endpoint::v4(10, 0, 0, 1, 1)));
    assert_eq!(t.dropped_count(), 1);
    assert!(t.receive_message().is_none());
    assert!(t.accept_frame(&bytes, Endpoint::v4(10, 0, 0, 1, 1)));
    assert_eq!(t.receive_message().unwrap().0.payload.len(), 70_000);
}

#[test]
fn discovery_needs_a_multicast_group() {
    let listen = Endpoint::v4(127, 0, 0, 1, 0);
    assert!(matches!(
        UdpDiscovery::new(id_of(1), listen, Endpoint::v4(10, 0, 0, 1, 9999)),
        Err(Error::Network(_))
    ));
    assert!(UdpDiscovery::new(id_of(1), listen, discovery_group()).is_ok());
    assert_eq!(ANNOUNCE_INTERVAL_SECS, 30);
    assert_eq!(MAX_ANNOUNCEMENT_LEN, 1024);
}

#[test]
fn discovery_only_adds_and_ignores_itself() {
    let listen = Endpoint::v4(192, 168, 1, 5, 7000);
    let mut d = UdpDiscovery::new(id_of(1), listen, discovery_group()).unwrap();
    let own = d.announcement(123);
    assert_eq!(own.id, id_of(1));
    assert_eq!(own.addresses, vec![listen]);
    assert_eq!(own.last_seen, 123);
    assert!(!own.connected);
    assert!(!d.learn(own));
    assert_eq!(d.discovered_count(), 0);
    assert!(d.learn(peer(2)));
    assert!(d.learn(peer(3)));
    let mut newer = peer(2);
    newer.last_seen = 99;
    assert!(d.learn(newer));
    assert_eq!(d.discovered_count(), 2);
    let peers = d.get_discovered_peers();
    assert_eq!(peers[0].id, id_of(2));
    assert_eq!(peers[0].last_seen, 99);
    assert_eq!(peers[1].id, id_of(3));
}
