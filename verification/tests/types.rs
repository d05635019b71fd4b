use katya_mesh::hexcode::HexError;
use katya_mesh::types::{
    discovery_group, Endpoint, IpAddress, MeshStats, Message, MessageType, NodeConfig, NodeId, Peer,
    ProtocolType,
};

fn sample_id(seed: u8) -> NodeId {
    let mut bytes = [0u8; 32];
    for (i, b) in bytes.iter_mut().enumerate() {
        *b = seed.wrapping_add(i as u8);
    }
    NodeId::from_bytes(bytes)
}

#[test]
fn node_id_round_trips_through_bytes() {
    let id = sample_id(3);
    assert_eq!(NodeId::from_bytes(*id.as_bytes()), id);
    assert_eq!(id.as_bytes()[0], 3);
    assert_eq!(id.as_bytes()[31], 34);
}

#[test]
fn node_id_hex_is_lowercase_and_exact() {
    let mut bytes = [0u8; 32];
    bytes[0] = 0xAB;
    bytes[1] = 0x01;
    bytes[31] = 0xFF;
    let id = NodeId::from_bytes(bytes);
    let expected = format!("ab01{}ff", "00".repeat(29));
    assert_eq!(id.to_hex(), expected);
    assert_eq!(id.to_hex().len(), 64);
}

#[test]
fn node_id_short_form_is_first_sixteen_digits() {
    let id = sample_id(0x10);
    assert_eq!(id.to_string(), "1011121314151617");
    assert_eq!(id.to_string(), id.to_hex()[..16].to_string());
}

#[test]
fn node_id_parses_both_cases() {
    let id = sample_id(0xA0);
    let lower = id.to_hex();
    let upper = lower.to_uppercase();
    assert_eq!(NodeId::from_hex(&lower), Ok(id));
    assert_eq!(NodeId::from_hex(&upper), Ok(id));
}

#[test]
fn node_id_from_hex_reports_each_error() {
    assert_eq!(NodeId::from_hex("abc"), Err(HexError::OddLength));
    assert_eq!(
        NodeId::from_hex("zz"),
        Err(HexError::InvalidHexCharacter { c: 'z', index: 0 })
    );
    assert_eq!(
        NodeId::from_hex("0g"),
        Err(HexError::InvalidHexCharacter { c: 'g', index: 1 })
    );
    assert_eq!(NodeId::from_hex("abcd"), Err(HexError::InvalidStringLength));
    assert_eq!(NodeId::from_hex(""), Err(HexError::InvalidStringLength));
    let too_long = "00".repeat(33);
    assert_eq!(NodeId::from_hex(&too_long), Err(HexError::InvalidStringLength));
}

#[test]
fn fresh_node_ids_carry_the_uuid_marks_and_differ() {
    let a = NodeId::new();
    let b = NodeId::new();
    assert_eq!(a.as_bytes()[6] & 0xF0, 0x40);
    assert_eq!(a.as_bytes()[8] & 0xC0, 0x80);
    assert_eq!(b.as_bytes()[6] & 0xF0, 0x40);
    assert_eq!(b.as_bytes()[8] & 0xC0, 0x80);
    assert_ne!(a, b);
    assert_ne!(a.as_bytes()[16..], [0u8; 16]);
    let c = NodeId::default();
    assert_eq!(c.as_bytes()[6] & 0xF0, 0x40);
}

#[test]
fn node_id_from_halves_concatenates() {
    let head = [1u8; 16];
    let tail = [2u8; 16];
    let id = NodeId::from_halves(&head, &tail);
    assert_eq!(id.as_bytes()[..16], [1u8; 16]);
    assert_eq!(id.as_bytes()[16..], [2u8; 16]);
}

#[test]
fn new_message_has_the_documented_defaults() {
    let from = sample_id(1);
    let m = Message::new(from, b"payload".to_vec());
    assert_eq!(m.message_type, MessageType::Data);
    assert_eq!(m.protocol_type, ProtocolType::Direct);
    assert_eq!(m.from, from);
    assert_eq!(m.to, None);
    assert_eq!(m.payload, b"payload".to_vec());
    assert_eq!(m.ttl, 64);
    assert_eq!(m.hops, 0);
    assert_eq!(m.signature, None);
    assert!(m.timestamp > 1_600_000_000);
}

#[test]
fn new_messages_draw_different_ids() {
    let from = sample_id(1);
    let a = Message::new(from, Vec::new());
    let b = Message::new(from, Vec::new());
    let c = Message::new(from, Vec::new());
    assert!(a.id != b.id || b.id != c.id);
}

#[test]
fn originate_pins_every_field() {
    let from = sample_id(9);
    let m = Message::originate(42, 1000, from, vec![1, 2, 3]);
    assert_eq!(m.id, 42);
    assert_eq!(m.timestamp, 1000);
    assert_eq!(m.message_type, MessageType::Data);
    assert_eq!(m.protocol_type, ProtocolType::Direct);
    assert_eq!(m.from, from);
    assert_eq!(m.to, None);
    assert_eq!(m.payload, vec![1, 2, 3]);
    assert_eq!(m.ttl, 64);
    assert_eq!(m.hops, 0);
    assert_eq!(m.signature, None);
}

#[test]
fn broadcast_and_unicast_set_kind_and_destination() {
    let from = sample_id(1);
    let to = sample_id(2);
    let b = Message::broadcast(from, b"x".to_vec());
    assert_eq!(b.message_type, MessageType::Broadcast);
    assert_eq!(b.to, None);
    assert_eq!(b.ttl, 64);
    let u = Message::unicast(from, to, b"y".to_vec());
    assert_eq!(u.message_type, MessageType::Unicast);
    assert_eq!(u.to, Some(to));
    assert_eq!(u.from, from);
    assert_eq!(u.payload, b"y".to_vec());
    assert_eq!(u.hops, 0);
}

#[test]
fn expiry_is_hops_at_least_ttl() {
    let mut m = Message::originate(1, 0, sample_id(1), Vec::new());
    m.ttl = 2;
    assert!(!m.is_expired());
    m.increment_hops();
    assert_eq!(m.hops, 1);
    assert!(!m.is_expired());
    m.increment_hops();
    assert_eq!(m.hops, 2);
    assert!(m.is_expired());
    m.ttl = 0;
    m.hops = 0;
    assert!(m.is_expired());
}

#[test]
fn malformed_is_unicast_or_multicast_without_destination() {
    let mut m = Message::originate(1, 0, sample_id(1), Vec::new());
    assert!(!m.is_malformed());
    m.message_type = MessageType::Unicast;
    assert!(m.is_malformed());
    m.message_type = MessageType::Multicast;
    assert!(m.is_malformed());
    m.to = Some(sample_id(2));
    assert!(!m.is_malformed());
    m.message_type = MessageType::Broadcast;
    m.to = None;
    assert!(!m.is_malformed());
}

#[test]
fn message_clone_keeps_every_field() {
    let mut m = Message::originate(7, 8, sample_id(1), vec![9, 9]);
    m.to = Some(sample_id(2));
    m.signature = Some(vec![5; 64]);
    m.hops = 3;
    let c = m.clone();
    assert_eq!(c.id, 7);
    assert_eq!(c.timestamp, 8);
    assert_eq!(c.to, m.to);
    assert_eq!(c.payload, m.payload);
    assert_eq!(c.signature, m.signature);
    assert_eq!(c.hops, 3);
}

#[test]
fn endpoint_v4_spells_the_address_in_network_order() {
    let e = Endpoint::v4(127, 0, 0, 1, 8080);
    assert_eq!(e.ip, IpAddress::V4(0x7F00_0001));
    assert_eq!(e.port, 8080);
    assert_eq!(Endpoint::v4(255, 255, 255, 255, 0).ip, IpAddress::V4(0xFFFF_FFFF));
}

#[test]
fn multicast_ranges() {
    assert!(Endpoint::v4(224, 0, 0, 1, 0).ip.is_multicast());
    assert!(Endpoint::v4(239, 255, 255, 255, 0).ip.is_multicast());
    assert!(!Endpoint::v4(223, 255, 255, 255, 0).ip.is_multicast());
    assert!(!Endpoint::v4(240, 0, 0, 0, 0).ip.is_multicast());
    assert!(!Endpoint::v4(127, 0, 0, 1, 0).ip.is_multicast());
    assert!(IpAddress::V6(0xFF02u128 << 112).is_multicast());
    assert!(!IpAddress::V6(1).is_multicast());
    assert!(!IpAddress::V6(0xFEFFu128 << 112).is_multicast());
    let group = discovery_group();
    assert_eq!(group, Endpoint::v4(224, 0, 0, 1, 9999));
    assert!(group.ip.is_multicast());
}

#[test]
fn peer_liveness_is_three_hundred_seconds() {
    let p = Peer::sighted(sample_id(1), Endpoint::v4(10, 0, 0, 1, 1), 1000);
    assert_eq!(p.last_seen, 1000);
    assert!(!p.connected);
    assert!(p.metadata.is_empty());
    assert_eq!(p.addresses, vec![Endpoint::v4(10, 0, 0, 1, 1)]);
    assert!(p.is_alive_at(1000));
    assert!(p.is_alive_at(1299));
    assert!(!p.is_alive_at(1300));
    assert!(!p.is_alive_at(5000));
    assert!(p.is_alive_at(10));
}

#[test]
fn peer_touch_and_clock() {
    let mut p = Peer::sighted(sample_id(1), Endpoint::v4(10, 0, 0, 1, 1), 5);
    assert!(!p.is_alive());
    p.touch(77);
    assert_eq!(p.last_seen, 77);
    p.update_last_seen();
    assert!(p.last_seen > 1_600_000_000);
    assert!(p.is_alive());
    let q = Peer::new(sample_id(2), Endpoint::v4(10, 0, 0, 2, 1));
    assert!(q.last_seen > 1_600_000_000);
    assert!(q.is_alive());
    let c = q.clone();
    assert_eq!(c.id, q.id);
    assert_eq!(c.addresses, q.addresses);
    assert_eq!(c.last_seen, q.last_seen);
}

#[test]
fn config_defaults() {
    let c = NodeConfig::default();
    assert_eq!(c.listen_addr, Endpoint::v4(127, 0, 0, 1, 0));
    assert_eq!(c.max_peers, 100);
    assert_eq!(c.heartbeat_interval, 30);
    assert_eq!(c.protocol, ProtocolType::Gossip);
    assert!(c.enable_encryption);
    assert!(!c.enable_compression);
    let id = sample_id(4);
    let d = NodeConfig::with_node_id(id);
    assert_eq!(d.node_id, id);
    assert_eq!(d.max_peers, 100);
}

#[test]
fn stats_start_at_zero() {
    let s = MeshStats::default();
    assert_eq!(s.messages_sent, 0);
    assert_eq!(s.messages_received, 0);
    assert_eq!(s.bytes_sent, 0);
    assert_eq!(s.bytes_received, 0);
    assert_eq!(s.peers_connected, 0);
    assert_eq!(s.peers_discovered, 0);
    assert_eq!(s.uptime_seconds, 0);
}

#[test]
fn version_is_reported() {
    assert_eq!(katya_mesh::version(), "0.1.0");
}
