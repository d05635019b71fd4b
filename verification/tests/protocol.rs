use katya_mesh::consensus::{
    count_approvals, decide, ConsensusProtocol, Proposal, PROPOSAL_TIMEOUT_SECS,
};
use katya_mesh::error::Error;
use katya_mesh::idmap::IdMap;
use katya_mesh::protocol::{
    forward, name_of, FloodingProtocol, GossipProtocol, MeshProtocol, Protocol, ProtocolRegistry,
    ProtocolStats,
};
use katya_mesh::seen::{fresh, SeenSet, SEEN_TTL_SECS, SWEEP_INTERVAL_SECS};
use katya_mesh::types::{Endpoint, Message, MessageType, NodeId, Peer, ProtocolType};

fn id_of(byte: u8) -> NodeId {
    NodeId::from_bytes([byte; 32])
}

fn flood_message(ttl: u32, hops: u32) -> Message {
    let mut m = Message::originate(0x00000000CAFEBABE, 1000, id_of(0xA), b"hi".to_vec());
    m.message_type = MessageType::Broadcast;
    m.protocol_type = ProtocolType::Flooding;
    m.ttl = ttl;
    m.hops = hops;
    m
}

fn peer(byte: u8) -> Peer {
    Peer::sighted(id_of(byte), Endpoint::v4(10, 0, 0, byte, 4000), 0)
}

#[test]
fn test_flooding_protocol() {
    let node_id = NodeId::new();
    let mut protocol = FloodingProtocol::new(node_id);
    let message = Message::broadcast(node_id, b"Hello".to_vec());

    let responses = protocol.handle_message(&message, &NodeId::new()).unwrap();
    assert_eq!(responses.len(), 1);

    // Second time should return empty (already seen)
    let responses2 = protocol.handle_message(&message, &NodeId::new()).unwrap();
    assert_eq!(responses2.len(), 0);
}

#[test]
fn test_gossip_protocol() {
    let node_id = NodeId::new();
    let mut protocol = GossipProtocol::new(node_id);
    let message = Message::broadcast(node_id, b"Hello".to_vec());

    let responses = protocol.handle_message(&message, &NodeId::new()).unwrap();
    assert_eq!(responses.len(), 1);
}

#[test]
fn test_consensus_protocol() {
    let node_id = NodeId::new();
    let mut protocol = ConsensusProtocol::new(node_id);

    protocol.propose(1, b"Test proposal".to_vec()).unwrap();

    let consensus = protocol.check_consensus(1).unwrap();
    assert_eq!(consensus, Some(true)); // Single node consensus
}

#[test]
fn flood_suppression() {
    let mut protocol = FloodingProtocol::new(id_of(1));
    let m = flood_message(4, 0);
    let first = protocol.handle_message(&m, &id_of(2)).unwrap();
    assert_eq!(first.len(), 1);
    assert_eq!(first[0].hops, 1);
    assert_eq!(first[0].id, 0xCAFEBABE);
    assert_eq!(first[0].from, id_of(0xA));
    assert_eq!(first[0].to, None);
    assert_eq!(first[0].payload, b"hi".to_vec());
    assert_eq!(first[0].ttl, 4);
    assert_eq!(first[0].protocol_type, ProtocolType::Flooding);
    assert_eq!(first[0].message_type, MessageType::Broadcast);
    let second = protocol.handle_message(&m, &id_of(2)).unwrap();
    assert!(second.is_empty());
}

#[test]
fn ttl_expiry() {
    let mut protocol = FloodingProtocol::new(id_of(1));
    let m = flood_message(1, 1);
    assert!(protocol.handle_message(&m, &id_of(2)).unwrap().is_empty());
    let mut gossip = GossipProtocol::new(id_of(1));
    assert!(gossip.handle_message(&m, &id_of(2)).unwrap().is_empty());
}

#[test]
fn ttl_zero_emits_nothing() {
    let mut flooding = FloodingProtocol::new(id_of(1));
    let mut gossip = GossipProtocol::new(id_of(1));
    let m = flood_message(0, 0);
    assert!(flooding.handle_message_at(&m, &id_of(2), 5).unwrap().is_empty());
    assert!(gossip.handle_message_at(&m, &id_of(2), 5).unwrap().is_empty());
    let over = flood_message(3, 9);
    assert!(flooding.handle_message_at(&over, &id_of(2), 5).unwrap().is_empty());
}

#[test]
fn last_hop_is_still_forwarded() {
    let mut flooding = FloodingProtocol::new(id_of(1));
    let m = flood_message(4, 3);
    let out = flooding.handle_message_at(&m, &id_of(2), 5).unwrap();
    assert_eq!(out.len(), 1);
    assert_eq!(out[0].hops, 4);
    let mut edge = flood_message(u32::MAX, u32::MAX - 1);
    edge.id = 77;
    let out = flooding.handle_message_at(&edge, &id_of(2), 5).unwrap();
    assert_eq!(out[0].hops, u32::MAX);
}

#[test]
fn an_expired_message_is_remembered_all_the_same() {
    let mut flooding = FloodingProtocol::new(id_of(1));
    assert!(flooding.handle_message_at(&flood_message(1, 1), &id_of(2), 5).unwrap().is_empty());
    assert!(flooding.handle_message_at(&flood_message(4, 0), &id_of(2), 6).unwrap().is_empty());
}

#[test]
fn duplicate_id_with_other_payload_is_suppressed() {
    let mut gossip = GossipProtocol::new(id_of(1));
    let m = flood_message(4, 0);
    assert_eq!(gossip.handle_message_at(&m, &id_of(2), 5).unwrap().len(), 1);
    let mut other = flood_message(9, 2);
    other.payload = b"something else".to_vec();
    other.from = id_of(0xB);
    assert!(gossip.handle_message_at(&other, &id_of(3), 6).unwrap().is_empty());
}

#[test]
fn empty_payload_is_forwarded() {
    let mut flooding = FloodingProtocol::new(id_of(1));
    let mut m = flood_message(4, 0);
    m.payload = Vec::new();
    let out = flooding.handle_message_at(&m, &id_of(2), 5).unwrap();
    assert_eq!(out.len(), 1);
    assert!(out[0].payload.is_empty());
    assert_eq!(flooding.stats().bytes_processed, 0);
    assert_eq!(flooding.stats().messages_processed, 1);
}

#[test]
fn gossip_output_carries_the_gossip_tag() {
    let mut gossip = GossipProtocol::new(id_of(1));
    let mut m = flood_message(4, 0);
    m.to = Some(id_of(7));
    m.signature = Some(vec![1, 2, 3]);
    let out = gossip.handle_message_at(&m, &id_of(2), 5).unwrap();
    assert_eq!(out.len(), 1);
    assert_eq!(out[0].protocol_type, ProtocolType::Gossip);
    assert_eq!(out[0].hops, 1);
    assert_eq!(out[0].id, m.id);
    assert_eq!(out[0].from, m.from);
    assert_eq!(out[0].to, m.to);
    assert_eq!(out[0].signature, m.signature);
    assert_eq!(out[0].timestamp, m.timestamp);
    assert_eq!(gossip.protocol_type(), ProtocolType::Gossip);
}

#[test]
fn gossip_parameters_are_tunable() {
    let gossip = GossipProtocol::new(id_of(1));
    assert_eq!(gossip.fanout(), 3);
    assert_eq!(gossip.rounds(), 3);
    let gossip = gossip.with_fanout(5).with_rounds(7);
    assert_eq!(gossip.fanout(), 5);
    assert_eq!(gossip.rounds(), 7);
    let mut flooding = FloodingProtocol::new(id_of(1)).with_ttl(8);
    assert_eq!(flooding.protocol_type(), ProtocolType::Flooding);
    assert_eq!(flooding.handle_message_at(&flood_message(4, 0), &id_of(2), 1).unwrap().len(), 1);
}

#[test]
fn forwarder_counters() {
    let mut flooding = FloodingProtocol::new(id_of(1));
    assert_eq!(flooding.stats(), ProtocolStats::default());
    let m = flood_message(4, 0);
    flooding.handle_message_at(&m, &id_of(2), 5).unwrap();
    flooding.handle_message_at(&m, &id_of(2), 6).unwrap();
    let mut expired = flood_message(1, 1);
    expired.id = 5;
    expired.payload = vec![0; 10];
    flooding.handle_message_at(&expired, &id_of(2), 7).unwrap();
    let s = flooding.stats();
    assert_eq!(s.messages_processed, 3);
    assert_eq!(s.messages_sent, 1);
    assert_eq!(s.bytes_processed, 2 + 2 + 10);
    assert_eq!(s.errors, 0);
}

#[test]
fn counters_saturate() {
    let mut stats = ProtocolStats {
        messages_processed: u64::MAX,
        messages_sent: u64::MAX - 1,
        bytes_processed: u64::MAX - 3,
        errors: 0,
    };
    stats.count_processed(10);
    assert_eq!(stats.messages_processed, u64::MAX);
    assert_eq!(stats.bytes_processed, u64::MAX);
    stats.count_sent();
    assert_eq!(stats.messages_sent, u64::MAX);
    stats.count_sent();
    assert_eq!(stats.messages_sent, u64::MAX);
}

#[test]
fn seen_set_remembers_and_sweeps() {
    assert_eq!(SEEN_TTL_SECS, 300);
    assert_eq!(SWEEP_INTERVAL_SECS, 60);
    let mut seen = SeenSet::new();
    assert!(!seen.contains(1));
    assert!(seen.check_and_record(1, 100));
    assert!(seen.contains(1));
    assert!(!seen.check_and_record(1, 350));
    seen.insert(2, 200);
    seen.sweep(399);
    assert!(seen.contains(1));
    assert!(seen.contains(2));
    seen.sweep(400);
    assert!(!seen.contains(1));
    assert!(seen.contains(2));
    seen.sweep(499);
    assert!(seen.contains(2));
    seen.sweep(500);
    assert!(!seen.contains(2));
    assert!(fresh(100, 399));
    assert!(!fresh(100, 400));
    assert!(fresh(100, 50));
}

#[test]
fn a_swept_identifier_is_forwarded_again() {
    let mut flooding = FloodingProtocol::new(id_of(1));
    let m = flood_message(4, 0);
    assert_eq!(flooding.handle_message_at(&m, &id_of(2), 1000).unwrap().len(), 1);
    flooding.sweep(1299);
    assert!(flooding.handle_message_at(&m, &id_of(2), 1299).unwrap().is_empty());
    flooding.sweep(1300);
    assert_eq!(flooding.handle_message_at(&m, &id_of(2), 1300).unwrap().len(), 1);
    let mut gossip = GossipProtocol::new(id_of(1));
    assert_eq!(gossip.handle_message_at(&m, &id_of(2), 1000).unwrap().len(), 1);
    gossip.sweep(1300);
    assert_eq!(gossip.handle_message_at(&m, &id_of(2), 1300).unwrap().len(), 1);
}

#[test]
fn forward_is_the_shared_step() {
    let mut seen = SeenSet::new();
    let mut stats = ProtocolStats::default();
    let m = flood_message(4, 0);
    let out = forward(&mut seen, &mut stats, &m, 9, ProtocolType::Gossip);
    assert_eq!(out.len(), 1);
    assert_eq!(out[0].protocol_type, ProtocolType::Gossip);
    assert!(seen.contains(m.id));
    assert_eq!(stats.messages_sent, 1);
    assert!(forward(&mut seen, &mut stats, &m, 9, ProtocolType::Gossip).is_empty());
}

#[test]
fn consensus_majority() {
    let mut consensus = ConsensusProtocol::new(id_of(1));
    consensus.add_peer(peer(2));
    consensus.add_peer(peer(3));
    consensus.add_peer(peer(4));
    assert_eq!(consensus.peer_count(), 3);
    consensus.propose_at(1, b"x".to_vec(), 100).unwrap();
    consensus.record_vote(1, id_of(2), true).unwrap();
    assert_eq!(consensus.check_consensus_at(1, 100).unwrap(), None);
    assert_eq!(consensus.check_consensus(1).unwrap_or(None).unwrap_or(false), false);
    consensus.record_vote(1, id_of(3), true).unwrap();
    assert_eq!(consensus.check_consensus_at(1, 100).unwrap(), Some(true));
    consensus.record_vote(1, id_of(4), true).unwrap();
    assert_eq!(consensus.check_consensus_at(1, 100).unwrap(), Some(true));
    assert_eq!(consensus.check_consensus_at(1, 10_000).unwrap(), Some(true));
}

#[test]
fn consensus_quorum_is_more_than_half() {
    for peers in 0u8..8 {
        let total = peers as usize + 1;
        let quorum = total / 2 + 1;
        for approvals in 1..=total {
            let mut consensus = ConsensusProtocol::new(id_of(100));
            for p in 0..peers {
                consensus.add_peer(peer(p + 1));
            }
            consensus.propose_at(9, Vec::new(), 0).unwrap();
            for p in 1..approvals {
                consensus.record_vote(9, id_of(p as u8), true).unwrap();
            }
            let verdict = consensus.check_consensus_at(9, 0).unwrap();
            assert_eq!(verdict == Some(true), approvals >= quorum);
        }
    }
}

#[test]
fn consensus_rejection_and_timeout() {
    let mut consensus = ConsensusProtocol::new(id_of(1));
    consensus.add_peer(peer(2));
    consensus.add_peer(peer(3));
    consensus.add_peer(peer(4));
    consensus.propose_at(5, b"v".to_vec(), 1000).unwrap();
    consensus.record_vote(5, id_of(2), false).unwrap();
    assert_eq!(consensus.check_consensus_at(5, 1000).unwrap(), None);
    consensus.record_vote(5, id_of(3), false).unwrap();
    assert_eq!(consensus.check_consensus_at(5, 1000).unwrap(), Some(false));
    consensus.record_vote(5, id_of(3), true).unwrap();
    assert_eq!(consensus.check_consensus_at(5, 1000).unwrap(), None);
    assert_eq!(PROPOSAL_TIMEOUT_SECS, 30);
    assert_eq!(consensus.check_consensus_at(5, 1030).unwrap(), None);
    assert_eq!(consensus.check_consensus_at(5, 1031).unwrap(), Some(false));
    assert_eq!(consensus.check_consensus_at(5, 0).unwrap(), None);
    assert_eq!(consensus.check_consensus_at(404, 0).unwrap(), None);
}

#[test]
fn a_voter_has_one_vote() {
    let mut consensus = ConsensusProtocol::new(id_of(1));
    consensus.add_peer(peer(2));
    consensus.add_peer(peer(3));
    consensus.propose_at(1, Vec::new(), 0).unwrap();
    consensus.vote(1, true).unwrap();
    consensus.vote(1, true).unwrap();
    assert_eq!(consensus.check_consensus_at(1, 0).unwrap(), None);
    consensus.vote(1, false).unwrap();
    consensus.record_vote(1, id_of(2), true).unwrap();
    assert_eq!(consensus.check_consensus_at(1, 0).unwrap(), None);
    consensus.vote(1, true).unwrap();
    assert_eq!(consensus.check_consensus_at(1, 0).unwrap(), Some(true));
}

#[test]
fn voting_on_an_unknown_proposal_changes_nothing() {
    let mut consensus = ConsensusProtocol::new(id_of(1));
    assert!(consensus.vote(3, true).is_ok());
    assert!(consensus.record_vote(3, id_of(2), true).is_ok());
    assert_eq!(consensus.check_consensus_at(3, 0).unwrap(), None);
    assert_eq!(consensus.stats(), ProtocolStats::default());
}

#[test]
fn consensus_counters_and_peers() {
    let mut consensus = ConsensusProtocol::new(id_of(1));
    consensus.add_peer(peer(2));
    consensus.add_peer(peer(2));
    assert_eq!(consensus.peer_count(), 1);
    consensus.add_peer(peer(3));
    consensus.remove_peer(&id_of(2));
    consensus.remove_peer(&id_of(9));
    assert_eq!(consensus.peer_count(), 1);
    consensus.propose_at(1, Vec::new(), 0).unwrap();
    let s = consensus.stats();
    assert_eq!(s.messages_processed, 1);
    assert_eq!(s.messages_sent, 0);
    consensus.record_vote(1, id_of(3), true).unwrap();
    let s = consensus.stats();
    assert_eq!(s.messages_processed, 2);
    assert_eq!(s.messages_sent, 1);
}

#[test]
fn decide_counts_votes() {
    let mut votes: IdMap<bool> = IdMap::new();
    votes.insert(id_of(1), true);
    votes.insert(id_of(2), false);
    votes.insert(id_of(3), true);
    assert_eq!(count_approvals(&votes), 2);
    let proposal = Proposal {
        id: 1,
        proposer: id_of(1),
        value: Vec::new(),
        votes,
        start_time: 10,
        timeout: 30,
    };
    assert_eq!(decide(&proposal, 2, 10), Some(true));
    assert_eq!(decide(&proposal, 3, 10), None);
    assert_eq!(decide(&proposal, 3, 41), Some(false));
    assert_eq!(decide(&proposal.clone(), 9, 10), None);
}

#[test]
fn consensus_acknowledges_to_the_sender() {
    let mut consensus = ConsensusProtocol::new(id_of(1));
    let m = flood_message(4, 0);
    let out = consensus.handle_message(&m, &id_of(8)).unwrap();
    assert_eq!(out.len(), 1);
    assert_eq!(out[0].message_type, MessageType::Unicast);
    assert_eq!(out[0].to, Some(id_of(8)));
    assert_eq!(out[0].from, id_of(1));
    assert_eq!(out[0].payload, b"ACK".to_vec());
    assert_eq!(out[0].protocol_type, ProtocolType::Direct);
    assert_eq!(out[0].ttl, 64);
    assert_eq!(out[0].hops, 0);
    assert!(out[0].timestamp > 1_600_000_000);
    let again = consensus.handle_message(&m, &id_of(8)).unwrap();
    assert_eq!(again.len(), 1);
    let exact = consensus.acknowledge(&m, &id_of(8), 11, 22).unwrap();
    assert_eq!(exact[0].id, 11);
    assert_eq!(exact[0].timestamp, 22);
    let s = consensus.stats();
    assert_eq!(s.messages_processed, 3);
    assert_eq!(s.messages_sent, 3);
    assert_eq!(s.bytes_processed, 6);
    assert_eq!(consensus.protocol_type(), ProtocolType::Consensus);
}

#[test]
fn registry_dispatches_by_the_message_tag() {
    let mut registry: ProtocolRegistry<Protocol> = ProtocolRegistry::new();
    assert_eq!(registry.len(), 0);
    registry.register(Protocol::Flooding(FloodingProtocol::new(id_of(1))));
    registry.register(Protocol::Consensus(ConsensusProtocol::new(id_of(1))));
    assert_eq!(registry.len(), 2);
    let m = flood_message(4, 0);
    let out = registry.handle_message(&m, &id_of(2)).unwrap();
    assert_eq!(out.len(), 1);
    assert_eq!(out[0].protocol_type, ProtocolType::Flooding);
    assert!(registry.handle_message(&m, &id_of(2)).unwrap().is_empty());
    let mut c = flood_message(4, 0);
    c.protocol_type = ProtocolType::Consensus;
    let out = registry.handle_message(&c, &id_of(2)).unwrap();
    assert_eq!(out[0].payload, b"ACK".to_vec());
    assert_eq!(registry.get_stats(&ProtocolType::Flooding).unwrap().messages_processed, 2);
    assert_eq!(registry.get_stats(&ProtocolType::Consensus).unwrap().messages_processed, 1);
    assert!(registry.get_stats(&ProtocolType::Gossip).is_none());
    assert!(registry.get_protocol(&ProtocolType::Gossip).is_none());
    let found = registry.get_protocol(&ProtocolType::Flooding).unwrap();
    assert_eq!(found.protocol_type(), ProtocolType::Flooding);
}

#[test]
fn registry_fails_for_an_unregistered_tag() {
    let mut registry: ProtocolRegistry<Protocol> = ProtocolRegistry::new();
    registry.register(Protocol::Flooding(FloodingProtocol::new(id_of(1))));
    let mut m = flood_message(4, 0);
    m.protocol_type = ProtocolType::Gossip;
    match registry.handle_message(&m, &id_of(2)) {
        Err(Error::Protocol(text)) => assert_eq!(text, "Unknown protocol: Gossip"),
        _ => panic!("an unregistered tag was handled"),
    }
    m.protocol_type = ProtocolType::Direct;
    match registry.handle_message(&m, &id_of(2)) {
        Err(e) => assert_eq!(e.to_string(), "Protocol error: Unknown protocol: Direct"),
        Ok(_) => panic!("an unregistered tag was handled"),
    }
    assert_eq!(registry.get_stats(&ProtocolType::Flooding).unwrap().messages_processed, 0);
    assert_eq!(name_of(ProtocolType::Consensus), "Consensus");
    assert_eq!(name_of(ProtocolType::Flooding), "Flooding");
}

#[test]
fn registering_a_tag_again_replaces_the_protocol() {
    let mut registry: ProtocolRegistry<Protocol> = ProtocolRegistry::new();
    registry.register(Protocol::Flooding(FloodingProtocol::new(id_of(1))));
    registry.register(Protocol::Gossip(GossipProtocol::new(id_of(1))));
    let m = flood_message(4, 0);
    assert_eq!(registry.handle_message(&m, &id_of(2)).unwrap().len(), 1);
    registry.register(Protocol::Flooding(FloodingProtocol::new(id_of(1))));
    assert_eq!(registry.len(), 2);
    assert_eq!(registry.handle_message(&m, &id_of(2)).unwrap().len(), 1);
    registry.sweep(u64::MAX);
    assert_eq!(registry.handle_message(&m, &id_of(2)).unwrap().len(), 1);
}

#[test]
fn a_registry_of_one_kind_of_protocol() {
    let mut registry: ProtocolRegistry<GossipProtocol> = ProtocolRegistry::new();
    registry.register(GossipProtocol::new(id_of(1)).with_fanout(2));
    let mut m = flood_message(4, 0);
    m.protocol_type = ProtocolType::Gossip;
    assert_eq!(registry.handle_message(&m, &id_of(2)).unwrap().len(), 1);
    assert_eq!(registry.get_protocol(&ProtocolType::Gossip).unwrap().fanout(), 2);
}

struct Echo {
    handled: u64,
}

impl MeshProtocol for Echo {
    fn handle_message(&mut self, message: &Message, _from_peer: &NodeId) -> Result<Vec<Message>, Error> {
        self.handled += 1;
        Ok(vec![message.clone(), message.clone()])
    }

    fn protocol_type(&self) -> ProtocolType {
        ProtocolType::Direct
    }

    fn stats(&self) -> ProtocolStats {
        ProtocolStats { messages_processed: self.handled, messages_sent: 0, bytes_processed: 0, errors: 0 }
    }
}

#[test]
fn a_protocol_of_the_user_can_be_registered() {
    let mut registry: ProtocolRegistry<Echo> = ProtocolRegistry::new();
    registry.register(Echo { handled: 0 });
    let mut m = flood_message(4, 0);
    m.protocol_type = ProtocolType::Direct;
    assert_eq!(registry.handle_message(&m, &id_of(2)).unwrap().len(), 2);
    assert_eq!(registry.get_stats(&ProtocolType::Direct).unwrap().messages_processed, 1);
    m.protocol_type = ProtocolType::Flooding;
    assert!(matches!(registry.handle_message(&m, &id_of(2)), Err(Error::Protocol(_))));
}
