//! Lightweight quorum voting. A node proposes a value under an identifier,
//! votes are recorded per voter, and a proposal is approved once a majority
//! of all participants (the known peers and the node itself) has approved
//! it.

use vstd::prelude::*;
use dashmap::DashMap;
use std::collections::hash_map::RandomState;
use crate::error::Error;
use crate::idmap::{has_key, key_index, IdMap};
use crate::platform::unix_seconds;
use crate::protocol::{saturating_sum, views, MeshProtocol, ProtocolStats};
use crate::types::{copy_bytes, Message, MessageType, MessageView, NodeId, Peer, ProtocolType};

verus! {

/// Seconds after which an undecided proposal counts as rejected.
pub const PROPOSAL_TIMEOUT_SECS: u64 = 30;

/// A proposal in flight.
pub struct Proposal {
    pub id: u64,
    pub proposer: NodeId,
    pub value: Vec<u8>,
    /// One vote per voter; a later vote of the same voter replaces the
    /// earlier one.
    pub votes: IdMap<bool>,
    /// The instant, in seconds, at which the proposal was made.
    pub start_time: u64,
    /// Seconds after which the proposal counts as rejected.
    pub timeout: u64,
}

/// The mathematical content of a `Proposal`.
pub ghost struct ProposalView {
    pub id: u64,
    pub proposer: Seq<u8>,
    pub value: Seq<u8>,
    pub votes: Seq<(NodeId, bool)>,
    pub start_time: u64,
    pub timeout: u64,
}

impl View for Proposal {
    type V = ProposalView;

    open spec fn view(&self) -> ProposalView {
        ProposalView {
            id: self.id,
            proposer: self.proposer@,
            value: self.value@,
            votes: self.votes.entries(),
            start_time: self.start_time,
            timeout: self.timeout,
        }
    }
}

impl Clone for Proposal {
    fn clone(&self) -> (copy: Proposal)
        ensures
            copy@ == self@,
    {
        Proposal {
            id: self.id,
            proposer: self.proposer,
            value: copy_bytes(&self.value),
            votes: self.votes.duplicate(),
            start_time: self.start_time,
            timeout: self.timeout,
        }
    }
}

/// The number of approving votes among `votes`.
pub open spec fn approvals(votes: Seq<(NodeId, bool)>) -> nat
    decreases votes.len(),
{
    if votes.len() == 0 {
        0
    } else {
        approvals(votes.drop_last()) + if votes.last().1 {
            1nat
        } else {
            0nat
        }
    }
}

/// The votes after `voter` has voted: the voter's earlier vote is replaced,
/// a first vote is added at the end.
pub open spec fn with_vote(votes: Seq<(NodeId, bool)>, voter: NodeId, approve: bool) -> Seq<
    (NodeId, bool),
> {
    if has_key(votes, voter@) {
        votes.update(key_index(votes, voter@), (voter, approve))
    } else {
        votes.push((voter, approve))
    }
}

/// The approvals needed among `total` participants: more than half of them.
pub open spec fn quorum(total: nat) -> nat {
    total / 2 + 1
}

/// The state of a proposal among `total` participants at the instant `now`:
/// approved once the approvals reach the quorum; else rejected once the
/// rejections are too many for the quorum to be reached, or once the
/// timeout has passed; else undecided.
pub open spec fn verdict(p: ProposalView, total: nat, now: u64) -> Option<bool> {
    let yes = approvals(p.votes);
    let no = p.votes.len() - yes;
    if yes >= quorum(total) {
        Some(true)
    } else if no > total - quorum(total) {
        Some(false)
    } else if now - p.start_time > p.timeout {
        Some(false)
    } else {
        None
    }
}

/// A proposal is approved exactly when its approvals reach the quorum of
/// more than half of all participants.
pub proof fn lemma_approved_iff_quorum(p: ProposalView, total: nat, now: u64)
    ensures
        verdict(p, total, now) == Some(true) <==> approvals(p.votes) >= total / 2 + 1,
{
}

/// Counts the approving votes.
pub fn count_approvals(votes: &IdMap<bool>) -> (n: usize)
    ensures
        n == approvals(votes.entries()),
        n <= votes.entries().len(),
{
    let len = votes.len();
    let mut n: usize = 0;
    let mut i: usize = 0;
    while i < len
        invariant
            i <= len,
            len == votes.entries().len(),
            n == approvals(votes.entries().subrange(0, i as int)),
            n <= i,
        decreases len - i,
    {
        let approve = *votes.value_at(i);
        proof {
            let next = votes.entries().subrange(0, i + 1);
            assert(next.drop_last() =~= votes.entries().subrange(0, i as int));
            assert(next.last() == votes.entries()[i as int]);
        }
        if approve {
            n += 1;
        }
        i += 1;
    }
    assert(votes.entries().subrange(0, len as int) =~= votes.entries());
    n
}

/// Decides the state of `proposal` among the node and `peer_count` peers at
/// the instant `now`.
pub fn decide(proposal: &Proposal, peer_count: usize, now: u64) -> (v: Option<bool>)
    ensures
        v == verdict(proposal@, peer_count as nat + 1, now),
{
    let total: u128 = peer_count as u128 + 1;
    let yes: u128 = count_approvals(&proposal.votes) as u128;
    let cast: u128 = proposal.votes.len() as u128;
    let needed: u128 = total / 2 + 1;
    if yes >= needed {
        return Some(true);
    }
    if cast - yes > total - needed {
        return Some(false);
    }
    if now > proposal.start_time && now - proposal.start_time > proposal.timeout {
        return Some(false);
    }
    None
}


/// What a map from proposal identifiers to proposals holds.
pub uninterp spec fn proposal_entries(map: DashMap<u64, Proposal, RandomState>) -> Map<u64, ProposalView>;

/// Calls `DashMap::new`, which makes a map without entries.
#[verifier::external_body]
fn proposals_new() -> (map: DashMap<u64, Proposal, RandomState>)
    ensures
        proposal_entries(map) =~= Map::empty(),
{
    DashMap::new()
}

/// Calls `DashMap::get` and hands out a copy of the proposal found.
#[verifier::external_body]
fn proposals_get(map: &DashMap<u64, Proposal, RandomState>, id: u64) -> (found: Option<Proposal>)
    ensures
        match found {
            Some(p) => proposal_entries(*map).dom().contains(id) && proposal_entries(*map)[id] == p@,
            None => !proposal_entries(*map).dom().contains(id),
        },
{
    map.get(&id).map(|entry| entry.value().clone())
}

/// Calls `DashMap::insert`, which stores the proposal under the identifier
/// and replaces what was there.
#[verifier::external_body]
fn proposals_insert(map: &mut DashMap<u64, Proposal, RandomState>, id: u64, proposal: Proposal)
    ensures
        proposal_entries(*final(map)) == proposal_entries(*old(map)).insert(id, proposal@),
{
    map.insert(id, proposal);
}

/// The acknowledgement that consensus sends back for any message: a unicast
/// from the node to the sender with the payload `ACK`.
pub open spec fn acknowledgement(id: u64, timestamp: u64, node: Seq<u8>, to: Seq<u8>) -> MessageView {
    MessageView {
        message_type: MessageType::Unicast,
        to: Some(to),
        ..MessageView::originated(id, timestamp, node, seq![0x41u8, 0x43u8, 0x4bu8])
    }
}

/// Quorum voting among a node and its known peers.
pub struct ConsensusProtocol {
    node_id: NodeId,
    peers: IdMap<Peer>,
    proposals: DashMap<u64, Proposal, RandomState>,
    stats: ProtocolStats,
}

impl ConsensusProtocol {
    /// The node on whose behalf the protocol runs.
    pub closed spec fn node_id(&self) -> NodeId {
        self.node_id
    }

    /// The known peers, in order of first arrival.
    pub closed spec fn peers(&self) -> Seq<(NodeId, Peer)> {
        self.peers.entries()
    }

    /// The proposals in flight.
    pub closed spec fn proposals(&self) -> Map<u64, ProposalView> {
        proposal_entries(self.proposals)
    }

    /// The counters.
    pub closed spec fn stats_view(&self) -> ProtocolStats {
        self.stats
    }

    /// The number of participants: the known peers and the node itself.
    pub open spec fn total(&self) -> nat {
        self.peers().len() + 1
    }

    /// The state after `voter` has voted on the proposal `id`: where there
    /// is no such proposal nothing changes; else the vote is recorded, one
    /// message counts as processed, and one as sent if the approvals now
    /// reach the quorum.
    pub open spec fn voted(&self, after: &Self, id: u64, voter: NodeId, approve: bool) -> bool {
        &&& after.node_id() == self.node_id()
        &&& after.peers() == self.peers()
        &&& if self.proposals().dom().contains(id) {
            let before = self.proposals()[id];
            let votes = with_vote(before.votes, voter, approve);
            &&& after.proposals() == self.proposals().insert(
                id,
                ProposalView { votes, ..before },
            )
            &&& after.stats_view() == (ProtocolStats {
                messages_processed: saturating_sum(self.stats_view().messages_processed, 1),
                messages_sent: if approvals(votes) >= quorum(self.total()) {
                    saturating_sum(self.stats_view().messages_sent, 1)
                } else {
                    self.stats_view().messages_sent
                },
                ..self.stats_view()
            })
        } else {
            &&& after.proposals() == self.proposals()
            &&& after.stats_view() == self.stats_view()
        }
    }

    /// A protocol without peers or proposals.
    pub fn new(node_id: NodeId) -> (p: ConsensusProtocol)
        ensures
            p.node_id() == node_id,
            p.peers() == Seq::<(NodeId, Peer)>::empty(),
            p.proposals() == Map::<u64, ProposalView>::empty(),
            p.stats_view() == ProtocolStats::zero(),
    {
        ConsensusProtocol {
            node_id,
            peers: IdMap::new(),
            proposals: proposals_new(),
            stats: ProtocolStats::default(),
        }
    }

    /// Makes `peer` a participant; a peer already known under that
    /// identifier is replaced.
    pub fn add_peer(&mut self, peer: Peer)
        ensures
            final(self).peers() == (if has_key(old(self).peers(), peer.id@) {
                old(self).peers().update(key_index(old(self).peers(), peer.id@), (peer.id, peer))
            } else {
                old(self).peers().push((peer.id, peer))
            }),
            final(self).node_id() == old(self).node_id(),
            final(self).proposals() == old(self).proposals(),
            final(self).stats_view() == old(self).stats_view(),
    {
        let id = peer.id;
        let _ = self.peers.insert(id, peer);
    }

    /// Drops the participant `peer_id`, if it is known.
    pub fn remove_peer(&mut self, peer_id: &NodeId)
        ensures
            final(self).peers() == (if has_key(old(self).peers(), peer_id@) {
                old(self).peers().remove(key_index(old(self).peers(), peer_id@))
            } else {
                old(self).peers()
            }),
            !has_key(final(self).peers(), peer_id@),
            final(self).node_id() == old(self).node_id(),
            final(self).proposals() == old(self).proposals(),
            final(self).stats_view() == old(self).stats_view(),
    {
        let _ = self.peers.remove(peer_id);
    }

    /// The number of known peers.
    pub fn peer_count(&self) -> (n: usize)
        ensures
            n == self.peers().len(),
    {
        self.peers.len()
    }

    /// Proposes `value` under `proposal_id` at the clock's present reading,
    /// and approves it on the node's behalf.
    pub fn propose(&mut self, proposal_id: u64, value: Vec<u8>) -> (r: Result<(), Error>)
        ensures
            r is Ok,
            exists|now: u64| old(self).proposed(final(self), proposal_id, value@, now),
    {
        let now = unix_seconds();
        let r = self.propose_at(proposal_id, value, now);
        assert(old(self).proposed(self, proposal_id, value@, now));
        r
    }

    /// The state after the node has proposed `value` under `id` at `now`: a
    /// fresh proposal with the node's own approval as its only vote takes
    /// the place of whatever was stored under `id`.
    pub open spec fn proposed(&self, after: &Self, id: u64, value: Seq<u8>, now: u64) -> bool {
        let fresh = ProposalView {
            id,
            proposer: self.node_id()@,
            value,
            votes: seq![(self.node_id(), true)],
            start_time: now,
            timeout: PROPOSAL_TIMEOUT_SECS,
        };
        &&& after.node_id() == self.node_id()
        &&& after.peers() == self.peers()
        &&& after.proposals() == self.proposals().insert(id, fresh)
        &&& after.stats_view() == (ProtocolStats {
            messages_processed: saturating_sum(self.stats_view().messages_processed, 1),
            messages_sent: if 1 >= quorum(self.total()) {
                saturating_sum(self.stats_view().messages_sent, 1)
            } else {
                self.stats_view().messages_sent
            },
            ..self.stats_view()
        })
    }

    /// Proposes `value` under `proposal_id` at the instant `now`, and
    /// approves it on the node's behalf.
    pub fn propose_at(&mut self, proposal_id: u64, value: Vec<u8>, now: u64) -> (r: Result<
        (),
        Error,
    >)
        ensures
            r is Ok,
            old(self).proposed(final(self), proposal_id, value@, now),
    {
        let proposal = Proposal {
            id: proposal_id,
            proposer: self.node_id,
            value,
            votes: IdMap::new(),
            start_time: now,
            timeout: PROPOSAL_TIMEOUT_SECS,
        };
        proposals_insert(&mut self.proposals, proposal_id, proposal);
        let ghost mid = self.proposals();
        let r = self.vote(proposal_id, true);
        proof {
            let empty = Seq::<(NodeId, bool)>::empty();
            assert(!has_key(empty, self.node_id@));
            assert(with_vote(empty, self.node_id, true) =~= seq![(self.node_id, true)]);
            let one = seq![(self.node_id, true)];
            assert(one.drop_last() =~= empty);
            assert(approvals(one) == 1) by {
                reveal_with_fuel(approvals, 2);
            }
            assert(self.proposals() =~= old(self).proposals().insert(
                proposal_id,
                ProposalView { votes: one, ..mid[proposal_id] },
            ));
        }
        r
    }

    /// Records the node's own vote on a proposal. Voting on an unknown
    /// proposal changes nothing.
    pub fn vote(&mut self, proposal_id: u64, approve: bool) -> (r: Result<(), Error>)
        ensures
            r is Ok,
            old(self).voted(final(self), proposal_id, old(self).node_id(), approve),
    {
        let voter = self.node_id;
        self.record_vote(proposal_id, voter, approve)
    }

    /// Records the vote of `voter` on a proposal. Voting on an unknown
    /// proposal changes nothing.
    pub fn record_vote(&mut self, proposal_id: u64, voter: NodeId, approve: bool) -> (r: Result<
        (),
        Error,
    >)
        ensures
            r is Ok,
            old(self).voted(final(self), proposal_id, voter, approve),
    {
        match proposals_get(&self.proposals, proposal_id) {
            Some(proposal) => {
                let mut proposal = proposal;
                let ghost before = proposal@;
                let _ = proposal.votes.insert(voter, approve);
                assert(proposal@.votes == with_vote(before.votes, voter, approve));
                self.stats.messages_processed = self.stats.messages_processed.saturating_add(1);
                let total: u128 = self.peers.len() as u128 + 1;
                let yes: u128 = count_approvals(&proposal.votes) as u128;
                if yes >= total / 2 + 1 {
                    self.stats.messages_sent = self.stats.messages_sent.saturating_add(1);
                }
                proposals_insert(&mut self.proposals, proposal_id, proposal);
                Ok(())
            },
            None => Ok(()),
        }
    }

    /// The state of a proposal by the clock's present reading: `Some(true)`
    /// approved, `Some(false)` rejected, `None` undecided or unknown.
    pub fn check_consensus(&self, proposal_id: u64) -> (r: Result<Option<bool>, Error>)
        ensures
            r matches Ok(v) && (if self.proposals().dom().contains(proposal_id) {
                exists|now: u64| v == verdict(self.proposals()[proposal_id], self.total(), now)
            } else {
                v is None
            }),
            self.proposals().dom().contains(proposal_id) ==> (r == Ok::<Option<bool>, Error>(
                Some(true),
            ) <==> approvals(self.proposals()[proposal_id].votes) >= self.total() / 2 + 1),
    {
        let now = unix_seconds();
        self.check_consensus_at(proposal_id, now)
    }

    /// The state of a proposal at the instant `now`.
    pub fn check_consensus_at(&self, proposal_id: u64, now: u64) -> (r: Result<Option<bool>, Error>)
        ensures
            r matches Ok(v) && v == (if self.proposals().dom().contains(proposal_id) {
                verdict(self.proposals()[proposal_id], self.total(), now)
            } else {
                None
            }),
    {
        match proposals_get(&self.proposals, proposal_id) {
            Some(proposal) => Ok(decide(&proposal, self.peers.len(), now)),
            None => Ok(None),
        }
    }

    /// Acknowledges `message` to its sender with the given identifier and
    /// timestamp for the acknowledgement.
    pub fn acknowledge(&mut self, message: &Message, from_peer: &NodeId, id: u64, timestamp: u64) -> (r:
        Result<Vec<Message>, Error>)
        ensures
            r matches Ok(out) && views(out@) == seq![
                acknowledgement(id, timestamp, old(self).node_id()@, from_peer@),
            ],
            final(self).stats_view() == old(self).stats_view().after(message@.payload.len(), 1),
            final(self).node_id() == old(self).node_id(),
            final(self).peers() == old(self).peers(),
            final(self).proposals() == old(self).proposals(),
    {
        self.stats.count_processed(message.payload.len());
        let mut payload: Vec<u8> = Vec::new();
        payload.push(0x41u8);
        payload.push(0x43u8);
        payload.push(0x4bu8);
        assert(payload@ =~= seq![0x41u8, 0x43u8, 0x4bu8]);
        let mut response = Message::originate(id, timestamp, self.node_id, payload);
        response.message_type = MessageType::Unicast;
        response.to = Some(*from_peer);
        self.stats.count_sent();
        let mut out: Vec<Message> = Vec::new();
        out.push(response);
        assert(views(out@) =~= seq![
            acknowledgement(id, timestamp, old(self).node_id()@, from_peer@),
        ]);
        Ok(out)
    }
}

impl MeshProtocol for ConsensusProtocol {
    open spec fn tag(&self) -> ProtocolType {
        ProtocolType::Consensus
    }

    open spec fn counters(&self) -> ProtocolStats {
        self.stats_view()
    }

    open spec fn handles(
        &self,
        message: MessageView,
        from_peer: Seq<u8>,
        after: &Self,
        outcome: Result<Seq<MessageView>, Error>,
    ) -> bool {
        &&& outcome matches Ok(out)
        &&& out.len() == 1
        &&& out[0] == acknowledgement(out[0].id, out[0].timestamp, self.node_id()@, from_peer)
        &&& after.stats_view() == self.stats_view().after(message.payload.len(), 1)
        &&& after.node_id() == self.node_id()
        &&& after.peers() == self.peers()
        &&& after.proposals() == self.proposals()
    }

    /// Answers any message with an acknowledgement to its sender. The
    /// acknowledgement's identifier is drawn at random and its timestamp
    /// read from the clock.
    fn handle_message(&mut self, message: &Message, from_peer: &NodeId) -> (r: Result<
        Vec<Message>,
        Error,
    >) {
        let id = crate::platform::random_u64();
        let timestamp = unix_seconds();
        self.acknowledge(message, from_peer, id, timestamp)
    }

    fn protocol_type(&self) -> (t: ProtocolType) {
        ProtocolType::Consensus
    }

    fn stats(&self) -> (s: ProtocolStats) {
        self.stats
    }
}

} // verus!
