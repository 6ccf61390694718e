//! A unit's part of the mesh: its peers, proposals, goals and requests.

use crate::features::fitness;
use crate::goals;
use crate::goals::{GoalRegistry, GoalsV};
use crate::mesh::message;
use crate::mesh::message::{addr_to_pseudo_id, Addr, AddrV};
use crate::text;
use crate::text::{push_hex, push_u64, push_usize, text};
use crate::wire;
use crate::wire::{same_id, write_u64, NodeId};
use vstd::prelude::*;

verus! {

/// A peer that has not been heard for longer, in milliseconds, is forgotten.
pub const PEER_TIMEOUT: u64 = 15000;

/// The time for votes on a proposal, in milliseconds.
pub const PROPOSAL_TIMEOUT: u64 = 5000;

/// The pause after a proposal, in milliseconds.
pub const PROPOSAL_COOLDOWN: u64 = 10000;

/// The time between heartbeats, in milliseconds.
pub const HEARTBEAT_INTERVAL: u64 = 2000;

/// The time between discovery beacons, in milliseconds.
pub const DISCOVERY_INTERVAL: u64 = 5000;

/// The most addresses in a heartbeat.
pub const MAX_GOSSIP_PEERS: usize = 8;

/// The capacity of a new unit.
pub const DEFAULT_CAPACITY: u32 = 100;

/// The most events that are kept.
pub const EVENTS_KEPT: usize = 20;

/// The most entries of the replication log that are kept.
pub const LOG_KEPT: usize = 100;

/// The most pending replication requests of one peer.
pub const REQUESTS_PER_PEER: usize = 3;

// ---------------------------------------------------------------------------
// Parts
// ---------------------------------------------------------------------------

/// What is known of a peer.
#[derive(Debug)]
pub struct PeerInfo {
    pub addr: Addr,
    pub id: NodeId,
    pub load: u32,
    pub capacity: u32,
    pub peer_count: u16,
    pub fitness: i64,
    pub last_seen: u64,
}

/// The mathematical form of a peer.
#[verifier::ext_equal]
pub struct PeerV {
    pub addr: AddrV,
    pub id: Seq<u8>,
    pub load: u32,
    pub capacity: u32,
    pub peer_count: u16,
    pub fitness: i64,
    pub last_seen: u64,
}

impl View for PeerInfo {
    type V = PeerV;

    open spec fn view(&self) -> PeerV {
        PeerV {
            addr: self.addr@,
            id: self.id@,
            load: self.load,
            capacity: self.capacity,
            peer_count: self.peer_count,
            fitness: self.fitness,
            last_seen: self.last_seen,
        }
    }
}

/// A proposal to replicate, with the votes on it.
#[derive(Debug)]
pub struct Proposal {
    pub id: u64,
    pub proposer: NodeId,
    pub reason: String,
    pub votes_yes: Vec<NodeId>,
    pub votes_no: Vec<NodeId>,
    pub started: u64,
    pub total_peers_at_start: usize,
    pub committed: bool,
    /// What to send on commitment; only the proposer has it.
    pub state_bytes: Option<Vec<u8>>,
}

/// The mathematical form of a proposal.
#[verifier::ext_equal]
pub struct ProposalV {
    pub id: u64,
    pub proposer: Seq<u8>,
    pub reason: Seq<char>,
    pub yes: Seq<Seq<u8>>,
    pub no: Seq<Seq<u8>>,
    pub started: u64,
    pub total: usize,
    pub committed: bool,
    pub state: Option<Seq<u8>>,
}

/// Identities as sequences of bytes.
pub open spec fn id_views(s: Seq<NodeId>) -> Seq<Seq<u8>> {
    Seq::new(s.len(), |i: int| s[i]@)
}

/// Optional bytes as a sequence.
pub open spec fn opt_bytes(o: Option<Vec<u8>>) -> Option<Seq<u8>> {
    match o {
        Some(v) => Some(v@),
        None => None,
    }
}

impl View for Proposal {
    type V = ProposalV;

    open spec fn view(&self) -> ProposalV {
        ProposalV {
            id: self.id,
            proposer: self.proposer@,
            reason: self.reason@,
            yes: id_views(self.votes_yes@),
            no: id_views(self.votes_no@),
            started: self.started,
            total: self.total_peers_at_start,
            committed: self.committed,
            state: opt_bytes(self.state_bytes),
        }
    }
}

/// Data that a peer sent.
#[derive(Debug)]
pub struct InboxMessage {
    pub from: NodeId,
    pub data: Vec<u8>,
}

/// The mathematical form of received data.
#[verifier::ext_equal]
pub struct InboxV {
    pub from: Seq<u8>,
    pub data: Seq<u8>,
}

impl View for InboxMessage {
    type V = InboxV;

    open spec fn view(&self) -> InboxV {
        InboxV { from: self.from@, data: self.data@ }
    }
}

/// The definition of a word that a peer sent.
#[derive(Debug)]
pub struct SharedWord {
    pub name: String,
    pub body_source: String,
    pub origin: NodeId,
}

/// The mathematical form of a shared word.
#[verifier::ext_equal]
pub struct SharedV {
    pub name: Seq<char>,
    pub source: Seq<char>,
    pub origin: Seq<u8>,
}

impl View for SharedWord {
    type V = SharedV;

    open spec fn view(&self) -> SharedV {
        SharedV { name: self.name@, source: self.body_source@, origin: self.origin@ }
    }
}

/// From whom a unit accepts replication without being asked.
#[derive(Clone, Copy, Debug, PartialEq, Eq, Structural)]
pub enum TrustLevel {
    /// Everybody.
    All,
    /// Known peers.
    Mesh,
    /// The parent, the children and the siblings.
    Family,
    /// Nobody.
    Nobody,
}

/// The name of a trust level.
pub open spec fn trust_label(t: TrustLevel) -> Seq<char> {
    match t {
        TrustLevel::All => "all"@,
        TrustLevel::Mesh => "mesh"@,
        TrustLevel::Family => "family"@,
        TrustLevel::Nobody => "none"@,
    }
}

/// The number of a trust level.
pub open spec fn trust_value(t: TrustLevel) -> i64 {
    match t {
        TrustLevel::All => 0,
        TrustLevel::Mesh => 1,
        TrustLevel::Family => 2,
        TrustLevel::Nobody => 3,
    }
}

impl TrustLevel {
    pub fn label(&self) -> (s: &str)
        ensures
            s@ == trust_label(*self),
    {
        match self {
            TrustLevel::All => "all",
            TrustLevel::Mesh => "mesh",
            TrustLevel::Family => "family",
            TrustLevel::Nobody => "none",
        }
    }

    pub fn as_val(&self) -> (n: i64)
        ensures
            n == trust_value(*self),
    {
        match self {
            TrustLevel::All => 0,
            TrustLevel::Mesh => 1,
            TrustLevel::Family => 2,
            TrustLevel::Nobody => 3,
        }
    }
}

/// A request to replicate that waits for an answer.
#[derive(Debug)]
pub struct ReplicationRequest {
    pub id: u32,
    pub sender_id: NodeId,
    pub sender_fitness: i64,
    pub sender_generation: u32,
    pub package_size: u64,
    pub reason: String,
    pub received_at: u64,
}

/// The mathematical form of a request.
#[verifier::ext_equal]
pub struct RequestV {
    pub id: u32,
    pub sender: Seq<u8>,
    pub fitness: i64,
    pub generation: u32,
    pub size: u64,
    pub reason: Seq<char>,
    pub received_at: u64,
}

impl View for ReplicationRequest {
    type V = RequestV;

    open spec fn view(&self) -> RequestV {
        RequestV {
            id: self.id,
            sender: self.sender_id@,
            fitness: self.sender_fitness,
            generation: self.sender_generation,
            size: self.package_size,
            reason: self.reason@,
            received_at: self.received_at,
        }
    }
}

/// An entry of the replication log.
#[derive(Debug)]
pub struct ReplicationLogEntry {
    pub timestamp: u64,
    pub direction: String,
    pub peer_id: NodeId,
    pub reason: String,
    pub result: String,
}

/// The mathematical form of a log entry.
#[verifier::ext_equal]
pub struct LogV {
    pub timestamp: u64,
    pub direction: Seq<char>,
    pub peer: Seq<u8>,
    pub reason: Seq<char>,
    pub result: Seq<char>,
}

impl View for ReplicationLogEntry {
    type V = LogV;

    open spec fn view(&self) -> LogV {
        LogV {
            timestamp: self.timestamp,
            direction: self.direction@,
            peer: self.peer_id@,
            reason: self.reason@,
            result: self.result@,
        }
    }
}

/// A message on its way to a peer.
#[derive(Debug)]
pub struct Packet {
    pub to: Addr,
    pub bytes: Vec<u8>,
}

/// The mathematical form of a packet.
#[verifier::ext_equal]
pub struct PacketV {
    pub to: AddrV,
    pub bytes: Seq<u8>,
}

impl View for Packet {
    type V = PacketV;

    open spec fn view(&self) -> PacketV {
        PacketV { to: self.to@, bytes: self.bytes@ }
    }
}

/// A shared word's name, and who sent it.
#[derive(Debug)]
pub struct WordOrigin {
    pub name: String,
    pub origin: NodeId,
}

impl View for WordOrigin {
    type V = (Seq<char>, Seq<u8>);

    open spec fn view(&self) -> (Seq<char>, Seq<u8>) {
        (self.name@, self.origin@)
    }
}

pub open spec fn peer_views(s: Seq<PeerInfo>) -> Seq<PeerV> {
    Seq::new(s.len(), |i: int| s[i]@)
}

pub open spec fn proposal_views(s: Seq<Proposal>) -> Seq<ProposalV> {
    Seq::new(s.len(), |i: int| s[i]@)
}

pub open spec fn inbox_views(s: Seq<InboxMessage>) -> Seq<InboxV> {
    Seq::new(s.len(), |i: int| s[i]@)
}

pub open spec fn shared_views(s: Seq<SharedWord>) -> Seq<SharedV> {
    Seq::new(s.len(), |i: int| s[i]@)
}

pub open spec fn request_views(s: Seq<ReplicationRequest>) -> Seq<RequestV> {
    Seq::new(s.len(), |i: int| s[i]@)
}

pub open spec fn log_views(s: Seq<ReplicationLogEntry>) -> Seq<LogV> {
    Seq::new(s.len(), |i: int| s[i]@)
}

pub open spec fn packet_views(s: Seq<Packet>) -> Seq<PacketV> {
    Seq::new(s.len(), |i: int| s[i]@)
}

pub open spec fn origin_views(s: Seq<WordOrigin>) -> Seq<(Seq<char>, Seq<u8>)> {
    Seq::new(s.len(), |i: int| s[i]@)
}

// ---------------------------------------------------------------------------
// The node
// ---------------------------------------------------------------------------

/// A unit's part of the mesh. It performs no input or output: what is to be sent waits in
/// `outbox`, and what was received is handed to `handle_packet`. Times are milliseconds of a
/// clock that does not go back.
#[derive(Debug)]
pub struct MeshNode {
    pub id: NodeId,
    pub port: u16,
    /// The port for incoming replication packages; 0 if there is none.
    pub repl_port: u16,
    pub peers: Vec<PeerInfo>,
    pub inbox: Vec<InboxMessage>,
    pub proposals: Vec<Proposal>,
    /// When the last proposal of this unit ended.
    pub last_proposal_time: Option<u64>,
    pub load: u32,
    pub capacity: u32,
    /// The last events, oldest first.
    pub event_log: Vec<String>,
    pub goals: GoalRegistry,
    pub fitness: i64,
    pub auto_replicate_needed: bool,
    pub running: bool,
    pub shared_words: Vec<WordOrigin>,
    /// Words that wait to be compiled.
    pub word_inbox: Vec<SharedWord>,
    pub auto_discover: bool,
    pub auto_share: bool,
    pub auto_spawn: bool,
    pub auto_cull: bool,
    pub min_units: usize,
    pub max_units: usize,
    pub spawn_intent_active: bool,
    pub cull_intent_active: bool,
    pub trust_level: TrustLevel,
    pub pending_requests: Vec<ReplicationRequest>,
    pub replication_log: Vec<ReplicationLogEntry>,
    pub next_request_id: u32,
    pub parent_id: Option<NodeId>,
    pub children_ids: Vec<NodeId>,
    pub sibling_ids: Vec<NodeId>,
    /// Messages to send, oldest first.
    pub outbox: Vec<Packet>,
}

/// The mathematical form of a node.
#[verifier::ext_equal]
pub struct MeshV {
    pub id: Seq<u8>,
    pub port: u16,
    pub repl_port: u16,
    pub peers: Seq<PeerV>,
    pub inbox: Seq<InboxV>,
    pub proposals: Seq<ProposalV>,
    pub last_proposal: Option<u64>,
    pub load: u32,
    pub capacity: u32,
    pub events: Seq<Seq<char>>,
    pub goals: GoalsV,
    pub fitness: i64,
    pub replicate_needed: bool,
    pub running: bool,
    pub shared_words: Seq<(Seq<char>, Seq<u8>)>,
    pub word_inbox: Seq<SharedV>,
    pub auto_discover: bool,
    pub auto_share: bool,
    pub auto_spawn: bool,
    pub auto_cull: bool,
    pub min_units: usize,
    pub max_units: usize,
    pub spawn_intent: bool,
    pub cull_intent: bool,
    pub trust: TrustLevel,
    pub requests: Seq<RequestV>,
    pub log: Seq<LogV>,
    pub next_request: u32,
    pub parent: Option<Seq<u8>>,
    pub children: Seq<Seq<u8>>,
    pub siblings: Seq<Seq<u8>>,
    pub outbox: Seq<PacketV>,
}

impl View for MeshNode {
    type V = MeshV;

    open spec fn view(&self) -> MeshV {
        MeshV {
            id: self.id@,
            port: self.port,
            repl_port: self.repl_port,
            peers: peer_views(self.peers@),
            inbox: inbox_views(self.inbox@),
            proposals: proposal_views(self.proposals@),
            last_proposal: self.last_proposal_time,
            load: self.load,
            capacity: self.capacity,
            events: text::texts(self.event_log@),
            goals: self.goals@,
            fitness: self.fitness,
            replicate_needed: self.auto_replicate_needed,
            running: self.running,
            shared_words: origin_views(self.shared_words@),
            word_inbox: shared_views(self.word_inbox@),
            auto_discover: self.auto_discover,
            auto_share: self.auto_share,
            auto_spawn: self.auto_spawn,
            auto_cull: self.auto_cull,
            min_units: self.min_units,
            max_units: self.max_units,
            spawn_intent: self.spawn_intent_active,
            cull_intent: self.cull_intent_active,
            trust: self.trust_level,
            requests: request_views(self.pending_requests@),
            log: log_views(self.replication_log@),
            next_request: self.next_request_id,
            parent: goals::opt_id(self.parent_id),
            children: id_views(self.children_ids@),
            siblings: id_views(self.sibling_ids@),
            outbox: packet_views(self.outbox@),
        }
    }
}

// ---------------------------------------------------------------------------
// Tables
// ---------------------------------------------------------------------------

/// The position at or after `i` of the peer with this identity, or the number of peers.
pub open spec fn peer_from(s: Seq<PeerV>, id: Seq<u8>, i: int) -> int
    decreases s.len() - i,
{
    if i >= s.len() {
        s.len() as int
    } else if s[i].id == id {
        i
    } else {
        peer_from(s, id, i + 1)
    }
}

/// The position of the peer with this identity, or the number of peers.
pub open spec fn peer_at(s: Seq<PeerV>, id: Seq<u8>) -> int {
    peer_from(s, id, 0)
}

/// True if a peer has this identity.
pub open spec fn has_peer(s: Seq<PeerV>, id: Seq<u8>) -> bool {
    0 <= peer_at(s, id) < s.len()
}

/// The peers with `p` in the place of the peer with the same identity, or added at the end.
pub open spec fn put_peer(s: Seq<PeerV>, p: PeerV) -> Seq<PeerV> {
    if has_peer(s, p.id) {
        s.update(peer_at(s, p.id), p)
    } else {
        s.push(p)
    }
}

/// The peers without the one with this identity.
pub open spec fn drop_peer(s: Seq<PeerV>, id: Seq<u8>) -> Seq<PeerV> {
    if has_peer(s, id) {
        s.remove(peer_at(s, id))
    } else {
        s
    }
}

/// True if a peer has this address.
pub open spec fn knows_addr(s: Seq<PeerV>, a: AddrV) -> bool {
    exists|i: int| 0 <= i < s.len() && (#[trigger] s[i]).addr == a
}

/// The position at or after `i` of the proposal with this number, or the number of proposals.
pub open spec fn proposal_from(s: Seq<ProposalV>, id: u64, i: int) -> int
    decreases s.len() - i,
{
    if i >= s.len() {
        s.len() as int
    } else if s[i].id == id {
        i
    } else {
        proposal_from(s, id, i + 1)
    }
}

/// The position of the proposal with this number, or the number of proposals.
pub open spec fn proposal_at(s: Seq<ProposalV>, id: u64) -> int {
    proposal_from(s, id, 0)
}

/// True if a proposal has this number.
pub open spec fn has_proposal(s: Seq<ProposalV>, id: u64) -> bool {
    0 <= proposal_at(s, id) < s.len()
}

/// The proposals with `p` in the place of the one with the same number, or added at the end.
pub open spec fn put_proposal(s: Seq<ProposalV>, p: ProposalV) -> Seq<ProposalV> {
    if has_proposal(s, p.id) {
        s.update(proposal_at(s, p.id), p)
    } else {
        s.push(p)
    }
}

/// The proposals without the one with this number.
pub open spec fn drop_proposal(s: Seq<ProposalV>, id: u64) -> Seq<ProposalV> {
    if has_proposal(s, id) {
        s.remove(proposal_at(s, id))
    } else {
        s
    }
}

/// A set of votes with one more.
pub open spec fn with_vote(s: Seq<Seq<u8>>, id: Seq<u8>) -> Seq<Seq<u8>> {
    if s.contains(id) {
        s
    } else {
        s.push(id)
    }
}

/// What has passed from `t` to `now`.
pub open spec fn since(t: u64, now: u64) -> int {
    if now >= t {
        now - t
    } else {
        0
    }
}

/// What has passed from `t` to `now`.
pub fn elapsed_since(t: u64, now: u64) -> (d: u64)
    ensures
        d == since(t, now),
{
    if now >= t {
        now - t
    } else {
        0
    }
}

/// Tests whether an identity is listed.
pub fn has_id(v: &[NodeId], id: &NodeId) -> (b: bool)
    ensures
        b == id_views(v@).contains(id@),
{
    let mut i: usize = 0;
    while i < v.len()
        invariant
            i <= v@.len(),
            forall|j: int| 0 <= j < i ==> (#[trigger] id_views(v@)[j]) != id@,
        decreases v@.len() - i,
    {
        if same_id(&v[i], id) {
            assert(id_views(v@)[i as int] == id@);
            return true;
        }
        i = i + 1;
    }
    false
}

/// The position of the peer with this identity, or the number of peers.
pub fn peer_slot(v: &[PeerInfo], id: &NodeId) -> (r: usize)
    ensures
        r == peer_at(peer_views(v@), id@),
        r <= v@.len(),
{
    let mut i: usize = 0;
    while i < v.len()
        invariant
            i <= v@.len(),
            peer_from(peer_views(v@), id@, i as int) == peer_at(peer_views(v@), id@),
        decreases v@.len() - i,
    {
        assert(peer_views(v@)[i as int] == v@[i as int]@);
        if same_id(&v[i].id, id) {
            return i;
        }
        i = i + 1;
    }
    i
}

/// Puts a peer in the place of the one with the same identity, or adds it.
pub fn insert_peer(v: &mut Vec<PeerInfo>, p: PeerInfo)
    ensures
        peer_views(final(v)@) == put_peer(peer_views(old(v)@), p@),
{
    let ghost pv = p@;
    let i = peer_slot(v, &p.id);
    if i < v.len() {
        v.set(i, p);
    } else {
        v.push(p);
    }
    assert(peer_views(v@) =~= put_peer(peer_views(old(v)@), pv));
}

/// Removes the peer with this identity, if there is one.
pub fn remove_peer(v: &mut Vec<PeerInfo>, id: &NodeId)
    ensures
        peer_views(final(v)@) == drop_peer(peer_views(old(v)@), id@),
{
    let i = peer_slot(v, id);
    if i < v.len() {
        let _ = v.remove(i);
    }
    assert(peer_views(v@) =~= drop_peer(peer_views(old(v)@), id@));
}

/// The position of the proposal with this number, or the number of proposals.
pub fn proposal_slot(v: &[Proposal], id: u64) -> (r: usize)
    ensures
        r == proposal_at(proposal_views(v@), id),
        r <= v@.len(),
{
    let mut i: usize = 0;
    while i < v.len()
        invariant
            i <= v@.len(),
            proposal_from(proposal_views(v@), id, i as int) == proposal_at(proposal_views(v@), id),
        decreases v@.len() - i,
    {
        assert(proposal_views(v@)[i as int] == v@[i as int]@);
        if v[i].id == id {
            return i;
        }
        i = i + 1;
    }
    i
}

/// Puts a proposal in the place of the one with the same number, or adds it.
pub fn insert_proposal(v: &mut Vec<Proposal>, p: Proposal)
    ensures
        proposal_views(final(v)@) == put_proposal(proposal_views(old(v)@), p@),
{
    let ghost pv = p@;
    let i = proposal_slot(v, p.id);
    if i < v.len() {
        v.set(i, p);
    } else {
        v.push(p);
    }
    assert(proposal_views(v@) =~= put_proposal(proposal_views(old(v)@), pv));
}

/// Removes the proposal with this number, if there is one.
pub fn remove_proposal(v: &mut Vec<Proposal>, id: u64)
    ensures
        proposal_views(final(v)@) == drop_proposal(proposal_views(old(v)@), id),
{
    let i = proposal_slot(v, id);
    if i < v.len() {
        let _ = v.remove(i);
    }
    assert(proposal_views(v@) =~= drop_proposal(proposal_views(old(v)@), id));
}

/// Copies bytes.
pub fn copy_bytes(b: &[u8]) -> (r: Vec<u8>)
    ensures
        r@ == b@,
{
    let mut r: Vec<u8> = Vec::new();
    wire::write_bytes(&mut r, b);
    assert(r@ =~= b@);
    r
}

/// An identity in hexadecimal digits.
pub fn id_to_hex(id: &NodeId) -> (s: String)
    ensures
        s@ == text::hex(id@),
{
    let mut s = String::new();
    push_hex(&mut s, id.as_slice());
    assert(s@ =~= text::hex(id@));
    s
}

/// A number in sixteen hexadecimal digits.
pub open spec fn hex16(n: u64) -> Seq<char> {
    text::hex(wire::w64(n as nat))
}

/// Appends a number in sixteen hexadecimal digits.
pub fn push_hex16(s: &mut String, n: u64)
    ensures
        final(s)@ == old(s)@ + hex16(n),
{
    let mut b: Vec<u8> = Vec::new();
    write_u64(&mut b, n);
    assert(b@ =~= wire::w64(n as nat));
    push_hex(s, &b);
}

// ---------------------------------------------------------------------------
// Events and messages
// ---------------------------------------------------------------------------

/// Events with one more; of more than twenty the oldest is dropped.
pub open spec fn with_event(s: Seq<Seq<char>>, e: Seq<char>) -> Seq<Seq<char>> {
    if s.len() >= EVENTS_KEPT {
        s.push(e).skip(1)
    } else {
        s.push(e)
    }
}

/// The node after an event.
pub open spec fn logged(m: MeshV, e: Seq<char>) -> MeshV {
    MeshV { events: with_event(m.events, e), ..m }
}

/// One packet to each peer.
pub open spec fn to_all(peers: Seq<PeerV>, bytes: Seq<u8>) -> Seq<PacketV> {
    Seq::new(peers.len(), |i: int| PacketV { to: peers[i].addr, bytes })
}

/// The node after it has sent a message to each peer.
pub open spec fn sent(m: MeshV, bytes: Seq<u8>) -> MeshV {
    MeshV { outbox: m.outbox + to_all(m.peers, bytes), ..m }
}

/// The node after it has sent a message to one address.
pub open spec fn posted(m: MeshV, to: AddrV, bytes: Seq<u8>) -> MeshV {
    MeshV { outbox: m.outbox.push(PacketV { to, bytes }), ..m }
}

impl MeshNode {
    /// Records an event.
    pub fn log_event(&mut self, msg: String)
        ensures
            final(self)@ == logged(old(self)@, msg@),
    {
        let ghost before = self.event_log@;
        let ghost e = msg@;
        self.event_log.push(msg);
        assert(text::texts(self.event_log@) =~= text::texts(before).push(e));
        if self.event_log.len() > EVENTS_KEPT {
            let _ = self.event_log.remove(0);
            assert(text::texts(self.event_log@) =~= text::texts(before).push(e).skip(1));
        }
    }

    /// Sends a message to each peer.
    pub fn broadcast(&mut self, bytes: &[u8])
        ensures
            final(self)@ == sent(old(self)@, bytes@),
    {
        let mut i: usize = 0;
        let ghost out = self@.outbox;
        assert(to_all(self@.peers, bytes@).take(0) =~= Seq::empty());
        assert(out + to_all(self@.peers, bytes@).take(0) =~= out);
        while i < self.peers.len()
            invariant
                i <= self.peers@.len(),
                self.peers == old(self).peers,
                self@ == (MeshV {
                    outbox: out + to_all(old(self)@.peers, bytes@).take(i as int),
                    ..old(self)@
                }),
            decreases self.peers@.len() - i,
        {
            let ghost before = self@.outbox;
            assert(self@.peers[i as int] == self.peers@[i as int]@);
            let to = self.peers[i].addr.clone();
            let p = Packet { to, bytes: copy_bytes(bytes) };
            self.outbox.push(p);
            assert(self@.outbox =~= before.push(p@));
            i = i + 1;
            assert(self@.outbox =~= out + to_all(old(self)@.peers, bytes@).take(i as int));
        }
        assert(to_all(old(self)@.peers, bytes@).take(i as int) =~= to_all(
            old(self)@.peers,
            bytes@,
        ));
    }

    /// Sends a message to one address.
    pub fn post(&mut self, to: Addr, bytes: Vec<u8>)
        ensures
            final(self)@ == posted(old(self)@, to@, bytes@),
    {
        let ghost before = self@.outbox;
        let p = Packet { to, bytes };
        self.outbox.push(p);
        assert(self@.outbox =~= before.push(p@));
    }

    /// Takes the messages to send.
    pub fn take_outbox(&mut self) -> (v: Vec<Packet>)
        ensures
            packet_views(v@) == old(self)@.outbox,
            final(self)@ == (MeshV { outbox: Seq::empty(), ..old(self)@ }),
    {
        let mut v: Vec<Packet> = Vec::new();
        std::mem::swap(&mut v, &mut self.outbox);
        assert(self@.outbox =~= Seq::<PacketV>::empty());
        v
    }
}

/// The event log never holds more than twenty events.
pub proof fn law_events_bounded(m: MeshV, e: Seq<char>)
    requires
        m.events.len() <= EVENTS_KEPT,
    ensures
        logged(m, e).events.len() <= EVENTS_KEPT,
        logged(m, e).events.last() == e,
{
}

// ---------------------------------------------------------------------------
// Start
// ---------------------------------------------------------------------------

/// A peer of which only the address is known.
pub open spec fn stranger(id: Seq<u8>, addr: AddrV, now: u64) -> PeerV {
    PeerV { addr, id, load: 0, capacity: 0, peer_count: 0, fitness: 0, last_seen: now }
}

/// A peer of which only the address is known.
pub fn new_peer(id: NodeId, addr: Addr, now: u64) -> (p: PeerInfo)
    ensures
        p@ == stranger(id@, addr@, now),
{
    PeerInfo { addr, id, load: 0, capacity: 0, peer_count: 0, fitness: 0, last_seen: now }
}

/// Addresses in mathematical form.
pub open spec fn addr_views(s: Seq<Addr>) -> Seq<AddrV> {
    Seq::new(s.len(), |i: int| s[i]@)
}

/// The peers that a unit starts with.
pub open spec fn seeds(s: Seq<AddrV>, now: u64) -> Seq<PeerV>
    decreases s.len(),
{
    if s.len() == 0 {
        Seq::empty()
    } else {
        put_peer(seeds(s.drop_last(), now), stranger(message::pseudo_id(s.last()), s.last(), now))
    }
}

/// A node as it starts.
pub open spec fn started(id: Seq<u8>, port: u16, seed: Seq<AddrV>, now: u64) -> MeshV {
    MeshV {
        id,
        port,
        repl_port: 0,
        peers: seeds(seed, now),
        inbox: Seq::empty(),
        proposals: Seq::empty(),
        last_proposal: None,
        load: 0,
        capacity: DEFAULT_CAPACITY,
        events: seq![
            "mesh started on port "@ + text::dec(port as nat) + " with "@ + text::dec(seed.len()) + " seed peers"@,
        ],
        goals: GoalsV { goals: Seq::empty(), tasks: Seq::empty(), counter: goals::first_id(id) as u64 },
        fitness: 0,
        replicate_needed: false,
        running: true,
        shared_words: Seq::empty(),
        word_inbox: Seq::empty(),
        auto_discover: true,
        auto_share: false,
        auto_spawn: false,
        auto_cull: false,
        min_units: 1,
        max_units: 10,
        spawn_intent: false,
        cull_intent: false,
        trust: TrustLevel::All,
        requests: Seq::empty(),
        log: Seq::empty(),
        next_request: 1,
        parent: None,
        children: Seq::empty(),
        siblings: Seq::empty(),
        outbox: Seq::empty(),
    }
}

/// The port on which a unit listens for replication packages, if it can.
pub open spec fn replication_port(port: u16) -> u16 {
    if port > 0 {
        port.wrapping_add(1000)
    } else {
        0
    }
}

/// The port on which a unit with this port listens for replication packages, if it can.
pub fn replication_port_for(port: u16) -> (p: u16)
    ensures
        p == replication_port(port),
{
    if port > 0 {
        port.wrapping_add(1000)
    } else {
        0
    }
}

impl MeshNode {
    /// The node of a unit with the identity `id`, which listens on `port` and knows the
    /// addresses of its first peers.
    pub fn start_with_id(id: NodeId, port: u16, seed_peers: &[Addr], now: u64) -> (m: MeshNode)
        ensures
            m@ == started(id@, port, addr_views(seed_peers@), now),
    {
        let mut peers: Vec<PeerInfo> = Vec::new();
        let ghost av = addr_views(seed_peers@);
        let mut i: usize = 0;
        assert(peer_views(peers@) =~= seeds(av.take(0), now));
        while i < seed_peers.len()
            invariant
                i <= seed_peers@.len(),
                av == addr_views(seed_peers@),
                peer_views(peers@) == seeds(av.take(i as int), now),
            decreases seed_peers@.len() - i,
        {
            assert(av[i as int] == seed_peers@[i as int]@);
            let pseudo = addr_to_pseudo_id(&seed_peers[i]);
            insert_peer(&mut peers, new_peer(pseudo, seed_peers[i].clone(), now));
            i = i + 1;
            assert(av.take(i as int).drop_last() =~= av.take(i - 1));
        }
        assert(av.take(i as int) =~= av);
        let mut msg = text("mesh started on port ");
        push_u64(&mut msg, port as u64);
        msg.append(" with ");
        push_usize(&mut msg, seed_peers.len());
        msg.append(" seed peers");
        let mut m = MeshNode {
            id,
            port,
            repl_port: 0,
            peers,
            inbox: Vec::new(),
            proposals: Vec::new(),
            last_proposal_time: None,
            load: 0,
            capacity: DEFAULT_CAPACITY,
            event_log: Vec::new(),
            goals: GoalRegistry::new(&id),
            fitness: 0,
            auto_replicate_needed: false,
            running: true,
            shared_words: Vec::new(),
            word_inbox: Vec::new(),
            auto_discover: true,
            auto_share: false,
            auto_spawn: false,
            auto_cull: false,
            min_units: 1,
            max_units: 10,
            spawn_intent_active: false,
            cull_intent_active: false,
            trust_level: TrustLevel::All,
            pending_requests: Vec::new(),
            replication_log: Vec::new(),
            next_request_id: 1,
            parent_id: None,
            children_ids: Vec::new(),
            sibling_ids: Vec::new(),
            outbox: Vec::new(),
        };
        m.log_event(msg);
        proof {
            let s = started(id@, port, av, now);
            assert(m@.events =~= s.events);
            assert(m@.inbox =~= s.inbox);
            assert(m@.proposals =~= s.proposals);
            assert(m@.shared_words =~= s.shared_words);
            assert(m@.word_inbox =~= s.word_inbox);
            assert(m@.requests =~= s.requests);
            assert(m@.log =~= s.log);
            assert(m@.children =~= s.children);
            assert(m@.siblings =~= s.siblings);
            assert(m@.outbox =~= s.outbox);
            assert(m@.goals =~= s.goals);
        }
        m
    }
}

} // verus!
