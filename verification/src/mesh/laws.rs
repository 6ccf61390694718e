//! What stays true of a node whatever happens.

use crate::goals;
use crate::goals::{GoalsV, TaskV};
use crate::mesh::api;
use crate::mesh::consensus;
use crate::mesh::goal_message;
use crate::mesh::gossip;
use crate::mesh::message;
use crate::mesh::message::AddrV;
use crate::mesh::node;
use crate::mesh::node::{MeshV, PeerV, ProposalV, TrustLevel, EVENTS_KEPT};
use crate::order;
use crate::registry;
use crate::registry::Deed;
use crate::text;
use crate::wire;
use crate::wire::Input;
use vstd::prelude::*;

verus! {

/// No two peers have the same identity.
pub open spec fn peers_distinct(s: Seq<PeerV>) -> bool {
    forall|i: int, j: int| 0 <= i < j < s.len() ==> (#[trigger] s[i]).id != (#[trigger] s[j]).id
}

/// No two proposals have the same number.
pub open spec fn proposals_distinct(s: Seq<ProposalV>) -> bool {
    forall|i: int, j: int| 0 <= i < j < s.len() ==> (#[trigger] s[i]).id != (#[trigger] s[j]).id
}

/// Nobody's vote counts twice.
pub open spec fn votes_fair(s: Seq<ProposalV>) -> bool {
    forall|i: int|
        0 <= i < s.len() ==> (#[trigger] s[i]).yes.no_duplicates() && s[i].no.no_duplicates()
}

/// The invariant of a node: peers, proposals, votes and goals do not repeat, and the event log is
/// bounded.
pub open spec fn mesh_wf(m: MeshV) -> bool {
    &&& peers_distinct(m.peers)
    &&& proposals_distinct(m.proposals)
    &&& votes_fair(m.proposals)
    &&& goals::goals_wf(m.goals)
    &&& m.events.len() <= EVENTS_KEPT
}

// ---------------------------------------------------------------------------
// Tables
// ---------------------------------------------------------------------------

/// Looking for a peer finds the first with that identity.
pub proof fn lemma_peer_from(s: Seq<PeerV>, id: Seq<u8>, i: int)
    requires
        0 <= i <= s.len(),
    ensures
        i <= node::peer_from(s, id, i) <= s.len(),
        node::peer_from(s, id, i) < s.len() ==> s[node::peer_from(s, id, i)].id == id,
        forall|j: int| i <= j < node::peer_from(s, id, i) ==> (#[trigger] s[j]).id != id,
    decreases s.len() - i,
{
    if i < s.len() && s[i].id != id {
        lemma_peer_from(s, id, i + 1);
    }
}

pub proof fn lemma_put_peer(s: Seq<PeerV>, p: PeerV)
    requires
        peers_distinct(s),
    ensures
        peers_distinct(node::put_peer(s, p)),
        node::has_peer(node::put_peer(s, p), p.id),
{
    lemma_peer_from(s, p.id, 0);
    let r = node::put_peer(s, p);
    lemma_peer_from(r, p.id, 0);
    if node::has_peer(s, p.id) {
        assert(r[node::peer_at(s, p.id)].id == p.id);
    } else {
        assert(r[s.len() as int].id == p.id);
    }
}

pub proof fn lemma_drop_peer(s: Seq<PeerV>, id: Seq<u8>)
    requires
        peers_distinct(s),
    ensures
        peers_distinct(node::drop_peer(s, id)),
        !node::has_peer(node::drop_peer(s, id), id),
{
    lemma_peer_from(s, id, 0);
    lemma_peer_from(node::drop_peer(s, id), id, 0);
}

proof fn lemma_with_fitness(s: Seq<PeerV>, id: Seq<u8>, f: i64)
    requires
        peers_distinct(s),
    ensures
        peers_distinct(gossip::with_fitness(s, id, f)),
{
}

pub proof fn lemma_proposal_from(s: Seq<ProposalV>, id: u64, i: int)
    requires
        0 <= i <= s.len(),
    ensures
        i <= node::proposal_from(s, id, i) <= s.len(),
        node::proposal_from(s, id, i) < s.len() ==> s[node::proposal_from(s, id, i)].id == id,
        forall|j: int| i <= j < node::proposal_from(s, id, i) ==> (#[trigger] s[j]).id != id,
    decreases s.len() - i,
{
    if i < s.len() && s[i].id != id {
        lemma_proposal_from(s, id, i + 1);
    }
}

pub proof fn lemma_put_proposal(s: Seq<ProposalV>, p: ProposalV)
    requires
        proposals_distinct(s),
        votes_fair(s),
        p.yes.no_duplicates(),
        p.no.no_duplicates(),
    ensures
        proposals_distinct(node::put_proposal(s, p)),
        votes_fair(node::put_proposal(s, p)),
{
    lemma_proposal_from(s, p.id, 0);
}

pub proof fn lemma_drop_proposal(s: Seq<ProposalV>, id: u64)
    requires
        proposals_distinct(s),
        votes_fair(s),
    ensures
        proposals_distinct(node::drop_proposal(s, id)),
        votes_fair(node::drop_proposal(s, id)),
{
    lemma_proposal_from(s, id, 0);
}

// ---------------------------------------------------------------------------
// Goals
// ---------------------------------------------------------------------------

proof fn lemma_merged_tasks(v: GoalsV, s: Seq<TaskV>)
    requires
        goals::goals_wf(v),
    ensures
        goals::goals_wf(gossip::merged_tasks(v, s)),
    decreases s.len(),
{
    if s.len() > 0 {
        let w = gossip::merged_tasks(v, s.drop_last());
        lemma_merged_tasks(v, s.drop_last());
        registry::lemma_merged_task(w, s.last());
    }
}

// ---------------------------------------------------------------------------
// Packets
// ---------------------------------------------------------------------------

proof fn lemma_goals_posted(m: MeshV, n: int, to: AddrV)
    ensures
        gossip::goals_posted(m, n, to) == (MeshV { outbox: gossip::goals_posted(m, n, to).outbox, ..m }),
    decreases n,
{
    if n > 0 {
        lemma_goals_posted(m, n - 1, to);
    }
}

proof fn lemma_introduced(m: MeshV, s: Seq<AddrV>, now: u64)
    requires
        mesh_wf(m),
    ensures
        mesh_wf(gossip::all_introduced(m, s, now)),
    decreases s.len(),
{
    if s.len() > 0 {
        lemma_introduced(m, s.drop_last(), now);
        let r = gossip::all_introduced(m, s.drop_last(), now);
        lemma_put_peer(r.peers, node::stranger(message::pseudo_id(s.last()), s.last(), now));
    }
}

proof fn lemma_met(m: MeshV, p: PeerV)
    requires
        mesh_wf(m),
    ensures
        mesh_wf(gossip::met(m, p)),
{
    let known = if message::pseudo_id(p.addr) != p.id {
        node::drop_peer(m.peers, message::pseudo_id(p.addr))
    } else {
        m.peers
    };
    lemma_drop_peer(m.peers, message::pseudo_id(p.addr));
    lemma_put_peer(known, p);
    let m1 = MeshV { peers: node::put_peer(known, p), ..m };
    let m2 = node::logged(m1, "discovered peer "@ + text::hex(p.id) + " @ "@ + message::addr_text(p.addr));
    lemma_goals_posted(m2, m1.goals.goals.len() as int, p.addr);
}

proof fn lemma_on_vote(m: MeshV, i: Input, sender: Seq<u8>)
    requires
        mesh_wf(m),
    ensures
        mesh_wf(gossip::on_vote(m, i, sender)),
{
    let (n, i1) = wire::get_nat(i, 8);
    let (v, i2) = wire::get_nat(i1, 1);
    if i2.ok && node::has_proposal(m.proposals, n as u64) {
        let k = node::proposal_at(m.proposals, n as u64);
        let p = m.proposals[k];
        consensus::law_votes_count_once(p.yes, sender);
        consensus::law_votes_count_once(p.no, sender);
    }
}

proof fn lemma_on_heartbeat(m: MeshV, i: Input, sender: Seq<u8>, from: AddrV, now: u64)
    requires
        mesh_wf(m),
    ensures
        mesh_wf(gossip::on_heartbeat(m, i, sender, from, now)),
{
    let (load, j) = wire::get_nat(i, 4);
    let (capacity, j) = wire::get_nat(j, 4);
    let (count, j) = wire::get_nat(j, 2);
    let (n, j) = wire::get_nat(j, 1);
    let (addrs, k) = gossip::get_addrs(j, n as int);
    let p = PeerV {
        addr: from,
        id: sender,
        load: load as u32,
        capacity: capacity as u32,
        peer_count: count as u16,
        fitness: 0,
        last_seen: now,
    };
    lemma_met(m, p);
    lemma_introduced(gossip::met(m, p), addrs, now);
    let m2 = gossip::all_introduced(gossip::met(m, p), addrs, now);
    lemma_with_fitness(m2.peers, sender, wire::get_int(k).0 as i64);
}

proof fn lemma_on_reject(m: MeshV, i: Input, sender: Seq<u8>)
    requires
        mesh_wf(m),
    ensures
        mesh_wf(gossip::on_reject(m, i, sender)),
{
    lemma_drop_proposal(m.proposals, wire::get_nat(i, 8).0 as u64);
}

proof fn lemma_on_claim(m: MeshV, i: Input, sender: Seq<u8>)
    requires
        mesh_wf(m),
    ensures
        mesh_wf(gossip::on_claim(m, i, sender)),
{
    let (n, j) = wire::get_nat(i, 8);
    order::lemma_at(goals::task_ids(m.goals.tasks), n as u64);
    if goals::has_task(m.goals.tasks, n as u64) {
        registry::lemma_claimed(m.goals, goals::task_at(m.goals.tasks, n as u64), sender);
    }
}

proof fn lemma_on_result(m: MeshV, i: Input, sender: Seq<u8>)
    requires
        mesh_wf(m),
    ensures
        mesh_wf(gossip::on_result(m, i, sender)),
{
    let (n, j) = wire::get_nat(i, 8);
    let (g, j) = wire::get_nat(j, 8);
    registry::lemma_completed(m.goals, n as u64, Some(message::get_outcome(j).0));
}

proof fn lemma_on_goal(m: MeshV, i: Input, sender: Seq<u8>)
    requires
        mesh_wf(m),
    ensures
        mesh_wf(gossip::on_goal(m, i, sender)),
{
    let (g, tasks, j) = goal_message::get_goal_message(i);
    registry::lemma_merged_goal(m.goals, g);
    lemma_merged_tasks(goals::merged_goal(m.goals, g), tasks);
}

proof fn lemma_on_request(m: MeshV, i: Input, sender: Seq<u8>, now: u64)
    requires
        mesh_wf(m),
    ensures
        mesh_wf(gossip::on_request(m, i, sender, now)),
{
}

proof fn lemma_on_other(m: MeshV, i: Input, sender: Seq<u8>, from: AddrV)
    requires
        mesh_wf(m),
    ensures
        mesh_wf(gossip::on_propose(m, i, sender, from)),
        mesh_wf(gossip::on_commit(m, i, sender)),
        mesh_wf(gossip::on_data(m, i, sender)),
        mesh_wf(gossip::on_word(m, i, sender)),
{
}

/// A message of a peer, whatever it holds, keeps the invariant.
#[verifier::rlimit(50)]
pub proof fn law_message_keeps_invariant(
    m: MeshV,
    kind: u8,
    i: Input,
    sender: Seq<u8>,
    from: AddrV,
    now: u64,
)
    requires
        mesh_wf(m),
    ensures
        mesh_wf(gossip::on_message(m, kind, i, sender, from, now)),
{
    let r = gossip::on_message(m, kind, i, sender, from, now);
    if kind == message::MSG_HEARTBEAT {
        lemma_on_heartbeat(m, i, sender, from, now);
    } else if kind == message::MSG_VOTE {
        lemma_on_vote(m, i, sender);
    } else if kind == message::MSG_REJECT {
        lemma_on_reject(m, i, sender);
    } else if kind == message::MSG_GOAL_BROADCAST {
        lemma_on_goal(m, i, sender);
    } else if kind == message::MSG_TASK_CLAIM {
        lemma_on_claim(m, i, sender);
    } else if kind == message::MSG_TASK_RESULT {
        lemma_on_result(m, i, sender);
    } else if kind == message::MSG_REPLICATE_REQUEST {
        lemma_on_request(m, i, sender, now);
    } else if kind == message::MSG_PROPOSE || kind == message::MSG_COMMIT || kind
        == message::MSG_DATA || kind == message::MSG_WORD_SHARE {
        lemma_on_other(m, i, sender, from);
    }
}

/// A packet, whatever it holds, keeps the invariant.
pub proof fn law_packet_keeps_invariant(m: MeshV, data: Seq<u8>, from: AddrV, now: u64)
    requires
        mesh_wf(m),
    ensures
        mesh_wf(gossip::on_packet(m, data, from, now)),
{
    let (kind, sender, port, i) = message::get_header(wire::input(data));
    let a = message::at_port(from, port as u16);
    if i.ok && sender != m.id {
        law_message_keeps_invariant(m, kind as u8, i, sender, a, now);
    }
}

/// A beacon keeps the invariant.
pub proof fn law_beacon_keeps_invariant(m: MeshV, data: Seq<u8>, ip: u32, now: u64)
    requires
        mesh_wf(m),
    ensures
        mesh_wf(gossip::on_beacon(m, data, ip, now)),
{
    let (kind, sender, port, i) = message::get_header(wire::input(data));
    lemma_put_peer(m.peers, node::stranger(sender, AddrV::V4 { ip, port: port as u16 }, now));
}

// ---------------------------------------------------------------------------
// Turns
// ---------------------------------------------------------------------------

pub proof fn lemma_all_checked(m: MeshV, ids: Seq<u64>, now: u64)
    requires
        mesh_wf(m),
    ensures
        mesh_wf(consensus::all_checked(m, ids, now)),
    decreases ids.len(),
{
    if ids.len() > 0 {
        lemma_all_checked(m, ids.drop_last(), now);
        let r = consensus::all_checked(m, ids.drop_last(), now);
        lemma_drop_proposal(r.proposals, ids.last());
    }
}

pub proof fn lemma_pruned(m: MeshV, n: int, now: u64)
    requires
        mesh_wf(m),
        0 <= n <= m.peers.len(),
    ensures
        mesh_wf(consensus::pruned(m, n, now)),
        forall|i: int|
            #![trigger consensus::pruned(m, n, now).peers[i]]
            0 <= i < consensus::pruned(m, n, now).peers.len() ==> exists|j: int|
                0 <= j < n && m.peers[j] == consensus::pruned(m, n, now).peers[i],
    decreases n,
{
    if n > 0 {
        lemma_pruned(m, n - 1, now);
        let r = consensus::pruned(m, n - 1, now);
        let s = consensus::pruned(m, n, now);
        assert forall|i: int| #![trigger s.peers[i]] 0 <= i < s.peers.len() implies exists|j: int|
            0 <= j < n && m.peers[j] == s.peers[i] by {
            if i < r.peers.len() {
                assert(s.peers[i] == r.peers[i]);
                let j = choose|j: int| 0 <= j < n - 1 && m.peers[j] == r.peers[i];
                assert(m.peers[j] == s.peers[i]);
            } else {
                assert(m.peers[n - 1] == s.peers[i]);
            }
        }
        assert forall|i: int, j: int| 0 <= i < j < s.peers.len() implies (#[trigger] s.peers[i]).id
            != (#[trigger] s.peers[j]).id by {
            if j >= r.peers.len() {
                assert(s.peers[i] == r.peers[i]);
                let h = choose|h: int| 0 <= h < n - 1 && m.peers[h] == r.peers[i];
                assert(m.peers[h].id != m.peers[n - 1].id);
            } else {
                assert(s.peers[i] == r.peers[i] && s.peers[j] == r.peers[j]);
            }
        }
    }
}

/// A turn keeps the invariant.
pub proof fn law_tick_keeps_invariant(m: MeshV, last: Option<u64>, now: u64)
    requires
        mesh_wf(m),
    ensures
        mesh_wf(consensus::ticked(m, last, now)),
{
    let m1 = if consensus::beats(last, now) {
        node::sent(m, consensus::heartbeat_bytes(m))
    } else {
        m
    };
    lemma_all_checked(m1, consensus::proposal_ids(m1.proposals), now);
    let m2 = consensus::all_checked(m1, consensus::proposal_ids(m1.proposals), now);
    lemma_pruned(m2, m2.peers.len() as int, now);
}

/// A turn of discovery keeps the invariant.
pub proof fn law_announcing_keeps_invariant(m: MeshV, last: u64, now: u64)
    requires
        mesh_wf(m),
    ensures
        mesh_wf(consensus::beaconed(m, last, now)),
{
}

/// A sibling that is recorded is family: with trust in the family its replication needs no
/// approval. Whoever was family before still is, and nobody else becomes it.
pub proof fn law_sibling_is_family(m: MeshV, id: Seq<u8>, other: Seq<u8>)
    requires
        m.trust == TrustLevel::Family,
    ensures
        gossip::trusts(api::with_sibling(m, id), id),
        gossip::trusts(api::with_sibling(m, id), other) == (gossip::trusts(m, other) || other
            == id),
{
    let s = m.siblings;
    assert(s.push(id)[s.len() as int] == id);
    if s.contains(other) {
        let i = choose|i: int| 0 <= i < s.len() && s[i] == other;
        assert(s.push(id)[i] == other);
    }
}

/// A sibling that is recorded keeps the invariant, and recording it once more changes nothing.
pub proof fn law_sibling_keeps_invariant(m: MeshV, id: Seq<u8>)
    requires
        mesh_wf(m),
    ensures
        mesh_wf(api::with_sibling(m, id)),
        api::with_sibling(api::with_sibling(m, id), id) == api::with_sibling(m, id),
{
    assert(m.siblings.push(id)[m.siblings.len() as int] == id);
}

/// A proposal keeps the invariant.
pub proof fn law_proposal_keeps_invariant(
    m: MeshV,
    reason: Seq<char>,
    state: Seq<u8>,
    now: u64,
    n: u64,
)
    requires
        mesh_wf(m),
    ensures
        mesh_wf(consensus::proposed(m, reason, state, now, n)),
{
    let p = ProposalV {
        id: n,
        proposer: m.id,
        reason,
        yes: Seq::empty(),
        no: Seq::empty(),
        started: now,
        total: m.peers.len() as usize,
        committed: false,
        state: Some(state),
    };
    lemma_put_proposal(m.proposals, p);
}

proof fn lemma_seeds(s: Seq<AddrV>, now: u64)
    ensures
        peers_distinct(node::seeds(s, now)),
    decreases s.len(),
{
    if s.len() > 0 {
        lemma_seeds(s.drop_last(), now);
        lemma_put_peer(
            node::seeds(s.drop_last(), now),
            node::stranger(message::pseudo_id(s.last()), s.last(), now),
        );
    }
}

/// A node starts with the invariant.
pub proof fn law_start_has_invariant(id: Seq<u8>, port: u16, seed: Seq<AddrV>, now: u64)
    ensures
        mesh_wf(node::started(id, port, seed, now)),
{
    lemma_seeds(seed, now);
}

/// A node that may propose has no other proposal of its own that may still be voted on, so that
/// afterwards there is exactly one.
pub proof fn law_one_open_proposal(
    m: MeshV,
    reason: Seq<char>,
    state: Seq<u8>,
    now: u64,
    n: u64,
)
    requires
        consensus::proposal_refusal(m, now).is_none(),
    ensures
        ({
            let r = consensus::proposed(m, reason, state, now, n);
            &&& consensus::proposing(r, now)
            &&& forall|i: int|
                0 <= i < r.proposals.len() && (#[trigger] r.proposals[i]).proposer == r.id
                    && consensus::open_vote(r.proposals[i], now) ==> i == node::proposal_at(
                    r.proposals,
                    n,
                )
        }),
{
    let r = consensus::proposed(m, reason, state, now, n);
    lemma_proposal_from(m.proposals, n, 0);
    lemma_proposal_from(r.proposals, n, 0);
    let k = node::proposal_at(m.proposals, n);
    assert(r.proposals[k].id == n);
    let j = node::proposal_at(r.proposals, n);
    if j < k {
        assert(r.proposals[j] == m.proposals[j]);
    }
    assert(j == k);
    assert forall|i: int|
        0 <= i < r.proposals.len() && (#[trigger] r.proposals[i]).proposer == r.id
            && consensus::open_vote(r.proposals[i], now) implies i == j by {
        if i != k {
            assert(r.proposals[i] == m.proposals[i]);
        }
    }
}

// ---------------------------------------------------------------------------
// Goals of this node
// ---------------------------------------------------------------------------

/// Creating a goal keeps the invariant.
pub proof fn law_creating_keeps_invariant(
    m: MeshV,
    description: Seq<char>,
    priority: i64,
    code: Option<Seq<char>>,
    now: u64,
)
    requires
        mesh_wf(m),
    ensures
        mesh_wf(api::goal_created(m, description, priority, code, now)),
{
    let d = Deed::Create { description, priority, creator: m.id, code, now };
    registry::law_deeds_keep_identities(m.goals, d);
}

/// Claiming a task keeps the invariant.
pub proof fn law_claiming_keeps_invariant(m: MeshV, i: int, runnable: bool)
    requires
        mesh_wf(m),
        0 <= i < m.goals.tasks.len(),
    ensures
        mesh_wf(api::task_claimed(m, i, runnable)),
{
    registry::lemma_claimed(m.goals, i, m.id);
}

/// Completing a task keeps the invariant.
pub proof fn law_completing_keeps_invariant(m: MeshV, id: u64, r: goals::ResultV)
    requires
        mesh_wf(m),
    ensures
        mesh_wf(api::task_completed(m, id, r)),
{
    registry::lemma_completed(m.goals, id, Some(r));
}

/// Cancelling a goal and changing its priority keep the invariant.
pub proof fn law_steering_keeps_invariant(m: MeshV, id: u64, priority: i64)
    requires
        mesh_wf(m),
    ensures
        mesh_wf(api::goal_cancelled(m, id)),
        mesh_wf(api::goal_steered(m, id, priority)),
{
    registry::law_deeds_keep_identities(m.goals, Deed::Cancel { goal: id });
    registry::law_deeds_keep_identities(m.goals, Deed::Steer { goal: id, priority });
}

/// Adding a task to a goal keeps the invariant.
pub proof fn law_subtask_keeps_invariant(
    m: MeshV,
    goal: u64,
    description: Seq<char>,
    code: Option<Seq<char>>,
    now: u64,
)
    requires
        mesh_wf(m),
        goals::has_goal(m.goals.goals, goal),
    ensures
        mesh_wf(
            MeshV { goals: goals::with_subtask(m.goals, goal, description, code, now), ..m },
        ),
{
    registry::law_deeds_keep_identities(m.goals, Deed::Subtask { goal, description, code, now });
}

/// Forking a goal keeps the invariant.
pub proof fn law_forking_keeps_invariant(
    m: MeshV,
    goal: u64,
    k: int,
    n: int,
    code: Seq<char>,
    now: u64,
)
    requires
        mesh_wf(m),
        goals::has_goal(m.goals.goals, goal),
    ensures
        mesh_wf(MeshV { goals: goals::forked(m.goals, goal, k, n, code, now), ..m }),
{
    registry::lemma_forked(m.goals, goal, k, n, code, now);
}

/// Creating a goal that is split into tasks keeps the invariant.
pub proof fn law_splitting_keeps_invariant(
    m: MeshV,
    total: i64,
    n: i64,
    code: Seq<char>,
    priority: i64,
    now: u64,
)
    requires
        mesh_wf(m),
    ensures
        mesh_wf(
            MeshV {
                goals: goals::with_split(
                    m.goals,
                    total as int,
                    goals::at_least_one(n as int),
                    code,
                    priority,
                    m.id,
                    now,
                ),
                ..m
            },
        ),
{
    let d = Deed::Split { total, n, code, priority, creator: m.id, now };
    registry::law_deeds_keep_identities(m.goals, d);
}

} // verus!
