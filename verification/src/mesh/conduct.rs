//! How a node acts: what a vote comes to, whom it trusts, whom it knows, and when it speaks up.

use crate::goals;
use crate::goals::{GoalStatus, GoalV, GoalsV, ResultV, TaskStatus, TaskV};
use crate::mesh::consensus;
use crate::mesh::consent;
use crate::mesh::goal_message;
use crate::mesh::gossip;
use crate::mesh::laws;
use crate::mesh::message;
use crate::mesh::message::AddrV;
use crate::mesh::node;
use crate::mesh::node::{MeshV, PacketV, PeerV, ProposalV, TrustLevel};
use crate::text_laws;
use crate::wire;
use vstd::prelude::*;

verus! {

// ---------------------------------------------------------------------------
// Votes
// ---------------------------------------------------------------------------

proof fn lemma_found(s: Seq<ProposalV>, k: int)
    requires
        laws::proposals_distinct(s),
        0 <= k < s.len(),
    ensures
        node::has_proposal(s, s[k].id),
        node::proposal_at(s, s[k].id) == k,
{
    laws::lemma_proposal_from(s, s[k].id, 0);
}

/// An own proposal is committed by a check exactly when more than half of the peers that it was made
/// to have voted for it. It is then marked, its time is noted, and every peer is sent its state.
pub proof fn law_majority_commits(m: MeshV, k: int, now: u64)
    requires
        laws::proposals_distinct(m.proposals),
        0 <= k < m.proposals.len(),
    ensures
        ({
            let p = m.proposals[k];
            let w = consensus::checked(m, p.id, now);
            let wins = p.proposer == m.id && !p.committed && 2 * p.yes.len() > p.total;
            &&& wins ==> w.proposals == m.proposals.update(k, ProposalV { committed: true, ..p })
            &&& wins ==> w.last_proposal == Some(now)
            &&& wins ==> (p.state matches Some(s) ==> {
                &&& w.outbox.len() == m.outbox.len() + m.peers.len()
                &&& w.outbox.take(m.outbox.len() as int) == m.outbox
                &&& forall|i: int|
                    0 <= i < m.peers.len() ==> #[trigger] w.outbox[m.outbox.len() + i] == (PacketV {
                        to: m.peers[i].addr,
                        bytes: message::commit_bytes(m.id, m.port, p.id, s),
                    })
            })
            &&& !wins ==> !w.proposals.contains(ProposalV { committed: true, ..p }) || p.committed
        }),
{
    lemma_found(m.proposals, k);
    let p = m.proposals[k];
    let w = consensus::checked(m, p.id, now);
    if p.proposer == m.id && !p.committed && 2 * p.yes.len() > p.total {
        assert(w.outbox.take(m.outbox.len() as int) =~= m.outbox);
    } else if !p.committed {
        let q = ProposalV { committed: true, ..p };
        if w.proposals.contains(q) {
            let i = choose|i: int| 0 <= i < w.proposals.len() && w.proposals[i] == q;
            if w.proposals.len() == m.proposals.len() {
                assert(m.proposals[i].id == p.id);
            } else {
                let j = if i < k {
                    i
                } else {
                    i + 1
                };
                assert(m.proposals[j].id == p.id);
            }
        }
    }
}

/// An own proposal that more than half have not voted for is given up when more than half have voted
/// against it, or more than five seconds have passed; all peers are told. Else it waits.
pub proof fn law_minority_ends(m: MeshV, k: int, now: u64)
    requires
        laws::proposals_distinct(m.proposals),
        0 <= k < m.proposals.len(),
        m.proposals[k].proposer == m.id,
        !m.proposals[k].committed,
        2 * m.proposals[k].yes.len() <= m.proposals[k].total,
    ensures
        ({
            let p = m.proposals[k];
            let w = consensus::checked(m, p.id, now);
            let over = 2 * p.no.len() > p.total || now > p.started + 5000;
            &&& over ==> w.proposals == m.proposals.remove(k)
            &&& over ==> w.last_proposal == Some(now)
            &&& over ==> w.outbox.len() == m.outbox.len() + m.peers.len()
            &&& over ==> forall|i: int|
                0 <= i < m.peers.len() ==> #[trigger] w.outbox[m.outbox.len() + i] == (PacketV {
                    to: m.peers[i].addr,
                    bytes: message::numbered(message::MSG_REJECT, m.id, m.port, p.id),
                })
            &&& !over ==> w == m
        }),
{
    lemma_found(m.proposals, k);
}

/// The proposal of another unit is never decided here: it is forgotten, in silence, once more than
/// ten seconds have passed, and nothing is done about one that is committed.
pub proof fn law_others_decide_theirs(m: MeshV, k: int, now: u64)
    requires
        laws::proposals_distinct(m.proposals),
        0 <= k < m.proposals.len(),
        m.proposals[k].proposer != m.id || m.proposals[k].committed,
    ensures
        ({
            let p = m.proposals[k];
            let w = consensus::checked(m, p.id, now);
            if !p.committed && now > p.started + 10000 {
                w == MeshV { proposals: m.proposals.remove(k), ..m }
            } else {
                w == m
            }
        }),
{
    lemma_found(m.proposals, k);
}

/// What one check leaves of a proposal with another number.
proof fn lemma_checked_others(m: MeshV, n: u64, now: u64, p: ProposalV)
    requires
        laws::proposals_distinct(m.proposals),
        p.id != n,
    ensures
        consensus::checked(m, n, now).proposals.contains(p) == m.proposals.contains(p),
        laws::proposals_distinct(consensus::checked(m, n, now).proposals),
        consensus::checked(m, n, now).id == m.id,
        consensus::checked(m, n, now).peers == m.peers,
{
    laws::lemma_proposal_from(m.proposals, n, 0);
    let s = m.proposals;
    let k = node::proposal_at(s, n);
    let w = consensus::checked(m, n, now).proposals;
    if node::has_proposal(s, n) {
        if s.contains(p) {
            let i = choose|i: int| 0 <= i < s.len() && s[i] == p;
            if w.len() == s.len() {
                assert(w[i] == p);
            } else if i < k {
                assert(w[i] == p);
            } else {
                assert(w[i - 1] == p);
            }
        }
        if w.contains(p) {
            let i = choose|i: int| 0 <= i < w.len() && w[i] == p;
            if w.len() == s.len() || i < k {
                assert(s[i] == p);
            } else {
                assert(s[i + 1] == p);
            }
        }
    }
}

proof fn lemma_checked_before(m: MeshV, ids: Seq<u64>, now: u64, p: ProposalV)
    requires
        laws::proposals_distinct(m.proposals),
        !ids.contains(p.id),
    ensures
        ({
            let w = consensus::all_checked(m, ids, now);
            &&& w.proposals.contains(p) == m.proposals.contains(p)
            &&& laws::proposals_distinct(w.proposals)
            &&& w.id == m.id
            &&& w.peers == m.peers
        }),
    decreases ids.len(),
{
    if ids.len() > 0 {
        assert(ids[ids.len() - 1] != p.id);
        assert forall|i: int| 0 <= i < ids.drop_last().len() implies ids.drop_last()[i] != p.id by {
            assert(ids[i] != p.id);
        }
        lemma_checked_before(m, ids.drop_last(), now, p);
        lemma_checked_others(
            consensus::all_checked(m, ids.drop_last(), now),
            ids.last(),
            now,
            p,
        );
    }
}

proof fn lemma_all_decided(m: MeshV, ids: Seq<u64>, now: u64, k: int, p: ProposalV)
    requires
        laws::proposals_distinct(m.proposals),
        m.proposals.contains(p),
        p.proposer == m.id,
        !p.committed,
        2 * p.yes.len() > p.total,
        0 <= k < ids.len(),
        ids[k] == p.id,
        forall|i: int, j: int| 0 <= i < j < ids.len() ==> ids[i] != ids[j],
    ensures
        ({
            let w = consensus::all_checked(m, ids, now);
            &&& w.proposals.contains(ProposalV { committed: true, ..p })
            &&& laws::proposals_distinct(w.proposals)
        }),
    decreases ids.len(),
{
    let d = ids.drop_last();
    let r = consensus::all_checked(m, d, now);
    if k == ids.len() - 1 {
        assert forall|i: int| 0 <= i < d.len() implies d[i] != p.id by {
            assert(ids[i] != ids[k]);
        }
        lemma_checked_before(m, d, now, p);
        let i = choose|i: int| 0 <= i < r.proposals.len() && r.proposals[i] == p;
        law_majority_commits(r, i, now);
        let q = ProposalV { committed: true, ..p };
        assert(r.proposals.update(i, q)[i] == q);
    } else {
        assert(d[k] == p.id);
        assert forall|i: int, j: int| 0 <= i < j < d.len() implies d[i] != d[j] by {
            assert(ids[i] != ids[j]);
        }
        lemma_all_decided(m, d, now, k, p);
        assert(ids[ids.len() - 1] != ids[k]);
        lemma_checked_others(r, ids.last(), now, ProposalV { committed: true, ..p });
    }
}

/// Looking at all proposals commits every own one that more than half have voted for, whatever the
/// others are.
pub proof fn law_every_majority_commits(m: MeshV, k: int, now: u64)
    requires
        laws::proposals_distinct(m.proposals),
        0 <= k < m.proposals.len(),
        m.proposals[k].proposer == m.id,
        !m.proposals[k].committed,
        2 * m.proposals[k].yes.len() > m.proposals[k].total,
    ensures
        consensus::all_checked(m, consensus::proposal_ids(m.proposals), now).proposals.contains(
            ProposalV { committed: true, ..m.proposals[k] },
        ),
{
    let ids = consensus::proposal_ids(m.proposals);
    assert forall|i: int, j: int| 0 <= i < j < ids.len() implies ids[i] != ids[j] by {
        assert(m.proposals[i].id != m.proposals[j].id);
    }
    lemma_all_decided(m, ids, now, k, m.proposals[k]);
}

/// A vote that arrives counts for its sender and for nobody else: a yes is among those for the
/// proposal afterwards, a no among those against it, once, and nothing else about the proposal
/// changes.
pub proof fn law_vote_counts(a: MeshV, b: MeshV, k: int, yes: bool, from: AddrV, now: u64)
    requires
        a.id.len() == 8,
        a.id != b.id,
        laws::proposals_distinct(b.proposals),
        0 <= k < b.proposals.len(),
    ensures
        ({
            let p = b.proposals[k];
            let r = gossip::on_packet(
                b,
                message::vote_bytes(a.id, a.port, p.id, yes),
                from,
                now,
            ).proposals;
            let side = if yes {
                p.yes
            } else {
                p.no
            };
            let after = if yes {
                r[k].yes
            } else {
                r[k].no
            };
            &&& r.len() == b.proposals.len()
            &&& forall|i: int|
                0 <= i < r.len() && i != k ==> #[trigger] r[i] == b.proposals[i]
            &&& after.contains(a.id)
            &&& after.len() == side.len() + (if side.contains(a.id) {
                0int
            } else {
                1
            })
            &&& forall|x: Seq<u8>| #[trigger] after.contains(x) <==> side.contains(x) || x == a.id
            &&& yes ==> r[k] == (ProposalV { yes: r[k].yes, ..p })
            &&& !yes ==> r[k] == (ProposalV { no: r[k].no, ..p })
        }),
{
    crate::mesh::arrivals::law_vote_arrives(a, b, b.proposals[k].id, yes, from, now);
    lemma_found(b.proposals, k);
    let p = b.proposals[k];
    let side = if yes {
        p.yes
    } else {
        p.no
    };
    assert(side.push(a.id)[side.len() as int] == a.id);
    assert forall|x: Seq<u8>| side.contains(x) implies #[trigger] side.push(a.id).contains(x) by {
        let i = choose|i: int| 0 <= i < side.len() && side[i] == x;
        assert(side.push(a.id)[i] == x);
    }
}

/// A peer votes for a proposal exactly if one more unit of load would still leave it at no more than
/// four fifths of its capacity.
pub proof fn law_vote_follows_load(
    a: MeshV,
    b: MeshV,
    n: u64,
    reason: Seq<char>,
    from: AddrV,
    now: u64,
)
    requires
        a.id.len() == 8,
        a.id != b.id,
        crate::persist::text_fits(reason),
        b.capacity * 80 <= u32::MAX,
    ensures
        gossip::on_packet(b, message::proposal_bytes(a.id, a.port, n, reason), from, now).outbox
            == b.outbox.push(
            PacketV {
                to: message::at_port(from, a.port),
                bytes: message::vote_bytes(b.id, b.port, n, 5 * (b.load + 1) <= 4 * b.capacity),
            },
        ),
{
    crate::mesh::arrivals::law_proposal_is_answered(a, b, n, reason, from, now);
}

/// A proposal may be made exactly if there are peers, no own proposal has ended in the last ten
/// seconds, and none is open that was made in the last five.
pub proof fn law_when_to_propose(m: MeshV, now: u64)
    ensures
        consensus::proposal_refusal(m, now).is_none() <==> m.peers.len() > 0 && (
        m.last_proposal matches Some(t) ==> now >= t + 10000) && (forall|i: int|
            0 <= i < m.proposals.len() && (#[trigger] m.proposals[i]).proposer == m.id
                && !m.proposals[i].committed ==> now >= m.proposals[i].started + 5000),
{
}

/// A new proposal starts without votes and is put to all peers of that moment: each is sent it.
pub proof fn law_proposal_is_put_to_all(
    m: MeshV,
    reason: Seq<char>,
    state: Seq<u8>,
    now: u64,
    n: u64,
)
    requires
        laws::proposals_distinct(m.proposals),
        m.peers.len() <= usize::MAX,
    ensures
        ({
            let w = consensus::proposed(m, reason, state, now, n);
            &&& exists|k: int|
                0 <= k < w.proposals.len() && (#[trigger] w.proposals[k]).id == n
                    && w.proposals[k].proposer == m.id && w.proposals[k].total == m.peers.len()
                    && w.proposals[k].yes.len() == 0 && w.proposals[k].no.len() == 0
                    && !w.proposals[k].committed && w.proposals[k].started == now
                    && w.proposals[k].state == Some(state)
            &&& w.outbox.len() == m.outbox.len() + m.peers.len()
            &&& forall|i: int|
                0 <= i < m.peers.len() ==> #[trigger] w.outbox[m.outbox.len() + i] == (PacketV {
                    to: m.peers[i].addr,
                    bytes: message::proposal_bytes(m.id, m.port, n, reason),
                })
        }),
{
    laws::lemma_proposal_from(m.proposals, n, 0);
    let w = consensus::proposed(m, reason, state, now, n);
    let k = if node::has_proposal(m.proposals, n) {
        node::proposal_at(m.proposals, n)
    } else {
        m.proposals.len() as int
    };
    assert(w.proposals[k].id == n);
}

// ---------------------------------------------------------------------------
// Peers
// ---------------------------------------------------------------------------

proof fn lemma_kept(m: MeshV, n: int, now: u64, p: PeerV)
    requires
        0 <= n <= m.peers.len(),
    ensures
        consensus::pruned(m, n, now).peers.contains(p) <==> m.peers.take(n).contains(p) && now
            <= p.last_seen + 15000,
    decreases n,
{
    let s = m.peers.take(n);
    if n > 0 {
        let r = consensus::pruned(m, n - 1, now).peers;
        let w = consensus::pruned(m, n, now).peers;
        let d = m.peers.take(n - 1);
        lemma_kept(m, n - 1, now, p);
        assert(s[n - 1] == m.peers[n - 1]);
        if d.contains(p) {
            let i = choose|i: int| 0 <= i < d.len() && d[i] == p;
            assert(s[i] == p);
        }
        if s.contains(p) && m.peers[n - 1] != p {
            let i = choose|i: int| 0 <= i < s.len() && s[i] == p;
            assert(d[i] == p);
        }
        if r.contains(p) {
            let i = choose|i: int| 0 <= i < r.len() && r[i] == p;
            assert(w[i] == p);
        }
        if w.len() > r.len() {
            assert(w[r.len() as int] == m.peers[n - 1]);
        }
    }
}

/// A peer is dropped exactly when it has not been heard of for more than fifteen seconds.
pub proof fn law_silent_peers_are_dropped(m: MeshV, now: u64, p: PeerV)
    ensures
        consensus::pruned(m, m.peers.len() as int, now).peers.contains(p) <==> m.peers.contains(p)
            && now <= p.last_seen + 15000,
{
    assert(m.peers.take(m.peers.len() as int) =~= m.peers);
    lemma_kept(m, m.peers.len() as int, now, p);
}

/// A unit that announces itself and is not known becomes a peer, at the address that the beacon came
/// from and the port that it names. Its own beacons and those of peers change nothing.
pub proof fn law_beacon_introduces(a: MeshV, b: MeshV, ip: u32, now: u64)
    requires
        a.id.len() == 8,
    ensures
        ({
            let r = gossip::on_beacon(
                b,
                message::header(message::MSG_DISCOVERY_BEACON, a.id, a.port),
                ip,
                now,
            );
            if a.id == b.id || exists|i: int| 0 <= i < b.peers.len() && (#[trigger] b.peers[i]).id
                == a.id {
                r == b
            } else {
                &&& r.peers.len() == b.peers.len() + 1
                &&& r.peers.take(b.peers.len() as int) == b.peers
                &&& r.peers.last().id == a.id
                &&& r.peers.last().addr == (AddrV::V4 { ip, port: a.port })
                &&& r.peers.last().last_seen == now
                &&& r.outbox == b.outbox
            }
        }),
{
    let h = message::header(message::MSG_DISCOVERY_BEACON, a.id, a.port);
    message::law_header_roundtrip(message::MSG_DISCOVERY_BEACON, a.id, a.port, Seq::empty());
    assert(h + Seq::<u8>::empty() =~= h);
    laws::lemma_peer_from(b.peers, a.id, 0);
    let r = gossip::on_beacon(b, h, ip, now);
    if exists|i: int| 0 <= i < b.peers.len() && (#[trigger] b.peers[i]).id == a.id {
    } else if a.id != b.id {
        assert(r.peers.take(b.peers.len() as int) =~= b.peers);
    }
}

/// A unit without proposals sends a heartbeat to every peer if none was sent in the last two
/// seconds, and else nothing.
pub proof fn law_heartbeat_every_two_seconds(m: MeshV, last: Option<u64>, now: u64)
    requires
        m.proposals.len() == 0,
    ensures
        ({
            let w = consensus::ticked(m, last, now);
            if last matches Some(t) && now < t + 2000 {
                w.outbox == m.outbox
            } else {
                &&& w.outbox.len() == m.outbox.len() + m.peers.len()
                &&& forall|i: int|
                    0 <= i < m.peers.len() ==> #[trigger] w.outbox[m.outbox.len() + i] == (PacketV {
                        to: m.peers[i].addr,
                        bytes: consensus::heartbeat_bytes(m),
                    })
            }
        }),
{
    let m1 = if consensus::beats(last, now) {
        node::sent(m, consensus::heartbeat_bytes(m))
    } else {
        m
    };
    assert(consensus::proposal_ids(m1.proposals) =~= Seq::empty());
    lemma_pruned_silent(m1, m1.peers.len() as int, now);
}

proof fn lemma_pruned_silent(m: MeshV, n: int, now: u64)
    requires
        0 <= n <= m.peers.len(),
    ensures
        consensus::pruned(m, n, now).outbox == m.outbox,
    decreases n,
{
    if n > 0 {
        lemma_pruned_silent(m, n - 1, now);
    }
}

/// A beacon goes to port 4200 of this machine five seconds after the last one, unless discovery is
/// off.
pub proof fn law_beacon_every_five_seconds(m: MeshV, last: u64, now: u64)
    ensures
        ({
            let w = consensus::beaconed(m, last, now);
            if m.auto_discover && now >= last + 5000 {
                w == MeshV {
                    outbox: m.outbox.push(
                        PacketV {
                            to: AddrV::V4 { ip: 0x7F00_0001, port: 4200 },
                            bytes: message::header(11, m.id, m.port),
                        },
                    ),
                    ..m
                }
            } else {
                w == m
            }
        }),
{
}

/// A heartbeat names the first eight peers, or all if there are fewer.
pub proof fn law_heartbeat_names_eight(peers: Seq<PeerV>)
    ensures
        consensus::gossip(peers) == peers.take(if peers.len() < 8 {
            peers.len() as int
        } else {
            8
        }),
{
    assert(peers.take(peers.len() as int) =~= peers);
}

/// An address heard of becomes a peer, unless it is the unit's own on this machine or belongs to a
/// peer already.
pub proof fn law_gossip_introduces(m: MeshV, ip: u32, port: u16, now: u64)
    ensures
        ({
            let a = AddrV::V4 { ip, port };
            let w = gossip::introduced(m, a, now);
            let own = port == m.port && 0x7F00_0000 <= ip <= 0x7FFF_FFFF;
            let known = exists|i: int| 0 <= i < m.peers.len() && (#[trigger] m.peers[i]).addr == a;
            &&& own || known ==> w == m
            &&& !own && !known ==> exists|i: int|
                0 <= i < w.peers.len() && (#[trigger] w.peers[i]).addr == a && w.peers[i].last_seen
                    == now
        }),
{
    let a = AddrV::V4 { ip, port };
    let w = gossip::introduced(m, a, now);
    let id = message::pseudo_id(a);
    laws::lemma_peer_from(m.peers, id, 0);
    if !(port == m.port && 0x7F00_0000 <= ip <= 0x7FFF_FFFF) && !node::knows_addr(m.peers, a) {
        let k = if node::has_peer(m.peers, id) {
            node::peer_at(m.peers, id)
        } else {
            m.peers.len() as int
        };
        assert(w.peers[k].addr == a);
    }
}

// ---------------------------------------------------------------------------
// Consent
// ---------------------------------------------------------------------------

/// Whom a unit trusts: at the widest level everybody, then its peers, then its family, at last
/// nobody.
pub proof fn law_trust_levels(m: MeshV, sender: Seq<u8>)
    ensures
        m.trust == TrustLevel::All ==> gossip::trusts(m, sender),
        m.trust == TrustLevel::Nobody ==> !gossip::trusts(m, sender),
        m.trust == TrustLevel::Mesh ==> (gossip::trusts(m, sender) <==> exists|i: int|
            0 <= i < m.peers.len() && (#[trigger] m.peers[i]).id == sender),
        m.trust == TrustLevel::Family ==> (gossip::trusts(m, sender) <==> m.parent == Some(sender)
            || (exists|i: int| 0 <= i < m.children.len() && (#[trigger] m.children[i]) == sender)
            || (exists|i: int| 0 <= i < m.siblings.len() && (#[trigger] m.siblings[i]) == sender)),
        node::trust_value(TrustLevel::All) == 0,
        node::trust_value(TrustLevel::Mesh) == node::trust_value(TrustLevel::All) + 1,
        node::trust_value(TrustLevel::Family) == node::trust_value(TrustLevel::Mesh) + 1,
        node::trust_value(TrustLevel::Nobody) == node::trust_value(TrustLevel::Family) + 1,
{
    laws::lemma_peer_from(m.peers, sender, 0);
}

/// A request for replication is never answered before it is approved, unless its sender is trusted;
/// a package of more than a hundred million bytes is neither accepted nor kept for approval.
pub proof fn law_requests_need_consent(m: MeshV, i: wire::Input, sender: Seq<u8>, now: u64)
    ensures
        ({
            let r = gossip::on_request(m, i, sender, now);
            let q = gossip::get_request(i, m.next_request, sender, now);
            let big = q.size > 100_000_000;
            &&& big ==> r.outbox == m.outbox && r.requests == m.requests
            &&& !gossip::trusts(m, sender) ==> r.outbox == m.outbox
            &&& !big && gossip::trusts(m, sender) ==> r.requests == m.requests && r.outbox.len()
                == m.outbox.len() + (if node::has_peer(m.peers, sender) {
                1int
            } else {
                0
            })
            &&& !big && !gossip::trusts(m, sender) ==> r.requests == (if gossip::requests_from(
                m.requests,
                sender,
            ) < 3 {
                m.requests.push(q)
            } else {
                m.requests
            })
        }),
{
}

/// The oldest request is answered first; the others keep their order, and the answer is logged with
/// its sender.
pub proof fn law_oldest_request_first(m: MeshV, result: Seq<char>, epoch: u64)
    requires
        m.requests.len() > 0,
    ensures
        ({
            let w = consent::oldest_answered(m, result, epoch);
            &&& m.requests == seq![m.requests[0]] + w.requests
            &&& w.log.last().peer == m.requests[0].sender
            &&& w.log.last().reason == m.requests[0].reason
            &&& w.log.last().result == result
            &&& w.log.last().timestamp == epoch
            &&& w.log.len() == (if m.log.len() < 100 {
                m.log.len() + 1
            } else {
                m.log.len()
            })
        }),
{
    assert(m.requests =~= seq![m.requests[0]] + m.requests.skip(1));
}

proof fn lemma_waiting(s: Seq<node::RequestV>, now: u64, q: node::RequestV)
    ensures
        consent::waiting(s, now).contains(q) <==> s.contains(q) && now < q.received_at + 60000,
        consent::waiting(s, now).len() <= s.len(),
    decreases s.len(),
{
    if s.len() > 0 {
        let d = s.drop_last();
        let r = consent::waiting(d, now);
        let w = consent::waiting(s, now);
        lemma_waiting(d, now, q);
        assert(s[s.len() - 1] == s.last());
        if d.contains(q) {
            let i = choose|i: int| 0 <= i < d.len() && d[i] == q;
            assert(s[i] == q);
        }
        if s.contains(q) && s.last() != q {
            let i = choose|i: int| 0 <= i < s.len() && s[i] == q;
            assert(d[i] == q);
        }
        if r.contains(q) {
            let i = choose|i: int| 0 <= i < r.len() && r[i] == q;
            assert(w[i] == q);
        }
        if w.len() > r.len() {
            assert(w[r.len() as int] == s.last());
        }
    }
}

/// A request waits for a minute, then it is dropped.
pub proof fn law_requests_wait_a_minute(m: MeshV, now: u64, q: node::RequestV)
    ensures
        consent::requests_expired(m, now).requests.contains(q) <==> m.requests.contains(q) && now
            < q.received_at + 60000,
{
    lemma_waiting(m.requests, now, q);
}

// ---------------------------------------------------------------------------
// Growing and shrinking
// ---------------------------------------------------------------------------

/// A unit asks for replication when more tasks wait than there are units, unless it has asked
/// already, a proposal ended in the last ten seconds, or one is open that was made in the last five.
pub proof fn law_load_asks_for_replication(m: MeshV, now: u64)
    ensures
        consensus::load_checked(m, now).replicate_needed <==> m.replicate_needed || (
        crate::registry::waiting(m.goals) > m.peers.len() + 1 && (m.last_proposal matches Some(t)
            ==> now >= t + 10000) && (forall|i: int|
            0 <= i < m.proposals.len() && !(#[trigger] m.proposals[i]).committed ==> now
                >= m.proposals[i].started + 5000)),
{
}

/// A unit wants to spawn exactly if it may, there is room for one more, and more tasks wait than
/// there are units.
pub proof fn law_spawn_when_busy(m: MeshV)
    requires
        m.peers.len() < usize::MAX,
    ensures
        consent::wants_spawn(m) <==> m.auto_spawn && m.peers.len() + 1 < m.max_units
            && crate::registry::waiting(m.goals) > m.peers.len() + 1,
{
}

/// The sum of the scores of peers, without bounds.
pub open spec fn score_sum(s: Seq<PeerV>) -> int
    decreases s.len(),
{
    if s.len() == 0 {
        0
    } else {
        s.last().fitness + score_sum(s.drop_last())
    }
}

/// True if no partial sum of the scores of peers leaves the range of a score.
pub open spec fn scores_moderate(s: Seq<PeerV>) -> bool {
    forall|n: int|
        0 <= n <= s.len() ==> i64::MIN <= #[trigger] score_sum(s.take(n)) <= i64::MAX
}

/// Sums that stay in range are exact.
pub proof fn lemma_score_sum(s: Seq<PeerV>)
    requires
        scores_moderate(s),
    ensures
        consent::fitness_sum(s) == score_sum(s),
    decreases s.len(),
{
    assert(s.take(s.len() as int) =~= s);
    if s.len() > 0 {
        let d = s.drop_last();
        assert(s.take(s.len() - 1) =~= d);
        assert forall|n: int| 0 <= n <= d.len() implies i64::MIN <= #[trigger] score_sum(d.take(n))
            <= i64::MAX by {
            assert(d.take(n) =~= s.take(n));
            assert(score_sum(s.take(n)) <= i64::MAX);
        }
        lemma_score_sum(d);
        assert(score_sum(s.take(s.len() as int)) <= i64::MAX);
    }
}

/// A unit wants to end itself exactly if it may, more units are left than must be, and its score
/// lies more than ten below the average of all units, rounded towards zero.
pub proof fn law_cull_the_unfit(m: MeshV)
    requires
        m.peers.len() < usize::MAX,
        scores_moderate(m.peers),
        i64::MIN <= score_sum(m.peers) + m.fitness <= i64::MAX,
    ensures
        ({
            let n = m.peers.len() + 1;
            let total = score_sum(m.peers) + m.fitness;
            let average = if total >= 0 {
                total / n as int
            } else {
                -((-total) / n as int)
            };
            consent::wants_cull(m) <==> m.auto_cull && n > m.min_units && m.fitness + 10 < average
        }),
{
    lemma_score_sum(m.peers);
}

/// A unit starts with nothing but its seeds: it runs, listens, trusts everybody, and neither shares,
/// spawns nor ends itself of its own accord.
pub proof fn law_unit_starts_open(id: Seq<u8>, port: u16, seed: Seq<AddrV>, now: u64)
    ensures
        ({
            let m = node::started(id, port, seed, now);
            &&& m.id == id && m.port == port && m.running
            &&& m.load == 0 && m.capacity == 100 && m.fitness == 0
            &&& m.auto_discover && !m.auto_share && !m.auto_spawn && !m.auto_cull
            &&& m.trust == TrustLevel::All && m.min_units == 1 && m.max_units == 10
            &&& m.goals.goals.len() == 0 && m.goals.tasks.len() == 0
            &&& m.inbox.len() == 0 && m.outbox.len() == 0 && m.proposals.len() == 0
            &&& m.last_proposal.is_none() && m.requests.len() == 0 && m.log.len() == 0
            &&& forall|i: int|
                #![trigger seed[i]]
                0 <= i < seed.len() ==> exists|j: int|
                    0 <= j < m.peers.len() && message::pseudo_id((#[trigger] m.peers[j]).addr)
                        == message::pseudo_id(seed[i])
        }),
{
    let m = node::started(id, port, seed, now);
    assert(m.peers == node::seeds(seed, now));
    assert forall|i: int| #![trigger seed[i]] 0 <= i < seed.len() implies exists|j: int|
        0 <= j < m.peers.len() && message::pseudo_id((#[trigger] m.peers[j]).addr)
            == message::pseudo_id(seed[i]) by {
        lemma_seed(seed, i, now);
    }
}

proof fn lemma_seed(seed: Seq<AddrV>, i: int, now: u64)
    requires
        0 <= i < seed.len(),
    ensures
        exists|j: int|
            0 <= j < node::seeds(seed, now).len() && message::pseudo_id(
                (#[trigger] node::seeds(seed, now)[j]).addr,
            ) == message::pseudo_id(seed[i]),
        forall|j: int|
            0 <= j < node::seeds(seed, now).len() ==> message::pseudo_id(
                (#[trigger] node::seeds(seed, now)[j]).addr,
            ) == node::seeds(seed, now)[j].id,
    decreases seed.len(),
{
    let d = seed.drop_last();
    let r = node::seeds(d, now);
    let w = node::seeds(seed, now);
    let id = message::pseudo_id(seed.last());
    laws::lemma_peer_from(r, id, 0);
    if d.len() > 0 {
        lemma_seed(d, if i < d.len() {
            i
        } else {
            0
        }, now);
    }
    if i == seed.len() - 1 {
        let k = if node::has_peer(r, id) {
            node::peer_at(r, id)
        } else {
            r.len() as int
        };
        assert(w[k].addr == seed[i]);
    } else {
        let j = choose|j: int|
            0 <= j < r.len() && message::pseudo_id((#[trigger] r[j]).addr) == message::pseudo_id(
                d[i],
            );
        assert(message::pseudo_id(w[j].addr) == message::pseudo_id(seed[i]));
    }
}

/// Packages are received a thousand ports above the unit's own; a unit without a port receives none.
pub proof fn law_replication_port(port: u16)
    ensures
        port == 0 ==> node::replication_port(port) == 0,
        0 < port <= 64535 ==> node::replication_port(port) == port + 1000,
{
}

// ---------------------------------------------------------------------------
// Packets
// ---------------------------------------------------------------------------

/// True of a packet that starts with the letters UNIT, its kind, its sender and the sender's port.
pub open spec fn headed(b: Seq<u8>, kind: u8, id: Seq<u8>, port: u16) -> bool {
    &&& b.len() >= 15
    &&& b[0] == 0x55 && b[1] == 0x4E && b[2] == 0x49 && b[3] == 0x54
    &&& b[4] == kind
    &&& b.subrange(5, 13) == id
    &&& b[13] == port / 256 && b[14] == port % 256
}

proof fn lemma_headed(kind: u8, id: Seq<u8>, port: u16, t: Seq<u8>)
    requires
        id.len() == 8,
    ensures
        headed(message::header(kind, id, port) + t, kind, id, port),
        (message::header(kind, id, port) + t).skip(15) == t,
{
    text_laws::law_bytes_of_numbers(port as nat);
    let h = message::header(kind, id, port);
    let b = h + t;
    wire::lemma_be(port as nat, 2);
    assert(h.len() == 15);
    assert(b.subrange(5, 13) =~= id);
    assert(b.skip(15) =~= t);
    assert(h[13] == wire::w16(port as nat)[0]);
    assert(h[14] == wire::w16(port as nat)[1]);
}

/// How packets are told apart, and what stands behind their heads.
#[verifier::spinoff_prover]
#[verifier::rlimit(40)]
pub proof fn law_packet_layout(
    id: Seq<u8>,
    port: u16,
    n: u64,
    yes: bool,
    name: Seq<char>,
    source: Seq<char>,
    data: Seq<u8>,
)
    requires
        id.len() == 8,
    ensures
        headed(message::proposal_bytes(id, port, n, name), 2, id, port),
        message::proposal_bytes(id, port, n, name).skip(15) == wire::w64(n as nat) + wire::wtext(
            name,
        ),
        headed(message::vote_bytes(id, port, n, yes), 3, id, port),
        message::vote_bytes(id, port, n, yes).skip(15) == wire::w64(n as nat) + seq![
            if yes {
                1u8
            } else {
                0u8
            },
        ],
        headed(message::commit_bytes(id, port, n, data), 4, id, port),
        message::commit_bytes(id, port, n, data).skip(15) == wire::w64(n as nat) + wire::w32(
            data.len(),
        ) + data,
        headed(message::numbered(message::MSG_REJECT, id, port, n), 5, id, port),
        headed(message::data_bytes(id, port, data), 6, id, port),
        message::data_bytes(id, port, data).skip(15) == wire::w16(data.len()) + data,
        headed(message::claim_bytes(id, port, n, n), 8, id, port),
        message::claim_bytes(id, port, n, n).skip(15) == wire::w64(n as nat) + wire::w64(n as nat),
        headed(message::word_bytes(id, port, name, source), 10, id, port),
        message::word_bytes(id, port, name, source).skip(15) == wire::wtext(name) + wire::wtext(
            source,
        ),
        headed(message::header(message::MSG_DISCOVERY_BEACON, id, port), 11, id, port),
        message::MSG_SPAWN_INTENT == 12 && message::MSG_CULL_INTENT == 13,
        message::MSG_REPLICATE_REQUEST == 14 && message::MSG_REPLICATE_ACCEPT == 15,
        message::MSG_REPLICATE_DENY == 16,
{
    let w = wire::w64(n as nat);
    let v = seq![
        if yes {
            1u8
        } else {
            0u8
        },
    ];
    lemma_headed(2, id, port, w + wire::wtext(name));
    assert(message::proposal_bytes(id, port, n, name) =~= message::header(2, id, port) + (w
        + wire::wtext(name)));
    lemma_headed(3, id, port, w + v);
    assert(message::vote_bytes(id, port, n, yes) =~= message::header(3, id, port) + (w + v));
    lemma_headed(4, id, port, w + wire::w32(data.len()) + data);
    assert(message::commit_bytes(id, port, n, data) =~= message::header(4, id, port) + (w
        + wire::w32(data.len()) + data));
    lemma_headed(5, id, port, w);
    lemma_headed(6, id, port, wire::w16(data.len()) + data);
    assert(message::data_bytes(id, port, data) =~= message::header(6, id, port) + (wire::w16(
        data.len(),
    ) + data));
    lemma_headed(8, id, port, w + w);
    assert(message::claim_bytes(id, port, n, n) =~= message::header(8, id, port) + (w + w));
    lemma_headed(10, id, port, wire::wtext(name) + wire::wtext(source));
    assert(message::word_bytes(id, port, name, source) =~= message::header(10, id, port) + (
    wire::wtext(name) + wire::wtext(source)));
    lemma_headed(11, id, port, Seq::empty());
    assert(message::header(11, id, port) + Seq::<u8>::empty() =~= message::header(11, id, port));
}

/// A heartbeat tells load, capacity and the number of peers, then up to eight of their addresses, and
/// the score.
#[verifier::spinoff_prover]
#[verifier::rlimit(40)]
pub proof fn law_heartbeat_layout(m: MeshV)
    requires
        m.id.len() == 8,
    ensures
        ({
            let b = consensus::heartbeat_bytes(m);
            &&& headed(b, 1, m.id, m.port)
            &&& b.subrange(15, 19) == wire::w32(m.load as nat)
            &&& b.subrange(19, 23) == wire::w32(m.capacity as nat)
            &&& b.subrange(23, 25) == wire::w16(m.peers.len())
            &&& b[25] == (if m.peers.len() < 8 {
                m.peers.len() as int
            } else {
                8
            })
            &&& b.skip(b.len() - 8) == wire::wi64(m.fitness as int)
        }),
{
    let b = consensus::heartbeat_bytes(m);
    let g = consensus::gossip(m.peers);
    let t = wire::w32(m.load as nat) + wire::w32(m.capacity as nat) + wire::w16(m.peers.len())
        + wire::w8(g.len() as int) + consensus::w_addrs(g) + wire::wi64(m.fitness as int);
    lemma_headed(1, m.id, m.port, t);
    assert(b =~= message::header(1, m.id, m.port) + t);
    wire::lemma_be(m.load as nat, 4);
    wire::lemma_be(m.capacity as nat, 4);
    wire::lemma_be(m.peers.len(), 2);
    wire::lemma_be(wire::unsigned(m.fitness as int), 8);
    law_heartbeat_names_eight(m.peers);
    assert(b.subrange(15, 19) =~= wire::w32(m.load as nat));
    assert(b.subrange(19, 23) =~= wire::w32(m.capacity as nat));
    assert(b.subrange(23, 25) =~= wire::w16(m.peers.len()));
    assert(b.skip(b.len() - 8) =~= wire::wi64(m.fitness as int));
}

// ---------------------------------------------------------------------------
// News
// ---------------------------------------------------------------------------

proof fn lemma_new_tasks(v: GoalsV, s: Seq<TaskV>)
    requires
        goals::goals_wf(v),
        forall|i: int, j: int|
            0 <= i < j < s.len() ==> (#[trigger] s[i]).id != (#[trigger] s[j]).id,
        forall|i: int, j: int|
            0 <= i < s.len() && 0 <= j < v.tasks.len() ==> (#[trigger] s[i]).id != (
            #[trigger] v.tasks[j]).id,
    ensures
        gossip::merged_tasks(v, s).tasks == v.tasks + s,
        gossip::merged_tasks(v, s).goals == v.goals,
        goals::goals_wf(gossip::merged_tasks(v, s)),
    decreases s.len(),
{
    if s.len() == 0 {
        assert(v.tasks + s =~= v.tasks);
    } else {
        let d = s.drop_last();
        lemma_new_tasks(v, d);
        let w = gossip::merged_tasks(v, d);
        assert forall|j: int| 0 <= j < w.tasks.len() implies (#[trigger] w.tasks[j]).id
            != s.last().id by {
            if j < v.tasks.len() {
                assert(w.tasks[j] == v.tasks[j]);
                assert(s[s.len() - 1].id != v.tasks[j].id);
            } else {
                assert(w.tasks[j] == s[j - v.tasks.len()]);
                assert(s[j - v.tasks.len()].id != s[s.len() - 1].id);
            }
        }
        crate::goal_laws::law_news_of_a_task(w, s.last());
        crate::registry::lemma_merged_task(w, s.last());
        assert(v.tasks + s =~= (v.tasks + d).push(s.last()));
    }
}

/// True of what is known after a goal that was new has been announced: it comes last, as it is, with
/// its tasks behind those that were known.
pub open spec fn announced(v: GoalsV, r: GoalsV, g: GoalV, tasks: Seq<TaskV>) -> bool {
    let k = r.goals.last();
    let n = v.tasks.len() as int;
    &&& r.goals == v.goals.push(k)
    &&& k.id == g.id && k.description == g.description && k.code == g.code
    &&& k.priority == g.priority && k.status == g.status && k.creator == g.creator
    &&& k.created_at == g.created_at && k.task_ids.len() == tasks.len()
    &&& r.tasks.len() == n + tasks.len() && r.tasks.take(n) == v.tasks
    &&& forall|i: int|
        #![trigger tasks[i]]
        0 <= i < tasks.len() ==> {
            let t = r.tasks[n + i];
            &&& k.task_ids[i] == tasks[i].id
            &&& t.id == tasks[i].id && t.goal_id == g.id
            &&& t.description == tasks[i].description
            &&& t.assigned_to == tasks[i].assigned_to && t.status == tasks[i].status
            &&& tasks[i].result matches Some(x) ==> (t.result matches Some(y) && y.stack == x.stack
                && y.output == x.output && y.success == x.success)
            &&& tasks[i].result.is_none() ==> t.result.is_none()
        }
}

/// True of a goal and tasks none of which is known.
pub open spec fn all_new(v: GoalsV, g: GoalV, tasks: Seq<TaskV>) -> bool {
    &&& forall|i: int| 0 <= i < v.goals.len() ==> (#[trigger] v.goals[i]).id != g.id
    &&& forall|i: int, j: int|
        0 <= i < j < tasks.len() ==> (#[trigger] tasks[i]).id != (#[trigger] tasks[j]).id
    &&& forall|i: int, j: int|
        0 <= i < tasks.len() && 0 <= j < v.tasks.len() ==> (#[trigger] tasks[i]).id != (
        #[trigger] v.tasks[j]).id
}

proof fn lemma_announced(v: GoalsV, g: GoalV, tasks: Seq<TaskV>)
    requires
        goals::goals_wf(v),
        all_new(v, g, tasks),
    ensures
        announced(
            v,
            gossip::merged_tasks(
                goals::merged_goal(v, GoalV { task_ids: goals::task_ids(tasks), ..g }),
                goal_message::all_gossiped(tasks, g),
            ),
            g,
            tasks,
        ),
{
    let h = GoalV { task_ids: goals::task_ids(tasks), ..g };
    let w = goals::merged_goal(v, h);
    crate::order::lemma_at(goals::goal_ids(v.goals), g.id);
    assert(!goals::has_goal(v.goals, g.id)) by {
        let k = goals::goal_at(v.goals, g.id);
        if 0 <= k < v.goals.len() {
            assert(goals::goal_ids(v.goals)[k] == v.goals[k].id);
        }
    }
    crate::registry::lemma_merged_goal(v, h);
    let s = goal_message::all_gossiped(tasks, g);
    assert forall|i: int, j: int| 0 <= i < j < s.len() implies (#[trigger] s[i]).id != (
    #[trigger] s[j]).id by {
        assert(tasks[i].id != tasks[j].id);
    }
    assert forall|i: int, j: int| 0 <= i < s.len() && 0 <= j < w.tasks.len() implies (
    #[trigger] s[i]).id != (#[trigger] w.tasks[j]).id by {
        assert(tasks[i].id != v.tasks[j].id);
    }
    lemma_new_tasks(w, s);
    assert((w.tasks + s).take(w.tasks.len() as int) =~= v.tasks);
}

/// A goal that a peer announces and that is new is known afterwards as it is, with its tasks: what
/// they are about, whom they are assigned to, how far they are and what came of them.
#[verifier::spinoff_prover]
#[verifier::rlimit(40)]
pub proof fn law_announced_goal_is_known(
    a: MeshV,
    b: MeshV,
    g: GoalV,
    tasks: Seq<TaskV>,
    from: AddrV,
    now: u64,
)
    requires
        a.id.len() == 8,
        a.id != b.id,
        goals::goals_wf(b.goals),
        crate::persist::goal_fits(g),
        tasks.len() < 65536,
        forall|i: int| 0 <= i < tasks.len() ==> crate::persist::task_fits(#[trigger] tasks[i]),
        all_new(b.goals, g, tasks),
    ensures
        announced(
            b.goals,
            gossip::on_packet(b, goal_message::goal_bytes(a.id, a.port, g, tasks), from, now).goals,
            g,
            tasks,
        ),
{
    crate::mesh::arrivals::law_goal_arrives(a, b, g, tasks, from, now);
    lemma_announced(b.goals, g, tasks);
}

/// A result that a peer reports ends its task as it ended there: done if it was a success, failed if
/// not, with the same stack and output.
#[verifier::spinoff_prover]
#[verifier::rlimit(40)]
pub proof fn law_reported_result_is_known(
    a: MeshV,
    b: MeshV,
    i: int,
    r: ResultV,
    from: AddrV,
    now: u64,
)
    requires
        a.id.len() == 8,
        a.id != b.id,
        goals::goals_wf(b.goals),
        0 <= i < b.goals.tasks.len(),
        r.stack.len() < 65536,
        crate::persist::text_fits(r.output),
        crate::persist::opt_text_fits(r.error),
    ensures
        ({
            let t = b.goals.tasks[i];
            let w = gossip::on_packet(
                b,
                message::result_bytes(a.id, a.port, t.id, t.goal_id, r),
                from,
                now,
            ).goals.tasks;
            &&& w.len() == b.goals.tasks.len()
            &&& w[i].status == TaskStatus::Done <==> r.success
            &&& w[i].status == TaskStatus::Failed <==> !r.success
            &&& w[i].result matches Some(x) && x.stack == r.stack && x.output == r.output
                && x.success == r.success && (r.error matches Some(e) ==> e.len() > 0 ==> x.error
                == r.error)
            &&& forall|j: int|
                0 <= j < w.len() && j != i ==> #[trigger] w[j] == b.goals.tasks[j]
        }),
{
    let t = b.goals.tasks[i];
    crate::mesh::arrivals::law_result_arrives(a, b, t.id, t.goal_id, r, from, now);
    crate::goal_laws::law_result_decides_task(
        b.goals,
        i,
        crate::persist::kept_result(Some(r)),
    );
}

/// A claim that a peer makes is respected: a task that waits is then the peer's, one that does not
/// wait stays as it is.
#[verifier::spinoff_prover]
#[verifier::rlimit(40)]
pub proof fn law_claim_is_respected(a: MeshV, b: MeshV, i: int, from: AddrV, now: u64)
    requires
        a.id.len() == 8,
        a.id != b.id,
        goals::goals_wf(b.goals),
        0 <= i < b.goals.tasks.len(),
    ensures
        ({
            let t = b.goals.tasks[i];
            let w = gossip::on_packet(
                b,
                message::claim_bytes(a.id, a.port, t.id, t.goal_id),
                from,
                now,
            );
            &&& t.status == TaskStatus::Waiting ==> w.goals.tasks == b.goals.tasks.update(
                i,
                TaskV { status: TaskStatus::Running, assigned_to: Some(a.id), ..t },
            )
            &&& t.status != TaskStatus::Waiting ==> w == b
        }),
{
    let t = b.goals.tasks[i];
    crate::mesh::arrivals::law_claim_arrives(a, b, t.id, t.goal_id, from, now);
    crate::order::lemma_at_unique(goals::task_ids(b.goals.tasks), i);
}

/// A word that a peer shares waits to be compiled, with its source and its sender, and its name is
/// known from then on; a word whose name is known changes nothing.
#[verifier::spinoff_prover]
#[verifier::rlimit(40)]
pub proof fn law_shared_word_comes_once(
    a: MeshV,
    b: MeshV,
    name: Seq<char>,
    source: Seq<char>,
    from: AddrV,
    now: u64,
)
    requires
        a.id.len() == 8,
        a.id != b.id,
        crate::persist::text_fits(name),
        crate::persist::text_fits(source),
    ensures
        ({
            let w = gossip::on_packet(b, message::word_bytes(a.id, a.port, name, source), from, now);
            let known = exists|i: int|
                0 <= i < b.shared_words.len() && (#[trigger] b.shared_words[i]).0 == name;
            &&& known ==> w == b
            &&& !known ==> w.word_inbox.len() == b.word_inbox.len() + 1
            &&& !known ==> w.word_inbox.last().name == name && w.word_inbox.last().source == source
            &&& !known ==> w.word_inbox.last().origin == a.id
            &&& !known ==> w.shared_words.len() > 0 && w.shared_words.last().0 == name
        }),
{
    crate::mesh::arrivals::law_word_arrives(a, b, name, source, from, now);
}

/// A peer that is new is sent every goal that has not failed; one that is known is sent none.
pub proof fn law_new_peer_gets_the_goals(m: MeshV, n: int, to: AddrV)
    requires
        0 < n <= m.goals.goals.len(),
    ensures
        ({
            let before = gossip::goals_posted(m, n - 1, to);
            let after = gossip::goals_posted(m, n, to);
            if m.goals.goals[n - 1].status == GoalStatus::Failed {
                after == before
            } else {
                after == MeshV {
                    outbox: before.outbox.push(
                        PacketV { to, bytes: gossip::goal_packet(m, n - 1) },
                    ),
                    ..before
                }
            }
        }),
        gossip::goals_posted(m, 0, to) == m,
{
}

/// A proposal that its proposer withdraws is gone, and no other.
#[verifier::spinoff_prover]
#[verifier::rlimit(40)]
pub proof fn law_withdrawn_proposal_is_gone(
    a: MeshV,
    b: MeshV,
    k: int,
    from: AddrV,
    now: u64,
)
    requires
        a.id.len() == 8,
        a.id != b.id,
        laws::proposals_distinct(b.proposals),
        0 <= k < b.proposals.len(),
    ensures
        gossip::on_packet(
            b,
            message::numbered(message::MSG_REJECT, a.id, a.port, b.proposals[k].id),
            from,
            now,
        ).proposals == b.proposals.remove(k),
{
    let n = b.proposals[k].id;
    wire::lemma_pow256();
    let t = wire::w64(n as nat);
    message::law_header_roundtrip(message::MSG_REJECT, a.id, a.port, t);
    assert(t =~= t + Seq::<u8>::empty());
    wire::lemma_get_nat(n as nat, 8, Seq::empty());
    lemma_proposal_place(b.proposals, k);
}

proof fn lemma_proposal_place(s: Seq<node::ProposalV>, k: int)
    requires
        laws::proposals_distinct(s),
        0 <= k < s.len(),
    ensures
        node::drop_proposal(s, s[k].id) == s.remove(k),
{
    laws::lemma_proposal_from(s, s[k].id, 0);
    let i = node::proposal_at(s, s[k].id);
    assert(s[i].id == s[k].id);
}

} // verus!
