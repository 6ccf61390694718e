//! What one node sends and another makes of it.

use crate::codec;
use crate::goals;
use crate::goals::{GoalV, TaskStatus, TaskV};
use crate::mesh::consensus;
use crate::mesh::goal_message;
use crate::mesh::gossip;
use crate::mesh::laws;
use crate::mesh::message;
use crate::mesh::message::AddrV;
use crate::mesh::node;
use crate::mesh::node::{MeshV, PeerV};
use crate::persist;
use crate::text;
use crate::wire;
use crate::wire::Input;
use vstd::prelude::*;

verus! {

/// Data that one node sends arrives in the inbox of another as it was sent.
#[verifier::spinoff_prover]
#[verifier::rlimit(40)]
pub proof fn law_data_arrives(a: MeshV, b: MeshV, data: Seq<u8>, from: AddrV, now: u64)
    requires
        a.id.len() == 8,
        a.id != b.id,
        data.len() < 65536,
    ensures
        gossip::on_packet(b, message::data_bytes(a.id, a.port, data), from, now) == (MeshV {
            inbox: b.inbox.push(node::InboxV { from: a.id, data }),
            ..b
        }),
{
    wire::lemma_pow256();
    let t = wire::w16(data.len()) + data;
    wire::lemma_assoc(message::header(message::MSG_DATA, a.id, a.port), wire::w16(data.len()), data);
    message::law_header_roundtrip(message::MSG_DATA, a.id, a.port, t);
    wire::lemma_get_nat(data.len(), 2, data);
    assert(data =~= data + Seq::<u8>::empty());
    wire::lemma_get_bytes(data, Seq::empty());
}

/// A word that one node shares waits at another to be compiled, with the same name and source,
/// unless a word of that name has come before.
#[verifier::spinoff_prover]
#[verifier::rlimit(40)]
pub proof fn law_word_arrives(
    a: MeshV,
    b: MeshV,
    name: Seq<char>,
    source: Seq<char>,
    from: AddrV,
    now: u64,
)
    requires
        a.id.len() == 8,
        a.id != b.id,
        persist::text_fits(name),
        persist::text_fits(source),
    ensures
        ({
            let r = gossip::on_packet(b, message::word_bytes(a.id, a.port, name, source), from, now);
            if gossip::has_word(b.shared_words, name) {
                r == b
            } else {
                &&& r.word_inbox == b.word_inbox.push(node::SharedV { name, source, origin: a.id })
                &&& r.shared_words == b.shared_words.push((name, a.id))
            }
        }),
{
    wire::lemma_pow256();
    let h = message::header(message::MSG_WORD_SHARE, a.id, a.port);
    let t = wire::wtext(name) + wire::wtext(source);
    wire::lemma_assoc(h, wire::wtext(name), wire::wtext(source));
    message::law_header_roundtrip(message::MSG_WORD_SHARE, a.id, a.port, t);
    wire::lemma_get_text(name, 2, wire::wtext(source));
    assert(wire::wtext(source) =~= wire::wtext(source) + Seq::<u8>::empty());
    wire::lemma_get_text(source, 2, Seq::empty());
}

/// A proposal that one node makes is answered by another with one vote, sent to the proposer.
pub proof fn law_proposal_is_answered(
    a: MeshV,
    b: MeshV,
    n: u64,
    reason: Seq<char>,
    from: AddrV,
    now: u64,
)
    requires
        a.id.len() == 8,
        a.id != b.id,
        persist::text_fits(reason),
    ensures
        ({
            let r = gossip::on_packet(b, message::proposal_bytes(a.id, a.port, n, reason), from, now);
            r.outbox == b.outbox.push(
                node::PacketV {
                    to: message::at_port(from, a.port),
                    bytes: message::vote_bytes(b.id, b.port, n, gossip::would_vote(b)),
                },
            )
        }),
{
    wire::lemma_pow256();
    let h = message::header(message::MSG_PROPOSE, a.id, a.port);
    let t = wire::w64(n as nat) + wire::wtext(reason);
    wire::lemma_assoc(h, wire::w64(n as nat), wire::wtext(reason));
    message::law_header_roundtrip(message::MSG_PROPOSE, a.id, a.port, t);
    wire::lemma_get_nat(n as nat, 8, wire::wtext(reason));
    assert(wire::wtext(reason) =~= wire::wtext(reason) + Seq::<u8>::empty());
    wire::lemma_get_text(reason, 2, Seq::empty());
}

proof fn lemma_outcome_back(r: goals::ResultV)
    requires
        r.stack.len() < 65536,
        persist::text_fits(r.output),
        persist::opt_text_fits(r.error),
    ensures
        message::get_outcome(wire::input(message::w_outcome(r))).1 == wire::input(Seq::empty()),
        Some(message::get_outcome(wire::input(message::w_outcome(r))).0) == persist::kept_result(Some(r)),
{
    wire::lemma_pow256();
    let e = persist::error_text(r.error);
    let s = if r.success {
        1nat
    } else {
        0
    };
    reveal_strlit("");
    assert(persist::text_fits(e)) by {
        if r.error.is_none() {
            assert(e =~= Seq::<char>::empty());
            reveal_with_fuel(vstd::utf8::encode_utf8, 1);
        }
    }
    let t5 = wire::wtext(e);
    let t4 = wire::wtext(r.output) + t5;
    let t3 = codec::w_cells(r.stack) + t4;
    let t2 = wire::w16(r.stack.len()) + t3;
    let t1 = wire::w8(s as int) + t2;
    let x = wire::w8(s as int);
    let y = x + wire::w16(r.stack.len());
    let z = y + codec::w_cells(r.stack);
    wire::lemma_assoc(z, wire::wtext(r.output), t5);
    wire::lemma_assoc(y, codec::w_cells(r.stack), t4);
    wire::lemma_assoc(x, wire::w16(r.stack.len()), t3);
    assert(message::w_outcome(r) == t1);
    wire::lemma_get_u8(s, t2);
    wire::lemma_get_nat(r.stack.len(), 2, t3);
    codec::lemma_cells_back(r.stack, t4);
    wire::lemma_get_text(r.output, 2, t5);
    assert(t5 =~= t5 + Seq::<u8>::empty());
    wire::lemma_get_text(e, 2, Seq::empty());
}

/// The result of a task that one node has run ends the task at another, with the same result but
/// for an empty error message.
#[verifier::spinoff_prover]
#[verifier::rlimit(40)]
pub proof fn law_result_arrives(
    a: MeshV,
    b: MeshV,
    task: u64,
    goal: u64,
    r: goals::ResultV,
    from: AddrV,
    now: u64,
)
    requires
        a.id.len() == 8,
        a.id != b.id,
        r.stack.len() < 65536,
        persist::text_fits(r.output),
        persist::opt_text_fits(r.error),
    ensures
        gossip::on_packet(b, message::result_bytes(a.id, a.port, task, goal, r), from, now).goals == goals::completed(
            b.goals,
            task,
            persist::kept_result(Some(r)),
        ),
{
    wire::lemma_pow256();
    let t1 = message::w_outcome(r);
    let t0 = wire::w64(goal as nat) + t1;
    let t = wire::w64(task as nat) + t0;
    let h = message::header(message::MSG_TASK_RESULT, a.id, a.port);
    wire::lemma_assoc(h + wire::w64(task as nat), wire::w64(goal as nat), t1);
    wire::lemma_assoc(h, wire::w64(task as nat), t0);
    message::law_header_roundtrip(message::MSG_TASK_RESULT, a.id, a.port, t);
    wire::lemma_get_nat(task as nat, 8, t0);
    wire::lemma_get_nat(goal as nat, 8, t1);
    lemma_outcome_back(r);
}

/// A goal that one node announces is known to another afterwards: goal and tasks are merged into
/// what it knows, the tasks without code of their own.
#[verifier::spinoff_prover]
#[verifier::rlimit(40)]
pub proof fn law_goal_arrives(
    a: MeshV,
    b: MeshV,
    g: GoalV,
    tasks: Seq<TaskV>,
    from: AddrV,
    now: u64,
)
    requires
        a.id.len() == 8,
        a.id != b.id,
        persist::goal_fits(g),
        tasks.len() < 65536,
        forall|i: int| 0 <= i < tasks.len() ==> persist::task_fits(#[trigger] tasks[i]),
    ensures
        gossip::on_packet(b, goal_message::goal_bytes(a.id, a.port, g, tasks), from, now).goals
            == gossip::merged_tasks(
            goals::merged_goal(b.goals, GoalV { task_ids: goals::task_ids(tasks), ..g }),
            goal_message::all_gossiped(tasks, g),
        ),
{
    let d = goal_message::goal_bytes(a.id, a.port, g, tasks);
    goal_message::law_goal_message_roundtrip(a.id, a.port, g, tasks, Seq::empty());
    assert(d + Seq::<u8>::empty() =~= d);
}

/// A claim that one node sends marks the task at another as claimed by it, if it waits there.
#[verifier::spinoff_prover]
#[verifier::rlimit(40)]
pub proof fn law_claim_arrives(
    a: MeshV,
    b: MeshV,
    task: u64,
    goal: u64,
    from: AddrV,
    now: u64,
)
    requires
        a.id.len() == 8,
        a.id != b.id,
    ensures
        ({
            let r = gossip::on_packet(b, message::claim_bytes(a.id, a.port, task, goal), from, now);
            let k = goals::task_at(b.goals.tasks, task);
            if goals::has_task(b.goals.tasks, task) && b.goals.tasks[k].status == TaskStatus::Waiting {
                r.goals == goals::claimed(b.goals, k, a.id)
            } else {
                r == b
            }
        }),
{
    wire::lemma_pow256();
    let h = message::header(message::MSG_TASK_CLAIM, a.id, a.port);
    let t1 = wire::w64(goal as nat);
    let t = wire::w64(task as nat) + t1;
    wire::lemma_assoc(h, wire::w64(task as nat), t1);
    message::law_header_roundtrip(message::MSG_TASK_CLAIM, a.id, a.port, t);
    wire::lemma_get_nat(task as nat, 8, t1);
    assert(t1 =~= t1 + Seq::<u8>::empty());
    wire::lemma_get_nat(goal as nat, 8, Seq::empty());
}

/// A vote that one node sends is counted at another, once, on the proposal that it is about.
#[verifier::spinoff_prover]
#[verifier::rlimit(40)]
pub proof fn law_vote_arrives(a: MeshV, b: MeshV, n: u64, yes: bool, from: AddrV, now: u64)
    requires
        a.id.len() == 8,
        a.id != b.id,
    ensures
        gossip::on_packet(b, message::vote_bytes(a.id, a.port, n, yes), from, now).proposals == (
        if node::has_proposal(b.proposals, n) {
            b.proposals.update(
                node::proposal_at(b.proposals, n),
                gossip::voted(b.proposals[node::proposal_at(b.proposals, n)], a.id, yes),
            )
        } else {
            b.proposals
        }),
{
    wire::lemma_pow256();
    let v = if yes {
        1nat
    } else {
        0
    };
    let h = message::header(message::MSG_VOTE, a.id, a.port);
    let t1 = wire::w8(v as int);
    let t = wire::w64(n as nat) + t1;
    wire::lemma_assoc(h, wire::w64(n as nat), t1);
    message::law_header_roundtrip(message::MSG_VOTE, a.id, a.port, t);
    wire::lemma_get_nat(n as nat, 8, t1);
    assert(t1 =~= t1 + Seq::<u8>::empty());
    wire::lemma_get_u8(v, Seq::empty());
}

/// The state that one node commits arrives in the inbox of another as it was sent.
#[verifier::spinoff_prover]
#[verifier::rlimit(40)]
pub proof fn law_commit_arrives(a: MeshV, b: MeshV, n: u64, state: Seq<u8>, from: AddrV, now: u64)
    requires
        a.id.len() == 8,
        a.id != b.id,
        state.len() <= u32::MAX,
    ensures
        gossip::on_packet(b, message::commit_bytes(a.id, a.port, n, state), from, now).inbox
            == b.inbox.push(node::InboxV { from: a.id, data: state }),
{
    wire::lemma_pow256();
    let h = message::header(message::MSG_COMMIT, a.id, a.port);
    let t1 = wire::w32(state.len()) + state;
    let t = wire::w64(n as nat) + t1;
    wire::lemma_assoc(h + wire::w64(n as nat), wire::w32(state.len()), state);
    wire::lemma_assoc(h, wire::w64(n as nat), t1);
    message::law_header_roundtrip(message::MSG_COMMIT, a.id, a.port, t);
    wire::lemma_get_nat(n as nat, 8, t1);
    wire::lemma_get_nat(state.len(), 4, state);
    assert(state =~= state + Seq::<u8>::empty());
    wire::lemma_get_bytes(state, Seq::empty());
}

// ---------------------------------------------------------------------------
// Requests to replicate
// ---------------------------------------------------------------------------

/// A request from a unit that is not trusted is never accepted without being asked for: nothing is
/// sent, and the request waits, unless it is too large or too many of that unit wait already.
pub proof fn law_untrusted_request_waits(m: MeshV, i: Input, sender: Seq<u8>, now: u64)
    requires
        !gossip::trusts(m, sender),
    ensures
        ({
            let r = gossip::on_request(m, i, sender, now);
            let q = gossip::get_request(i, m.next_request, sender, now);
            &&& r.outbox == m.outbox
            &&& r.log == m.log
            &&& r.requests == (if q.size <= gossip::MAX_PACKAGE && gossip::requests_from(
                m.requests,
                sender,
            ) < node::REQUESTS_PER_PEER {
                m.requests.push(q)
            } else {
                m.requests
            })
        }),
{
}

/// A request from a trusted peer that is not too large is accepted at once: the peer is sent the
/// acceptance, and nothing waits.
pub proof fn law_trusted_request_is_accepted(m: MeshV, i: Input, sender: Seq<u8>, now: u64)
    requires
        gossip::trusts(m, sender),
        node::has_peer(m.peers, sender),
        gossip::get_request(i, m.next_request, sender, now).size <= gossip::MAX_PACKAGE,
    ensures
        ({
            let r = gossip::on_request(m, i, sender, now);
            &&& r.requests == m.requests
            &&& r.outbox == m.outbox.push(
                node::PacketV {
                    to: m.peers[node::peer_at(m.peers, sender)].addr,
                    bytes: message::header(message::MSG_REPLICATE_ACCEPT, m.id, m.port),
                },
            )
        }),
{
}

// ---------------------------------------------------------------------------
// Heartbeats
// ---------------------------------------------------------------------------

proof fn lemma_addrs_back(s: Seq<PeerV>, t: Seq<u8>)
    requires
        forall|i: int| 0 <= i < s.len() ==> (#[trigger] s[i]).addr is V4,
    ensures
        gossip::get_addrs(wire::input(consensus::w_addrs(s) + t), s.len() as int) == (
            addrs_of(s),
            wire::input(t),
        ),
    decreases s.len(),
{
    if s.len() == 0 {
        assert(consensus::w_addrs(s) + t =~= t);
        assert(addrs_of(s) =~= Seq::<AddrV>::empty());
    } else {
        wire::lemma_pow256();
        let d = s.drop_last();
        let (ip, port) = match s.last().addr {
            AddrV::V4 { ip, port } => (ip, port),
            AddrV::V6 { .. } => (0, 0),
        };
        assert(s.last() == s[s.len() - 1]);
        assert forall|i: int| 0 <= i < d.len() implies (#[trigger] d[i]).addr is V4 by {
            assert(d[i] == s[i]);
        }
        let w = consensus::w_addr(s.last().addr);
        let rest = wire::w16(port as nat) + t;
        wire::lemma_assoc(consensus::w_addrs(d), w, t);
        wire::lemma_assoc(wire::w32(ip as nat), wire::w16(port as nat), t);
        lemma_addrs_back(d, w + t);
        wire::lemma_get_nat(ip as nat, 4, rest);
        wire::lemma_get_nat(port as nat, 2, t);
        assert(addrs_of(d).push(s.last().addr) =~= addrs_of(s));
    }
}

/// The addresses of peers.
pub open spec fn addrs_of(s: Seq<PeerV>) -> Seq<AddrV> {
    Seq::new(s.len(), |i: int| s[i].addr)
}

/// What is known of a peer.
pub open spec fn peer_of(s: Seq<PeerV>, id: Seq<u8>) -> Option<PeerV> {
    if node::has_peer(s, id) {
        Some(s[node::peer_at(s, id)])
    } else {
        None
    }
}

proof fn lemma_other_peer(s: Seq<PeerV>, q: PeerV, id: Seq<u8>)
    requires
        q.id != id,
        node::has_peer(s, id),
    ensures
        peer_of(node::put_peer(s, q), id) == peer_of(s, id),
{
    let r = node::put_peer(s, q);
    laws::lemma_peer_from(s, id, 0);
    laws::lemma_peer_from(s, q.id, 0);
    laws::lemma_peer_from(r, id, 0);
    let k = node::peer_at(s, id);
    assert(r[k] == s[k]);
    let j = node::peer_at(r, id);
    if j < k {
        assert(r[j].id == id);
        assert(s[j].id != id);
        assert(node::has_peer(s, q.id) && j == node::peer_at(s, q.id));
    }
}

proof fn lemma_introduced_keep(m: MeshV, s: Seq<AddrV>, now: u64, id: Seq<u8>)
    requires
        node::has_peer(m.peers, id),
        forall|i: int| 0 <= i < s.len() ==> message::pseudo_id(#[trigger] s[i]) != id,
    ensures
        peer_of(gossip::all_introduced(m, s, now).peers, id) == peer_of(m.peers, id),
    decreases s.len(),
{
    if s.len() > 0 {
        let d = s.drop_last();
        assert forall|i: int| 0 <= i < d.len() implies message::pseudo_id(#[trigger] d[i]) != id by {
            assert(d[i] == s[i]);
        }
        lemma_introduced_keep(m, d, now, id);
        let m1 = gossip::all_introduced(m, d, now);
        let a = s.last();
        assert(a == s[s.len() - 1]);
        lemma_other_peer(m1.peers, node::stranger(message::pseudo_id(a), a, now), id);
    }
}

proof fn lemma_met_known(m: MeshV, p: PeerV)
    ensures
        peer_of(gossip::met(m, p).peers, p.id) == Some(p),
{
    let known = if message::pseudo_id(p.addr) != p.id {
        node::drop_peer(m.peers, message::pseudo_id(p.addr))
    } else {
        m.peers
    };
    let r = node::put_peer(known, p);
    laws::lemma_peer_from(known, p.id, 0);
    laws::lemma_peer_from(r, p.id, 0);
    let k = node::peer_at(known, p.id);
    assert(r[k] == p);
    let j = node::peer_at(r, p.id);
    if j < k {
        assert(r[j] == known[j]);
    }
    let m1 = MeshV { peers: r, ..m };
    lemma_posted_peers(
        node::logged(m1, "discovered peer "@ + text::hex(p.id) + " @ "@ + message::addr_text(p.addr)),
        m1.goals.goals.len() as int,
        p.addr,
    );
}

proof fn lemma_posted_peers(m: MeshV, n: int, to: AddrV)
    ensures
        gossip::goals_posted(m, n, to).peers == m.peers,
    decreases n,
{
    if n > 0 {
        lemma_posted_peers(m, n - 1, to);
    }
}

proof fn lemma_heartbeat_back(a: MeshV)
    requires
        a.id.len() == 8,
        forall|i: int|
            0 <= i < consensus::gossip(a.peers).len() ==> (#[trigger] consensus::gossip(
                a.peers,
            )[i]).addr is V4,
    ensures
        ({
            let g = consensus::gossip(a.peers);
            let (kind, sender, port, i0) = message::get_header(wire::input(consensus::heartbeat_bytes(a)));
            let (load, i1) = wire::get_nat(i0, 4);
            let (capacity, i2) = wire::get_nat(i1, 4);
            let (count, i3) = wire::get_nat(i2, 2);
            let (n, i4) = wire::get_nat(i3, 1);
            let (addrs, i5) = gossip::get_addrs(i4, n as int);
            let (f, i6) = wire::get_int(i5);
            &&& kind == message::MSG_HEARTBEAT && sender == a.id && port == a.port
            &&& i0.ok && i4.ok && i6.ok
            &&& load == a.load && capacity == a.capacity && count == a.peers.len() % 65536
            &&& n == g.len() && addrs == addrs_of(g) && f == a.fitness
        }),
{
    wire::lemma_pow256();
    let g = consensus::gossip(a.peers);
    let h = message::header(message::MSG_HEARTBEAT, a.id, a.port);
    let t5 = wire::wi64(a.fitness as int);
    let t4 = consensus::w_addrs(g) + t5;
    let t3 = wire::w8(g.len() as int) + t4;
    let t2 = wire::w16(a.peers.len()) + t3;
    let t1 = wire::w32(a.capacity as nat) + t2;
    let t0 = wire::w32(a.load as nat) + t1;
    let x = h + wire::w32(a.load as nat);
    let y = x + wire::w32(a.capacity as nat);
    let z = y + wire::w16(a.peers.len());
    let u = z + wire::w8(g.len() as int);
    wire::lemma_assoc(u, consensus::w_addrs(g), t5);
    wire::lemma_assoc(z, wire::w8(g.len() as int), t4);
    wire::lemma_assoc(y, wire::w16(a.peers.len()), t3);
    wire::lemma_assoc(x, wire::w32(a.capacity as nat), t2);
    wire::lemma_assoc(h, wire::w32(a.load as nat), t1);
    message::law_header_roundtrip(message::MSG_HEARTBEAT, a.id, a.port, t0);
    wire::lemma_get_nat(a.load as nat, 4, t1);
    wire::lemma_get_nat(a.capacity as nat, 4, t2);
    wire::lemma_be_mod(a.peers.len(), 2);
    wire::lemma_get_nat(a.peers.len() % 65536, 2, t3);
    wire::lemma_get_u8(g.len(), t4);
    lemma_addrs_back(g, t5);
    assert(t5 =~= t5 + Seq::<u8>::empty());
    wire::lemma_get_int(a.fitness as int, Seq::empty());
}

proof fn lemma_with_fitness_of(s: Seq<PeerV>, p: PeerV, f: i64)
    requires
        peer_of(s, p.id) == Some(p),
    ensures
        peer_of(gossip::with_fitness(s, p.id, f), p.id) == Some(PeerV { fitness: f, ..p }),
{
    let r = gossip::with_fitness(s, p.id, f);
    laws::lemma_peer_from(s, p.id, 0);
    laws::lemma_peer_from(r, p.id, 0);
    let k = node::peer_at(s, p.id);
    let j = node::peer_at(r, p.id);
    assert(r[k].id == p.id);
    if j < k {
        assert(r[j] == s[j]);
    }
}

/// A heartbeat that one node sends makes it a peer of another, at the address that it came from,
/// with the load, the capacity, the fitness and the number of peers that it has. The heartbeat
/// speaks of addresses of the fourth version only, and none of them stands for the sender itself.
pub proof fn law_heartbeat_arrives(a: MeshV, b: MeshV, from: AddrV, now: u64)
    requires
        a.id.len() == 8,
        a.id != b.id,
        forall|i: int|
            0 <= i < consensus::gossip(a.peers).len() ==> (#[trigger] consensus::gossip(
                a.peers,
            )[i]).addr is V4 && message::pseudo_id(consensus::gossip(a.peers)[i].addr) != a.id,
    ensures
        peer_of(gossip::on_packet(b, consensus::heartbeat_bytes(a), from, now).peers, a.id) == Some(
            PeerV {
                addr: message::at_port(from, a.port),
                id: a.id,
                load: a.load,
                capacity: a.capacity,
                peer_count: (a.peers.len() % 65536) as u16,
                fitness: a.fitness,
                last_seen: now,
            },
        ),
{
    let addrs = addrs_of(consensus::gossip(a.peers));
    let p = PeerV {
        addr: message::at_port(from, a.port),
        id: a.id,
        load: a.load,
        capacity: a.capacity,
        peer_count: (a.peers.len() % 65536) as u16,
        fitness: 0,
        last_seen: now,
    };
    lemma_heartbeat_back(a);
    lemma_met_known(b, p);
    assert forall|i: int| 0 <= i < addrs.len() implies message::pseudo_id(#[trigger] addrs[i])
        != a.id by {
        assert(addrs[i] == consensus::gossip(a.peers)[i].addr);
    }
    lemma_introduced_keep(gossip::met(b, p), addrs, now, a.id);
    lemma_with_fitness_of(gossip::all_introduced(gossip::met(b, p), addrs, now).peers, p, a.fitness);
}

} // verus!
