//! What a node does with the messages it receives.

use crate::codec;
use crate::goals;
use crate::goals::{GoalRegistry, GoalStatus, GoalsV, Task, TaskStatus, TaskV};
use crate::mesh::goal_message;
use crate::mesh::goal_message::{decode_goal_broadcast, encode_goal_broadcast};
use crate::mesh::message;
use crate::mesh::message::{
    addr_to_pseudo_id, bare_message, decode_header, read_outcome, vote_message, Addr, AddrV,
    MSG_COMMIT, MSG_CULL_INTENT, MSG_DATA, MSG_DISCOVERY_BEACON, MSG_GOAL_BROADCAST, MSG_HEARTBEAT, MSG_PROPOSE,
    MSG_REJECT, MSG_REPLICATE_ACCEPT, MSG_REPLICATE_DENY, MSG_REPLICATE_REQUEST, MSG_SPAWN_INTENT,
    MSG_TASK_CLAIM, MSG_TASK_RESULT, MSG_VOTE, MSG_WORD_SHARE,
};
use crate::mesh::node;
use crate::mesh::node::{
    has_id, insert_peer, new_peer, peer_slot, proposal_slot, push_hex16, remove_peer,
    remove_proposal, InboxMessage, InboxV, MeshNode, MeshV, PeerInfo, PeerV, ProposalV,
    ReplicationRequest, RequestV, SharedV, SharedWord, TrustLevel, WordOrigin,
    REQUESTS_PER_PEER,
};
use crate::text;
use crate::text::{push_hex, push_i64, push_u64, push_usize, same_text, text};
use crate::wire;
use crate::wire::{same_id, Input, NodeId, Reader};
use vstd::prelude::*;

verus! {

// ---------------------------------------------------------------------------
// Heartbeats
// ---------------------------------------------------------------------------

/// The addresses in a heartbeat: up to `n`, as far as the bytes go.
pub open spec fn get_addrs(i: Input, n: int) -> (Seq<AddrV>, Input)
    decreases n,
{
    if n <= 0 {
        (Seq::empty(), i)
    } else {
        let (s, j) = get_addrs(i, n - 1);
        let (ip, k) = wire::get_nat(j, 4);
        let (port, k) = wire::get_nat(k, 2);
        if k.ok {
            (s.push(AddrV::V4 { ip: ip as u32, port: port as u16 }), k)
        } else {
            (s, k)
        }
    }
}

/// The tasks of a goal that are known, in the order of the goal.
pub open spec fn tasks_of(tasks: Seq<TaskV>, ids: Seq<u64>) -> Seq<TaskV>
    decreases ids.len(),
{
    if ids.len() == 0 {
        Seq::empty()
    } else {
        let s = tasks_of(tasks, ids.drop_last());
        if goals::has_task(tasks, ids.last()) {
            s.push(tasks[goals::task_at(tasks, ids.last())])
        } else {
            s
        }
    }
}

/// The message of the goal at position `k`.
pub open spec fn goal_packet(m: MeshV, k: int) -> Seq<u8> {
    goal_message::goal_bytes(m.id, m.port, m.goals.goals[k], tasks_of(m.goals.tasks, m.goals.goals[k].task_ids))
}

/// The node after it has sent the first `n` goals that have not failed to one address.
pub open spec fn goals_posted(m: MeshV, n: int, to: AddrV) -> MeshV
    decreases n,
{
    if n <= 0 {
        m
    } else {
        let p = goals_posted(m, n - 1, to);
        if m.goals.goals[n - 1].status != GoalStatus::Failed {
            node::posted(p, to, goal_packet(m, n - 1))
        } else {
            p
        }
    }
}

/// True of the node's own address as a peer sees it.
pub open spec fn own_address(m: MeshV, a: AddrV) -> bool {
    a matches AddrV::V4 { ip, port } && port == m.port && message::is_loopback(ip)
}

/// The node after it has heard of a peer at an address.
pub open spec fn introduced(m: MeshV, a: AddrV, now: u64) -> MeshV {
    if own_address(m, a) || node::knows_addr(m.peers, a) {
        m
    } else {
        node::logged(
            MeshV { peers: node::put_peer(m.peers, node::stranger(message::pseudo_id(a), a, now)), ..m },
            "gossip: discovered peer at "@ + message::addr_text(a),
        )
    }
}

/// The node after it has heard of peers at these addresses.
pub open spec fn all_introduced(m: MeshV, s: Seq<AddrV>, now: u64) -> MeshV
    decreases s.len(),
{
    if s.len() == 0 {
        m
    } else {
        introduced(all_introduced(m, s.drop_last(), now), s.last(), now)
    }
}

/// The node after it has met the sender of a heartbeat.
pub open spec fn met(m: MeshV, p: PeerV) -> MeshV {
    let known = if message::pseudo_id(p.addr) != p.id {
        node::drop_peer(m.peers, message::pseudo_id(p.addr))
    } else {
        m.peers
    };
    let m1 = MeshV { peers: node::put_peer(known, p), ..m };
    if node::has_peer(known, p.id) {
        m1
    } else {
        goals_posted(
            node::logged(m1, "discovered peer "@ + text::hex(p.id) + " @ "@ + message::addr_text(p.addr)),
            m1.goals.goals.len() as int,
            p.addr,
        )
    }
}

/// The peers with the fitness of one of them set.
pub open spec fn with_fitness(s: Seq<PeerV>, id: Seq<u8>, fitness: i64) -> Seq<PeerV> {
    if node::has_peer(s, id) {
        s.update(node::peer_at(s, id), PeerV { fitness, ..s[node::peer_at(s, id)] })
    } else {
        s
    }
}

/// The node after a heartbeat. One that is too short changes nothing.
pub open spec fn on_heartbeat(m: MeshV, i: Input, sender: Seq<u8>, from: AddrV, now: u64) -> MeshV {
    let (load, i) = wire::get_nat(i, 4);
    let (capacity, i) = wire::get_nat(i, 4);
    let (count, i) = wire::get_nat(i, 2);
    let (n, i) = wire::get_nat(i, 1);
    if !i.ok {
        m
    } else {
        let (addrs, i) = get_addrs(i, n as int);
        let p = PeerV {
            addr: from,
            id: sender,
            load: load as u32,
            capacity: capacity as u32,
            peer_count: count as u16,
            fitness: 0,
            last_seen: now,
        };
        let m2 = all_introduced(met(m, p), addrs, now);
        let (f, i) = wire::get_int(i);
        if i.ok {
            MeshV { peers: with_fitness(m2.peers, sender, f as i64), ..m2 }
        } else {
            m2
        }
    }
}

/// The known tasks of a goal, copied.
pub fn copy_tasks(r: &GoalRegistry, ids: &[u64]) -> (v: Vec<Task>)
    ensures
        goals::task_views(v@) == tasks_of(r@.tasks, ids@),
{
    let mut v: Vec<Task> = Vec::new();
    let mut i: usize = 0;
    assert(goals::task_views(v@) =~= tasks_of(r@.tasks, ids@.take(0)));
    while i < ids.len()
        invariant
            i <= ids@.len(),
            goals::task_views(v@) == tasks_of(r@.tasks, ids@.take(i as int)),
        decreases ids@.len() - i,
    {
        let ghost before = goals::task_views(v@);
        let k = r.task_slot(ids[i]);
        if k < r.tasks.len() {
            assert(r@.tasks[k as int] == r.tasks@[k as int]@);
            let t = r.tasks[k].clone();
            v.push(t);
            assert(goals::task_views(v@) =~= before.push(t@));
        }
        i = i + 1;
        assert(ids@.take(i as int).drop_last() =~= ids@.take(i - 1));
    }
    assert(ids@.take(i as int) =~= ids@);
    v
}

proof fn lemma_addrs_done(i: Input, n: int, m: int)
    requires
        0 <= n <= m,
        get_addrs(i, n).1 == wire::failed(),
    ensures
        get_addrs(i, m) == get_addrs(i, n),
    decreases m - n,
{
    if n < m {
        assert(get_addrs(i, n + 1) == get_addrs(i, n));
        lemma_addrs_done(i, n + 1, m);
    }
}

fn read_addrs(r: &mut Reader, n: u8) -> (v: Vec<(u32, u16)>)
    requires
        old(r).wf(),
        codec::canonical(old(r)@),
    ensures
        final(r).wf(),
        codec::canonical(final(r)@),
        final(r)@ == get_addrs(old(r)@, n as int).1,
        v4s(v@) == get_addrs(old(r)@, n as int).0,
{
    let mut v: Vec<(u32, u16)> = Vec::new();
    let mut k: u8 = 0;
    assert(v4s(v@) =~= Seq::<AddrV>::empty());
    while k < n && r.good()
        invariant
            k <= n,
            r.wf(),
            codec::canonical(r@),
            r@ == get_addrs(old(r)@, k as int).1,
            v4s(v@) == get_addrs(old(r)@, k as int).0,
        decreases n - k,
    {
        let ghost before = v4s(v@);
        let ip = r.read_u32();
        let port = r.read_u16();
        if r.good() {
            v.push((ip, port));
            assert(v4s(v@) =~= before.push(AddrV::V4 { ip, port }));
        }
        k = k + 1;
    }
    proof {
        if k < n {
            lemma_addrs_done(old(r)@, k as int, n as int);
        }
    }
    v
}

/// Addresses of the fourth version.
pub open spec fn v4s(s: Seq<(u32, u16)>) -> Seq<AddrV> {
    Seq::new(s.len(), |i: int| AddrV::V4 { ip: s[i].0, port: s[i].1 })
}

impl MeshNode {
    /// Sends all goals that have not failed to one address.
    fn post_goals(&mut self, to: &Addr)
        ensures
            final(self)@ == goals_posted(old(self)@, old(self)@.goals.goals.len() as int, to@),
    {
        let mut k: usize = 0;
        let ghost m = self@;
        while k < self.goals.goals.len()
            invariant
                m == old(self)@,
                k <= m.goals.goals.len(),
                self@ == goals_posted(m, k as int, to@),
                self@.goals == m.goals,
                self@.id == m.id,
                self@.port == m.port,
            decreases m.goals.goals.len() - k,
        {
            assert(m.goals.goals[k as int] == self.goals.goals@[k as int]@);
            if !matches!(self.goals.goals[k].status, GoalStatus::Failed) {
                let tasks = copy_tasks(&self.goals, &self.goals.goals[k].task_ids);
                let bytes = encode_goal_broadcast(
                    &self.id,
                    self.port,
                    &self.goals.goals[k],
                    &tasks,
                );
                self.post(to.clone(), bytes);
            }
            k = k + 1;
        }
    }

    fn knows_v4(&self, ip: u32, port: u16) -> (b: bool)
        ensures
            b == node::knows_addr(self@.peers, AddrV::V4 { ip, port }),
    {
        let mut i: usize = 0;
        while i < self.peers.len()
            invariant
                i <= self.peers@.len(),
                forall|j: int|
                    0 <= j < i ==> (#[trigger] self@.peers[j]).addr != (AddrV::V4 { ip, port }),
            decreases self.peers@.len() - i,
        {
            assert(self@.peers[i as int] == self.peers@[i as int]@);
            if self.peers[i].addr.is_v4(ip, port) {
                return true;
            }
            i = i + 1;
        }
        false
    }

    /// Hears of a peer at an address.
    fn introduce(&mut self, ip: u32, port: u16, now: u64)
        ensures
            final(self)@ == introduced(old(self)@, AddrV::V4 { ip, port }, now),
    {
        if port == self.port && ip / 0x100_0000 == 127 {
            return;
        }
        if !self.knows_v4(ip, port) {
            let addr = Addr::V4 { ip, port };
            let mut msg = text("gossip: discovered peer at ");
            msg.append(addr.to_text().as_str());
            let pseudo = addr_to_pseudo_id(&addr);
            insert_peer(&mut self.peers, new_peer(pseudo, addr, now));
            self.log_event(msg);
        }
    }

    /// Meets the sender of a heartbeat.
    fn meet(&mut self, p: PeerInfo)
        ensures
            final(self)@ == met(old(self)@, p@),
    {
        let id = p.id;
        let addr = p.addr.clone();
        let pseudo = addr_to_pseudo_id(&p.addr);
        if !same_id(&pseudo, &id) {
            remove_peer(&mut self.peers, &pseudo);
        }
        let k = peer_slot(&self.peers, &id);
        let is_new = k >= self.peers.len();
        insert_peer(&mut self.peers, p);
        if is_new {
            let mut msg = text("discovered peer ");
            push_hex(&mut msg, id.as_slice());
            msg.append(" @ ");
            msg.append(addr.to_text().as_str());
            self.log_event(msg);
            self.post_goals(&addr);
        }
    }

    /// A heartbeat of a peer: its load, the addresses it knows, and its fitness.
    fn handle_heartbeat(&mut self, r: &mut Reader, sender_id: NodeId, sender_addr: Addr, now: u64)
        requires
            old(r).wf(),
            codec::canonical(old(r)@),
        ensures
            final(self)@ == on_heartbeat(
                old(self)@,
                old(r)@,
                sender_id@,
                sender_addr@,
                now,
            ),
    {
        let load = r.read_u32();
        let capacity = r.read_u32();
        let peer_count = r.read_u16();
        let n = r.read_u8();
        if !r.good() {
            return;
        }
        let addrs = read_addrs(r, n);
        self.meet(
            PeerInfo {
                addr: sender_addr,
                id: sender_id,
                load,
                capacity,
                peer_count,
                fitness: 0,
                last_seen: now,
            },
        );
        let ghost m1 = self@;
        let ghost av = v4s(addrs@);
        let mut k: usize = 0;
        assert(av.take(0) =~= Seq::empty());
        while k < addrs.len()
            invariant
                k <= addrs@.len(),
                av == v4s(addrs@),
                self@ == all_introduced(m1, av.take(k as int), now),
            decreases addrs@.len() - k,
        {
            self.introduce(addrs[k].0, addrs[k].1, now);
            k = k + 1;
            assert(av.take(k as int).drop_last() =~= av.take(k - 1));
        }
        assert(av.take(k as int) =~= av);
        let ghost m2 = self@;
        let fitness = r.read_i64();
        if r.good() {
            let i = peer_slot(&self.peers, &sender_id);
            if i < self.peers.len() {
                assert(m2.peers[i as int] == self.peers@[i as int]@);
                self.peers[i].fitness = fitness;
                assert(self@.peers =~= with_fitness(m2.peers, sender_id@, fitness));
            }
        }
    }
}

// ---------------------------------------------------------------------------
// Proposals and votes
// ---------------------------------------------------------------------------

/// True of a unit with capacity to spare.
pub open spec fn would_vote(m: MeshV) -> bool {
    m.load < m.capacity.wrapping_mul(80) / 100
}

/// The node after a proposal of a peer: it votes for it if it has capacity to spare.
pub open spec fn on_propose(m: MeshV, i: Input, sender: Seq<u8>, from: AddrV) -> MeshV {
    let (n, i) = wire::get_nat(i, 8);
    let (reason, i) = wire::get_text(i, 2);
    if !i.ok {
        m
    } else {
        node::posted(
            node::logged(m, "proposal #"@ + node::hex16(n as u64) + " from "@ + text::hex(sender) + ": "@ + reason),
            from,
            message::vote_bytes(m.id, m.port, n as u64, would_vote(m)),
        )
    }
}

/// A proposal with one more vote.
pub open spec fn voted(p: ProposalV, id: Seq<u8>, yes: bool) -> ProposalV {
    if yes {
        ProposalV { yes: node::with_vote(p.yes, id), ..p }
    } else {
        ProposalV { no: node::with_vote(p.no, id), ..p }
    }
}

/// The event of a vote.
pub open spec fn vote_text(yes: bool, sender: Seq<u8>, n: u64, for_it: nat, against: nat) -> Seq<char> {
    "vote "@ + (if yes {
        "YES"@
    } else {
        "NO"@
    }) + " from "@ + text::hex(sender) + " on #"@ + node::hex16(n) + " (yes="@ + text::dec(for_it) + ", no="@ + text::dec(
        against,
    ) + ")"@
}

/// The node after a vote of a peer.
pub open spec fn on_vote(m: MeshV, i: Input, sender: Seq<u8>) -> MeshV {
    let (n, i) = wire::get_nat(i, 8);
    let (v, i) = wire::get_nat(i, 1);
    if !i.ok {
        m
    } else {
        let k = node::proposal_at(m.proposals, n as u64);
        if node::has_proposal(m.proposals, n as u64) {
            let p = voted(m.proposals[k], sender, v == 1);
            node::logged(
                MeshV { proposals: m.proposals.update(k, p), ..m },
                vote_text(v == 1, sender, n as u64, p.yes.len(), p.no.len()),
            )
        } else {
            node::logged(m, vote_text(v == 1, sender, n as u64, 0, 0))
        }
    }
}

/// The node after a commitment: the state arrives in the inbox.
pub open spec fn on_commit(m: MeshV, i: Input, sender: Seq<u8>) -> MeshV {
    let (n, i) = wire::get_nat(i, 8);
    let (len, i) = wire::get_nat(i, 4);
    let (data, i) = wire::get_bytes(i, len as int);
    if !i.ok {
        m
    } else {
        let m1 = node::logged(
            m,
            "commit #"@ + node::hex16(n as u64) + " from "@ + text::hex(sender) + " ("@ + text::dec(data.len())
                + " bytes of state)"@,
        );
        MeshV { inbox: m1.inbox.push(InboxV { from: sender, data }), ..m1 }
    }
}

/// The node after a rejection: the proposal is dropped.
pub open spec fn on_reject(m: MeshV, i: Input, sender: Seq<u8>) -> MeshV {
    let (n, i) = wire::get_nat(i, 8);
    if !i.ok {
        m
    } else {
        let m1 = node::logged(m, "reject #"@ + node::hex16(n as u64) + " from "@ + text::hex(sender));
        MeshV { proposals: node::drop_proposal(m1.proposals, n as u64), ..m1 }
    }
}

/// The node after data of a peer.
pub open spec fn on_data(m: MeshV, i: Input, sender: Seq<u8>) -> MeshV {
    let (len, i) = wire::get_nat(i, 2);
    let (data, i) = wire::get_bytes(i, len as int);
    if !i.ok {
        m
    } else {
        MeshV { inbox: m.inbox.push(InboxV { from: sender, data }), ..m }
    }
}

fn vote_event(yes: bool, sender: &NodeId, n: u64, for_it: usize, against: usize) -> (msg: String)
    ensures
        msg@ == vote_text(yes, sender@, n, for_it as nat, against as nat),
{
    let mut msg = text("vote ");
    msg.append(if yes {
        "YES"
    } else {
        "NO"
    });
    msg.append(" from ");
    push_hex(&mut msg, sender.as_slice());
    msg.append(" on #");
    push_hex16(&mut msg, n);
    msg.append(" (yes=");
    push_usize(&mut msg, for_it);
    msg.append(", no=");
    push_usize(&mut msg, against);
    msg.append(")");
    msg
}

impl MeshNode {
    /// A proposal of a peer: answers with a vote.
    fn handle_propose(&mut self, r: &mut Reader, sender_id: NodeId, sender_addr: Addr)
        requires
            old(r).wf(),
        ensures
            final(self)@ == on_propose(old(self)@, old(r)@, sender_id@, sender_addr@),
    {
        let n = r.read_u64();
        let reason = r.read_string();
        if !r.good() {
            return;
        }
        let mut msg = text("proposal #");
        push_hex16(&mut msg, n);
        msg.append(" from ");
        push_hex(&mut msg, sender_id.as_slice());
        msg.append(": ");
        msg.append(reason.as_str());
        self.log_event(msg);
        let yes = self.load < self.capacity.wrapping_mul(80) / 100;
        let bytes = vote_message(&self.id, self.port, n, yes);
        self.post(sender_addr, bytes);
    }

    /// Counts a vote on the proposal at position `k`.
    fn count_vote(&mut self, k: usize, sender_id: NodeId, yes: bool)
        requires
            k < old(self).proposals@.len(),
        ensures
            final(self)@ == (MeshV {
                proposals: old(self)@.proposals.update(
                    k as int,
                    voted(old(self)@.proposals[k as int], sender_id@, yes),
                ),
                ..old(self)@
            }),
            final(self).proposals@.len() == old(self).proposals@.len(),
    {
        let ghost m = self@;
        let ghost p = m.proposals[k as int];
        assert(p == self.proposals@[k as int]@);
        if yes {
            if !has_id(&self.proposals[k].votes_yes, &sender_id) {
                let ghost before = self.proposals@[k as int].votes_yes@;
                self.proposals[k].votes_yes.push(sender_id);
                assert(node::id_views(before.push(sender_id)) =~= node::id_views(before).push(sender_id@));
            }
        } else {
            if !has_id(&self.proposals[k].votes_no, &sender_id) {
                let ghost before = self.proposals@[k as int].votes_no@;
                self.proposals[k].votes_no.push(sender_id);
                assert(node::id_views(before.push(sender_id)) =~= node::id_views(before).push(sender_id@));
            }
        }
        assert(self.proposals@[k as int]@ =~= voted(p, sender_id@, yes));
        assert(self@.proposals =~= m.proposals.update(k as int, voted(p, sender_id@, yes)));
    }

    /// A vote of a peer.
    fn handle_vote(&mut self, r: &mut Reader, sender_id: NodeId)
        requires
            old(r).wf(),
        ensures
            final(self)@ == on_vote(old(self)@, old(r)@, sender_id@),
    {
        let n = r.read_u64();
        let v = r.read_u8();
        if !r.good() {
            return;
        }
        let k = proposal_slot(&self.proposals, n);
        if k < self.proposals.len() {
            self.count_vote(k, sender_id, v == 1);
            assert(self@.proposals[k as int] == self.proposals@[k as int]@);
            let msg = vote_event(
                v == 1,
                &sender_id,
                n,
                self.proposals[k].votes_yes.len(),
                self.proposals[k].votes_no.len(),
            );
            self.log_event(msg);
        } else {
            let msg = vote_event(v == 1, &sender_id, n, 0, 0);
            self.log_event(msg);
        }
    }

    fn receive(&mut self, from: NodeId, data: Vec<u8>)
        ensures
            final(self)@ == (MeshV {
                inbox: old(self)@.inbox.push(InboxV { from: from@, data: data@ }),
                ..old(self)@
            }),
    {
        let ghost before = self@.inbox;
        let x = InboxMessage { from, data };
        self.inbox.push(x);
        assert(self@.inbox =~= before.push(x@));
    }

    /// A commitment of a peer: its state goes to the inbox.
    fn handle_commit(&mut self, r: &mut Reader, sender_id: NodeId)
        requires
            old(r).wf(),
        ensures
            final(self)@ == on_commit(old(self)@, old(r)@, sender_id@),
    {
        let n = r.read_u64();
        let len = r.read_u32();
        let data = r.read_bytes(len as usize);
        if !r.good() {
            return;
        }
        let mut msg = text("commit #");
        push_hex16(&mut msg, n);
        msg.append(" from ");
        push_hex(&mut msg, sender_id.as_slice());
        msg.append(" (");
        push_usize(&mut msg, data.len());
        msg.append(" bytes of state)");
        self.log_event(msg);
        self.receive(sender_id, data);
    }

    /// A rejection of a peer.
    fn handle_reject(&mut self, r: &mut Reader, sender_id: NodeId)
        requires
            old(r).wf(),
        ensures
            final(self)@ == on_reject(old(self)@, old(r)@, sender_id@),
    {
        let n = r.read_u64();
        if !r.good() {
            return;
        }
        let mut msg = text("reject #");
        push_hex16(&mut msg, n);
        msg.append(" from ");
        push_hex(&mut msg, sender_id.as_slice());
        self.log_event(msg);
        remove_proposal(&mut self.proposals, n);
    }

    /// Data of a peer.
    fn handle_data(&mut self, r: &mut Reader, sender_id: NodeId)
        requires
            old(r).wf(),
        ensures
            final(self)@ == on_data(old(self)@, old(r)@, sender_id@),
    {
        let len = r.read_u16();
        let data = r.read_bytes(len as usize);
        if !r.good() {
            return;
        }
        self.receive(sender_id, data);
    }
}

// ---------------------------------------------------------------------------
// Goals and tasks
// ---------------------------------------------------------------------------

/// The registry after tasks of a peer.
pub open spec fn merged_tasks(v: GoalsV, s: Seq<TaskV>) -> GoalsV
    decreases s.len(),
{
    if s.len() == 0 {
        v
    } else {
        goals::merged_task(merged_tasks(v, s.drop_last()), s.last())
    }
}

/// The node after a goal of a peer, with its tasks. Only a goal that was unknown is an event.
pub open spec fn on_goal(m: MeshV, i: Input, sender: Seq<u8>) -> MeshV {
    let (g, tasks, i) = goal_message::get_goal_message(i);
    if !i.ok {
        m
    } else {
        let v = merged_tasks(goals::merged_goal(m.goals, g), tasks);
        let m1 = MeshV { goals: v, ..m };
        if goals::has_goal(m.goals.goals, g.id) {
            m1
        } else {
            node::logged(
                m1,
                "received goal #"@ + text::dec(g.id as nat) + " from "@ + text::hex(sender) + ": "@ + (if goals::has_goal(
                    v.goals,
                    g.id,
                ) {
                    v.goals[goals::goal_at(v.goals, g.id)].description
                } else {
                    "?"@
                }),
            )
        }
    }
}

/// The node after a peer has claimed a task. Only a waiting task can be claimed.
pub open spec fn on_claim(m: MeshV, i: Input, sender: Seq<u8>) -> MeshV {
    let (id, i) = wire::get_nat(i, 8);
    let (_g, i) = wire::get_nat(i, 8);
    let k = goals::task_at(m.goals.tasks, id as u64);
    if i.ok && goals::has_task(m.goals.tasks, id as u64) && m.goals.tasks[k].status == TaskStatus::Waiting {
        node::logged(
            MeshV { goals: goals::claimed(m.goals, k, sender), ..m },
            "peer "@ + text::hex(sender) + " claimed task #"@ + text::dec(id),
        )
    } else {
        m
    }
}

/// The node after the result of a task.
pub open spec fn on_result(m: MeshV, i: Input, sender: Seq<u8>) -> MeshV {
    let (id, i) = wire::get_nat(i, 8);
    let (_g, i) = wire::get_nat(i, 8);
    let (result, i) = message::get_outcome(i);
    if !i.ok {
        m
    } else {
        node::logged(
            MeshV { goals: goals::completed(m.goals, id as u64, Some(result)), ..m },
            "task #"@ + text::dec(id) + " result from "@ + text::hex(sender),
        )
    }
}

impl MeshNode {
    /// A goal of a peer, with its tasks.
    fn handle_goal_broadcast(&mut self, r: &mut Reader, sender_id: NodeId)
        requires
            old(r).wf(),
            codec::canonical(old(r)@),
        ensures
            final(self)@ == on_goal(old(self)@, old(r)@, sender_id@),
    {
        match decode_goal_broadcast(r) {
            Some((goal, tasks)) => {
                let goal_id = goal.id;
                let ghost g = goal@;
                let is_new = self.goals.goal_slot(goal_id) >= self.goals.goals.len();
                let ghost v = self@.goals;
                self.goals.merge_goal(goal);
                self.merge_tasks(tasks);
                if is_new {
                    let k = self.goals.goal_slot(goal_id);
                    let mut msg = text("received goal #");
                    push_u64(&mut msg, goal_id);
                    msg.append(" from ");
                    push_hex(&mut msg, sender_id.as_slice());
                    msg.append(": ");
                    if k < self.goals.goals.len() {
                        assert(self@.goals.goals[k as int] == self.goals.goals@[k as int]@);
                        msg.append(self.goals.goals[k].description.as_str());
                    } else {
                        msg.append("?");
                    }
                    self.log_event(msg);
                }
            },
            None => {},
        }
    }

    /// Takes in the tasks of a goal heard of.
    fn merge_tasks(&mut self, tasks: Vec<Task>)
        ensures
            final(self)@ == (MeshV {
                goals: merged_tasks(old(self)@.goals, goals::task_views(tasks@)),
                ..old(self)@
            }),
    {
        let ghost ts = goals::task_views(tasks@);
        let mut i: usize = 0;
        assert(ts.take(0) =~= Seq::empty());
        while i < tasks.len()
            invariant
                i <= tasks@.len(),
                ts == goals::task_views(tasks@),
                self@ == (MeshV {
                    goals: merged_tasks(old(self)@.goals, ts.take(i as int)),
                    ..old(self)@
                }),
            decreases tasks@.len() - i,
        {
            assert(ts[i as int] == tasks@[i as int]@);
            self.goals.merge_task(tasks[i].clone());
            i = i + 1;
            assert(ts.take(i as int).drop_last() =~= ts.take(i - 1));
        }
        assert(ts.take(i as int) =~= ts);
    }

    /// The claim of a task by a peer.
    fn handle_task_claim(&mut self, r: &mut Reader, sender_id: NodeId)
        requires
            old(r).wf(),
        ensures
            final(self)@ == on_claim(old(self)@, old(r)@, sender_id@),
    {
        let id = r.read_u64();
        let _goal = r.read_u64();
        if !r.good() {
            return;
        }
        let k = self.goals.task_slot(id);
        if k < self.goals.tasks.len() {
            assert(self@.goals.tasks[k as int] == self.goals.tasks@[k as int]@);
            if self.goals.tasks[k].status == TaskStatus::Waiting {
                self.goals.take_task(k, sender_id);
                let mut msg = text("peer ");
                push_hex(&mut msg, sender_id.as_slice());
                msg.append(" claimed task #");
                push_u64(&mut msg, id);
                self.log_event(msg);
            }
        }
    }

    /// The result of a task that a peer has run.
    fn handle_task_result(&mut self, r: &mut Reader, sender_id: NodeId)
        requires
            old(r).wf(),
            codec::canonical(old(r)@),
        ensures
            final(self)@ == on_result(old(self)@, old(r)@, sender_id@),
    {
        let id = r.read_u64();
        let _goal = r.read_u64();
        let result = read_outcome(r);
        if !r.good() {
            return;
        }
        let _ = self.goals.complete_task(id, Some(result));
        let mut msg = text("task #");
        push_u64(&mut msg, id);
        msg.append(" result from ");
        push_hex(&mut msg, sender_id.as_slice());
        self.log_event(msg);
    }
}

// ---------------------------------------------------------------------------
// Words and replication
// ---------------------------------------------------------------------------

/// True if a word of this name has been received.
pub open spec fn has_word(s: Seq<(Seq<char>, Seq<u8>)>, name: Seq<char>) -> bool {
    exists|i: int| 0 <= i < s.len() && (#[trigger] s[i]).0 == name
}

/// The node after the definition of a word. A name is taken in once.
pub open spec fn on_word(m: MeshV, i: Input, sender: Seq<u8>) -> MeshV {
    let (name, i) = wire::get_text(i, 2);
    let (source, i) = wire::get_text(i, 2);
    if !i.ok || has_word(m.shared_words, name) {
        m
    } else {
        node::logged(
            MeshV {
                word_inbox: m.word_inbox.push(SharedV { name, source, origin: sender }),
                shared_words: m.shared_words.push((name, sender)),
                ..m
            },
            "received word '"@ + name + "' from "@ + text::hex(sender),
        )
    }
}

/// True if replication from `sender` needs no approval. The family of a unit is its parent, its
/// children and its siblings.
pub open spec fn trusts(m: MeshV, sender: Seq<u8>) -> bool {
    match m.trust {
        TrustLevel::All => true,
        TrustLevel::Mesh => node::has_peer(m.peers, sender),
        TrustLevel::Family => m.parent == Some(sender) || m.children.contains(sender)
            || m.siblings.contains(sender),
        TrustLevel::Nobody => false,
    }
}

/// How many requests come from one sender.
pub open spec fn requests_from(s: Seq<RequestV>, sender: Seq<u8>) -> nat
    decreases s.len(),
{
    if s.len() == 0 {
        0
    } else {
        requests_from(s.drop_last(), sender) + if s.last().sender == sender {
            1nat
        } else {
            0
        }
    }
}

/// The node with one more request to approve.
pub open spec fn requested(m: MeshV, q: RequestV) -> MeshV {
    MeshV { requests: m.requests.push(q), next_request: m.next_request.wrapping_add(1), ..m }
}

/// Takes a number of `k` bytes; 0 if there are not as many, and then nothing is taken.
pub open spec fn nat_or_zero(i: Input, k: int) -> (nat, Input) {
    if k <= i.rest.len() {
        wire::get_nat(i, k)
    } else {
        (0, i)
    }
}

/// Takes a signed number; 0 if there are not enough bytes, and then nothing is taken.
pub open spec fn int_or_zero(i: Input) -> (int, Input) {
    if 8 <= i.rest.len() {
        wire::get_int(i)
    } else {
        (0, i)
    }
}

/// What a request to replicate says. Parts that are missing are 0 or empty.
pub open spec fn get_request(i: Input, id: u32, sender: Seq<u8>, now: u64) -> RequestV {
    let (fitness, i) = int_or_zero(i);
    let (generation, i) = nat_or_zero(i, 4);
    let (size, i) = nat_or_zero(i, 8);
    let (len, i) = nat_or_zero(i, 2);
    RequestV {
        id,
        sender,
        fitness: fitness as i64,
        generation: generation as u32,
        size: size as u64,
        reason: if len <= i.rest.len() {
            wire::text_of(i.rest.take(len as int))
        } else {
            Seq::empty()
        },
        received_at: now,
    }
}

/// The most bytes of a package that is considered.
pub const MAX_PACKAGE: u64 = 100_000_000;

/// The event of a request that waits for approval.
pub open spec fn request_text(q: RequestV) -> Seq<char> {
    "[replication request #"@ + text::dec(q.id as nat) + " from "@ + text::hex(q.sender) + " (gen "@ + text::dec(
        q.generation as nat,
    ) + ", fitness "@ + text::dec_int(q.fitness as int) + ", "@ + text::dec((q.size / 1024) as nat)
        + "KB) \u{2014} ACCEPT or DENY]"@
}

/// The node after a request to replicate.
pub open spec fn on_request(m: MeshV, i: Input, sender: Seq<u8>, now: u64) -> MeshV {
    let q = get_request(i, m.next_request, sender, now);
    if q.size > MAX_PACKAGE {
        node::logged(
            m,
            "rejected oversized replication from "@ + text::hex(sender) + " ("@ + text::dec(
                (q.size / 1_000_000) as nat,
            ) + "MB)"@,
        )
    } else if trusts(m, sender) {
        let m1 = node::logged(
            m,
            "[auto-accepted from "@ + text::hex(sender) + " (trust: "@ + node::trust_label(m.trust) + ")]"@,
        );
        if node::has_peer(m.peers, sender) {
            node::posted(
                m1,
                m.peers[node::peer_at(m.peers, sender)].addr,
                message::header(MSG_REPLICATE_ACCEPT, m.id, m.port),
            )
        } else {
            m1
        }
    } else if requests_from(m.requests, sender) >= REQUESTS_PER_PEER {
        node::logged(m, "rate-limited replication from "@ + text::hex(sender))
    } else {
        node::logged(requested(m, q), request_text(q))
    }
}

impl MeshNode {
    /// The definition of a word from a peer.
    fn handle_word_share(&mut self, r: &mut Reader, sender_id: NodeId)
        requires
            old(r).wf(),
        ensures
            final(self)@ == on_word(old(self)@, old(r)@, sender_id@),
    {
        let name = r.read_string();
        let source = r.read_string();
        if !r.good() || self.has_shared(name.as_str()) {
            return;
        }
        let mut msg = text("received word '");
        msg.append(name.as_str());
        msg.append("' from ");
        push_hex(&mut msg, sender_id.as_slice());
        let ghost words = self@.word_inbox;
        let ghost names = self@.shared_words;
        let w = SharedWord { name: name.clone(), body_source: source, origin: sender_id };
        self.word_inbox.push(w);
        assert(self@.word_inbox =~= words.push(w@));
        let o = WordOrigin { name, origin: sender_id };
        self.shared_words.push(o);
        assert(self@.shared_words =~= names.push(o@));
        self.log_event(msg);
    }

    fn has_shared(&self, name: &str) -> (b: bool)
        ensures
            b == has_word(self@.shared_words, name@),
    {
        let mut i: usize = 0;
        while i < self.shared_words.len()
            invariant
                i <= self.shared_words@.len(),
                forall|j: int| 0 <= j < i ==> (#[trigger] self@.shared_words[j]).0 != name@,
            decreases self.shared_words@.len() - i,
        {
            assert(self@.shared_words[i as int] == self.shared_words@[i as int]@);
            if same_text(self.shared_words[i].name.as_str(), name) {
                return true;
            }
            i = i + 1;
        }
        false
    }

    /// Whether replication from `sender` needs no approval.
    pub fn should_auto_accept(&self, sender: &NodeId) -> (b: bool)
        ensures
            b == trusts(self@, sender@),
    {
        match self.trust_level {
            TrustLevel::All => true,
            TrustLevel::Mesh => peer_slot(&self.peers, sender) < self.peers.len(),
            TrustLevel::Family => {
                let relative = has_id(&self.children_ids, sender) || has_id(
                    &self.sibling_ids,
                    sender,
                );
                match &self.parent_id {
                    Some(p) => same_id(p, sender) || relative,
                    None => relative,
                }
            },
            TrustLevel::Nobody => false,
        }
    }

    /// How many requests come from one sender.
    fn count_requests(&self, sender: &NodeId) -> (n: usize)
        ensures
            n == requests_from(self@.requests, sender@),
    {
        let ghost rs = self@.requests;
        let mut n: usize = 0;
        let mut i: usize = 0;
        while i < self.pending_requests.len()
            invariant
                i <= self.pending_requests@.len(),
                rs == self@.requests,
                n <= i,
                n == requests_from(rs.take(i as int), sender@),
            decreases self.pending_requests@.len() - i,
        {
            assert(rs[i as int] == self.pending_requests@[i as int]@);
            if same_id(&self.pending_requests[i].sender_id, sender) {
                n = n + 1;
            }
            i = i + 1;
            assert(rs.take(i as int).drop_last() =~= rs.take(i - 1));
        }
        assert(rs.take(i as int) =~= rs);
        n
    }

    fn add_request(&mut self, q: ReplicationRequest)
        ensures
            final(self)@ == requested(old(self)@, q@),
    {
        let ghost before = self@.requests;
        self.next_request_id = self.next_request_id.wrapping_add(1);
        self.pending_requests.push(q);
        assert(self@.requests =~= before.push(q@));
    }

    /// Queues a replication request for approval, unless the sender has too many: its number, or 0.
    pub fn queue_request(
        &mut self,
        sender: NodeId,
        fitness: i64,
        generation: u32,
        size: u64,
        reason: String,
        now: u64,
    ) -> (id: u32)
        ensures
            ({
                let m = old(self)@;
                let q = RequestV {
                    id: m.next_request,
                    sender: sender@,
                    fitness,
                    generation,
                    size,
                    reason: reason@,
                    received_at: now,
                };
                if requests_from(m.requests, sender@) >= REQUESTS_PER_PEER {
                    id == 0 && final(self)@ == m
                } else {
                    id == m.next_request && final(self)@ == requested(m, q)
                }
            }),
    {
        if self.count_requests(&sender) >= REQUESTS_PER_PEER {
            return 0;
        }
        let id = self.next_request_id;
        self.add_request(
            ReplicationRequest {
                id,
                sender_id: sender,
                sender_fitness: fitness,
                sender_generation: generation,
                package_size: size,
                reason,
                received_at: now,
            },
        );
        id
    }

    /// A request to replicate: accepts it, queues it for approval, or turns it down.
    fn handle_replicate_request(&mut self, r: &mut Reader, sender_id: NodeId, now: u64)
        requires
            old(r).wf(),
            old(r)@.ok,
        ensures
            final(self)@ == on_request(old(self)@, old(r)@, sender_id@, now),
    {
        let q = read_request(r, self.next_request_id, sender_id, now);
        if q.package_size > MAX_PACKAGE {
            let mut msg = text("rejected oversized replication from ");
            push_hex(&mut msg, sender_id.as_slice());
            msg.append(" (");
            push_u64(&mut msg, q.package_size / 1_000_000);
            msg.append("MB)");
            self.log_event(msg);
            return;
        }
        if self.should_auto_accept(&sender_id) {
            let mut msg = text("[auto-accepted from ");
            push_hex(&mut msg, sender_id.as_slice());
            msg.append(" (trust: ");
            msg.append(self.trust_level.label());
            msg.append(")]");
            self.log_event(msg);
            let k = peer_slot(&self.peers, &sender_id);
            if k < self.peers.len() {
                assert(self@.peers[k as int] == self.peers@[k as int]@);
                let to = self.peers[k].addr.clone();
                let bytes = bare_message(MSG_REPLICATE_ACCEPT, &self.id, self.port);
                self.post(to, bytes);
            }
        } else if self.count_requests(&sender_id) >= REQUESTS_PER_PEER {
            let mut msg = text("rate-limited replication from ");
            push_hex(&mut msg, sender_id.as_slice());
            self.log_event(msg);
        } else {
            let msg = request_event(&q);
            self.add_request(q);
            self.log_event(msg);
        }
    }
}

fn request_event(q: &ReplicationRequest) -> (msg: String)
    ensures
        msg@ == request_text(q@),
{
    let mut msg = text("[replication request #");
    push_u64(&mut msg, q.id as u64);
    msg.append(" from ");
    push_hex(&mut msg, q.sender_id.as_slice());
    msg.append(" (gen ");
    push_u64(&mut msg, q.sender_generation as u64);
    msg.append(", fitness ");
    push_i64(&mut msg, q.sender_fitness);
    msg.append(", ");
    push_u64(&mut msg, q.package_size / 1024);
    msg.append("KB) \u{2014} ACCEPT or DENY]");
    msg
}

fn read_request(r: &mut Reader, id: u32, sender_id: NodeId, now: u64) -> (q: ReplicationRequest)
    requires
        old(r).wf(),
        old(r)@.ok,
    ensures
        q@ == get_request(old(r)@, id, sender_id@, now),
{
    let sender_fitness: i64 = if r.remaining() >= 8 {
        r.read_i64()
    } else {
        0
    };
    let sender_generation: u32 = if r.remaining() >= 4 {
        r.read_u32()
    } else {
        0
    };
    let package_size: u64 = if r.remaining() >= 8 {
        r.read_u64()
    } else {
        0
    };
    let len: u16 = if r.remaining() >= 2 {
        r.read_u16()
    } else {
        0
    };
    let reason = if r.remaining() >= len as usize {
        let b = r.read_bytes(len as usize);
        wire::from_lossy(&b)
    } else {
        let s = String::new();
        assert(s@ =~= Seq::<char>::empty());
        s
    };
    ReplicationRequest {
        id,
        sender_id,
        sender_fitness,
        sender_generation,
        package_size,
        reason,
        received_at: now,
    }
}

// ---------------------------------------------------------------------------
// Packets
// ---------------------------------------------------------------------------

/// The node after a message of the kind `kind` from a peer.
pub open spec fn on_message(
    m: MeshV,
    kind: u8,
    i: Input,
    sender: Seq<u8>,
    from: AddrV,
    now: u64,
) -> MeshV {
    if kind == MSG_HEARTBEAT {
        on_heartbeat(m, i, sender, from, now)
    } else if kind == MSG_PROPOSE {
        on_propose(m, i, sender, from)
    } else if kind == MSG_VOTE {
        on_vote(m, i, sender)
    } else if kind == MSG_COMMIT {
        on_commit(m, i, sender)
    } else if kind == MSG_REJECT {
        on_reject(m, i, sender)
    } else if kind == MSG_DATA {
        on_data(m, i, sender)
    } else if kind == MSG_GOAL_BROADCAST {
        on_goal(m, i, sender)
    } else if kind == MSG_TASK_CLAIM {
        on_claim(m, i, sender)
    } else if kind == MSG_TASK_RESULT {
        on_result(m, i, sender)
    } else if kind == MSG_WORD_SHARE {
        on_word(m, i, sender)
    } else if kind == MSG_SPAWN_INTENT {
        node::logged(MeshV { spawn_intent: true, ..m }, "spawn intent from "@ + text::hex(sender))
    } else if kind == MSG_CULL_INTENT {
        node::logged(MeshV { cull_intent: true, ..m }, "cull intent from "@ + text::hex(sender))
    } else if kind == MSG_REPLICATE_REQUEST {
        on_request(m, i, sender, now)
    } else if kind == MSG_REPLICATE_ACCEPT {
        node::logged(m, "replication "@ + "accepted"@ + " by "@ + text::hex(sender))
    } else if kind == MSG_REPLICATE_DENY {
        node::logged(m, "replication "@ + "denied"@ + " by "@ + text::hex(sender))
    } else {
        m
    }
}

/// The node after a packet. Its own packets, and what is no packet, change nothing.
pub open spec fn on_packet(m: MeshV, data: Seq<u8>, from: AddrV, now: u64) -> MeshV {
    let (kind, sender, port, i) = message::get_header(wire::input(data));
    if !i.ok || sender == m.id {
        m
    } else {
        on_message(m, kind as u8, i, sender, message::at_port(from, port as u16), now)
    }
}

/// The node after a packet on the discovery port. A beacon of an unknown unit makes it a peer.
pub open spec fn on_beacon(m: MeshV, data: Seq<u8>, ip: u32, now: u64) -> MeshV {
    let (kind, sender, port, i) = message::get_header(wire::input(data));
    let addr = AddrV::V4 { ip, port: port as u16 };
    if !i.ok || kind != MSG_DISCOVERY_BEACON || sender == m.id || node::has_peer(m.peers, sender) {
        m
    } else {
        node::logged(
            MeshV { peers: node::put_peer(m.peers, node::stranger(sender, addr, now)), ..m },
            "discovered "@ + text::hex(sender) + " via beacon @ "@ + message::addr_text(addr),
        )
    }
}

impl MeshNode {
    fn replication_event(&mut self, result: &str, sender: &NodeId)
        ensures
            final(self)@ == node::logged(
                old(self)@,
                "replication "@ + result@ + " by "@ + text::hex(sender@),
            ),
    {
        let mut msg = text("replication ");
        msg.append(result);
        msg.append(" by ");
        push_hex(&mut msg, sender.as_slice());
        self.log_event(msg);
    }

    fn intent_event(&mut self, what: &str, sender: &NodeId)
        ensures
            final(self)@ == node::logged(old(self)@, what@ + text::hex(sender@)),
    {
        let mut msg = text(what);
        push_hex(&mut msg, sender.as_slice());
        self.log_event(msg);
    }

    /// A packet that has arrived from the address `src`.
    pub fn handle_packet(&mut self, data: &[u8], src: &Addr, now: u64)
        ensures
            final(self)@ == on_packet(old(self)@, data@, src@, now),
    {
        let mut r = Reader::new(data);
        let (kind, sender, port) = decode_header(&mut r);
        if !r.good() || same_id(&sender, &self.id) {
            return;
        }
        let from = src.with_port(port);
        if kind == MSG_HEARTBEAT {
            self.handle_heartbeat(&mut r, sender, from, now);
        } else if kind == MSG_PROPOSE {
            self.handle_propose(&mut r, sender, from);
        } else if kind == MSG_VOTE {
            self.handle_vote(&mut r, sender);
        } else if kind == MSG_COMMIT {
            self.handle_commit(&mut r, sender);
        } else if kind == MSG_REJECT {
            self.handle_reject(&mut r, sender);
        } else if kind == MSG_DATA {
            self.handle_data(&mut r, sender);
        } else if kind == MSG_GOAL_BROADCAST {
            self.handle_goal_broadcast(&mut r, sender);
        } else if kind == MSG_TASK_CLAIM {
            self.handle_task_claim(&mut r, sender);
        } else if kind == MSG_TASK_RESULT {
            self.handle_task_result(&mut r, sender);
        } else if kind == MSG_WORD_SHARE {
            self.handle_word_share(&mut r, sender);
        } else if kind == MSG_SPAWN_INTENT {
            self.spawn_intent_active = true;
            self.intent_event("spawn intent from ", &sender);
        } else if kind == MSG_CULL_INTENT {
            self.cull_intent_active = true;
            self.intent_event("cull intent from ", &sender);
        } else if kind == MSG_REPLICATE_REQUEST {
            self.handle_replicate_request(&mut r, sender, now);
        } else if kind == MSG_REPLICATE_ACCEPT {
            self.replication_event("accepted", &sender);
        } else if kind == MSG_REPLICATE_DENY {
            self.replication_event("denied", &sender);
        }
    }

    /// A packet that has arrived on the discovery port from the host `ip`.
    pub fn handle_beacon(&mut self, data: &[u8], ip: u32, now: u64)
        ensures
            final(self)@ == on_beacon(old(self)@, data@, ip, now),
    {
        let mut r = Reader::new(data);
        let (kind, sender, port) = decode_header(&mut r);
        if !r.good() || kind != MSG_DISCOVERY_BEACON || same_id(&sender, &self.id) {
            return;
        }
        if peer_slot(&self.peers, &sender) >= self.peers.len() {
            let addr = Addr::V4 { ip, port };
            let mut msg = text("discovered ");
            push_hex(&mut msg, sender.as_slice());
            msg.append(" via beacon @ ");
            msg.append(addr.to_text().as_str());
            insert_peer(&mut self.peers, new_peer(sender, addr, now));
            self.log_event(msg);
        }
    }
}

} // verus!
