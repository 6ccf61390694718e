//! What a node does of its own accord: proposals, heartbeats, and forgetting peers.

use crate::goals;
use crate::goals::TaskStatus;
use crate::mesh::message;
use crate::mesh::message::{
    bare_message, commit_message, numbered_message, proposal_message, Addr, AddrV,
    DISCOVERY_PORT, LOCALHOST, MSG_DISCOVERY_BEACON, MSG_HEARTBEAT, MSG_REJECT,
};
use crate::mesh::node;
use crate::mesh::node::{
    copy_bytes, elapsed_since, insert_proposal, proposal_slot, push_hex16, remove_proposal,
    MeshNode, MeshV, PeerV, Proposal, ProposalV, DISCOVERY_INTERVAL, HEARTBEAT_INTERVAL,
    MAX_GOSSIP_PEERS, PEER_TIMEOUT, PROPOSAL_COOLDOWN, PROPOSAL_TIMEOUT,
};
use crate::text;
use crate::text::{push_hex, push_u64, push_usize, text};
use crate::wire;
use crate::wire::{same_id, write_i64, write_u16, write_u32, write_u8};
use vstd::prelude::*;

verus! {

// ---------------------------------------------------------------------------
// Proposing
// ---------------------------------------------------------------------------

/// True while the pause after the last proposal lasts.
pub open spec fn cooling(m: MeshV, now: u64) -> bool {
    m.last_proposal matches Some(t) && node::since(t, now) < PROPOSAL_COOLDOWN
}

/// True of a proposal that may still be voted on.
pub open spec fn open_vote(p: ProposalV, now: u64) -> bool {
    !p.committed && node::since(p.started, now) < PROPOSAL_TIMEOUT
}

/// True if the node has a proposal that may still be voted on.
pub open spec fn proposing(m: MeshV, now: u64) -> bool {
    exists|i: int|
        0 <= i < m.proposals.len() && (#[trigger] m.proposals[i]).proposer == m.id && open_vote(
            m.proposals[i],
            now,
        )
}

/// Why the node may not propose now, if it may not.
pub open spec fn proposal_refusal(m: MeshV, now: u64) -> Option<Seq<char>> {
    if cooling(m, now) {
        Some(
            "cooldown: wait "@ + text::dec(
                ((PROPOSAL_COOLDOWN - node::since(m.last_proposal->0, now)) / 1000) as nat,
            ) + "s"@,
        )
    } else if proposing(m, now) {
        Some("already have an active proposal"@)
    } else if m.peers.len() == 0 {
        Some("no peers to vote"@)
    } else {
        None
    }
}

/// The node after it has proposed replication.
pub open spec fn proposed(m: MeshV, reason: Seq<char>, state: Seq<u8>, now: u64, n: u64) -> MeshV {
    let p = ProposalV {
        id: n,
        proposer: m.id,
        reason,
        yes: Seq::empty(),
        no: Seq::empty(),
        started: now,
        total: m.peers.len() as usize,
        committed: false,
        state: Some(state),
    };
    let m1 = MeshV { proposals: node::put_proposal(m.proposals, p), ..m };
    node::sent(
        node::logged(m1, "proposed replication #"@ + node::hex16(n) + ": "@ + reason),
        message::proposal_bytes(m.id, m.port, n, reason),
    )
}

impl MeshNode {
    fn has_own_proposal(&self, now: u64) -> (b: bool)
        ensures
            b == proposing(self@, now),
    {
        let mut i: usize = 0;
        while i < self.proposals.len()
            invariant
                i <= self.proposals@.len(),
                forall|j: int|
                    0 <= j < i ==> !((#[trigger] self@.proposals[j]).proposer == self@.id
                        && open_vote(self@.proposals[j], now)),
            decreases self.proposals@.len() - i,
        {
            assert(self@.proposals[i as int] == self.proposals@[i as int]@);
            if same_id(&self.proposals[i].proposer, &self.id) && !self.proposals[i].committed
                && elapsed_since(self.proposals[i].started, now) < PROPOSAL_TIMEOUT {
                return true;
            }
            i = i + 1;
        }
        false
    }

    /// Proposes replication to all peers. `proposal_id` is a number that no proposal has had.
    pub fn propose_replicate(
        &mut self,
        reason: &str,
        state_bytes: Vec<u8>,
        now: u64,
        proposal_id: u64,
    ) -> (r: Result<(), String>)
        ensures
            match proposal_refusal(old(self)@, now) {
                Some(e) => r is Err && r->Err_0@ == e && final(self)@ == old(self)@,
                None => r is Ok && final(self)@ == proposed(
                    old(self)@,
                    reason@,
                    state_bytes@,
                    now,
                    proposal_id,
                ),
            },
    {
        if let Some(t) = self.last_proposal_time {
            let d = elapsed_since(t, now);
            if d < PROPOSAL_COOLDOWN {
                let mut e = text("cooldown: wait ");
                push_u64(&mut e, (PROPOSAL_COOLDOWN - d) / 1000);
                e.append("s");
                return Err(e);
            }
        }
        if self.has_own_proposal(now) {
            return Err(text("already have an active proposal"));
        }
        if self.peers.len() == 0 {
            return Err(text("no peers to vote"));
        }
        let p = Proposal {
            id: proposal_id,
            proposer: self.id,
            reason: text(reason),
            votes_yes: Vec::new(),
            votes_no: Vec::new(),
            started: now,
            total_peers_at_start: self.peers.len(),
            committed: false,
            state_bytes: Some(state_bytes),
        };
        assert(p@.yes =~= Seq::<Seq<u8>>::empty());
        assert(p@.no =~= Seq::<Seq<u8>>::empty());
        insert_proposal(&mut self.proposals, p);
        let mut msg = text("proposed replication #");
        push_hex16(&mut msg, proposal_id);
        msg.append(": ");
        msg.append(reason);
        self.log_event(msg);
        let bytes = proposal_message(&self.id, self.port, proposal_id, reason);
        self.broadcast(&bytes);
        Ok(())
    }
}

// ---------------------------------------------------------------------------
// Deciding
// ---------------------------------------------------------------------------

/// How many votes a proposal needs: more than half of the peers it was made to.
pub open spec fn quorum(total: usize) -> int {
    total / 2 + 1
}

/// What becomes of a proposal.
pub enum Verdict {
    /// Nothing yet.
    Wait,
    /// A proposal of another unit that has been heard of too long ago.
    Forget,
    /// Enough votes for it.
    Commit,
    /// Too many votes against it.
    Reject,
    /// Too few votes in time.
    Expire,
}

/// What becomes of a proposal.
pub open spec fn verdict(p: ProposalV, me: Seq<u8>, now: u64) -> Verdict {
    if p.committed {
        Verdict::Wait
    } else if p.proposer != me {
        if node::since(p.started, now) > 2 * PROPOSAL_TIMEOUT {
            Verdict::Forget
        } else {
            Verdict::Wait
        }
    } else if p.yes.len() >= quorum(p.total) {
        Verdict::Commit
    } else if p.no.len() > p.total / 2 {
        Verdict::Reject
    } else if node::since(p.started, now) > PROPOSAL_TIMEOUT {
        Verdict::Expire
    } else {
        Verdict::Wait
    }
}

/// The node after a proposal has got its votes.
pub open spec fn committed(m: MeshV, k: int, now: u64) -> MeshV {
    let p = m.proposals[k];
    let m1 = node::logged(
        m,
        "quorum reached for #"@ + node::hex16(p.id) + " ("@ + text::dec(p.yes.len()) + "/"@ + text::dec(p.total as nat)
            + ")"@,
    );
    let m2 = MeshV {
        proposals: m1.proposals.update(k, ProposalV { committed: true, ..p }),
        last_proposal: Some(now),
        ..m1
    };
    match p.state {
        Some(s) => node::sent(m2, message::commit_bytes(m.id, m.port, p.id, s)),
        None => m2,
    }
}

/// The node after a proposal has ended without success.
pub open spec fn dropped(m: MeshV, n: u64, why: Seq<char>, now: u64) -> MeshV {
    let m1 = node::logged(m, why);
    node::sent(
        MeshV {
            proposals: node::drop_proposal(m1.proposals, n),
            last_proposal: Some(now),
            ..m1
        },
        message::numbered(MSG_REJECT, m.id, m.port, n),
    )
}

/// The event of a proposal that was turned down.
pub open spec fn reject_text(p: ProposalV) -> Seq<char> {
    "proposal #"@ + node::hex16(p.id) + " rejected ("@ + text::dec(p.no.len()) + " NO votes)"@
}

/// The event of a proposal without enough votes in time.
pub open spec fn expire_text(p: ProposalV) -> Seq<char> {
    "proposal #"@ + node::hex16(p.id) + " timed out (yes="@ + text::dec(p.yes.len()) + ", no="@ + text::dec(
        p.no.len(),
    ) + ", needed="@ + text::dec(quorum(p.total) as nat) + ")"@
}

/// The node after it has looked at the proposal with the number `n`.
pub open spec fn checked(m: MeshV, n: u64, now: u64) -> MeshV {
    let k = node::proposal_at(m.proposals, n);
    let p = m.proposals[k];
    if !node::has_proposal(m.proposals, n) {
        m
    } else {
        match verdict(p, m.id, now) {
            Verdict::Wait => m,
            Verdict::Forget => MeshV { proposals: node::drop_proposal(m.proposals, n), ..m },
            Verdict::Commit => committed(m, k, now),
            Verdict::Reject => dropped(m, n, reject_text(p), now),
            Verdict::Expire => dropped(m, n, expire_text(p), now),
        }
    }
}

/// The node after it has looked at these proposals in turn.
pub open spec fn all_checked(m: MeshV, ids: Seq<u64>, now: u64) -> MeshV
    decreases ids.len(),
{
    if ids.len() == 0 {
        m
    } else {
        checked(all_checked(m, ids.drop_last(), now), ids.last(), now)
    }
}

/// The numbers of proposals.
pub open spec fn proposal_ids(s: Seq<ProposalV>) -> Seq<u64> {
    Seq::new(s.len(), |i: int| s[i].id)
}

impl MeshNode {
    fn commit_proposal(&mut self, k: usize, now: u64)
        requires
            k < old(self).proposals@.len(),
        ensures
            final(self)@ == committed(old(self)@, k as int, now),
    {
        let ghost m = self@;
        assert(m.proposals[k as int] == self.proposals@[k as int]@);
        let pid = self.proposals[k].id;
        let mut msg = text("quorum reached for #");
        push_hex16(&mut msg, pid);
        msg.append(" (");
        push_usize(&mut msg, self.proposals[k].votes_yes.len());
        msg.append("/");
        push_usize(&mut msg, self.proposals[k].total_peers_at_start);
        msg.append(")");
        let state: Option<Vec<u8>> = match &self.proposals[k].state_bytes {
            Some(b) => Some(copy_bytes(b)),
            None => None,
        };
        self.proposals[k].committed = true;
        assert(self@.proposals =~= m.proposals.update(
            k as int,
            ProposalV { committed: true, ..m.proposals[k as int] },
        ));
        self.last_proposal_time = Some(now);
        self.log_event(msg);
        match state {
            Some(b) => {
                let bytes = commit_message(&self.id, self.port, pid, &b);
                self.broadcast(&bytes);
            },
            None => {},
        }
    }

    fn end_proposal(&mut self, n: u64, why: String, now: u64)
        ensures
            final(self)@ == dropped(old(self)@, n, why@, now),
    {
        self.log_event(why);
        remove_proposal(&mut self.proposals, n);
        self.last_proposal_time = Some(now);
        let bytes = numbered_message(MSG_REJECT, &self.id, self.port, n);
        self.broadcast(&bytes);
    }

    /// Looks at one proposal.
    fn check_proposal(&mut self, n: u64, now: u64)
        ensures
            final(self)@ == checked(old(self)@, n, now),
    {
        let k = proposal_slot(&self.proposals, n);
        if k >= self.proposals.len() {
            return;
        }
        proof {
            assert(self@.proposals[k as int] == self.proposals@[k as int]@);
            lemma_proposal_at(self@.proposals, n, 0);
        }
        if self.proposals[k].committed {
            return;
        }
        let age = elapsed_since(self.proposals[k].started, now);
        if !same_id(&self.proposals[k].proposer, &self.id) {
            if age > 2 * PROPOSAL_TIMEOUT {
                remove_proposal(&mut self.proposals, n);
            }
            return;
        }
        let total = self.proposals[k].total_peers_at_start;
        let needed: usize = total / 2 + 1;
        let yes = self.proposals[k].votes_yes.len();
        let no = self.proposals[k].votes_no.len();
        if yes >= needed {
            self.commit_proposal(k, now);
        } else if no > total / 2 {
            let mut msg = text("proposal #");
            push_hex16(&mut msg, n);
            msg.append(" rejected (");
            push_usize(&mut msg, no);
            msg.append(" NO votes)");
            self.end_proposal(n, msg, now);
        } else if age > PROPOSAL_TIMEOUT {
            let mut msg = text("proposal #");
            push_hex16(&mut msg, n);
            msg.append(" timed out (yes=");
            push_usize(&mut msg, yes);
            msg.append(", no=");
            push_usize(&mut msg, no);
            msg.append(", needed=");
            push_usize(&mut msg, needed);
            msg.append(")");
            self.end_proposal(n, msg, now);
        }
    }

    /// Looks at all proposals: commits those with enough votes, and drops those that were turned
    /// down or have run out of time.
    pub fn check_proposals(&mut self, now: u64)
        ensures
            final(self)@ == all_checked(
                old(self)@,
                proposal_ids(old(self)@.proposals),
                now,
            ),
    {
        let mut ids: Vec<u64> = Vec::new();
        let ghost all = proposal_ids(self@.proposals);
        let mut i: usize = 0;
        while i < self.proposals.len()
            invariant
                i <= self.proposals@.len(),
                self == old(self),
                all == proposal_ids(self@.proposals),
                ids@ == all.take(i as int),
            decreases self.proposals@.len() - i,
        {
            ids.push(self.proposals[i].id);
            i = i + 1;
            assert(ids@ =~= all.take(i as int));
        }
        assert(ids@ =~= all);
        let mut k: usize = 0;
        assert(all.take(0) =~= Seq::empty());
        while k < ids.len()
            invariant
                k <= ids@.len(),
                ids@ == all,
                self@ == all_checked(old(self)@, all.take(k as int), now),
            decreases ids@.len() - k,
        {
            self.check_proposal(ids[k], now);
            k = k + 1;
            assert(all.take(k as int).drop_last() =~= all.take(k - 1));
        }
        assert(all.take(k as int) =~= all);
    }
}

proof fn lemma_proposal_at(s: Seq<ProposalV>, n: u64, i: int)
    requires
        0 <= i <= s.len(),
    ensures
        i <= node::proposal_from(s, n, i) <= s.len(),
        node::proposal_from(s, n, i) < s.len() ==> s[node::proposal_from(s, n, i)].id == n,
    decreases s.len() - i,
{
    if i < s.len() && s[i].id != n {
        lemma_proposal_at(s, n, i + 1);
    }
}

/// A proposal is committed only with the votes of more than half of the peers it was made to.
pub proof fn law_commit_needs_majority(p: ProposalV, me: Seq<u8>, now: u64)
    requires
        verdict(p, me, now) is Commit,
    ensures
        2 * p.yes.len() > p.total,
        p.proposer == me,
        !p.committed,
{
}

/// No further vote against a proposal takes its quorum away, and no further vote for it lets one
/// that was turned down pass, if each peer votes once: the two verdicts exclude each other.
pub proof fn law_quorum_excludes_rejection(p: ProposalV)
    requires
        p.yes.no_duplicates(),
        p.no.no_duplicates(),
        p.yes.len() + p.no.len() <= p.total,
    ensures
        !(p.yes.len() >= quorum(p.total) && p.no.len() > p.total / 2),
{
}

/// A vote counts once, however often it arrives, and votes never disappear.
pub proof fn law_votes_count_once(s: Seq<Seq<u8>>, id: Seq<u8>)
    requires
        s.no_duplicates(),
    ensures
        node::with_vote(s, id).no_duplicates(),
        node::with_vote(s, id).contains(id),
        node::with_vote(node::with_vote(s, id), id) == node::with_vote(s, id),
        s.len() <= node::with_vote(s, id).len() <= s.len() + 1,
        forall|x: Seq<u8>| s.contains(x) ==> node::with_vote(s, id).contains(x),
{
    let r = node::with_vote(s, id);
    if !s.contains(id) {
        assert(r[s.len() as int] == id);
        assert forall|x: Seq<u8>| s.contains(x) implies r.contains(x) by {
            let i = choose|i: int| 0 <= i < s.len() && s[i] == x;
            assert(r[i] == x);
        }
    }
}

// ---------------------------------------------------------------------------
// Heartbeats
// ---------------------------------------------------------------------------

/// One address of a heartbeat. Addresses of the sixth version are left out.
pub open spec fn w_addr(a: AddrV) -> Seq<u8> {
    match a {
        AddrV::V4 { ip, port } => wire::w32(ip as nat) + wire::w16(port as nat),
        AddrV::V6 { .. } => Seq::empty(),
    }
}

/// The addresses of peers in a row.
pub open spec fn w_addrs(s: Seq<PeerV>) -> Seq<u8>
    decreases s.len(),
{
    if s.len() == 0 {
        Seq::empty()
    } else {
        w_addrs(s.drop_last()) + w_addr(s.last().addr)
    }
}

/// The peers that a heartbeat speaks of.
pub open spec fn gossip(peers: Seq<PeerV>) -> Seq<PeerV> {
    if peers.len() > MAX_GOSSIP_PEERS {
        peers.take(MAX_GOSSIP_PEERS as int)
    } else {
        peers
    }
}

/// A heartbeat.
pub open spec fn heartbeat_bytes(m: MeshV) -> Seq<u8> {
    message::header(MSG_HEARTBEAT, m.id, m.port) + wire::w32(m.load as nat) + wire::w32(m.capacity as nat) + wire::w16(
        m.peers.len(),
    ) + wire::w8(gossip(m.peers).len() as int) + w_addrs(gossip(m.peers)) + wire::wi64(m.fitness as int)
}

/// True if the goals call for more units: more tasks wait than there are units, and no proposal
/// is under way.
pub open spec fn overloaded(m: MeshV, now: u64) -> bool {
    &&& !m.replicate_needed
    &&& goals::tasks_in(m.goals.tasks, TaskStatus::Waiting) > m.peers.len() + 1
    &&& !cooling(m, now)
    &&& forall|i: int| 0 <= i < m.proposals.len() ==> !open_vote(#[trigger] m.proposals[i], now)
}

/// The node after it has compared the waiting tasks with the units.
pub open spec fn load_checked(m: MeshV, now: u64) -> MeshV {
    if overloaded(m, now) {
        node::logged(
            MeshV { replicate_needed: true, ..m },
            "auto-replicate triggered: "@ + text::dec(goals::tasks_in(m.goals.tasks, TaskStatus::Waiting))
                + " pending tasks, "@ + text::dec(m.peers.len() + 1) + " units"@,
        )
    } else {
        m
    }
}

/// The node after it has forgotten those of its first `n` peers that have not been heard.
pub open spec fn pruned(m: MeshV, n: int, now: u64) -> MeshV
    decreases n,
{
    if n <= 0 {
        MeshV { peers: Seq::empty(), ..m }
    } else {
        let r = pruned(m, n - 1, now);
        let p = m.peers[n - 1];
        if node::since(p.last_seen, now) > PEER_TIMEOUT {
            node::logged(r, "peer "@ + text::hex(p.id) + " timed out"@)
        } else {
            MeshV { peers: r.peers.push(p), ..r }
        }
    }
}

impl MeshNode {
    /// Sends a heartbeat to all peers.
    pub fn send_heartbeat(&mut self)
        ensures
            final(self)@ == node::sent(old(self)@, heartbeat_bytes(old(self)@)),
    {
        let mut buf = bare_message(MSG_HEARTBEAT, &self.id, self.port);
        write_u32(&mut buf, self.load);
        write_u32(&mut buf, self.capacity);
        wire::write_len16(&mut buf, self.peers.len());
        let n: usize = if self.peers.len() > MAX_GOSSIP_PEERS {
            MAX_GOSSIP_PEERS
        } else {
            self.peers.len()
        };
        let ghost g = gossip(self@.peers);
        assert(g.len() == n);
        write_u8(&mut buf, n as u8);
        let ghost start = buf@;
        let mut i: usize = 0;
        assert(buf@ =~= start + w_addrs(g.take(0)));
        while i < n
            invariant
                i <= n <= self.peers@.len(),
                self == old(self),
                g == gossip(self@.peers),
                g.len() == n,
                buf@ == start + w_addrs(g.take(i as int)),
            decreases n - i,
        {
            assert(g[i as int] == self.peers@[i as int]@);
            let ghost before = buf@;
            match &self.peers[i].addr {
                Addr::V4 { ip, port } => {
                    write_u32(&mut buf, *ip);
                    write_u16(&mut buf, *port);
                },
                Addr::V6 { .. } => {},
            }
            assert(buf@ =~= before + w_addr(g[i as int].addr));
            i = i + 1;
            assert(g.take(i as int).drop_last() =~= g.take(i - 1));
            assert(buf@ =~= start + w_addrs(g.take(i as int)));
        }
        assert(g.take(i as int) =~= g);
        write_i64(&mut buf, self.fitness);
        self.broadcast(&buf);
    }

    /// Sends a beacon to the discovery port, unless discovery is off.
    pub fn send_discovery_beacon(&mut self)
        ensures
            final(self)@ == announced(old(self)@),
    {
        if self.auto_discover {
            let bytes = bare_message(MSG_DISCOVERY_BEACON, &self.id, self.port);
            self.post(Addr::V4 { ip: LOCALHOST, port: DISCOVERY_PORT }, bytes);
        }
    }

    fn has_open_vote(&self, now: u64) -> (b: bool)
        ensures
            b == !(forall|i: int|
                0 <= i < self@.proposals.len() ==> !open_vote(#[trigger] self@.proposals[i], now)),
    {
        let mut i: usize = 0;
        while i < self.proposals.len()
            invariant
                i <= self.proposals@.len(),
                forall|j: int| 0 <= j < i ==> !open_vote(#[trigger] self@.proposals[j], now),
            decreases self.proposals@.len() - i,
        {
            assert(self@.proposals[i as int] == self.proposals@[i as int]@);
            if !self.proposals[i].committed && elapsed_since(self.proposals[i].started, now)
                < PROPOSAL_TIMEOUT {
                assert(open_vote(self@.proposals[i as int], now));
                return true;
            }
            i = i + 1;
        }
        false
    }

    /// Notes that more units are needed if more tasks wait than there are units.
    pub fn check_auto_replication(&mut self, now: u64)
        ensures
            final(self)@ == load_checked(old(self)@, now),
    {
        if self.auto_replicate_needed {
            return;
        }
        let pending = self.goals.pending_task_count();
        if self.peers.len() >= pending || pending - self.peers.len() <= 1 {
            return;
        }
        if let Some(t) = self.last_proposal_time {
            if elapsed_since(t, now) < PROPOSAL_COOLDOWN {
                return;
            }
        }
        if !self.has_open_vote(now) {
            self.auto_replicate_needed = true;
            let mut msg = text("auto-replicate triggered: ");
            push_usize(&mut msg, pending);
            msg.append(" pending tasks, ");
            push_usize(&mut msg, self.peers.len() + 1);
            msg.append(" units");
            self.log_event(msg);
        }
    }

    /// Forgets the peer at position `i`.
    fn forget_peer(&mut self, i: usize)
        requires
            i < old(self).peers@.len(),
        ensures
            final(self)@ == node::logged(
                MeshV { peers: old(self)@.peers.remove(i as int), ..old(self)@ },
                "peer "@ + text::hex(old(self)@.peers[i as int].id) + " timed out"@,
            ),
    {
        assert(self@.peers[i as int] == self.peers@[i as int]@);
        let p = self.peers.remove(i);
        assert(self@.peers =~= old(self)@.peers.remove(i as int));
        let mut msg = text("peer ");
        push_hex(&mut msg, p.id.as_slice());
        msg.append(" timed out");
        self.log_event(msg);
    }

    /// Forgets the peers that have not been heard for too long.
    #[verifier::spinoff_prover]
    #[verifier::rlimit(50)]
    pub fn prune_peers(&mut self, now: u64)
        ensures
            final(self)@ == pruned(old(self)@, old(self)@.peers.len() as int, now),
    {
        let ghost m = self@;
        let ghost mut k: int = 0;
        let mut i: usize = 0;
        assert(m.peers.skip(0) =~= m.peers);
        assert(Seq::<PeerV>::empty() + m.peers =~= m.peers);
        while i < self.peers.len()
            invariant
                0 <= k <= m.peers.len(),
                i == pruned(m, k, now).peers.len(),
                self@ == (MeshV {
                    peers: pruned(m, k, now).peers + m.peers.skip(k),
                    ..pruned(m, k, now)
                }),
            decreases m.peers.len() - k,
        {
            let ghost r = pruned(m, k, now);
            let ghost before = self@;
            assert(before.peers[i as int] == self.peers@[i as int]@);
            assert(before.peers[i as int] == m.peers[k]);
            if elapsed_since(self.peers[i].last_seen, now) > PEER_TIMEOUT {
                self.forget_peer(i);
                assert(before.peers.remove(i as int) =~= r.peers + m.peers.skip(k + 1));
            } else {
                i = i + 1;
                assert(r.peers + m.peers.skip(k) =~= r.peers.push(m.peers[k]) + m.peers.skip(
                    k + 1,
                ));
            }
            proof {
                k = k + 1;
            }
        }
        assert(self@.peers =~= pruned(m, k, now).peers);
    }
}

// ---------------------------------------------------------------------------
// The schedule
// ---------------------------------------------------------------------------

/// The node after one turn: a heartbeat if it is time, then proposals, stale peers and load.
/// `last` is when the last heartbeat was sent.
pub open spec fn ticked(m: MeshV, last: Option<u64>, now: u64) -> MeshV {
    let m1 = if beats(last, now) {
        node::sent(m, heartbeat_bytes(m))
    } else {
        m
    };
    let m2 = all_checked(m1, proposal_ids(m1.proposals), now);
    load_checked(pruned(m2, m2.peers.len() as int, now), now)
}

/// The node after it has announced itself with a beacon, unless discovery is off.
pub open spec fn announced(m: MeshV) -> MeshV {
    if m.auto_discover {
        node::posted(
            m,
            AddrV::V4 { ip: LOCALHOST, port: DISCOVERY_PORT },
            message::header(MSG_DISCOVERY_BEACON, m.id, m.port),
        )
    } else {
        m
    }
}

/// True when a beacon is due. `last` is when the one before was due.
pub open spec fn beacon_due(last: u64, now: u64) -> bool {
    node::since(last, now) >= DISCOVERY_INTERVAL
}

/// The node after a turn of discovery: a beacon if it is time.
pub open spec fn beaconed(m: MeshV, last: u64, now: u64) -> MeshV {
    if beacon_due(last, now) {
        announced(m)
    } else {
        m
    }
}

/// True when a heartbeat is due.
pub open spec fn beats(last: Option<u64>, now: u64) -> bool {
    last matches Some(t) ==> node::since(t, now) >= HEARTBEAT_INTERVAL
}

impl MeshNode {
    /// One turn of the node, after packets have been handled: when the last heartbeat was sent.
    pub fn tick(&mut self, last: Option<u64>, now: u64) -> (sent_at: Option<u64>)
        ensures
            final(self)@ == ticked(old(self)@, last, now),
            sent_at == (if beats(last, now) {
                Some(now)
            } else {
                last
            }),
    {
        let due = match last {
            Some(t) => elapsed_since(t, now) >= HEARTBEAT_INTERVAL,
            None => true,
        };
        if due {
            self.send_heartbeat();
        }
        self.check_proposals(now);
        self.prune_peers(now);
        self.check_auto_replication(now);
        if due {
            Some(now)
        } else {
            last
        }
    }

    /// The part of a turn that announces the node: when the last beacon was due. `last` is when the
    /// one before was due, at first when the node started.
    pub fn beacon_tick(&mut self, last: u64, now: u64) -> (due_at: u64)
        ensures
            final(self)@ == beaconed(old(self)@, last, now),
            due_at == (if beacon_due(last, now) {
                now
            } else {
                last
            }),
            !beacon_due(due_at, now),
    {
        if elapsed_since(last, now) >= DISCOVERY_INTERVAL {
            self.send_discovery_beacon();
            now
        } else {
            last
        }
    }
}

} // verus!
