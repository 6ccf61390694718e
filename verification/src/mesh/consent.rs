//! Approval of replication, the size of the swarm, and what a node shows of itself.

use crate::mesh::gossip;
use crate::mesh::message;
use crate::mesh::node;
use crate::mesh::node::{
    elapsed_since, push_hex16, LogV, MeshNode, MeshV, PeerV, ProposalV, ReplicationLogEntry,
    ReplicationRequest, RequestV, LOG_KEPT, REQUESTS_PER_PEER,
};
use crate::goals;
use crate::goals::TaskStatus;
use crate::num;
use crate::text;
use crate::text::{push_hex, push_i64, push_u64, push_usize, text};
use crate::wire::NodeId;
use vstd::prelude::*;

verus! {

/// How long a request waits for approval, in seconds.
pub const REQUEST_SECONDS: u64 = 60;

/// The most entries of the replication log that are shown.
pub const LOG_SHOWN: usize = 20;

// ---------------------------------------------------------------------------
// Requests
// ---------------------------------------------------------------------------

/// The log entry for an answered request.
pub open spec fn answered(q: RequestV, result: Seq<char>, epoch: u64) -> LogV {
    LogV { timestamp: epoch, direction: "incoming"@, peer: q.sender, reason: q.reason, result }
}

/// A log with one more entry; of more than a hundred the oldest is dropped.
pub open spec fn with_entry(s: Seq<LogV>, e: LogV) -> Seq<LogV> {
    if s.len() >= LOG_KEPT {
        s.push(e).skip(1)
    } else {
        s.push(e)
    }
}

/// The node after it has answered its oldest request.
pub open spec fn oldest_answered(m: MeshV, result: Seq<char>, epoch: u64) -> MeshV {
    MeshV {
        requests: m.requests.skip(1),
        log: with_entry(m.log, answered(m.requests[0], result, epoch)),
        ..m
    }
}

/// The log entries for requests that are all denied.
pub open spec fn all_denied(s: Seq<RequestV>, epoch: u64) -> Seq<LogV> {
    Seq::new(s.len(), |i: int| answered(s[i], "denied"@, epoch))
}

/// The requests that still wait.
pub open spec fn waiting(s: Seq<RequestV>, now: u64) -> Seq<RequestV>
    decreases s.len(),
{
    if s.len() == 0 {
        Seq::empty()
    } else {
        let r = waiting(s.drop_last(), now);
        if node::since(s.last().received_at, now) / 1000 < REQUEST_SECONDS {
            r.push(s.last())
        } else {
            r
        }
    }
}

/// The node after it has dropped requests that have waited too long.
pub open spec fn requests_expired(m: MeshV, now: u64) -> MeshV {
    let kept = waiting(m.requests, now);
    let n = m.requests.len() - kept.len();
    let m1 = MeshV { requests: kept, ..m };
    if n > 0 {
        node::logged(m1, text::dec(n as nat) + " replication request(s) expired"@)
    } else {
        m1
    }
}

proof fn lemma_waiting_len(s: Seq<RequestV>, now: u64)
    ensures
        waiting(s, now).len() <= s.len(),
    decreases s.len(),
{
    if s.len() > 0 {
        lemma_waiting_len(s.drop_last(), now);
    }
}

impl MeshNode {
    fn log_replication(
        &mut self,
        direction: &str,
        peer: NodeId,
        reason: String,
        result: &str,
        epoch: u64,
    )
        ensures
            final(self)@ == (MeshV {
                log: with_entry(
                    old(self)@.log,
                    LogV {
                        timestamp: epoch,
                        direction: direction@,
                        peer: peer@,
                        reason: reason@,
                        result: result@,
                    },
                ),
                ..old(self)@
            }),
    {
        let ghost before = self@.log;
        let e = ReplicationLogEntry {
            timestamp: epoch,
            direction: text(direction),
            peer_id: peer,
            reason,
            result: text(result),
        };
        let ghost ev = e@;
        self.replication_log.push(e);
        assert(self@.log =~= before.push(ev));
        if self.replication_log.len() > LOG_KEPT {
            let _ = self.replication_log.remove(0);
            assert(self@.log =~= before.push(ev).skip(1));
        }
    }

    /// Takes the oldest request off the queue.
    fn answer_oldest(&mut self, result: &str, epoch: u64) -> (r: (NodeId, u32))
        requires
            old(self).pending_requests@.len() > 0,
        ensures
            r.0@ == old(self)@.requests[0].sender,
            r.1 == old(self)@.requests[0].id,
            final(self)@ == oldest_answered(old(self)@, result@, epoch),
    {
        assert(self@.requests[0] == self.pending_requests@[0]@);
        let q = self.pending_requests.remove(0);
        assert(self@.requests =~= old(self)@.requests.skip(1));
        let sender = q.sender_id;
        let id = q.id;
        self.log_replication("incoming", sender, q.reason, result, epoch);
        (sender, id)
    }

    /// Accepts the oldest request: who sent it, and its number.
    pub fn accept_oldest(&mut self, epoch: u64) -> (r: Option<(NodeId, u32)>)
        ensures
            if old(self)@.requests.len() == 0 {
                r.is_none() && final(self)@ == old(self)@
            } else {
                (r matches Some(x) && x.0@ == old(self)@.requests[0].sender && x.1
                    == old(self)@.requests[0].id) && final(self)@ == oldest_answered(
                    old(self)@,
                    "accepted"@,
                    epoch,
                )
            },
    {
        if self.pending_requests.len() == 0 {
            return None;
        }
        Some(self.answer_oldest("accepted", epoch))
    }

    /// Denies the oldest request: its number.
    pub fn deny_oldest(&mut self, epoch: u64) -> (r: Option<u32>)
        ensures
            if old(self)@.requests.len() == 0 {
                r.is_none() && final(self)@ == old(self)@
            } else {
                r == Some(old(self)@.requests[0].id) && final(self)@ == oldest_answered(
                    old(self)@,
                    "denied"@,
                    epoch,
                )
            },
    {
        if self.pending_requests.len() == 0 {
            return None;
        }
        let (_sender, id) = self.answer_oldest("denied", epoch);
        Some(id)
    }

    /// Denies all requests: how many there were. All of them are logged.
    pub fn deny_all_requests(&mut self, epoch: u64) -> (n: usize)
        ensures
            n == old(self)@.requests.len(),
            final(self)@ == (MeshV {
                requests: Seq::empty(),
                log: old(self)@.log + all_denied(old(self)@.requests, epoch),
                ..old(self)@
            }),
    {
        let n = self.pending_requests.len();
        let ghost m = self@;
        let ghost all = all_denied(m.requests, epoch);
        let mut i: usize = 0;
        assert(m.log + all.take(0) =~= m.log);
        while i < self.pending_requests.len()
            invariant
                i <= self.pending_requests@.len(),
                self.pending_requests == old(self).pending_requests,
                m == old(self)@,
                all == all_denied(m.requests, epoch),
                self@ == (MeshV { log: m.log + all.take(i as int), ..m }),
            decreases self.pending_requests@.len() - i,
        {
            assert(m.requests[i as int] == self.pending_requests@[i as int]@);
            let ghost before = self@.log;
            let e = ReplicationLogEntry {
                timestamp: epoch,
                direction: text("incoming"),
                peer_id: self.pending_requests[i].sender_id,
                reason: self.pending_requests[i].reason.clone(),
                result: text("denied"),
            };
            self.replication_log.push(e);
            assert(self@.log =~= before.push(e@));
            i = i + 1;
            assert(self@.log =~= m.log + all.take(i as int));
        }
        assert(all.take(i as int) =~= all);
        self.pending_requests.clear();
        assert(self@.requests =~= Seq::<RequestV>::empty());
        n
    }

    /// Drops the requests that have waited for a minute.
    pub fn expire_requests(&mut self, now: u64)
        ensures
            final(self)@ == requests_expired(old(self)@, now),
    {
        let n = self.pending_requests.len();
        let ghost m = self@;
        let ghost mut k: int = 0;
        let mut i: usize = 0;
        assert(m.requests.skip(0) =~= m.requests);
        assert(m.requests.take(0) =~= Seq::empty());
        assert(Seq::<RequestV>::empty() + m.requests =~= m.requests);
        while i < self.pending_requests.len()
            invariant
                0 <= k <= m.requests.len(),
                i == waiting(m.requests.take(k), now).len(),
                self@ == (MeshV {
                    requests: waiting(m.requests.take(k), now) + m.requests.skip(k),
                    ..m
                }),
            decreases m.requests.len() - k,
        {
            let ghost w = waiting(m.requests.take(k), now);
            let ghost before = self@;
            assert(before.requests[i as int] == self.pending_requests@[i as int]@);
            assert(before.requests[i as int] == m.requests[k]);
            assert(m.requests.take(k + 1).drop_last() =~= m.requests.take(k));
            if elapsed_since(self.pending_requests[i].received_at, now) / 1000 < REQUEST_SECONDS {
                i = i + 1;
                assert(w + m.requests.skip(k) =~= w.push(m.requests[k]) + m.requests.skip(k + 1));
            } else {
                let _ = self.pending_requests.remove(i);
                assert(self@.requests =~= before.requests.remove(i as int));
                assert(before.requests.remove(i as int) =~= w + m.requests.skip(k + 1));
            }
            proof {
                k = k + 1;
            }
        }
        proof {
            assert(self@.requests.len() == self.pending_requests@.len());
            assert(m.requests.take(k) =~= m.requests);
            assert(self@.requests =~= waiting(m.requests, now));
            lemma_waiting_len(m.requests, now);
        }
        let expired = n - self.pending_requests.len();
        if expired > 0 {
            let mut msg = String::new();
            push_usize(&mut msg, expired);
            assert(msg@ =~= text::dec(expired as nat));
            msg.append(" replication request(s) expired");
            self.log_event(msg);
        }
    }
}

/// Answering requests one by one keeps the replication log at a hundred entries or fewer.
pub proof fn law_log_bounded(m: MeshV, result: Seq<char>, epoch: u64)
    requires
        m.log.len() <= LOG_KEPT,
        m.requests.len() > 0,
    ensures
        oldest_answered(m, result, epoch).log.len() <= LOG_KEPT,
        oldest_answered(m, result, epoch).log.last() == answered(m.requests[0], result, epoch),
{
}

/// No peer ever has more than three requests waiting, however many it sends.
pub proof fn law_requests_limited(m: MeshV, i: crate::wire::Input, sender: Seq<u8>, now: u64, peer: Seq<u8>)
    requires
        gossip::requests_from(m.requests, peer) <= REQUESTS_PER_PEER,
    ensures
        gossip::requests_from(gossip::on_request(m, i, sender, now).requests, peer) <= REQUESTS_PER_PEER,
{
    let q = gossip::get_request(i, m.next_request, sender, now);
    assert(m.requests.push(q).drop_last() =~= m.requests);
}

// ---------------------------------------------------------------------------
// The swarm
// ---------------------------------------------------------------------------

/// How many units there are.
pub open spec fn units(m: MeshV) -> usize {
    (m.peers.len() as usize).wrapping_add(1)
}

/// The sum of the scores of peers.
pub open spec fn fitness_sum(s: Seq<PeerV>) -> i64
    decreases s.len(),
{
    if s.len() == 0 {
        0
    } else {
        fitness_sum(s.drop_last()).wrapping_add(s.last().fitness)
    }
}

/// True if the swarm may grow, and more tasks wait than there are units.
pub open spec fn wants_spawn(m: MeshV) -> bool {
    m.auto_spawn && units(m) < m.max_units && goals::tasks_in(m.goals.tasks, TaskStatus::Waiting) > units(m)
}

/// The average score of all units, rounded towards zero.
pub open spec fn average(m: MeshV) -> int {
    num::quotient(fitness_sum(m.peers).wrapping_add(m.fitness) as int, units(m) as int)
}

/// True if the swarm may shrink, and this unit is far below the average.
pub open spec fn wants_cull(m: MeshV) -> bool {
    m.auto_cull && units(m) > m.min_units && m.fitness < average(m) - 10
}

/// A switch as text.
pub open spec fn on_off(b: bool) -> Seq<char> {
    if b {
        "ON"@
    } else {
        "OFF"@
    }
}

/// The state of the swarm as text.
pub open spec fn swarm_text(m: MeshV) -> Seq<char> {
    "--- swarm status ---\nunits: "@ + text::dec(units(m) as nat) + "/"@ + text::dec(m.min_units as nat) + "-"@
        + text::dec(m.max_units as nat) + "\nauto-discover: "@ + on_off(m.auto_discover)
        + " auto-share: "@ + on_off(m.auto_share) + " auto-spawn: "@ + on_off(m.auto_spawn)
        + " auto-cull: "@ + on_off(m.auto_cull) + "\nshared words: "@ + text::dec(m.shared_words.len())
        + " pending word inbox: "@ + text::dec(m.word_inbox.len()) + "\n---\n"@
}

fn push_switch(out: &mut String, b: bool)
    ensures
        final(out)@ == old(out)@ + on_off(b),
{
    if b {
        out.append("ON");
    } else {
        out.append("OFF");
    }
}

impl MeshNode {
    /// Whether a unit should be spawned.
    pub fn should_auto_spawn(&self) -> (b: bool)
        ensures
            b == wants_spawn(self@),
    {
        if !self.auto_spawn {
            return false;
        }
        let n: usize = self.peers.len().wrapping_add(1);
        n < self.max_units && self.goals.pending_task_count() > n
    }

    /// The sum of the scores of peers.
    pub fn sum_fitness(&self) -> (t: i64)
        ensures
            t == fitness_sum(self@.peers),
    {
        let ghost ps = self@.peers;
        let mut t: i64 = 0;
        let mut i: usize = 0;
        while i < self.peers.len()
            invariant
                i <= self.peers@.len(),
                ps == self@.peers,
                t == fitness_sum(ps.take(i as int)),
            decreases self.peers@.len() - i,
        {
            assert(ps[i as int] == self.peers@[i as int]@);
            t = t.wrapping_add(self.peers[i].fitness);
            i = i + 1;
            assert(ps.take(i as int).drop_last() =~= ps.take(i - 1));
        }
        assert(ps.take(i as int) =~= ps);
        t
    }

    /// Whether this unit should leave.
    pub fn should_auto_cull(&self) -> (b: bool)
        ensures
            b == wants_cull(self@),
    {
        if !self.auto_cull {
            return false;
        }
        let n: usize = self.peers.len().wrapping_add(1);
        if n <= self.min_units {
            return false;
        }
        let total: i128 = self.sum_fitness().wrapping_add(self.fitness) as i128;
        let average: i128 = if total >= 0 {
            total / (n as i128)
        } else {
            -((-total) / (n as i128))
        };
        (self.fitness as i128) < average - 10
    }

    /// The state of the swarm as text.
    pub fn format_swarm_status(&self) -> (out: String)
        ensures
            out@ == swarm_text(self@),
    {
        let mut out = text("--- swarm status ---\nunits: ");
        push_usize(&mut out, self.peers.len().wrapping_add(1));
        out.append("/");
        push_usize(&mut out, self.min_units);
        out.append("-");
        push_usize(&mut out, self.max_units);
        out.append("\nauto-discover: ");
        push_switch(&mut out, self.auto_discover);
        out.append(" auto-share: ");
        push_switch(&mut out, self.auto_share);
        out.append(" auto-spawn: ");
        push_switch(&mut out, self.auto_spawn);
        out.append(" auto-cull: ");
        push_switch(&mut out, self.auto_cull);
        out.append("\nshared words: ");
        push_usize(&mut out, self.shared_words.len());
        out.append(" pending word inbox: ");
        push_usize(&mut out, self.word_inbox.len());
        out.append("\n---\n");
        out
    }
}

// ---------------------------------------------------------------------------
// Lists
// ---------------------------------------------------------------------------

/// A request as a line.
pub open spec fn request_line(q: RequestV, now: u64) -> Seq<char> {
    "  #"@ + text::dec(q.id as nat) + " from "@ + text::hex(q.sender) + " gen="@ + text::dec(q.generation as nat)
        + " fitness="@ + text::dec_int(q.fitness as int) + " size="@ + text::dec((q.size / 1024) as nat)
        + "KB age="@ + text::dec((node::since(q.received_at, now) / 1000) as nat) + "s: "@ + q.reason + "\n"@
}

/// Requests as lines.
pub open spec fn request_lines(s: Seq<RequestV>, now: u64) -> Seq<char>
    decreases s.len(),
{
    if s.len() == 0 {
        Seq::empty()
    } else {
        request_lines(s.drop_last(), now) + request_line(s.last(), now)
    }
}

/// All requests as text.
pub open spec fn requests_text(m: MeshV, now: u64) -> Seq<char> {
    if m.requests.len() == 0 {
        "  (no pending requests)\n"@
    } else {
        request_lines(m.requests, now)
    }
}

/// A log entry as a line.
pub open spec fn log_line(e: LogV) -> Seq<char> {
    "  "@ + text::dec(e.timestamp as nat) + " "@ + e.direction + " "@ + text::hex(e.peer) + " ["@ + e.result
        + "]: "@ + e.reason + "\n"@
}

/// The last `n` log entries as lines, the latest first.
pub open spec fn log_lines(s: Seq<LogV>, n: int) -> Seq<char>
    decreases n,
{
    if n <= 0 {
        Seq::empty()
    } else {
        log_lines(s, n - 1) + log_line(s[s.len() - n])
    }
}

/// The log as text.
pub open spec fn log_text(m: MeshV) -> Seq<char> {
    if m.log.len() == 0 {
        "  (no replication history)\n"@
    } else if m.log.len() < LOG_SHOWN {
        log_lines(m.log, m.log.len() as int)
    } else {
        log_lines(m.log, LOG_SHOWN as int)
    }
}

fn push_request(out: &mut String, q: &ReplicationRequest, now: u64)
    ensures
        final(out)@ == old(out)@ + request_line(q@, now),
{
    let mut s = text("  #");
    push_u64(&mut s, q.id as u64);
    s.append(" from ");
    push_hex(&mut s, q.sender_id.as_slice());
    s.append(" gen=");
    push_u64(&mut s, q.sender_generation as u64);
    s.append(" fitness=");
    push_i64(&mut s, q.sender_fitness);
    s.append(" size=");
    push_u64(&mut s, q.package_size / 1024);
    s.append("KB age=");
    push_u64(&mut s, elapsed_since(q.received_at, now) / 1000);
    s.append("s: ");
    s.append(q.reason.as_str());
    s.append("\n");
    out.append(s.as_str());
}

fn push_log(out: &mut String, e: &ReplicationLogEntry)
    ensures
        final(out)@ == old(out)@ + log_line(e@),
{
    let mut s = text("  ");
    push_u64(&mut s, e.timestamp);
    s.append(" ");
    s.append(e.direction.as_str());
    s.append(" ");
    push_hex(&mut s, e.peer_id.as_slice());
    s.append(" [");
    s.append(e.result.as_str());
    s.append("]: ");
    s.append(e.reason.as_str());
    s.append("\n");
    out.append(s.as_str());
}

impl MeshNode {
    /// The pending requests as text.
    pub fn format_requests(&self, now: u64) -> (out: String)
        ensures
            out@ == requests_text(self@, now),
    {
        if self.pending_requests.len() == 0 {
            return text("  (no pending requests)\n");
        }
        let mut out = String::new();
        let ghost qs = self@.requests;
        let mut i: usize = 0;
        assert(out@ =~= request_lines(qs.take(0), now));
        while i < self.pending_requests.len()
            invariant
                i <= self.pending_requests@.len(),
                qs == self@.requests,
                out@ == request_lines(qs.take(i as int), now),
            decreases self.pending_requests@.len() - i,
        {
            assert(qs[i as int] == self.pending_requests@[i as int]@);
            push_request(&mut out, &self.pending_requests[i], now);
            i = i + 1;
            assert(qs.take(i as int).drop_last() =~= qs.take(i - 1));
        }
        assert(qs.take(i as int) =~= qs);
        out
    }

    /// The last entries of the replication log as text, the latest first.
    pub fn format_replication_log(&self) -> (out: String)
        ensures
            out@ == log_text(self@),
    {
        let n = self.replication_log.len();
        if n == 0 {
            return text("  (no replication history)\n");
        }
        let shown: usize = if n < LOG_SHOWN {
            n
        } else {
            LOG_SHOWN
        };
        let mut out = String::new();
        let mut i: usize = 0;
        assert(out@ =~= log_lines(self@.log, 0));
        while i < shown
            invariant
                i <= shown <= n,
                n == self.replication_log@.len(),
                out@ == log_lines(self@.log, i as int),
            decreases shown - i,
        {
            i = i + 1;
            assert(self@.log[n - i] == self.replication_log@[n - i]@);
            push_log(&mut out, &self.replication_log[n - i]);
        }
        out
    }
}

// ---------------------------------------------------------------------------
// The status
// ---------------------------------------------------------------------------

/// A peer as a line.
pub open spec fn peer_line(p: PeerV, now: u64) -> Seq<char> {
    "  "@ + text::hex(p.id) + " @ "@ + message::addr_text(p.addr) + " load="@ + text::dec(p.load as nat) + "/"@ + text::dec(
        p.capacity as nat,
    ) + " seen="@ + text::dec((node::since(p.last_seen, now) / 1000) as nat) + "s ago\n"@
}

/// Peers as lines.
pub open spec fn peer_lines(s: Seq<PeerV>, now: u64) -> Seq<char>
    decreases s.len(),
{
    if s.len() == 0 {
        Seq::empty()
    } else {
        peer_lines(s.drop_last(), now) + peer_line(s.last(), now)
    }
}

/// A truth value as text.
pub open spec fn bool_text(b: bool) -> Seq<char> {
    if b {
        "true"@
    } else {
        "false"@
    }
}

/// A proposal as a line.
pub open spec fn proposal_line(p: ProposalV) -> Seq<char> {
    "  #"@ + node::hex16(p.id) + " by "@ + text::hex(p.proposer) + " yes="@ + text::dec(p.yes.len()) + " no="@ + text::dec(
        p.no.len(),
    ) + " committed="@ + bool_text(p.committed) + "\n"@
}

/// Proposals as lines.
pub open spec fn proposal_lines(s: Seq<ProposalV>) -> Seq<char>
    decreases s.len(),
{
    if s.len() == 0 {
        Seq::empty()
    } else {
        proposal_lines(s.drop_last()) + proposal_line(s.last())
    }
}

/// Events as lines.
pub open spec fn event_lines(s: Seq<Seq<char>>) -> Seq<char>
    decreases s.len(),
{
    if s.len() == 0 {
        Seq::empty()
    } else {
        event_lines(s.drop_last()) + ("  "@ + s.last() + "\n"@)
    }
}

/// The part of the status on proposals.
pub open spec fn proposals_part(m: MeshV) -> Seq<char> {
    if m.proposals.len() == 0 {
        Seq::empty()
    } else {
        "proposals:\n"@ + proposal_lines(m.proposals)
    }
}

/// The part of the status on events.
pub open spec fn events_part(m: MeshV) -> Seq<char> {
    if m.events.len() == 0 {
        Seq::empty()
    } else {
        "recent events:\n"@ + event_lines(m.events)
    }
}

/// The state of the node as text.
pub open spec fn status_text(m: MeshV, now: u64) -> Seq<char> {
    "--- mesh status ---\nid:       "@ + text::hex(m.id) + "\nport:     "@ + text::dec(m.port as nat)
        + "\nload:     "@ + text::dec(m.load as nat) + "/"@ + text::dec(m.capacity as nat) + "\npeers:    "@
        + text::dec(m.peers.len()) + "\n"@ + peer_lines(m.peers, now) + proposals_part(m) + events_part(m)
        + "---\n"@
}

impl MeshNode {
    fn push_peers(&self, out: &mut String, now: u64)
        ensures
            final(out)@ == old(out)@ + peer_lines(self@.peers, now),
    {
        let ghost ps = self@.peers;
        let mut i: usize = 0;
        assert(out@ =~= old(out)@ + peer_lines(ps.take(0), now));
        while i < self.peers.len()
            invariant
                i <= self.peers@.len(),
                ps == self@.peers,
                out@ == old(out)@ + peer_lines(ps.take(i as int), now),
            decreases self.peers@.len() - i,
        {
            assert(ps[i as int] == self.peers@[i as int]@);
            let mut s = text("  ");
            push_hex(&mut s, self.peers[i].id.as_slice());
            s.append(" @ ");
            s.append(self.peers[i].addr.to_text().as_str());
            s.append(" load=");
            push_u64(&mut s, self.peers[i].load as u64);
            s.append("/");
            push_u64(&mut s, self.peers[i].capacity as u64);
            s.append(" seen=");
            push_u64(&mut s, elapsed_since(self.peers[i].last_seen, now) / 1000);
            s.append("s ago\n");
            assert(s@ == peer_line(ps[i as int], now));
            out.append(s.as_str());
            i = i + 1;
            assert(ps.take(i as int).drop_last() =~= ps.take(i - 1));
            assert(out@ =~= old(out)@ + peer_lines(ps.take(i as int), now));
        }
        assert(ps.take(i as int) =~= ps);
    }

    fn push_proposals(&self, out: &mut String)
        ensures
            final(out)@ == old(out)@ + proposals_part(self@),
    {
        if self.proposals.len() == 0 {
            assert(out@ =~= old(out)@ + proposals_part(self@));
            return;
        }
        out.append("proposals:\n");
        let ghost start = out@;
        let ghost ps = self@.proposals;
        let mut i: usize = 0;
        assert(out@ =~= start + proposal_lines(ps.take(0)));
        while i < self.proposals.len()
            invariant
                i <= self.proposals@.len(),
                ps == self@.proposals,
                out@ == start + proposal_lines(ps.take(i as int)),
            decreases self.proposals@.len() - i,
        {
            assert(ps[i as int] == self.proposals@[i as int]@);
            let mut s = text("  #");
            push_hex16(&mut s, self.proposals[i].id);
            s.append(" by ");
            push_hex(&mut s, self.proposals[i].proposer.as_slice());
            s.append(" yes=");
            push_usize(&mut s, self.proposals[i].votes_yes.len());
            s.append(" no=");
            push_usize(&mut s, self.proposals[i].votes_no.len());
            s.append(" committed=");
            s.append(if self.proposals[i].committed {
                "true"
            } else {
                "false"
            });
            s.append("\n");
            assert(s@ == proposal_line(ps[i as int]));
            out.append(s.as_str());
            i = i + 1;
            assert(ps.take(i as int).drop_last() =~= ps.take(i - 1));
            assert(out@ =~= start + proposal_lines(ps.take(i as int)));
        }
        assert(ps.take(i as int) =~= ps);
        assert(out@ =~= old(out)@ + proposals_part(self@));
    }

    fn push_events(&self, out: &mut String)
        ensures
            final(out)@ == old(out)@ + events_part(self@),
    {
        if self.event_log.len() == 0 {
            assert(out@ =~= old(out)@ + events_part(self@));
            return;
        }
        out.append("recent events:\n");
        let ghost start = out@;
        let ghost es = self@.events;
        let mut i: usize = 0;
        assert(out@ =~= start + event_lines(es.take(0)));
        while i < self.event_log.len()
            invariant
                i <= self.event_log@.len(),
                es == self@.events,
                out@ == start + event_lines(es.take(i as int)),
            decreases self.event_log@.len() - i,
        {
            assert(es[i as int] == self.event_log@[i as int]@);
            let mut s = text("  ");
            s.append(self.event_log[i].as_str());
            s.append("\n");
            out.append(s.as_str());
            i = i + 1;
            assert(es.take(i as int).drop_last() =~= es.take(i - 1));
            assert(out@ =~= start + event_lines(es.take(i as int)));
        }
        assert(es.take(i as int) =~= es);
        assert(out@ =~= old(out)@ + events_part(self@));
    }

    /// The state of the node as text.
    pub fn format_status(&self, now: u64) -> (out: String)
        ensures
            out@ == status_text(self@, now),
    {
        let mut out = text("--- mesh status ---\nid:       ");
        push_hex(&mut out, self.id.as_slice());
        out.append("\nport:     ");
        push_u64(&mut out, self.port as u64);
        out.append("\nload:     ");
        push_u64(&mut out, self.load as u64);
        out.append("/");
        push_u64(&mut out, self.capacity as u64);
        out.append("\npeers:    ");
        push_usize(&mut out, self.peers.len());
        out.append("\n");
        self.push_peers(&mut out, now);
        self.push_proposals(&mut out);
        self.push_events(&mut out);
        out.append("---\n");
        out
    }
}

} // verus!
