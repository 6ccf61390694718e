//! What the machine asks of its node.

use crate::features::fitness;
use crate::features::fitness::PeerFitness;
use crate::goals;
use crate::goals::{GoalId, GoalRegistry, GoalStatus, ResultV, TaskId, TaskResult};
use crate::mesh::goal_message::encode_goal_broadcast;
use crate::mesh::gossip;
use crate::mesh::gossip::copy_tasks;
use crate::mesh::message;
use crate::mesh::message::{claim_message, data_message, result_message, word_message};
use crate::mesh::node;
use crate::mesh::node::{
    has_id, id_to_hex, InboxMessage, MeshNode, MeshV, PeerV, SharedWord, TrustLevel, EVENTS_KEPT,
};
use crate::text;
use crate::text::{push_i64, push_u64, push_usize, text};
use crate::types::Cell;
use crate::wire::NodeId;
use vstd::prelude::*;
use vstd::utf8::*;

verus! {

// ---------------------------------------------------------------------------
// Getters and setters
// ---------------------------------------------------------------------------

/// The node with a sibling recorded, once.
pub open spec fn with_sibling(m: MeshV, id: Seq<u8>) -> MeshV {
    if m.siblings.contains(id) {
        m
    } else {
        MeshV { siblings: m.siblings.push(id), ..m }
    }
}

impl MeshNode {
    /// The identity in hexadecimal digits.
    pub fn id_hex(&self) -> (s: String)
        ensures
            s@ == text::hex(self@.id),
    {
        id_to_hex(&self.id)
    }

    pub fn id(&self) -> (id: &NodeId)
        ensures
            id@ == self@.id,
    {
        &self.id
    }

    pub fn id_bytes(&self) -> (id: NodeId)
        ensures
            id@ == self@.id,
    {
        self.id
    }

    pub fn local_port(&self) -> (p: u16)
        ensures
            p == self@.port,
    {
        self.port
    }

    pub fn peer_count(&self) -> (n: usize)
        ensures
            n == self@.peers.len(),
    {
        self.peers.len()
    }

    pub fn load(&self) -> (n: u32)
        ensures
            n == self@.load,
    {
        self.load
    }

    pub fn set_load(&mut self, load: u32)
        ensures
            final(self)@ == (MeshV { load, ..old(self)@ }),
    {
        self.load = load;
    }

    pub fn capacity(&self) -> (n: u32)
        ensures
            n == self@.capacity,
    {
        self.capacity
    }

    /// Asks the node to stop.
    pub fn shutdown(&mut self)
        ensures
            final(self)@ == (MeshV { running: false, ..old(self)@ }),
    {
        self.running = false;
    }

    pub fn set_fitness(&mut self, score: i64)
        ensures
            final(self)@ == (MeshV { fitness: score, ..old(self)@ }),
    {
        self.fitness = score;
    }

    pub fn should_auto_replicate(&self) -> (b: bool)
        ensures
            b == self@.replicate_needed,
    {
        self.auto_replicate_needed
    }

    pub fn clear_auto_replicate(&mut self)
        ensures
            final(self)@ == (MeshV { replicate_needed: false, ..old(self)@ }),
    {
        self.auto_replicate_needed = false;
    }

    pub fn set_trust_level(&mut self, level: TrustLevel)
        ensures
            final(self)@ == (MeshV { trust: level, ..old(self)@ }),
    {
        self.trust_level = level;
    }

    /// Records a sibling, a unit with the same parent.
    pub fn add_sibling(&mut self, id: NodeId)
        ensures
            final(self)@ == with_sibling(old(self)@, id@),
    {
        let ghost before = self@.siblings;
        if !has_id(&self.sibling_ids, &id) {
            self.sibling_ids.push(id);
            assert(self@.siblings =~= before.push(id@));
        }
    }

    pub fn trust_level(&self) -> (t: TrustLevel)
        ensures
            t == self@.trust,
    {
        self.trust_level
    }

    /// A copy of the goals.
    pub fn clone_goals(&self) -> (r: GoalRegistry)
        ensures
            r@ == self@.goals,
    {
        self.goals.copy()
    }

    /// The code of a goal, if it has any.
    pub fn goal_code(&self, goal_id: GoalId) -> (r: Option<String>)
        ensures
            text::opt_text(r) == (if goals::has_goal(self@.goals.goals, goal_id) {
                self@.goals.goals[goals::goal_at(self@.goals.goals, goal_id)].code
            } else {
                None
            }),
    {
        self.goals.goal_code(goal_id)
    }

    pub fn format_goals(&self) -> (s: String)
        ensures
            s@ == goals::goals_text(self@.goals),
    {
        self.goals.format_goals()
    }

    pub fn format_tasks(&self) -> (s: String)
        ensures
            s@ == goals::my_tasks_text(self@.goals, self@.id),
    {
        self.goals.format_my_tasks(&self.id)
    }

    pub fn format_goal_tasks(&self, goal_id: GoalId) -> (s: String)
        ensures
            s@ == goals::goal_tasks_text(self@.goals, goal_id),
    {
        self.goals.format_goal_tasks(goal_id)
    }

    pub fn format_report(&self) -> (s: String)
        ensures
            s@ == goals::report_text(self@.goals),
    {
        self.goals.format_report()
    }

    pub fn format_task_result(&self, task_id: TaskId) -> (s: String)
        ensures
            s@ == goals::task_result_text(self@.goals, task_id),
    {
        self.goals.format_task_result(task_id)
    }

    pub fn format_goal_result(&self, goal_id: GoalId) -> (s: String)
        ensures
            s@ == goals::goal_result_text(self@.goals, goal_id),
    {
        self.goals.format_goal_result(goal_id)
    }

    /// The number of goals that are pending or active.
    pub fn pending_goal_count(&self) -> (n: usize)
        ensures
            n == goals::goals_in(self@.goals.goals, GoalStatus::Pending) + goals::goals_in(
                self@.goals.goals,
                GoalStatus::Active,
            ),
    {
        self.goals.active_goal_count()
    }

    /// How many goals there are, and how many of them are pending, active and completed.
    pub fn goal_stats(&self) -> (r: (usize, usize, usize, usize))
        ensures
            r.0 == self@.goals.goals.len(),
            r.1 == goals::goals_in(self@.goals.goals, GoalStatus::Pending),
            r.2 == goals::goals_in(self@.goals.goals, GoalStatus::Active),
            r.3 == goals::goals_in(self@.goals.goals, GoalStatus::Completed),
    {
        (
            self.goals.goals.len(),
            self.goals.count_goals(GoalStatus::Pending),
            self.goals.count_goals(GoalStatus::Active),
            self.goals.count_goals(GoalStatus::Completed),
        )
    }
}

/// The scores of peers.
pub open spec fn peer_scores(s: Seq<PeerV>) -> Seq<(Seq<u8>, int)> {
    Seq::new(s.len(), |i: int| (s[i].id, s[i].fitness as int))
}

/// The identities, scores and addresses of peers, for display.
pub open spec fn details(s: Seq<PeerV>) -> Seq<(Seq<char>, i64, Seq<char>)> {
    Seq::new(s.len(), |i: int| (text::hex(s[i].id), s[i].fitness, message::addr_text(s[i].addr)))
}

/// Details in mathematical form.
pub open spec fn detail_views(s: Seq<(String, i64, String)>) -> Seq<(Seq<char>, i64, Seq<char>)> {
    Seq::new(s.len(), |i: int| (s[i].0@, s[i].1, s[i].2@))
}

/// Pairs of texts in mathematical form.
pub open spec fn pair_views(s: Seq<(String, String)>) -> Seq<(Seq<char>, Seq<char>)> {
    Seq::new(s.len(), |i: int| (s[i].0@, s[i].1@))
}

/// Names of words and their origins, for display.
pub open spec fn origins(s: Seq<(Seq<char>, Seq<u8>)>) -> Seq<(Seq<char>, Seq<char>)> {
    Seq::new(s.len(), |i: int| (s[i].0, text::hex(s[i].1)))
}

/// A sequence from its end.
pub open spec fn backwards(s: Seq<Seq<char>>) -> Seq<Seq<char>> {
    Seq::new(s.len(), |i: int| s[s.len() - 1 - i])
}

/// The last events, the latest first.
pub open spec fn latest(s: Seq<Seq<char>>) -> Seq<Seq<char>> {
    if s.len() > EVENTS_KEPT {
        backwards(s).take(EVENTS_KEPT as int)
    } else {
        backwards(s)
    }
}

impl MeshNode {
    /// The scores of all peers.
    pub fn peer_fitness_list(&self) -> (v: Vec<PeerFitness>)
        ensures
            fitness::scores(v@) == peer_scores(self@.peers),
    {
        let mut v: Vec<PeerFitness> = Vec::new();
        let mut i: usize = 0;
        while i < self.peers.len()
            invariant
                i <= self.peers@.len(),
                v@.len() == i,
                forall|j: int|
                    0 <= j < i ==> (#[trigger] v@[j]).id@ == self@.peers[j].id && v@[j].score
                        == self@.peers[j].fitness,
            decreases self.peers@.len() - i,
        {
            assert(self@.peers[i as int] == self.peers@[i as int]@);
            v.push(PeerFitness { id: self.peers[i].id, score: self.peers[i].fitness });
            i = i + 1;
        }
        assert(fitness::scores(v@) =~= peer_scores(self@.peers));
        v
    }

    /// The identities, scores and addresses of all peers, for display.
    pub fn peer_details(&self) -> (v: Vec<(String, i64, String)>)
        ensures
            detail_views(v@) == details(self@.peers),
    {
        let mut v: Vec<(String, i64, String)> = Vec::new();
        let mut i: usize = 0;
        while i < self.peers.len()
            invariant
                i <= self.peers@.len(),
                v@.len() == i,
                forall|j: int|
                    0 <= j < i ==> (#[trigger] v@[j]).0@ == text::hex(self@.peers[j].id) && v@[j].1
                        == self@.peers[j].fitness && v@[j].2@ == message::addr_text(self@.peers[j].addr),
            decreases self.peers@.len() - i,
        {
            assert(self@.peers[i as int] == self.peers@[i as int]@);
            v.push(
                (
                    id_to_hex(&self.peers[i].id),
                    self.peers[i].fitness,
                    self.peers[i].addr.to_text(),
                ),
            );
            i = i + 1;
        }
        assert(detail_views(v@) =~= details(self@.peers));
        v
    }

    /// Takes the recorded events, the latest first.
    pub fn drain_recent_events(&mut self) -> (v: Vec<String>)
        ensures
            text::texts(v@) == latest(old(self)@.events),
            final(self)@ == (MeshV { events: Seq::empty(), ..old(self)@ }),
    {
        let mut all: Vec<String> = Vec::new();
        std::mem::swap(&mut all, &mut self.event_log);
        assert(self@.events =~= Seq::<Seq<char>>::empty());
        let ghost es = old(self)@.events;
        let ghost n = all@.len();
        assert(text::texts(all@) == es);
        let mut v: Vec<String> = Vec::new();
        while all.len() > 0 && v.len() < EVENTS_KEPT
            invariant
                v@.len() + all@.len() == n == es.len(),
                v@.len() <= EVENTS_KEPT,
                forall|j: int| 0 <= j < all@.len() ==> (#[trigger] all@[j])@ == es[j],
                forall|j: int| 0 <= j < v@.len() ==> (#[trigger] v@[j])@ == es[n - 1 - j],
            decreases all@.len(),
        {
            let ghost rest = all@;
            match all.pop() {
                Some(e) => {
                    assert(e == rest[rest.len() - 1]);
                    v.push(e);
                },
                None => {},
            }
        }
        assert(text::texts(v@) =~= latest(es));
        v
    }

    /// Takes the words that wait to be compiled.
    pub fn recv_shared_words(&mut self) -> (v: Vec<SharedWord>)
        ensures
            node::shared_views(v@) == old(self)@.word_inbox,
            final(self)@ == (MeshV { word_inbox: Seq::empty(), ..old(self)@ }),
    {
        let mut v: Vec<SharedWord> = Vec::new();
        std::mem::swap(&mut v, &mut self.word_inbox);
        assert(self@.word_inbox =~= Seq::empty());
        v
    }

    /// The names of the words that peers have shared, and who sent them.
    pub fn shared_words_list(&self) -> (v: Vec<(String, String)>)
        ensures
            pair_views(v@) == origins(self@.shared_words),
    {
        let mut v: Vec<(String, String)> = Vec::new();
        let mut i: usize = 0;
        while i < self.shared_words.len()
            invariant
                i <= self.shared_words@.len(),
                v@.len() == i,
                forall|j: int|
                    0 <= j < i ==> (#[trigger] v@[j]).0@ == self@.shared_words[j].0 && v@[j].1@
                        == text::hex(self@.shared_words[j].1),
            decreases self.shared_words@.len() - i,
        {
            assert(self@.shared_words[i as int] == self.shared_words@[i as int]@);
            v.push((self.shared_words[i].name.clone(), id_to_hex(&self.shared_words[i].origin)));
            i = i + 1;
        }
        assert(pair_views(v@) =~= origins(self@.shared_words));
        v
    }

    /// Sends data to all peers.
    pub fn send_data(&mut self, data: &[u8])
        ensures
            final(self)@ == node::sent(old(self)@, message::data_bytes(old(self)@.id, old(self)@.port, data@)),
    {
        let bytes = data_message(&self.id, self.port, data);
        self.broadcast(&bytes);
    }

    /// Takes the oldest data received.
    pub fn recv_data(&mut self) -> (o: Option<InboxMessage>)
        ensures
            if old(self)@.inbox.len() == 0 {
                o.is_none() && final(self)@ == old(self)@
            } else {
                (o matches Some(x) && x@ == old(self)@.inbox[0]) && final(self)@ == (MeshV {
                    inbox: old(self)@.inbox.skip(1),
                    ..old(self)@
                })
            },
    {
        if self.inbox.len() == 0 {
            return None;
        }
        assert(self@.inbox[0] == self.inbox@[0]@);
        let x = self.inbox.remove(0);
        assert(self@.inbox =~= old(self)@.inbox.skip(1));
        Some(x)
    }

    /// Sends the definition of a word to all peers.
    pub fn share_word(&mut self, name: &str, source: &str)
        ensures
            final(self)@ == node::sent(
                old(self)@,
                message::word_bytes(old(self)@.id, old(self)@.port, name@, source@),
            ),
    {
        let bytes = word_message(&self.id, self.port, name, source);
        self.broadcast(&bytes);
    }
}

// ---------------------------------------------------------------------------
// Goals
// ---------------------------------------------------------------------------

/// The node after it has told all peers of a goal.
pub open spec fn announced(m: MeshV, id: u64) -> MeshV {
    if goals::has_goal(m.goals.goals, id) {
        node::sent(m, gossip::goal_packet(m, goals::goal_at(m.goals.goals, id)))
    } else {
        m
    }
}

/// The node after it has created a goal.
pub open spec fn goal_created(
    m: MeshV,
    description: Seq<char>,
    priority: i64,
    code: Option<Seq<char>>,
    now: u64,
) -> MeshV {
    let id = m.goals.counter;
    announced(
        node::logged(
            MeshV { goals: goals::created(m.goals, description, priority, m.id, code, now), ..m },
            "goal #"@ + text::dec(id as nat) + " created: "@ + description,
        ),
        id,
    )
}

/// The node after it has claimed the task at position `i`.
pub open spec fn task_claimed(m: MeshV, i: int, runnable: bool) -> MeshV {
    let t = m.goals.tasks[i];
    let e = if runnable {
        "auto-claimed task #"@ + text::dec(t.id as nat) + " (goal #"@ + text::dec(t.goal_id as nat) + ")"@
    } else {
        "claimed task #"@ + text::dec(t.id as nat) + " (goal #"@ + text::dec(t.goal_id as nat) + "): "@
            + t.description
    };
    node::sent(
        node::logged(MeshV { goals: goals::claimed(m.goals, i, m.id), ..m }, e),
        message::claim_bytes(m.id, m.port, t.id, t.goal_id),
    )
}

/// The node after it has run a task.
pub open spec fn task_completed(m: MeshV, id: u64, r: ResultV) -> MeshV {
    let goal = if goals::has_task(m.goals.tasks, id) {
        m.goals.tasks[goals::task_at(m.goals.tasks, id)].goal_id
    } else {
        0
    };
    node::sent(
        node::logged(
            MeshV { goals: goals::completed(m.goals, id, Some(r)), ..m },
            "task #"@ + text::dec(id as nat) + " "@ + (if r.success {
                "completed"@
            } else {
                "failed"@
            }) + " (stack="@ + text::dec(r.stack.len()) + " output="@ + text::dec(encode_utf8(r.output).len())
                + "b)"@,
        ),
        message::result_bytes(m.id, m.port, id, goal, r),
    )
}

/// The node after it has cancelled a goal.
pub open spec fn goal_cancelled(m: MeshV, id: u64) -> MeshV {
    announced(
        node::logged(
            MeshV { goals: goals::cancelled(m.goals, id), ..m },
            "goal #"@ + text::dec(id as nat) + " cancelled"@,
        ),
        id,
    )
}

/// The node after it has changed the priority of a goal.
pub open spec fn goal_steered(m: MeshV, id: u64, priority: i64) -> MeshV {
    announced(
        node::logged(
            MeshV { goals: goals::steered(m.goals, id, priority), ..m },
            "goal #"@ + text::dec(id as nat) + " priority -> "@ + text::dec_int(priority as int),
        ),
        id,
    )
}

impl MeshNode {
    /// Tells all peers of a goal.
    fn announce(&mut self, id: GoalId)
        ensures
            final(self)@ == announced(old(self)@, id),
    {
        let k = self.goals.goal_slot(id);
        if k < self.goals.goals.len() {
            assert(self@.goals.goals[k as int] == self.goals.goals@[k as int]@);
            let tasks = copy_tasks(&self.goals, &self.goals.goals[k].task_ids);
            let bytes = encode_goal_broadcast(&self.id, self.port, &self.goals.goals[k], &tasks);
            self.broadcast(&bytes);
        }
    }

    /// Creates a goal, with code if it can be run, and tells all peers of it.
    pub fn create_goal(
        &mut self,
        description: &str,
        priority: Cell,
        code: Option<String>,
        now: u64,
    ) -> (id: GoalId)
        ensures
            id == old(self)@.goals.counter,
            final(self)@ == goal_created(old(self)@, description@, priority, text::opt_text(code), now),
    {
        let id = self.goals.create_goal_at(text(description), priority, self.id, code, now);
        let mut msg = text("goal #");
        push_u64(&mut msg, id);
        msg.append(" created: ");
        msg.append(description);
        self.log_event(msg);
        self.announce(id);
        id
    }

    /// Claims the next task, and tells all peers: its identity, its goal and its description.
    pub fn claim_task(&mut self) -> (r: Option<(TaskId, GoalId, String)>)
        ensures
            match goals::best(old(self)@.goals, old(self)@.goals.tasks.len() as int, false) {
                Some(i) => {
                    let t = old(self)@.goals.tasks[i];
                    &&& r matches Some(x) && x.0 == t.id && x.1 == t.goal_id && x.2@
                        == t.description
                    &&& final(self)@ == task_claimed(old(self)@, i, false)
                },
                None => r.is_none() && final(self)@ == old(self)@,
            },
    {
        match self.goals.claim_task(self.id) {
            Some((task_id, goal_id, desc)) => {
                let mut msg = text("claimed task #");
                push_u64(&mut msg, task_id);
                msg.append(" (goal #");
                push_u64(&mut msg, goal_id);
                msg.append("): ");
                msg.append(desc.as_str());
                self.log_event(msg);
                let bytes = claim_message(&self.id, self.port, task_id, goal_id);
                self.broadcast(&bytes);
                Some((task_id, goal_id, desc))
            },
            None => None,
        }
    }

    /// Claims the next task with code, and tells all peers: its identity, its goal, its
    /// description and the code.
    pub fn claim_executable_task(&mut self) -> (r: Option<(TaskId, GoalId, String, String)>)
        ensures
            match goals::best(old(self)@.goals, old(self)@.goals.tasks.len() as int, true) {
                Some(i) => {
                    let t = old(self)@.goals.tasks[i];
                    &&& r matches Some(x) && x.0 == t.id && x.1 == t.goal_id && x.2@
                        == t.description && Some(x.3@) == goals::code_of(old(self)@.goals, t)
                    &&& final(self)@ == task_claimed(old(self)@, i, true)
                },
                None => r.is_none() && final(self)@ == old(self)@,
            },
    {
        match self.goals.claim_executable_task(self.id) {
            Some((task_id, goal_id, desc, code)) => {
                let mut msg = text("auto-claimed task #");
                push_u64(&mut msg, task_id);
                msg.append(" (goal #");
                push_u64(&mut msg, goal_id);
                msg.append(")");
                self.log_event(msg);
                let bytes = claim_message(&self.id, self.port, task_id, goal_id);
                self.broadcast(&bytes);
                Some((task_id, goal_id, desc, code))
            },
            None => None,
        }
    }

    /// Ends a task with its result, and tells all peers.
    pub fn complete_task_with_result(&mut self, task_id: TaskId, result: TaskResult)
        ensures
            final(self)@ == task_completed(old(self)@, task_id, result@),
    {
        let k = self.goals.task_slot(task_id);
        let goal_id: u64 = if k < self.goals.tasks.len() {
            assert(self@.goals.tasks[k as int] == self.goals.tasks@[k as int]@);
            self.goals.tasks[k].goal_id
        } else {
            0
        };
        let mut msg = text("task #");
        push_u64(&mut msg, task_id);
        msg.append(" ");
        msg.append(if result.success {
            "completed"
        } else {
            "failed"
        });
        msg.append(" (stack=");
        push_usize(&mut msg, result.stack_snapshot.len());
        msg.append(" output=");
        push_usize(&mut msg, result.output.as_str().as_bytes().len());
        msg.append("b)");
        let bytes = result_message(&self.id, self.port, task_id, goal_id, &result);
        let _ = self.goals.complete_task(task_id, Some(result));
        self.log_event(msg);
        self.broadcast(&bytes);
    }

    /// Cancels a goal, and tells all peers. False if there is no such goal.
    pub fn cancel_goal(&mut self, goal_id: GoalId) -> (ok: bool)
        ensures
            ok == goals::has_goal(old(self)@.goals.goals, goal_id),
            final(self)@ == (if ok {
                goal_cancelled(old(self)@, goal_id)
            } else {
                old(self)@
            }),
    {
        if !self.goals.cancel_goal(goal_id) {
            return false;
        }
        let mut msg = text("goal #");
        push_u64(&mut msg, goal_id);
        msg.append(" cancelled");
        self.log_event(msg);
        self.announce(goal_id);
        true
    }

    /// Changes the priority of a goal, and tells all peers. False if there is no such goal.
    pub fn steer_goal(&mut self, goal_id: GoalId, priority: Cell) -> (ok: bool)
        ensures
            ok == goals::has_goal(old(self)@.goals.goals, goal_id),
            final(self)@ == (if ok {
                goal_steered(old(self)@, goal_id, priority)
            } else {
                old(self)@
            }),
    {
        if !self.goals.steer_goal(goal_id, priority) {
            return false;
        }
        let mut msg = text("goal #");
        push_u64(&mut msg, goal_id);
        msg.append(" priority -> ");
        push_i64(&mut msg, priority);
        self.log_event(msg);
        self.announce(goal_id);
        true
    }
}

} // verus!
