//! Words on the mesh: messages, proposals, the swarm and consent.

use crate::goals;
use crate::goals::{GoalStatus, TaskStatus};
use crate::mesh::api;
use crate::mesh::consensus;
use crate::mesh::consent;
use crate::mesh::message;
use crate::mesh::node;
use crate::mesh::node::{id_to_hex, MeshNode, MeshV, TrustLevel};
use crate::mesh::state::serialize_state;
use crate::num;
use crate::text;
use crate::text::{push_u64, push_usize, text, to_upper};
use crate::types::{Cell, WordV, PAD};
use crate::vm::base;
use crate::vm::state;
use crate::vm::state::{Time, VmV, VM};
use vstd::prelude::*;
use vstd::utf8::*;

verus! {

/// The machine with its node in another state.
#[verifier::opaque]
pub open spec fn with_mesh(v: VmV, m: MeshV) -> VmV {
    VmV { mesh: Some(m), ..v }
}

// ---------------------------------------------------------------------------
// The scratch area
// ---------------------------------------------------------------------------

/// How many bytes the scratch area takes.
pub open spec fn pad_room(memory: Seq<i64>, n: nat) -> int {
    if n < memory.len() - PAD {
        n as int
    } else {
        memory.len() - PAD
    }
}

/// Memory with bytes in the scratch area, as far as there is room.
pub open spec fn with_pad(memory: Seq<i64>, data: Seq<u8>) -> Seq<i64> {
    Seq::new(
        memory.len(),
        |i: int|
            if PAD <= i < PAD + pad_room(memory, data.len()) {
                data[i - PAD] as i64
            } else {
                memory[i]
            },
    )
}

/// The machine with bytes in the scratch area, and its address and their number on the stack.
#[verifier::opaque]
pub open spec fn padded(v: VmV, data: Seq<u8>) -> VmV {
    if v.memory.len() < PAD {
        base::crash(v)
    } else {
        base::pushed(
            base::pushed(VmV { memory: with_pad(v.memory, data), ..v }, PAD as i64),
            pad_room(v.memory, data.len()) as i64,
        )
    }
}

/// The bytes of `n` cells from an address on, those outside the memory left out.
pub open spec fn bytes_at(memory: Seq<i64>, addr: usize, n: int) -> Seq<u8>
    decreases n,
{
    if n <= 0 {
        Seq::empty()
    } else {
        let s = bytes_at(memory, addr, n - 1);
        let a = addr.wrapping_add((n - 1) as usize);
        if a < memory.len() {
            s.push(memory[a as int] as u8)
        } else {
            s
        }
    }
}

/// Bytes as characters.
pub open spec fn latin(b: Seq<u8>) -> Seq<char> {
    Seq::new(b.len(), |i: int| b[i] as char)
}

impl VM {
    /// Takes the node out, to change it.
    pub(crate) fn take_mesh(&mut self) -> (m: Option<MeshNode>)
        ensures
            state::opt_mesh(m) == old(self)@.mesh,
            m.is_none() ==> final(self)@ == old(self)@,
            m matches Some(x) ==> with_mesh(final(self)@, x@) == old(self)@,
            forall|n: MeshV| #[trigger] with_mesh(final(self)@, n) == with_mesh(old(self)@, n),
            final(self)@.dict == old(self)@.dict,
            final(self)@.memory == old(self)@.memory,
            final(self)@.here == old(self)@.here,
            final(self)@.fitness == old(self)@.fitness,
            final(self)@.silent == old(self)@.silent,
            final(self)@.node_id == old(self)@.node_id,
            final(self)@.spawn == old(self)@.spawn,
            final(self)@.monitor == old(self)@.monitor,
    {
        reveal(with_mesh);
        self.mesh.take()
    }

    /// Puts the node back.
    pub(crate) fn put_mesh(&mut self, m: MeshNode)
        ensures
            final(self)@ == with_mesh(old(self)@, m@),
    {
        reveal(with_mesh);
        self.mesh = Some(m);
    }

    /// Puts bytes into the scratch area, and its address and their number on the stack.
    pub(crate) fn give_bytes(&mut self, data: &[u8])
        ensures
            final(self)@ == padded(old(self)@, data@),
    {
        reveal(padded);
        let size = self.memory.len();
        if size < PAD {
            self.crash();
            return;
        }
        let n: usize = if data.len() < size - PAD {
            data.len()
        } else {
            size - PAD
        };
        let ghost m = self.memory@;
        let ghost v = self@;
        let mut i: usize = 0;
        while i < n
            invariant
                i <= n <= data@.len(),
                m.len() == size == self.memory@.len(),
                PAD + n <= size,
                v == old(self)@,
                self@ == (VmV { memory: self.memory@, ..v }),
                forall|j: int|
                    0 <= j < m.len() ==> self.memory@[j] == (if PAD <= j < PAD + i {
                        data@[j - PAD] as i64
                    } else {
                        m[j]
                    }),
            decreases n - i,
        {
            self.memory.set(PAD + i, data[i] as Cell);
            i = i + 1;
        }
        assert(self.memory@ =~= with_pad(m, data@));
        self.push(PAD as Cell);
        self.push(n as Cell);
    }

    /// The bytes of `n` cells from an address on.
    pub(crate) fn cells_as_bytes(&self, addr: usize, n: usize) -> (data: Vec<u8>)
        ensures
            data@ == bytes_at(self.memory@, addr, n as int),
    {
        let mut data: Vec<u8> = Vec::new();
        let mut i: usize = 0;
        while i < n
            invariant
                i <= n,
                data@ == bytes_at(self.memory@, addr, i as int),
            decreases n - i,
        {
            let a = addr.wrapping_add(i);
            if a < self.memory.len() {
                data.push(self.memory[a] as u8);
            }
            i = i + 1;
        }
        data
    }
}

/// TYPE ( addr n -- )
#[verifier::opaque]
pub open spec fn p_type(v: VmV) -> VmV {
    let (n, v) = base::popped(v);
    let (a, v) = base::popped(v);
    base::emit(v, latin(bytes_at(v.memory, a as usize, n as usize as int)))
}

/// SEND ( addr n peer -- )
#[verifier::opaque]
pub open spec fn p_send(v: VmV) -> VmV {
    let (_p, v) = base::popped(v);
    let (n, v) = base::popped(v);
    let (a, v) = base::popped(v);
    if n < 0 {
        base::crash(v)
    } else {
        match v.mesh {
            Some(m) => with_mesh(
                v,
                node::sent(m, message::data_bytes(m.id, m.port, bytes_at(v.memory, a as usize, n as usize as int))),
            ),
            None => base::complained(v, "SEND: mesh offline\n"@),
        }
    }
}

/// RECV ( -- addr n peer )
#[verifier::opaque]
pub open spec fn p_recv(v: VmV) -> VmV {
    match v.mesh {
        Some(m) => if m.inbox.len() > 0 {
            base::pushed(
                padded(with_mesh(v, MeshV { inbox: m.inbox.skip(1), ..m }), m.inbox[0].data),
                -1i64,
            )
        } else {
            base::pushed(base::pushed(base::pushed(v, 0), 0), 0)
        },
        None => base::pushed(base::pushed(base::pushed(v, 0), 0), 0),
    }
}

/// PEERS ( -- n )
#[verifier::opaque]
pub open spec fn p_peers(v: VmV) -> VmV {
    base::pushed(v, match v.mesh {
        Some(m) => m.peers.len() as usize as i64,
        None => 0,
    })
}

/// The state of the machine for the mesh.
pub open spec fn mesh_state(dict: Seq<WordV>, memory: Seq<i64>, here: usize, m: MeshV) -> Seq<u8> {
    crate::mesh::state::w_state(dict, memory, here, Some(m.goals))
}

/// The node with its load set to the size of the dictionary.
pub open spec fn loaded(m: MeshV, words: nat) -> MeshV {
    MeshV { load: words as usize as u32, ..m }
}

/// REPLICATE ( -- )
#[verifier::opaque]
pub open spec fn p_replicate(v: VmV) -> VmV {
    match v.mesh {
        Some(m) => {
            let m1 = loaded(m, v.dict.len());
            let bytes = mesh_state(v.dict, v.memory, v.here, m);
            base::printed(
                with_mesh(v, node::sent(m1, message::data_bytes(m.id, m.port, bytes))),
                "REPLICATE: serialized "@ + text::dec(bytes.len()) + " bytes ("@ + text::dec(v.dict.len())
                    + " dictionary entries, "@ + text::dec(v.here as nat) + " memory cells)\n"@,
            )
        },
        None => base::complained(v, "REPLICATE: mesh offline\n"@),
    }
}

/// MUTATE ( xt -- ) as it stood before words could be changed.
#[verifier::opaque]
pub open spec fn p_mutate(v: VmV) -> VmV {
    let (x, v) = base::popped(v);
    let xt = x as usize;
    if xt < v.dict.len() {
        base::complained(
            v,
            "MUTATE: would replace definition of "@ + v.dict[xt as int].name + " (xt="@ + text::dec(
                xt as nat,
            ) + "). Not yet implemented.\n"@,
        )
    } else {
        base::complained(v, "MUTATE: invalid xt "@ + text::dec(xt as nat) + "\n"@)
    }
}

/// MESH-STATUS ( -- )
#[verifier::opaque]
pub open spec fn p_mesh_status(v: VmV, t: Time) -> VmV {
    match v.mesh {
        Some(m) => base::emit(v, consent::status_text(m, t.now)),
        None => base::emit(v, "mesh: offline\n"@),
    }
}

/// The node after it has proposed replication, and the reason if it may not. The proposal's number
/// is the time in nanoseconds.
pub open spec fn propose(m: MeshV, words: nat, state: Seq<u8>, reason: Seq<char>, t: Time) -> (
    MeshV,
    Option<Seq<char>>,
) {
    let m1 = loaded(m, words);
    match consensus::proposal_refusal(m1, t.now) {
        Some(e) => (m1, Some(e)),
        None => (consensus::proposed(m1, reason, state, t.now, t.nanos), None),
    }
}

/// PROPOSE ( -- )
#[verifier::opaque]
pub open spec fn p_propose(v: VmV, t: Time) -> VmV {
    match v.mesh {
        Some(m) => {
            let reason = "load="@ + text::dec(v.dict.len()) + " dict_size="@ + text::dec(v.dict.len());
            let bytes = mesh_state(v.dict, v.memory, v.here, m);
            let (m2, e) = propose(m, v.dict.len(), bytes, reason, t);
            match e {
                Some(s) => base::complained(with_mesh(v, m2), "PROPOSE: "@ + s + "\n"@),
                None => base::printed(with_mesh(v, m2), "PROPOSE: proposal submitted to mesh\n"@),
            }
        },
        None => base::complained(v, "PROPOSE: mesh offline\n"@),
    }
}

/// LOAD ( -- n )
#[verifier::opaque]
pub open spec fn p_load(v: VmV) -> VmV {
    base::pushed(v, match v.mesh {
        Some(m) => m.load as i64,
        None => 0,
    })
}

/// CAPACITY ( -- n )
#[verifier::opaque]
pub open spec fn p_capacity(v: VmV) -> VmV {
    base::pushed(v, match v.mesh {
        Some(m) => m.capacity as i64,
        None => 0,
    })
}

/// ID ( -- addr n )
#[verifier::opaque]
pub open spec fn p_id(v: VmV) -> VmV {
    padded(v, encode_utf8(match v.mesh {
        Some(m) => text::hex(m.id),
        None => "offline"@,
    }))
}

impl VM {
    pub(crate) fn prim_type(&mut self)
        ensures
            final(self)@ == p_type(old(self)@),
    {
        reveal(p_type);
        let n = self.pop() as usize;
        let addr = self.pop() as usize;
        let data = self.cells_as_bytes(addr, n);
        let mut s = String::new();
        let mut i: usize = 0;
        while i < data.len()
            invariant
                i <= data@.len(),
                s@ == latin(data@).take(i as int),
            decreases data@.len() - i,
        {
            s.push(data[i] as char);
            i = i + 1;
            assert(s@ =~= latin(data@).take(i as int));
        }
        assert(s@ =~= latin(data@));
        self.emit_str(s.as_str());
    }

    pub(crate) fn prim_send(&mut self)
        ensures
            final(self)@ == p_send(old(self)@),
    {
        reveal(p_send);
        let _peer = self.pop();
        let n = self.pop();
        let addr = self.pop() as usize;
        if n < 0 {
            self.crash();
            return;
        }
        let data = self.cells_as_bytes(addr, n as usize);
        match self.take_mesh() {
            Some(m) => {
                let mut m = m;
                m.send_data(&data);
                self.put_mesh(m);
            },
            None => self.complain("SEND: mesh offline\n"),
        }
    }

    pub(crate) fn prim_recv(&mut self)
        ensures
            final(self)@ == p_recv(old(self)@),
    {
        reveal(p_recv);
        match self.take_mesh() {
            Some(m) => {
                let mut m = m;
                let x = m.recv_data();
                self.put_mesh(m);
                match x {
                    Some(msg) => {
                        self.give_bytes(&msg.data);
                        self.push(-1);
                        return;
                    },
                    None => {},
                }
            },
            None => {},
        }
        self.push(0);
        self.push(0);
        self.push(0);
    }

    pub(crate) fn prim_peers(&mut self)
        ensures
            final(self)@ == p_peers(old(self)@),
    {
        reveal(p_peers);
        let n: Cell = match &self.mesh {
            Some(m) => m.peer_count() as Cell,
            None => 0,
        };
        self.push(n);
    }

    /// The state of the machine for the mesh.
    fn state_for_mesh(&self, m: &MeshNode) -> (b: Vec<u8>)
        ensures
            b@ == mesh_state(self@.dict, self@.memory, self@.here, m@),
    {
        let goals = m.clone_goals();
        serialize_state(&self.dictionary, &self.memory, self.here, Some(&goals))
    }

    pub(crate) fn prim_replicate(&mut self)
        ensures
            final(self)@ == p_replicate(old(self)@),
    {
        reveal(p_replicate);
        match self.take_mesh() {
            Some(m) => {
                let mut m = m;
                let bytes = self.state_for_mesh(&m);
                m.set_load(self.dictionary.len() as u32);
                m.send_data(&bytes);
                let mut s = text("REPLICATE: serialized ");
                push_usize(&mut s, bytes.len());
                s.append(" bytes (");
                push_usize(&mut s, self.dictionary.len());
                s.append(" dictionary entries, ");
                push_usize(&mut s, self.here);
                s.append(" memory cells)\n");
                self.put_mesh(m);
                self.print_str(s.as_str());
            },
            None => self.complain("REPLICATE: mesh offline\n"),
        }
    }

    pub(crate) fn prim_mutate(&mut self)
        ensures
            final(self)@ == p_mutate(old(self)@),
    {
        reveal(p_mutate);
        let xt = self.pop() as usize;
        if xt < self.dictionary.len() {
            assert(self@.dict[xt as int] == self.dictionary@[xt as int]@);
            let mut s = text("MUTATE: would replace definition of ");
            s.append(self.dictionary[xt].name.as_str());
            s.append(" (xt=");
            push_usize(&mut s, xt);
            s.append("). Not yet implemented.\n");
            self.complain(s.as_str());
        } else {
            let mut s = text("MUTATE: invalid xt ");
            push_usize(&mut s, xt);
            s.append("\n");
            self.complain(s.as_str());
        }
    }

    pub(crate) fn prim_mesh_status(&mut self, t: Time)
        ensures
            final(self)@ == p_mesh_status(old(self)@, t),
    {
        reveal(p_mesh_status);
        let s = match &self.mesh {
            Some(m) => m.format_status(t.now),
            None => text("mesh: offline\n"),
        };
        self.emit_str(s.as_str());
    }

    /// Proposes replication, unless the node may not: the reason why not.
    pub(crate) fn propose(&self, m: &mut MeshNode, reason: &str, t: Time) -> (e: Option<String>)
        ensures
            (final(m)@, text::opt_text(e)) == propose(
                old(m)@,
                self@.dict.len(),
                mesh_state(self@.dict, self@.memory, self@.here, old(m)@),
                reason@,
                t,
            ),
    {
        let bytes = self.state_for_mesh(m);
        m.set_load(self.dictionary.len() as u32);
        match m.propose_replicate(reason, bytes, t.now, t.nanos) {
            Ok(()) => None,
            Err(e) => Some(e),
        }
    }

    pub(crate) fn prim_propose(&mut self, t: Time)
        ensures
            final(self)@ == p_propose(old(self)@, t),
    {
        reveal(p_propose);
        match self.take_mesh() {
            Some(m) => {
                let mut m = m;
                let mut reason = text("load=");
                push_usize(&mut reason, self.dictionary.len());
                reason.append(" dict_size=");
                push_usize(&mut reason, self.dictionary.len());
                let e = self.propose(&mut m, reason.as_str(), t);
                self.put_mesh(m);
                match e {
                    Some(e) => {
                        let mut s = text("PROPOSE: ");
                        s.append(e.as_str());
                        s.append("\n");
                        self.complain(s.as_str());
                    },
                    None => self.print_str("PROPOSE: proposal submitted to mesh\n"),
                }
            },
            None => self.complain("PROPOSE: mesh offline\n"),
        }
    }

    pub(crate) fn prim_mesh_load(&mut self)
        ensures
            final(self)@ == p_load(old(self)@),
    {
        reveal(p_load);
        let n: Cell = match &self.mesh {
            Some(m) => m.load() as Cell,
            None => 0,
        };
        self.push(n);
    }

    pub(crate) fn prim_mesh_capacity(&mut self)
        ensures
            final(self)@ == p_capacity(old(self)@),
    {
        reveal(p_capacity);
        let n: Cell = match &self.mesh {
            Some(m) => m.capacity() as Cell,
            None => 0,
        };
        self.push(n);
    }

    pub(crate) fn prim_id(&mut self)
        ensures
            final(self)@ == p_id(old(self)@),
    {
        reveal(p_id);
        let s = match &self.mesh {
            Some(m) => m.id_hex(),
            None => text("offline"),
        };
        self.give_bytes(s.as_str().as_bytes());
    }
}

// ---------------------------------------------------------------------------
// Counts
// ---------------------------------------------------------------------------

/// The machine with five more cells on the stack.
pub open spec fn pushed5(v: VmV, a: i64, b: i64, c: i64, d: i64, e: i64) -> VmV {
    base::pushed(base::pushed(base::pushed(base::pushed(base::pushed(v, a), b), c), d), e)
}

/// A count as a cell.
pub open spec fn cell(n: nat) -> i64 {
    n as usize as i64
}

/// GOAL-COUNT ( -- total pending active completed failed )
#[verifier::opaque]
pub open spec fn p_goal_count(v: VmV) -> VmV {
    match v.mesh {
        Some(m) => {
            let g = m.goals.goals;
            pushed5(
                v,
                cell(g.len()),
                cell(goals::goals_in(g, GoalStatus::Pending)),
                cell(goals::goals_in(g, GoalStatus::Active)),
                cell(goals::goals_in(g, GoalStatus::Completed)),
                cell(goals::goals_in(g, GoalStatus::Failed)),
            )
        },
        None => pushed5(v, 0, 0, 0, 0, 0),
    }
}

/// TASK-COUNT ( -- total waiting running done failed )
#[verifier::opaque]
pub open spec fn p_task_count(v: VmV) -> VmV {
    match v.mesh {
        Some(m) => {
            let s = m.goals.tasks;
            pushed5(
                v,
                cell(s.len()),
                cell(goals::tasks_in(s, TaskStatus::Waiting)),
                cell(goals::tasks_in(s, TaskStatus::Running)),
                cell(goals::tasks_in(s, TaskStatus::Done)),
                cell(goals::tasks_in(s, TaskStatus::Failed)),
            )
        },
        None => pushed5(v, 0, 0, 0, 0, 0),
    }
}

/// The average score of a unit and its peers, rounded towards zero.
pub open spec fn mesh_average(m: MeshV, own: i64) -> i64 {
    if m.peers.len() == 0 {
        own
    } else {
        num::quotient(
            consent::fitness_sum(m.peers).wrapping_add(own) as int,
            (m.peers.len() + 1) as int,
        ) as i64
    }
}

/// MESH-AVG-FITNESS ( -- average )
#[verifier::opaque]
pub open spec fn p_mesh_average(v: VmV) -> VmV {
    base::pushed(v, match v.mesh {
        Some(m) => mesh_average(m, v.fitness.score),
        None => 0,
    })
}

/// The average score of a unit and its peers.
pub fn average_of(m: &MeshNode, own: i64) -> (a: i64)
    ensures
        a == mesh_average(m@, own),
{
    if m.peers.len() == 0 {
        return own;
    }
    let total: i128 = m.sum_fitness().wrapping_add(own) as i128;
    let n: i128 = m.peers.len() as i128 + 1;
    if total >= 0 {
        proof {
            vstd::arithmetic::div_mod::lemma_div_is_ordered_by_denominator(
                total as int,
                1,
                n as int,
            );
        }
        (total / n) as i64
    } else {
        proof {
            vstd::arithmetic::div_mod::lemma_div_is_ordered_by_denominator(
                -total as int,
                1,
                n as int,
            );
        }
        (-((-total) / n)) as i64
    }
}

impl VM {
    fn push5(&mut self, a: Cell, b: Cell, c: Cell, d: Cell, e: Cell)
        ensures
            final(self)@ == pushed5(old(self)@, a, b, c, d, e),
    {
        self.push(a);
        self.push(b);
        self.push(c);
        self.push(d);
        self.push(e);
    }

    pub(crate) fn prim_goal_count(&mut self)
        ensures
            final(self)@ == p_goal_count(old(self)@),
    {
        reveal(p_goal_count);
        let (a, b, c, d, e): (Cell, Cell, Cell, Cell, Cell) = match &self.mesh {
            Some(m) => (
                m.goals.goals.len() as Cell,
                m.goals.count_goals(GoalStatus::Pending) as Cell,
                m.goals.count_goals(GoalStatus::Active) as Cell,
                m.goals.count_goals(GoalStatus::Completed) as Cell,
                m.goals.count_goals(GoalStatus::Failed) as Cell,
            ),
            None => (0, 0, 0, 0, 0),
        };
        self.push5(a, b, c, d, e);
    }

    pub(crate) fn prim_task_count(&mut self)
        ensures
            final(self)@ == p_task_count(old(self)@),
    {
        reveal(p_task_count);
        let (a, b, c, d, e): (Cell, Cell, Cell, Cell, Cell) = match &self.mesh {
            Some(m) => (
                m.goals.tasks.len() as Cell,
                m.goals.count_tasks(TaskStatus::Waiting) as Cell,
                m.goals.count_tasks(TaskStatus::Running) as Cell,
                m.goals.count_tasks(TaskStatus::Done) as Cell,
                m.goals.count_tasks(TaskStatus::Failed) as Cell,
            ),
            None => (0, 0, 0, 0, 0),
        };
        self.push5(a, b, c, d, e);
    }

    pub(crate) fn prim_mesh_avg_fitness(&mut self)
        ensures
            final(self)@ == p_mesh_average(old(self)@),
    {
        reveal(p_mesh_average);
        let a: Cell = match &self.mesh {
            Some(m) => average_of(m, self.fitness.score),
            None => 0,
        };
        self.push(a);
    }
}

// ---------------------------------------------------------------------------
// The swarm
// ---------------------------------------------------------------------------

/// DISCOVER ( -- )
#[verifier::opaque]
pub open spec fn p_discover(v: VmV) -> VmV {
    match v.mesh {
        Some(m) => base::emit(
            with_mesh(v, consensus::announced(m)),
            "discovery beacon sent\n"@,
        ),
        None => v,
    }
}

/// The switches of the swarm.
#[derive(Clone, Copy, PartialEq, Eq, Structural)]
pub enum Switch {
    Discover,
    Share,
    Spawn,
    Cull,
}

/// The name of a switch.
pub open spec fn switch_name(s: Switch) -> Seq<char> {
    match s {
        Switch::Discover => "auto-discover: "@,
        Switch::Share => "auto-share: "@,
        Switch::Spawn => "auto-spawn: "@,
        Switch::Cull => "auto-cull: "@,
    }
}

/// How a switch stands.
pub open spec fn switched(m: MeshV, s: Switch) -> bool {
    match s {
        Switch::Discover => m.auto_discover,
        Switch::Share => m.auto_share,
        Switch::Spawn => m.auto_spawn,
        Switch::Cull => m.auto_cull,
    }
}

/// The node with a switch turned over.
pub open spec fn flipped(m: MeshV, s: Switch) -> MeshV {
    match s {
        Switch::Discover => MeshV { auto_discover: !m.auto_discover, ..m },
        Switch::Share => MeshV { auto_share: !m.auto_share, ..m },
        Switch::Spawn => MeshV { auto_spawn: !m.auto_spawn, ..m },
        Switch::Cull => MeshV { auto_cull: !m.auto_cull, ..m },
    }
}

/// AUTO-DISCOVER, AUTO-SHARE, AUTO-SPAWN and AUTO-CULL ( -- )
#[verifier::opaque]
pub open spec fn p_switch(v: VmV, s: Switch) -> VmV {
    match v.mesh {
        Some(m) => base::emit(
            with_mesh(v, flipped(m, s)),
            switch_name(s) + consent::on_off(!switched(m, s)) + "\n"@,
        ),
        None => v,
    }
}

/// The source that stands for a shared word.
pub open spec fn shared_source(name: Seq<char>) -> Seq<char> {
    ": "@ + name + " ;"@
}

/// The node after it has shared a word.
pub open spec fn shared(m: MeshV, name: Seq<char>) -> MeshV {
    node::sent(m, message::word_bytes(m.id, m.port, name, shared_source(name)))
}

/// SHARE" name" ( -- )
#[verifier::opaque]
pub open spec fn p_share(v: VmV) -> VmV {
    let (s, v) = base::parsed(v, '"');
    let name = text::upper(s);
    if base::found(v, name).is_some() {
        match v.mesh {
            Some(m) => base::emit(with_mesh(v, shared(m, name)), "shared: "@ + name + "\n"@),
            None => v,
        }
    } else {
        base::emit(v, name + "?\n"@)
    }
}

/// The node after it has shared those of the first `n` words that are visible and have more than
/// one instruction; and how many they are.
pub open spec fn all_shared(m: MeshV, d: Seq<WordV>, n: int) -> (MeshV, nat)
    decreases n,
{
    if n <= 0 {
        (m, 0)
    } else {
        let (r, k) = all_shared(m, d, n - 1);
        if d[n - 1].body.len() > 1 && !d[n - 1].hidden {
            (shared(r, d[n - 1].name), k + 1)
        } else {
            (r, k)
        }
    }
}

/// SHARE-ALL ( -- )
#[verifier::opaque]
pub open spec fn p_share_all(v: VmV) -> VmV {
    match v.mesh {
        Some(m) => {
            let (r, k) = all_shared(m, v.dict, v.dict.len() as int);
            base::emit(with_mesh(v, r), "shared "@ + text::dec(k) + " words\n"@)
        },
        None => v,
    }
}

/// Shared words as lines.
pub open spec fn origin_lines(s: Seq<(Seq<char>, Seq<char>)>) -> Seq<char>
    decreases s.len(),
{
    if s.len() == 0 {
        Seq::empty()
    } else {
        origin_lines(s.drop_last()) + ("  "@ + s.last().0 + " from "@ + s.last().1 + "\n"@)
    }
}

/// SHARED-WORDS ( -- )
#[verifier::opaque]
pub open spec fn p_shared_words(v: VmV) -> VmV {
    match v.mesh {
        Some(m) => if m.shared_words.len() == 0 {
            base::emit(v, "  (no shared words)\n"@)
        } else {
            base::emit(v, origin_lines(api::origins(m.shared_words)))
        },
        None => v,
    }
}

/// The larger of a number and 1.
pub open spec fn or_one(n: usize) -> usize {
    if n < 1 {
        1
    } else {
        n
    }
}

/// MIN-UNITS ( n -- )
#[verifier::opaque]
pub open spec fn p_min_units(v: VmV) -> VmV {
    let (x, v) = base::popped(v);
    let n = x as usize;
    match v.mesh {
        Some(m) => base::emit(
            with_mesh(v, MeshV { min_units: or_one(n), ..m }),
            "min-units: "@ + text::dec(n as nat) + "\n"@,
        ),
        None => v,
    }
}

/// MAX-UNITS ( n -- )
#[verifier::opaque]
pub open spec fn p_max_units(v: VmV) -> VmV {
    let (x, v) = base::popped(v);
    let n = x as usize;
    match v.mesh {
        Some(m) => base::emit(
            with_mesh(v, MeshV { max_units: or_one(n), ..m }),
            "max-units: "@ + text::dec(n as nat) + "\n"@,
        ),
        None => v,
    }
}

/// SWARM-STATUS ( -- )
#[verifier::opaque]
pub open spec fn p_swarm_status(v: VmV) -> VmV {
    match v.mesh {
        Some(m) => base::emit(v, consent::swarm_text(m)),
        None => base::emit(v, "swarm: offline\n"@),
    }
}

impl VM {
    pub(crate) fn prim_discover(&mut self)
        ensures
            final(self)@ == p_discover(old(self)@),
    {
        reveal(p_discover);
        match self.take_mesh() {
            Some(m) => {
                let mut m = m;
                m.send_discovery_beacon();
                self.put_mesh(m);
                self.emit_str("discovery beacon sent\n");
            },
            None => {},
        }
    }

    pub(crate) fn prim_switch(&mut self, which: Switch)
        ensures
            final(self)@ == p_switch(old(self)@, which),
    {
        reveal(p_switch);
        match self.take_mesh() {
            Some(m) => {
                let mut m = m;
                let mut s: String;
                let on: bool;
                match which {
                    Switch::Discover => {
                        on = !m.auto_discover;
                        m.auto_discover = on;
                        s = text("auto-discover: ");
                    },
                    Switch::Share => {
                        on = !m.auto_share;
                        m.auto_share = on;
                        s = text("auto-share: ");
                    },
                    Switch::Spawn => {
                        on = !m.auto_spawn;
                        m.auto_spawn = on;
                        s = text("auto-spawn: ");
                    },
                    Switch::Cull => {
                        on = !m.auto_cull;
                        m.auto_cull = on;
                        s = text("auto-cull: ");
                    },
                }
                self.put_mesh(m);
                s.append(if on {
                    "ON"
                } else {
                    "OFF"
                });
                s.append("\n");
                self.emit_str(s.as_str());
            },
            None => {},
        }
    }

    fn source_of(name: &str) -> (s: String)
        ensures
            s@ == shared_source(name@),
    {
        let mut s = text(": ");
        s.append(name);
        s.append(" ;");
        s
    }

    pub(crate) fn prim_share_word(&mut self)
        ensures
            final(self)@ == p_share(old(self)@),
    {
        reveal(p_share);
        let s = self.parse_until('"');
        let name = to_upper(s.as_str());
        assert(name@ == text::upper(s@));
        if self.find_word(name.as_str()).is_some() {
            match self.take_mesh() {
                Some(m) => {
                    let mut m = m;
                    m.share_word(name.as_str(), Self::source_of(name.as_str()).as_str());
                    self.put_mesh(m);
                    let mut s = text("shared: ");
                    s.append(name.as_str());
                    s.append("\n");
                    self.emit_str(s.as_str());
                },
                None => {},
            }
        } else {
            let mut s = name;
            s.append("?\n");
            self.emit_str(s.as_str());
        }
    }

    /// Shares all visible words with more than one instruction: how many.
    fn share_all(&self, m: &mut MeshNode) -> (k: usize)
        ensures
            (final(m)@, k as nat) == all_shared(
                old(m)@,
                self@.dict,
                self@.dict.len() as int,
            ),
    {
        let mut k: usize = 0;
        let mut i: usize = 0;
        while i < self.dictionary.len()
            invariant
                k <= i <= self.dictionary@.len(),
                (m@, k as nat) == all_shared(old(m)@, self@.dict, i as int),
            decreases self.dictionary@.len() - i,
        {
            assert(self@.dict[i as int] == self.dictionary@[i as int]@);
            if self.dictionary[i].body.len() > 1 && !self.dictionary[i].hidden {
                let source = Self::source_of(self.dictionary[i].name.as_str());
                m.share_word(self.dictionary[i].name.as_str(), source.as_str());
                k = k + 1;
            }
            i = i + 1;
        }
        k
    }

    pub(crate) fn prim_share_all(&mut self)
        ensures
            final(self)@ == p_share_all(old(self)@),
    {
        reveal(p_share_all);
        match self.take_mesh() {
            Some(m) => {
                let mut m = m;
                let k = self.share_all(&mut m);
                self.put_mesh(m);
                let mut s = text("shared ");
                push_usize(&mut s, k);
                s.append(" words\n");
                self.emit_str(s.as_str());
            },
            None => {},
        }
    }

    pub(crate) fn prim_shared_words(&mut self)
        ensures
            final(self)@ == p_shared_words(old(self)@),
    {
        reveal(p_shared_words);
        let words = match &self.mesh {
            Some(m) => m.shared_words_list(),
            None => {
                return;
            },
        };
        if words.len() == 0 {
            self.emit_str("  (no shared words)\n");
            return;
        }
        let ghost ws = api::pair_views(words@);
        let mut out = String::new();
        let mut i: usize = 0;
        assert(out@ =~= origin_lines(ws.take(0)));
        while i < words.len()
            invariant
                i <= words@.len(),
                ws == api::pair_views(words@),
                out@ == origin_lines(ws.take(i as int)),
            decreases words@.len() - i,
        {
            let mut s = text("  ");
            s.append(words[i].0.as_str());
            s.append(" from ");
            s.append(words[i].1.as_str());
            s.append("\n");
            out.append(s.as_str());
            i = i + 1;
            assert(ws.take(i as int).drop_last() =~= ws.take(i - 1));
        }
        assert(ws.take(i as int) =~= ws);
        self.emit_str(out.as_str());
    }

    pub(crate) fn prim_min_units(&mut self)
        ensures
            final(self)@ == p_min_units(old(self)@),
    {
        reveal(p_min_units);
        let n = self.pop() as usize;
        match self.take_mesh() {
            Some(m) => {
                let mut m = m;
                m.min_units = if n < 1 {
                    1
                } else {
                    n
                };
                self.put_mesh(m);
                let mut s = text("min-units: ");
                push_usize(&mut s, n);
                s.append("\n");
                self.emit_str(s.as_str());
            },
            None => {},
        }
    }

    pub(crate) fn prim_max_units(&mut self)
        ensures
            final(self)@ == p_max_units(old(self)@),
    {
        reveal(p_max_units);
        let n = self.pop() as usize;
        match self.take_mesh() {
            Some(m) => {
                let mut m = m;
                m.max_units = if n < 1 {
                    1
                } else {
                    n
                };
                self.put_mesh(m);
                let mut s = text("max-units: ");
                push_usize(&mut s, n);
                s.append("\n");
                self.emit_str(s.as_str());
            },
            None => {},
        }
    }

    pub(crate) fn prim_swarm_status(&mut self)
        ensures
            final(self)@ == p_swarm_status(old(self)@),
    {
        reveal(p_swarm_status);
        let s = match &self.mesh {
            Some(m) => m.format_swarm_status(),
            None => text("swarm: offline\n"),
        };
        self.emit_str(s.as_str());
    }
}

// ---------------------------------------------------------------------------
// Consent
// ---------------------------------------------------------------------------

/// What is told of a trust level.
pub open spec fn trust_text(l: TrustLevel) -> Seq<char> {
    match l {
        TrustLevel::All => "trust: ALL (auto-accept everything)\n"@,
        TrustLevel::Mesh => "trust: MESH (auto-accept known peers)\n"@,
        TrustLevel::Family => "trust: FAMILY (auto-accept parent/children)\n"@,
        TrustLevel::Nobody => "trust: NONE (manual approval required)\n"@,
    }
}

/// TRUST-ALL, TRUST-MESH, TRUST-FAMILY and TRUST-NONE ( -- )
#[verifier::opaque]
pub open spec fn p_set_trust(v: VmV, l: TrustLevel) -> VmV {
    match v.mesh {
        Some(m) => base::emit(with_mesh(v, MeshV { trust: l, ..m }), trust_text(l)),
        None => v,
    }
}

/// TRUST-LEVEL ( -- n )
#[verifier::opaque]
pub open spec fn p_trust_level(v: VmV) -> VmV {
    match v.mesh {
        Some(m) => base::emit(
            base::pushed(v, node::trust_value(m.trust)),
            "trust: "@ + node::trust_label(m.trust) + "\n"@,
        ),
        None => base::pushed(v, 0),
    }
}

/// REQUESTS ( -- )
#[verifier::opaque]
pub open spec fn p_requests(v: VmV, t: Time) -> VmV {
    match v.mesh {
        Some(m) => base::emit(v, consent::requests_text(m, t.now)),
        None => v,
    }
}

/// Seconds since the Unix epoch.
pub open spec fn seconds(t: Time) -> u64 {
    t.epoch / 1000
}

/// ACCEPT ( -- )
#[verifier::opaque]
pub open spec fn p_accept(v: VmV, t: Time) -> VmV {
    match v.mesh {
        Some(m) => if m.requests.len() > 0 {
            base::emit(
                with_mesh(v, consent::oldest_answered(m, "accepted"@, seconds(t))),
                "accepted request #"@ + text::dec(m.requests[0].id as nat) + " from "@ + text::hex(
                    m.requests[0].sender,
                ) + "\n"@,
            )
        } else {
            base::emit(v, "no pending requests\n"@)
        },
        None => v,
    }
}

/// DENY ( -- )
#[verifier::opaque]
pub open spec fn p_deny(v: VmV, t: Time) -> VmV {
    match v.mesh {
        Some(m) => if m.requests.len() > 0 {
            base::emit(
                with_mesh(v, consent::oldest_answered(m, "denied"@, seconds(t))),
                "denied request #"@ + text::dec(m.requests[0].id as nat) + "\n"@,
            )
        } else {
            base::emit(v, "no pending requests\n"@)
        },
        None => v,
    }
}

/// DENY-ALL ( -- )
#[verifier::opaque]
pub open spec fn p_deny_all(v: VmV, t: Time) -> VmV {
    match v.mesh {
        Some(m) => base::emit(
            with_mesh(
                v,
                MeshV {
                    requests: Seq::empty(),
                    log: m.log + consent::all_denied(m.requests, seconds(t)),
                    ..m
                },
            ),
            "denied "@ + text::dec(m.requests.len()) + " request(s)\n"@,
        ),
        None => v,
    }
}

/// REPLICATION-LOG ( -- )
#[verifier::opaque]
pub open spec fn p_replication_log(v: VmV) -> VmV {
    match v.mesh {
        Some(m) => base::emit(v, consent::log_text(m)),
        None => v,
    }
}

impl VM {
    pub(crate) fn prim_set_trust(&mut self, l: TrustLevel)
        ensures
            final(self)@ == p_set_trust(old(self)@, l),
    {
        reveal(p_set_trust);
        match self.take_mesh() {
            Some(m) => {
                let mut m = m;
                m.set_trust_level(l);
                self.put_mesh(m);
                match l {
                    TrustLevel::All => self.emit_str("trust: ALL (auto-accept everything)\n"),
                    TrustLevel::Mesh => self.emit_str("trust: MESH (auto-accept known peers)\n"),
                    TrustLevel::Family => {
                        self.emit_str("trust: FAMILY (auto-accept parent/children)\n")
                    },
                    TrustLevel::Nobody => {
                        self.emit_str("trust: NONE (manual approval required)\n")
                    },
                }
            },
            None => {},
        }
    }

    pub(crate) fn prim_trust_level(&mut self)
        ensures
            final(self)@ == p_trust_level(old(self)@),
    {
        reveal(p_trust_level);
        let level = match &self.mesh {
            Some(m) => m.trust_level(),
            None => {
                self.push(0);
                return;
            },
        };
        self.push(level.as_val());
        let mut s = text("trust: ");
        s.append(level.label());
        s.append("\n");
        self.emit_str(s.as_str());
    }

    pub(crate) fn prim_requests(&mut self, t: Time)
        ensures
            final(self)@ == p_requests(old(self)@, t),
    {
        reveal(p_requests);
        let s = match &self.mesh {
            Some(m) => m.format_requests(t.now),
            None => {
                return;
            },
        };
        self.emit_str(s.as_str());
    }

    pub(crate) fn prim_accept_req(&mut self, t: Time)
        ensures
            final(self)@ == p_accept(old(self)@, t),
    {
        reveal(p_accept);
        match self.take_mesh() {
            Some(m) => {
                let mut m = m;
                let r = m.accept_oldest(t.epoch / 1000);
                self.put_mesh(m);
                match r {
                    Some((sender, id)) => {
                        let mut s = text("accepted request #");
                        push_u64(&mut s, id as u64);
                        s.append(" from ");
                        s.append(id_to_hex(&sender).as_str());
                        s.append("\n");
                        self.emit_str(s.as_str());
                    },
                    None => self.emit_str("no pending requests\n"),
                }
            },
            None => {},
        }
    }

    pub(crate) fn prim_deny_req(&mut self, t: Time)
        ensures
            final(self)@ == p_deny(old(self)@, t),
    {
        reveal(p_deny);
        match self.take_mesh() {
            Some(m) => {
                let mut m = m;
                let r = m.deny_oldest(t.epoch / 1000);
                self.put_mesh(m);
                match r {
                    Some(id) => {
                        let mut s = text("denied request #");
                        push_u64(&mut s, id as u64);
                        s.append("\n");
                        self.emit_str(s.as_str());
                    },
                    None => self.emit_str("no pending requests\n"),
                }
            },
            None => {},
        }
    }

    pub(crate) fn prim_deny_all_req(&mut self, t: Time)
        ensures
            final(self)@ == p_deny_all(old(self)@, t),
    {
        reveal(p_deny_all);
        match self.take_mesh() {
            Some(m) => {
                let mut m = m;
                let n = m.deny_all_requests(t.epoch / 1000);
                self.put_mesh(m);
                let mut s = text("denied ");
                push_usize(&mut s, n);
                s.append(" request(s)\n");
                self.emit_str(s.as_str());
            },
            None => {},
        }
    }

    pub(crate) fn prim_replication_log(&mut self)
        ensures
            final(self)@ == p_replication_log(old(self)@),
    {
        reveal(p_replication_log);
        let s = match &self.mesh {
            Some(m) => m.format_replication_log(),
            None => {
                return;
            },
        };
        self.emit_str(s.as_str());
    }
}

} // verus!
