//! Runs in the sandbox, and what becomes of their results.

use crate::features::fitness;
use crate::features::fitness::FitV;
use crate::goals;
use crate::goals::{push_cells, ResultV, TaskResult};
use crate::mesh::api;
use crate::mesh::node;
use crate::mesh::node::{elapsed_since, MeshV};
use crate::persist;
use crate::persist::{serialize_snapshot, SnapV, VmSnapshot};
use crate::text;
use crate::text::{push_u64, split_lines, take_chars, text, trimmed_end};
use crate::types::{clone_cells, clone_dictionary, clone_texts, Cell};
use crate::vm::base;
use crate::vm::net;
use crate::vm::state::{
    After, AfterV, Frame, FrameV, Request, RequestV, Saved, SavedV, Time, VmV, VM,
};
use crate::wire::NodeId;
use vstd::prelude::*;

verus! {

// ---------------------------------------------------------------------------
// Snapshots
// ---------------------------------------------------------------------------

/// The snapshot of the machine.
pub open spec fn snapshot(v: VmV) -> SnapV {
    SnapV {
        node_id: match v.node_id {
            Some(id) => id,
            None => crate::wire::zero_id(),
        },
        dictionary: v.dict,
        memory: v.memory,
        here: v.here,
        goals: match v.mesh {
            Some(m) => m.goals,
            None => goals::GoalsV { goals: Seq::empty(), tasks: Seq::empty(), counter: 1 },
        },
        fitness: v.fitness,
        code_strings: v.codes,
    }
}

/// The bytes of a snapshot of the machine.
#[verifier::opaque]
pub open spec fn snapshot_bytes(v: VmV) -> Seq<u8> {
    persist::w_snapshot(snapshot(v))
}

impl VM {
    /// A snapshot of the machine.
    pub fn make_snapshot(&self) -> (s: VmSnapshot)
        ensures
            s@ == snapshot(self@),
    {
        let node_id: NodeId = match self.node_id_cache {
            Some(id) => id,
            None => {
                let z: NodeId = [0, 0, 0, 0, 0, 0, 0, 0];
                assert(z@ =~= crate::wire::zero_id());
                z
            },
        };
        let goals = match &self.mesh {
            Some(m) => m.clone_goals(),
            None => goals::GoalRegistry::empty(),
        };
        VmSnapshot {
            node_id,
            dictionary: clone_dictionary(&self.dictionary),
            memory: clone_cells(&self.memory),
            here: self.here,
            goals,
            fitness: self.fitness.clone(),
            code_strings: clone_texts(&self.code_strings),
        }
    }

    /// The bytes of a snapshot of the machine.
    pub(crate) fn snapshot_data(&self) -> (b: Vec<u8>)
        ensures
            b@ == snapshot_bytes(self@),
    {
        reveal(snapshot_bytes);
        serialize_snapshot(&self.make_snapshot())
    }
}

// ---------------------------------------------------------------------------
// Automatic saving
// ---------------------------------------------------------------------------

/// The machine after a task, when it saves itself every few tasks.
#[verifier::opaque]
pub open spec fn save_checked(v: VmV) -> VmV {
    if !v.auto_save {
        v
    } else {
        let n = v.since_save.wrapping_add(1);
        if n >= v.save_every {
            let v = VmV { since_save: 0, ..v };
            match v.node_id {
                Some(id) => base::asked(
                    v,
                    RequestV::SaveState { id, data: snapshot_bytes(v), quiet: true },
                ),
                None => v,
            }
        } else {
            VmV { since_save: n, ..v }
        }
    }
}

impl VM {
    /// Saves the machine if enough tasks have ended.
    pub(crate) fn check_auto_save(&mut self)
        ensures
            final(self)@ == save_checked(old(self)@),
    {
        reveal(save_checked);
        if !self.auto_save_enabled {
            return;
        }
        let n = self.tasks_since_save.wrapping_add(1);
        if n >= self.auto_save_interval {
            self.tasks_since_save = 0;
            match self.node_id_cache {
                Some(id) => {
                    let data = self.snapshot_data();
                    self.ask(Request::SaveState { id, data, quiet: true });
                },
                None => {},
            }
        } else {
            self.tasks_since_save = n;
        }
    }
}

// ---------------------------------------------------------------------------
// Beginning and ending a run
// ---------------------------------------------------------------------------

/// When a run that starts now has to end.
pub open spec fn deadline(now: u64, seconds: u64) -> u64 {
    if now + seconds * 1000 <= u64::MAX {
        (now + seconds * 1000) as u64
    } else {
        u64::MAX
    }
}

/// What a sandbox puts aside.
pub open spec fn put_aside(v: VmV) -> SavedV {
    SavedV {
        stack: v.stack,
        rstack: v.rstack,
        silent: v.silent,
        compiling: v.compiling,
        def: v.def,
        output: v.output,
        deadline: v.deadline,
        timed_out: v.timed_out,
        sandbox: v.sandbox,
    }
}

/// The machine inside a new sandbox: empty stacks, captured output, and a time limit.
pub open spec fn sandboxed(v: VmV, now: u64) -> VmV {
    VmV {
        stack: Seq::empty(),
        rstack: Seq::empty(),
        silent: true,
        compiling: false,
        def: None,
        output: Some(Seq::empty()),
        deadline: Some(deadline(now, v.timeout)),
        timed_out: false,
        sandbox: true,
        ..v
    }
}

/// The machine after it has begun to run code in a sandbox.
#[verifier::opaque]
pub open spec fn confined(v: VmV, code: Seq<char>, after: AfterV, t: Time) -> VmV {
    base::framed(
        sandboxed(v, t.now),
        FrameV::Sandbox { saved: put_aside(v), lines: text::lines(code), next: 0, after },
    )
}

/// True if a sandbox has another line to run.
pub open spec fn goes_on(v: VmV, lines: nat, next: usize) -> bool {
    next < lines && (next == 0 || (!v.timed_out && v.running))
}

/// The result of a run in a sandbox.
pub open spec fn outcome(v: VmV) -> ResultV {
    ResultV {
        stack: v.stack,
        output: match v.output {
            Some(s) => s,
            None => Seq::empty(),
        },
        success: !v.timed_out,
        error: if v.timed_out {
            Some("execution timeout ("@ + text::dec(v.timeout as nat) + "s)"@)
        } else {
            None
        },
    }
}

/// The machine outside the sandbox, as it was before it but for what the run has changed for good.
/// A run does not stop the machine.
#[verifier::opaque]
pub open spec fn restored(v: VmV, s: SavedV) -> VmV {
    VmV {
        stack: s.stack,
        rstack: s.rstack,
        silent: s.silent,
        compiling: s.compiling,
        def: s.def,
        output: s.output,
        deadline: s.deadline,
        timed_out: s.timed_out,
        sandbox: s.sandbox,
        running: true,
        ..v
    }
}

impl VM {
    /// Begins to run code in a sandbox.
    pub(crate) fn begin_sandbox(&mut self, code: &str, after: After, t: Time)
        ensures
            final(self)@ == confined(old(self)@, code@, after@, t),
    {
        reveal(confined);
        let ghost v = self@;
        let mut stack: Vec<Cell> = Vec::new();
        std::mem::swap(&mut stack, &mut self.stack);
        let mut rstack: Vec<Cell> = Vec::new();
        std::mem::swap(&mut rstack, &mut self.rstack);
        let saved = Saved {
            stack,
            rstack,
            silent: self.silent,
            compiling: self.compiling,
            current_def: self.current_def.take(),
            output_buffer: self.output_buffer.take(),
            deadline: self.deadline,
            timed_out: self.timed_out,
            sandbox_active: self.sandbox_active,
        };
        let limit: u128 = t.now as u128 + self.execution_timeout as u128 * 1000;
        self.deadline = Some(if limit <= 0xFFFF_FFFF_FFFF_FFFF {
            limit as u64
        } else {
            0xFFFF_FFFF_FFFF_FFFF
        });
        let out = String::new();
        assert(out@ =~= Seq::<char>::empty());
        self.output_buffer = Some(out);
        self.silent = true;
        self.sandbox_active = true;
        self.compiling = false;
        self.timed_out = false;
        assert(self.stack@ =~= Seq::<i64>::empty());
        assert(self.rstack@ =~= Seq::<i64>::empty());
        assert(self@ == sandboxed(v, t.now));
        let lines = split_lines(code);
        self.enter(Frame::Sandbox { saved, lines, next: 0, after });
    }

    /// The result of a run in a sandbox.
    pub(crate) fn sandbox_result(&self) -> (r: TaskResult)
        ensures
            r@ == outcome(self@),
    {
        let output = match &self.output_buffer {
            Some(s) => s.clone(),
            None => {
                let s = String::new();
                assert(s@ =~= Seq::<char>::empty());
                s
            },
        };
        let error: Option<String> = if self.timed_out {
            let mut e = text("execution timeout (");
            push_u64(&mut e, self.execution_timeout);
            e.append("s)");
            Some(e)
        } else {
            None
        };
        TaskResult {
            stack_snapshot: clone_cells(&self.stack),
            output,
            success: !self.timed_out,
            error,
        }
    }

    /// Puts back what a sandbox put aside.
    pub(crate) fn restore(&mut self, s: Saved)
        ensures
            final(self)@ == restored(old(self)@, s@),
    {
        reveal(restored);
        self.stack = s.stack;
        self.rstack = s.rstack;
        self.silent = s.silent;
        self.compiling = s.compiling;
        self.current_def = s.current_def;
        self.output_buffer = s.output_buffer;
        self.deadline = s.deadline;
        self.timed_out = s.timed_out;
        self.sandbox_active = s.sandbox_active;
        self.running = true;
    }
}

// ---------------------------------------------------------------------------
// Results
// ---------------------------------------------------------------------------

/// What is told of the result of a task.
pub open spec fn told(mark: Seq<char>, r: ResultV) -> Seq<char> {
    (if r.output.len() == 0 {
        Seq::<char>::empty()
    } else {
        mark + "output: "@ + text::trim_end(r.output) + "\n"@
    }) + (if r.stack.len() == 0 {
        Seq::<char>::empty()
    } else {
        mark + "stack: "@ + goals::cells_text(r.stack) + "\n"@
    }) + (if r.success {
        Seq::<char>::empty()
    } else {
        mark + "FAILED: "@ + (match r.error {
            Some(e) => e,
            None => "unknown"@,
        }) + "\n"@
    })
}

fn tell(mark: &str, r: &TaskResult) -> (s: String)
    ensures
        s@ == told(mark@, r@),
{
    let mut a = String::new();
    if !r.output.as_str().is_empty() {
        a = text(mark);
        a.append("output: ");
        a.append(trimmed_end(r.output.as_str()).as_str());
        a.append("\n");
    } else {
        assert(a@ =~= Seq::<char>::empty());
    }
    let mut b = String::new();
    if r.stack_snapshot.len() > 0 {
        b = text(mark);
        b.append("stack: ");
        push_cells(&mut b, &r.stack_snapshot);
        b.append("\n");
    } else {
        assert(b@ =~= Seq::<char>::empty());
    }
    let mut c = String::new();
    if !r.success {
        c = text(mark);
        c.append("FAILED: ");
        match &r.error {
            Some(e) => c.append(e.as_str()),
            None => c.append("unknown"),
        }
        c.append("\n");
    } else {
        assert(c@ =~= Seq::<char>::empty());
    }
    a.append(b.as_str());
    a.append(c.as_str());
    a
}

/// The machine after a task that was claimed by hand has run.
#[verifier::opaque]
pub open spec fn claim_ended(v: VmV, task: u64, r: ResultV) -> VmV {
    let v = base::printed(v, told("  "@, r));
    base::pushed(match v.mesh {
        Some(m) => net::with_mesh(v, api::task_completed(m, task, r)),
        None => v,
    }, task as i64)
}

/// The score after a task that took so long.
pub open spec fn after_task(f: FitV, success: bool, elapsed: u64) -> FitV {
    if success {
        fitness::after_success(f, elapsed)
    } else {
        fitness::after_failure(f)
    }
}

/// The machine with a task counted.
#[verifier::opaque]
pub open spec fn counted(v: VmV, success: bool, elapsed: u64) -> VmV {
    VmV { fitness: after_task(v.fitness, success, elapsed), ..v }
}

/// The machine after it has told the mesh the result of a task, and its score.
#[verifier::opaque]
pub open spec fn announced_result(v: VmV, task: u64, r: ResultV) -> VmV {
    match v.mesh {
        Some(m) => net::with_mesh(
            v,
            MeshV { fitness: v.fitness.score, ..api::task_completed(m, task, r) },
        ),
        None => v,
    }
}

/// The machine after a task that was claimed automatically has run.
#[verifier::opaque]
pub open spec fn auto_claim_ended(v: VmV, task: u64, start: u64, r: ResultV, t: Time) -> VmV {
    let v = counted(v, r.success, node::since(start, t.now) as u64);
    let v = base::printed(v, told("[auto] "@, r));
    let v = announced_result(v, task, r);
    base::printed(save_checked(v), "[auto] task #"@ + text::dec(task as nat) + " done\n"@)
}

impl VM {
    pub(crate) fn finish_claim(&mut self, task: u64, r: TaskResult)
        ensures
            final(self)@ == claim_ended(old(self)@, task, r@),
    {
        reveal(claim_ended);
        let s = tell("  ", &r);
        self.print_str(s.as_str());
        match self.take_mesh() {
            Some(m) => {
                let mut m = m;
                m.complete_task_with_result(task, r);
                self.put_mesh(m);
            },
            None => {},
        }
        self.push(task as Cell);
    }

    fn count_task(&mut self, success: bool, elapsed: u64)
        ensures
            final(self)@ == counted(old(self)@, success, elapsed),
    {
        reveal(counted);
        if success {
            self.fitness.record_success(elapsed);
        } else {
            self.fitness.record_failure();
        }
    }

    fn announce_result(&mut self, task: u64, r: TaskResult)
        ensures
            final(self)@ == announced_result(old(self)@, task, r@),
    {
        reveal(announced_result);
        let score = self.fitness.score;
        match self.take_mesh() {
            Some(m) => {
                let mut m = m;
                m.complete_task_with_result(task, r);
                m.set_fitness(score);
                self.put_mesh(m);
            },
            None => {},
        }
    }

    pub(crate) fn finish_auto_claim(&mut self, task: u64, start: u64, r: TaskResult, t: Time)
        ensures
            final(self)@ == auto_claim_ended(old(self)@, task, start, r@, t),
    {
        reveal(auto_claim_ended);
        self.count_task(r.success, elapsed_since(start, t.now));
        let s = tell("[auto] ", &r);
        self.print_str(s.as_str());
        self.announce_result(task, r);
        self.check_auto_save();
        let mut s = text("[auto] task #");
        push_u64(&mut s, task);
        s.append(" done\n");
        self.print_str(s.as_str());
    }
}

// ---------------------------------------------------------------------------
// Claiming
// ---------------------------------------------------------------------------

/// CLAIM ( -- task )
#[verifier::opaque]
pub open spec fn p_claim(v: VmV, t: Time) -> VmV {
    match v.mesh {
        Some(m) => match goals::best(m.goals, m.goals.tasks.len() as int, false) {
            Some(i) => {
                let task = m.goals.tasks[i];
                let m1 = api::task_claimed(m, i, false);
                let v1 = base::printed(
                    net::with_mesh(v, m1),
                    "claimed task #"@ + text::dec(task.id as nat) + " (goal #"@ + text::dec(task.goal_id as nat)
                        + "): "@ + task.description + "\n"@,
                );
                match code_of_goal(m1.goals, task.goal_id) {
                    Some(code) => confined(v1, code, AfterV::Claim { task_id: task.id }, t),
                    None => base::pushed(v1, task.id as i64),
                }
            },
            None => base::pushed(base::printed(v, "no tasks available\n"@), 0),
        },
        None => base::pushed(base::printed(v, "no tasks available\n"@), 0),
    }
}

/// The code of a goal, if it has any.
pub open spec fn code_of_goal(g: goals::GoalsV, id: u64) -> Option<Seq<char>> {
    if goals::has_goal(g.goals, id) {
        g.goals[goals::goal_at(g.goals, id)].code
    } else {
        None
    }
}

/// The machine after it has looked for a task to run of its own accord.
#[verifier::opaque]
pub open spec fn claim_checked(v: VmV, t: Time) -> VmV {
    match v.mesh {
        Some(m) => if !v.auto_claim {
            v
        } else {
            match goals::best(m.goals, m.goals.tasks.len() as int, true) {
                Some(i) => {
                    let task = m.goals.tasks[i];
                    confined(
                        base::printed(
                            net::with_mesh(v, api::task_claimed(m, i, true)),
                            "[auto] claimed task #"@ + text::dec(task.id as nat) + " (goal #"@ + text::dec(
                                task.goal_id as nat,
                            ) + "): "@ + text::clip(task.description, 50) + "\n"@,
                        ),
                        goals::code_of(m.goals, task)->0,
                        AfterV::AutoClaim { task_id: task.id, start: t.now },
                        t,
                    )
                },
                None => v,
            }
        },
        None => v,
    }
}

impl VM {
    fn nothing_to_claim(&mut self)
        ensures
            final(self)@ == base::pushed(base::printed(old(self)@, "no tasks available\n"@), 0),
    {
        self.print_str("no tasks available\n");
        self.push(0);
    }

    pub(crate) fn prim_claim(&mut self, t: Time)
        ensures
            final(self)@ == p_claim(old(self)@, t),
    {
        reveal(p_claim);
        match self.take_mesh() {
            Some(m) => {
                let mut m = m;
                match m.claim_task() {
                    Some((task_id, goal_id, desc)) => {
                        let code = m.goal_code(goal_id);
                        self.put_mesh(m);
                        let mut s = text("claimed task #");
                        push_u64(&mut s, task_id);
                        s.append(" (goal #");
                        push_u64(&mut s, goal_id);
                        s.append("): ");
                        s.append(desc.as_str());
                        s.append("\n");
                        self.print_str(s.as_str());
                        match code {
                            Some(c) => self.begin_sandbox(c.as_str(), After::Claim { task_id }, t),
                            None => self.push(task_id as Cell),
                        }
                    },
                    None => {
                        self.put_mesh(m);
                        self.nothing_to_claim();
                    },
                }
            },
            None => self.nothing_to_claim(),
        }
    }

    /// Claims and runs a task, if the machine does so of its own accord.
    pub(crate) fn check_auto_claim(&mut self, t: Time)
        ensures
            final(self)@ == claim_checked(old(self)@, t),
    {
        reveal(claim_checked);
        if !self.auto_claim {
            return;
        }
        match self.take_mesh() {
            Some(m) => {
                let mut m = m;
                match m.claim_executable_task() {
                    Some((task_id, goal_id, desc, code)) => {
                        self.put_mesh(m);
                        let mut s = text("[auto] claimed task #");
                        push_u64(&mut s, task_id);
                        s.append(" (goal #");
                        push_u64(&mut s, goal_id);
                        s.append("): ");
                        s.append(take_chars(desc.as_str(), 50).as_str());
                        s.append("\n");
                        self.print_str(s.as_str());
                        self.begin_sandbox(
                            code.as_str(),
                            After::AutoClaim { task_id, start: t.now },
                            t,
                        );
                    },
                    None => self.put_mesh(m),
                }
            },
            None => {},
        }
    }
}

} // verus!
