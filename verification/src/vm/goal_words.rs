//! Words on goals and tasks.

use crate::goals;
use crate::goals::{push_cells, GoalRegistry, GoalsV, ResultV, TaskResult};
use crate::mesh::api;
use crate::mesh::node::MeshV;
use crate::num;
use crate::text;
use crate::text::{
    find_text, from_chars, push_i64, push_u64, push_usize, take_chars, text, to_chars, trimmed_end,
};
use crate::types::{clone_cells, Cell, Instruction, Op};
use crate::vm::base;
use crate::vm::net;
use crate::vm::state::{Frame, FrameV, Time, VmV, VM};
use vstd::prelude::*;

verus! {

/// The number of the built-in word that creates a goal from compiled code.
pub const P_GOAL_EXEC_RT: usize = 102;

/// The number of the built-in word that reduces with compiled code.
pub const P_REDUCE_RT: usize = 106;

/// The number of the word SUBTASK{.
pub const P_SUBTASK: usize = 210;

/// A cell as an identity.
pub open spec fn ident(x: i64) -> u64 {
    x as u64
}

/// The machine after a word with a text has been compiled: the text's number, then the word that
/// uses it.
#[verifier::opaque]
pub open spec fn with_text_op(v: VmV, s: Seq<char>, id: usize) -> VmV {
    let (i, v) = base::stored(v, s);
    base::compiled(base::compiled(v, Op::Literal(i)), Op::Primitive(id))
}

impl VM {
    /// Compiles a word with a text.
    pub(crate) fn compile_text_op(&mut self, s: String, id: usize)
        ensures
            final(self)@ == with_text_op(old(self)@, s@, id),
    {
        reveal(with_text_op);
        let i = self.store_text(s);
        self.compile(Instruction::Literal(i));
        self.compile(Instruction::Primitive(id));
    }

    /// The text with this number, if there is one.
    pub(crate) fn text_at(&self, i: usize) -> (s: Option<String>)
        ensures
            text::opt_text(s) == code_at(self@, i),
    {
        if i < self.code_strings.len() {
            assert(self@.codes[i as int] == self.code_strings@[i as int]@);
            Some(self.code_strings[i].clone())
        } else {
            None
        }
    }
}

/// The text with this number, if there is one.
pub open spec fn code_at(v: VmV, i: usize) -> Option<Seq<char>> {
    if i < v.codes.len() {
        Some(v.codes[i as int])
    } else {
        None
    }
}

// ---------------------------------------------------------------------------
// Creating goals
// ---------------------------------------------------------------------------

/// GOAL" description" ( priority -- goal )
#[verifier::opaque]
pub open spec fn p_goal(v: VmV, t: Time) -> VmV {
    let (s, v) = base::parsed(v, '"');
    let (priority, v) = base::popped(v);
    match v.mesh {
        Some(m) => {
            let id = m.goals.counter;
            let m1 = net::loaded(api::goal_created(m, s, priority, None, t.epoch), v.dict.len());
            let v1 = base::pushed(net::with_mesh(v, m1), id as i64);
            if v.silent {
                v1
            } else {
                base::printed(v1, "goal #"@ + text::dec(id as nat) + " created\n"@)
            }
        },
        None => base::pushed(base::complained(v, "GOAL: mesh offline\n"@), 0),
    }
}

/// The machine after it has created a goal with code.
#[verifier::opaque]
pub open spec fn exec_goal(v: VmV, code: Seq<char>, priority: i64, t: Time) -> VmV {
    match v.mesh {
        Some(m) => {
            let id = m.goals.counter;
            let m1 = net::loaded(api::goal_created(m, code, priority, Some(code), t.epoch), v.dict.len());
            let v1 = base::pushed(net::with_mesh(v, m1), id as i64);
            if v.silent {
                v1
            } else {
                base::printed(v1, "goal #"@ + text::dec(id as nat) + " created [exec]: "@ + text::clip(code, 60) + "\n"@)
            }
        },
        None => base::pushed(base::complained(v, "GOAL: mesh offline\n"@), 0),
    }
}

/// The machine after it has created a goal that is split into `n` tasks.
#[verifier::opaque]
pub open spec fn split_goal(
    v: VmV,
    m: MeshV,
    total: i64,
    n: i64,
    rest: Seq<char>,
    priority: i64,
    t: Time,
) -> VmV {
    let id = m.goals.counter;
    let g = goals::with_split(m.goals, total as int, goals::at_least_one(n as int), rest, priority, m.id, t.epoch);
    let m1 = net::loaded(MeshV { goals: g, ..m }, v.dict.len());
    let v1 = base::pushed(net::with_mesh(v, m1), id as i64);
    if v.silent {
        v1
    } else {
        base::printed(
            v1,
            "goal #"@ + text::dec(id as nat) + " created [split "@ + text::dec_int(n as int) + "\u{d7}"@
                + text::dec_int(num::quotient(total as int, n as int)) + "]: "@ + text::clip(rest, 40) + "\n"@,
        )
    }
}

/// The word that divides the size of a goal from its code.
pub open spec fn split_mark() -> Seq<char> {
    " SPLIT "@
}

/// The machine after it has begun to create a goal from code. What stands before SPLIT is run
/// first: it says how to divide the rest.
#[verifier::opaque]
pub open spec fn begun_goal(v: VmV, code: Seq<char>, t: Time) -> VmV {
    let (priority, v) = base::popped(v);
    match text::find_from(code, split_mark(), 0) {
        Some(k) => base::lined(
            base::framed(
                v,
                FrameV::Split {
                    saved: v.stack,
                    code,
                    rest: code.skip(k + split_mark().len()),
                    priority,
                },
            ),
            code.take(k),
        ),
        None => exec_goal(v, code, priority, t),
    }
}

/// The machine after the part before SPLIT has run. The size and the number of tasks are on the
/// stack, which is then put back.
#[verifier::opaque]
pub open spec fn split_ran(
    v: VmV,
    saved: Seq<i64>,
    code: Seq<char>,
    rest: Seq<char>,
    priority: i64,
    t: Time,
) -> VmV {
    let (n, v) = base::popped(v);
    let (total, v) = base::popped(v);
    let v = VmV { stack: saved, ..v };
    match v.mesh {
        Some(m) => if n > 0 && total > 0 {
            split_goal(v, m, total, n, rest, priority, t)
        } else {
            exec_goal(v, code, priority, t)
        },
        None => exec_goal(v, code, priority, t),
    }
}

/// GOAL{ code } ( priority -- goal )
#[verifier::opaque]
pub open spec fn p_goal_exec(v: VmV, t: Time) -> VmV {
    let (s, v) = base::braced(v);
    if v.compiling {
        with_text_op(v, s, P_GOAL_EXEC_RT)
    } else {
        begun_goal(v, s, t)
    }
}

/// GOAL{ in a compiled word ( priority code -- goal )
#[verifier::opaque]
pub open spec fn p_goal_exec_rt(v: VmV, t: Time) -> VmV {
    let (i, v) = base::popped(v);
    match code_at(v, i as usize) {
        Some(s) => begun_goal(v, s, t),
        None => base::pushed(base::complained(v, "GOAL{: invalid code index\n"@), 0),
    }
}

impl VM {
    pub(crate) fn prim_goal(&mut self, t: Time)
        ensures
            final(self)@ == p_goal(old(self)@, t),
    {
        reveal(p_goal);
        let desc = self.parse_until('"');
        let priority = self.pop();
        let silent = self.silent;
        let words = self.dictionary.len();
        match self.take_mesh() {
            Some(m) => {
                let mut m = m;
                let id = m.create_goal(desc.as_str(), priority, None, t.epoch);
                m.set_load(words as u32);
                self.put_mesh(m);
                self.push(id as Cell);
                if !silent {
                    let mut s = text("goal #");
                    push_u64(&mut s, id);
                    s.append(" created\n");
                    self.print_str(s.as_str());
                }
            },
            None => {
                self.complain("GOAL: mesh offline\n");
                self.push(0);
            },
        }
    }

    /// Creates a goal with code.
    fn create_exec_goal(&mut self, code: &str, priority: Cell, t: Time)
        ensures
            final(self)@ == exec_goal(old(self)@, code@, priority, t),
    {
        reveal(exec_goal);
        let silent = self.silent;
        let words = self.dictionary.len();
        match self.take_mesh() {
            Some(m) => {
                let mut m = m;
                let id = m.create_goal(code, priority, Some(text(code)), t.epoch);
                m.set_load(words as u32);
                self.put_mesh(m);
                self.push(id as Cell);
                if !silent {
                    let mut s = text("goal #");
                    push_u64(&mut s, id);
                    s.append(" created [exec]: ");
                    s.append(take_chars(code, 60).as_str());
                    s.append("\n");
                    self.print_str(s.as_str());
                }
            },
            None => {
                self.complain("GOAL: mesh offline\n");
                self.push(0);
            },
        }
    }

    /// Begins to create a goal with code.
    pub(crate) fn begin_goal(&mut self, code: &str, t: Time)
        ensures
            final(self)@ == begun_goal(old(self)@, code@, t),
    {
        reveal(begun_goal);
        let priority = self.pop();
        let chars = to_chars(code);
        let mark = to_chars(" SPLIT ");
        match find_text(&chars, &mark, 0) {
            Some(k) => {
                proof {
                    text::lemma_find_from(code@, split_mark(), 0);
                }
                let n = chars.len();
                let w = mark.len();
                assert(k + w <= n);
                let rest = from_chars(&chars, k + w, n);
                let before = from_chars(&chars, 0, k);
                proof {
                    assert(rest@ =~= code@.skip(k + split_mark().len()));
                    assert(before@ =~= code@.take(k as int));
                }
                let saved = clone_cells(&self.stack);
                self.enter(Frame::Split { saved, code: text(code), rest, priority });
                self.begin_line(before.as_str());
            },
            None => self.create_exec_goal(code, priority, t),
        }
    }

    fn create_split(&mut self, total: Cell, n: Cell, rest: &str, priority: Cell, t: Time)
        requires
            n > 0,
            old(self)@.mesh.is_some(),
        ensures
            final(self)@ == split_goal(
                old(self)@,
                old(self)@.mesh->0,
                total,
                n,
                rest@,
                priority,
                t,
            ),
    {
        reveal(split_goal);
        let silent = self.silent;
        let words = self.dictionary.len();
        match self.take_mesh() {
            Some(m) => {
                let mut m = m;
                let me = m.id_bytes();
                let id = m.goals.create_split_goal_at(total, n, rest, priority, me, t.epoch);
                m.set_load(words as u32);
                self.put_mesh(m);
                self.push(id as Cell);
                if !silent {
                    let mut s = text("goal #");
                    push_u64(&mut s, id);
                    s.append(" created [split ");
                    push_i64(&mut s, n);
                    s.append("\u{d7}");
                    push_i64(&mut s, num::div_trunc(total, n));
                    s.append("]: ");
                    s.append(take_chars(rest, 40).as_str());
                    s.append("\n");
                    self.print_str(s.as_str());
                }
            },
            None => {},
        }
    }

    /// Ends the part of a goal before SPLIT.
    pub(crate) fn end_split(
        &mut self,
        saved: Vec<Cell>,
        code: String,
        rest: String,
        priority: Cell,
        t: Time,
    )
        ensures
            final(self)@ == split_ran(old(self)@, saved@, code@, rest@, priority, t),
    {
        reveal(split_ran);
        let n = self.pop();
        let total = self.pop();
        self.stack = saved;
        if n > 0 && total > 0 && self.mesh.is_some() {
            self.create_split(total, n, rest.as_str(), priority, t);
        } else {
            self.create_exec_goal(code.as_str(), priority, t);
        }
    }

    pub(crate) fn prim_goal_exec(&mut self, t: Time)
        ensures
            final(self)@ == p_goal_exec(old(self)@, t),
    {
        reveal(p_goal_exec);
        let code = self.parse_balanced_braces();
        if self.compiling {
            self.compile_text_op(code, P_GOAL_EXEC_RT);
        } else {
            self.begin_goal(code.as_str(), t);
        }
    }

    pub(crate) fn rt_goal_exec(&mut self, t: Time)
        ensures
            final(self)@ == p_goal_exec_rt(old(self)@, t),
    {
        reveal(p_goal_exec_rt);
        let i = self.pop() as usize;
        match self.text_at(i) {
            Some(s) => self.begin_goal(s.as_str(), t),
            None => {
                self.complain("GOAL{: invalid code index\n");
                self.push(0);
            },
        }
    }
}

// ---------------------------------------------------------------------------
// Showing goals
// ---------------------------------------------------------------------------

/// GOALS ( -- )
#[verifier::opaque]
pub open spec fn p_goals(v: VmV) -> VmV {
    match v.mesh {
        Some(m) => base::emit(v, goals::goals_text(m.goals)),
        None => base::emit(v, "  (mesh offline)\n"@),
    }
}

/// TASKS ( -- )
#[verifier::opaque]
pub open spec fn p_tasks(v: VmV) -> VmV {
    match v.mesh {
        Some(m) => base::emit(v, goals::my_tasks_text(m.goals, m.id)),
        None => base::emit(v, "  (mesh offline)\n"@),
    }
}

/// TASK-STATUS ( goal -- )
#[verifier::opaque]
pub open spec fn p_task_status(v: VmV) -> VmV {
    let (x, v) = base::popped(v);
    match v.mesh {
        Some(m) => base::printed(v, goals::goal_tasks_text(m.goals, ident(x))),
        None => base::complained(v, "TASK-STATUS: mesh offline\n"@),
    }
}

/// REPORT ( -- )
#[verifier::opaque]
pub open spec fn p_report(v: VmV) -> VmV {
    match v.mesh {
        Some(m) => base::printed(v, goals::report_text(m.goals)),
        None => base::printed(v, "  (mesh offline)\n"@),
    }
}

/// RESULT ( task -- )
#[verifier::opaque]
pub open spec fn p_result(v: VmV) -> VmV {
    let (x, v) = base::popped(v);
    match v.mesh {
        Some(m) => base::emit(v, goals::task_result_text(m.goals, ident(x))),
        None => base::complained(v, "RESULT: mesh offline\n"@),
    }
}

/// GOAL-RESULT ( goal -- )
#[verifier::opaque]
pub open spec fn p_goal_result(v: VmV) -> VmV {
    let (x, v) = base::popped(v);
    match v.mesh {
        Some(m) => base::emit(v, goals::goal_result_text(m.goals, ident(x))),
        None => base::complained(v, "GOAL-RESULT: mesh offline\n"@),
    }
}

/// PROGRESS ( goal -- )
#[verifier::opaque]
pub open spec fn p_progress(v: VmV) -> VmV {
    let (x, v) = base::popped(v);
    match v.mesh {
        Some(m) => base::emit(v, goals::progress_text(m.goals, ident(x))),
        None => v,
    }
}

impl VM {
    pub(crate) fn prim_goals(&mut self)
        ensures
            final(self)@ == p_goals(old(self)@),
    {
        reveal(p_goals);
        let s = match &self.mesh {
            Some(m) => m.format_goals(),
            None => text("  (mesh offline)\n"),
        };
        self.emit_str(s.as_str());
    }

    pub(crate) fn prim_tasks(&mut self)
        ensures
            final(self)@ == p_tasks(old(self)@),
    {
        reveal(p_tasks);
        let s = match &self.mesh {
            Some(m) => m.format_tasks(),
            None => text("  (mesh offline)\n"),
        };
        self.emit_str(s.as_str());
    }

    pub(crate) fn prim_task_status(&mut self)
        ensures
            final(self)@ == p_task_status(old(self)@),
    {
        reveal(p_task_status);
        let id = self.pop() as u64;
        let s: Option<String> = match &self.mesh {
            Some(m) => Some(m.format_goal_tasks(id)),
            None => None,
        };
        match s {
            Some(s) => self.print_str(s.as_str()),
            None => self.complain("TASK-STATUS: mesh offline\n"),
        }
    }

    pub(crate) fn prim_report(&mut self)
        ensures
            final(self)@ == p_report(old(self)@),
    {
        reveal(p_report);
        let s = match &self.mesh {
            Some(m) => m.format_report(),
            None => text("  (mesh offline)\n"),
        };
        self.print_str(s.as_str());
    }

    pub(crate) fn prim_result(&mut self)
        ensures
            final(self)@ == p_result(old(self)@),
    {
        reveal(p_result);
        let id = self.pop() as u64;
        let s: Option<String> = match &self.mesh {
            Some(m) => Some(m.format_task_result(id)),
            None => None,
        };
        match s {
            Some(s) => self.emit_str(s.as_str()),
            None => self.complain("RESULT: mesh offline\n"),
        }
    }

    pub(crate) fn prim_goal_result(&mut self)
        ensures
            final(self)@ == p_goal_result(old(self)@),
    {
        reveal(p_goal_result);
        let id = self.pop() as u64;
        let s: Option<String> = match &self.mesh {
            Some(m) => Some(m.format_goal_result(id)),
            None => None,
        };
        match s {
            Some(s) => self.emit_str(s.as_str()),
            None => self.complain("GOAL-RESULT: mesh offline\n"),
        }
    }

    pub(crate) fn prim_progress(&mut self)
        ensures
            final(self)@ == p_progress(old(self)@),
    {
        reveal(p_progress);
        let id = self.pop() as u64;
        let s: Option<String> = match &self.mesh {
            Some(m) => Some(m.goals.format_progress(id)),
            None => None,
        };
        match s {
            Some(s) => self.emit_str(s.as_str()),
            None => {},
        }
    }
}

// ---------------------------------------------------------------------------
// Changing goals
// ---------------------------------------------------------------------------

/// CANCEL ( goal -- )
#[verifier::opaque]
pub open spec fn p_cancel(v: VmV) -> VmV {
    let (x, v) = base::popped(v);
    let id = ident(x);
    match v.mesh {
        Some(m) => if goals::has_goal(m.goals.goals, id) {
            base::printed(
                net::with_mesh(v, api::goal_cancelled(m, id)),
                "goal #"@ + text::dec(id as nat) + " cancelled\n"@,
            )
        } else {
            base::complained(v, "goal #"@ + text::dec(id as nat) + " not found\n"@)
        },
        None => base::complained(v, "CANCEL: mesh offline\n"@),
    }
}

/// STEER ( goal priority -- )
#[verifier::opaque]
pub open spec fn p_steer(v: VmV) -> VmV {
    let (priority, v) = base::popped(v);
    let (x, v) = base::popped(v);
    let id = ident(x);
    match v.mesh {
        Some(m) => if goals::has_goal(m.goals.goals, id) {
            base::printed(
                net::with_mesh(v, api::goal_steered(m, id, priority)),
                "goal #"@ + text::dec(id as nat) + " priority -> "@ + text::dec_int(priority as int) + "\n"@,
            )
        } else {
            base::complained(v, "goal #"@ + text::dec(id as nat) + " not found\n"@)
        },
        None => base::complained(v, "STEER: mesh offline\n"@),
    }
}

/// The result of a task that was ended by hand.
pub open spec fn plain_result() -> ResultV {
    ResultV { stack: Seq::empty(), output: Seq::empty(), success: true, error: None }
}

/// COMPLETE ( task -- )
#[verifier::opaque]
pub open spec fn p_complete(v: VmV) -> VmV {
    let (x, v) = base::popped(v);
    let id = ident(x);
    match v.mesh {
        Some(m) => base::printed(
            net::with_mesh(v, api::task_completed(m, id, plain_result())),
            "task #"@ + text::dec(id as nat) + " completed\n"@,
        ),
        None => base::complained(v, "COMPLETE: mesh offline\n"@),
    }
}

/// SUBTASK{ code } ( goal -- task )
#[verifier::opaque]
pub open spec fn p_subtask(v: VmV, t: Time) -> VmV {
    let (s, v) = base::braced(v);
    if v.compiling {
        with_text_op(v, s, P_SUBTASK)
    } else {
        let (x, v) = base::popped(v);
        let id = ident(x);
        match v.mesh {
            Some(m) => if goals::has_goal(m.goals.goals, id) {
                base::pushed(
                    base::emit(
                        net::with_mesh(
                            v,
                            MeshV {
                                goals: goals::with_subtask(m.goals, id, s, Some(s), t.epoch),
                                ..m
                            },
                        ),
                        "subtask #"@ + text::dec(m.goals.counter as nat) + " added to goal #"@ + text::dec(
                            id as nat,
                        ) + "\n"@,
                    ),
                    m.goals.counter as i64,
                )
            } else {
                base::pushed(base::emit(v, "goal #"@ + text::dec(id as nat) + " not found\n"@), 0)
            },
            None => base::pushed(base::emit(v, "goal #"@ + text::dec(id as nat) + " not found\n"@), 0),
        }
    }
}

/// The registry after a goal has been forked.
pub open spec fn fork_of(g: GoalsV, id: u64, n: usize, now: u64) -> GoalsV {
    goals::forked(g, id, n as int, n as int, g.goals[goals::goal_at(g.goals, id)].code->0, now)
}

/// FORK ( goal n -- )
#[verifier::opaque]
pub open spec fn p_fork(v: VmV, t: Time) -> VmV {
    let (k, v) = base::popped(v);
    let (x, v) = base::popped(v);
    let n = k as usize;
    let id = ident(x);
    let failure = "fork failed: goal #"@ + text::dec(id as nat) + " not found or no code\n"@;
    match v.mesh {
        Some(m) => if goals::can_fork(m.goals, id) {
            base::emit(
                net::with_mesh(v, MeshV { goals: fork_of(m.goals, id, n, t.epoch), ..m }),
                "goal #"@ + text::dec(id as nat) + " forked into "@ + text::dec(n as nat) + " tasks\n"@,
            )
        } else {
            base::emit(v, failure)
        },
        None => base::emit(v, failure),
    }
}

impl VM {
    pub(crate) fn prim_cancel(&mut self)
        ensures
            final(self)@ == p_cancel(old(self)@),
    {
        reveal(p_cancel);
        let id = self.pop() as u64;
        match self.take_mesh() {
            Some(m) => {
                let mut m = m;
                let ok = m.cancel_goal(id);
                self.put_mesh(m);
                let mut s = text("goal #");
                push_u64(&mut s, id);
                if ok {
                    s.append(" cancelled\n");
                    self.print_str(s.as_str());
                } else {
                    s.append(" not found\n");
                    self.complain(s.as_str());
                }
            },
            None => self.complain("CANCEL: mesh offline\n"),
        }
    }

    pub(crate) fn prim_steer(&mut self)
        ensures
            final(self)@ == p_steer(old(self)@),
    {
        reveal(p_steer);
        let priority = self.pop();
        let id = self.pop() as u64;
        match self.take_mesh() {
            Some(m) => {
                let mut m = m;
                let ok = m.steer_goal(id, priority);
                self.put_mesh(m);
                let mut s = text("goal #");
                push_u64(&mut s, id);
                if ok {
                    s.append(" priority -> ");
                    push_i64(&mut s, priority);
                    s.append("\n");
                    self.print_str(s.as_str());
                } else {
                    s.append(" not found\n");
                    self.complain(s.as_str());
                }
            },
            None => self.complain("STEER: mesh offline\n"),
        }
    }

    pub(crate) fn prim_complete(&mut self)
        ensures
            final(self)@ == p_complete(old(self)@),
    {
        reveal(p_complete);
        let id = self.pop() as u64;
        match self.take_mesh() {
            Some(m) => {
                let mut m = m;
                let r = TaskResult {
                    stack_snapshot: Vec::new(),
                    output: String::new(),
                    success: true,
                    error: None,
                };
                assert(r@ == plain_result()) by {
                    assert(r.stack_snapshot@ =~= Seq::<i64>::empty());
                    assert(r.output@ =~= Seq::<char>::empty());
                }
                m.complete_task_with_result(id, r);
                self.put_mesh(m);
                let mut s = text("task #");
                push_u64(&mut s, id);
                s.append(" completed\n");
                self.print_str(s.as_str());
            },
            None => self.complain("COMPLETE: mesh offline\n"),
        }
    }

    fn goal_missing(&mut self, id: u64)
        ensures
            final(self)@ == base::pushed(
                base::emit(old(self)@, "goal #"@ + text::dec(id as nat) + " not found\n"@),
                0,
            ),
    {
        let mut s = text("goal #");
        push_u64(&mut s, id);
        s.append(" not found\n");
        self.emit_str(s.as_str());
        self.push(0);
    }

    pub(crate) fn prim_subtask(&mut self, t: Time)
        ensures
            final(self)@ == p_subtask(old(self)@, t),
    {
        reveal(p_subtask);
        let code = self.parse_balanced_braces();
        if self.compiling {
            self.compile_text_op(code, P_SUBTASK);
            return;
        }
        let id = self.pop() as u64;
        match self.take_mesh() {
            Some(m) => {
                let mut m = m;
                let r = m.goals.create_subtask_at(
                    id,
                    code.clone(),
                    Some(code.clone()),
                    t.epoch,
                );
                self.put_mesh(m);
                match r {
                    Some(task) => {
                        let mut s = text("subtask #");
                        push_u64(&mut s, task);
                        s.append(" added to goal #");
                        push_u64(&mut s, id);
                        s.append("\n");
                        self.emit_str(s.as_str());
                        self.push(task as Cell);
                    },
                    None => self.goal_missing(id),
                }
            },
            None => self.goal_missing(id),
        }
    }

    fn fork_failed(&mut self, id: u64)
        ensures
            final(self)@ == base::emit(
                old(self)@,
                "fork failed: goal #"@ + text::dec(id as nat) + " not found or no code\n"@,
            ),
    {
        let mut s = text("fork failed: goal #");
        push_u64(&mut s, id);
        s.append(" not found or no code\n");
        self.emit_str(s.as_str());
    }

    pub(crate) fn prim_fork(&mut self, t: Time)
        ensures
            final(self)@ == p_fork(old(self)@, t),
    {
        reveal(p_fork);
        let n = self.pop() as usize;
        let id = self.pop() as u64;
        match self.take_mesh() {
            Some(m) => {
                let mut m = m;
                let ok = m.goals.fork_goal_at(id, n, t.epoch);
                self.put_mesh(m);
                if ok {
                    let mut s = text("goal #");
                    push_u64(&mut s, id);
                    s.append(" forked into ");
                    push_usize(&mut s, n);
                    s.append(" tasks\n");
                    self.emit_str(s.as_str());
                } else {
                    self.fork_failed(id);
                }
            },
            None => self.fork_failed(id),
        }
    }
}

// ---------------------------------------------------------------------------
// Results and reductions
// ---------------------------------------------------------------------------

/// A result as the rest of a line.
pub open spec fn result_part(r: Option<ResultV>) -> Seq<char> {
    match r {
        Some(x) => (if x.stack.len() == 0 {
            Seq::<char>::empty()
        } else {
            " stack="@ + goals::cells_text(x.stack)
        }) + (if x.output.len() == 0 {
            Seq::<char>::empty()
        } else {
            " output=\""@ + text::trim_end(x.output) + "\""@
        }) + "\n"@,
        None => " (pending)\n"@,
    }
}

/// Results as lines.
pub open spec fn result_rows(s: Seq<(u64, Option<ResultV>)>) -> Seq<char>
    decreases s.len(),
{
    if s.len() == 0 {
        Seq::empty()
    } else {
        result_rows(s.drop_last()) + ("  task #"@ + text::dec(s.last().0 as nat) + ":"@ + result_part(
            s.last().1,
        ))
    }
}

/// The results of a goal as text.
pub open spec fn results_text(g: GoalsV, id: u64) -> Seq<char> {
    let r = goals::goal_results(g, id);
    if r.len() == 0 {
        "goal #"@ + text::dec(id as nat) + ": no results\n"@
    } else {
        "goal #"@ + text::dec(id as nat) + ": "@ + text::dec(r.len()) + " results\n"@ + result_rows(r)
    }
}

/// RESULTS ( goal -- )
#[verifier::opaque]
pub open spec fn p_results(v: VmV) -> VmV {
    let (x, v) = base::popped(v);
    match v.mesh {
        Some(m) => base::emit(v, results_text(m.goals, ident(x))),
        None => base::emit(v, "mesh offline\n"@),
    }
}

/// The cells of results in a row.
pub open spec fn result_cells(s: Seq<(u64, Option<ResultV>)>) -> Seq<i64>
    decreases s.len(),
{
    if s.len() == 0 {
        Seq::empty()
    } else {
        result_cells(s.drop_last()) + match s.last().1 {
            Some(r) => r.stack,
            None => Seq::empty(),
        }
    }
}

/// The values that the results of a goal left.
pub open spec fn values_of(v: VmV, id: u64) -> Seq<i64> {
    match v.mesh {
        Some(m) => result_cells(goals::goal_results(m.goals, id)),
        None => Seq::empty(),
    }
}

/// The machine after it has begun to reduce the values of a goal: the first one goes to the
/// stack.
#[verifier::opaque]
pub open spec fn reducing(v: VmV, code: Seq<char>) -> VmV {
    let (x, v) = base::popped(v);
    let values = values_of(v, ident(x));
    if values.len() == 0 {
        base::emit(v, "reduce: no values to reduce\n"@)
    } else {
        base::framed(base::pushed(v, values[0]), FrameV::Reduce { values, next: 1, code })
    }
}

/// The machine after a round of a reduction: the next value goes to the stack and the code runs;
/// at the end the result is told.
#[verifier::opaque]
pub open spec fn reduced(v: VmV, values: Seq<i64>, next: usize, code: Seq<char>) -> VmV {
    if next < values.len() {
        base::lined(
            base::pushed(
                base::framed(v, FrameV::Reduce { values, next: (next + 1) as usize, code }),
                values[next as int],
            ),
            code,
        )
    } else {
        base::emit(
            v,
            "reduce: "@ + text::dec(values.len()) + " values -> "@ + text::dec_int(if v.stack.len() == 0 {
                0
            } else {
                v.stack.last() as int
            }) + "\n"@,
        )
    }
}

/// REDUCE" code" ( goal -- )
#[verifier::opaque]
pub open spec fn p_reduce(v: VmV) -> VmV {
    let (s, v) = base::parsed(v, '"');
    if v.compiling {
        with_text_op(v, s, P_REDUCE_RT)
    } else {
        reducing(v, s)
    }
}

/// REDUCE" in a compiled word ( goal code -- )
#[verifier::opaque]
pub open spec fn p_reduce_rt(v: VmV) -> VmV {
    let (i, v) = base::popped(v);
    match code_at(v, i as usize) {
        Some(s) => reducing(v, s),
        None => v,
    }
}

/// Appends a result as the rest of a line.
fn push_result_part(out: &mut String, r: &Option<&TaskResult>)
    ensures
        final(out)@ == old(out)@ + result_part(match *r {
            Some(x) => Some(x@),
            None => None,
        }),
{
    match r {
        Some(x) => {
            let mut s = String::new();
            if x.stack_snapshot.len() > 0 {
                s = text(" stack=");
                push_cells(&mut s, &x.stack_snapshot);
            } else {
                assert(s@ =~= Seq::<char>::empty());
            }
            let mut o = String::new();
            if !x.output.as_str().is_empty() {
                o = text(" output=\"");
                o.append(trimmed_end(x.output.as_str()).as_str());
                o.append("\"");
            } else {
                assert(o@ =~= Seq::<char>::empty());
            }
            s.append(o.as_str());
            s.append("\n");
            out.append(s.as_str());
        },
        None => out.append(" (pending)\n"),
    }
}

fn format_results(g: &GoalRegistry, id: u64) -> (out: String)
    ensures
        out@ == results_text(g@, id),
{
    let r = g.collect_results(id);
    let ghost rs = goals::result_views(r@);
    let mut out = text("goal #");
    push_u64(&mut out, id);
    if r.len() == 0 {
        out.append(": no results\n");
        return out;
    }
    out.append(": ");
    push_usize(&mut out, r.len());
    out.append(" results\n");
    let ghost start = out@;
    let mut i: usize = 0;
    assert(out@ =~= start + result_rows(rs.take(0)));
    while i < r.len()
        invariant
            i <= r@.len(),
            rs == goals::result_views(r@),
            out@ == start + result_rows(rs.take(i as int)),
        decreases r@.len() - i,
    {
        let mut s = text("  task #");
        push_u64(&mut s, r[i].0);
        s.append(":");
        push_result_part(&mut s, &r[i].1);
        out.append(s.as_str());
        i = i + 1;
        assert(rs.take(i as int).drop_last() =~= rs.take(i - 1));
        assert(out@ =~= start + result_rows(rs.take(i as int)));
    }
    assert(rs.take(i as int) =~= rs);
    out
}

fn collect_values(g: &GoalRegistry, id: u64) -> (values: Vec<Cell>)
    ensures
        values@ == result_cells(goals::goal_results(g@, id)),
{
    let r = g.collect_results(id);
    let ghost rs = goals::result_views(r@);
    let mut values: Vec<Cell> = Vec::new();
    let mut i: usize = 0;
    assert(values@ =~= result_cells(rs.take(0)));
    while i < r.len()
        invariant
            i <= r@.len(),
            rs == goals::result_views(r@),
            values@ == result_cells(rs.take(i as int)),
        decreases r@.len() - i,
    {
        assert(rs.take(i + 1).drop_last() =~= rs.take(i as int));
        match r[i].1 {
            Some(x) => {
                let ghost start = values@;
                let mut k: usize = 0;
                assert(start + x.stack_snapshot@.take(0) =~= start);
                while k < x.stack_snapshot.len()
                    invariant
                        k <= x.stack_snapshot@.len(),
                        values@ == start + x.stack_snapshot@.take(k as int),
                    decreases x.stack_snapshot@.len() - k,
                {
                    values.push(x.stack_snapshot[k]);
                    k = k + 1;
                    assert(values@ =~= start + x.stack_snapshot@.take(k as int));
                }
                assert(x.stack_snapshot@.take(k as int) =~= x.stack_snapshot@);
            },
            None => {
                assert(values@ + Seq::<i64>::empty() =~= values@);
            },
        }
        i = i + 1;
    }
    assert(rs.take(i as int) =~= rs);
    values
}

impl VM {
    pub(crate) fn prim_results(&mut self)
        ensures
            final(self)@ == p_results(old(self)@),
    {
        reveal(p_results);
        let id = self.pop() as u64;
        let s = match &self.mesh {
            Some(m) => format_results(&m.goals, id),
            None => text("mesh offline\n"),
        };
        self.emit_str(s.as_str());
    }

    /// Begins to reduce the values of a goal.
    fn begin_reduce(&mut self, code: String)
        ensures
            final(self)@ == reducing(old(self)@, code@),
    {
        reveal(reducing);
        let id = self.pop() as u64;
        let values = match &self.mesh {
            Some(m) => collect_values(&m.goals, id),
            None => Vec::new(),
        };
        assert(values@ =~= values_of(self@, id));
        if values.len() == 0 {
            self.emit_str("reduce: no values to reduce\n");
        } else {
            self.push(values[0]);
            self.enter(Frame::Reduce { values, next: 1, code });
        }
    }

    /// Goes on with a reduction.
    pub(crate) fn step_reduce(&mut self, values: Vec<Cell>, next: usize, code: String)
        ensures
            final(self)@ == reduced(old(self)@, values@, next, code@),
    {
        reveal(reduced);
        if next < values.len() {
            let x = values[next];
            let line = code.clone();
            self.enter(Frame::Reduce { values, next: next + 1, code });
            self.push(x);
            self.begin_line(line.as_str());
        } else {
            let n = self.stack.len();
            let top: Cell = if n == 0 {
                0
            } else {
                self.stack[n - 1]
            };
            let mut s = text("reduce: ");
            push_usize(&mut s, values.len());
            s.append(" values -> ");
            push_i64(&mut s, top);
            s.append("\n");
            self.emit_str(s.as_str());
        }
    }

    pub(crate) fn prim_reduce(&mut self)
        ensures
            final(self)@ == p_reduce(old(self)@),
    {
        reveal(p_reduce);
        let code = self.parse_until('"');
        if self.compiling {
            self.compile_text_op(code, P_REDUCE_RT);
        } else {
            self.begin_reduce(code);
        }
    }

    pub(crate) fn rt_reduce(&mut self)
        ensures
            final(self)@ == p_reduce_rt(old(self)@),
    {
        reveal(p_reduce_rt);
        let i = self.pop() as usize;
        match self.text_at(i) {
            Some(s) => self.begin_reduce(s),
            None => {},
        }
    }
}

// ---------------------------------------------------------------------------
// Settings
// ---------------------------------------------------------------------------

/// EVAL" code" ( -- )
#[verifier::opaque]
pub open spec fn p_eval(v: VmV) -> VmV {
    let (s, v) = base::parsed(v, '"');
    base::lined(v, s)
}

/// AUTO-CLAIM ( -- )
#[verifier::opaque]
pub open spec fn p_auto_claim(v: VmV) -> VmV {
    let v = VmV { auto_claim: !v.auto_claim, ..v };
    if v.silent {
        v
    } else {
        base::printed(v, "auto-claim: "@ + (if v.auto_claim {
            "ON"@
        } else {
            "OFF"@
        }) + "\n"@)
    }
}

/// TIMEOUT ( seconds -- )
#[verifier::opaque]
pub open spec fn p_timeout(v: VmV) -> VmV {
    let (x, v) = base::popped(v);
    if x > 0 {
        let v = VmV { timeout: x as u64, ..v };
        if v.silent {
            v
        } else {
            base::printed(v, "execution timeout: "@ + text::dec(x as nat) + "s\n"@)
        }
    } else {
        base::complained(v, "TIMEOUT: must be > 0\n"@)
    }
}

impl VM {
    pub(crate) fn prim_eval(&mut self)
        ensures
            final(self)@ == p_eval(old(self)@),
    {
        reveal(p_eval);
        let code = self.parse_until('"');
        self.begin_line(code.as_str());
    }

    pub(crate) fn prim_auto_claim(&mut self)
        ensures
            final(self)@ == p_auto_claim(old(self)@),
    {
        reveal(p_auto_claim);
        self.auto_claim = !self.auto_claim;
        if !self.silent {
            let mut s = text("auto-claim: ");
            s.append(if self.auto_claim {
                "ON"
            } else {
                "OFF"
            });
            s.append("\n");
            self.print_str(s.as_str());
        }
    }

    pub(crate) fn prim_timeout(&mut self)
        ensures
            final(self)@ == p_timeout(old(self)@),
    {
        reveal(p_timeout);
        let x = self.pop();
        if x > 0 {
            self.execution_timeout = x as u64;
            if !self.silent {
                let mut s = text("execution timeout: ");
                push_u64(&mut s, x as u64);
                s.append("s\n");
                self.print_str(s.as_str());
            }
        } else {
            self.complain("TIMEOUT: must be > 0\n");
        }
    }
}

} // verus!
