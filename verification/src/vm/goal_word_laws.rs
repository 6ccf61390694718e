//! What the words for goals come to: goals made, claimed, run and reduced from the machine.

use crate::goal_laws;
use crate::goals;
use crate::goals::{GoalStatus, GoalV, ResultV, TaskStatus};
use crate::mesh::api;
use crate::mesh::message;
use crate::mesh::node;
use crate::mesh::node::{MeshV, PacketV};
use crate::registry;
use crate::text;
use crate::vm::base;
use crate::vm::goal_words;
use crate::vm::machine;
use crate::vm::net;
use crate::vm::sandbox;
use crate::vm::state::{AfterV, FrameV, SavedV, Time, VmV};
use crate::vm::word_laws;
use vstd::prelude::*;

verus! {

// ---------------------------------------------------------------------------
// Reduction
// ---------------------------------------------------------------------------

/// The values of results are those that their stacks hold, in the order of the results; a task
/// without a result has none.
pub proof fn law_values_in_order(s: Seq<(u64, Option<ResultV>)>, id: u64, r: ResultV)
    ensures
        goal_words::result_cells(Seq::empty()) == Seq::<i64>::empty(),
        goal_words::result_cells(s.push((id, Some(r)))) == goal_words::result_cells(s) + r.stack,
        goal_words::result_cells(s.push((id, None))) == goal_words::result_cells(s),
{
    assert(s.push((id, Some(r))).drop_last() =~= s);
    assert(s.push((id, None)).drop_last() =~= s);
    assert(goal_words::result_cells(s) + Seq::<i64>::empty() =~= goal_words::result_cells(s));
}

/// A row of numbers folded from the left onto a stack: the first is pushed, and for each of the
/// others it is pushed and `f` is applied.
pub open spec fn folded(s: Seq<i64>, values: Seq<i64>, f: spec_fn(Seq<i64>) -> Seq<i64>) -> Seq<i64>
    decreases values.len(),
{
    if values.len() == 0 {
        s
    } else if values.len() == 1 {
        s.push(values[0])
    } else {
        f(folded(s, values.drop_last(), f).push(values.last()))
    }
}

/// True of a way to run a line of code: it takes the line away, does `f` to the stack, and leaves
/// the machine ready for more.
pub open spec fn runs(
    run: spec_fn(VmV) -> VmV,
    code: Seq<char>,
    f: spec_fn(Seq<i64>) -> Seq<i64>,
) -> bool {
    forall|v: VmV|
        v.frames.len() > 0 && v.frames.last() == FrameV::Line && v.input == code && v.pos == 0
            && !v.crashed && v.pending.is_none() ==> {
            let w = #[trigger] run(v);
            &&& w.frames == v.frames.drop_last() && w.stack == f(v.stack)
            &&& !w.crashed && w.pending.is_none() && w.output == v.output
        }
}

/// The machine after so many rounds: each time it takes a step, and the line that this begins is
/// run.
pub open spec fn rounds(v: VmV, run: spec_fn(VmV) -> VmV, t: Time, n: nat) -> VmV
    decreases n,
{
    if n == 0 {
        v
    } else {
        run(machine::stepped(rounds(v, run, t, (n - 1) as nat), t))
    }
}

/// A reduction is a left fold: every value of the goal's results is pushed once, in order, and the
/// code runs once for every value but the first. Then the result is told, and the machine goes on
/// where it was.
pub proof fn law_reduction_is_a_fold(
    v: VmV,
    s: Seq<i64>,
    goal: i64,
    code: Seq<char>,
    run: spec_fn(VmV) -> VmV,
    f: spec_fn(Seq<i64>) -> Seq<i64>,
    t: Time,
)
    requires
        v.stack == s.push(goal),
        !v.crashed && v.pending.is_none() && v.output.is_none(),
        goal_words::values_of(v, goal as u64).len() > 0,
        goal_words::values_of(v, goal as u64).len() < usize::MAX,
        runs(run, code, f),
    ensures
        ({
            let values = goal_words::values_of(v, goal as u64);
            let n = (values.len() - 1) as nat;
            let w = rounds(goal_words::reducing(v, code), run, t, n);
            let e = machine::stepped(w, t);
            let total = folded(s, values, f);
            &&& forall|k: nat|
                k < n ==> (#[trigger] rounds(goal_words::reducing(v, code), run, t, k)).frames.len()
                    == v.frames.len() + 1
            &&& w.stack == total && e.stack == total
            &&& e.frames == v.frames
            &&& e.console == w.console.push(
                (
                    false,
                    "reduce: "@ + text::dec(values.len()) + " values -> "@ + text::dec_int(
                        if total.len() == 0 {
                            0
                        } else {
                            total.last() as int
                        },
                    ) + "\n"@,
                ),
            )
        }),
{
    let values = goal_words::values_of(v, goal as u64);
    let n = (values.len() - 1) as nat;
    assert forall|k: nat| k < n implies (#[trigger] rounds(
        goal_words::reducing(v, code),
        run,
        t,
        k,
    )).frames.len() == v.frames.len() + 1 by {
        lemma_rounds(v, s, goal, code, run, f, t, k);
    }
    lemma_rounds(v, s, goal, code, run, f, t, n);
    let w = rounds(goal_words::reducing(v, code), run, t, n);
    assert(values.take(n as int + 1) =~= values);
    reveal(machine::stepped);
    reveal(machine::worked);
    reveal(goal_words::reduced);
    reveal(base::unframed);
    reveal(base::emit);
    assert(w.frames.drop_last() =~= v.frames);
}

proof fn lemma_rounds(
    v: VmV,
    s: Seq<i64>,
    goal: i64,
    code: Seq<char>,
    run: spec_fn(VmV) -> VmV,
    f: spec_fn(Seq<i64>) -> Seq<i64>,
    t: Time,
    k: nat,
)
    requires
        v.stack == s.push(goal),
        !v.crashed && v.pending.is_none() && v.output.is_none(),
        goal_words::values_of(v, goal as u64).len() < usize::MAX,
        k < goal_words::values_of(v, goal as u64).len(),
        runs(run, code, f),
    ensures
        ({
            let values = goal_words::values_of(v, goal as u64);
            let w = rounds(goal_words::reducing(v, code), run, t, k);
            &&& w.stack == folded(s, values.take(k as int + 1), f)
            &&& w.frames == v.frames.push(
                FrameV::Reduce { values, next: (k + 1) as usize, code },
            )
            &&& !w.crashed && w.pending.is_none() && w.output.is_none()
        }),
    decreases k,
{
    let values = goal_words::values_of(v, goal as u64);
    reveal(goal_words::reducing);
    reveal(goal_words::reduced);
    reveal(machine::stepped);
    reveal(machine::worked);
    reveal(base::popped);
    reveal(base::pushed);
    reveal(base::framed);
    reveal(base::unframed);
    reveal(base::lined);
    assert(s.push(goal).drop_last() =~= s);
    if k == 0 {
        assert(values.take(1).len() == 1);
        let u = VmV { stack: s, ..v };
        assert(goal_words::values_of(u, goal as u64) == values);
    } else {
        lemma_rounds(v, s, goal, code, run, f, t, (k - 1) as nat);
        let w = rounds(goal_words::reducing(v, code), run, t, (k - 1) as nat);
        let x = machine::stepped(w, t);
        let part = values.take(k as int);
        assert(values.take(k as int + 1).drop_last() =~= part);
        assert(w.frames.drop_last() =~= v.frames);
        let frame = FrameV::Reduce { values, next: (k + 1) as usize, code };
        assert(x.frames == v.frames.push(frame).push(FrameV::Line));
        assert(x.stack == w.stack.push(values[k as int]));
        assert(x.frames.drop_last() =~= v.frames.push(frame));
        assert(run(x).stack == f(x.stack));
    }
}

/// What + does to a stack with two numbers or more.
pub open spec fn plus(s: Seq<i64>) -> Seq<i64> {
    s.take(s.len() - 2).push(s[s.len() - 2].wrapping_add(s[s.len() - 1]))
}

/// The sum of numbers, without bounds.
pub open spec fn sum(values: Seq<i64>) -> int
    decreases values.len(),
{
    if values.len() == 0 {
        0
    } else {
        sum(values.drop_last()) + values.last()
    }
}

/// Reduced with +, values give one number: their sum, up to a multiple of two to the power of 64,
/// and exactly where every partial sum fits a cell.
pub proof fn law_reduction_with_plus(s: Seq<i64>, values: Seq<i64>)
    requires
        values.len() > 0,
    ensures
        ({
            let r = folded(s, values, |x: Seq<i64>| plus(x));
            &&& r == s.push(r.last())
            &&& (r.last() - sum(values)) % 0x1_0000_0000_0000_0000 == 0
            &&& (forall|k: int|
                0 <= k <= values.len() ==> i64::MIN <= #[trigger] sum(values.take(k)) <= i64::MAX)
                ==> r.last() == sum(values)
        }),
    decreases values.len(),
{
    let f = |x: Seq<i64>| plus(x);
    let r = folded(s, values, f);
    let d = values.drop_last();
    assert(values.take(values.len() as int) =~= values);
    if values.len() == 1 {
        assert(d.len() == 0);
        assert(sum(d) == 0);
    } else {
        law_reduction_with_plus(s, d);
        let q = folded(s, d, f);
        let u = q.push(values.last());
        assert(u.take(u.len() - 2) =~= s);
        assert(r == s.push(q.last().wrapping_add(values.last())));
        if forall|k: int|
            0 <= k <= values.len() ==> i64::MIN <= #[trigger] sum(values.take(k)) <= i64::MAX {
            assert forall|k: int| 0 <= k <= d.len() implies i64::MIN <= #[trigger] sum(d.take(k))
                <= i64::MAX by {
                assert(d.take(k) =~= values.take(k));
                assert(sum(values.take(k)) <= i64::MAX);
            }
            assert(sum(values.take(values.len() as int)) <= i64::MAX);
        }
    }
}

/// What + does, as the word does it.
pub proof fn law_plus_word(v: VmV)
    requires
        v.stack.len() >= 2,
    ensures
        crate::vm::words::p_binary(v, crate::vm::words::Binary::Plus) == (VmV {
            stack: plus(v.stack),
            ..v
        }),
{
    reveal(crate::vm::words::p_binary);
    reveal(base::popped);
    reveal(base::pushed);
    let s = v.stack;
    assert(s.drop_last().drop_last() =~= s.take(s.len() - 2));
}

// ---------------------------------------------------------------------------
// Goals from the machine
// ---------------------------------------------------------------------------

proof fn lemma_last_goal(m: MeshV, g: GoalV)
    requires
        m.goals.goals.len() > 0,
        m.goals.goals.last() == g,
        forall|i: int|
            0 <= i < m.goals.goals.len() - 1 ==> (#[trigger] m.goals.goals[i]).id != g.id,
    ensures
        goals::has_goal(m.goals.goals, g.id),
        goals::goal_at(m.goals.goals, g.id) == m.goals.goals.len() - 1,
{
    let s = m.goals.goals;
    let ids = goals::goal_ids(s);
    crate::order::lemma_at(ids, g.id);
    assert(ids[s.len() - 1] == g.id);
    let k = goals::goal_at(s, g.id);
    if k < s.len() - 1 {
        assert(ids[k] == s[k].id);
    }
}

/// A goal that is made with code is pending, has the priority and the code, and is announced to
/// every peer. Its number is pushed.
pub proof fn law_goal_with_code(v: VmV, m: MeshV, code: Seq<char>, priority: i64, t: Time)
    requires
        v.mesh == Some(m),
        registry::numbered(m.goals),
        m.goals.counter + 2 <= u64::MAX,
    ensures
        ({
            let w = goal_words::exec_goal(v, code, priority, t);
            let n = w.mesh->0;
            let g = n.goals.goals.last();
            &&& w.mesh.is_some() && w.stack == v.stack.push(m.goals.counter as i64)
            &&& n.goals.goals == m.goals.goals.push(g)
            &&& g.id == m.goals.counter && g.priority == priority && g.creator == m.id
            &&& g.code == Some(code) && g.description == code && g.status == GoalStatus::Pending
            &&& n.goals.tasks.len() == m.goals.tasks.len() + 1
            &&& n.goals.tasks.last().status == TaskStatus::Waiting
            &&& n.outbox.len() == m.outbox.len() + m.peers.len()
            &&& n.peers == m.peers
        }),
{
    reveal(goal_words::exec_goal);
    reveal(net::with_mesh);
    reveal(base::pushed);
    reveal(base::printed);
    goal_laws::law_goal_comes_with_a_task(m.goals, code, priority, m.id, Some(code), t.epoch);
    let g1 = goals::created(m.goals, code, priority, m.id, Some(code), t.epoch);
    let m1 = node::logged(
        MeshV { goals: g1, ..m },
        "goal #"@ + text::dec(m.goals.counter as nat) + " created: "@ + code,
    );
    lemma_last_goal(m1, g1.goals.last());
}

/// GOAL" text" takes the priority off the stack and makes a goal without code.
pub proof fn law_goal_word(v: VmV, rest: VmV, s: Seq<i64>, m: MeshV, what: Seq<char>, p: i64, t: Time)
    requires
        base::parsed(v, '"') == (what, rest),
        rest.stack == s.push(p),
        rest.mesh == Some(m),
        registry::numbered(m.goals),
        m.goals.counter + 2 <= u64::MAX,
    ensures
        ({
            let w = goal_words::p_goal(v, t);
            let n = w.mesh->0;
            let g = n.goals.goals.last();
            &&& w.mesh.is_some() && w.stack == s.push(m.goals.counter as i64)
            &&& n.goals.goals == m.goals.goals.push(g)
            &&& g.id == m.goals.counter && g.priority == p && g.description == what
            &&& g.code.is_none() && g.creator == m.id && g.status == GoalStatus::Pending
            &&& n.outbox.len() == m.outbox.len() + m.peers.len()
        }),
{
    reveal(goal_words::p_goal);
    reveal(net::with_mesh);
    reveal(base::popped);
    reveal(base::pushed);
    reveal(base::printed);
    assert(s.push(p).drop_last() =~= s);
    goal_laws::law_goal_comes_with_a_task(m.goals, what, p, m.id, None, t.epoch);
    let g1 = goals::created(m.goals, what, p, m.id, None, t.epoch);
    let m1 = node::logged(
        MeshV { goals: g1, ..m },
        "goal #"@ + text::dec(m.goals.counter as nat) + " created: "@ + what,
    );
    lemma_last_goal(m1, g1.goals.last());
}

/// A goal with SPLIT: the code before it leaves a total and a number of parts; if both are positive
/// the goal has so many tasks, each with its range. Else the code is that of one task. The stack is
/// as before, with the number of the goal on top.
pub proof fn law_split_word(
    v: VmV,
    x: Seq<i64>,
    saved: Seq<i64>,
    total: i64,
    n: i64,
    m: MeshV,
    code: Seq<char>,
    rest: Seq<char>,
    p: i64,
    t: Time,
)
    requires
        v.stack == x.push(total).push(n),
        v.mesh == Some(m),
        registry::numbered(m.goals),
        n > 0 && total > 0,
        m.goals.counter + 1 + n <= u64::MAX,
    ensures
        ({
            let w = goal_words::split_ran(v, saved, code, rest, p, t);
            let k = w.mesh->0;
            &&& w.mesh.is_some() && w.stack == saved.push(m.goals.counter as i64)
            &&& k.goals.goals.len() == m.goals.goals.len() + 1
            &&& k.goals.goals.last().priority == p && k.goals.goals.last().task_ids.len() == n
            &&& k.goals.tasks.len() == m.goals.tasks.len() + n
            &&& exists|bounds: Seq<int>| #[trigger]
                goal_laws::even_bounds(bounds, total as int, n as int) && forall|i: int|
                    #![trigger k.goals.tasks[m.goals.tasks.len() + i]]
                    0 <= i < n ==> k.goals.tasks[m.goals.tasks.len() + i].code == Some(
                        goal_laws::ranged(bounds[i], bounds[i + 1], rest),
                    )
        }),
{
    reveal(goal_words::split_ran);
    reveal(goal_words::split_goal);
    reveal(net::with_mesh);
    reveal(base::popped);
    reveal(base::pushed);
    reveal(base::printed);
    assert(x.push(total).push(n).drop_last() =~= x.push(total));
    goal_laws::law_split_shares_out(m.goals, total as int, n as int, rest, p, m.id, t.epoch);
}

/// A split into no parts, or of nothing, is no split.
pub proof fn law_empty_split(
    v: VmV,
    x: Seq<i64>,
    saved: Seq<i64>,
    total: i64,
    n: i64,
    code: Seq<char>,
    rest: Seq<char>,
    p: i64,
    t: Time,
)
    requires
        v.stack == x.push(total).push(n),
        n <= 0 || total <= 0,
    ensures
        goal_words::split_ran(v, saved, code, rest, p, t) == goal_words::exec_goal(
            VmV { stack: saved, ..v },
            code,
            p,
            t,
        ),
{
    reveal(goal_words::split_ran);
    reveal(base::popped);
    assert(x.push(total).push(n).drop_last() =~= x.push(total));
}

/// CANCEL ( goal -- ) fails the goal on top of the stack; STEER ( goal priority -- ) gives the goal
/// below the priority on top. Both are told to every peer.
pub proof fn law_cancel_and_steer(v: VmV, s: Seq<i64>, m: MeshV, g: int, p: i64)
    requires
        v.mesh == Some(m),
        goals::goals_wf(m.goals),
        0 <= g < m.goals.goals.len(),
        m.goals.goals[g].id <= i64::MAX,
    ensures
        ({
            let id = m.goals.goals[g].id as i64;
            let c = goal_words::p_cancel(word_laws::on(v, s.push(id)));
            let w = goal_words::p_steer(word_laws::on(v, s.push(id).push(p)));
            let old = m.goals.goals[g];
            &&& c.stack == s && c.mesh.is_some()
            &&& c.mesh->0.goals.goals == m.goals.goals.update(
                g,
                GoalV { status: GoalStatus::Failed, ..old },
            )
            &&& c.mesh->0.outbox.len() == m.outbox.len() + m.peers.len()
            &&& w.stack == s && w.mesh.is_some()
            &&& w.mesh->0.goals.goals == m.goals.goals.update(g, GoalV { priority: p, ..old })
            &&& w.mesh->0.goals.tasks == m.goals.tasks
            &&& w.mesh->0.outbox.len() == m.outbox.len() + m.peers.len()
        }),
{
    reveal(goal_words::p_cancel);
    reveal(goal_words::p_steer);
    reveal(net::with_mesh);
    reveal(base::popped);
    reveal(base::printed);
    let id = m.goals.goals[g].id as i64;
    assert(s.push(id).drop_last() =~= s);
    assert(s.push(id).push(p).drop_last() =~= s.push(id));
    crate::order::lemma_at_unique(goals::goal_ids(m.goals.goals), g);
    goal_laws::law_cancelling_fails_what_is_left(m.goals, g);
    goal_laws::law_steering_sets_priority(m.goals, g, p);
    let a = goals::cancelled(m.goals, id as u64);
    let b = goals::steered(m.goals, id as u64, p);
    assert(goals::goal_ids(a.goals) =~= goals::goal_ids(m.goals.goals));
    assert(goals::goal_ids(b.goals) =~= goals::goal_ids(m.goals.goals));
}

/// COMPLETE ( task -- ) ends the task with success.
pub proof fn law_complete_word(v: VmV, s: Seq<i64>, m: MeshV, i: int)
    requires
        v.mesh == Some(m),
        goals::goals_wf(m.goals),
        0 <= i < m.goals.tasks.len(),
        m.goals.tasks[i].id <= i64::MAX,
    ensures
        ({
            let w = goal_words::p_complete(word_laws::on(v, s.push(m.goals.tasks[i].id as i64)));
            &&& w.stack == s && w.mesh.is_some()
            &&& w.mesh->0.goals.tasks[i].status == TaskStatus::Done
            &&& w.mesh->0.goals.tasks[i].result matches Some(r) && r.success && r.stack.len() == 0
            &&& w.mesh->0.outbox.len() == m.outbox.len() + m.peers.len()
        }),
{
    reveal(goal_words::p_complete);
    reveal(net::with_mesh);
    reveal(base::popped);
    reveal(base::printed);
    assert(s.push(m.goals.tasks[i].id as i64).drop_last() =~= s);
    goal_laws::law_result_decides_task(m.goals, i, Some(goal_words::plain_result()));
}

/// FORK ( goal n -- ) adds `n - 1` tasks to a goal that has code, and none to one that has not.
pub proof fn law_fork_word(v: VmV, s: Seq<i64>, m: MeshV, g: int, n: i64, t: Time)
    requires
        v.mesh == Some(m),
        goals::goals_wf(m.goals),
        registry::numbered(m.goals),
        0 <= g < m.goals.goals.len(),
        m.goals.goals[g].id <= i64::MAX,
        1 <= n <= 0x7FFF_FFFF,
        m.goals.counter + n <= u64::MAX,
    ensures
        ({
            let w = goal_words::p_fork(
                word_laws::on(v, s.push(m.goals.goals[g].id as i64).push(n)),
                t,
            );
            &&& w.stack == s && w.mesh.is_some()
            &&& m.goals.goals[g].code.is_some() ==> w.mesh->0.goals.tasks.len()
                == m.goals.tasks.len() + (n - 1) && w.mesh->0.goals.goals[g].task_ids.len()
                == m.goals.goals[g].task_ids.len() + (n - 1)
            &&& m.goals.goals[g].code.is_none() ==> w.mesh == v.mesh
        }),
{
    reveal(goal_words::p_fork);
    reveal(net::with_mesh);
    reveal(base::popped);
    reveal(base::emit);
    let id = m.goals.goals[g].id as i64;
    assert(s.push(id).push(n).drop_last() =~= s.push(id));
    assert(s.push(id).drop_last() =~= s);
    crate::order::lemma_at_unique(goals::goal_ids(m.goals.goals), g);
    if m.goals.goals[g].code.is_some() {
        let code = m.goals.goals[g].code->0;
        goal_laws::law_fork_adds_tasks(m.goals, g, n as int, n as int, code, t.epoch);
    }
}

/// SUBTASK{ code } ( goal -- task ) adds a task with the code to the goal and pushes its number.
pub proof fn law_subtask_word(
    v: VmV,
    rest: VmV,
    s: Seq<i64>,
    m: MeshV,
    g: int,
    code: Seq<char>,
    t: Time,
)
    requires
        base::braced(v) == (code, rest),
        !rest.compiling,
        rest.mesh == Some(m),
        goals::goals_wf(m.goals),
        registry::numbered(m.goals),
        m.goals.counter + 1 <= u64::MAX,
        0 <= g < m.goals.goals.len(),
        m.goals.goals[g].id <= i64::MAX,
        rest.stack == s.push(m.goals.goals[g].id as i64),
    ensures
        ({
            let w = goal_words::p_subtask(v, t);
            let k = w.mesh->0.goals;
            let task = k.tasks.last();
            &&& w.mesh.is_some() && w.stack == s.push(m.goals.counter as i64)
            &&& k.tasks == m.goals.tasks.push(task)
            &&& task.id == m.goals.counter && task.goal_id == m.goals.goals[g].id
            &&& task.code == Some(code) && task.status == TaskStatus::Waiting
            &&& k.goals[g].task_ids == m.goals.goals[g].task_ids.push(task.id)
        }),
{
    reveal(goal_words::p_subtask);
    reveal(net::with_mesh);
    reveal(base::popped);
    reveal(base::pushed);
    reveal(base::emit);
    assert(rest.stack.drop_last() =~= s);
    crate::order::lemma_at_unique(goals::goal_ids(m.goals.goals), g);
    goal_laws::law_task_joins_goal(m.goals, g, code, Some(code), t.epoch);
}

// ---------------------------------------------------------------------------
// Running a task
// ---------------------------------------------------------------------------

/// Code that is run on its own starts with an empty stack and no output, in the sandbox, line by
/// line, and has as many seconds as the limit says. What the machine had is put aside.
pub proof fn law_code_runs_apart(v: VmV, code: Seq<char>, after: AfterV, t: Time)
    requires
        t.now + 1000 * v.timeout <= u64::MAX,
    ensures
        ({
            let w = sandbox::confined(v, code, after, t);
            &&& w.stack.len() == 0 && w.rstack.len() == 0 && w.output == Some(Seq::<char>::empty())
            &&& w.sandbox && w.silent && !w.compiling && !w.timed_out
            &&& w.deadline == Some((t.now + 1000 * v.timeout) as u64)
            &&& w.frames.len() == v.frames.len() + 1
            &&& w.frames.last() matches FrameV::Sandbox { saved, lines, next, after: a } && lines
                == text::lines(code) && next == 0 && a == after && saved.stack == v.stack
                && saved.rstack == v.rstack && saved.output == v.output && saved.sandbox
                == v.sandbox && saved.deadline == v.deadline
            &&& w.mesh == v.mesh && w.dict == v.dict && w.memory == v.memory
        }),
{
    reveal(sandbox::confined);
    reveal(base::framed);
}

/// Code has run to its end exactly if its time was not over; what it left on the stack and printed
/// is its result, and one that was stopped says so.
pub proof fn law_result_of_code(v: VmV)
    ensures
        ({
            let r = sandbox::outcome(v);
            &&& r.success <==> !v.timed_out
            &&& r.error.is_some() <==> v.timed_out
            &&& r.stack == v.stack
            &&& v.output matches Some(s) ==> r.output == s
        }),
{
}

/// After code that was run on its own the machine has again what it had put aside.
pub proof fn law_machine_gets_back(v: VmV, s: SavedV)
    ensures
        ({
            let w = sandbox::restored(v, s);
            &&& w.stack == s.stack && w.rstack == s.rstack && w.output == s.output
            &&& w.deadline == s.deadline && w.timed_out == s.timed_out && w.sandbox == s.sandbox
            &&& w.compiling == s.compiling && w.def == s.def && w.silent == s.silent && w.running
            &&& w.dict == v.dict && w.memory == v.memory && w.mesh == v.mesh && w.frames == v.frames
        }),
{
    reveal(sandbox::restored);
}

/// TIMEOUT ( seconds -- ) sets the limit, if it is positive.
pub proof fn law_timeout_word(v: VmV, s: Seq<i64>, x: i64)
    ensures
        x > 0 ==> goal_words::p_timeout(word_laws::on(v, s.push(x))).timeout == x,
        x <= 0 ==> goal_words::p_timeout(word_laws::on(v, s.push(x))).timeout == v.timeout,
        goal_words::p_timeout(word_laws::on(v, s.push(x))).stack == s,
{
    reveal(goal_words::p_timeout);
    reveal(base::popped);
    reveal(base::printed);
    reveal(base::complained);
    assert(s.push(x).drop_last() =~= s);
}

/// True of a mesh in which the end of a task has been recorded and told: the task is done if the
/// result is a success and failed if not, it keeps the result, and every peer is sent it.
pub open spec fn reported(m: MeshV, n: MeshV, i: int, r: ResultV) -> bool {
    &&& n.goals.tasks.len() == m.goals.tasks.len()
    &&& n.goals.tasks[i].status == TaskStatus::Done <==> r.success
    &&& n.goals.tasks[i].status == TaskStatus::Failed <==> !r.success
    &&& n.goals.tasks[i].result == Some(r)
    &&& n.peers == m.peers
    &&& n.outbox.len() == m.outbox.len() + m.peers.len()
    &&& forall|j: int|
        0 <= j < m.peers.len() ==> #[trigger] n.outbox[m.outbox.len() + j] == (PacketV {
            to: m.peers[j].addr,
            bytes: message::result_bytes(
                m.id,
                m.port,
                m.goals.tasks[i].id,
                m.goals.tasks[i].goal_id,
                r,
            ),
        })
}

proof fn lemma_reported(m: MeshV, i: int, r: ResultV)
    requires
        goals::goals_wf(m.goals),
        0 <= i < m.goals.tasks.len(),
    ensures
        reported(m, api::task_completed(m, m.goals.tasks[i].id, r), i, r),
{
    goal_laws::law_result_decides_task(m.goals, i, Some(r));
    crate::order::lemma_at_unique(goals::task_ids(m.goals.tasks), i);
}

/// A task that was claimed by hand and run is reported with its result; its number is pushed.
pub proof fn law_claimed_task_is_reported(v: VmV, m: MeshV, i: int, r: ResultV)
    requires
        v.mesh == Some(m),
        goals::goals_wf(m.goals),
        0 <= i < m.goals.tasks.len(),
    ensures
        ({
            let w = sandbox::claim_ended(v, m.goals.tasks[i].id, r);
            &&& w.mesh.is_some() && reported(m, w.mesh->0, i, r)
            &&& w.stack == v.stack.push(m.goals.tasks[i].id as i64)
        }),
{
    reveal(sandbox::claim_ended);
    reveal(net::with_mesh);
    reveal(base::printed);
    reveal(base::pushed);
    lemma_reported(m, i, r);
}

/// A task that the machine claimed and ran of its own accord is reported with its result, and counts
/// for its score: a failure costs five points, a success earns eleven to fifteen. The node tells the
/// new score.
#[verifier::spinoff_prover]
pub proof fn law_auto_claimed_task_is_reported(
    v: VmV,
    m: MeshV,
    i: int,
    start: u64,
    r: ResultV,
    t: Time,
)
    requires
        v.mesh == Some(m),
        goals::goals_wf(m.goals),
        0 <= i < m.goals.tasks.len(),
        i64::MIN + 5 <= v.fitness.score <= i64::MAX - 15,
        start <= t.now,
    ensures
        ({
            let w = sandbox::auto_claim_ended(v, m.goals.tasks[i].id, start, r, t);
            &&& w.mesh.is_some() && reported(m, w.mesh->0, i, r)
            &&& w.mesh->0.fitness == w.fitness.score
            &&& !r.success ==> w.fitness.score == v.fitness.score - 5
            &&& r.success ==> w.fitness.score == v.fitness.score + (if t.now - start < 100 {
                15int
            } else if t.now - start < 1000 {
                13
            } else if t.now - start < 5000 {
                12
            } else {
                11
            })
            &&& w.stack == v.stack
        }),
{
    reveal(sandbox::auto_claim_ended);
    reveal(sandbox::counted);
    reveal(sandbox::announced_result);
    reveal(sandbox::save_checked);
    reveal(net::with_mesh);
    reveal(base::printed);
    reveal(base::asked);
    lemma_reported(m, i, r);
    crate::features::fitness::law_success_pays(v.fitness, (t.now - start) as u64);
}

/// A unit claims of its own accord exactly if it is told to and a task waits that can be run; then
/// the task is its own, every peer is told, and the code runs apart.
pub proof fn law_auto_claim(v: VmV, m: MeshV, t: Time)
    requires
        v.mesh == Some(m),
        goals::goals_wf(m.goals),
    ensures
        ({
            let w = sandbox::claim_checked(v, t);
            match registry::claim_of(m.goals, true) {
                Some(i) => v.auto_claim ==> {
                    &&& w.mesh.is_some()
                    &&& w.mesh->0.goals == goals::claimed(m.goals, i, m.id)
                    &&& w.mesh->0.outbox.len() == m.outbox.len() + m.peers.len()
                    &&& w.frames.len() == v.frames.len() + 1
                    &&& w.frames.last() matches FrameV::Sandbox { lines, next, after, .. } && lines
                        == text::lines(goals::code_of(m.goals, m.goals.tasks[i])->0) && next == 0
                        && after == (AfterV::AutoClaim { task_id: m.goals.tasks[i].id, start: t.now })
                },
                None => w == v,
            }
        }),
        !v.auto_claim ==> sandbox::claim_checked(v, t) == v,
{
    reveal(sandbox::claim_checked);
    reveal(sandbox::confined);
    reveal(net::with_mesh);
    reveal(base::framed);
    reveal(base::printed);
    goals::law_best_is_highest(m.goals, m.goals.tasks.len() as int, true);
}

/// CLAIM takes the most urgent task, whether it can be run or not. With code of its goal it runs
/// apart, else its number is pushed; without a task 0 is pushed.
pub proof fn law_claim_word(v: VmV, m: MeshV, t: Time)
    requires
        v.mesh == Some(m),
        goals::goals_wf(m.goals),
    ensures
        ({
            let w = sandbox::p_claim(v, t);
            match registry::claim_of(m.goals, false) {
                Some(i) => {
                    &&& w.mesh.is_some()
                    &&& w.mesh->0.goals == goals::claimed(m.goals, i, m.id)
                    &&& w.mesh->0.outbox.len() == m.outbox.len() + m.peers.len()
                    &&& w.frames == v.frames ==> w.stack == v.stack.push(
                        m.goals.tasks[i].id as i64,
                    )
                    &&& w.frames != v.frames ==> (w.frames.last() matches FrameV::Sandbox {
                        saved,
                        after,
                        ..
                    } && saved.stack == v.stack && after == (AfterV::Claim {
                        task_id: m.goals.tasks[i].id,
                    }))
                },
                None => w.mesh == v.mesh && w.stack == v.stack.push(0i64) && w.frames == v.frames,
            }
        }),
{
    reveal(sandbox::p_claim);
    reveal(sandbox::confined);
    reveal(net::with_mesh);
    reveal(base::framed);
    reveal(base::pushed);
    reveal(base::printed);
    goals::law_best_is_highest(m.goals, m.goals.tasks.len() as int, false);
    if let Some(i) = registry::claim_of(m.goals, false) {
        let w = sandbox::p_claim(v, t);
        if w.frames.len() == v.frames.len() + 1 {
            assert(w.frames != v.frames);
        }
    }
}

/// Saving comes round every `save_every` tasks, if it is on: then the counter starts anew, and a
/// unit with an identity asks for its state to be kept.
pub proof fn law_saves_come_round(v: VmV)
    requires
        v.since_save < u32::MAX,
    ensures
        ({
            let w = sandbox::save_checked(v);
            &&& !v.auto_save ==> w == v
            &&& v.auto_save && v.since_save + 1 < v.save_every ==> w == (VmV {
                since_save: (v.since_save + 1) as u32,
                ..v
            })
            &&& v.auto_save && v.since_save + 1 >= v.save_every ==> w.since_save == 0
            &&& v.auto_save && v.since_save + 1 >= v.save_every && v.node_id.is_some()
                ==> w.pending.is_some()
        }),
{
    reveal(sandbox::save_checked);
    reveal(base::asked);
}

} // verus!
