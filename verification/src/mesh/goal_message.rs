//! The message that carries a goal and its tasks.

use crate::codec;
use crate::goals;
use crate::goals::{Goal, GoalStatus, GoalV, Task, TaskStatus, TaskV};
use crate::mesh::message;
use crate::mesh::message::{bare_message, MSG_GOAL_BROADCAST};
use crate::persist;
use crate::persist::{read_opt_id, read_opt_string, read_result, write_opt_id, write_result};
use crate::wire;
use crate::wire::{
    write_i64, write_id, write_len16, write_string, write_u64, write_u8, Input, NodeId, Reader,
};
use vstd::prelude::*;

verus! {

/// A task in the message of its goal.
pub open spec fn w_goal_task(t: TaskV) -> Seq<u8> {
    wire::w64(t.id as nat) + wire::w8(goals::task_rank(t.status) as int) + persist::w_opt_id(t.assigned_to) + wire::wtext(
        t.description,
    ) + persist::w_result(t.result)
}

/// Tasks in a row.
pub open spec fn w_goal_tasks(s: Seq<TaskV>) -> Seq<u8>
    decreases s.len(),
{
    if s.len() == 0 {
        Seq::empty()
    } else {
        w_goal_tasks(s.drop_last()) + w_goal_task(s.last())
    }
}

/// What the message of a goal says of the goal itself.
pub open spec fn w_goal_part(g: GoalV) -> Seq<u8> {
    wire::w64(g.id as nat) + wire::wi64(g.priority as int) + wire::w8(goals::goal_rank(g.status) as int) + g.creator + wire::w64(
        g.created_at as nat,
    ) + wire::wtext(g.description) + persist::w_opt_text(g.code)
}

/// The message of a goal and its tasks.
pub open spec fn goal_bytes(id: Seq<u8>, port: u16, g: GoalV, tasks: Seq<TaskV>) -> Seq<u8> {
    message::header(MSG_GOAL_BROADCAST, id, port) + w_goal_part(g) + wire::w16(tasks.len()) + w_goal_tasks(tasks)
}

/// Takes a task of the goal `goal_id`.
pub open spec fn get_goal_task(i: Input, goal_id: u64, created_at: u64) -> (TaskV, Input) {
    let (id, i) = wire::get_nat(i, 8);
    let (s, i) = wire::get_nat(i, 1);
    let (assigned_to, i) = persist::get_opt_id(i);
    let (description, i) = wire::get_text(i, 2);
    let (result, i) = persist::get_result(i);
    (
        TaskV {
            id: id as u64,
            goal_id,
            description,
            code: None,
            assigned_to,
            status: goals::task_status(s as int),
            result,
            created_at,
        },
        i,
    )
}

/// Takes `n` tasks of the goal `goal_id`.
pub open spec fn get_goal_tasks(i: Input, n: int, goal_id: u64, created_at: u64) -> (
    Seq<TaskV>,
    Input,
)
    decreases n,
{
    if n <= 0 {
        (Seq::empty(), i)
    } else {
        let (s, i) = get_goal_tasks(i, n - 1, goal_id, created_at);
        let (t, i) = get_goal_task(i, goal_id, created_at);
        (s.push(t), i)
    }
}

/// Takes a goal with its tasks. Their order gives the tasks of the goal.
pub open spec fn get_goal_message(i: Input) -> (GoalV, Seq<TaskV>, Input) {
    let (id, i) = wire::get_nat(i, 8);
    let (priority, i) = wire::get_int(i);
    let (s, i) = wire::get_nat(i, 1);
    let (creator, i) = wire::get_id(i);
    let (created_at, i) = wire::get_nat(i, 8);
    let (description, i) = wire::get_text(i, 2);
    let (code, i) = persist::get_opt_text(i);
    let (n, i) = wire::get_nat(i, 2);
    let (tasks, i) = get_goal_tasks(i, n as int, id as u64, created_at as u64);
    (
        GoalV {
            id: id as u64,
            description,
            code,
            priority: priority as i64,
            status: goals::goal_status(s as int),
            created_at: created_at as u64,
            creator,
            task_ids: goals::task_ids(tasks),
        },
        tasks,
        i,
    )
}

fn write_goal_task(buf: &mut Vec<u8>, t: &Task)
    ensures
        final(buf)@ == old(buf)@ + w_goal_task(t@),
{
    write_u64(buf, t.id);
    write_u8(buf, t.status.as_u8());
    write_opt_id(buf, &t.assigned_to);
    write_string(buf, t.description.as_str());
    write_result(buf, &t.result);
    assert(buf@ =~= old(buf)@ + w_goal_task(t@));
}

fn write_goal_part(buf: &mut Vec<u8>, g: &Goal)
    ensures
        final(buf)@ == old(buf)@ + w_goal_part(g@),
{
    write_u64(buf, g.id);
    write_i64(buf, g.priority);
    write_u8(buf, g.status.as_u8());
    write_id(buf, &g.creator);
    write_u64(buf, g.created_at);
    write_string(buf, g.description.as_str());
    match &g.code {
        Some(c) => {
            write_u8(buf, 1);
            write_string(buf, c.as_str());
        },
        None => write_u8(buf, 0),
    }
    assert(buf@ =~= old(buf)@ + w_goal_part(g@));
}

/// The message that carries a goal and all its tasks.
pub fn encode_goal_broadcast(my_id: &NodeId, port: u16, goal: &Goal, tasks: &[Task]) -> (buf: Vec<
    u8,
>)
    ensures
        buf@ == goal_bytes(my_id@, port, goal@, goals::task_views(tasks@)),
{
    let mut buf = bare_message(MSG_GOAL_BROADCAST, my_id, port);
    write_goal_part(&mut buf, goal);
    write_len16(&mut buf, tasks.len());
    let ghost start = buf@;
    let ghost ts = goals::task_views(tasks@);
    let mut i: usize = 0;
    assert(buf@ =~= start + w_goal_tasks(ts.take(0)));
    while i < tasks.len()
        invariant
            i <= tasks@.len(),
            ts == goals::task_views(tasks@),
            buf@ == start + w_goal_tasks(ts.take(i as int)),
        decreases tasks@.len() - i,
    {
        write_goal_task(&mut buf, &tasks[i]);
        i = i + 1;
        assert(ts.take(i as int).drop_last() =~= ts.take(i - 1));
        assert(buf@ =~= start + w_goal_tasks(ts.take(i as int)));
    }
    assert(ts.take(i as int) =~= ts);
    buf
}

fn read_goal_task(r: &mut Reader, goal_id: u64, created_at: u64) -> (t: Task)
    requires
        old(r).wf(),
        codec::canonical(old(r)@),
    ensures
        final(r).wf(),
        codec::canonical(final(r)@),
        final(r)@ == get_goal_task(old(r)@, goal_id, created_at).1,
        final(r)@.ok ==> t@ == get_goal_task(old(r)@, goal_id, created_at).0,
{
    let id = r.read_u64();
    let status = TaskStatus::from_u8(r.read_u8());
    let assigned_to = read_opt_id(r);
    let description = r.read_string();
    let result = read_result(r);
    Task { id, goal_id, description, code: None, assigned_to, status, result, created_at }
}

proof fn lemma_goal_tasks_failed(n: int, goal_id: u64, created_at: u64)
    ensures
        get_goal_tasks(wire::failed(), n, goal_id, created_at).1 == wire::failed(),
    decreases n,
{
    if n > 0 {
        lemma_goal_tasks_failed(n - 1, goal_id, created_at);
        lemma_goal_task_failed(goal_id, created_at);
    }
}

proof fn lemma_goal_task_failed(goal_id: u64, created_at: u64)
    ensures
        get_goal_task(wire::failed(), goal_id, created_at).1 == wire::failed(),
{
    lemma_be_nat_empty();
    codec::lemma_failed(0, false);
}

proof fn lemma_be_nat_empty()
    ensures
        wire::be_nat(Seq::<u8>::empty()) == 0,
{
}

/// Once the input has run out, taking further tasks changes nothing.
proof fn lemma_goal_tasks_rest(i: Input, n: int, m: int, goal_id: u64, created_at: u64)
    requires
        0 <= n <= m,
        get_goal_tasks(i, n, goal_id, created_at).1 == wire::failed(),
    ensures
        get_goal_tasks(i, m, goal_id, created_at).1 == wire::failed(),
    decreases m - n,
{
    if n < m {
        lemma_goal_task_failed(goal_id, created_at);
        lemma_goal_tasks_rest(i, n + 1, m, goal_id, created_at);
    }
}

/// Reads the tasks of a goal. Stops where the bytes run out.
fn read_goal_tasks(r: &mut Reader, n: u16, goal_id: u64, created_at: u64) -> (v: Vec<Task>)
    requires
        old(r).wf(),
        codec::canonical(old(r)@),
    ensures
        final(r).wf(),
        codec::canonical(final(r)@),
        final(r)@ == get_goal_tasks(old(r)@, n as int, goal_id, created_at).1,
        final(r)@.ok ==> goals::task_views(v@) == get_goal_tasks(
            old(r)@,
            n as int,
            goal_id,
            created_at,
        ).0,
{
    let mut v: Vec<Task> = Vec::new();
    let mut k: u16 = 0;
    assert(goals::task_views(v@) =~= Seq::<TaskV>::empty());
    while k < n && r.good()
        invariant
            k <= n,
            r.wf(),
            codec::canonical(r@),
            r@ == get_goal_tasks(old(r)@, k as int, goal_id, created_at).1,
            r@.ok ==> goals::task_views(v@) == get_goal_tasks(old(r)@, k as int, goal_id, created_at).0,
        decreases n - k,
    {
        let ghost before = goals::task_views(v@);
        let t = read_goal_task(r, goal_id, created_at);
        v.push(t);
        assert(goals::task_views(v@) =~= before.push(t@));
        k = k + 1;
    }
    proof {
        if k < n {
            lemma_goal_tasks_rest(old(r)@, k as int, n as int, goal_id, created_at);
        }
    }
    v
}

fn ids_of(tasks: &[Task]) -> (ids: Vec<u64>)
    ensures
        ids@ == goals::task_ids(goals::task_views(tasks@)),
{
    let mut ids: Vec<u64> = Vec::new();
    let mut i: usize = 0;
    while i < tasks.len()
        invariant
            i <= tasks@.len(),
            ids@ == goals::task_ids(goals::task_views(tasks@)).take(i as int),
        decreases tasks@.len() - i,
    {
        ids.push(tasks[i].id);
        i = i + 1;
        assert(ids@ =~= goals::task_ids(goals::task_views(tasks@)).take(i as int));
    }
    assert(ids@ =~= goals::task_ids(goals::task_views(tasks@)));
    ids
}

/// Reads a goal with its tasks, after the header. `None` if the bytes run out.
pub fn decode_goal_broadcast(r: &mut Reader) -> (o: Option<(Goal, Vec<Task>)>)
    requires
        old(r).wf(),
        codec::canonical(old(r)@),
    ensures
        final(r).wf(),
        final(r)@ == get_goal_message(old(r)@).2,
        o.is_some() == final(r)@.ok,
        o matches Some(x) ==> x.0@ == get_goal_message(old(r)@).0 && goals::task_views(x.1@)
            == get_goal_message(old(r)@).1,
{
    let id = r.read_u64();
    let priority = r.read_i64();
    let status = GoalStatus::from_u8(r.read_u8());
    let creator = r.read_id();
    let created_at = r.read_u64();
    let description = r.read_string();
    let code = read_opt_string(r);
    let n = r.read_u16();
    let tasks = read_goal_tasks(r, n, id, created_at);
    if r.good() {
        let ids = ids_of(&tasks);
        let goal = Goal {
            id,
            description,
            code,
            priority,
            status,
            created_at,
            creator,
            task_ids: ids,
        };
        Some((goal, tasks))
    } else {
        None
    }
}

// ---------------------------------------------------------------------------
// What is read back
// ---------------------------------------------------------------------------

/// A task as a peer reads it from the message of the goal `g`.
pub open spec fn gossiped(t: TaskV, g: GoalV) -> TaskV {
    TaskV {
        goal_id: g.id,
        code: None,
        result: persist::kept_result(t.result),
        created_at: g.created_at,
        ..t
    }
}

/// Tasks as a peer reads them from the message of the goal `g`.
pub open spec fn all_gossiped(s: Seq<TaskV>, g: GoalV) -> Seq<TaskV> {
    Seq::new(s.len(), |i: int| gossiped(s[i], g))
}

proof fn lemma_goal_task_back(t: TaskV, g: GoalV, rest: Seq<u8>)
    requires
        persist::task_fits(t),
    ensures
        get_goal_task(wire::input(w_goal_task(t) + rest), g.id, g.created_at) == (
            gossiped(t, g),
            wire::input(rest),
        ),
{
    wire::lemma_pow256();
    goals::law_status_numbers(g.status, t.status);
    let t4 = persist::w_result(t.result) + rest;
    let t3 = wire::wtext(t.description) + t4;
    let t2 = persist::w_opt_id(t.assigned_to) + t3;
    let t1 = wire::w8(goals::task_rank(t.status) as int) + t2;
    assert(w_goal_task(t) + rest =~= wire::w64(t.id as nat) + t1);
    wire::lemma_get_nat(t.id as nat, 8, t1);
    wire::lemma_get_u8(goals::task_rank(t.status) as nat, t2);
    persist::lemma_opt_id_back(t.assigned_to, t3);
    wire::lemma_get_text(t.description, 2, t4);
    persist::lemma_result_back(t.result, rest);
}

#[verifier::spinoff_prover]
#[verifier::rlimit(50)]
proof fn lemma_goal_tasks_back(s: Seq<TaskV>, g: GoalV, rest: Seq<u8>)
    requires
        forall|i: int| 0 <= i < s.len() ==> persist::task_fits(#[trigger] s[i]),
    ensures
        get_goal_tasks(wire::input(w_goal_tasks(s) + rest), s.len() as int, g.id, g.created_at) == (
            all_gossiped(s, g),
            wire::input(rest),
        ),
    decreases s.len(),
{
    if s.len() == 0 {
        assert(w_goal_tasks(s) + rest =~= rest);
        assert(all_gossiped(s, g) =~= Seq::empty());
    } else {
        let p = s.drop_last();
        assert forall|i: int| 0 <= i < p.len() implies persist::task_fits(#[trigger] p[i]) by {
            assert(p[i] == s[i]);
        }
        lemma_goal_tasks_back(p, g, w_goal_task(s.last()) + rest);
        wire::lemma_assoc(w_goal_tasks(p), w_goal_task(s.last()), rest);
        lemma_goal_task_back(s.last(), g, rest);
        assert(all_gossiped(s, g) =~= all_gossiped(p, g).push(gossiped(s.last(), g)));
    }
}

/// A peer reads from the message of a goal the goal itself with the tasks that were sent, and the
/// tasks without code of their own.
pub proof fn law_goal_message_roundtrip(
    id: Seq<u8>,
    port: u16,
    g: GoalV,
    tasks: Seq<TaskV>,
    rest: Seq<u8>,
)
    requires
        id.len() == 8,
        persist::goal_fits(g),
        tasks.len() < 65536,
        forall|i: int| 0 <= i < tasks.len() ==> persist::task_fits(#[trigger] tasks[i]),
    ensures
        ({
            let i = wire::input(goal_bytes(id, port, g, tasks) + rest);
            let (kind, sender, from, j) = message::get_header(i);
            &&& kind == MSG_GOAL_BROADCAST && sender == id && from == port
            &&& get_goal_message(j) == (
                GoalV { task_ids: goals::task_ids(tasks), ..g },
                all_gossiped(tasks, g),
                wire::input(rest),
            )
        }),
{
    wire::lemma_pow256();
    let t8 = w_goal_tasks(tasks) + rest;
    let t7 = wire::w16(tasks.len()) + t8;
    let t6 = persist::w_opt_text(g.code) + t7;
    let t5 = wire::wtext(g.description) + t6;
    let t4 = wire::w64(g.created_at as nat) + t5;
    let t3 = g.creator + t4;
    let t2 = wire::w8(goals::goal_rank(g.status) as int) + t3;
    let t1 = wire::wi64(g.priority as int) + t2;
    let t0 = wire::w64(g.id as nat) + t1;
    let h = message::header(MSG_GOAL_BROADCAST, id, port);
    let a = wire::w64(g.id as nat) + wire::wi64(g.priority as int) + wire::w8(goals::goal_rank(g.status) as int);
    let b = a + g.creator + wire::w64(g.created_at as nat);
    wire::lemma_assoc(h + w_goal_part(g) + wire::w16(tasks.len()), w_goal_tasks(tasks), rest);
    wire::lemma_assoc(h + w_goal_part(g), wire::w16(tasks.len()), t8);
    wire::lemma_assoc(h, w_goal_part(g), t7);
    wire::lemma_assoc(b + wire::wtext(g.description), persist::w_opt_text(g.code), t7);
    wire::lemma_assoc(b, wire::wtext(g.description), t6);
    wire::lemma_assoc(a + g.creator, wire::w64(g.created_at as nat), t5);
    wire::lemma_assoc(a, g.creator, t4);
    wire::lemma_assoc(
        wire::w64(g.id as nat) + wire::wi64(g.priority as int),
        wire::w8(goals::goal_rank(g.status) as int),
        t3,
    );
    wire::lemma_assoc(wire::w64(g.id as nat), wire::wi64(g.priority as int), t2);
    message::law_header_roundtrip(MSG_GOAL_BROADCAST, id, port, t0);
    wire::lemma_get_nat(g.id as nat, 8, t1);
    wire::lemma_get_int(g.priority as int, t2);
    goals::law_status_numbers(g.status, TaskStatus::Waiting);
    wire::lemma_get_u8(goals::goal_rank(g.status) as nat, t3);
    wire::lemma_get_id(g.creator, t4);
    wire::lemma_get_nat(g.created_at as nat, 8, t5);
    wire::lemma_get_text(g.description, 2, t6);
    persist::lemma_opt_text_back(g.code, t7);
    wire::lemma_get_nat(tasks.len(), 2, t8);
    lemma_goal_tasks_back(tasks, g, rest);
    assert(goals::task_ids(all_gossiped(tasks, g)) =~= goals::task_ids(tasks));
}

} // verus!
