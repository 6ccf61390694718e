//! The state file: a machine's dictionary, memory, goals, fitness and code strings as bytes.

use crate::codec;
use crate::codec::{
    read_cells, read_dictionary, read_expected, read_ids, read_memory, write_cells, write_dictionary,
    write_ids, write_memory,
};
use crate::features::fitness;
use crate::features::fitness::{FitV, FitnessTracker};
use crate::goals;
use crate::goals::{
    Goal, GoalRegistry, GoalStatus, GoalV, GoalsV, ResultV, Task, TaskResult, TaskStatus, TaskV,
};
use crate::order;
use crate::order::insert_text;
use crate::text;
use crate::text::{from_chars, push_hex, text, to_chars, trimmed};
use crate::types;
use crate::types::{Cell, Entry, WordV};
use crate::wire;
use crate::wire::{
    write_bytes, write_i64, write_id, write_len16, write_len32, write_string, write_u32, write_u64,
    write_u8, Input, NodeId, Reader,
};
use vstd::prelude::*;
use vstd::utf8::*;

verus! {

/// Everything of a machine that outlives it.
pub struct VmSnapshot {
    pub node_id: NodeId,
    pub dictionary: Vec<Entry>,
    pub memory: Vec<Cell>,
    pub here: usize,
    pub goals: GoalRegistry,
    pub fitness: FitnessTracker,
    pub code_strings: Vec<String>,
}

/// The mathematical form of a snapshot.
#[verifier::ext_equal]
pub struct SnapV {
    pub node_id: Seq<u8>,
    pub dictionary: Seq<WordV>,
    pub memory: Seq<i64>,
    pub here: usize,
    pub goals: GoalsV,
    pub fitness: FitV,
    pub code_strings: Seq<Seq<char>>,
}

impl View for VmSnapshot {
    type V = SnapV;

    open spec fn view(&self) -> SnapV {
        SnapV {
            node_id: self.node_id@,
            dictionary: types::words(self.dictionary@),
            memory: self.memory@,
            here: self.here,
            goals: self.goals@,
            fitness: self.fitness@,
            code_strings: text::texts(self.code_strings@),
        }
    }
}

// ---------------------------------------------------------------------------
// The format
// ---------------------------------------------------------------------------

/// The first bytes of a state file: a mark and the version.
pub open spec fn mark() -> Seq<u8> {
    seq![0x55u8, 0x53u8, 0x41u8, 0x56u8, 1u8]
}

/// An optional text: a flag, then the text if there is one.
pub open spec fn w_opt_text(o: Option<Seq<char>>) -> Seq<u8> {
    match o {
        Some(s) => wire::w8(1) + wire::wtext(s),
        None => wire::w8(0),
    }
}

/// An optional identity: a flag, then the identity if there is one.
pub open spec fn w_opt_id(o: Option<Seq<u8>>) -> Seq<u8> {
    match o {
        Some(id) => wire::w8(1) + id,
        None => wire::w8(0),
    }
}

/// The message of an error, empty if there is none.
pub open spec fn error_text(e: Option<Seq<char>>) -> Seq<char> {
    match e {
        Some(s) => s,
        None => ""@,
    }
}

/// An optional result: a flag, then the result if there is one.
pub open spec fn w_result(o: Option<ResultV>) -> Seq<u8> {
    match o {
        Some(r) => wire::w8(1) + wire::w8(if r.success {
            1
        } else {
            0
        }) + wire::w16(r.stack.len()) + codec::w_cells(r.stack) + wire::wtext(r.output) + wire::wtext(error_text(r.error)),
        None => wire::w8(0),
    }
}

/// A goal.
pub open spec fn w_goal(g: GoalV) -> Seq<u8> {
    wire::w64(g.id as nat) + wire::wtext(g.description) + w_opt_text(g.code) + wire::wi64(g.priority as int) + wire::w8(
        goals::goal_rank(g.status) as int,
    ) + g.creator + wire::w64(g.created_at as nat) + wire::w16(g.task_ids.len()) + codec::w_ids(g.task_ids)
}

/// Goals in a row.
pub open spec fn w_goals(s: Seq<GoalV>) -> Seq<u8>
    decreases s.len(),
{
    if s.len() == 0 {
        Seq::empty()
    } else {
        w_goals(s.drop_last()) + w_goal(s.last())
    }
}

/// A task. Its own code is not kept.
pub open spec fn w_task(t: TaskV) -> Seq<u8> {
    wire::w64(t.id as nat) + wire::w64(t.goal_id as nat) + wire::wtext(t.description) + wire::w8(
        goals::task_rank(t.status) as int,
    ) + w_opt_id(t.assigned_to) + wire::w64(t.created_at as nat) + w_result(t.result)
}

/// Tasks in a row.
pub open spec fn w_tasks(s: Seq<TaskV>) -> Seq<u8>
    decreases s.len(),
{
    if s.len() == 0 {
        Seq::empty()
    } else {
        w_tasks(s.drop_last()) + w_task(s.last())
    }
}

/// The part of a fitness tracker that is kept.
pub open spec fn w_fitness(f: FitV) -> Seq<u8> {
    wire::wi64(f.score as int) + wire::w32(f.tasks_completed as nat) + wire::w32(f.tasks_failed as nat) + wire::w64(
        f.total_time_ms as nat,
    ) + wire::w32(f.evolution_count as nat)
}

/// Texts in a row.
pub open spec fn w_texts(s: Seq<Seq<char>>) -> Seq<u8>
    decreases s.len(),
{
    if s.len() == 0 {
        Seq::empty()
    } else {
        w_texts(s.drop_last()) + wire::wtext(s.last())
    }
}

/// A snapshot.
pub open spec fn w_snapshot(s: SnapV) -> Seq<u8> {
    mark() + s.node_id + wire::w32(s.dictionary.len()) + codec::w_words(s.dictionary, false) + codec::w_memory(
        s.memory,
        s.here,
    ) + wire::w32(s.goals.goals.len()) + w_goals(s.goals.goals) + wire::w32(s.goals.tasks.len()) + w_tasks(
        s.goals.tasks,
    ) + w_fitness(s.fitness) + wire::w32(s.code_strings.len()) + w_texts(s.code_strings)
}

// ---------------------------------------------------------------------------
// Writing
// ---------------------------------------------------------------------------

/// Appends an optional result.
pub fn write_result(buf: &mut Vec<u8>, o: &Option<TaskResult>)
    ensures
        final(buf)@ == old(buf)@ + w_result(goals::opt_result(*o)),
{
    match o {
        Some(r) => {
            write_u8(buf, 1);
            write_u8(
                buf,
                if r.success {
                    1
                } else {
                    0
                },
            );
            write_len16(buf, r.stack_snapshot.len());
            write_cells(buf, &r.stack_snapshot, r.stack_snapshot.len());
            write_string(buf, r.output.as_str());
            match &r.error {
                Some(e) => write_string(buf, e.as_str()),
                None => write_string(buf, ""),
            }
            assert(r.stack_snapshot@.take(r.stack_snapshot@.len() as int) =~= r.stack_snapshot@);
            assert(buf@ =~= old(buf)@ + w_result(goals::opt_result(*o)));
        },
        None => write_u8(buf, 0),
    }
}

/// Appends an optional identity.
pub fn write_opt_id(buf: &mut Vec<u8>, o: &Option<NodeId>)
    ensures
        final(buf)@ == old(buf)@ + w_opt_id(goals::opt_id(*o)),
{
    match o {
        Some(id) => {
            write_u8(buf, 1);
            write_id(buf, id);
            assert(buf@ =~= old(buf)@ + w_opt_id(goals::opt_id(*o)));
        },
        None => write_u8(buf, 0),
    }
}

fn write_goal(buf: &mut Vec<u8>, g: &Goal)
    ensures
        final(buf)@ == old(buf)@ + w_goal(g@),
{
    write_u64(buf, g.id);
    write_string(buf, g.description.as_str());
    let ghost a = buf@;
    match &g.code {
        Some(c) => {
            write_u8(buf, 1);
            write_string(buf, c.as_str());
        },
        None => write_u8(buf, 0),
    }
    assert(buf@ =~= a + w_opt_text(g@.code));
    write_i64(buf, g.priority);
    write_u8(buf, g.status.as_u8());
    write_id(buf, &g.creator);
    write_u64(buf, g.created_at);
    write_len16(buf, g.task_ids.len());
    write_ids(buf, &g.task_ids);
    assert(buf@ =~= old(buf)@ + w_goal(g@));
}

fn write_task(buf: &mut Vec<u8>, t: &Task)
    ensures
        final(buf)@ == old(buf)@ + w_task(t@),
{
    write_u64(buf, t.id);
    write_u64(buf, t.goal_id);
    write_string(buf, t.description.as_str());
    write_u8(buf, t.status.as_u8());
    write_opt_id(buf, &t.assigned_to);
    write_u64(buf, t.created_at);
    write_result(buf, &t.result);
    assert(buf@ =~= old(buf)@ + w_task(t@));
}

fn write_registry(buf: &mut Vec<u8>, r: &GoalRegistry)
    ensures
        final(buf)@ == old(buf)@ + wire::w32(r@.goals.len()) + w_goals(r@.goals) + wire::w32(r@.tasks.len())
            + w_tasks(r@.tasks),
{
    write_len32(buf, r.goals.len());
    let ghost start = buf@;
    let mut i: usize = 0;
    assert(buf@ =~= start + w_goals(r@.goals.take(0)));
    while i < r.goals.len()
        invariant
            i <= r.goals@.len(),
            buf@ == start + w_goals(r@.goals.take(i as int)),
        decreases r.goals@.len() - i,
    {
        write_goal(buf, &r.goals[i]);
        i = i + 1;
        assert(r@.goals.take(i as int).drop_last() =~= r@.goals.take(i - 1));
        assert(buf@ =~= start + w_goals(r@.goals.take(i as int)));
    }
    assert(r@.goals.take(i as int) =~= r@.goals);
    write_len32(buf, r.tasks.len());
    let ghost next = buf@;
    let mut k: usize = 0;
    assert(buf@ =~= next + w_tasks(r@.tasks.take(0)));
    while k < r.tasks.len()
        invariant
            k <= r.tasks@.len(),
            buf@ == next + w_tasks(r@.tasks.take(k as int)),
        decreases r.tasks@.len() - k,
    {
        write_task(buf, &r.tasks[k]);
        k = k + 1;
        assert(r@.tasks.take(k as int).drop_last() =~= r@.tasks.take(k - 1));
        assert(buf@ =~= next + w_tasks(r@.tasks.take(k as int)));
    }
    assert(r@.tasks.take(k as int) =~= r@.tasks);
}

fn write_texts(buf: &mut Vec<u8>, v: &[String])
    ensures
        final(buf)@ == old(buf)@ + w_texts(text::texts(v@)),
{
    let ghost ts = text::texts(v@);
    let mut i: usize = 0;
    assert(buf@ =~= old(buf)@ + w_texts(ts.take(0)));
    while i < v.len()
        invariant
            i <= v@.len(),
            ts == text::texts(v@),
            buf@ == old(buf)@ + w_texts(ts.take(i as int)),
        decreases v@.len() - i,
    {
        write_string(buf, v[i].as_str());
        i = i + 1;
        assert(ts.take(i as int).drop_last() =~= ts.take(i - 1));
        assert(buf@ =~= old(buf)@ + w_texts(ts.take(i as int)));
    }
    assert(ts.take(i as int) =~= ts);
}

/// The bytes of a snapshot.
pub fn serialize_snapshot(snap: &VmSnapshot) -> (buf: Vec<u8>)
    ensures
        buf@ == w_snapshot(snap@),
{
    let mut buf: Vec<u8> = Vec::new();
    let m: [u8; 5] = [0x55, 0x53, 0x41, 0x56, 1];
    assert(m@ =~= mark());
    write_bytes(&mut buf, m.as_slice());
    assert(buf@ =~= mark());
    write_id(&mut buf, &snap.node_id);
    write_dictionary(&mut buf, &snap.dictionary, false);
    write_memory(&mut buf, &snap.memory, snap.here);
    write_registry(&mut buf, &snap.goals);
    let f = &snap.fitness;
    let ghost b = buf@;
    write_i64(&mut buf, f.score);
    write_u32(&mut buf, f.tasks_completed);
    write_u32(&mut buf, f.tasks_failed);
    write_u64(&mut buf, f.total_time_ms);
    write_u32(&mut buf, f.evolution_count);
    assert(buf@ =~= b + w_fitness(f@));
    write_len32(&mut buf, snap.code_strings.len());
    write_texts(&mut buf, &snap.code_strings);
    buf
}

// ---------------------------------------------------------------------------
// Reading
// ---------------------------------------------------------------------------

/// Takes a flag.
pub open spec fn get_flag(i: Input) -> (bool, Input) {
    let (n, i) = wire::get_nat(i, 1);
    (n != 0, i)
}

/// Takes an optional text.
pub open spec fn get_opt_text(i: Input) -> (Option<Seq<char>>, Input) {
    let (f, i) = get_flag(i);
    if f {
        let (s, i) = wire::get_text(i, 2);
        (Some(s), i)
    } else {
        (None, i)
    }
}

/// Takes an optional identity.
pub open spec fn get_opt_id(i: Input) -> (Option<Seq<u8>>, Input) {
    let (f, i) = get_flag(i);
    if f {
        let (id, i) = wire::get_id(i);
        (Some(id), i)
    } else {
        (None, i)
    }
}

/// Takes an optional result. An empty error message stands for no error.
pub open spec fn get_result(i: Input) -> (Option<ResultV>, Input) {
    let (f, i) = get_flag(i);
    if f {
        let (success, i) = get_flag(i);
        let (n, i) = wire::get_nat(i, 2);
        let (stack, i) = codec::get_cells(i, n as int);
        let (output, i) = wire::get_text(i, 2);
        let (e, i) = wire::get_text(i, 2);
        (
            Some(
                ResultV {
                    stack,
                    output,
                    success,
                    error: if e.len() == 0 {
                        None
                    } else {
                        Some(e)
                    },
                },
            ),
            i,
        )
    } else {
        (None, i)
    }
}

/// Takes a goal.
pub open spec fn get_goal(i: Input) -> (GoalV, Input) {
    let (id, i) = wire::get_nat(i, 8);
    let (description, i) = wire::get_text(i, 2);
    let (code, i) = get_opt_text(i);
    let (priority, i) = wire::get_int(i);
    let (s, i) = wire::get_nat(i, 1);
    let (creator, i) = wire::get_id(i);
    let (created_at, i) = wire::get_nat(i, 8);
    let (n, i) = wire::get_nat(i, 2);
    let (ids, i) = codec::get_ids(i, n as int);
    (
        GoalV {
            id: id as u64,
            description,
            code,
            priority: priority as i64,
            status: goals::goal_status(s as int),
            created_at: created_at as u64,
            creator,
            task_ids: ids,
        },
        i,
    )
}

/// Takes `n` goals into a table: a later goal replaces an earlier one of the same identity.
pub open spec fn get_goals(i: Input, n: int) -> (Seq<GoalV>, Input)
    decreases n,
{
    if n <= 0 {
        (Seq::empty(), i)
    } else {
        let (s, i) = get_goals(i, n - 1);
        let (g, i) = get_goal(i);
        (goals::put_goal(s, g), i)
    }
}

/// Takes a task. It has no code of its own.
pub open spec fn get_task(i: Input) -> (TaskV, Input) {
    let (id, i) = wire::get_nat(i, 8);
    let (goal_id, i) = wire::get_nat(i, 8);
    let (description, i) = wire::get_text(i, 2);
    let (s, i) = wire::get_nat(i, 1);
    let (assigned_to, i) = get_opt_id(i);
    let (created_at, i) = wire::get_nat(i, 8);
    let (result, i) = get_result(i);
    (
        TaskV {
            id: id as u64,
            goal_id: goal_id as u64,
            description,
            code: None,
            assigned_to,
            status: goals::task_status(s as int),
            result,
            created_at: created_at as u64,
        },
        i,
    )
}

/// Takes `n` tasks into a table: a later task replaces an earlier one of the same identity.
pub open spec fn get_tasks(i: Input, n: int) -> (Seq<TaskV>, Input)
    decreases n,
{
    if n <= 0 {
        (Seq::empty(), i)
    } else {
        let (s, i) = get_tasks(i, n - 1);
        let (t, i) = get_task(i);
        (goals::put_task(s, t), i)
    }
}

/// Takes the part of a fitness tracker that is kept; the rest is as in a fresh one.
pub open spec fn get_fitness(i: Input) -> (FitV, Input) {
    let (score, i) = wire::get_int(i);
    let (done, i) = wire::get_nat(i, 4);
    let (bad, i) = wire::get_nat(i, 4);
    let (time, i) = wire::get_nat(i, 8);
    let (evolutions, i) = wire::get_nat(i, 4);
    (
        FitV {
            score: score as i64,
            tasks_completed: done as u32,
            tasks_failed: bad as u32,
            total_time_ms: time as u64,
            evolution_count: evolutions as u32,
            ..fitness::fresh()
        },
        i,
    )
}

/// Takes `n` texts.
pub open spec fn get_texts(i: Input, n: int) -> (Seq<Seq<char>>, Input)
    decreases n,
{
    if n <= 0 {
        (Seq::empty(), i)
    } else {
        let (s, i) = get_texts(i, n - 1);
        let (t, i) = wire::get_text(i, 2);
        (s.push(t), i)
    }
}

/// Takes a snapshot. Identities are handed out from 1 again.
pub open spec fn get_snapshot(i: Input) -> (SnapV, Input) {
    let i = codec::expect(i, mark());
    let (node_id, i) = wire::get_id(i);
    let (n, i) = wire::get_nat(i, 4);
    let (dictionary, i) = codec::get_words(i, n as int, false);
    let (memory, here, i) = codec::get_memory(i);
    let (n, i) = wire::get_nat(i, 4);
    let (goals, i) = get_goals(i, n as int);
    let (n, i) = wire::get_nat(i, 4);
    let (tasks, i) = get_tasks(i, n as int);
    let (fitness, i) = get_fitness(i);
    let (n, i) = wire::get_nat(i, 4);
    let (code_strings, i) = get_texts(i, n as int);
    (
        SnapV {
            node_id,
            dictionary,
            memory,
            here: here as usize,
            goals: GoalsV { goals, tasks, counter: 1 },
            fitness,
            code_strings,
        },
        i,
    )
}

proof fn lemma_goals_distinct(i: Input, n: int)
    ensures
        order::distinct(goals::goal_ids(get_goals(i, n).0)),
    decreases n,
{
    if n > 0 {
        lemma_goals_distinct(i, n - 1);
        let (s, j) = get_goals(i, n - 1);
        goals::lemma_put_goal(s, get_goal(j).0);
    }
}

proof fn lemma_tasks_distinct(i: Input, n: int)
    ensures
        order::distinct(goals::task_ids(get_tasks(i, n).0)),
    decreases n,
{
    if n > 0 {
        lemma_tasks_distinct(i, n - 1);
        let (s, j) = get_tasks(i, n - 1);
        goals::lemma_put_task(s, get_task(j).0);
    }
}

/// The goals of a snapshot do not repeat.
pub proof fn lemma_snapshot_goals(i: Input)
    ensures
        goals::goals_wf(get_snapshot(i).0.goals),
{
    let i = codec::expect(i, mark());
    let (node_id, i) = wire::get_id(i);
    let (n, i) = wire::get_nat(i, 4);
    let (dictionary, i) = codec::get_words(i, n as int, false);
    let (memory, here, i) = codec::get_memory(i);
    let (n, i) = wire::get_nat(i, 4);
    lemma_goals_distinct(i, n as int);
    let (g, i) = get_goals(i, n as int);
    let (n, i) = wire::get_nat(i, 4);
    lemma_tasks_distinct(i, n as int);
}

/// Takes an optional identity.
pub fn read_opt_id(r: &mut Reader) -> (o: Option<NodeId>)
    requires
        old(r).wf(),
    ensures
        final(r).wf(),
        (goals::opt_id(o), final(r)@) == get_opt_id(old(r)@),
{
    let f = r.read_u8();
    if f != 0 {
        Some(r.read_id())
    } else {
        None
    }
}

/// Takes an optional text.
pub fn read_opt_string(r: &mut Reader) -> (o: Option<String>)
    requires
        old(r).wf(),
    ensures
        final(r).wf(),
        (text::opt_text(o), final(r)@) == get_opt_text(old(r)@),
{
    let f = r.read_u8();
    if f != 0 {
        Some(r.read_string())
    } else {
        None
    }
}

/// Takes an optional result.
pub fn read_result(r: &mut Reader) -> (o: Option<TaskResult>)
    requires
        old(r).wf(),
        codec::canonical(old(r)@),
    ensures
        final(r).wf(),
        codec::canonical(final(r)@),
        final(r)@ == get_result(old(r)@).1,
        final(r)@.ok ==> goals::opt_result(o) == get_result(old(r)@).0,
{
    let f = r.read_u8();
    if f != 0 {
        let s = r.read_u8();
        let n = r.read_u16();
        let stack_snapshot = read_cells(r, n as u32);
        let output = r.read_string();
        let e = r.read_string();
        let empty = e.as_str().is_empty();
        Some(
            TaskResult {
                stack_snapshot,
                output,
                success: s != 0,
                error: if empty {
                    None
                } else {
                    Some(e)
                },
            },
        )
    } else {
        None
    }
}

fn read_goal(r: &mut Reader) -> (g: Goal)
    requires
        old(r).wf(),
        codec::canonical(old(r)@),
    ensures
        final(r).wf(),
        codec::canonical(final(r)@),
        final(r)@ == get_goal(old(r)@).1,
        final(r)@.ok ==> g@ == get_goal(old(r)@).0,
{
    let id = r.read_u64();
    let description = r.read_string();
    let code = read_opt_string(r);
    let priority = r.read_i64();
    let status = GoalStatus::from_u8(r.read_u8());
    let creator = r.read_id();
    let created_at = r.read_u64();
    let n = r.read_u16();
    let task_ids = read_ids(r, n as u32);
    Goal { id, description, code, priority, status, created_at, creator, task_ids }
}

fn read_task(r: &mut Reader) -> (t: Task)
    requires
        old(r).wf(),
        codec::canonical(old(r)@),
    ensures
        final(r).wf(),
        codec::canonical(final(r)@),
        final(r)@ == get_task(old(r)@).1,
        final(r)@.ok ==> t@ == get_task(old(r)@).0,
{
    let id = r.read_u64();
    let goal_id = r.read_u64();
    let description = r.read_string();
    let status = TaskStatus::from_u8(r.read_u8());
    let assigned_to = read_opt_id(r);
    let created_at = r.read_u64();
    let result = read_result(r);
    Task { id, goal_id, description, code: None, assigned_to, status, result, created_at }
}

proof fn lemma_goals_keep_failing(i: Input, k: int, n: int)
    requires
        0 <= k <= n,
        get_goals(i, k).1 == wire::failed(),
    ensures
        get_goals(i, n).1 == wire::failed(),
    decreases n,
{
    if k < n {
        lemma_goals_keep_failing(i, k, n - 1);
        codec::lemma_failed(0, false);
        lemma_goal_failed();
    }
}

proof fn lemma_goal_failed()
    ensures
        get_goal(wire::failed()).1 == wire::failed(),
        get_task(wire::failed()).1 == wire::failed(),
{
    let (n, _) = wire::get_nat(wire::failed(), 2);
    codec::lemma_failed(n as int, false);
}

proof fn lemma_tasks_keep_failing(i: Input, k: int, n: int)
    requires
        0 <= k <= n,
        get_tasks(i, k).1 == wire::failed(),
    ensures
        get_tasks(i, n).1 == wire::failed(),
    decreases n,
{
    if k < n {
        lemma_tasks_keep_failing(i, k, n - 1);
        lemma_goal_failed();
    }
}

proof fn lemma_texts_keep_failing(i: Input, k: int, n: int)
    requires
        0 <= k <= n,
        get_texts(i, k).1 == wire::failed(),
    ensures
        get_texts(i, n).1 == wire::failed(),
    decreases n,
{
    if k < n {
        lemma_texts_keep_failing(i, k, n - 1);
    }
}

fn read_registry(r: &mut Reader) -> (g: GoalRegistry)
    requires
        old(r).wf(),
        codec::canonical(old(r)@),
    ensures
        final(r).wf(),
        codec::canonical(final(r)@),
        goals::goals_wf(g@),
        ({
            let (n, i) = wire::get_nat(old(r)@, 4);
            let (goals, i) = get_goals(i, n as int);
            let (n, i) = wire::get_nat(i, 4);
            let (tasks, i) = get_tasks(i, n as int);
            &&& final(r)@ == i
            &&& i.ok ==> g@ == (GoalsV { goals, tasks, counter: 1 })
        }),
{
    let mut g = GoalRegistry::empty();
    let n = r.read_u32();
    let ghost start = r@;
    let mut k: u32 = 0;
    while k < n && r.good()
        invariant
            k <= n,
            r.wf(),
            codec::canonical(r@),
            goals::goals_wf(g@),
            g@.tasks == Seq::<TaskV>::empty(),
            g@.counter == 1,
            r@ == get_goals(start, k as int).1,
            r@.ok ==> g@.goals == get_goals(start, k as int).0,
        decreases n - k,
    {
        let x = read_goal(r);
        g.insert_goal(x);
        k = k + 1;
    }
    proof {
        if !r@.ok {
            lemma_goals_keep_failing(start, k as int, n as int);
        }
    }
    let ghost gs = g@.goals;
    let m = r.read_u32();
    let ghost next = r@;
    let mut j: u32 = 0;
    while j < m && r.good()
        invariant
            j <= m,
            r.wf(),
            codec::canonical(r@),
            goals::goals_wf(g@),
            g@.goals == gs,
            g@.counter == 1,
            r@ == get_tasks(next, j as int).1,
            r@.ok ==> g@.tasks == get_tasks(next, j as int).0,
            next.ok ==> gs == get_goals(start, n as int).0,
            !next.ok ==> next == wire::failed(),
        decreases m - j,
    {
        let x = read_task(r);
        g.insert_task(x);
        j = j + 1;
    }
    proof {
        if !r@.ok {
            lemma_tasks_keep_failing(next, j as int, m as int);
        } else if !next.ok {
            lemma_tasks_keep_failing(next, 0, m as int);
        }
    }
    g
}

fn read_texts(r: &mut Reader, n: u32) -> (v: Vec<String>)
    requires
        old(r).wf(),
        codec::canonical(old(r)@),
    ensures
        final(r).wf(),
        codec::canonical(final(r)@),
        final(r)@ == get_texts(old(r)@, n as int).1,
        final(r)@.ok ==> text::texts(v@) == get_texts(old(r)@, n as int).0,
{
    let mut v: Vec<String> = Vec::new();
    let mut k: u32 = 0;
    assert(text::texts(v@) =~= Seq::<Seq<char>>::empty());
    while k < n && r.good()
        invariant
            k <= n,
            r.wf(),
            codec::canonical(r@),
            r@ == get_texts(old(r)@, k as int).1,
            r@.ok ==> text::texts(v@) == get_texts(old(r)@, k as int).0,
        decreases n - k,
    {
        let ghost before = text::texts(v@);
        let s = r.read_string();
        v.push(s);
        assert(text::texts(v@) =~= before.push(s@));
        k = k + 1;
    }
    proof {
        if !r@.ok {
            lemma_texts_keep_failing(old(r)@, k as int, n as int);
        }
    }
    v
}

/// The snapshot that bytes stand for; `None` if they are no snapshot.
pub fn deserialize_snapshot(data: &[u8]) -> (o: Option<VmSnapshot>)
    ensures
        o.is_some() == get_snapshot(wire::input(data@)).1.ok,
        o matches Some(s) ==> s@ == get_snapshot(wire::input(data@)).0 && goals::goals_wf(s@.goals),
{
    let mut r = Reader::new(data);
    let m: [u8; 5] = [0x55, 0x53, 0x41, 0x56, 1];
    assert(m@ =~= mark());
    read_expected(&mut r, m.as_slice());
    let node_id = r.read_id();
    let n = r.read_u32();
    let dictionary = read_dictionary(&mut r, n, false);
    let (memory, here) = read_memory(&mut r);
    let goals = read_registry(&mut r);
    let score = r.read_i64();
    let done = r.read_u32();
    let bad = r.read_u32();
    let time = r.read_u64();
    let evolutions = r.read_u32();
    let mut fitness = FitnessTracker::new();
    fitness.score = score;
    fitness.tasks_completed = done;
    fitness.tasks_failed = bad;
    fitness.total_time_ms = time;
    fitness.evolution_count = evolutions;
    let c = r.read_u32();
    let code_strings = read_texts(&mut r, c);
    if r.good() {
        proof {
            lemma_snapshot_steps(wire::input(data@));
        }
        Some(
            VmSnapshot {
                node_id,
                dictionary,
                memory,
                here: here as usize,
                goals,
                fitness,
                code_strings,
            },
        )
    } else {
        None
    }
}

/// A snapshot is only taken if each of its parts is.
proof fn lemma_snapshot_steps(start: Input)
    requires
        get_snapshot(start).1.ok,
    ensures
        ({
            let i = codec::expect(start, mark());
            let (node_id, i) = wire::get_id(i);
            let (n, i) = wire::get_nat(i, 4);
            let i1 = codec::get_words(i, n as int, false).1;
            let i2 = codec::get_memory(i1).2;
            let (n, j) = wire::get_nat(i2, 4);
            let j = get_goals(j, n as int).1;
            let (n, j) = wire::get_nat(j, 4);
            let i3 = get_tasks(j, n as int).1;
            let i4 = get_fitness(i3).1;
            i1.ok && i2.ok && i3.ok && i4.ok
        }),
{
    let i = codec::expect(start, mark());
    let (node_id, i) = wire::get_id(i);
    let (n, i) = wire::get_nat(i, 4);
    let i1 = codec::get_words(i, n as int, false).1;
    let i2 = codec::get_memory(i1).2;
    let (n, j1) = wire::get_nat(i2, 4);
    let j2 = get_goals(j1, n as int).1;
    let (m, j3) = wire::get_nat(j2, 4);
    let i3 = get_tasks(j3, m as int).1;
    let i4 = get_fitness(i3).1;
    let (c, i5) = wire::get_nat(i4, 4);
    if !i5.ok {
        lemma_texts_keep_failing(i5, 0, c as int);
    }
    if !j3.ok {
        lemma_tasks_keep_failing(j3, 0, m as int);
    }
    if !j1.ok {
        lemma_goals_keep_failing(j1, 0, n as int);
    }
    let (h, k1) = wire::get_nat(i1, 4);
    let (q, k2) = wire::get_nat(k1, 4);
    codec::lemma_failed(if q < 65536 {
        q as int
    } else {
        65536
    }, false);
}

// ---------------------------------------------------------------------------
// Reading gives back what was written
// ---------------------------------------------------------------------------

/// True of a text whose length fits in two bytes.
pub open spec fn text_fits(s: Seq<char>) -> bool {
    encode_utf8(s).len() < 65536
}

/// True of an optional text whose length fits in two bytes.
pub open spec fn opt_text_fits(o: Option<Seq<char>>) -> bool {
    o matches Some(s) ==> text_fits(s)
}

/// True of a goal whose parts fit in the bytes for them.
pub open spec fn goal_fits(g: GoalV) -> bool {
    &&& text_fits(g.description)
    &&& opt_text_fits(g.code)
    &&& g.creator.len() == 8
    &&& g.task_ids.len() < 65536
}

/// True of a task whose parts fit in the bytes for them.
pub open spec fn task_fits(t: TaskV) -> bool {
    &&& text_fits(t.description)
    &&& t.assigned_to matches Some(id) ==> id.len() == 8
    &&& t.result matches Some(r) ==> r.stack.len() < 65536 && text_fits(r.output) && opt_text_fits(
        r.error,
    )
}

/// True of a snapshot whose parts fit in the bytes for them.
pub open spec fn snapshot_fits(s: SnapV) -> bool {
    &&& s.node_id.len() == 8
    &&& codec::words_fit(s.dictionary, false)
    &&& s.here <= u32::MAX
    &&& codec::used(s.memory, s.here).len() <= 65536
    &&& s.goals.goals.len() <= u32::MAX
    &&& s.goals.tasks.len() <= u32::MAX
    &&& s.code_strings.len() <= u32::MAX
    &&& forall|i: int| 0 <= i < s.goals.goals.len() ==> goal_fits(#[trigger] s.goals.goals[i])
    &&& forall|i: int| 0 <= i < s.goals.tasks.len() ==> task_fits(#[trigger] s.goals.tasks[i])
    &&& forall|i: int| 0 <= i < s.code_strings.len() ==> text_fits(#[trigger] s.code_strings[i])
}

/// A result as it is read back: an empty error message is none.
pub open spec fn kept_result(o: Option<ResultV>) -> Option<ResultV> {
    match o {
        Some(r) => Some(
            ResultV {
                error: if error_text(r.error).len() == 0 {
                    None
                } else {
                    r.error
                },
                ..r
            },
        ),
        None => None,
    }
}

/// A task as it is read back: without code of its own.
pub open spec fn kept_task(t: TaskV) -> TaskV {
    TaskV { code: None, result: kept_result(t.result), ..t }
}

/// Tasks as they are read back.
pub open spec fn kept_tasks(s: Seq<TaskV>) -> Seq<TaskV> {
    Seq::new(s.len(), |i: int| kept_task(s[i]))
}

/// A snapshot as it is read back: the memory in use, the tasks without code of their own, the
/// counters of the fitness tracker, and identities from 1.
pub open spec fn kept(s: SnapV) -> SnapV {
    SnapV {
        memory: codec::filled(codec::used(s.memory, s.here)),
        goals: GoalsV { tasks: kept_tasks(s.goals.tasks), counter: 1, ..s.goals },
        fitness: FitV {
            score: s.fitness.score,
            tasks_completed: s.fitness.tasks_completed,
            tasks_failed: s.fitness.tasks_failed,
            total_time_ms: s.fitness.total_time_ms,
            evolution_count: s.fitness.evolution_count,
            ..fitness::fresh()
        },
        ..s
    }
}

/// Taking an optional text gives back the one put.
pub proof fn lemma_opt_text_back(o: Option<Seq<char>>, t: Seq<u8>)
    requires
        opt_text_fits(o),
    ensures
        get_opt_text(wire::input(w_opt_text(o) + t)) == (o, wire::input(t)),
{
    wire::lemma_pow256();
    match o {
        Some(s) => {
            assert(w_opt_text(o) + t =~= wire::w8(1) + (wire::wtext(s) + t));
            wire::lemma_get_u8(1, wire::wtext(s) + t);
            wire::lemma_get_text(s, 2, t);
        },
        None => wire::lemma_get_u8(0, t),
    }
}

/// Taking an optional identity gives back the one put.
pub proof fn lemma_opt_id_back(o: Option<Seq<u8>>, t: Seq<u8>)
    requires
        o matches Some(id) ==> id.len() == 8,
    ensures
        get_opt_id(wire::input(w_opt_id(o) + t)) == (o, wire::input(t)),
{
    match o {
        Some(id) => {
            assert(w_opt_id(o) + t =~= wire::w8(1) + (id + t));
            wire::lemma_get_u8(1, id + t);
            wire::lemma_get_id(id, t);
        },
        None => wire::lemma_get_u8(0, t),
    }
}

/// Taking an optional result gives back the one put, without an empty error message.
pub proof fn lemma_result_back(o: Option<ResultV>, t: Seq<u8>)
    requires
        o matches Some(r) ==> r.stack.len() < 65536 && text_fits(r.output) && opt_text_fits(r.error),
    ensures
        get_result(wire::input(w_result(o) + t)) == (kept_result(o), wire::input(t)),
{
    wire::lemma_pow256();
    match o {
        Some(r) => {
            let e = error_text(r.error);
            reveal_strlit("");
            assert(text_fits(e)) by {
                if r.error.is_none() {
                    assert(e =~= Seq::<char>::empty());
                    reveal_with_fuel(encode_utf8, 1);
                }
            }
            let s = if r.success {
                1nat
            } else {
                0
            };
            let t5 = wire::wtext(e) + t;
            let t4 = wire::wtext(r.output) + t5;
            let t3 = codec::w_cells(r.stack) + t4;
            let t2 = wire::w16(r.stack.len()) + t3;
            let t1 = wire::w8(s as int) + t2;
            assert(w_result(o) + t =~= wire::w8(1) + t1);
            wire::lemma_get_u8(1, t1);
            wire::lemma_get_u8(s, t2);
            wire::lemma_get_nat(r.stack.len(), 2, t3);
            codec::lemma_cells_back(r.stack, t4);
            wire::lemma_get_text(r.output, 2, t5);
            wire::lemma_get_text(e, 2, t);
        },
        None => wire::lemma_get_u8(0, t),
    }
}

proof fn lemma_goal_back(g: GoalV, t: Seq<u8>)
    requires
        goal_fits(g),
    ensures
        get_goal(wire::input(w_goal(g) + t)) == (g, wire::input(t)),
{
    wire::lemma_pow256();
    let t8 = codec::w_ids(g.task_ids) + t;
    let t7 = wire::w16(g.task_ids.len()) + t8;
    let t6 = wire::w64(g.created_at as nat) + t7;
    let t5 = g.creator + t6;
    let t4 = wire::w8(goals::goal_rank(g.status) as int) + t5;
    let t3 = wire::wi64(g.priority as int) + t4;
    let t2 = w_opt_text(g.code) + t3;
    let t1 = wire::wtext(g.description) + t2;
    assert(w_goal(g) + t =~= wire::w64(g.id as nat) + t1);
    wire::lemma_get_nat(g.id as nat, 8, t1);
    wire::lemma_get_text(g.description, 2, t2);
    lemma_opt_text_back(g.code, t3);
    wire::lemma_get_int(g.priority as int, t4);
    wire::lemma_get_u8(goals::goal_rank(g.status) as nat, t5);
    wire::lemma_get_id(g.creator, t6);
    wire::lemma_get_nat(g.created_at as nat, 8, t7);
    wire::lemma_get_nat(g.task_ids.len(), 2, t8);
    codec::lemma_ids_back(g.task_ids, t);
    goals::law_status_numbers(g.status, TaskStatus::Waiting);
}

proof fn lemma_task_back(x: TaskV, t: Seq<u8>)
    requires
        task_fits(x),
    ensures
        get_task(wire::input(w_task(x) + t)) == (kept_task(x), wire::input(t)),
{
    wire::lemma_pow256();
    let t6 = w_result(x.result) + t;
    let t5 = wire::w64(x.created_at as nat) + t6;
    let t4 = w_opt_id(x.assigned_to) + t5;
    let t3 = wire::w8(goals::task_rank(x.status) as int) + t4;
    let t2 = wire::wtext(x.description) + t3;
    let t1 = wire::w64(x.goal_id as nat) + t2;
    assert(w_task(x) + t =~= wire::w64(x.id as nat) + t1);
    wire::lemma_get_nat(x.id as nat, 8, t1);
    wire::lemma_get_nat(x.goal_id as nat, 8, t2);
    wire::lemma_get_text(x.description, 2, t3);
    wire::lemma_get_u8(goals::task_rank(x.status) as nat, t4);
    lemma_opt_id_back(x.assigned_to, t5);
    wire::lemma_get_nat(x.created_at as nat, 8, t6);
    lemma_result_back(x.result, t);
    goals::law_status_numbers(GoalStatus::Pending, x.status);
}

/// Of distinct goals, those before the last are distinct, and none of them has the last identity.
proof fn lemma_last_goal(s: Seq<GoalV>)
    requires
        order::distinct(goals::goal_ids(s)),
        s.len() > 0,
    ensures
        order::distinct(goals::goal_ids(s.drop_last())),
        !goals::has_goal(s.drop_last(), s.last().id),
{
    let d = s.drop_last();
    assert forall|i: int, j: int| 0 <= i < j < goals::goal_ids(d).len() implies goals::goal_ids(d)[i]
        != goals::goal_ids(d)[j] by {
        assert(goals::goal_ids(s)[i] != goals::goal_ids(s)[j]);
    }
    order::lemma_at(goals::goal_ids(d), s.last().id);
    if goals::has_goal(d, s.last().id) {
        let k = goals::goal_at(d, s.last().id);
        assert(goals::goal_ids(s)[k] == goals::goal_ids(s)[s.len() - 1]);
    }
}

#[verifier::spinoff_prover]
#[verifier::rlimit(40)]
proof fn lemma_goals_back(s: Seq<GoalV>, t: Seq<u8>)
    requires
        order::distinct(goals::goal_ids(s)),
        forall|i: int| 0 <= i < s.len() ==> goal_fits(#[trigger] s[i]),
    ensures
        get_goals(wire::input(w_goals(s) + t), s.len() as int) == (s, wire::input(t)),
    decreases s.len(),
{
    if s.len() == 0 {
        assert(w_goals(s) + t =~= t);
        assert(s =~= Seq::<GoalV>::empty());
    } else {
        let d = s.drop_last();
        let u = w_goal(s.last()) + t;
        assert(w_goals(s) + t =~= w_goals(d) + u);
        lemma_last_goal(s);
        lemma_goals_back(d, u);
        lemma_goal_back(s.last(), t);
        assert(d.push(s.last()) =~= s);
    }
}

/// Of distinct tasks, those before the last are distinct, and none of them has the last identity.
proof fn lemma_last_task(s: Seq<TaskV>)
    requires
        order::distinct(goals::task_ids(s)),
        s.len() > 0,
    ensures
        order::distinct(goals::task_ids(s.drop_last())),
        !goals::has_task(kept_tasks(s.drop_last()), s.last().id),
{
    let d = s.drop_last();
    assert forall|i: int, j: int| 0 <= i < j < goals::task_ids(d).len() implies goals::task_ids(d)[i]
        != goals::task_ids(d)[j] by {
        assert(goals::task_ids(s)[i] != goals::task_ids(s)[j]);
    }
    let kd = kept_tasks(d);
    order::lemma_at(goals::task_ids(kd), s.last().id);
    if goals::has_task(kd, s.last().id) {
        let k = goals::task_at(kd, s.last().id);
        assert(goals::task_ids(kd)[k] == goals::task_ids(s)[k]);
        assert(goals::task_ids(s)[k] == goals::task_ids(s)[s.len() - 1]);
    }
}

#[verifier::spinoff_prover]
#[verifier::rlimit(40)]
proof fn lemma_tasks_back(s: Seq<TaskV>, t: Seq<u8>)
    requires
        order::distinct(goals::task_ids(s)),
        forall|i: int| 0 <= i < s.len() ==> task_fits(#[trigger] s[i]),
    ensures
        get_tasks(wire::input(w_tasks(s) + t), s.len() as int) == (kept_tasks(s), wire::input(t)),
    decreases s.len(),
{
    if s.len() == 0 {
        assert(w_tasks(s) + t =~= t);
        assert(kept_tasks(s) =~= Seq::<TaskV>::empty());
    } else {
        let d = s.drop_last();
        let u = w_task(s.last()) + t;
        assert(w_tasks(s) + t =~= w_tasks(d) + u);
        lemma_last_task(s);
        lemma_tasks_back(d, u);
        lemma_task_back(s.last(), t);
        assert(kept_tasks(d).push(kept_task(s.last())) =~= kept_tasks(s));
    }
}

proof fn lemma_texts_back(s: Seq<Seq<char>>, t: Seq<u8>)
    requires
        forall|i: int| 0 <= i < s.len() ==> text_fits(#[trigger] s[i]),
    ensures
        get_texts(wire::input(w_texts(s) + t), s.len() as int) == (s, wire::input(t)),
    decreases s.len(),
{
    if s.len() == 0 {
        assert(w_texts(s) + t =~= t);
        assert(s =~= Seq::<Seq<char>>::empty());
    } else {
        let d = s.drop_last();
        let u = wire::wtext(s.last()) + t;
        assert(w_texts(s) + t =~= w_texts(d) + u);
        lemma_texts_back(d, u);
        wire::lemma_pow256();
        wire::lemma_get_text(s.last(), 2, t);
        assert(d.push(s.last()) =~= s);
    }
}

proof fn lemma_fitness_back(f: FitV, t: Seq<u8>)
    ensures
        get_fitness(wire::input(w_fitness(f) + t)) == (
            FitV {
                score: f.score,
                tasks_completed: f.tasks_completed,
                tasks_failed: f.tasks_failed,
                total_time_ms: f.total_time_ms,
                evolution_count: f.evolution_count,
                ..fitness::fresh()
            },
            wire::input(t),
        ),
{
    wire::lemma_pow256();
    let t4 = wire::w32(f.evolution_count as nat) + t;
    let t3 = wire::w64(f.total_time_ms as nat) + t4;
    let t2 = wire::w32(f.tasks_failed as nat) + t3;
    let t1 = wire::w32(f.tasks_completed as nat) + t2;
    assert(w_fitness(f) + t =~= wire::wi64(f.score as int) + t1);
    wire::lemma_get_int(f.score as int, t1);
    wire::lemma_get_nat(f.tasks_completed as nat, 4, t2);
    wire::lemma_get_nat(f.tasks_failed as nat, 4, t3);
    wire::lemma_get_nat(f.total_time_ms as nat, 8, t4);
    wire::lemma_get_nat(f.evolution_count as nat, 4, t);
}

/// Reading the bytes of a snapshot succeeds and gives back what a state file keeps of it, whatever
/// bytes follow.
pub proof fn law_snapshot_roundtrip(s: SnapV, t: Seq<u8>)
    requires
        snapshot_fits(s),
        goals::goals_wf(s.goals),
    ensures
        get_snapshot(wire::input(w_snapshot(s) + t)) == (kept(s), wire::input(t)),
{
    wire::lemma_pow256();
    let t9 = w_texts(s.code_strings) + t;
    let t8 = wire::w32(s.code_strings.len()) + t9;
    let t7 = w_fitness(s.fitness) + t8;
    let t6 = w_tasks(s.goals.tasks) + t7;
    let t5 = wire::w32(s.goals.tasks.len()) + t6;
    let t4 = w_goals(s.goals.goals) + t5;
    let t3 = wire::w32(s.goals.goals.len()) + t4;
    let t2 = codec::w_memory(s.memory, s.here) + t3;
    let t1 = codec::w_words(s.dictionary, false) + t2;
    let t0 = wire::w32(s.dictionary.len()) + t1;
    let tt = s.node_id + t0;
    assert(w_snapshot(s) + t == mark() + tt) by {
        let a1 = mark() + s.node_id;
        let a2 = a1 + wire::w32(s.dictionary.len());
        let a3 = a2 + codec::w_words(s.dictionary, false);
        let a4 = a3 + codec::w_memory(s.memory, s.here);
        let a5 = a4 + wire::w32(s.goals.goals.len());
        let a6 = a5 + w_goals(s.goals.goals);
        let a7 = a6 + wire::w32(s.goals.tasks.len());
        let a8 = a7 + w_tasks(s.goals.tasks);
        let a9 = a8 + w_fitness(s.fitness);
        let a10 = a9 + wire::w32(s.code_strings.len());
        wire::lemma_assoc(a10, w_texts(s.code_strings), t);
        wire::lemma_assoc(a9, wire::w32(s.code_strings.len()), t9);
        wire::lemma_assoc(a8, w_fitness(s.fitness), t8);
        wire::lemma_assoc(a7, w_tasks(s.goals.tasks), t7);
        wire::lemma_assoc(a6, wire::w32(s.goals.tasks.len()), t6);
        wire::lemma_assoc(a5, w_goals(s.goals.goals), t5);
        wire::lemma_assoc(a4, wire::w32(s.goals.goals.len()), t4);
        wire::lemma_assoc(a3, codec::w_memory(s.memory, s.here), t3);
        wire::lemma_assoc(a2, codec::w_words(s.dictionary, false), t2);
        wire::lemma_assoc(a1, wire::w32(s.dictionary.len()), t1);
        wire::lemma_assoc(mark(), s.node_id, t0);
    }
    wire::lemma_get_bytes(mark(), tt);
    wire::lemma_get_id(s.node_id, t0);
    wire::lemma_get_nat(s.dictionary.len(), 4, t1);
    codec::lemma_words_back(s.dictionary, false, t2);
    codec::lemma_memory_back(s.memory, s.here, t3);
    wire::lemma_get_nat(s.goals.goals.len(), 4, t4);
    lemma_goals_back(s.goals.goals, t5);
    wire::lemma_get_nat(s.goals.tasks.len(), 4, t6);
    lemma_tasks_back(s.goals.tasks, t7);
    lemma_fitness_back(s.fitness, t8);
    wire::lemma_get_nat(s.code_strings.len(), 4, t9);
    lemma_texts_back(s.code_strings, t);
}

// ---------------------------------------------------------------------------
// Where things are kept
// ---------------------------------------------------------------------------

/// The directory of a unit's state.
pub open spec fn dir_text(home: Seq<char>, id: Seq<u8>) -> Seq<char> {
    home + "/.unit/"@ + text::hex(id)
}

/// The directory of a unit's state, under the user's home directory.
pub fn state_dir(home: &str, node_id: &NodeId) -> (s: String)
    ensures
        s@ == dir_text(home@, node_id@),
{
    let mut s = text(home);
    s.append("/.unit/");
    push_hex(&mut s, node_id.as_slice());
    s
}

/// The file of a unit's state.
pub fn state_path(home: &str, node_id: &NodeId) -> (s: String)
    ensures
        s@ == dir_text(home@, node_id@) + "/state.bin"@,
{
    let mut s = state_dir(home, node_id);
    s.append("/state.bin");
    s
}

/// The directory of a unit's snapshots.
pub fn snapshot_dir(home: &str, node_id: &NodeId) -> (s: String)
    ensures
        s@ == dir_text(home@, node_id@) + "/snapshots"@,
{
    let mut s = state_dir(home, node_id);
    s.append("/snapshots");
    s
}

/// The file of a snapshot.
pub fn snapshot_path(home: &str, node_id: &NodeId, name: &str) -> (s: String)
    ensures
        s@ == dir_text(home@, node_id@) + "/snapshots"@ + "/"@ + name@ + ".bin"@,
{
    let mut s = snapshot_dir(home, node_id);
    s.append("/");
    s.append(name);
    s.append(".bin");
    s
}

/// The file of the unit's identity.
pub fn node_id_path(home: &str) -> (s: String)
    ensures
        s@ == home@ + "/.unit/node-id"@,
{
    let mut s = text(home);
    s.append("/.unit/node-id");
    s
}

// ---------------------------------------------------------------------------
// Identities as text
// ---------------------------------------------------------------------------

/// The value of a hexadecimal digit, in either case.
pub open spec fn nibble(c: char) -> Option<int> {
    if '0' <= c <= '9' {
        Some(c as int - '0' as int)
    } else if 'a' <= c <= 'f' {
        Some(c as int - 'a' as int + 10)
    } else if 'A' <= c <= 'F' {
        Some(c as int - 'A' as int + 10)
    } else {
        None
    }
}

/// The byte that two characters write: two hexadecimal digits, or a plus sign and one.
pub open spec fn byte_of(a: char, b: char) -> Option<int> {
    match (nibble(a), nibble(b)) {
        (Some(x), Some(y)) => Some(16 * x + y),
        (None, Some(y)) => if a == '+' {
            Some(y)
        } else {
            None
        },
        _ => None,
    }
}

/// True of a text that writes an identity.
pub open spec fn writes_id(s: Seq<char>) -> bool {
    &&& s.len() == 16
    &&& forall|i: int| 0 <= i < 8 ==> (#[trigger] byte_of(s[2 * i], s[2 * i + 1])).is_some()
}

/// The identity that a text writes.
pub open spec fn id_of(s: Seq<char>) -> Seq<u8> {
    Seq::new(8, |i: int| byte_of(s[2 * i], s[2 * i + 1])->0 as u8)
}

fn hex_value(c: char) -> (r: Option<u8>)
    ensures
        r.is_some() == nibble(c).is_some(),
        r matches Some(x) ==> nibble(c) == Some(x as int) && x < 16,
{
    if '0' <= c && c <= '9' {
        Some((c as u32 - '0' as u32) as u8)
    } else if 'a' <= c && c <= 'f' {
        Some((c as u32 - 'a' as u32) as u8 + 10)
    } else if 'A' <= c && c <= 'F' {
        Some((c as u32 - 'A' as u32) as u8 + 10)
    } else {
        None
    }
}

fn hex_byte(a: char, b: char) -> (r: Option<u8>)
    ensures
        r.is_some() == byte_of(a, b).is_some(),
        r matches Some(x) ==> byte_of(a, b) == Some(x as int),
{
    match (hex_value(a), hex_value(b)) {
        (Some(x), Some(y)) => Some(16 * x + y),
        (None, Some(y)) => if a == '+' {
            Some(y)
        } else {
            None
        },
        _ => None,
    }
}

/// Reads an identity from sixteen characters.
pub fn parse_node_id(s: &str) -> (r: Option<NodeId>)
    ensures
        r.is_some() == writes_id(s@),
        r matches Some(id) ==> id@ == id_of(s@),
{
    let v = to_chars(s);
    if v.len() != 16 {
        return None;
    }
    let mut id: NodeId = [0u8; 8];
    let mut i: usize = 0;
    while i < 8
        invariant
            i <= 8,
            v@.len() == 16,
            v@ == s@,
            forall|j: int| 0 <= j < i ==> (#[trigger] byte_of(s@[2 * j], s@[2 * j + 1])).is_some(),
            forall|j: int| 0 <= j < i ==> #[trigger] id@[j] == byte_of(s@[2 * j], s@[2 * j + 1])->0,
        decreases 8 - i,
    {
        match hex_byte(v[2 * i], v[2 * i + 1]) {
            Some(b) => {
                id[i] = b;
            },
            None => {
                assert(byte_of(s@[2 * (i as int)], s@[2 * (i as int) + 1]).is_none());
                return None;
            },
        }
        i = i + 1;
    }
    assert(id@ =~= id_of(s@));
    Some(id)
}

/// Reads an identity from the content of its file.
pub fn read_node_id(content: &str) -> (r: Option<NodeId>)
    ensures
        r.is_some() == writes_id(text::trim(content@)),
        r matches Some(id) ==> id@ == id_of(text::trim(content@)),
{
    let s = trimmed(content);
    parse_node_id(s.as_str())
}

/// An identity reads back from its hexadecimal form.
pub proof fn law_node_id_roundtrip(id: Seq<u8>)
    requires
        id.len() == 8,
    ensures
        writes_id(text::hex(id)),
        id_of(text::hex(id)) == id,
{
    lemma_hex(id);
    assert forall|i: int| 0 <= i < 8 implies (#[trigger] byte_of(
        text::hex(id)[2 * i],
        text::hex(id)[2 * i + 1],
    )) == Some(id[i] as int) by {
        let b = id[i] as int;
        assert(text::hex(id)[2 * i] == text::digit_char(b / 16));
        assert(text::hex(id)[2 * i + 1] == text::digit_char(b % 16));
        lemma_nibble(b / 16);
        lemma_nibble(b % 16);
    }
    assert(id_of(text::hex(id)) =~= id);
}

proof fn lemma_nibble(d: int)
    requires
        0 <= d < 16,
    ensures
        nibble(text::digit_char(d)) == Some(d),
{
}

proof fn lemma_hex(b: Seq<u8>)
    ensures
        text::hex(b).len() == 2 * b.len(),
        forall|i: int|
            #![trigger b[i]]
            0 <= i < b.len() ==> text::hex(b)[2 * i] == text::digit_char(b[i] as int / 16)
                && text::hex(b)[2 * i + 1] == text::digit_char(b[i] as int % 16),
    decreases b.len(),
{
    if b.len() > 0 {
        let c = b.drop_last();
        lemma_hex(c);
        assert forall|i: int|
            #![trigger b[i]]
            0 <= i < b.len() implies text::hex(b)[2 * i] == text::digit_char(b[i] as int / 16)
            && text::hex(b)[2 * i + 1] == text::digit_char(b[i] as int % 16) by {
            if i < c.len() {
                assert(c[i] == b[i]);
                assert(text::hex(b)[2 * i] == text::hex(c)[2 * i]);
                assert(text::hex(b)[2 * i + 1] == text::hex(c)[2 * i + 1]);
            }
        }
    }
}

// ---------------------------------------------------------------------------
// Names of snapshots
// ---------------------------------------------------------------------------

/// True of the name of a snapshot's file.
pub open spec fn ends_in_bin(s: Seq<char>) -> bool {
    s.len() >= 4 && s.skip(s.len() - 4) == ".bin"@
}

/// A name without the endings of a snapshot's file.
pub open spec fn without_bin(s: Seq<char>) -> Seq<char>
    decreases s.len(),
{
    if ends_in_bin(s) {
        without_bin(s.take(s.len() - 4))
    } else {
        s
    }
}

/// The names of the snapshots among files, sorted.
pub open spec fn names_of(files: Seq<Seq<char>>) -> Seq<Seq<char>>
    decreases files.len(),
{
    if files.len() == 0 {
        Seq::empty()
    } else if ends_in_bin(files.last()) {
        order::inserted(names_of(files.drop_last()), without_bin(files.last()))
    } else {
        names_of(files.drop_last())
    }
}

/// Four characters decide whether a row that is cut at `n` ends as a snapshot's file does.
proof fn lemma_ends_in_bin(v: Seq<char>, n: int)
    requires
        0 <= n <= v.len(),
    ensures
        ends_in_bin(v.take(n)) == (n >= 4 && v[n - 4] == '.' && v[n - 3] == 'b' && v[n - 2] == 'i'
            && v[n - 1] == 'n'),
{
    reveal_strlit(".bin");
    let b = ".bin"@;
    let t = v.take(n);
    if n >= 4 {
        let e = t.skip(n - 4);
        assert(e[0] == v[n - 4] && e[1] == v[n - 3] && e[2] == v[n - 2] && e[3] == v[n - 1]);
        if e[0] == b[0] && e[1] == b[1] && e[2] == b[2] && e[3] == b[3] {
            assert(e =~= b);
        }
    }
}

/// A row that is cut at `n` and ends so has the name of the row that is cut four characters before.
proof fn lemma_without_bin(v: Seq<char>, n: int)
    requires
        0 <= n <= v.len(),
        ends_in_bin(v.take(n)),
    ensures
        without_bin(v.take(n)) == without_bin(v.take(n - 4)),
{
    let t = v.take(n);
    assert(t.take(t.len() - 4) =~= v.take(n - 4));
}

#[verifier::spinoff_prover]
fn bare_name(s: &str) -> (r: Option<String>)
    ensures
        r.is_some() == ends_in_bin(s@),
        r matches Some(n) ==> n@ == without_bin(s@),
{
    let v = to_chars(s);
    let mut n: usize = v.len();
    proof {
        assert(v@.take(n as int) =~= s@);
        lemma_ends_in_bin(v@, n as int);
    }
    while n >= 4 && v[n - 4] == '.' && v[n - 3] == 'b' && v[n - 2] == 'i' && v[n - 1] == 'n'
        invariant
            n <= v@.len(),
            without_bin(s@) == without_bin(v@.take(n as int)),
            n < v@.len() ==> ends_in_bin(s@),
            n == v@.len() ==> s@ == v@.take(n as int),
        decreases n,
    {
        proof {
            lemma_ends_in_bin(v@, n as int);
            lemma_without_bin(v@, n as int);
        }
        n = n - 4;
    }
    proof {
        lemma_ends_in_bin(v@, n as int);
    }
    if n == v.len() {
        None
    } else {
        assert(v@.subrange(0, n as int) =~= v@.take(n as int));
        Some(from_chars(&v, 0, n))
    }
}

/// The names of the snapshots among the names of files, sorted.
pub fn snapshot_names(files: &[String]) -> (names: Vec<String>)
    ensures
        text::texts(names@) == names_of(text::texts(files@)),
{
    let mut names: Vec<String> = Vec::new();
    let ghost all = text::texts(files@);
    let mut i: usize = 0;
    assert(text::texts(names@) =~= names_of(all.take(0)));
    while i < files.len()
        invariant
            i <= files@.len(),
            all == text::texts(files@),
            text::texts(names@) == names_of(all.take(i as int)),
        decreases files@.len() - i,
    {
        assert(all.take(i + 1).drop_last() =~= all.take(i as int));
        assert(all[i as int] == files@[i as int]@);
        if let Some(n) = bare_name(files[i].as_str()) {
            insert_text(&mut names, n);
        }
        i = i + 1;
    }
    assert(all.take(i as int) =~= all);
    names
}

/// The names of snapshots come out in order.
pub proof fn law_snapshot_names_sorted(files: Seq<Seq<char>>)
    ensures
        order::in_order(names_of(files)),
    decreases files.len(),
{
    if files.len() > 0 {
        law_snapshot_names_sorted(files.drop_last());
        order::lemma_inserted(names_of(files.drop_last()), without_bin(files.last()));
    }
}

// ---------------------------------------------------------------------------
// What a snapshot keeps
// ---------------------------------------------------------------------------

/// True of a task that has been kept: all of it but its own code, and of its result all but an error
/// without text.
pub open spec fn survives(a: TaskV, b: TaskV) -> bool {
    &&& b.id == a.id && b.goal_id == a.goal_id && b.description == a.description
    &&& b.assigned_to == a.assigned_to && b.status == a.status && b.created_at == a.created_at
    &&& a.result.is_some() <==> b.result.is_some()
    &&& a.result matches Some(x) ==> (b.result matches Some(y) && y.stack == x.stack && y.output
        == x.output && y.success == x.success && (x.error matches Some(e) ==> e.len() > 0
        ==> y.error == x.error) && (x.error.is_none() ==> y.error.is_none()))
}

/// True of a snapshot that has been kept: the identity, every word, every cell in use, every goal,
/// every task, the score with what it was made of, and every text of code are as they were. Cells
/// that were not in use are 0.
pub open spec fn all_survives(s: SnapV, r: SnapV) -> bool {
    &&& r.node_id == s.node_id && r.dictionary == s.dictionary && r.here == s.here
    &&& r.code_strings == s.code_strings && r.goals.goals == s.goals.goals
    &&& r.goals.tasks.len() == s.goals.tasks.len()
    &&& forall|i: int|
        0 <= i < s.goals.tasks.len() ==> survives(s.goals.tasks[i], #[trigger] r.goals.tasks[i])
    &&& r.fitness.score == s.fitness.score
    &&& r.fitness.tasks_completed == s.fitness.tasks_completed
    &&& r.fitness.tasks_failed == s.fitness.tasks_failed
    &&& r.fitness.total_time_ms == s.fitness.total_time_ms
    &&& r.fitness.evolution_count == s.fitness.evolution_count
    &&& r.memory.len() == 65536
    &&& forall|i: int|
        0 <= i < 65536 ==> #[trigger] r.memory[i] == (if i < s.here && i < s.memory.len() {
            s.memory[i]
        } else {
            0
        })
}

/// What is kept of a snapshot is all of it.
pub proof fn lemma_kept_survives(s: SnapV)
    requires
        snapshot_fits(s),
        goals::goals_wf(s.goals),
    ensures
        all_survives(s, kept(s)),
{
}

/// What is read from a snapshot is what was written, and nothing is left over.
pub proof fn law_snapshot_keeps_all(s: SnapV)
    requires
        snapshot_fits(s),
        goals::goals_wf(s.goals),
    ensures
        all_survives(s, get_snapshot(wire::input(w_snapshot(s))).0),
        get_snapshot(wire::input(w_snapshot(s))).1.ok,
        get_snapshot(wire::input(w_snapshot(s))).1.rest.len() == 0,
{
    let b = w_snapshot(s);
    assert(b + Seq::<u8>::empty() =~= b);
    law_snapshot_roundtrip(s, Seq::empty());
    lemma_kept_survives(s);
}

proof fn lemma_prefix(p: Seq<u8>, a: Seq<u8>, b: Seq<u8>)
    requires
        p.len() <= a.len(),
        a.take(p.len() as int) == p,
    ensures
        p.len() <= (a + b).len(),
        (a + b).take(p.len() as int) == p,
{
    assert((a + b).take(p.len() as int) =~= a.take(p.len() as int));
}

/// A snapshot starts with the letters USAV, a 1 and the identity of its unit.
#[verifier::spinoff_prover]
pub proof fn law_snapshot_layout(s: SnapV)
    requires
        s.node_id.len() == 8,
    ensures
        w_snapshot(s).take(13) == seq![0x55u8, 0x53u8, 0x41u8, 0x56u8, 1u8] + s.node_id,
{
    let p = mark() + s.node_id;
    let a2 = p + wire::w32(s.dictionary.len());
    let a3 = a2 + codec::w_words(s.dictionary, false);
    let a4 = a3 + codec::w_memory(s.memory, s.here);
    let a5 = a4 + wire::w32(s.goals.goals.len());
    let a6 = a5 + w_goals(s.goals.goals);
    let a7 = a6 + wire::w32(s.goals.tasks.len());
    let a8 = a7 + w_tasks(s.goals.tasks);
    let a9 = a8 + w_fitness(s.fitness);
    let a10 = a9 + wire::w32(s.code_strings.len());
    assert(mark() =~= seq![0x55u8, 0x53u8, 0x41u8, 0x56u8, 1u8]);
    assert(p.take(13) =~= p);
    lemma_prefix(p, p, wire::w32(s.dictionary.len()));
    lemma_prefix(p, a2, codec::w_words(s.dictionary, false));
    lemma_prefix(p, a3, codec::w_memory(s.memory, s.here));
    lemma_prefix(p, a4, wire::w32(s.goals.goals.len()));
    lemma_prefix(p, a5, w_goals(s.goals.goals));
    lemma_prefix(p, a6, wire::w32(s.goals.tasks.len()));
    lemma_prefix(p, a7, w_tasks(s.goals.tasks));
    lemma_prefix(p, a8, w_fitness(s.fitness));
    lemma_prefix(p, a9, wire::w32(s.code_strings.len()));
    lemma_prefix(p, a10, w_texts(s.code_strings));
}

/// An empty option is a 0, a full one a 1 and what it holds.
pub proof fn law_option_layout(t: Seq<char>)
    ensures
        w_opt_text(None) == seq![0u8],
        w_opt_text(Some(t)) == seq![1u8] + wire::wtext(t),
{
    assert(w_opt_text(Some(t)) =~= seq![1u8] + wire::wtext(t));
}

/// The name of a snapshot is that of its file without the ending .bin; other files are none.
pub proof fn law_snapshot_names(files: Seq<Seq<char>>, name: Seq<char>)
    ensures
        ends_in_bin(name + ".bin"@),
        !ends_in_bin(name) ==> names_of(files.push(name + ".bin"@)).to_multiset() == names_of(
            files,
        ).to_multiset().insert(name),
        !ends_in_bin(name) ==> names_of(files.push(name)) == names_of(files),
{
    reveal_strlit(".bin");
    let f = name + ".bin"@;
    assert(f.skip(f.len() - 4) =~= ".bin"@);
    assert(f.take(f.len() - 4) =~= name);
    assert(files.push(f).drop_last() =~= files);
    assert(files.push(name).drop_last() =~= files);
    reveal_with_fuel(without_bin, 2);
    order::lemma_inserted_multiset(names_of(files), name);
}

/// Where a unit keeps its files: below .unit in the home directory, in a directory with its
/// identity.
pub proof fn law_directory_by_identity(home: Seq<char>, a: Seq<u8>, b: Seq<u8>)
    requires
        a.len() == 8 && b.len() == 8,
        dir_text(home, a) == dir_text(home, b),
    ensures
        a == b,
{
    let p = home + "/.unit/"@;
    assert(text::hex(a) =~= dir_text(home, a).skip(p.len() as int));
    assert(text::hex(b) =~= dir_text(home, b).skip(p.len() as int));
    law_node_id_roundtrip(a);
    law_node_id_roundtrip(b);
}

} // verus!
