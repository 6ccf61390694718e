//! Goals and tasks: what humans ask of the mesh, and the work items that units claim.
//!
//! The registry is shared by gossip: units merge what they hear of other units' goals and tasks.

use crate::clock::now_millis;
use crate::num;
use crate::num::div_trunc;
use crate::order;
use crate::order::sort_desc;
use crate::text;
use crate::text::{push_hex, push_i64, push_u64, push_usize, take_chars, text, trimmed_end};
use crate::types::{clone_cells, clone_opt, Cell};
use crate::wire::{same_id, NodeId};
use vstd::prelude::*;

verus! {

/// Identity of a goal.
pub type GoalId = u64;

/// Identity of a task.
pub type TaskId = u64;

/// How far a goal has come.
#[derive(Clone, Copy, Debug, PartialEq, Eq, Structural)]
pub enum GoalStatus {
    /// No task claimed yet.
    Pending,
    /// At least one task is being worked on.
    Active,
    /// All tasks done.
    Completed,
    /// Cancelled or failed.
    Failed,
}

/// The number that stands for a goal status on the wire.
pub open spec fn goal_rank(s: GoalStatus) -> u8 {
    match s {
        GoalStatus::Pending => 0,
        GoalStatus::Active => 1,
        GoalStatus::Completed => 2,
        GoalStatus::Failed => 3,
    }
}

/// The goal status that a number stands for; `Pending` for any unknown number.
pub open spec fn goal_status(n: int) -> GoalStatus {
    if n == 1 {
        GoalStatus::Active
    } else if n == 2 {
        GoalStatus::Completed
    } else if n == 3 {
        GoalStatus::Failed
    } else {
        GoalStatus::Pending
    }
}

/// The word for a goal status.
pub open spec fn goal_label(s: GoalStatus) -> Seq<char> {
    match s {
        GoalStatus::Pending => "pending"@,
        GoalStatus::Active => "active"@,
        GoalStatus::Completed => "completed"@,
        GoalStatus::Failed => "failed"@,
    }
}

impl GoalStatus {
    /// The number that stands for the status.
    pub fn as_u8(&self) -> (n: u8)
        ensures
            n == goal_rank(*self),
    {
        match self {
            GoalStatus::Pending => 0,
            GoalStatus::Active => 1,
            GoalStatus::Completed => 2,
            GoalStatus::Failed => 3,
        }
    }

    /// The status that a number stands for.
    pub fn from_u8(v: u8) -> (s: Self)
        ensures
            s == goal_status(v as int),
    {
        match v {
            1 => GoalStatus::Active,
            2 => GoalStatus::Completed,
            3 => GoalStatus::Failed,
            _ => GoalStatus::Pending,
        }
    }

    /// The word for the status.
    pub fn label(&self) -> (s: &str)
        ensures
            s@ == goal_label(*self),
    {
        match self {
            GoalStatus::Pending => "pending",
            GoalStatus::Active => "active",
            GoalStatus::Completed => "completed",
            GoalStatus::Failed => "failed",
        }
    }
}

/// How far a task has come.
#[derive(Clone, Copy, Debug, PartialEq, Eq, Structural)]
pub enum TaskStatus {
    /// Unclaimed.
    Waiting,
    /// Claimed by a unit.
    Running,
    /// Completed.
    Done,
    /// Failed or cancelled.
    Failed,
}

/// The number that stands for a task status on the wire.
pub open spec fn task_rank(s: TaskStatus) -> u8 {
    match s {
        TaskStatus::Waiting => 0,
        TaskStatus::Running => 1,
        TaskStatus::Done => 2,
        TaskStatus::Failed => 3,
    }
}

/// The task status that a number stands for; `Waiting` for any unknown number.
pub open spec fn task_status(n: int) -> TaskStatus {
    if n == 1 {
        TaskStatus::Running
    } else if n == 2 {
        TaskStatus::Done
    } else if n == 3 {
        TaskStatus::Failed
    } else {
        TaskStatus::Waiting
    }
}

/// The word for a task status.
pub open spec fn task_label(s: TaskStatus) -> Seq<char> {
    match s {
        TaskStatus::Waiting => "waiting"@,
        TaskStatus::Running => "running"@,
        TaskStatus::Done => "done"@,
        TaskStatus::Failed => "failed"@,
    }
}

impl TaskStatus {
    /// The number that stands for the status.
    pub fn as_u8(&self) -> (n: u8)
        ensures
            n == task_rank(*self),
    {
        match self {
            TaskStatus::Waiting => 0,
            TaskStatus::Running => 1,
            TaskStatus::Done => 2,
            TaskStatus::Failed => 3,
        }
    }

    /// The status that a number stands for.
    pub fn from_u8(v: u8) -> (s: Self)
        ensures
            s == task_status(v as int),
    {
        match v {
            1 => TaskStatus::Running,
            2 => TaskStatus::Done,
            3 => TaskStatus::Failed,
            _ => TaskStatus::Waiting,
        }
    }

    /// The word for the status.
    pub fn label(&self) -> (s: &str)
        ensures
            s@ == task_label(*self),
    {
        match self {
            TaskStatus::Waiting => "waiting",
            TaskStatus::Running => "running",
            TaskStatus::Done => "done",
            TaskStatus::Failed => "failed",
        }
    }
}

/// A status and its number stand for each other.
pub proof fn law_status_numbers(g: GoalStatus, t: TaskStatus)
    ensures
        goal_status(goal_rank(g) as int) == g,
        task_status(task_rank(t) as int) == t,
{
}

// ---------------------------------------------------------------------------
// Results
// ---------------------------------------------------------------------------

/// What running a code payload left behind.
#[derive(Debug)]
pub struct TaskResult {
    /// The stack after execution.
    pub stack_snapshot: Vec<Cell>,
    /// What was printed.
    pub output: String,
    /// Whether execution ran to its end.
    pub success: bool,
    /// Why it did not.
    pub error: Option<String>,
}

/// The mathematical form of a result.
#[verifier::ext_equal]
pub struct ResultV {
    pub stack: Seq<i64>,
    pub output: Seq<char>,
    pub success: bool,
    pub error: Option<Seq<char>>,
}

impl View for TaskResult {
    type V = ResultV;

    open spec fn view(&self) -> ResultV {
        ResultV {
            stack: self.stack_snapshot@,
            output: self.output@,
            success: self.success,
            error: text::opt_text(self.error),
        }
    }
}

/// The mathematical form of an optional result.
pub open spec fn opt_result(o: Option<TaskResult>) -> Option<ResultV> {
    match o {
        Some(r) => Some(r@),
        None => None,
    }
}

impl Clone for TaskResult {
    fn clone(&self) -> (r: Self)
        ensures
            r@ == self@,
    {
        TaskResult {
            stack_snapshot: clone_cells(&self.stack_snapshot),
            output: self.output.clone(),
            success: self.success,
            error: clone_opt(&self.error),
        }
    }
}

/// Copies an optional result.
pub fn clone_result(o: &Option<TaskResult>) -> (r: Option<TaskResult>)
    ensures
        opt_result(r) == opt_result(*o),
{
    match o {
        Some(x) => Some(x.clone()),
        None => None,
    }
}

/// Each cell as a numeral followed by a space.
pub open spec fn cells_text(s: Seq<i64>) -> Seq<char>
    decreases s.len(),
{
    if s.len() == 0 {
        Seq::empty()
    } else {
        cells_text(s.drop_last()) + text::dec_int(s.last() as int) + " "@
    }
}

/// Appends each cell as a numeral followed by a space.
pub fn push_cells(out: &mut String, v: &[Cell])
    ensures
        final(out)@ == old(out)@ + cells_text(v@),
{
    let mut i: usize = 0;
    assert(v@.take(0) =~= Seq::<i64>::empty());
    assert(out@ =~= old(out)@ + cells_text(v@.take(0)));
    while i < v.len()
        invariant
            i <= v@.len(),
            out@ == old(out)@ + cells_text(v@.take(i as int)),
        decreases v@.len() - i,
    {
        push_i64(out, v[i]);
        out.append(" ");
        i = i + 1;
        proof {
            assert(v@.take(i as int).drop_last() =~= v@.take(i - 1));
            assert(out@ =~= old(out)@ + cells_text(v@.take(i as int)));
        }
    }
    assert(v@.take(i as int) =~= v@);
}

/// The text of a result.
pub open spec fn result_text(r: ResultV) -> Seq<char> {
    let head = if r.success {
        "  status: ok\n"@
    } else {
        "  status: FAILED — "@ + (match r.error {
            Some(e) => e,
            None => "unknown error"@,
        }) + "\n"@
    };
    let stack = if r.stack.len() > 0 {
        "  stack: "@ + cells_text(r.stack) + "\n"@
    } else {
        Seq::empty()
    };
    let output = if r.output.len() > 0 {
        "  output: "@ + text::trim_end(r.output) + "\n"@
    } else {
        Seq::empty()
    };
    head + stack + output
}

impl TaskResult {
    /// The result as lines of text.
    pub fn format(&self) -> (out: String)
        ensures
            out@ == result_text(self@),
    {
        let mut out = String::new();
        if self.success {
            out.append("  status: ok\n");
        } else {
            out.append("  status: FAILED — ");
            match &self.error {
                Some(e) => out.append(e.as_str()),
                None => out.append("unknown error"),
            }
            out.append("\n");
        }
        let ghost head = out@;
        if self.stack_snapshot.len() > 0 {
            out.append("  stack: ");
            push_cells(&mut out, &self.stack_snapshot);
            out.append("\n");
        }
        let ghost middle = out@;
        if !self.output.as_str().is_empty() {
            out.append("  output: ");
            let t = trimmed_end(self.output.as_str());
            out.append(t.as_str());
            out.append("\n");
        }
        assert(out@ =~= result_text(self@));
        out
    }
}

// ---------------------------------------------------------------------------
// Goals and tasks
// ---------------------------------------------------------------------------

/// A high-level objective.
#[derive(Debug)]
pub struct Goal {
    pub id: GoalId,
    pub description: String,
    /// The code to run, if the goal can be run.
    pub code: Option<String>,
    pub priority: Cell,
    pub status: GoalStatus,
    pub created_at: u64,
    pub creator: NodeId,
    pub task_ids: Vec<TaskId>,
}

/// The mathematical form of a goal.
#[verifier::ext_equal]
pub struct GoalV {
    pub id: u64,
    pub description: Seq<char>,
    pub code: Option<Seq<char>>,
    pub priority: i64,
    pub status: GoalStatus,
    pub created_at: u64,
    pub creator: Seq<u8>,
    pub task_ids: Seq<u64>,
}

impl View for Goal {
    type V = GoalV;

    open spec fn view(&self) -> GoalV {
        GoalV {
            id: self.id,
            description: self.description@,
            code: text::opt_text(self.code),
            priority: self.priority,
            status: self.status,
            created_at: self.created_at,
            creator: self.creator@,
            task_ids: self.task_ids@,
        }
    }
}

/// Copies a row of numbers.
pub fn clone_ids(v: &[u64]) -> (r: Vec<u64>)
    ensures
        r@ == v@,
{
    let mut r: Vec<u64> = Vec::new();
    let mut i: usize = 0;
    while i < v.len()
        invariant
            i <= v@.len(),
            r@ == v@.take(i as int),
        decreases v@.len() - i,
    {
        r.push(v[i]);
        i = i + 1;
        assert(r@ =~= v@.take(i as int));
    }
    assert(r@ =~= v@);
    r
}

impl Clone for Goal {
    fn clone(&self) -> (r: Self)
        ensures
            r@ == self@,
    {
        Goal {
            id: self.id,
            description: self.description.clone(),
            code: clone_opt(&self.code),
            priority: self.priority,
            status: self.status,
            created_at: self.created_at,
            creator: self.creator,
            task_ids: clone_ids(&self.task_ids),
        }
    }
}

/// A work item.
#[derive(Debug)]
pub struct Task {
    pub id: TaskId,
    pub goal_id: GoalId,
    pub description: String,
    /// The task's own code; without it, the goal's code is run.
    pub code: Option<String>,
    pub assigned_to: Option<NodeId>,
    pub status: TaskStatus,
    pub result: Option<TaskResult>,
    pub created_at: u64,
}

/// The mathematical form of a task.
#[verifier::ext_equal]
pub struct TaskV {
    pub id: u64,
    pub goal_id: u64,
    pub description: Seq<char>,
    pub code: Option<Seq<char>>,
    pub assigned_to: Option<Seq<u8>>,
    pub status: TaskStatus,
    pub result: Option<ResultV>,
    pub created_at: u64,
}

/// The bytes of an optional identity.
pub open spec fn opt_id(o: Option<NodeId>) -> Option<Seq<u8>> {
    match o {
        Some(id) => Some(id@),
        None => None,
    }
}

impl View for Task {
    type V = TaskV;

    open spec fn view(&self) -> TaskV {
        TaskV {
            id: self.id,
            goal_id: self.goal_id,
            description: self.description@,
            code: text::opt_text(self.code),
            assigned_to: opt_id(self.assigned_to),
            status: self.status,
            result: opt_result(self.result),
            created_at: self.created_at,
        }
    }
}

impl Clone for Task {
    fn clone(&self) -> (r: Self)
        ensures
            r@ == self@,
    {
        Task {
            id: self.id,
            goal_id: self.goal_id,
            description: self.description.clone(),
            code: clone_opt(&self.code),
            assigned_to: self.assigned_to,
            status: self.status,
            result: clone_result(&self.result),
            created_at: self.created_at,
        }
    }
}

/// The goals and tasks that a unit knows of. No two goals, and no two tasks, have the same
/// identity.
#[derive(Debug)]
pub struct GoalRegistry {
    pub goals: Vec<Goal>,
    pub tasks: Vec<Task>,
    pub id_counter: u64,
}

/// The mathematical form of a registry.
#[verifier::ext_equal]
pub struct GoalsV {
    pub goals: Seq<GoalV>,
    pub tasks: Seq<TaskV>,
    pub counter: u64,
}

/// The mathematical form of a row of goals.
pub open spec fn goal_views(s: Seq<Goal>) -> Seq<GoalV> {
    Seq::new(s.len(), |i: int| s[i]@)
}

/// The mathematical form of a row of tasks.
pub open spec fn task_views(s: Seq<Task>) -> Seq<TaskV> {
    Seq::new(s.len(), |i: int| s[i]@)
}

impl View for GoalRegistry {
    type V = GoalsV;

    open spec fn view(&self) -> GoalsV {
        GoalsV {
            goals: goal_views(self.goals@),
            tasks: task_views(self.tasks@),
            counter: self.id_counter,
        }
    }
}

/// The identities of a row of goals.
pub open spec fn goal_ids(s: Seq<GoalV>) -> Seq<u64> {
    Seq::new(s.len(), |i: int| s[i].id)
}

/// The identities of a row of tasks.
pub open spec fn task_ids(s: Seq<TaskV>) -> Seq<u64> {
    Seq::new(s.len(), |i: int| s[i].id)
}

/// The position of a goal, or the number of goals if there is none with this identity.
pub open spec fn goal_at(s: Seq<GoalV>, id: u64) -> int {
    order::at(goal_ids(s), id)
}

/// The position of a task, or the number of tasks if there is none with this identity.
pub open spec fn task_at(s: Seq<TaskV>, id: u64) -> int {
    order::at(task_ids(s), id)
}

/// True if there is a goal with this identity.
pub open spec fn has_goal(s: Seq<GoalV>, id: u64) -> bool {
    0 <= goal_at(s, id) < s.len()
}

/// True if there is a task with this identity.
pub open spec fn has_task(s: Seq<TaskV>, id: u64) -> bool {
    0 <= task_at(s, id) < s.len()
}

/// The goals with `g` in the place of the goal of the same identity, or added at the end.
pub open spec fn put_goal(s: Seq<GoalV>, g: GoalV) -> Seq<GoalV> {
    if has_goal(s, g.id) {
        s.update(goal_at(s, g.id), g)
    } else {
        s.push(g)
    }
}

/// The tasks with `t` in the place of the task of the same identity, or added at the end.
pub open spec fn put_task(s: Seq<TaskV>, t: TaskV) -> Seq<TaskV> {
    if has_task(s, t.id) {
        s.update(task_at(s, t.id), t)
    } else {
        s.push(t)
    }
}

/// The invariant of a registry: identities do not repeat.
pub open spec fn goals_wf(v: GoalsV) -> bool {
    order::distinct(goal_ids(v.goals)) && order::distinct(task_ids(v.tasks))
}

/// Putting a goal keeps identities distinct.
pub proof fn lemma_put_goal(s: Seq<GoalV>, g: GoalV)
    requires
        order::distinct(goal_ids(s)),
    ensures
        order::distinct(goal_ids(put_goal(s, g))),
        has_goal(put_goal(s, g), g.id),
        put_goal(s, g)[goal_at(put_goal(s, g), g.id)] == g,
{
    order::lemma_at(goal_ids(s), g.id);
    let r = put_goal(s, g);
    if has_goal(s, g.id) {
        assert(goal_ids(r) =~= goal_ids(s));
    } else {
        order::lemma_distinct_push(goal_ids(s), g.id);
        assert(goal_ids(r) =~= goal_ids(s).push(g.id));
        assert(goal_ids(r)[s.len() as int] == g.id);
        order::lemma_at_unique(goal_ids(r), s.len() as int);
    }
}

/// Putting a task keeps identities distinct.
pub proof fn lemma_put_task(s: Seq<TaskV>, t: TaskV)
    requires
        order::distinct(task_ids(s)),
    ensures
        order::distinct(task_ids(put_task(s, t))),
        has_task(put_task(s, t), t.id),
        put_task(s, t)[task_at(put_task(s, t), t.id)] == t,
{
    order::lemma_at(task_ids(s), t.id);
    let r = put_task(s, t);
    if has_task(s, t.id) {
        assert(task_ids(r) =~= task_ids(s));
    } else {
        order::lemma_distinct_push(task_ids(s), t.id);
        assert(task_ids(r) =~= task_ids(s).push(t.id));
        assert(task_ids(r)[s.len() as int] == t.id);
        order::lemma_at_unique(task_ids(r), s.len() as int);
    }
}

impl GoalRegistry {
    /// The position of a goal, or the number of goals.
    pub fn goal_slot(&self, id: GoalId) -> (r: usize)
        ensures
            r == goal_at(self@.goals, id),
            r <= self.goals@.len(),
    {
        let mut i: usize = 0;
        while i < self.goals.len() && self.goals[i].id != id
            invariant
                i <= self.goals@.len(),
                order::at_from(goal_ids(self@.goals), id, i as int) == goal_at(self@.goals, id),
            decreases self.goals@.len() - i,
        {
            assert(goal_ids(self@.goals)[i as int] == self.goals@[i as int].id);
            i = i + 1;
        }
        i
    }

    /// The position of a task, or the number of tasks.
    pub fn task_slot(&self, id: TaskId) -> (r: usize)
        ensures
            r == task_at(self@.tasks, id),
            r <= self.tasks@.len(),
    {
        let mut i: usize = 0;
        while i < self.tasks.len() && self.tasks[i].id != id
            invariant
                i <= self.tasks@.len(),
                order::at_from(task_ids(self@.tasks), id, i as int) == task_at(self@.tasks, id),
            decreases self.tasks@.len() - i,
        {
            assert(task_ids(self@.tasks)[i as int] == self.tasks@[i as int].id);
            i = i + 1;
        }
        i
    }

    /// Puts a goal in the place of the one with the same identity, or adds it.
    pub fn insert_goal(&mut self, g: Goal)
        ensures
            final(self)@ == (GoalsV { goals: put_goal(old(self)@.goals, g@), ..old(self)@ }),
            goals_wf(old(self)@) ==> goals_wf(final(self)@),
    {
        let ghost gv = g@;
        let i = self.goal_slot(g.id);
        if i < self.goals.len() {
            self.goals.set(i, g);
        } else {
            self.goals.push(g);
        }
        proof {
            assert(self@.goals =~= put_goal(old(self)@.goals, gv));
            if goals_wf(old(self)@) {
                lemma_put_goal(old(self)@.goals, gv);
            }
        }
    }

    /// Puts a task in the place of the one with the same identity, or adds it.
    pub fn insert_task(&mut self, t: Task)
        ensures
            final(self)@ == (GoalsV { tasks: put_task(old(self)@.tasks, t@), ..old(self)@ }),
            goals_wf(old(self)@) ==> goals_wf(final(self)@),
    {
        let ghost tv = t@;
        let i = self.task_slot(t.id);
        if i < self.tasks.len() {
            self.tasks.set(i, t);
        } else {
            self.tasks.push(t);
        }
        proof {
            assert(self@.tasks =~= put_task(old(self)@.tasks, tv));
            if goals_wf(old(self)@) {
                lemma_put_task(old(self)@.tasks, tv);
            }
        }
    }
}

// ---------------------------------------------------------------------------
// Lifecycle
// ---------------------------------------------------------------------------

/// The first identity that a node hands out.
pub open spec fn first_id(node: Seq<u8>) -> int {
    (node[6] * 16 + node[7] / 16) * 10 + 1
}

/// An unclaimed task.
pub open spec fn new_task(
    id: u64,
    goal_id: u64,
    description: Seq<char>,
    code: Option<Seq<char>>,
    now: u64,
) -> TaskV {
    TaskV {
        id,
        goal_id,
        description,
        code,
        assigned_to: None,
        status: TaskStatus::Waiting,
        result: None,
        created_at: now,
    }
}

/// A goal on which nobody works yet.
pub open spec fn new_goal(
    id: u64,
    description: Seq<char>,
    code: Option<Seq<char>>,
    priority: i64,
    creator: Seq<u8>,
    task_ids: Seq<u64>,
    now: u64,
) -> GoalV {
    GoalV {
        id,
        description,
        code,
        priority,
        status: GoalStatus::Pending,
        created_at: now,
        creator,
        task_ids,
    }
}

/// The registry after a goal with one task has been created.
pub open spec fn created(
    v: GoalsV,
    description: Seq<char>,
    priority: i64,
    creator: Seq<u8>,
    code: Option<Seq<char>>,
    now: u64,
) -> GoalsV {
    let goal_id = v.counter;
    let task_id = v.counter.wrapping_add(1);
    GoalsV {
        goals: put_goal(
            v.goals,
            new_goal(goal_id, description, code, priority, creator, seq![task_id], now),
        ),
        tasks: put_task(v.tasks, new_task(task_id, goal_id, description, None, now)),
        counter: task_id.wrapping_add(1),
    }
}

/// True of a task that can be claimed: unclaimed, of a known goal and, if `runnable` is asked for,
/// with code of its own or of its goal.
pub open spec fn claimable(v: GoalsV, i: int, runnable: bool) -> bool {
    let t = v.tasks[i];
    &&& t.status == TaskStatus::Waiting
    &&& has_goal(v.goals, t.goal_id)
    &&& runnable ==> t.code.is_some() || v.goals[goal_at(v.goals, t.goal_id)].code.is_some()
}

/// The priority of a task: that of its goal.
pub open spec fn task_priority(v: GoalsV, i: int) -> i64 {
    v.goals[goal_at(v.goals, v.tasks[i].goal_id)].priority
}

/// Of the first `n` tasks, the first claimable one of the highest priority.
pub open spec fn best(v: GoalsV, n: int, runnable: bool) -> Option<int>
    decreases n,
{
    if n <= 0 {
        None
    } else {
        let b = best(v, n - 1, runnable);
        if claimable(v, n - 1, runnable) && (match b {
            Some(j) => task_priority(v, n - 1) > task_priority(v, j),
            None => true,
        }) {
            Some(n - 1)
        } else {
            b
        }
    }
}

/// The registry after `node` has claimed the task at position `i`.
pub open spec fn claimed(v: GoalsV, i: int, node: Seq<u8>) -> GoalsV {
    let t = v.tasks[i];
    let g = goal_at(v.goals, t.goal_id);
    GoalsV {
        tasks: v.tasks.update(
            i,
            TaskV { assigned_to: Some(node), status: TaskStatus::Running, ..t },
        ),
        goals: if has_goal(v.goals, t.goal_id) && v.goals[g].status == GoalStatus::Pending {
            v.goals.update(g, GoalV { status: GoalStatus::Active, ..v.goals[g] })
        } else {
            v.goals
        },
        ..v
    }
}

/// The code that a task runs: its own, else that of its goal.
pub open spec fn code_of(v: GoalsV, t: TaskV) -> Option<Seq<char>> {
    if t.code.is_some() {
        t.code
    } else if has_goal(v.goals, t.goal_id) {
        v.goals[goal_at(v.goals, t.goal_id)].code
    } else {
        None
    }
}

/// A claim takes a claimable task, none has a higher priority, and it takes one if there is one.
pub proof fn law_best_is_highest(v: GoalsV, n: int, runnable: bool)
    requires
        0 <= n,
    ensures
        match best(v, n, runnable) {
            Some(b) => 0 <= b < n && claimable(v, b, runnable) && forall|i: int|
                0 <= i < n && claimable(v, i, runnable) ==> #[trigger] task_priority(v, i)
                    <= task_priority(v, b),
            None => forall|i: int| 0 <= i < n ==> !#[trigger] claimable(v, i, runnable),
        },
    decreases n,
{
    if n > 0 {
        law_best_is_highest(v, n - 1, runnable);
    }
}

/// True of a task that needs no more work; a task that is not known counts as such.
pub open spec fn settled(tasks: Seq<TaskV>, id: u64) -> bool {
    has_task(tasks, id) ==> {
        let s = tasks[task_at(tasks, id)].status;
        s == TaskStatus::Done || s == TaskStatus::Failed
    }
}

/// True of a task that is done; a task that is not known counts as such.
pub open spec fn succeeded(tasks: Seq<TaskV>, id: u64) -> bool {
    has_task(tasks, id) ==> tasks[task_at(tasks, id)].status == TaskStatus::Done
}

/// True if every one of these tasks needs no more work.
pub open spec fn all_settled(tasks: Seq<TaskV>, ids: Seq<u64>) -> bool {
    forall|i: int| 0 <= i < ids.len() ==> settled(tasks, #[trigger] ids[i])
}

/// True if every one of these tasks is done.
pub open spec fn all_succeeded(tasks: Seq<TaskV>, ids: Seq<u64>) -> bool {
    forall|i: int| 0 <= i < ids.len() ==> succeeded(tasks, #[trigger] ids[i])
}

/// The goals after one of the tasks of goal `id` has ended: once none of its tasks needs more
/// work, the goal is completed if all are done, and failed otherwise.
pub open spec fn goal_closed(goals: Seq<GoalV>, tasks: Seq<TaskV>, id: u64) -> Seq<GoalV> {
    if has_goal(goals, id) {
        let i = goal_at(goals, id);
        let g = goals[i];
        if all_settled(tasks, g.task_ids) {
            let s = if all_succeeded(tasks, g.task_ids) {
                GoalStatus::Completed
            } else {
                GoalStatus::Failed
            };
            goals.update(i, GoalV { status: s, ..g })
        } else {
            goals
        }
    } else {
        goals
    }
}

/// The registry after the task with this identity has ended. Without a result it counts as done.
pub open spec fn completed(v: GoalsV, id: u64, result: Option<ResultV>) -> GoalsV {
    if has_task(v.tasks, id) {
        let i = task_at(v.tasks, id);
        let t = v.tasks[i];
        let ok = match result {
            Some(r) => r.success,
            None => true,
        };
        let s = if ok {
            TaskStatus::Done
        } else {
            TaskStatus::Failed
        };
        let tasks = v.tasks.update(i, TaskV { status: s, result, ..t });
        GoalsV { tasks, goals: goal_closed(v.goals, tasks, t.goal_id), ..v }
    } else {
        v
    }
}

/// The tasks after those in `ids` that are not done have been failed.
pub open spec fn failed_tasks(tasks: Seq<TaskV>, ids: Seq<u64>) -> Seq<TaskV> {
    Seq::new(
        tasks.len(),
        |i: int|
            if ids.contains(tasks[i].id) && tasks[i].status != TaskStatus::Done {
                TaskV { status: TaskStatus::Failed, ..tasks[i] }
            } else {
                tasks[i]
            },
    )
}

/// The registry after a goal has been cancelled.
pub open spec fn cancelled(v: GoalsV, id: u64) -> GoalsV {
    if has_goal(v.goals, id) {
        let i = goal_at(v.goals, id);
        let g = v.goals[i];
        GoalsV {
            goals: v.goals.update(i, GoalV { status: GoalStatus::Failed, ..g }),
            tasks: failed_tasks(v.tasks, g.task_ids),
            ..v
        }
    } else {
        v
    }
}

/// The registry after the priority of a goal has been changed.
pub open spec fn steered(v: GoalsV, id: u64, priority: i64) -> GoalsV {
    if has_goal(v.goals, id) {
        let i = goal_at(v.goals, id);
        GoalsV { goals: v.goals.update(i, GoalV { priority, ..v.goals[i] }), ..v }
    } else {
        v
    }
}

impl GoalRegistry {
    /// An empty registry. The first identity depends on the node, so that nodes that create goals
    /// at the same time seldom use the same ones.
    pub fn new(node_id: &NodeId) -> (r: Self)
        ensures
            r@.goals == Seq::<GoalV>::empty(),
            r@.tasks == Seq::<TaskV>::empty(),
            r@.counter == first_id(node_id@),
            goals_wf(r@),
    {
        let base: u64 = (node_id[6] as u64 * 16 + node_id[7] as u64 / 16) * 10 + 1;
        let r = GoalRegistry { goals: Vec::new(), tasks: Vec::new(), id_counter: base };
        assert(r@.goals =~= Seq::<GoalV>::empty());
        assert(r@.tasks =~= Seq::<TaskV>::empty());
        r
    }

    /// An empty registry that starts with the identity 1.
    pub fn empty() -> (r: Self)
        ensures
            r@ == (GoalsV { goals: Seq::empty(), tasks: Seq::empty(), counter: 1 }),
            goals_wf(r@),
    {
        let r = GoalRegistry { goals: Vec::new(), tasks: Vec::new(), id_counter: 1 };
        assert(r@.goals =~= Seq::<GoalV>::empty());
        assert(r@.tasks =~= Seq::<TaskV>::empty());
        r
    }

    /// Hands out the next identity.
    fn next_id(&mut self) -> (id: u64)
        ensures
            id == old(self)@.counter,
            final(self)@ == (GoalsV { counter: id.wrapping_add(1), ..old(self)@ }),
    {
        let id: u64 = self.id_counter;
        self.id_counter = id.wrapping_add(1);
        id
    }

    /// Creates a goal with one task, as of `now`.
    pub fn create_goal_at(
        &mut self,
        description: String,
        priority: Cell,
        creator: NodeId,
        code: Option<String>,
        now: u64,
    ) -> (id: GoalId)
        ensures
            id == old(self)@.counter,
            final(self)@ == created(
                old(self)@,
                description@,
                priority,
                creator@,
                text::opt_text(code),
                now,
            ),
            goals_wf(old(self)@) ==> goals_wf(final(self)@),
    {
        let goal_id = self.next_id();
        let task_id = self.next_id();
        let task = Task {
            id: task_id,
            goal_id,
            description: description.clone(),
            code: None,
            assigned_to: None,
            status: TaskStatus::Waiting,
            result: None,
            created_at: now,
        };
        let mut ids: Vec<u64> = Vec::new();
        ids.push(task_id);
        let goal = Goal {
            id: goal_id,
            description,
            code,
            priority,
            status: GoalStatus::Pending,
            created_at: now,
            creator,
            task_ids: ids,
        };
        assert(goal.task_ids@ =~= seq![task_id]);
        self.insert_task(task);
        self.insert_goal(goal);
        goal_id
    }

    /// Creates a goal with one task. With `code`, the goal can be run.
    pub fn create_goal(
        &mut self,
        description: String,
        priority: Cell,
        creator: NodeId,
        code: Option<String>,
    ) -> (id: GoalId)
        ensures
            id == old(self)@.counter,
            exists|now: u64|
                final(self)@ == #[trigger] created(
                    old(self)@,
                    description@,
                    priority,
                    creator@,
                    text::opt_text(code),
                    now,
                ),
            goals_wf(old(self)@) ==> goals_wf(final(self)@),
    {
        let now = now_millis();
        self.create_goal_at(description, priority, creator, code, now)
    }

    /// The position of the task to claim.
    fn best_task(&self, runnable: bool) -> (r: Option<usize>)
        ensures
            match r {
                Some(i) => best(self@, self.tasks@.len() as int, runnable) == Some(i as int) && i
                    < self.tasks@.len() && claimable(self@, i as int, runnable),
                None => best(self@, self.tasks@.len() as int, runnable).is_none(),
            },
    {
        let mut r: Option<usize> = None;
        let mut top: i64 = 0;
        let mut i: usize = 0;
        while i < self.tasks.len()
            invariant
                i <= self.tasks@.len(),
                match r {
                    Some(j) => best(self@, i as int, runnable) == Some(j as int) && j < i
                        && claimable(self@, j as int, runnable) && top == task_priority(
                        self@,
                        j as int,
                    ),
                    None => best(self@, i as int, runnable).is_none(),
                },
            decreases self.tasks@.len() - i,
        {
            let t = &self.tasks[i];
            assert(self@.tasks[i as int] == t@);
            if t.status == TaskStatus::Waiting {
                let g = self.goal_slot(t.goal_id);
                if g < self.goals.len() {
                    assert(self@.goals[g as int] == self.goals@[g as int]@);
                    if !runnable || t.code.is_some() || self.goals[g].code.is_some() {
                        let p: i64 = self.goals[g].priority;
                        let better: bool = match r {
                            Some(_) => p > top,
                            None => true,
                        };
                        if better {
                            r = Some(i);
                            top = p;
                        }
                    }
                }
            }
            i = i + 1;
        }
        r
    }

    /// Marks the task at position `i` as claimed.
    pub fn take_task(&mut self, i: usize, node_id: NodeId)
        requires
            i < old(self).tasks@.len(),
        ensures
            final(self)@ == claimed(old(self)@, i as int, node_id@),
            goals_wf(old(self)@) ==> goals_wf(final(self)@),
    {
        let g = self.goal_slot(self.tasks[i].goal_id);
        self.tasks[i].assigned_to = Some(node_id);
        self.tasks[i].status = TaskStatus::Running;
        if g < self.goals.len() && self.goals[g].status == GoalStatus::Pending {
            self.goals[g].status = GoalStatus::Active;
        }
        proof {
            let w = claimed(old(self)@, i as int, node_id@);
            assert(self@.tasks =~= w.tasks);
            assert(self@.goals =~= w.goals);
            assert(goal_ids(self@.goals) =~= goal_ids(old(self)@.goals));
            assert(task_ids(self@.tasks) =~= task_ids(old(self)@.tasks));
        }
    }

    /// Claims the unclaimed task of the highest priority: its identity, that of its goal, and its
    /// description. Of several such tasks it is the one known first.
    pub fn claim_task(&mut self, node_id: NodeId) -> (r: Option<(TaskId, GoalId, String)>)
        ensures
            match best(old(self)@, old(self)@.tasks.len() as int, false) {
                Some(i) => final(self)@ == claimed(old(self)@, i, node_id@) && (r matches Some(x)
                    && x.0 == old(self)@.tasks[i].id && x.1 == old(self)@.tasks[i].goal_id && x.2@
                    == old(self)@.tasks[i].description),
                None => final(self)@ == old(self)@ && r.is_none(),
            },
            goals_wf(old(self)@) ==> goals_wf(final(self)@),
    {
        match self.best_task(false) {
            Some(i) => {
                assert(self@.tasks[i as int] == self.tasks@[i as int]@);
                let id: u64 = self.tasks[i].id;
                let goal_id: u64 = self.tasks[i].goal_id;
                let desc = self.tasks[i].description.clone();
                self.take_task(i, node_id);
                Some((id, goal_id, desc))
            },
            None => None,
        }
    }

    /// Claims the unclaimed task of the highest priority among those with code: its identity, that
    /// of its goal, its description and the code to run.
    pub fn claim_executable_task(&mut self, node_id: NodeId) -> (r: Option<
        (TaskId, GoalId, String, String),
    >)
        ensures
            match best(old(self)@, old(self)@.tasks.len() as int, true) {
                Some(i) => final(self)@ == claimed(old(self)@, i, node_id@) && (r matches Some(x)
                    && x.0 == old(self)@.tasks[i].id && x.1 == old(self)@.tasks[i].goal_id && x.2@
                    == old(self)@.tasks[i].description && Some(x.3@) == code_of(
                    old(self)@,
                    old(self)@.tasks[i],
                )),
                None => final(self)@ == old(self)@ && r.is_none(),
            },
            goals_wf(old(self)@) ==> goals_wf(final(self)@),
    {
        match self.best_task(true) {
            Some(i) => {
                assert(self@.tasks[i as int] == self.tasks@[i as int]@);
                let id: u64 = self.tasks[i].id;
                let goal_id: u64 = self.tasks[i].goal_id;
                let desc = self.tasks[i].description.clone();
                let g = self.goal_slot(goal_id);
                assert(self@.goals[g as int] == self.goals@[g as int]@);
                let code = match &self.tasks[i].code {
                    Some(c) => c.clone(),
                    None => match &self.goals[g].code {
                        Some(c) => c.clone(),
                        None => String::new(),
                    },
                };
                self.take_task(i, node_id);
                Some((id, goal_id, desc, code))
            },
            None => None,
        }
    }

    /// Whether all of these tasks are settled, and whether all are done.
    fn all_ended(&self, ids: &[u64]) -> (r: (bool, bool))
        ensures
            r.0 == all_settled(self@.tasks, ids@),
            r.1 == all_succeeded(self@.tasks, ids@),
    {
        let mut ended: bool = true;
        let mut good: bool = true;
        let mut i: usize = 0;
        while i < ids.len()
            invariant
                i <= ids@.len(),
                ended == forall|j: int| 0 <= j < i ==> settled(self@.tasks, #[trigger] ids@[j]),
                good == forall|j: int| 0 <= j < i ==> succeeded(self@.tasks, #[trigger] ids@[j]),
            decreases ids@.len() - i,
        {
            let k = self.task_slot(ids[i]);
            if k < self.tasks.len() {
                assert(self@.tasks[k as int] == self.tasks@[k as int]@);
                let s = self.tasks[k].status;
                if s != TaskStatus::Done {
                    good = false;
                    assert(!succeeded(self@.tasks, ids@[i as int]));
                    if s != TaskStatus::Failed {
                        ended = false;
                        assert(!settled(self@.tasks, ids@[i as int]));
                    }
                }
            }
            i = i + 1;
        }
        (ended, good)
    }

    /// Ends a task. When none of the tasks of its goal needs more work, the goal is completed if
    /// all of them are done, and failed otherwise. False if there is no such task.
    pub fn complete_task(&mut self, task_id: TaskId, result: Option<TaskResult>) -> (found: bool)
        ensures
            found == has_task(old(self)@.tasks, task_id),
            final(self)@ == completed(old(self)@, task_id, opt_result(result)),
            goals_wf(old(self)@) ==> goals_wf(final(self)@),
    {
        let i = self.task_slot(task_id);
        if i >= self.tasks.len() {
            return false;
        }
        let ghost rv = opt_result(result);
        let ok: bool = match &result {
            Some(r) => r.success,
            None => true,
        };
        assert(self@.tasks[i as int] == self.tasks@[i as int]@);
        let goal_id: u64 = self.tasks[i].goal_id;
        self.tasks[i].status = if ok {
            TaskStatus::Done
        } else {
            TaskStatus::Failed
        };
        self.tasks[i].result = result;
        proof {
            assert(self@.tasks =~= completed(old(self)@, task_id, rv).tasks);
            assert(task_ids(self@.tasks) =~= task_ids(old(self)@.tasks));
        }
        let g = self.goal_slot(goal_id);
        if g < self.goals.len() {
            assert(self@.goals[g as int] == self.goals@[g as int]@);
            let (ended, good) = self.all_ended(&self.goals[g].task_ids);
            if ended {
                self.goals[g].status = if good {
                    GoalStatus::Completed
                } else {
                    GoalStatus::Failed
                };
                assert(self@.tasks =~= completed(old(self)@, task_id, rv).tasks);
            }
        }
        proof {
            assert(self@.goals =~= completed(old(self)@, task_id, rv).goals);
            assert(goal_ids(self@.goals) =~= goal_ids(old(self)@.goals));
        }
        true
    }

    /// Cancels a goal: it and those of its tasks that are not done have failed. False if there is
    /// no such goal.
    pub fn cancel_goal(&mut self, goal_id: GoalId) -> (found: bool)
        ensures
            found == has_goal(old(self)@.goals, goal_id),
            final(self)@ == cancelled(old(self)@, goal_id),
            goals_wf(old(self)@) ==> goals_wf(final(self)@),
    {
        let g = self.goal_slot(goal_id);
        if g >= self.goals.len() {
            return false;
        }
        assert(self@.goals[g as int] == self.goals@[g as int]@);
        self.goals[g].status = GoalStatus::Failed;
        let ids = clone_ids(&self.goals[g].task_ids);
        let ghost want = failed_tasks(old(self)@.tasks, ids@);
        let mut i: usize = 0;
        while i < self.tasks.len()
            invariant
                i <= self.tasks@.len(),
                self.tasks@.len() == old(self).tasks@.len(),
                want == failed_tasks(old(self)@.tasks, ids@),
                self@.goals == cancelled(old(self)@, goal_id).goals,
                self.id_counter == old(self).id_counter,
                forall|j: int| 0 <= j < i ==> #[trigger] self.tasks@[j]@ == want[j],
                forall|j: int| i <= j < self.tasks@.len() ==> self.tasks@[j] == old(self).tasks@[j],
            decreases self.tasks@.len() - i,
        {
            let id: u64 = self.tasks[i].id;
            if self.tasks[i].status != TaskStatus::Done && id_listed(&ids, id) {
                self.tasks[i].status = TaskStatus::Failed;
            }
            i = i + 1;
        }
        proof {
            assert(self@.tasks =~= want);
            assert(goal_ids(self@.goals) =~= goal_ids(old(self)@.goals));
            assert(task_ids(self@.tasks) =~= task_ids(old(self)@.tasks));
        }
        true
    }

    /// Changes the priority of a goal. False if there is no such goal.
    pub fn steer_goal(&mut self, goal_id: GoalId, new_priority: Cell) -> (found: bool)
        ensures
            found == has_goal(old(self)@.goals, goal_id),
            final(self)@ == steered(old(self)@, goal_id, new_priority),
            goals_wf(old(self)@) ==> goals_wf(final(self)@),
    {
        let g = self.goal_slot(goal_id);
        if g >= self.goals.len() {
            return false;
        }
        assert(self@.goals[g as int] == self.goals@[g as int]@);
        self.goals[g].priority = new_priority;
        proof {
            assert(self@.goals =~= steered(old(self)@, goal_id, new_priority).goals);
            assert(goal_ids(self@.goals) =~= goal_ids(old(self)@.goals));
        }
        true
    }
}

/// Tests whether a number stands in a row.
pub fn id_listed(ids: &[u64], id: u64) -> (b: bool)
    ensures
        b == ids@.contains(id),
{
    let mut i: usize = 0;
    while i < ids.len()
        invariant
            i <= ids@.len(),
            forall|j: int| 0 <= j < i ==> ids@[j] != id,
        decreases ids@.len() - i,
    {
        if ids[i] == id {
            return true;
        }
        i = i + 1;
    }
    false
}

// ---------------------------------------------------------------------------
// Gossip
// ---------------------------------------------------------------------------

/// `a` followed by those of `b` that are not listed yet.
pub open spec fn joined(a: Seq<u64>, b: Seq<u64>) -> Seq<u64>
    decreases b.len(),
{
    if b.len() == 0 {
        a
    } else {
        let j = joined(a, b.drop_last());
        if j.contains(b.last()) {
            j
        } else {
            j.push(b.last())
        }
    }
}

/// The identity counter after hearing of an identity: above it.
pub open spec fn counter_past(counter: u64, id: u64) -> u64 {
    if id >= counter {
        id.wrapping_add(1)
    } else {
        counter
    }
}

/// The registry after hearing of a goal. A known goal is replaced if what was heard is further on
/// or has another priority; its tasks are kept and joined by those heard of.
pub open spec fn merged_goal(v: GoalsV, g: GoalV) -> GoalsV {
    if has_goal(v.goals, g.id) {
        let e = v.goals[goal_at(v.goals, g.id)];
        if goal_rank(g.status) > goal_rank(e.status) || g.priority != e.priority {
            GoalsV {
                goals: put_goal(
                    v.goals,
                    GoalV { task_ids: joined(e.task_ids, g.task_ids), ..g },
                ),
                ..v
            }
        } else {
            v
        }
    } else {
        GoalsV { goals: put_goal(v.goals, g), counter: counter_past(v.counter, g.id), ..v }
    }
}

/// The registry after hearing of a task. A known task is replaced if what was heard is further on.
pub open spec fn merged_task(v: GoalsV, t: TaskV) -> GoalsV {
    if has_task(v.tasks, t.id) {
        let e = v.tasks[task_at(v.tasks, t.id)];
        if task_rank(t.status) > task_rank(e.status) {
            GoalsV { tasks: put_task(v.tasks, t), ..v }
        } else {
            v
        }
    } else {
        GoalsV { tasks: put_task(v.tasks, t), counter: counter_past(v.counter, t.id), ..v }
    }
}

/// Hearing of the same goal again changes nothing.
pub proof fn law_merge_goal_idempotent(v: GoalsV, g: GoalV)
    requires
        goals_wf(v),
    ensures
        merged_goal(merged_goal(v, g), g) == merged_goal(v, g),
{
    if has_goal(v.goals, g.id) {
        let e = v.goals[goal_at(v.goals, g.id)];
        lemma_put_goal(v.goals, GoalV { task_ids: joined(e.task_ids, g.task_ids), ..g });
    } else {
        lemma_put_goal(v.goals, g);
    }
}

/// Hearing of the same task again changes nothing.
pub proof fn law_merge_task_idempotent(v: GoalsV, t: TaskV)
    requires
        goals_wf(v),
    ensures
        merged_task(merged_task(v, t), t) == merged_task(v, t),
{
    lemma_put_task(v.tasks, t);
}

/// Hearing of a task never sets a known task back, and afterwards the task is known.
pub proof fn law_merge_task_advances(v: GoalsV, t: TaskV)
    requires
        goals_wf(v),
    ensures
        has_task(merged_task(v, t).tasks, t.id),
        task_rank(t.status) <= task_rank(
            merged_task(v, t).tasks[task_at(merged_task(v, t).tasks, t.id)].status,
        ),
        has_task(v.tasks, t.id) ==> task_rank(v.tasks[task_at(v.tasks, t.id)].status) <= task_rank(
            merged_task(v, t).tasks[task_at(merged_task(v, t).tasks, t.id)].status,
        ),
{
    lemma_put_task(v.tasks, t);
}

/// What is known of a task.
pub open spec fn known_task(v: GoalsV, id: u64) -> TaskV {
    v.tasks[task_at(v.tasks, id)]
}

/// The order in which a node hears of a task from two peers does not matter for its status: it is
/// the furthest that was known or heard of.
pub proof fn law_tasks_converge(v: GoalsV, a: TaskV, b: TaskV)
    requires
        goals_wf(v),
        a.id == b.id,
    ensures
        known_task(merged_task(merged_task(v, a), b), a.id).status == known_task(
            merged_task(merged_task(v, b), a),
            a.id,
        ).status,
{
    lemma_put_task(v.tasks, a);
    lemma_put_task(v.tasks, b);
    let x = merged_task(v, a);
    let y = merged_task(v, b);
    lemma_put_task(x.tasks, b);
    lemma_put_task(y.tasks, a);
}

/// Hearing of a goal under its known priority never sets it back.
pub proof fn law_merge_goal_advances(v: GoalsV, g: GoalV)
    requires
        goals_wf(v),
        has_goal(v.goals, g.id),
        v.goals[goal_at(v.goals, g.id)].priority == g.priority,
    ensures
        has_goal(merged_goal(v, g).goals, g.id),
        goal_rank(v.goals[goal_at(v.goals, g.id)].status) <= goal_rank(
            merged_goal(v, g).goals[goal_at(merged_goal(v, g).goals, g.id)].status,
        ),
        goal_rank(g.status) <= goal_rank(
            merged_goal(v, g).goals[goal_at(merged_goal(v, g).goals, g.id)].status,
        ),
{
    let e = v.goals[goal_at(v.goals, g.id)];
    lemma_put_goal(v.goals, GoalV { task_ids: joined(e.task_ids, g.task_ids), ..g });
}

proof fn lemma_joined(a: Seq<u64>, b: Seq<u64>)
    ensures
        forall|x: u64| joined(a, b).contains(x) <==> (a.contains(x) || b.contains(x)),
    decreases b.len(),
{
    if b.len() > 0 {
        let d = b.drop_last();
        lemma_joined(a, d);
        let j = joined(a, d);
        let r = joined(a, b);
        assert forall|x: u64| r.contains(x) <==> (a.contains(x) || b.contains(x)) by {
            if d.contains(x) {
                let i = d.index_of(x);
                assert(b[i] == x);
            }
            if b.contains(x) && !d.contains(x) {
                let i = b.index_of(x);
                if i < d.len() {
                    assert(d[i] == x);
                }
                assert(x == b.last());
            }
            assert(b[b.len() - 1] == b.last());
            if r.contains(x) && !j.contains(x) {
                let i = r.index_of(x);
                if i < j.len() {
                    assert(j[i] == x);
                }
            }
            if j.contains(x) {
                let i = j.index_of(x);
                assert(r[i] == x);
            }
            if !j.contains(b.last()) {
                assert(r[r.len() - 1] == b.last());
            }
        }
    }
}

/// After hearing of a known goal that is further on, the goal has all tasks known before and all
/// that were heard of.
pub proof fn law_merge_goal_keeps_tasks(v: GoalsV, g: GoalV)
    requires
        goals_wf(v),
        has_goal(v.goals, g.id),
        goal_rank(g.status) > goal_rank(v.goals[goal_at(v.goals, g.id)].status) || g.priority
            != v.goals[goal_at(v.goals, g.id)].priority,
    ensures
        forall|x: u64|
            merged_goal(v, g).goals[goal_at(merged_goal(v, g).goals, g.id)].task_ids.contains(x)
                <==> (v.goals[goal_at(v.goals, g.id)].task_ids.contains(x) || g.task_ids.contains(
                x,
            )),
{
    let e = v.goals[goal_at(v.goals, g.id)];
    lemma_put_goal(v.goals, GoalV { task_ids: joined(e.task_ids, g.task_ids), ..g });
    lemma_joined(e.task_ids, g.task_ids);
}

impl GoalRegistry {
    /// Takes in a goal heard of.
    pub fn merge_goal(&mut self, goal: Goal)
        ensures
            final(self)@ == merged_goal(old(self)@, goal@),
            goals_wf(old(self)@) ==> goals_wf(final(self)@),
    {
        let i = self.goal_slot(goal.id);
        if i < self.goals.len() {
            assert(self@.goals[i as int] == self.goals@[i as int]@);
            if goal.status.as_u8() > self.goals[i].status.as_u8() || goal.priority
                != self.goals[i].priority {
                let mut ids = clone_ids(&self.goals[i].task_ids);
                let mut k: usize = 0;
                assert(goal.task_ids@.take(0) =~= Seq::<u64>::empty());
                while k < goal.task_ids.len()
                    invariant
                        k <= goal.task_ids@.len(),
                        ids@ == joined(self@.goals[i as int].task_ids, goal.task_ids@.take(k as int)),
                    decreases goal.task_ids@.len() - k,
                {
                    let t: u64 = goal.task_ids[k];
                    assert(goal.task_ids@.take(k + 1).drop_last() =~= goal.task_ids@.take(k as int));
                    if !id_listed(&ids, t) {
                        ids.push(t);
                    }
                    k = k + 1;
                }
                assert(goal.task_ids@.take(k as int) =~= goal.task_ids@);
                let mut merged = goal;
                merged.task_ids = ids;
                self.insert_goal(merged);
            }
        } else {
            if goal.id >= self.id_counter {
                self.id_counter = goal.id.wrapping_add(1);
            }
            self.insert_goal(goal);
        }
    }

    /// Takes in a task heard of.
    pub fn merge_task(&mut self, task: Task)
        ensures
            final(self)@ == merged_task(old(self)@, task@),
            goals_wf(old(self)@) ==> goals_wf(final(self)@),
    {
        let i = self.task_slot(task.id);
        if i < self.tasks.len() {
            assert(self@.tasks[i as int] == self.tasks@[i as int]@);
            if task.status.as_u8() > self.tasks[i].status.as_u8() {
                self.insert_task(task);
            }
        } else {
            if task.id >= self.id_counter {
                self.id_counter = task.id.wrapping_add(1);
            }
            self.insert_task(task);
        }
    }
}

// ---------------------------------------------------------------------------
// Queries
// ---------------------------------------------------------------------------

/// The number of tasks in a status.
pub open spec fn tasks_in(s: Seq<TaskV>, status: TaskStatus) -> nat
    decreases s.len(),
{
    if s.len() == 0 {
        0
    } else {
        tasks_in(s.drop_last(), status) + (if s.last().status == status {
            1nat
        } else {
            0
        })
    }
}

/// The number of goals in a status.
pub open spec fn goals_in(s: Seq<GoalV>, status: GoalStatus) -> nat
    decreases s.len(),
{
    if s.len() == 0 {
        0
    } else {
        goals_in(s.drop_last(), status) + (if s.last().status == status {
            1nat
        } else {
            0
        })
    }
}

/// The number of goals that can be run.
pub open spec fn goals_with_code(s: Seq<GoalV>) -> nat
    decreases s.len(),
{
    if s.len() == 0 {
        0
    } else {
        goals_with_code(s.drop_last()) + (if s.last().code.is_some() {
            1nat
        } else {
            0
        })
    }
}

/// The nodes that a running task is assigned to.
pub open spec fn workers(s: Seq<TaskV>) -> Set<Seq<u8>>
    decreases s.len(),
{
    if s.len() == 0 {
        Set::empty()
    } else {
        match s.last().assigned_to {
            Some(id) => if s.last().status == TaskStatus::Running {
                workers(s.drop_last()).insert(id)
            } else {
                workers(s.drop_last())
            },
            None => workers(s.drop_last()),
        }
    }
}

impl GoalRegistry {
    /// The number of tasks in a status.
    pub fn count_tasks(&self, status: TaskStatus) -> (n: usize)
        ensures
            n == tasks_in(self@.tasks, status),
            n <= self.tasks@.len(),
    {
        let mut n: usize = 0;
        let mut i: usize = 0;
        while i < self.tasks.len()
            invariant
                n <= i <= self.tasks@.len(),
                n == tasks_in(self@.tasks.take(i as int), status),
            decreases self.tasks@.len() - i,
        {
            assert(self@.tasks.take(i + 1).drop_last() =~= self@.tasks.take(i as int));
            if self.tasks[i].status == status {
                n = n + 1;
            }
            i = i + 1;
        }
        assert(self@.tasks.take(i as int) =~= self@.tasks);
        n
    }

    /// The number of goals in a status.
    pub fn count_goals(&self, status: GoalStatus) -> (n: usize)
        ensures
            n == goals_in(self@.goals, status),
            n <= self.goals@.len(),
    {
        let mut n: usize = 0;
        let mut i: usize = 0;
        while i < self.goals.len()
            invariant
                n <= i <= self.goals@.len(),
                n == goals_in(self@.goals.take(i as int), status),
            decreases self.goals@.len() - i,
        {
            assert(self@.goals.take(i + 1).drop_last() =~= self@.goals.take(i as int));
            if self.goals[i].status == status {
                n = n + 1;
            }
            i = i + 1;
        }
        assert(self@.goals.take(i as int) =~= self@.goals);
        n
    }

    /// The number of unclaimed tasks.
    pub fn pending_task_count(&self) -> (n: usize)
        ensures
            n == tasks_in(self@.tasks, TaskStatus::Waiting),
    {
        self.count_tasks(TaskStatus::Waiting)
    }

    /// The number of goals that are pending or active.
    pub fn active_goal_count(&self) -> (n: usize)
        ensures
            n == goals_in(self@.goals, GoalStatus::Pending) + goals_in(
                self@.goals,
                GoalStatus::Active,
            ),
    {
        let mut n: usize = 0;
        let mut i: usize = 0;
        while i < self.goals.len()
            invariant
                n <= i <= self.goals@.len(),
                n == goals_in(self@.goals.take(i as int), GoalStatus::Pending) + goals_in(
                    self@.goals.take(i as int),
                    GoalStatus::Active,
                ),
            decreases self.goals@.len() - i,
        {
            assert(self@.goals.take(i + 1).drop_last() =~= self@.goals.take(i as int));
            let s = self.goals[i].status;
            if s == GoalStatus::Pending || s == GoalStatus::Active {
                n = n + 1;
            }
            i = i + 1;
        }
        assert(self@.goals.take(i as int) =~= self@.goals);
        n
    }

    /// The number of goals that can be run.
    fn count_runnable(&self) -> (n: usize)
        ensures
            n == goals_with_code(self@.goals),
    {
        let mut n: usize = 0;
        let mut i: usize = 0;
        while i < self.goals.len()
            invariant
                n <= i <= self.goals@.len(),
                n == goals_with_code(self@.goals.take(i as int)),
            decreases self.goals@.len() - i,
        {
            assert(self@.goals.take(i + 1).drop_last() =~= self@.goals.take(i as int));
            if self.goals[i].code.is_some() {
                n = n + 1;
            }
            i = i + 1;
        }
        assert(self@.goals.take(i as int) =~= self@.goals);
        n
    }

    /// The number of nodes that a running task is assigned to.
    fn count_workers(&self) -> (n: usize)
        ensures
            n == workers(self@.tasks).len(),
    {
        let mut seen: Vec<NodeId> = Vec::new();
        let mut i: usize = 0;
        while i < self.tasks.len()
            invariant
                i <= self.tasks@.len(),
                workers(self@.tasks.take(i as int)).finite(),
                seen@.len() == workers(self@.tasks.take(i as int)).len(),
                forall|x: Seq<u8>|
                    workers(self@.tasks.take(i as int)).contains(x) <==> exists|j: int|
                        0 <= j < seen@.len() && #[trigger] seen@[j]@ == x,
            decreases self.tasks@.len() - i,
        {
            let ghost w = workers(self@.tasks.take(i as int));
            assert(self@.tasks.take(i + 1).drop_last() =~= self@.tasks.take(i as int));
            assert(self@.tasks.take(i + 1).last() == self.tasks@[i as int]@);
            if self.tasks[i].status == TaskStatus::Running {
                if let Some(id) = self.tasks[i].assigned_to {
                    let mut known: bool = false;
                    let mut k: usize = 0;
                    while k < seen.len()
                        invariant
                            k <= seen@.len(),
                            known == exists|j: int| 0 <= j < k && #[trigger] seen@[j]@ == id@,
                        decreases seen@.len() - k,
                    {
                        if same_id(&seen[k], &id) {
                            known = true;
                            assert(seen@[k as int]@ == id@);
                        }
                        k = k + 1;
                    }
                    if !known {
                        let ghost before = seen@;
                        seen.push(id);
                        proof {
                            assert(!w.contains(id@));
                            assert forall|x: Seq<u8>|
                                w.insert(id@).contains(x) <==> exists|j: int|
                                    0 <= j < seen@.len() && #[trigger] seen@[j]@ == x by {
                                if x == id@ {
                                    assert(seen@[before.len() as int]@ == x);
                                } else if w.contains(x) {
                                    let j = choose|j: int|
                                        0 <= j < before.len() && #[trigger] before[j]@ == x;
                                    assert(seen@[j]@ == x);
                                } else if exists|j: int|
                                    0 <= j < seen@.len() && #[trigger] seen@[j]@ == x {
                                    let j = choose|j: int|
                                        0 <= j < seen@.len() && #[trigger] seen@[j]@ == x;
                                    assert(before[j]@ == x);
                                }
                            }
                        }
                    } else {
                        assert(w.insert(id@) =~= w);
                    }
                }
            }
            i = i + 1;
        }
        assert(self@.tasks.take(i as int) =~= self@.tasks);
        seen.len()
    }

    /// The code of a goal, if it is known and can be run.
    pub fn goal_code(&self, goal_id: GoalId) -> (r: Option<String>)
        ensures
            text::opt_text(r) == (if has_goal(self@.goals, goal_id) {
                self@.goals[goal_at(self@.goals, goal_id)].code
            } else {
                None
            }),
    {
        let i = self.goal_slot(goal_id);
        if i < self.goals.len() {
            assert(self@.goals[i as int] == self.goals@[i as int]@);
            clone_opt(&self.goals[i].code)
        } else {
            None
        }
    }

    /// The code that a task runs: its own, else that of its goal.
    pub fn task_code(&self, task_id: TaskId) -> (r: Option<String>)
        ensures
            text::opt_text(r) == (if has_task(self@.tasks, task_id) {
                code_of(self@, self@.tasks[task_at(self@.tasks, task_id)])
            } else {
                None
            }),
    {
        let i = self.task_slot(task_id);
        if i >= self.tasks.len() {
            return None;
        }
        assert(self@.tasks[i as int] == self.tasks@[i as int]@);
        match &self.tasks[i].code {
            Some(c) => Some(c.clone()),
            None => self.goal_code(self.tasks[i].goal_id),
        }
    }
}

// ---------------------------------------------------------------------------
// Decomposition
// ---------------------------------------------------------------------------

/// The registry after a task has been added to a goal. A goal without code takes that of the task.
pub open spec fn with_subtask(
    v: GoalsV,
    goal_id: u64,
    description: Seq<char>,
    code: Option<Seq<char>>,
    now: u64,
) -> GoalsV {
    let id = v.counter;
    let i = goal_at(v.goals, goal_id);
    let g = v.goals[i];
    GoalsV {
        tasks: put_task(v.tasks, new_task(id, goal_id, description, code, now)),
        goals: v.goals.update(
            i,
            GoalV {
                task_ids: g.task_ids.push(id),
                code: if g.code.is_none() {
                    code
                } else {
                    g.code
                },
                ..g
            },
        ),
        counter: id.wrapping_add(1),
    }
}

/// The first index of part `k` when `total` indices are split into parts of `chunk`.
pub open spec fn part_start(chunk: int, k: int) -> int {
    k * chunk
}

/// The index after the last one of part `k` of `n`: the last part runs to the end.
pub open spec fn part_end(total: int, chunk: int, k: int, n: int) -> int {
    if k == n - 1 {
        total
    } else {
        k * chunk + chunk
    }
}

/// The code of part `k` of `n`.
pub open spec fn part_code(total: int, chunk: int, k: int, n: int, code: Seq<char>) -> Seq<char> {
    text::dec_int(part_start(chunk, k)) + " "@ + text::dec_int(part_end(total, chunk, k, n)) + " "@
        + code
}

/// The description of part `k` of `n`.
pub open spec fn part_name(k: int, n: int, part: Seq<char>) -> Seq<char> {
    "chunk "@ + text::dec((k + 1) as nat) + "/"@ + text::dec(n as nat) + ": "@ + text::clip(
        part,
        30,
    )
}

/// The registry, and the tasks made, after the first `k` of `n` parts of a goal.
pub open spec fn parts(
    v: GoalsV,
    goal_id: u64,
    total: int,
    k: int,
    n: int,
    code: Seq<char>,
    now: u64,
) -> (GoalsV, Seq<u64>)
    decreases k,
{
    if k <= 0 {
        (v, Seq::empty())
    } else {
        let (w, ids) = parts(v, goal_id, total, k - 1, n, code, now);
        let part = part_code(total, num::quotient(total, n), k - 1, n, code);
        let id = w.counter;
        (
            GoalsV {
                tasks: put_task(
                    w.tasks,
                    new_task(id, goal_id, part_name(k - 1, n, part), Some(part), now),
                ),
                counter: id.wrapping_add(1),
                ..w
            },
            ids.push(id),
        )
    }
}

/// The description of a goal that is split.
pub open spec fn split_name(total: int, n: int, code: Seq<char>) -> Seq<char> {
    text::dec(n as nat) + "×"@ + text::dec_int(num::quotient(total, n)) + ": "@ + text::clip(code, 40)
}

/// The code of a goal that is split.
pub open spec fn split_code(total: int, n: int, code: Seq<char>) -> Seq<char> {
    text::dec_int(total) + " "@ + text::dec(n as nat) + " SPLIT "@ + code
}

/// The registry after a goal has been created whose `total` indices are split into `n` tasks.
pub open spec fn with_split(
    v: GoalsV,
    total: int,
    n: int,
    code: Seq<char>,
    priority: i64,
    creator: Seq<u8>,
    now: u64,
) -> GoalsV {
    let goal_id = v.counter;
    let (w, ids) = parts(
        GoalsV { counter: goal_id.wrapping_add(1), ..v },
        goal_id,
        total,
        n,
        n,
        code,
        now,
    );
    GoalsV {
        goals: put_goal(
            w.goals,
            new_goal(
                goal_id,
                split_name(total, n, code),
                Some(split_code(total, n, code)),
                priority,
                creator,
                ids,
                now,
            ),
        ),
        ..w
    }
}

/// `n`, or one if it is less.
pub open spec fn at_least_one(n: int) -> int {
    if n < 1 {
        1
    } else {
        n
    }
}

/// The parts of a split cover the indices from 0 to `total` without gap or overlap: the first
/// starts at 0, each other where the one before ends, and the last ends at `total`.
pub proof fn law_split_covers(total: int, n: int, k: int)
    requires
        n >= 1,
        0 <= k < n,
    ensures
        part_start(num::quotient(total, n), 0) == 0,
        k > 0 ==> part_start(num::quotient(total, n), k) == part_end(
            total,
            num::quotient(total, n),
            k - 1,
            n,
        ),
        part_end(total, num::quotient(total, n), n - 1, n) == total,
{
    let c = num::quotient(total, n);
    assert(0 * c == 0) by (nonlinear_arith);
    assert((k - 1) * c + c == k * c) by (nonlinear_arith);
}

/// The description of copy `k` of `n`.
pub open spec fn fork_name(k: int, n: int, code: Seq<char>) -> Seq<char> {
    "fork "@ + text::dec((k + 1) as nat) + "/"@ + text::dec(n as nat) + ": "@ + text::clip(code, 30)
}

/// The registry after the copies 1 to `k` - 1 of `n` have been added to a goal.
pub open spec fn forked(v: GoalsV, goal_id: u64, k: int, n: int, code: Seq<char>, now: u64) -> GoalsV
    decreases k,
{
    if k <= 1 {
        v
    } else {
        let w = forked(v, goal_id, k - 1, n, code, now);
        let id = w.counter;
        let i = goal_at(w.goals, goal_id);
        GoalsV {
            tasks: put_task(w.tasks, new_task(id, goal_id, fork_name(k - 1, n, code), None, now)),
            goals: w.goals.update(
                i,
                GoalV { task_ids: w.goals[i].task_ids.push(id), ..w.goals[i] },
            ),
            counter: id.wrapping_add(1),
        }
    }
}

/// True if a goal can be forked: it is known and has code.
pub open spec fn can_fork(v: GoalsV, goal_id: u64) -> bool {
    has_goal(v.goals, goal_id) && v.goals[goal_at(v.goals, goal_id)].code.is_some()
}

impl GoalRegistry {
    /// Adds a task to a goal, as of `now`. `None` if there is no such goal.
    pub fn create_subtask_at(
        &mut self,
        goal_id: GoalId,
        description: String,
        code: Option<String>,
        now: u64,
    ) -> (r: Option<TaskId>)
        ensures
            match r {
                Some(id) => has_goal(old(self)@.goals, goal_id) && id == old(self)@.counter
                    && final(self)@ == with_subtask(
                    old(self)@,
                    goal_id,
                    description@,
                    text::opt_text(code),
                    now,
                ),
                None => !has_goal(old(self)@.goals, goal_id) && final(self)@ == old(self)@,
            },
            goals_wf(old(self)@) ==> goals_wf(final(self)@),
    {
        let i = self.goal_slot(goal_id);
        if i >= self.goals.len() {
            return None;
        }
        let id = self.next_id();
        let task = Task {
            id,
            goal_id,
            description,
            code: clone_opt(&code),
            assigned_to: None,
            status: TaskStatus::Waiting,
            result: None,
            created_at: now,
        };
        let ghost dv = description@;
        let ghost cv = text::opt_text(code);
        self.insert_task(task);
        assert(self@.goals[i as int] == self.goals@[i as int]@);
        let ghost before = self@;
        self.goals[i].task_ids.push(id);
        if code.is_some() && self.goals[i].code.is_none() {
            self.goals[i].code = code;
        }
        proof {
            let w = with_subtask(old(self)@, goal_id, dv, cv, now);
            assert(self@.goals =~= w.goals);
            assert(self@.tasks =~= w.tasks);
            assert(goal_ids(self@.goals) =~= goal_ids(old(self)@.goals));
        }
        Some(id)
    }

    /// Adds a task to a goal. `None` if there is no such goal.
    pub fn create_subtask(
        &mut self,
        goal_id: GoalId,
        description: String,
        code: Option<String>,
    ) -> (r: Option<TaskId>)
        ensures
            match r {
                Some(id) => has_goal(old(self)@.goals, goal_id) && id == old(self)@.counter
                    && exists|now: u64|
                    final(self)@ == #[trigger] with_subtask(
                        old(self)@,
                        goal_id,
                        description@,
                        text::opt_text(code),
                        now,
                    ),
                None => !has_goal(old(self)@.goals, goal_id) && final(self)@ == old(self)@,
            },
            goals_wf(old(self)@) ==> goals_wf(final(self)@),
    {
        let now = now_millis();
        self.create_subtask_at(goal_id, description, code, now)
    }

    /// Creates a goal whose `total` indices are split into `n` tasks, as of `now`. With `n` below
    /// one there is one task.
    pub fn create_split_goal_at(
        &mut self,
        total: Cell,
        n: Cell,
        remaining_code: &str,
        priority: Cell,
        creator: NodeId,
        now: u64,
    ) -> (id: GoalId)
        ensures
            id == old(self)@.counter,
            final(self)@ == with_split(
                old(self)@,
                total as int,
                at_least_one(n as int),
                remaining_code@,
                priority,
                creator@,
                now,
            ),
            goals_wf(old(self)@) ==> goals_wf(final(self)@),
    {
        let n: i64 = if n < 1 {
            1
        } else {
            n
        };
        let chunk = div_trunc(total, n);
        let goal_id = self.next_id();
        let ghost start_state = self@;
        let mut description = String::new();
        push_u64(&mut description, n as u64);
        description.append("×");
        push_i64(&mut description, chunk);
        description.append(": ");
        let head = take_chars(remaining_code, 40);
        description.append(head.as_str());
        let mut ids: Vec<u64> = Vec::new();
        let mut k: i64 = 0;
        while k < n
            invariant
                0 <= k <= n,
                n >= 1,
                chunk == num::quotient(total as int, n as int),
                (self@, ids@) == parts(
                    start_state,
                    goal_id,
                    total as int,
                    k as int,
                    n as int,
                    remaining_code@,
                    now,
                ),
                goals_wf(old(self)@) ==> goals_wf(self@),
            decreases n - k,
        {
            proof {
                lemma_part_bounds(total as int, n as int, k as int);
            }
            let start: i64 = k * chunk;
            let end: i64 = if k == n - 1 {
                total
            } else {
                start + chunk
            };
            let mut code = String::new();
            push_i64(&mut code, start);
            code.append(" ");
            push_i64(&mut code, end);
            code.append(" ");
            code.append(remaining_code);
            let ghost part = part_code(
                total as int,
                chunk as int,
                k as int,
                n as int,
                remaining_code@,
            );
            assert(code@ =~= part);
            let mut name = String::new();
            name.append("chunk ");
            push_u64(&mut name, (k + 1) as u64);
            name.append("/");
            push_u64(&mut name, n as u64);
            name.append(": ");
            let first = take_chars(code.as_str(), 30);
            name.append(first.as_str());
            assert(name@ =~= part_name(k as int, n as int, part));
            let id = self.next_id();
            let task = Task {
                id,
                goal_id,
                description: name,
                code: Some(code),
                assigned_to: None,
                status: TaskStatus::Waiting,
                result: None,
                created_at: now,
            };
            self.insert_task(task);
            ids.push(id);
            k = k + 1;
        }
        let mut full = String::new();
        push_i64(&mut full, total);
        full.append(" ");
        push_u64(&mut full, n as u64);
        full.append(" SPLIT ");
        full.append(remaining_code);
        let goal = Goal {
            id: goal_id,
            description,
            code: Some(full),
            priority,
            status: GoalStatus::Pending,
            created_at: now,
            creator,
            task_ids: ids,
        };
        proof {
            assert(description@ =~= text::dec(n as nat) + "×"@ + text::dec_int(chunk as int) + ": "@
                + text::clip(remaining_code@, 40));
            assert(full@ =~= text::dec_int(total as int) + " "@ + text::dec(n as nat) + " SPLIT "@
                + remaining_code@);
        }
        self.insert_goal(goal);
        goal_id
    }

    /// Creates a goal whose `total` indices are split into `n` tasks.
    pub fn create_split_goal(
        &mut self,
        total: Cell,
        n: Cell,
        remaining_code: &str,
        priority: Cell,
        creator: NodeId,
    ) -> (id: GoalId)
        ensures
            id == old(self)@.counter,
            exists|now: u64|
                final(self)@ == #[trigger] with_split(
                    old(self)@,
                    total as int,
                    at_least_one(n as int),
                    remaining_code@,
                    priority,
                    creator@,
                    now,
                ),
            goals_wf(old(self)@) ==> goals_wf(final(self)@),
    {
        let now = now_millis();
        self.create_split_goal_at(total, n, remaining_code, priority, creator, now)
    }

    /// Adds `n` - 1 tasks that run the goal's code to a goal, as of `now`. False if there is no
    /// such goal or it has no code.
    pub fn fork_goal_at(&mut self, goal_id: GoalId, n: usize, now: u64) -> (ok: bool)
        ensures
            ok == can_fork(old(self)@, goal_id),
            final(self)@ == (if ok {
                forked(
                    old(self)@,
                    goal_id,
                    n as int,
                    n as int,
                    old(self)@.goals[goal_at(old(self)@.goals, goal_id)].code->0,
                    now,
                )
            } else {
                old(self)@
            }),
            goals_wf(old(self)@) ==> goals_wf(final(self)@),
    {
        let i = self.goal_slot(goal_id);
        if i >= self.goals.len() {
            return false;
        }
        assert(self@.goals[i as int] == self.goals@[i as int]@);
        let code = match &self.goals[i].code {
            Some(c) => c.clone(),
            None => {
                return false;
            },
        };
        let mut k: usize = 1;
        while k < n
            invariant
                1 <= k,
                k <= n || (n == 0 && k == 1),
                i == goal_at(self@.goals, goal_id),
                i < self.goals@.len(),
                self@ == forked(old(self)@, goal_id, k as int, n as int, code@, now),
                goals_wf(old(self)@) ==> goals_wf(self@),
            decreases n - k,
        {
            let mut name = String::new();
            name.append("fork ");
            push_usize(&mut name, k + 1);
            name.append("/");
            push_usize(&mut name, n);
            name.append(": ");
            let first = take_chars(code.as_str(), 30);
            name.append(first.as_str());
            assert(name@ =~= fork_name(k as int, n as int, code@));
            let ghost before = self@;
            let id = self.next_id();
            let task = Task {
                id,
                goal_id,
                description: name,
                code: None,
                assigned_to: None,
                status: TaskStatus::Waiting,
                result: None,
                created_at: now,
            };
            self.insert_task(task);
            assert(self@.goals[i as int] == self.goals@[i as int]@);
            self.goals[i].task_ids.push(id);
            k = k + 1;
            proof {
                let w = forked(old(self)@, goal_id, k as int, n as int, code@, now);
                assert(self@.goals =~= w.goals);
                assert(self@.tasks =~= w.tasks);
                assert(goal_ids(self@.goals) =~= goal_ids(before.goals));
            }
        }
        proof {
            if n <= 1 {
                assert(forked(old(self)@, goal_id, n as int, n as int, code@, now) == old(self)@);
            }
        }
        true
    }

    /// Adds `n` - 1 tasks that run the goal's code to a goal.
    pub fn fork_goal(&mut self, goal_id: GoalId, n: usize) -> (ok: bool)
        ensures
            ok == can_fork(old(self)@, goal_id),
            ok ==> exists|now: u64|
                final(self)@ == #[trigger] forked(
                    old(self)@,
                    goal_id,
                    n as int,
                    n as int,
                    old(self)@.goals[goal_at(old(self)@.goals, goal_id)].code->0,
                    now,
                ),
            !ok ==> final(self)@ == old(self)@,
            goals_wf(old(self)@) ==> goals_wf(final(self)@),
    {
        let now = now_millis();
        self.fork_goal_at(goal_id, n, now)
    }
}

proof fn lemma_part_bounds(total: int, n: int, k: int)
    requires
        n >= 1,
        0 <= k < n,
        i64::MIN <= total <= i64::MAX,
    ensures
        i64::MIN <= k * num::quotient(total, n) <= i64::MAX,
        k < n - 1 ==> i64::MIN <= k * num::quotient(total, n) + num::quotient(total, n) <= i64::MAX,
{
    let m = num::magnitude(total);
    let q = m / n;
    vstd::arithmetic::div_mod::lemma_fundamental_div_mod(m, n);
    assert(q >= 0) by {
        vstd::arithmetic::div_mod::lemma_div_pos_is_pos(m, n);
    }
    assert(k * q <= (n - 1) * q && k * q + q <= n * q && (k < n - 1 ==> k * q + q <= (n - 1) * q)
        && 0 <= k * q && (n - 1) * q + q == n * q && n * q == q * n && k * (-q) == -(k * q))
        by (nonlinear_arith)
        requires
            0 <= k < n,
            q >= 0,
    ;
}

// ---------------------------------------------------------------------------
// Reports
// ---------------------------------------------------------------------------

/// True of a known task in a status.
pub open spec fn task_is(tasks: Seq<TaskV>, id: u64, status: TaskStatus) -> bool {
    has_task(tasks, id) && tasks[task_at(tasks, id)].status == status
}

/// The number of those of these tasks that are known and in a status.
pub open spec fn count_in(tasks: Seq<TaskV>, ids: Seq<u64>, status: TaskStatus) -> nat
    decreases ids.len(),
{
    if ids.len() == 0 {
        0
    } else {
        count_in(tasks, ids.drop_last(), status) + (if task_is(tasks, ids.last(), status) {
            1nat
        } else {
            0
        })
    }
}

/// What is said of an unknown goal.
pub open spec fn no_goal(id: u64) -> Seq<char> {
    "goal #"@ + text::dec(id as nat) + " not found\n"@
}

/// The progress line of a goal.
pub open spec fn progress_text(v: GoalsV, id: u64) -> Seq<char> {
    if has_goal(v.goals, id) {
        let g = v.goals[goal_at(v.goals, id)];
        "goal #"@ + text::dec(g.id as nat) + " ["@ + goal_label(g.status) + "]: "@ + text::dec(
            count_in(v.tasks, g.task_ids, TaskStatus::Done),
        ) + "/"@ + text::dec(g.task_ids.len()) + " done, "@ + text::dec(
            count_in(v.tasks, g.task_ids, TaskStatus::Running),
        ) + " running, "@ + text::dec(count_in(v.tasks, g.task_ids, TaskStatus::Failed)) + " failed\n"@
    } else {
        no_goal(id)
    }
}

/// The line of a goal in the list of goals.
pub open spec fn goal_line(v: GoalsV, g: GoalV) -> Seq<char> {
    "  #"@ + text::dec(g.id as nat) + " ["@ + goal_label(g.status) + "]"@ + (if g.code.is_some() {
        " [exec]"@
    } else {
        ""@
    }) + " p="@ + text::dec_int(g.priority as int) + " ("@ + text::dec(
        count_in(v.tasks, g.task_ids, TaskStatus::Done),
    ) + "/"@ + text::dec(g.task_ids.len()) + " tasks): "@ + g.description + "\n"@
}

/// The lines of the goals at these positions.
pub open spec fn goal_lines(v: GoalsV, ord: Seq<int>) -> Seq<char>
    decreases ord.len(),
{
    if ord.len() == 0 {
        Seq::empty()
    } else {
        goal_lines(v, ord.drop_last()) + goal_line(v, v.goals[ord.last()])
    }
}

/// The priorities of a row of goals.
pub open spec fn priorities(s: Seq<GoalV>) -> Seq<int> {
    Seq::new(s.len(), |i: int| s[i].priority as int)
}

/// The list of goals, the highest priority first; equal priorities in the order in which the goals
/// became known.
pub open spec fn goals_text(v: GoalsV) -> Seq<char> {
    if v.goals.len() == 0 {
        "  (no goals)\n"@
    } else {
        goal_lines(v, order::order_desc(priorities(v.goals), v.goals.len() as int))
    }
}

/// The positions, among the first `n`, of the tasks assigned to a node.
pub open spec fn assigned(s: Seq<TaskV>, node: Seq<u8>, n: int) -> Seq<int>
    decreases n,
{
    if n <= 0 {
        Seq::empty()
    } else if s[n - 1].assigned_to == Some(node) {
        assigned(s, node, n - 1).push(n - 1)
    } else {
        assigned(s, node, n - 1)
    }
}

/// The lines of a task in a node's list of tasks.
pub open spec fn my_task_text(t: TaskV) -> Seq<char> {
    "  task #"@ + text::dec(t.id as nat) + " ["@ + task_label(t.status) + "] goal #"@ + text::dec(
        t.goal_id as nat,
    ) + ": "@ + t.description + "\n"@ + (match t.result {
        Some(r) => result_text(r),
        None => Seq::empty(),
    })
}

/// The creation times of the tasks at these positions.
pub open spec fn times(s: Seq<TaskV>, ps: Seq<int>) -> Seq<int> {
    Seq::new(ps.len(), |i: int| s[ps[i]].created_at as int)
}

/// The lines of the tasks at `ps[ord[0]]`, `ps[ord[1]]` and so on.
pub open spec fn my_lines(s: Seq<TaskV>, ps: Seq<int>, ord: Seq<int>) -> Seq<char>
    decreases ord.len(),
{
    if ord.len() == 0 {
        Seq::empty()
    } else {
        my_lines(s, ps, ord.drop_last()) + my_task_text(s[ps[ord.last()]])
    }
}

/// The list of a node's tasks, the latest first.
pub open spec fn my_tasks_text(v: GoalsV, node: Seq<u8>) -> Seq<char> {
    let ps = assigned(v.tasks, node, v.tasks.len() as int);
    if ps.len() == 0 {
        "  (no tasks claimed)\n"@
    } else {
        my_lines(v.tasks, ps, order::order_desc(times(v.tasks, ps), ps.len() as int))
    }
}

/// The lines of the known ones of these tasks in the breakdown of a goal.
pub open spec fn breakdown(tasks: Seq<TaskV>, ids: Seq<u64>) -> Seq<char>
    decreases ids.len(),
{
    if ids.len() == 0 {
        Seq::empty()
    } else {
        breakdown(tasks, ids.drop_last()) + (if has_task(tasks, ids.last()) {
            let t = tasks[task_at(tasks, ids.last())];
            "  task #"@ + text::dec(t.id as nat) + " ["@ + task_label(t.status) + "] -> "@ + (
            match t.assigned_to {
                Some(id) => text::hex(id),
                None => "unassigned"@,
            }) + "\n"@ + (match t.result {
                Some(r) => result_text(r),
                None => Seq::empty(),
            })
        } else {
            Seq::empty()
        })
    }
}

/// The breakdown of a goal.
pub open spec fn goal_tasks_text(v: GoalsV, id: u64) -> Seq<char> {
    if has_goal(v.goals, id) {
        let g = v.goals[goal_at(v.goals, id)];
        "goal #"@ + text::dec(g.id as nat) + " ["@ + goal_label(g.status) + "] p="@ + text::dec_int(
            g.priority as int,
        ) + ": "@ + g.description + "\n"@ + (match g.code {
            Some(c) => "  code: "@ + c + "\n"@,
            None => Seq::empty(),
        }) + "  creator: "@ + text::hex(g.creator) + "\n"@ + breakdown(v.tasks, g.task_ids)
    } else {
        no_goal(id)
    }
}

/// The result of a task.
pub open spec fn task_result_text(v: GoalsV, id: u64) -> Seq<char> {
    if has_task(v.tasks, id) {
        let t = v.tasks[task_at(v.tasks, id)];
        "task #"@ + text::dec(t.id as nat) + " ["@ + task_label(t.status) + "] goal #"@ + text::dec(
            t.goal_id as nat,
        ) + ":\n"@ + (match t.result {
            Some(r) => result_text(r),
            None => "  (no result yet)\n"@,
        })
    } else {
        "task #"@ + text::dec(id as nat) + " not found\n"@
    }
}

/// The results of the known ones of these tasks.
pub open spec fn result_lines(tasks: Seq<TaskV>, ids: Seq<u64>) -> Seq<char>
    decreases ids.len(),
{
    if ids.len() == 0 {
        Seq::empty()
    } else {
        result_lines(tasks, ids.drop_last()) + (if has_task(tasks, ids.last()) {
            let t = tasks[task_at(tasks, ids.last())];
            "  task #"@ + text::dec(t.id as nat) + ":\n"@ + (match t.result {
                Some(r) => result_text(r),
                None => "    (pending)\n"@,
            })
        } else {
            Seq::empty()
        })
    }
}

/// The results of all tasks of a goal.
pub open spec fn goal_result_text(v: GoalsV, id: u64) -> Seq<char> {
    if has_goal(v.goals, id) {
        let g = v.goals[goal_at(v.goals, id)];
        "goal #"@ + text::dec(g.id as nat) + " ["@ + goal_label(g.status) + "]: "@ + g.description
            + "\n"@ + result_lines(v.tasks, g.task_ids)
    } else {
        no_goal(id)
    }
}

/// The progress of the whole mesh.
pub open spec fn report_text(v: GoalsV) -> Seq<char> {
    "--- mesh progress report ---\n"@ + "goals: "@ + text::dec(v.goals.len()) + " total ("@ + text::dec(
        goals_in(v.goals, GoalStatus::Pending),
    ) + " pending, "@ + text::dec(goals_in(v.goals, GoalStatus::Active)) + " active, "@ + text::dec(
        goals_in(v.goals, GoalStatus::Completed),
    ) + " completed, "@ + text::dec(goals_in(v.goals, GoalStatus::Failed)) + " failed, "@ + text::dec(
        goals_with_code(v.goals),
    ) + " executable)\n"@ + "tasks: "@ + text::dec(v.tasks.len()) + " total ("@ + text::dec(
        tasks_in(v.tasks, TaskStatus::Waiting),
    ) + " waiting, "@ + text::dec(tasks_in(v.tasks, TaskStatus::Running)) + " running, "@ + text::dec(
        tasks_in(v.tasks, TaskStatus::Done),
    ) + " done, "@ + text::dec(tasks_in(v.tasks, TaskStatus::Failed)) + " failed)\n"@ + "workers: "@ + text::dec(
        workers(v.tasks).len(),
    ) + " active units\n"@ + "---\n"@
}

/// The results of the known ones of these tasks, each with its task; `None` for a task without one.
pub open spec fn results_of(tasks: Seq<TaskV>, ids: Seq<u64>) -> Seq<(u64, Option<ResultV>)>
    decreases ids.len(),
{
    if ids.len() == 0 {
        Seq::empty()
    } else {
        let r = results_of(tasks, ids.drop_last());
        if has_task(tasks, ids.last()) {
            r.push((ids.last(), tasks[task_at(tasks, ids.last())].result))
        } else {
            r
        }
    }
}

/// The results of the tasks of a goal; none if the goal is not known.
pub open spec fn goal_results(v: GoalsV, id: u64) -> Seq<(u64, Option<ResultV>)> {
    if has_goal(v.goals, id) {
        results_of(v.tasks, v.goals[goal_at(v.goals, id)].task_ids)
    } else {
        Seq::empty()
    }
}

/// The mathematical form of a row of results.
pub open spec fn result_views(s: Seq<(TaskId, Option<&TaskResult>)>) -> Seq<
    (u64, Option<ResultV>),
> {
    Seq::new(
        s.len(),
        |i: int|
            (
                s[i].0,
                match s[i].1 {
                    Some(r) => Some(r@),
                    None => None,
                },
            ),
    )
}

impl GoalRegistry {
    /// The number of those of these tasks that are known and in a status.
    fn count_of(&self, ids: &[u64], status: TaskStatus) -> (n: usize)
        ensures
            n == count_in(self@.tasks, ids@, status),
    {
        let mut n: usize = 0;
        let mut i: usize = 0;
        assert(ids@.take(0) =~= Seq::<u64>::empty());
        while i < ids.len()
            invariant
                n <= i <= ids@.len(),
                n == count_in(self@.tasks, ids@.take(i as int), status),
            decreases ids@.len() - i,
        {
            assert(ids@.take(i + 1).drop_last() =~= ids@.take(i as int));
            let k = self.task_slot(ids[i]);
            if k < self.tasks.len() {
                assert(self@.tasks[k as int] == self.tasks@[k as int]@);
                if self.tasks[k].status == status {
                    n = n + 1;
                }
            }
            i = i + 1;
        }
        assert(ids@.take(i as int) =~= ids@);
        n
    }

    /// The progress of a goal in one line.
    pub fn format_progress(&self, goal_id: GoalId) -> (out: String)
        ensures
            out@ == progress_text(self@, goal_id),
    {
        let i = self.goal_slot(goal_id);
        if i >= self.goals.len() {
            return unknown_goal(goal_id);
        }
        assert(self@.goals[i as int] == self.goals@[i as int]@);
        let g = &self.goals[i];
        let mut out = text("goal #");
        push_u64(&mut out, g.id);
        out.append(" [");
        out.append(g.status.label());
        out.append("]: ");
        push_usize(&mut out, self.count_of(&g.task_ids, TaskStatus::Done));
        out.append("/");
        push_usize(&mut out, g.task_ids.len());
        out.append(" done, ");
        push_usize(&mut out, self.count_of(&g.task_ids, TaskStatus::Running));
        out.append(" running, ");
        push_usize(&mut out, self.count_of(&g.task_ids, TaskStatus::Failed));
        out.append(" failed\n");
        out
    }

    /// The results of the tasks of a goal, each with its task.
    pub fn collect_results(&self, goal_id: GoalId) -> (r: Vec<(TaskId, Option<&TaskResult>)>)
        ensures
            result_views(r@) == goal_results(self@, goal_id),
    {
        let mut r: Vec<(TaskId, Option<&TaskResult>)> = Vec::new();
        let i = self.goal_slot(goal_id);
        if i >= self.goals.len() {
            assert(result_views(r@) =~= goal_results(self@, goal_id));
            return r;
        }
        assert(self@.goals[i as int] == self.goals@[i as int]@);
        let ids = &self.goals[i].task_ids;
        let mut k: usize = 0;
        assert(result_views(r@) =~= results_of(self@.tasks, ids@.take(0)));
        while k < ids.len()
            invariant
                k <= ids@.len(),
                result_views(r@) == results_of(self@.tasks, ids@.take(k as int)),
            decreases ids@.len() - k,
        {
            assert(ids@.take(k + 1).drop_last() =~= ids@.take(k as int));
            let t = self.task_slot(ids[k]);
            if t < self.tasks.len() {
                assert(self@.tasks[t as int] == self.tasks@[t as int]@);
                let ghost before = result_views(r@);
                r.push((ids[k], self.tasks[t].result.as_ref()));
                assert(result_views(r@) =~= before.push(
                    (ids@[k as int], self@.tasks[t as int].result),
                ));
            }
            k = k + 1;
        }
        assert(ids@.take(k as int) =~= ids@);
        r
    }

    /// The list of goals, the highest priority first.
    pub fn format_goals(&self) -> (out: String)
        ensures
            out@ == goals_text(self@),
    {
        if self.goals.len() == 0 {
            return text("  (no goals)\n");
        }
        let mut keys: Vec<i128> = Vec::new();
        let mut i: usize = 0;
        while i < self.goals.len()
            invariant
                i <= self.goals@.len(),
                order::ints(keys@) == priorities(self@.goals).take(i as int),
            decreases self.goals@.len() - i,
        {
            let ghost before = order::ints(keys@);
            keys.push(self.goals[i].priority as i128);
            i = i + 1;
            assert(order::ints(keys@) =~= before.push(self.goals@[i - 1].priority as int));
            assert(order::ints(keys@) =~= priorities(self@.goals).take(i as int));
        }
        assert(order::ints(keys@) =~= priorities(self@.goals));
        let ord = sort_desc(&keys);
        let ghost pos = order::positions(ord@);
        let mut out = String::new();
        let mut k: usize = 0;
        assert(out@ =~= goal_lines(self@, pos.take(0)));
        assert(keys@.len() == order::ints(keys@).len());
        while k < ord.len()
            invariant
                k <= ord@.len(),
                pos == order::positions(ord@),
                keys@.len() == self.goals@.len(),
                forall|j: int| 0 <= j < ord@.len() ==> (#[trigger] ord@[j]) < keys@.len(),
                out@ == goal_lines(self@, pos.take(k as int)),
            decreases ord@.len() - k,
        {
            proof {
                assert(pos.take(k + 1).drop_last() =~= pos.take(k as int));
                assert(self@.goals[ord@[k as int] as int] == self.goals@[ord@[k as int] as int]@);
            }
            let g = &self.goals[ord[k]];
            let line = self.format_goal(g);
            out.append(line.as_str());
            k = k + 1;
        }
        assert(pos.take(k as int) =~= pos);
        out
    }

    fn format_goal(&self, g: &Goal) -> (out: String)
        ensures
            out@ == goal_line(self@, g@),
    {
        let mut out = text("  #");
        push_u64(&mut out, g.id);
        out.append(" [");
        out.append(g.status.label());
        out.append("]");
        if g.code.is_some() {
            out.append(" [exec]");
        } else {
            out.append("");
        }
        out.append(" p=");
        push_i64(&mut out, g.priority);
        out.append(" (");
        push_usize(&mut out, self.count_of(&g.task_ids, TaskStatus::Done));
        out.append("/");
        push_usize(&mut out, g.task_ids.len());
        out.append(" tasks): ");
        out.append(g.description.as_str());
        out.append("\n");
        out
    }

    /// The list of a node's tasks, the latest first.
    pub fn format_my_tasks(&self, node_id: &NodeId) -> (out: String)
        ensures
            out@ == my_tasks_text(self@, node_id@),
    {
        let mut mine: Vec<usize> = Vec::new();
        let mut keys: Vec<i128> = Vec::new();
        let mut i: usize = 0;
        assert(order::positions(mine@) =~= assigned(self@.tasks, node_id@, 0));
        assert(order::ints(keys@) =~= times(self@.tasks, order::positions(mine@)));
        while i < self.tasks.len()
            invariant
                i <= self.tasks@.len(),
                order::positions(mine@) == assigned(self@.tasks, node_id@, i as int),
                order::ints(keys@) == times(self@.tasks, order::positions(mine@)),
                forall|j: int| 0 <= j < mine@.len() ==> (#[trigger] mine@[j]) < self.tasks@.len(),
            decreases self.tasks@.len() - i,
        {
            assert(self@.tasks[i as int] == self.tasks@[i as int]@);
            let is_mine: bool = match &self.tasks[i].assigned_to {
                Some(id) => same_id(id, node_id),
                None => false,
            };
            if is_mine {
                let ghost before = order::positions(mine@);
                let ghost kept = order::ints(keys@);
                mine.push(i);
                keys.push(self.tasks[i].created_at as i128);
                assert(order::positions(mine@) =~= before.push(i as int));
                assert(order::ints(keys@) =~= kept.push(self@.tasks[i as int].created_at as int));
                assert(order::ints(keys@) =~= times(self@.tasks, order::positions(mine@)));
            }
            i = i + 1;
        }
        assert(order::ints(keys@).len() == order::positions(mine@).len());
        if mine.len() == 0 {
            return text("  (no tasks claimed)\n");
        }
        let ord = sort_desc(&keys);
        let ghost ps = order::positions(mine@);
        let ghost pos = order::positions(ord@);
        let mut out = String::new();
        let mut k: usize = 0;
        assert(out@ =~= my_lines(self@.tasks, ps, pos.take(0)));
        while k < ord.len()
            invariant
                k <= ord@.len(),
                pos == order::positions(ord@),
                ps == order::positions(mine@),
                keys@.len() == mine@.len(),
                forall|j: int| 0 <= j < ord@.len() ==> (#[trigger] ord@[j]) < keys@.len(),
                forall|j: int| 0 <= j < mine@.len() ==> (#[trigger] mine@[j]) < self.tasks@.len(),
                out@ == my_lines(self@.tasks, ps, pos.take(k as int)),
            decreases ord@.len() - k,
        {
            proof {
                assert(pos.take(k + 1).drop_last() =~= pos.take(k as int));
                let t = mine@[ord@[k as int] as int] as int;
                assert(self@.tasks[t] == self.tasks@[t]@);
            }
            let t = &self.tasks[mine[ord[k]]];
            let line = format_task(t);
            out.append(line.as_str());
            k = k + 1;
        }
        assert(pos.take(k as int) =~= pos);
        out
    }

    /// The breakdown of a goal: its data and its tasks.
    pub fn format_goal_tasks(&self, goal_id: GoalId) -> (out: String)
        ensures
            out@ == goal_tasks_text(self@, goal_id),
    {
        let i = self.goal_slot(goal_id);
        if i >= self.goals.len() {
            return unknown_goal(goal_id);
        }
        assert(self@.goals[i as int] == self.goals@[i as int]@);
        let g = &self.goals[i];
        let mut out = text("goal #");
        push_u64(&mut out, g.id);
        out.append(" [");
        out.append(g.status.label());
        out.append("] p=");
        push_i64(&mut out, g.priority);
        out.append(": ");
        out.append(g.description.as_str());
        out.append("\n");
        let mut code = String::new();
        match &g.code {
            Some(c) => {
                code.append("  code: ");
                code.append(c.as_str());
                code.append("\n");
                assert(code@ =~= "  code: "@ + c@ + "\n"@);
            },
            None => {},
        }
        out.append(code.as_str());
        out.append("  creator: ");
        push_hex(&mut out, g.creator.as_slice());
        out.append("\n");
        let rows = self.format_breakdown(&g.task_ids);
        out.append(rows.as_str());
        out
    }

    fn format_breakdown(&self, ids: &[u64]) -> (out: String)
        ensures
            out@ == breakdown(self@.tasks, ids@),
    {
        let mut out = String::new();
        let mut k: usize = 0;
        proof {
            reveal_strlit("");
            assert(""@ =~= Seq::<char>::empty());
        }
        assert(out@ =~= breakdown(self@.tasks, ids@.take(0)));
        while k < ids.len()
            invariant
                k <= ids@.len(),
                ""@ == Seq::<char>::empty(),
                out@ == breakdown(self@.tasks, ids@.take(k as int)),
            decreases ids@.len() - k,
        {
            assert(ids@.take(k + 1).drop_last() =~= ids@.take(k as int));
            let n = self.task_slot(ids[k]);
            let mut row = String::new();
            if n < self.tasks.len() {
                assert(self@.tasks[n as int] == self.tasks@[n as int]@);
                let t = &self.tasks[n];
                row = text("  task #");
                push_u64(&mut row, t.id);
                row.append(" [");
                row.append(t.status.label());
                row.append("] -> ");
                match &t.assigned_to {
                    Some(id) => push_hex(&mut row, id.as_slice()),
                    None => row.append("unassigned"),
                }
                row.append("\n");
                let res = format_opt_result(&t.result, "");
                row.append(res.as_str());
            }
            out.append(row.as_str());
            k = k + 1;
        }
        assert(ids@.take(k as int) =~= ids@);
        out
    }

    /// The result of a task.
    pub fn format_task_result(&self, task_id: TaskId) -> (out: String)
        ensures
            out@ == task_result_text(self@, task_id),
    {
        let i = self.task_slot(task_id);
        if i >= self.tasks.len() {
            let mut out = text("task #");
            push_u64(&mut out, task_id);
            out.append(" not found\n");
            return out;
        }
        assert(self@.tasks[i as int] == self.tasks@[i as int]@);
        let t = &self.tasks[i];
        let mut out = text("task #");
        push_u64(&mut out, t.id);
        out.append(" [");
        out.append(t.status.label());
        out.append("] goal #");
        push_u64(&mut out, t.goal_id);
        out.append(":\n");
        let res = format_opt_result(&t.result, "  (no result yet)\n");
        out.append(res.as_str());
        out
    }

    /// The results of all tasks of a goal.
    pub fn format_goal_result(&self, goal_id: GoalId) -> (out: String)
        ensures
            out@ == goal_result_text(self@, goal_id),
    {
        let i = self.goal_slot(goal_id);
        if i >= self.goals.len() {
            return unknown_goal(goal_id);
        }
        assert(self@.goals[i as int] == self.goals@[i as int]@);
        let g = &self.goals[i];
        let mut out = text("goal #");
        push_u64(&mut out, g.id);
        out.append(" [");
        out.append(g.status.label());
        out.append("]: ");
        out.append(g.description.as_str());
        out.append("\n");
        let rows = self.format_result_lines(&g.task_ids);
        out.append(rows.as_str());
        out
    }

    fn format_result_lines(&self, ids: &[u64]) -> (out: String)
        ensures
            out@ == result_lines(self@.tasks, ids@),
    {
        let mut out = String::new();
        let mut k: usize = 0;
        assert(out@ =~= result_lines(self@.tasks, ids@.take(0)));
        while k < ids.len()
            invariant
                k <= ids@.len(),
                out@ == result_lines(self@.tasks, ids@.take(k as int)),
            decreases ids@.len() - k,
        {
            assert(ids@.take(k + 1).drop_last() =~= ids@.take(k as int));
            let n = self.task_slot(ids[k]);
            let mut row = String::new();
            if n < self.tasks.len() {
                assert(self@.tasks[n as int] == self.tasks@[n as int]@);
                let t = &self.tasks[n];
                row = text("  task #");
                push_u64(&mut row, t.id);
                row.append(":\n");
                let res = format_opt_result(&t.result, "    (pending)\n");
                row.append(res.as_str());
            }
            out.append(row.as_str());
            k = k + 1;
        }
        assert(ids@.take(k as int) =~= ids@);
        out
    }

    /// The progress of the whole mesh: goals, tasks and workers.
    pub fn format_report(&self) -> (out: String)
        ensures
            out@ == report_text(self@),
    {
        let mut out = text("--- mesh progress report ---\n");
        out.append("goals: ");
        push_usize(&mut out, self.goals.len());
        out.append(" total (");
        push_usize(&mut out, self.count_goals(GoalStatus::Pending));
        out.append(" pending, ");
        push_usize(&mut out, self.count_goals(GoalStatus::Active));
        out.append(" active, ");
        push_usize(&mut out, self.count_goals(GoalStatus::Completed));
        out.append(" completed, ");
        push_usize(&mut out, self.count_goals(GoalStatus::Failed));
        out.append(" failed, ");
        push_usize(&mut out, self.count_runnable());
        out.append(" executable)\n");
        out.append("tasks: ");
        push_usize(&mut out, self.tasks.len());
        out.append(" total (");
        push_usize(&mut out, self.count_tasks(TaskStatus::Waiting));
        out.append(" waiting, ");
        push_usize(&mut out, self.count_tasks(TaskStatus::Running));
        out.append(" running, ");
        push_usize(&mut out, self.count_tasks(TaskStatus::Done));
        out.append(" done, ");
        push_usize(&mut out, self.count_tasks(TaskStatus::Failed));
        out.append(" failed)\n");
        out.append("workers: ");
        push_usize(&mut out, self.count_workers());
        out.append(" active units\n");
        out.append("---\n");
        out
    }

    /// A copy of the registry.
    pub fn copy(&self) -> (r: GoalRegistry)
        ensures
            r@ == self@,
    {
        let mut goals: Vec<Goal> = Vec::new();
        let mut i: usize = 0;
        while i < self.goals.len()
            invariant
                i <= self.goals@.len(),
                goal_views(goals@) == self@.goals.take(i as int),
            decreases self.goals@.len() - i,
        {
            let ghost before = goal_views(goals@);
            goals.push(self.goals[i].clone());
            i = i + 1;
            assert(goal_views(goals@) =~= before.push(self.goals@[i - 1]@));
            assert(goal_views(goals@) =~= self@.goals.take(i as int));
        }
        let mut tasks: Vec<Task> = Vec::new();
        let mut k: usize = 0;
        while k < self.tasks.len()
            invariant
                k <= self.tasks@.len(),
                task_views(tasks@) == self@.tasks.take(k as int),
            decreases self.tasks@.len() - k,
        {
            let ghost before = task_views(tasks@);
            tasks.push(self.tasks[k].clone());
            k = k + 1;
            assert(task_views(tasks@) =~= before.push(self.tasks@[k - 1]@));
            assert(task_views(tasks@) =~= self@.tasks.take(k as int));
        }
        assert(goal_views(goals@) =~= self@.goals);
        assert(task_views(tasks@) =~= self@.tasks);
        GoalRegistry { goals, tasks, id_counter: self.id_counter }
    }
}

fn unknown_goal(id: GoalId) -> (out: String)
    ensures
        out@ == no_goal(id),
{
    let mut out = text("goal #");
    push_u64(&mut out, id);
    out.append(" not found\n");
    out
}

fn format_opt_result(r: &Option<TaskResult>, otherwise: &str) -> (out: String)
    ensures
        out@ == (match *r {
            Some(x) => result_text(x@),
            None => otherwise@,
        }),
{
    match r {
        Some(x) => x.format(),
        None => text(otherwise),
    }
}

fn format_task(t: &Task) -> (out: String)
    ensures
        out@ == my_task_text(t@),
{
    let mut out = text("  task #");
    push_u64(&mut out, t.id);
    out.append(" [");
    out.append(t.status.label());
    out.append("] goal #");
    push_u64(&mut out, t.goal_id);
    out.append(": ");
    out.append(t.description.as_str());
    out.append("\n");
    let res = format_opt_result(&t.result, "");
    out.append(res.as_str());
    proof {
        reveal_strlit("");
        assert(""@ =~= Seq::<char>::empty());
    }
    out
}

impl Clone for GoalRegistry {
    fn clone(&self) -> (r: Self)
        ensures
            r@ == self@,
    {
        self.copy()
    }
}

} // verus!
