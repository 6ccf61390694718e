//! What holds of the registry of goals and tasks, whatever is done to it.

use crate::goals;
use crate::goals::{GoalV, GoalsV, ResultV, TaskStatus, TaskV};
use crate::num;
use crate::order;
use vstd::prelude::*;

verus! {

// ---------------------------------------------------------------------------
// Deeds
// ---------------------------------------------------------------------------

/// What can be done to a registry.
#[allow(inconsistent_fields)]
pub enum Deed {
    Create {
        description: Seq<char>,
        priority: i64,
        creator: Seq<u8>,
        code: Option<Seq<char>>,
        now: u64,
    },
    Subtask { goal: u64, description: Seq<char>, code: Option<Seq<char>>, now: u64 },
    Split { total: i64, n: i64, code: Seq<char>, priority: i64, creator: Seq<u8>, now: u64 },
    Fork { goal: u64, n: usize, now: u64 },
    Claim { node: Seq<u8>, runnable: bool },
    Complete { task: u64, result: Option<ResultV> },
    Cancel { goal: u64 },
    Steer { goal: u64, priority: i64 },
    HearGoal(GoalV),
    HearTask(TaskV),
}

/// The task that a claim takes, if there is one.
pub open spec fn claim_of(v: GoalsV, runnable: bool) -> Option<int> {
    goals::best(v, v.tasks.len() as int, runnable)
}

/// The registry after a deed.
pub open spec fn done(v: GoalsV, d: Deed) -> GoalsV {
    match d {
        Deed::Create { description, priority, creator, code, now } => goals::created(
            v,
            description,
            priority,
            creator,
            code,
            now,
        ),
        Deed::Subtask { goal, description, code, now } => if goals::has_goal(v.goals, goal) {
            goals::with_subtask(v, goal, description, code, now)
        } else {
            v
        },
        Deed::Split { total, n, code, priority, creator, now } => goals::with_split(
            v,
            total as int,
            goals::at_least_one(n as int),
            code,
            priority,
            creator,
            now,
        ),
        Deed::Fork { goal, n, now } => if goals::can_fork(v, goal) {
            goals::forked(
                v,
                goal,
                n as int,
                n as int,
                v.goals[goals::goal_at(v.goals, goal)].code->0,
                now,
            )
        } else {
            v
        },
        Deed::Claim { node, runnable } => match claim_of(v, runnable) {
            Some(i) => goals::claimed(v, i, node),
            None => v,
        },
        Deed::Complete { task, result } => goals::completed(v, task, result),
        Deed::Cancel { goal } => goals::cancelled(v, goal),
        Deed::Steer { goal, priority } => goals::steered(v, goal, priority),
        Deed::HearGoal(g) => goals::merged_goal(v, g),
        Deed::HearTask(t) => goals::merged_task(v, t),
    }
}

/// True of a deed for which there are identities enough.
pub open spec fn room(v: GoalsV, d: Deed) -> bool {
    match d {
        Deed::Create { .. } => v.counter + 2 <= u64::MAX,
        Deed::Subtask { .. } => v.counter + 1 <= u64::MAX,
        Deed::Split { n, .. } => v.counter + 1 + goals::at_least_one(n as int) <= u64::MAX,
        Deed::Fork { n, .. } => v.counter + forks(n as int) <= u64::MAX,
        Deed::HearGoal(g) => g.id < u64::MAX,
        Deed::HearTask(t) => t.id < u64::MAX,
        _ => true,
    }
}

/// The registry after deeds, one after the other.
pub open spec fn all_done(v: GoalsV, ds: Seq<Deed>) -> GoalsV
    decreases ds.len(),
{
    if ds.len() == 0 {
        v
    } else {
        done(all_done(v, ds.drop_last()), ds.last())
    }
}

/// True of deeds for each of which there are identities enough when its turn comes.
pub open spec fn all_room(v: GoalsV, ds: Seq<Deed>) -> bool
    decreases ds.len(),
{
    ds.len() > 0 ==> all_room(v, ds.drop_last()) && room(all_done(v, ds.drop_last()), ds.last())
}

// ---------------------------------------------------------------------------
// Identities do not repeat
// ---------------------------------------------------------------------------

/// Hearing of a goal keeps identities distinct.
pub proof fn lemma_merged_goal(v: GoalsV, g: GoalV)
    requires
        goals::goals_wf(v),
    ensures
        goals::goals_wf(goals::merged_goal(v, g)),
{
    order::lemma_at(goals::goal_ids(v.goals), g.id);
    let w = goals::merged_goal(v, g);
    if goals::has_goal(v.goals, g.id) {
        assert(goals::goal_ids(w.goals) =~= goals::goal_ids(v.goals));
    } else {
        goals::lemma_put_goal(v.goals, g);
    }
    assert(goals::task_ids(w.tasks) =~= goals::task_ids(v.tasks));
}

/// Hearing of a task keeps identities distinct.
pub proof fn lemma_merged_task(v: GoalsV, t: TaskV)
    requires
        goals::goals_wf(v),
    ensures
        goals::goals_wf(goals::merged_task(v, t)),
{
    order::lemma_at(goals::task_ids(v.tasks), t.id);
    let w = goals::merged_task(v, t);
    if goals::has_task(v.tasks, t.id) {
        assert(goals::task_ids(w.tasks) =~= goals::task_ids(v.tasks));
    } else {
        goals::lemma_put_task(v.tasks, t);
    }
}

/// A claim keeps identities distinct.
pub proof fn lemma_claimed(v: GoalsV, k: int, node: Seq<u8>)
    requires
        goals::goals_wf(v),
        0 <= k < v.tasks.len(),
    ensures
        goals::goals_wf(goals::claimed(v, k, node)),
{
    let w = goals::claimed(v, k, node);
    order::lemma_at(goals::goal_ids(v.goals), v.tasks[k].goal_id);
    assert(goals::goal_ids(w.goals) =~= goals::goal_ids(v.goals));
    assert(goals::task_ids(w.tasks) =~= goals::task_ids(v.tasks));
}

/// The end of a task keeps identities distinct.
pub proof fn lemma_completed(v: GoalsV, id: u64, r: Option<goals::ResultV>)
    requires
        goals::goals_wf(v),
    ensures
        goals::goals_wf(goals::completed(v, id, r)),
{
    let w = goals::completed(v, id, r);
    order::lemma_at(goals::task_ids(v.tasks), id);
    if goals::has_task(v.tasks, id) {
        let gid = v.tasks[goals::task_at(v.tasks, id)].goal_id;
        order::lemma_at(goals::goal_ids(v.goals), gid);
        assert(goals::goal_ids(w.goals) =~= goals::goal_ids(v.goals));
        assert(goals::task_ids(w.tasks) =~= goals::task_ids(v.tasks));
    }
}

/// Forking keeps identities distinct.
pub proof fn lemma_forked(v: GoalsV, goal: u64, k: int, n: int, code: Seq<char>, now: u64)
    requires
        goals::goals_wf(v),
        goals::has_goal(v.goals, goal),
    ensures
        goals::goals_wf(goals::forked(v, goal, k, n, code, now)),
        goals::goal_ids(goals::forked(v, goal, k, n, code, now).goals) == goals::goal_ids(v.goals),
    decreases k,
{
    if k > 1 {
        lemma_forked(v, goal, k - 1, n, code, now);
        let w = goals::forked(v, goal, k - 1, n, code, now);
        let r = goals::forked(v, goal, k, n, code, now);
        goals::lemma_put_task(
            w.tasks,
            goals::new_task(w.counter, goal, goals::fork_name(k - 1, n, code), None, now),
        );
        assert(goals::goal_ids(r.goals) =~= goals::goal_ids(w.goals));
    }
}

/// The parts of a split keep identities distinct.
pub proof fn lemma_parts(v: GoalsV, goal: u64, total: int, k: int, n: int, code: Seq<char>, now: u64)
    requires
        goals::goals_wf(v),
    ensures
        goals::goals_wf(goals::parts(v, goal, total, k, n, code, now).0),
    decreases k,
{
    if k > 0 {
        lemma_parts(v, goal, total, k - 1, n, code, now);
        let w = goals::parts(v, goal, total, k - 1, n, code, now).0;
        let part = goals::part_code(total, num::quotient(total, n), k - 1, n, code);
        let name = goals::part_name(k - 1, n, part);
        goals::lemma_put_task(w.tasks, goals::new_task(w.counter, goal, name, Some(part), now));
    }
}

/// Whatever is done to a registry, identities do not repeat.
pub proof fn law_deeds_keep_identities(v: GoalsV, d: Deed)
    requires
        goals::goals_wf(v),
    ensures
        goals::goals_wf(done(v, d)),
{
    let w = done(v, d);
    let id = v.counter;
    match d {
        Deed::Create { description, priority, creator, code, now } => {
            let task = id.wrapping_add(1);
            goals::lemma_put_goal(
                v.goals,
                goals::new_goal(id, description, code, priority, creator, seq![task], now),
            );
            goals::lemma_put_task(v.tasks, goals::new_task(task, id, description, None, now));
        },
        Deed::Subtask { goal, description, code, now } => {
            goals::lemma_put_task(v.tasks, goals::new_task(id, goal, description, code, now));
            assert(goals::goal_ids(w.goals) =~= goals::goal_ids(v.goals));
        },
        Deed::Split { total, n, code, priority, creator, now } => {
            let k = goals::at_least_one(n as int);
            let u = GoalsV { counter: id.wrapping_add(1), ..v };
            let (x, ids) = goals::parts(u, id, total as int, k, k, code, now);
            lemma_parts(u, id, total as int, k, k, code, now);
            goals::lemma_put_goal(
                x.goals,
                goals::new_goal(
                    id,
                    goals::split_name(total as int, k, code),
                    Some(goals::split_code(total as int, k, code)),
                    priority,
                    creator,
                    ids,
                    now,
                ),
            );
        },
        Deed::Fork { goal, n, now } => {
            if goals::can_fork(v, goal) {
                let code = v.goals[goals::goal_at(v.goals, goal)].code->0;
                lemma_forked(v, goal, n as int, n as int, code, now);
            }
        },
        Deed::Claim { node, runnable } => {
            goals::law_best_is_highest(v, v.tasks.len() as int, runnable);
            if let Some(i) = claim_of(v, runnable) {
                lemma_claimed(v, i, node);
            }
        },
        Deed::Complete { task, result } => lemma_completed(v, task, result),
        Deed::Cancel { goal } => {
            assert(goals::goal_ids(w.goals) =~= goals::goal_ids(v.goals));
            assert(goals::task_ids(w.tasks) =~= goals::task_ids(v.tasks));
        },
        Deed::Steer { goal, priority } => {
            assert(goals::goal_ids(w.goals) =~= goals::goal_ids(v.goals));
        },
        Deed::HearGoal(g) => lemma_merged_goal(v, g),
        Deed::HearTask(t) => lemma_merged_task(v, t),
    }
}

// ---------------------------------------------------------------------------
// Identities are new
// ---------------------------------------------------------------------------

/// True of a registry in which every identity lies below the next one to be handed out.
pub open spec fn numbered(v: GoalsV) -> bool {
    &&& forall|i: int| 0 <= i < v.goals.len() ==> (#[trigger] v.goals[i]).id < v.counter
    &&& forall|i: int| 0 <= i < v.tasks.len() ==> (#[trigger] v.tasks[i]).id < v.counter
}

proof fn lemma_known_goal(v: GoalsV, id: u64)
    requires
        numbered(v),
    ensures
        goals::has_goal(v.goals, id) ==> id < v.counter,
{
    order::lemma_at(goals::goal_ids(v.goals), id);
    if goals::has_goal(v.goals, id) {
        assert(goals::goal_ids(v.goals)[goals::goal_at(v.goals, id)] == id);
    }
}

proof fn lemma_known_task(v: GoalsV, id: u64)
    requires
        numbered(v),
    ensures
        goals::has_task(v.tasks, id) ==> id < v.counter,
{
    order::lemma_at(goals::task_ids(v.tasks), id);
    if goals::has_task(v.tasks, id) {
        assert(goals::task_ids(v.tasks)[goals::task_at(v.tasks, id)] == id);
    }
}

proof fn lemma_unknown(v: GoalsV, id: u64)
    requires
        numbered(v),
        id >= v.counter,
    ensures
        !goals::has_goal(v.goals, id),
        !goals::has_task(v.tasks, id),
{
    lemma_known_goal(v, id);
    lemma_known_task(v, id);
}

/// An empty registry is numbered, and its identities do not repeat.
pub proof fn law_empty_registry_numbered(v: GoalsV)
    requires
        v.goals.len() == 0,
        v.tasks.len() == 0,
    ensures
        numbered(v),
        goals::goals_wf(v),
{
}

/// The identities of a new goal and of its task are new: no goal and no task had one of them. Both
/// are added behind what was there, which stays as it was.
pub proof fn law_created_identities_are_new(
    v: GoalsV,
    description: Seq<char>,
    priority: i64,
    creator: Seq<u8>,
    code: Option<Seq<char>>,
    now: u64,
)
    requires
        numbered(v),
        v.counter + 2 <= u64::MAX,
    ensures
        ({
            let g = v.counter;
            let t = (v.counter + 1) as u64;
            let w = goals::created(v, description, priority, creator, code, now);
            &&& g != t
            &&& !goals::has_goal(v.goals, g) && !goals::has_task(v.tasks, g)
            &&& !goals::has_goal(v.goals, t) && !goals::has_task(v.tasks, t)
            &&& w.goals == v.goals.push(
                goals::new_goal(g, description, code, priority, creator, seq![t], now),
            )
            &&& w.tasks == v.tasks.push(goals::new_task(t, g, description, None, now))
        }),
{
    lemma_unknown(v, v.counter);
    lemma_unknown(v, (v.counter + 1) as u64);
}

proof fn lemma_parts_numbered(
    v: GoalsV,
    goal: u64,
    total: int,
    k: int,
    n: int,
    code: Seq<char>,
    now: u64,
)
    requires
        numbered(v),
        0 <= k,
        v.counter + k <= u64::MAX,
    ensures
        ({
            let w = goals::parts(v, goal, total, k, n, code, now).0;
            &&& numbered(w)
            &&& w.counter == v.counter + k
            &&& w.goals == v.goals
        }),
    decreases k,
{
    if k > 0 {
        lemma_parts_numbered(v, goal, total, k - 1, n, code, now);
        let w = goals::parts(v, goal, total, k - 1, n, code, now).0;
        lemma_unknown(w, w.counter);
    }
}

proof fn lemma_forked_numbered(v: GoalsV, goal: u64, k: int, n: int, code: Seq<char>, now: u64)
    requires
        numbered(v),
        goals::has_goal(v.goals, goal),
        v.counter + forks(k) <= u64::MAX,
    ensures
        ({
            let w = goals::forked(v, goal, k, n, code, now);
            &&& numbered(w)
            &&& goals::goal_ids(w.goals) == goals::goal_ids(v.goals)
            &&& w.counter == v.counter + forks(k)
        }),
    decreases k,
{
    if k > 1 {
        lemma_forked_numbered(v, goal, k - 1, n, code, now);
        let w = goals::forked(v, goal, k - 1, n, code, now);
        let r = goals::forked(v, goal, k, n, code, now);
        lemma_unknown(w, w.counter);
        assert(goals::goal_ids(r.goals) =~= goals::goal_ids(w.goals));
        assert forall|i: int| 0 <= i < r.goals.len() implies (#[trigger] r.goals[i]).id
            < r.counter by {
            assert(goals::goal_ids(r.goals)[i] == goals::goal_ids(w.goals)[i]);
            assert(w.goals[i].id < w.counter);
        }
    }
}

/// Whatever is done to a registry, every identity stays below the next one to be handed out, which
/// never falls.
pub proof fn law_deeds_keep_numbering(v: GoalsV, d: Deed)
    requires
        numbered(v),
        room(v, d),
    ensures
        numbered(done(v, d)),
        done(v, d).counter >= v.counter,
{
    let id = v.counter;
    lemma_unknown(v, id);
    match d {
        Deed::Create { .. } => {
            lemma_unknown(v, (id + 1) as u64);
        },
        Deed::Split { total, n, code, now, .. } => {
            let k = goals::at_least_one(n as int);
            let u = GoalsV { counter: (id + 1) as u64, ..v };
            lemma_parts_numbered(u, id, total as int, k, k, code, now);
        },
        Deed::Fork { goal, n, now } => {
            if goals::can_fork(v, goal) {
                let code = v.goals[goals::goal_at(v.goals, goal)].code->0;
                lemma_forked_numbered(v, goal, n as int, n as int, code, now);
            }
        },
        Deed::Claim { node, runnable } => {
            goals::law_best_is_highest(v, v.tasks.len() as int, runnable);
        },
        Deed::HearGoal(g) => {
            lemma_known_goal(v, g.id);
        },
        Deed::HearTask(t) => {
            lemma_known_task(v, t.id);
        },
        _ => {},
    }
}

/// In every state that a registry comes to from an empty one, identities do not repeat and lie
/// below the next one to be handed out.
pub proof fn law_registry_always_numbered(v: GoalsV, ds: Seq<Deed>)
    requires
        v.goals.len() == 0,
        v.tasks.len() == 0,
        all_room(v, ds),
    ensures
        goals::goals_wf(all_done(v, ds)),
        numbered(all_done(v, ds)),
    decreases ds.len(),
{
    if ds.len() > 0 {
        law_registry_always_numbered(v, ds.drop_last());
        law_deeds_keep_identities(all_done(v, ds.drop_last()), ds.last());
        law_deeds_keep_numbering(all_done(v, ds.drop_last()), ds.last());
    } else {
        law_empty_registry_numbered(v);
    }
}

// ---------------------------------------------------------------------------
// Waiting tasks
// ---------------------------------------------------------------------------

/// How many tasks wait to be claimed.
pub open spec fn waiting(v: GoalsV) -> nat {
    goals::tasks_in(v.tasks, TaskStatus::Waiting)
}

/// One for a task that waits, else nothing.
pub open spec fn one_if_waiting(t: TaskV) -> int {
    if t.status == TaskStatus::Waiting {
        1
    } else {
        0
    }
}

/// How many of these tasks wait and belong to these identities.
pub open spec fn waiting_among(s: Seq<TaskV>, ids: Seq<u64>) -> int
    decreases s.len(),
{
    if s.len() == 0 {
        0
    } else {
        waiting_among(s.drop_last(), ids) + if ids.contains(s.last().id) {
            one_if_waiting(s.last())
        } else {
            0
        }
    }
}

/// How many tasks a fork into `n` adds.
pub open spec fn forks(n: int) -> int {
    if n > 1 {
        n - 1
    } else {
        0
    }
}

/// By how much a deed changes the number of waiting tasks, if no task that it adds takes the place
/// of one that waits.
pub open spec fn waiting_change(v: GoalsV, d: Deed) -> int {
    match d {
        Deed::Create { .. } => 1,
        Deed::Subtask { goal, .. } => if goals::has_goal(v.goals, goal) {
            1
        } else {
            0
        },
        Deed::Split { n, .. } => goals::at_least_one(n as int),
        Deed::Fork { goal, n, .. } => if goals::can_fork(v, goal) {
            forks(n as int)
        } else {
            0
        },
        Deed::Claim { runnable, .. } => if claim_of(v, runnable).is_some() {
            -1
        } else {
            0
        },
        Deed::Complete { task, .. } => if goals::has_task(v.tasks, task) {
            -one_if_waiting(goals::known_task(v, task))
        } else {
            0
        },
        Deed::Cancel { goal } => if goals::has_goal(v.goals, goal) {
            -waiting_among(v.tasks, v.goals[goals::goal_at(v.goals, goal)].task_ids)
        } else {
            0
        },
        Deed::Steer { .. } => 0,
        Deed::HearGoal(_) => 0,
        Deed::HearTask(t) => if !goals::has_task(v.tasks, t.id) {
            one_if_waiting(t)
        } else if goals::task_rank(t.status) > goals::task_rank(
            goals::known_task(v, t.id).status,
        ) {
            -one_if_waiting(goals::known_task(v, t.id))
        } else {
            0
        },
    }
}

proof fn lemma_pushed(s: Seq<TaskV>, t: TaskV)
    ensures
        goals::tasks_in(s.push(t), TaskStatus::Waiting) == goals::tasks_in(s, TaskStatus::Waiting)
            + one_if_waiting(t),
{
    assert(s.push(t).drop_last() =~= s);
}

proof fn lemma_updated(s: Seq<TaskV>, i: int, t: TaskV)
    requires
        0 <= i < s.len(),
    ensures
        goals::tasks_in(s.update(i, t), TaskStatus::Waiting) == goals::tasks_in(
            s,
            TaskStatus::Waiting,
        ) - one_if_waiting(s[i]) + one_if_waiting(t),
    decreases s.len(),
{
    let r = s.update(i, t);
    if i == s.len() - 1 {
        assert(r.drop_last() =~= s.drop_last());
    } else {
        lemma_updated(s.drop_last(), i, t);
        assert(r.drop_last() =~= s.drop_last().update(i, t));
        assert(r.last() == s.last());
    }
}

proof fn lemma_failed_tasks(s: Seq<TaskV>, ids: Seq<u64>)
    ensures
        goals::tasks_in(goals::failed_tasks(s, ids), TaskStatus::Waiting) == goals::tasks_in(
            s,
            TaskStatus::Waiting,
        ) - waiting_among(s, ids),
    decreases s.len(),
{
    if s.len() > 0 {
        lemma_failed_tasks(s.drop_last(), ids);
        assert(goals::failed_tasks(s, ids).drop_last() =~= goals::failed_tasks(s.drop_last(), ids));
    }
}

/// The `k` identities from `first` on, in the order in which they are handed out.
pub open spec fn next_ids(first: u64, k: int) -> Seq<u64> {
    Seq::new(k as nat, |i: int| ((first + i) % 0x1_0000_0000_0000_0000) as u64)
}

/// The identities that a deed hands out to tasks.
pub open spec fn new_tasks(v: GoalsV, d: Deed) -> Seq<u64> {
    match d {
        Deed::Create { .. } => next_ids(v.counter.wrapping_add(1), 1),
        Deed::Subtask { goal, .. } => if goals::has_goal(v.goals, goal) {
            next_ids(v.counter, 1)
        } else {
            Seq::empty()
        },
        Deed::Split { n, .. } => next_ids(
            v.counter.wrapping_add(1),
            goals::at_least_one(n as int),
        ),
        Deed::Fork { goal, n, .. } => if goals::can_fork(v, goal) {
            next_ids(v.counter, forks(n as int))
        } else {
            Seq::empty()
        },
        _ => Seq::empty(),
    }
}

/// How many waiting tasks give way to tasks that a deed adds under the same identities.
pub open spec fn displaced(v: GoalsV, d: Deed) -> int {
    waiting_among(v.tasks, new_tasks(v, d))
}

proof fn lemma_among_none(s: Seq<TaskV>, ids: Seq<u64>)
    requires
        forall|i: int| 0 <= i < s.len() ==> !ids.contains((#[trigger] s[i]).id),
    ensures
        waiting_among(s, ids) == 0,
    decreases s.len(),
{
    if s.len() > 0 {
        lemma_among_none(s.drop_last(), ids);
        assert(!ids.contains(s[s.len() - 1].id));
    }
}

/// One more identity adds what waits under it.
proof fn lemma_among_push(s: Seq<TaskV>, ids: Seq<u64>, id: u64)
    requires
        !ids.contains(id),
    ensures
        waiting_among(s, ids.push(id)) == waiting_among(s, ids) + waiting_among(s, seq![id]),
    decreases s.len(),
{
    if s.len() > 0 {
        lemma_among_push(s.drop_last(), ids, id);
        let x = s.last().id;
        assert(ids.push(id).contains(x) == (ids.contains(x) || x == id)) by {
            assert(ids.push(id)[ids.len() as int] == id);
            if ids.contains(x) {
                let i = choose|i: int| 0 <= i < ids.len() && ids[i] == x;
                assert(ids.push(id)[i] == x);
            }
        }
        assert(seq![id].contains(x) == (x == id)) by {
            assert(seq![id][0] == id);
        }
    }
}

/// What waits among identities after one task has been put in the place of another.
proof fn lemma_among_update(s: Seq<TaskV>, i: int, t: TaskV, ids: Seq<u64>)
    requires
        0 <= i < s.len(),
        !ids.contains(s[i].id),
        !ids.contains(t.id),
    ensures
        waiting_among(s.update(i, t), ids) == waiting_among(s, ids),
    decreases s.len(),
{
    let r = s.update(i, t);
    if i == s.len() - 1 {
        assert(r.drop_last() =~= s.drop_last());
    } else {
        lemma_among_update(s.drop_last(), i, t, ids);
        assert(r.drop_last() =~= s.drop_last().update(i, t));
        assert(r.last() == s.last());
    }
}

/// What waits under a known identity is its task, if that waits.
proof fn lemma_among_one(s: Seq<TaskV>, i: int)
    requires
        order::distinct(goals::task_ids(s)),
        0 <= i < s.len(),
    ensures
        waiting_among(s, seq![s[i].id]) == one_if_waiting(s[i]),
    decreases s.len(),
{
    let ids = seq![s[i].id];
    assert(ids[0] == s[i].id);
    let r = s.drop_last();
    assert forall|j: int| 0 <= j < s.len() && j != i implies !ids.contains(
        (#[trigger] s[j]).id,
    ) by {
        assert(goals::task_ids(s)[j] != goals::task_ids(s)[i]);
    }
    if i == s.len() - 1 {
        assert forall|j: int| 0 <= j < r.len() implies !ids.contains((#[trigger] r[j]).id) by {
            assert(r[j] == s[j]);
        }
        lemma_among_none(r, ids);
    } else {
        assert(!ids.contains(s[s.len() - 1].id));
        assert forall|a: int, b: int| 0 <= a < b < r.len() implies goals::task_ids(r)[a]
            != goals::task_ids(r)[b] by {
            assert(goals::task_ids(s)[a] != goals::task_ids(s)[b]);
        }
        lemma_among_one(r, i);
    }
}

/// Putting a task counts it, and no longer counts the task that it takes the place of.
proof fn lemma_put_waiting(s: Seq<TaskV>, t: TaskV)
    requires
        order::distinct(goals::task_ids(s)),
    ensures
        goals::tasks_in(goals::put_task(s, t), TaskStatus::Waiting) == goals::tasks_in(
            s,
            TaskStatus::Waiting,
        ) + one_if_waiting(t) - waiting_among(s, seq![t.id]),
{
    order::lemma_at(goals::task_ids(s), t.id);
    let i = goals::task_at(s, t.id);
    if goals::has_task(s, t.id) {
        assert(goals::task_ids(s)[i] == t.id);
        lemma_updated(s, i, t);
        lemma_among_one(s, i);
    } else {
        lemma_pushed(s, t);
        assert forall|j: int| 0 <= j < s.len() implies !seq![t.id].contains(
            (#[trigger] s[j]).id,
        ) by {
            assert(goals::task_ids(s)[j] != t.id);
        }
        lemma_among_none(s, seq![t.id]);
    }
}

/// Putting a task leaves what waits under other identities.
proof fn lemma_put_others(s: Seq<TaskV>, t: TaskV, id: u64)
    requires
        id != t.id,
    ensures
        waiting_among(goals::put_task(s, t), seq![id]) == waiting_among(s, seq![id]),
{
    order::lemma_at(goals::task_ids(s), t.id);
    let i = goals::task_at(s, t.id);
    if goals::has_task(s, t.id) {
        assert(goals::task_ids(s)[i] == t.id);
        lemma_among_update(s, i, t, seq![id]);
    } else {
        assert(s.push(t).drop_last() =~= s);
    }
}

/// One identity more is handed out behind those handed out before, and is none of them.
proof fn lemma_next_ids(first: u64, k: int)
    requires
        0 <= k < 0x1_0000_0000_0000_0000,
    ensures
        next_ids(first, k + 1) == next_ids(first, k).push(
            ((first + k) % 0x1_0000_0000_0000_0000) as u64,
        ),
        !next_ids(first, k).contains(((first + k) % 0x1_0000_0000_0000_0000) as u64),
{
    let id = ((first + k) % 0x1_0000_0000_0000_0000) as u64;
    assert(next_ids(first, k + 1) =~= next_ids(first, k).push(id));
    assert forall|i: int| 0 <= i < k implies #[trigger] next_ids(first, k)[i] != id by {
        assert(next_ids(first, k)[i] == ((first + i) % 0x1_0000_0000_0000_0000) as u64);
    }
}

/// The parts of a split are counted, and each takes the place of what waited under its identity.
proof fn lemma_parts_waiting(
    v: GoalsV,
    goal: u64,
    total: int,
    k: int,
    n: int,
    code: Seq<char>,
    now: u64,
    id: u64,
)
    requires
        goals::goals_wf(v),
        0 <= k < 0x1_0000_0000_0000_0000,
    ensures
        ({
            let w = goals::parts(v, goal, total, k, n, code, now).0;
            &&& w.counter == (v.counter + k) % 0x1_0000_0000_0000_0000
            &&& waiting(w) == waiting(v) + k - waiting_among(v.tasks, next_ids(v.counter, k))
            &&& !next_ids(v.counter, k).contains(id) ==> waiting_among(w.tasks, seq![id])
                == waiting_among(v.tasks, seq![id])
        }),
    decreases k,
{
    if k > 0 {
        let x = ((v.counter + k - 1) % 0x1_0000_0000_0000_0000) as u64;
        lemma_next_ids(v.counter, k - 1);
        lemma_parts_waiting(v, goal, total, k - 1, n, code, now, x);
        lemma_parts_waiting(v, goal, total, k - 1, n, code, now, id);
        lemma_parts(v, goal, total, k - 1, n, code, now);
        let w = goals::parts(v, goal, total, k - 1, n, code, now).0;
        let part = goals::part_code(total, num::quotient(total, n), k - 1, n, code);
        let t = goals::new_task(
            w.counter,
            goal,
            goals::part_name(k - 1, n, part),
            Some(part),
            now,
        );
        lemma_put_waiting(w.tasks, t);
        lemma_among_push(v.tasks, next_ids(v.counter, k - 1), x);
        if !next_ids(v.counter, k).contains(id) {
            assert(next_ids(v.counter, k)[k - 1] == x);
            let ids = next_ids(v.counter, k - 1);
            assert(!ids.contains(id)) by {
                if ids.contains(id) {
                    let i = choose|i: int| 0 <= i < ids.len() && ids[i] == id;
                    assert(next_ids(v.counter, k)[i] == id);
                }
            }
            lemma_put_others(w.tasks, t, id);
        }
    } else {
        lemma_among_none(v.tasks, next_ids(v.counter, k));
    }
}

/// The tasks of a fork are counted, and each takes the place of what waited under its identity.
proof fn lemma_forked_waiting(
    v: GoalsV,
    goal: u64,
    k: int,
    n: int,
    code: Seq<char>,
    now: u64,
    id: u64,
)
    requires
        goals::goals_wf(v),
        goals::has_goal(v.goals, goal),
        forks(k) < 0x1_0000_0000_0000_0000,
    ensures
        ({
            let w = goals::forked(v, goal, k, n, code, now);
            &&& w.counter == (v.counter + forks(k)) % 0x1_0000_0000_0000_0000
            &&& waiting(w) == waiting(v) + forks(k) - waiting_among(
                v.tasks,
                next_ids(v.counter, forks(k)),
            )
            &&& !next_ids(v.counter, forks(k)).contains(id) ==> waiting_among(w.tasks, seq![id])
                == waiting_among(v.tasks, seq![id])
        }),
    decreases k,
{
    if k > 1 {
        let f = k - 1;
        let x = ((v.counter + f - 1) % 0x1_0000_0000_0000_0000) as u64;
        lemma_next_ids(v.counter, f - 1);
        lemma_forked_waiting(v, goal, k - 1, n, code, now, x);
        lemma_forked_waiting(v, goal, k - 1, n, code, now, id);
        lemma_forked(v, goal, k - 1, n, code, now);
        let w = goals::forked(v, goal, k - 1, n, code, now);
        let t = goals::new_task(w.counter, goal, goals::fork_name(k - 1, n, code), None, now);
        lemma_put_waiting(w.tasks, t);
        lemma_among_push(v.tasks, next_ids(v.counter, f - 1), x);
        if !next_ids(v.counter, f).contains(id) {
            assert(next_ids(v.counter, f)[f - 1] == x);
            let ids = next_ids(v.counter, f - 1);
            assert(!ids.contains(id)) by {
                if ids.contains(id) {
                    let i = choose|i: int| 0 <= i < ids.len() && ids[i] == id;
                    assert(next_ids(v.counter, f)[i] == id);
                }
            }
            lemma_put_others(w.tasks, t, id);
        }
    } else {
        lemma_among_none(v.tasks, next_ids(v.counter, forks(k)));
    }
}

/// How each deed changes the number of waiting tasks. Creating a goal and adding a task to a goal
/// raise it by one, a split by the number of its parts, a fork by one less than its number; a claim
/// that takes a task lowers it by one. A claim that takes none leaves it, and so does a change of
/// priority. A waiting task whose identity is handed out once more gives way to the new one.
pub proof fn law_waiting_tasks(v: GoalsV, d: Deed)
    requires
        goals::goals_wf(v),
    ensures
        waiting(done(v, d)) == waiting(v) + waiting_change(v, d) - displaced(v, d),
{
    let id = v.counter;
    match d {
        Deed::Create { description, now, .. } => {
            let task = id.wrapping_add(1);
            lemma_put_waiting(v.tasks, goals::new_task(task, id, description, None, now));
            assert(new_tasks(v, d) =~= seq![task]);
        },
        Deed::Subtask { goal, description, code, now } => {
            if goals::has_goal(v.goals, goal) {
                lemma_put_waiting(v.tasks, goals::new_task(id, goal, description, code, now));
                assert(new_tasks(v, d) =~= seq![id]);
            } else {
                lemma_among_none(v.tasks, new_tasks(v, d));
            }
        },
        Deed::Split { total, n, code, now, .. } => {
            let k = goals::at_least_one(n as int);
            let u = GoalsV { counter: id.wrapping_add(1), ..v };
            lemma_parts_waiting(u, id, total as int, k, k, code, now, id);
        },
        Deed::Fork { goal, n, now } => {
            if goals::can_fork(v, goal) {
                let code = v.goals[goals::goal_at(v.goals, goal)].code->0;
                lemma_forked_waiting(v, goal, n as int, n as int, code, now, id);
            } else {
                lemma_among_none(v.tasks, new_tasks(v, d));
            }
        },
        Deed::Claim { node, runnable } => {
            lemma_among_none(v.tasks, new_tasks(v, d));
            goals::law_best_is_highest(v, v.tasks.len() as int, runnable);
            if let Some(i) = claim_of(v, runnable) {
                lemma_updated(v.tasks, i, goals::claimed(v, i, node).tasks[i]);
            }
        },
        Deed::Complete { task, result } => {
            lemma_among_none(v.tasks, new_tasks(v, d));
            if goals::has_task(v.tasks, task) {
                let i = goals::task_at(v.tasks, task);
                lemma_updated(v.tasks, i, done(v, d).tasks[i]);
            }
        },
        Deed::Cancel { goal } => {
            lemma_among_none(v.tasks, new_tasks(v, d));
            if goals::has_goal(v.goals, goal) {
                lemma_failed_tasks(v.tasks, v.goals[goals::goal_at(v.goals, goal)].task_ids);
            }
        },
        Deed::HearTask(t) => {
            lemma_among_none(v.tasks, new_tasks(v, d));
            if goals::has_task(v.tasks, t.id) {
                lemma_updated(v.tasks, goals::task_at(v.tasks, t.id), t);
            } else {
                lemma_pushed(v.tasks, t);
            }
        },
        _ => {
            lemma_among_none(v.tasks, new_tasks(v, d));
        },
    }
}

/// While there are identities enough, no task gives way to a new one.
pub proof fn law_no_task_displaced(v: GoalsV, d: Deed)
    requires
        numbered(v),
        room(v, d),
    ensures
        displaced(v, d) == 0,
{
    let ids = new_tasks(v, d);
    assert forall|i: int| 0 <= i < v.tasks.len() implies !ids.contains(
        (#[trigger] v.tasks[i]).id,
    ) by {
        assert forall|j: int| 0 <= j < ids.len() implies #[trigger] ids[j] >= v.counter by {}
        assert(v.tasks[i].id < v.counter);
    }
    lemma_among_none(v.tasks, ids);
}

/// The sum of what deeds change, one after the other.
pub open spec fn all_changes(v: GoalsV, ds: Seq<Deed>) -> int
    decreases ds.len(),
{
    if ds.len() == 0 {
        0
    } else {
        all_changes(v, ds.drop_last()) + waiting_change(all_done(v, ds.drop_last()), ds.last())
    }
}

/// From an empty registry on, the number of waiting tasks is the sum of what the deeds changed.
pub proof fn law_waiting_tasks_add_up(v: GoalsV, ds: Seq<Deed>)
    requires
        v.goals.len() == 0,
        v.tasks.len() == 0,
        all_room(v, ds),
    ensures
        waiting(all_done(v, ds)) == all_changes(v, ds),
    decreases ds.len(),
{
    if ds.len() > 0 {
        let before = all_done(v, ds.drop_last());
        law_waiting_tasks_add_up(v, ds.drop_last());
        law_registry_always_numbered(v, ds.drop_last());
        law_waiting_tasks(before, ds.last());
        law_no_task_displaced(before, ds.last());
    }
}

} // verus!
