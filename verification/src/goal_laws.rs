//! What the deeds of the registry come to: who gets which task, and how a goal ends.

use crate::goals;
use crate::goals::{GoalStatus, GoalV, GoalsV, ResultV, TaskStatus, TaskV};
use crate::num;
use crate::order;
use crate::registry;
use crate::text;
use vstd::prelude::*;

verus! {

proof fn lemma_task_slot(s: Seq<TaskV>, i: int)
    requires
        order::distinct(goals::task_ids(s)),
        0 <= i < s.len(),
    ensures
        goals::has_task(s, s[i].id),
        goals::task_at(s, s[i].id) == i,
{
    order::lemma_at_unique(goals::task_ids(s), i);
}

proof fn lemma_goal_slot(s: Seq<GoalV>, i: int)
    requires
        order::distinct(goals::goal_ids(s)),
        0 <= i < s.len(),
    ensures
        goals::has_goal(s, s[i].id),
        goals::goal_at(s, s[i].id) == i,
{
    order::lemma_at_unique(goals::goal_ids(s), i);
}

proof fn lemma_task_known(s: Seq<TaskV>, id: u64)
    ensures
        goals::has_task(s, id) ==> s[goals::task_at(s, id)].id == id,
        !goals::has_task(s, id) ==> forall|j: int| 0 <= j < s.len() ==> (#[trigger] s[j]).id != id,
{
    order::lemma_at(goals::task_ids(s), id);
    if goals::has_task(s, id) {
        assert(goals::task_ids(s)[goals::task_at(s, id)] == id);
    } else {
        assert forall|j: int| 0 <= j < s.len() implies (#[trigger] s[j]).id != id by {
            assert(goals::task_ids(s)[j] != id);
        }
    }
}

proof fn lemma_goal_known(s: Seq<GoalV>, id: u64)
    ensures
        goals::has_goal(s, id) ==> s[goals::goal_at(s, id)].id == id,
        !goals::has_goal(s, id) ==> forall|j: int| 0 <= j < s.len() ==> (#[trigger] s[j]).id != id,
{
    order::lemma_at(goals::goal_ids(s), id);
    if goals::has_goal(s, id) {
        assert(goals::goal_ids(s)[goals::goal_at(s, id)] == id);
    } else {
        assert forall|j: int| 0 <= j < s.len() implies (#[trigger] s[j]).id != id by {
            assert(goals::goal_ids(s)[j] != id);
        }
    }
}

// ---------------------------------------------------------------------------
// The end of a task
// ---------------------------------------------------------------------------

/// A task that ends with a result is done if the result is a success and failed if it is not; one
/// that ends without a result is done. The result is kept, and no other task changes.
pub proof fn law_result_decides_task(v: GoalsV, i: int, result: Option<ResultV>)
    requires
        goals::goals_wf(v),
        0 <= i < v.tasks.len(),
    ensures
        ({
            let w = goals::completed(v, v.tasks[i].id, result);
            &&& w.tasks.len() == v.tasks.len()
            &&& result matches Some(r) ==> (w.tasks[i].status == TaskStatus::Done <==> r.success)
            &&& result matches Some(r) ==> (w.tasks[i].status == TaskStatus::Failed <==> !r.success)
            &&& result.is_none() ==> w.tasks[i].status == TaskStatus::Done
            &&& w.tasks[i] == (TaskV { status: w.tasks[i].status, result, ..v.tasks[i] })
            &&& forall|j: int|
                0 <= j < v.tasks.len() && j != i ==> #[trigger] w.tasks[j] == v.tasks[j]
            &&& w.counter == v.counter
        }),
{
    lemma_task_slot(v.tasks, i);
}

/// The end of a task that nobody knows changes nothing.
pub proof fn law_unknown_task_ends_in_nothing(v: GoalsV, id: u64, result: Option<ResultV>)
    requires
        forall|j: int| 0 <= j < v.tasks.len() ==> (#[trigger] v.tasks[j]).id != id,
    ensures
        goals::completed(v, id, result) == v,
{
    lemma_task_known(v.tasks, id);
}

/// A goal ends with the last of its tasks. While one of them waits or runs, it stays as it is; once
/// none does, it is completed if all are done and failed if one has failed. Nothing but its status
/// changes, and no other goal.
pub proof fn law_goal_ends_with_its_tasks(v: GoalsV, i: int, result: Option<ResultV>, g: int)
    requires
        goals::goals_wf(v),
        0 <= i < v.tasks.len(),
        0 <= g < v.goals.len(),
        v.goals[g].id == v.tasks[i].goal_id,
    ensures
        ({
            let w = goals::completed(v, v.tasks[i].id, result);
            let ids = v.goals[g].task_ids;
            let open = exists|j: int|
                0 <= j < w.tasks.len() && ids.contains((#[trigger] w.tasks[j]).id) && (
                w.tasks[j].status == TaskStatus::Waiting || w.tasks[j].status
                    == TaskStatus::Running);
            let bad = exists|j: int|
                0 <= j < w.tasks.len() && ids.contains((#[trigger] w.tasks[j]).id)
                    && w.tasks[j].status == TaskStatus::Failed;
            &&& w.goals.len() == v.goals.len()
            &&& open ==> w.goals == v.goals
            &&& !open && bad ==> w.goals[g].status == GoalStatus::Failed
            &&& !open && !bad ==> w.goals[g].status == GoalStatus::Completed
            &&& w.goals[g] == (GoalV { status: w.goals[g].status, ..v.goals[g] })
            &&& forall|j: int|
                0 <= j < v.goals.len() && j != g ==> #[trigger] w.goals[j] == v.goals[j]
        }),
{
    lemma_task_slot(v.tasks, i);
    lemma_goal_slot(v.goals, g);
    let w = goals::completed(v, v.tasks[i].id, result);
    let s = w.tasks;
    let ids = v.goals[g].task_ids;
    assert(goals::task_ids(s) =~= goals::task_ids(v.tasks));
    assert forall|k: int| 0 <= k < ids.len() && goals::has_task(s, #[trigger] ids[k]) implies {
        let j = goals::task_at(s, ids[k]);
        0 <= j < s.len() && ids.contains(s[j].id)
    } by {
        lemma_task_known(s, ids[k]);
    }
    assert forall|j: int| 0 <= j < s.len() && ids.contains((#[trigger] s[j]).id) implies {
        &&& exists|k: int| 0 <= k < ids.len() && (#[trigger] ids[k]) == s[j].id
        &&& goals::has_task(s, s[j].id)
        &&& goals::task_at(s, s[j].id) == j
    } by {
        lemma_task_slot(s, j);
        let k = choose|k: int| 0 <= k < ids.len() && ids[k] == s[j].id;
        assert(ids[k] == s[j].id);
    }
    let open = exists|j: int|
        0 <= j < s.len() && ids.contains((#[trigger] s[j]).id) && (s[j].status
            == TaskStatus::Waiting || s[j].status == TaskStatus::Running);
    if open {
        let j = choose|j: int|
            0 <= j < s.len() && ids.contains((#[trigger] s[j]).id) && (s[j].status
                == TaskStatus::Waiting || s[j].status == TaskStatus::Running);
        let k = choose|k: int| 0 <= k < ids.len() && (#[trigger] ids[k]) == s[j].id;
        assert(!goals::settled(s, ids[k]));
        assert(!goals::all_settled(s, ids));
    } else {
        assert forall|k: int| 0 <= k < ids.len() implies goals::settled(s, #[trigger] ids[k]) by {
            if goals::has_task(s, ids[k]) {
                let j = goals::task_at(s, ids[k]);
                assert(ids.contains(s[j].id));
            }
        }
        assert(goals::all_settled(s, ids));
        if exists|j: int|
            0 <= j < s.len() && ids.contains((#[trigger] s[j]).id) && s[j].status
                == TaskStatus::Failed {
            let j = choose|j: int|
                0 <= j < s.len() && ids.contains((#[trigger] s[j]).id) && s[j].status
                    == TaskStatus::Failed;
            let k = choose|k: int| 0 <= k < ids.len() && (#[trigger] ids[k]) == s[j].id;
            assert(!goals::succeeded(s, ids[k]));
            assert(!goals::all_succeeded(s, ids));
        } else {
            assert forall|k: int| 0 <= k < ids.len() implies goals::succeeded(
                s,
                #[trigger] ids[k],
            ) by {
                if goals::has_task(s, ids[k]) {
                    let j = goals::task_at(s, ids[k]);
                    assert(ids.contains(s[j].id));
                }
            }
            assert(goals::all_succeeded(s, ids));
        }
    }
}

/// A task that ends without success never completes its goal: once none of the goal's tasks is open,
/// the goal has failed.
pub proof fn law_failure_is_not_completion(v: GoalsV, i: int, r: ResultV, g: int)
    requires
        goals::goals_wf(v),
        0 <= i < v.tasks.len(),
        0 <= g < v.goals.len(),
        v.goals[g].id == v.tasks[i].goal_id,
        v.goals[g].task_ids.contains(v.tasks[i].id),
        !r.success,
    ensures
        ({
            let w = goals::completed(v, v.tasks[i].id, Some(r));
            w.goals[g].status == GoalStatus::Failed || w.goals == v.goals
        }),
{
    law_result_decides_task(v, i, Some(r));
    law_goal_ends_with_its_tasks(v, i, Some(r), g);
    let w = goals::completed(v, v.tasks[i].id, Some(r));
    assert(w.tasks[i].id == v.tasks[i].id);
}

/// Cancelling a goal fails it, and with it every task of it that is not done. What is done stays
/// done, and nothing else changes.
pub proof fn law_cancelling_fails_what_is_left(v: GoalsV, g: int)
    requires
        goals::goals_wf(v),
        0 <= g < v.goals.len(),
    ensures
        ({
            let w = goals::cancelled(v, v.goals[g].id);
            &&& w.goals == v.goals.update(g, GoalV { status: GoalStatus::Failed, ..v.goals[g] })
            &&& w.tasks.len() == v.tasks.len() && w.counter == v.counter
            &&& forall|j: int|
                0 <= j < v.tasks.len() ==> {
                    &&& v.tasks[j].status == TaskStatus::Done || !v.goals[g].task_ids.contains(
                        v.tasks[j].id,
                    ) ==> #[trigger] w.tasks[j] == v.tasks[j]
                    &&& v.tasks[j].status != TaskStatus::Done && v.goals[g].task_ids.contains(
                        v.tasks[j].id,
                    ) ==> w.tasks[j] == (TaskV { status: TaskStatus::Failed, ..v.tasks[j] })
                }
        }),
{
    lemma_goal_slot(v.goals, g);
}

/// A change of priority changes the priority of one goal and nothing else.
pub proof fn law_steering_sets_priority(v: GoalsV, g: int, priority: i64)
    requires
        goals::goals_wf(v),
        0 <= g < v.goals.len(),
    ensures
        goals::steered(v, v.goals[g].id, priority) == (GoalsV {
            goals: v.goals.update(g, GoalV { priority, ..v.goals[g] }),
            ..v
        }),
{
    lemma_goal_slot(v.goals, g);
}

// ---------------------------------------------------------------------------
// Claims
// ---------------------------------------------------------------------------

/// True of a task that waits, whose goal `g` is known and which, if asked for, can be run: it has
/// code of its own or its goal has.
pub open spec fn free(v: GoalsV, i: int, g: int, runnable: bool) -> bool {
    &&& 0 <= i < v.tasks.len() && 0 <= g < v.goals.len()
    &&& v.tasks[i].status == TaskStatus::Waiting
    &&& v.goals[g].id == v.tasks[i].goal_id
    &&& runnable ==> v.tasks[i].code.is_some() || v.goals[g].code.is_some()
}

proof fn lemma_free(v: GoalsV, i: int, g: int, runnable: bool)
    requires
        goals::goals_wf(v),
        free(v, i, g, runnable),
    ensures
        goals::claimable(v, i, runnable),
        goals::task_priority(v, i) == v.goals[g].priority,
{
    lemma_goal_slot(v.goals, g);
}

proof fn lemma_first_best(v: GoalsV, n: int, runnable: bool, i: int)
    requires
        0 <= i < n,
        goals::claimable(v, i, runnable),
    ensures
        goals::best(v, n, runnable) matches Some(b) && 0 <= b < n && (goals::task_priority(v, i)
            < goals::task_priority(v, b) || goals::task_priority(v, i) == goals::task_priority(v, b)
            && b <= i),
    decreases n,
{
    goals::law_best_is_highest(v, n - 1, runnable);
    if i < n - 1 {
        lemma_first_best(v, n - 1, runnable, i);
    }
}

/// A claim takes a free task whose goal has the highest priority, and of those the first. It takes
/// one if there is any.
pub proof fn law_claim_takes_the_most_urgent(v: GoalsV, runnable: bool, i: int, g: int)
    requires
        goals::goals_wf(v),
        free(v, i, g, runnable),
    ensures
        registry::claim_of(v, runnable) matches Some(b) && exists|h: int|
            #[trigger] free(v, b, h, runnable) && (v.goals[h].priority > v.goals[g].priority
                || v.goals[h].priority == v.goals[g].priority && b <= i),
{
    let n = v.tasks.len() as int;
    lemma_free(v, i, g, runnable);
    lemma_first_best(v, n, runnable, i);
    goals::law_best_is_highest(v, n, runnable);
    let b = registry::claim_of(v, runnable)->0;
    let h = goals::goal_at(v.goals, v.tasks[b].goal_id);
    lemma_goal_known(v.goals, v.tasks[b].goal_id);
    assert(free(v, b, h, runnable));
}

/// A claim that takes a task hands it to the node and makes its goal active if it was pending.
/// Nothing else changes.
pub proof fn law_claim_hands_over(v: GoalsV, runnable: bool, node: Seq<u8>)
    requires
        goals::goals_wf(v),
    ensures
        registry::claim_of(v, runnable) matches Some(b) ==> {
            let w = goals::claimed(v, b, node);
            &&& 0 <= b < v.tasks.len() && v.tasks[b].status == TaskStatus::Waiting
            &&& w.tasks == v.tasks.update(
                b,
                TaskV { assigned_to: Some(node), status: TaskStatus::Running, ..v.tasks[b] },
            )
            &&& w.goals.len() == v.goals.len() && w.counter == v.counter
            &&& forall|g: int|
                0 <= g < v.goals.len() ==> #[trigger] w.goals[g] == (if v.goals[g].id
                    == v.tasks[b].goal_id && v.goals[g].status == GoalStatus::Pending {
                    GoalV { status: GoalStatus::Active, ..v.goals[g] }
                } else {
                    v.goals[g]
                })
        },
{
    goals::law_best_is_highest(v, v.tasks.len() as int, runnable);
    if let Some(b) = registry::claim_of(v, runnable) {
        let id = v.tasks[b].goal_id;
        lemma_goal_known(v.goals, id);
        let h = goals::goal_at(v.goals, id);
        assert forall|g: int| 0 <= g < v.goals.len() && g != h implies (#[trigger] v.goals[g]).id
            != id by {
            if v.goals[g].id == id {
                lemma_goal_slot(v.goals, g);
            }
        }
    }
}

/// A task runs its own code if it has any, else that of its goal.
pub proof fn law_own_code_first(v: GoalsV, t: TaskV, g: int)
    requires
        goals::goals_wf(v),
        0 <= g < v.goals.len(),
        v.goals[g].id == t.goal_id,
    ensures
        t.code.is_some() ==> goals::code_of(v, t) == t.code,
        t.code.is_none() ==> goals::code_of(v, t) == v.goals[g].code,
{
    lemma_goal_slot(v.goals, g);
}

// ---------------------------------------------------------------------------
// New goals and tasks
// ---------------------------------------------------------------------------

proof fn lemma_new(v: GoalsV, id: u64)
    requires
        registry::numbered(v),
        id >= v.counter,
    ensures
        !goals::has_goal(v.goals, id),
        !goals::has_task(v.tasks, id),
{
    lemma_goal_known(v.goals, id);
    lemma_task_known(v.tasks, id);
    if goals::has_goal(v.goals, id) {
        assert(v.goals[goals::goal_at(v.goals, id)].id < v.counter);
    }
    if goals::has_task(v.tasks, id) {
        assert(v.tasks[goals::task_at(v.tasks, id)].id < v.counter);
    }
}

/// A new goal is pending and has one task, which waits, belongs to it and does the same. Both come
/// last, with the next two identities; what was there stays.
pub proof fn law_goal_comes_with_a_task(
    v: GoalsV,
    description: Seq<char>,
    priority: i64,
    creator: Seq<u8>,
    code: Option<Seq<char>>,
    now: u64,
)
    requires
        registry::numbered(v),
        v.counter + 2 <= u64::MAX,
    ensures
        ({
            let w = goals::created(v, description, priority, creator, code, now);
            let g = w.goals.last();
            let t = w.tasks.last();
            &&& w.goals == v.goals.push(g) && w.tasks == v.tasks.push(t)
            &&& g.id == v.counter && t.id == v.counter + 1 && w.counter == v.counter + 2
            &&& g.status == GoalStatus::Pending && t.status == TaskStatus::Waiting
            &&& g.task_ids == seq![t.id] && t.goal_id == g.id
            &&& g.description == description && t.description == description
            &&& g.priority == priority && g.creator == creator && g.code == code
            &&& t.assigned_to.is_none() && t.result.is_none() && t.code.is_none()
            &&& g.created_at == now && t.created_at == now
        }),
{
    lemma_new(v, v.counter);
    lemma_new(v, (v.counter + 1) as u64);
}

/// A task that is added to a goal waits, comes last and is the last of the goal's tasks. A goal
/// without code takes over that of the task.
pub proof fn law_task_joins_goal(
    v: GoalsV,
    g: int,
    description: Seq<char>,
    code: Option<Seq<char>>,
    now: u64,
)
    requires
        goals::goals_wf(v),
        registry::numbered(v),
        v.counter + 1 <= u64::MAX,
        0 <= g < v.goals.len(),
    ensures
        ({
            let w = goals::with_subtask(v, v.goals[g].id, description, code, now);
            let t = w.tasks.last();
            &&& w.tasks == v.tasks.push(t) && w.counter == v.counter + 1
            &&& t.id == v.counter && t.goal_id == v.goals[g].id && t.status == TaskStatus::Waiting
            &&& t.description == description && t.code == code && t.created_at == now
            &&& t.assigned_to.is_none() && t.result.is_none()
            &&& w.goals.len() == v.goals.len()
            &&& w.goals[g].task_ids == v.goals[g].task_ids.push(t.id)
            &&& v.goals[g].code.is_some() ==> w.goals[g].code == v.goals[g].code
            &&& v.goals[g].code.is_none() ==> w.goals[g].code == code
            &&& w.goals[g].status == v.goals[g].status && w.goals[g].priority
                == v.goals[g].priority
            &&& forall|j: int|
                0 <= j < v.goals.len() && j != g ==> #[trigger] w.goals[j] == v.goals[j]
        }),
{
    lemma_goal_slot(v.goals, g);
    lemma_new(v, v.counter);
}

/// The ranges of a split: `n + 1` bounds from 0 to the total, all but the last range of the same
/// size, which is the total divided by `n`.
pub open spec fn even_bounds(bounds: Seq<int>, total: int, n: int) -> bool {
    &&& bounds.len() == n + 1
    &&& bounds[0] == 0
    &&& bounds[n] == total
    &&& forall|k: int| 0 <= k < n - 1 ==> #[trigger] bounds[k + 1] - bounds[k] == total / n
}

/// The code of a part is that of the goal with the bounds of its range before it.
pub open spec fn ranged(from: int, to: int, code: Seq<char>) -> Seq<char> {
    text::dec_int(from) + " "@ + text::dec_int(to) + " "@ + code
}

proof fn lemma_parts(
    v: GoalsV,
    goal: u64,
    total: int,
    k: int,
    n: int,
    code: Seq<char>,
    now: u64,
    bounds: Seq<int>,
)
    requires
        registry::numbered(v),
        0 <= k <= n,
        n >= 1,
        total >= 0,
        v.counter + k <= u64::MAX,
        even_bounds(bounds, total, n),
        forall|i: int| 0 <= i < n ==> #[trigger] bounds[i] == i * (total / n),
    ensures
        ({
            let (w, ids) = goals::parts(v, goal, total, k, n, code, now);
            &&& registry::numbered(w)
            &&& w.counter == v.counter + k && w.goals == v.goals
            &&& w.tasks.len() == v.tasks.len() + k && w.tasks.take(v.tasks.len() as int) == v.tasks
            &&& ids.len() == k
            &&& forall|i: int|
                #![trigger w.tasks[v.tasks.len() + i]]
                0 <= i < k ==> {
                    let t = w.tasks[v.tasks.len() + i];
                    &&& t.id == v.counter + i && ids[i] == t.id && t.goal_id == goal
                    &&& t.status == TaskStatus::Waiting && t.assigned_to.is_none()
                    &&& t.code == Some(ranged(bounds[i], bounds[i + 1], code))
                }
        }),
    decreases k,
{
    if k > 0 {
        lemma_parts(v, goal, total, k - 1, n, code, now, bounds);
        let (w, ids) = goals::parts(v, goal, total, k - 1, n, code, now);
        let (x, jds) = goals::parts(v, goal, total, k, n, code, now);
        lemma_new(w, w.counter);
        let chunk = num::quotient(total, n);
        let part = goals::part_code(total, chunk, k - 1, n, code);
        assert(chunk == total / n);
        assert(goals::part_start(chunk, k - 1) == bounds[k - 1]);
        assert(goals::part_end(total, chunk, k - 1, n) == bounds[k]) by {
            if k < n {
                assert(bounds[(k - 1) + 1] - bounds[k - 1] == total / n);
            }
        }
        assert(part == ranged(bounds[k - 1], bounds[k], code));
        assert(x.tasks == w.tasks.push(x.tasks.last()));
        assert(x.tasks.take(v.tasks.len() as int) =~= w.tasks.take(v.tasks.len() as int));
        assert forall|i: int| #![trigger x.tasks[v.tasks.len() + i]] 0 <= i < k implies {
            let t = x.tasks[v.tasks.len() + i];
            &&& t.id == v.counter + i && jds[i] == t.id && t.goal_id == goal
            &&& t.status == TaskStatus::Waiting && t.assigned_to.is_none()
            &&& t.code == Some(ranged(bounds[i], bounds[i + 1], code))
        } by {
            if i < k - 1 {
                assert(x.tasks[v.tasks.len() + i] == w.tasks[v.tasks.len() + i]);
                assert(jds[i] == ids[i]);
            }
        }
    } else {
        assert(v.tasks.take(v.tasks.len() as int) =~= v.tasks);
    }
}

/// A split of a total into `n` parts makes one goal with `n` waiting tasks. Each task has the code
/// with the bounds of its range before it; the ranges follow each other from 0 to the total, and all
/// but the last have the size of the total divided by `n`.
pub proof fn law_split_shares_out(
    v: GoalsV,
    total: int,
    n: int,
    code: Seq<char>,
    priority: i64,
    creator: Seq<u8>,
    now: u64,
)
    requires
        registry::numbered(v),
        n >= 1,
        total >= 0,
        v.counter + 1 + n <= u64::MAX,
    ensures
        ({
            let w = goals::with_split(v, total, n, code, priority, creator, now);
            let g = w.goals.last();
            &&& w.goals == v.goals.push(g)
            &&& g.id == v.counter && g.priority == priority && g.creator == creator
            &&& g.status == GoalStatus::Pending && g.task_ids.len() == n
            &&& w.tasks.len() == v.tasks.len() + n && w.tasks.take(v.tasks.len() as int) == v.tasks
            &&& exists|bounds: Seq<int>| #[trigger]
                even_bounds(bounds, total, n) && forall|i: int|
                    #![trigger w.tasks[v.tasks.len() + i]]
                    0 <= i < n ==> {
                        let t = w.tasks[v.tasks.len() + i];
                        &&& t.id == g.task_ids[i] && t.goal_id == g.id
                        &&& t.status == TaskStatus::Waiting && t.assigned_to.is_none()
                        &&& t.code == Some(ranged(bounds[i], bounds[i + 1], code))
                    }
        }),
{
    let chunk = total / n;
    let bounds = Seq::new(
        (n + 1) as nat,
        |i: int|
            if i < n {
                i * chunk
            } else {
                total
            },
    );
    assert(0 * chunk == 0);
    assert forall|k: int| 0 <= k < n - 1 implies #[trigger] bounds[k + 1] - bounds[k] == total
        / n by {
        assert((k + 1) * chunk == k * chunk + chunk) by (nonlinear_arith);
    }
    assert(even_bounds(bounds, total, n));
    let u = GoalsV { counter: (v.counter + 1) as u64, ..v };
    assert(registry::numbered(u));
    lemma_parts(u, v.counter, total, n, n, code, now, bounds);
    lemma_new(v, v.counter);
}

/// A fork into `n` adds `n - 1` waiting tasks to a goal, which run the goal's code, behind the tasks
/// that it has.
pub proof fn law_fork_adds_tasks(v: GoalsV, g: int, k: int, n: int, code: Seq<char>, now: u64)
    requires
        goals::goals_wf(v),
        registry::numbered(v),
        0 <= g < v.goals.len(),
        k >= 1,
        v.counter + (k - 1) <= u64::MAX,
    ensures
        ({
            let w = goals::forked(v, v.goals[g].id, k, n, code, now);
            &&& registry::numbered(w) && goals::goals_wf(w)
            &&& w.counter == v.counter + (k - 1)
            &&& w.goals.len() == v.goals.len()
            &&& w.tasks.len() == v.tasks.len() + (k - 1) && w.tasks.take(v.tasks.len() as int)
                == v.tasks
            &&& w.goals[g] == (GoalV { task_ids: w.goals[g].task_ids, ..v.goals[g] })
            &&& w.goals[g].task_ids.len() == v.goals[g].task_ids.len() + (k - 1)
            &&& w.goals[g].task_ids.take(v.goals[g].task_ids.len() as int) == v.goals[g].task_ids
            &&& forall|j: int|
                0 <= j < v.goals.len() && j != g ==> #[trigger] w.goals[j] == v.goals[j]
            &&& forall|i: int|
                #![trigger w.tasks[v.tasks.len() + i]]
                0 <= i < k - 1 ==> {
                    let t = w.tasks[v.tasks.len() + i];
                    &&& t.id == w.goals[g].task_ids[v.goals[g].task_ids.len() + i]
                    &&& t.goal_id == v.goals[g].id && t.status == TaskStatus::Waiting
                    &&& t.code.is_none() && t.assigned_to.is_none()
                }
        }),
    decreases k,
{
    let id = v.goals[g].id;
    let r = v.tasks.len() as int;
    let h = v.goals[g].task_ids.len() as int;
    lemma_goal_slot(v.goals, g);
    if k > 1 {
        law_fork_adds_tasks(v, g, k - 1, n, code, now);
        registry::lemma_forked(v, id, k, n, code, now);
        let w = goals::forked(v, id, k - 1, n, code, now);
        let x = goals::forked(v, id, k, n, code, now);
        lemma_new(w, w.counter);
        lemma_goal_slot(w.goals, g);
        assert(x.tasks.take(r) =~= w.tasks.take(r));
        assert(x.goals[g].task_ids.take(h) =~= w.goals[g].task_ids.take(h));
        assert forall|i: int| #![trigger x.tasks[r + i]] 0 <= i < k - 1 implies {
            let t = x.tasks[r + i];
            &&& t.id == x.goals[g].task_ids[h + i]
            &&& t.goal_id == id && t.status == TaskStatus::Waiting
            &&& t.code.is_none() && t.assigned_to.is_none()
        } by {
            if i < k - 2 {
                assert(x.tasks[r + i] == w.tasks[r + i]);
                assert(x.goals[g].task_ids[h + i] == w.goals[g].task_ids[h + i]);
            }
        }
        assert forall|j: int| 0 <= j < x.goals.len() implies (#[trigger] x.goals[j]).id
            < x.counter by {
            assert(w.goals[j].id < w.counter);
        }
    } else {
        assert(v.tasks.take(r) =~= v.tasks);
        assert(v.goals[g].task_ids.take(h) =~= v.goals[g].task_ids);
    }
}

// ---------------------------------------------------------------------------
// Counting and collecting
// ---------------------------------------------------------------------------

/// The number of tasks in a status is the number of those tasks that have it, and every task has
/// one.
pub proof fn law_tasks_are_counted(s: Seq<TaskV>)
    ensures
        goals::tasks_in(s, TaskStatus::Waiting) == s.filter(
            |t: TaskV| t.status == TaskStatus::Waiting,
        ).len(),
        goals::tasks_in(s, TaskStatus::Running) == s.filter(
            |t: TaskV| t.status == TaskStatus::Running,
        ).len(),
        goals::tasks_in(s, TaskStatus::Done) == s.filter(
            |t: TaskV| t.status == TaskStatus::Done,
        ).len(),
        goals::tasks_in(s, TaskStatus::Failed) == s.filter(
            |t: TaskV| t.status == TaskStatus::Failed,
        ).len(),
        goals::tasks_in(s, TaskStatus::Waiting) + goals::tasks_in(s, TaskStatus::Running)
            + goals::tasks_in(s, TaskStatus::Done) + goals::tasks_in(s, TaskStatus::Failed)
            == s.len(),
    decreases s.len(),
{
    reveal(Seq::filter);
    if s.len() > 0 {
        law_tasks_are_counted(s.drop_last());
    }
}

/// The same of goals.
pub proof fn law_goals_are_counted(s: Seq<GoalV>)
    ensures
        goals::goals_in(s, GoalStatus::Pending) == s.filter(
            |g: GoalV| g.status == GoalStatus::Pending,
        ).len(),
        goals::goals_in(s, GoalStatus::Active) == s.filter(
            |g: GoalV| g.status == GoalStatus::Active,
        ).len(),
        goals::goals_in(s, GoalStatus::Completed) == s.filter(
            |g: GoalV| g.status == GoalStatus::Completed,
        ).len(),
        goals::goals_in(s, GoalStatus::Failed) == s.filter(
            |g: GoalV| g.status == GoalStatus::Failed,
        ).len(),
        goals::goals_in(s, GoalStatus::Pending) + goals::goals_in(s, GoalStatus::Active)
            + goals::goals_in(s, GoalStatus::Completed) + goals::goals_in(s, GoalStatus::Failed)
            == s.len(),
        goals::goals_with_code(s) == s.filter(|g: GoalV| g.code.is_some()).len(),
    decreases s.len(),
{
    reveal(Seq::filter);
    if s.len() > 0 {
        law_goals_are_counted(s.drop_last());
    }
}

proof fn lemma_results(tasks: Seq<TaskV>, ids: Seq<u64>)
    requires
        forall|k: int| 0 <= k < ids.len() ==> goals::has_task(tasks, #[trigger] ids[k]),
    ensures
        goals::results_of(tasks, ids).len() == ids.len(),
        forall|k: int|
            0 <= k < ids.len() ==> #[trigger] goals::results_of(tasks, ids)[k] == (
                ids[k],
                tasks[goals::task_at(tasks, ids[k])].result,
            ),
    decreases ids.len(),
{
    if ids.len() > 0 {
        assert forall|k: int| 0 <= k < ids.drop_last().len() implies goals::has_task(
            tasks,
            #[trigger] ids.drop_last()[k],
        ) by {
            assert(goals::has_task(tasks, ids[k]));
        }
        assert(goals::has_task(tasks, ids[ids.len() - 1]));
        lemma_results(tasks, ids.drop_last());
    }
}

/// The results of a goal whose tasks are all known are those of its tasks, one for each, in the
/// order of the tasks.
pub proof fn law_results_in_order(v: GoalsV, g: int, slots: Seq<int>)
    requires
        goals::goals_wf(v),
        0 <= g < v.goals.len(),
        slots.len() == v.goals[g].task_ids.len(),
        forall|k: int|
            0 <= k < slots.len() ==> 0 <= #[trigger] slots[k] < v.tasks.len()
                && v.tasks[slots[k]].id == v.goals[g].task_ids[k],
    ensures
        ({
            let r = goals::goal_results(v, v.goals[g].id);
            &&& r.len() == slots.len()
            &&& forall|k: int|
                0 <= k < slots.len() ==> #[trigger] r[k] == (
                    v.tasks[slots[k]].id,
                    v.tasks[slots[k]].result,
                )
        }),
{
    lemma_goal_slot(v.goals, g);
    let ids = v.goals[g].task_ids;
    assert forall|k: int| 0 <= k < ids.len() implies goals::has_task(v.tasks, #[trigger] ids[k])
        && goals::task_at(v.tasks, ids[k]) == slots[k] by {
        lemma_task_slot(v.tasks, slots[k]);
    }
    lemma_results(v.tasks, ids);
}

/// The further a task is, the higher its number: waiting, running, done, failed, from 0 on. The same
/// holds of goals.
pub proof fn law_statuses_advance()
    ensures
        goals::task_rank(TaskStatus::Waiting) == 0,
        goals::task_rank(TaskStatus::Running) == 1,
        goals::task_rank(TaskStatus::Done) == 2,
        goals::task_rank(TaskStatus::Failed) == 3,
        goals::goal_rank(GoalStatus::Pending) == 0,
        goals::goal_rank(GoalStatus::Active) == 1,
        goals::goal_rank(GoalStatus::Completed) == 2,
        goals::goal_rank(GoalStatus::Failed) == 3,
{
}

/// What a node hears of a task replaces what it knows only if it is further on; else nothing
/// changes. A task that it does not know is added.
pub proof fn law_news_of_a_task(v: GoalsV, t: TaskV)
    requires
        goals::goals_wf(v),
    ensures
        forall|i: int|
            #![trigger v.tasks[i]]
            0 <= i < v.tasks.len() && v.tasks[i].id == t.id ==> goals::merged_task(v, t) == (
            if goals::task_rank(t.status) > goals::task_rank(v.tasks[i].status) {
                GoalsV { tasks: v.tasks.update(i, t), ..v }
            } else {
                v
            }),
        (forall|i: int| 0 <= i < v.tasks.len() ==> (#[trigger] v.tasks[i]).id != t.id) ==> {
            let w = goals::merged_task(v, t);
            &&& w.tasks == v.tasks.push(t) && w.goals == v.goals
            &&& t.id < u64::MAX ==> w.counter > t.id && w.counter >= v.counter
        },
{
    lemma_task_known(v.tasks, t.id);
    assert forall|i: int|
        #![trigger v.tasks[i]]
        0 <= i < v.tasks.len() && v.tasks[i].id == t.id implies goals::merged_task(v, t) == (
    if goals::task_rank(t.status) > goals::task_rank(v.tasks[i].status) {
        GoalsV { tasks: v.tasks.update(i, t), ..v }
    } else {
        v
    }) by {
        lemma_task_slot(v.tasks, i);
    }
}

/// Goals of nodes with different first identities do not meet: they start ten apart, by twelve bits
/// of the node's identity.
pub proof fn law_first_identities_lie_apart(a: Seq<u8>, b: Seq<u8>)
    ensures
        goals::first_id(a) % 10 == 1,
        1 <= goals::first_id(a) <= 40951,
        goals::first_id(a) - goals::first_id(b) == 160 * (a[6] - b[6]) + 10 * (a[7] as int / 16
            - b[7] as int / 16),
{
}

} // verus!
