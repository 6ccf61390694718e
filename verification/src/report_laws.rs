//! What the reports of goals, tasks and watches say.

use crate::features::monitor;
use crate::features::monitor::{SchedV, StatusV};
use crate::goals;
use crate::goals::{GoalStatus, GoalV, GoalsV, ResultV, TaskStatus, TaskV};
use crate::text;
use vstd::prelude::*;

verus! {

/// The workers are the units to which a running task is assigned.
pub proof fn law_workers(s: Seq<TaskV>, id: Seq<u8>)
    ensures
        goals::workers(s).contains(id) <==> exists|i: int|
            0 <= i < s.len() && (#[trigger] s[i]).status == TaskStatus::Running
                && s[i].assigned_to == Some(id),
    decreases s.len(),
{
    if s.len() > 0 {
        let d = s.drop_last();
        law_workers(d, id);
        if exists|i: int|
            0 <= i < s.len() && (#[trigger] s[i]).status == TaskStatus::Running && s[i].assigned_to
                == Some(id) {
            let i = choose|i: int|
                0 <= i < s.len() && (#[trigger] s[i]).status == TaskStatus::Running
                    && s[i].assigned_to == Some(id);
            if i < d.len() {
                assert(d[i] == s[i]);
            }
        }
        if goals::workers(d).contains(id) {
            let i = choose|i: int|
                0 <= i < d.len() && (#[trigger] d[i]).status == TaskStatus::Running
                    && d[i].assigned_to == Some(id);
            assert(s[i] == d[i]);
        }
        assert(s[s.len() - 1] == s.last());
    }
}

/// True if a known task with this identity has this status.
pub open spec fn has_status(tasks: Seq<TaskV>, id: u64, status: TaskStatus) -> bool {
    exists|i: int| 0 <= i < tasks.len() && (#[trigger] tasks[i]).id == id && tasks[i].status == status
}

proof fn lemma_has_status(v: GoalsV, id: u64, status: TaskStatus)
    requires
        goals::goals_wf(v),
    ensures
        has_status(v.tasks, id, status) <==> goals::task_is(v.tasks, id, status),
{
    let k = goals::task_at(v.tasks, id);
    crate::order::lemma_at(goals::task_ids(v.tasks), id);
    if has_status(v.tasks, id, status) {
        let i = choose|i: int|
            0 <= i < v.tasks.len() && (#[trigger] v.tasks[i]).id == id && v.tasks[i].status
                == status;
        assert(goals::task_ids(v.tasks)[i] == id);
        crate::order::lemma_at_unique(goals::task_ids(v.tasks), i);
    }
    if goals::task_is(v.tasks, id, status) {
        assert(goals::task_ids(v.tasks)[k] == v.tasks[k].id);
        assert(v.tasks[k].id == id);
    }
}

/// How many tasks of a goal have a status is counted one by one.
pub proof fn law_tasks_of_a_goal_are_counted(v: GoalsV, ids: Seq<u64>, status: TaskStatus)
    requires
        goals::goals_wf(v),
    ensures
        goals::count_in(v.tasks, ids, status) == ids.filter(
            |id: u64| has_status(v.tasks, id, status),
        ).len(),
    decreases ids.len(),
{
    reveal(Seq::filter);
    if ids.len() > 0 {
        law_tasks_of_a_goal_are_counted(v, ids.drop_last(), status);
        lemma_has_status(v, ids.last(), status);
    }
}

/// The progress of a goal: how many of its tasks are done, out of how many, and how many are running
/// and have failed.
pub proof fn law_progress(v: GoalsV, i: int)
    requires
        goals::goals_wf(v),
        0 <= i < v.goals.len(),
    ensures
        ({
            let g = v.goals[i];
            let n = |s: TaskStatus| g.task_ids.filter(|id: u64| has_status(v.tasks, id, s)).len();
            goals::progress_text(v, g.id) == "goal #"@ + text::dec(g.id as nat) + " ["@
                + goals::goal_label(g.status) + "]: "@ + text::dec(n(TaskStatus::Done)) + "/"@
                + text::dec(g.task_ids.len()) + " done, "@ + text::dec(n(TaskStatus::Running))
                + " running, "@ + text::dec(n(TaskStatus::Failed)) + " failed\n"@
        }),
{
    let g = v.goals[i];
    assert(goals::goal_ids(v.goals)[i] == g.id);
    crate::order::lemma_at_unique(goals::goal_ids(v.goals), i);
    law_tasks_of_a_goal_are_counted(v, g.task_ids, TaskStatus::Done);
    law_tasks_of_a_goal_are_counted(v, g.task_ids, TaskStatus::Running);
    law_tasks_of_a_goal_are_counted(v, g.task_ids, TaskStatus::Failed);
}

/// The report of a registry: goals and tasks in all and by status, and the units at work.
pub proof fn law_report(v: GoalsV)
    ensures
        ({
            let g = |s: GoalStatus| text::dec(v.goals.filter(|x: GoalV| x.status == s).len());
            let t = |s: TaskStatus| text::dec(v.tasks.filter(|x: TaskV| x.status == s).len());
            goals::report_text(v) == "--- mesh progress report ---\n"@ + "goals: "@ + text::dec(
                v.goals.len(),
            ) + " total ("@ + g(GoalStatus::Pending) + " pending, "@ + g(GoalStatus::Active)
                + " active, "@ + g(GoalStatus::Completed) + " completed, "@ + g(GoalStatus::Failed)
                + " failed, "@ + text::dec(v.goals.filter(|x: GoalV| x.code.is_some()).len())
                + " executable)\n"@ + "tasks: "@ + text::dec(v.tasks.len()) + " total ("@ + t(
                TaskStatus::Waiting,
            ) + " waiting, "@ + t(TaskStatus::Running) + " running, "@ + t(TaskStatus::Done)
                + " done, "@ + t(TaskStatus::Failed) + " failed)\n"@ + "workers: "@ + text::dec(
                goals::workers(v.tasks).len(),
            ) + " active units\n"@ + "---\n"@
        }),
{
    crate::goal_laws::law_goals_are_counted(v.goals);
    crate::goal_laws::law_tasks_are_counted(v.tasks);
}

/// The names of the statuses.
pub proof fn law_status_names()
    ensures
        goals::goal_label(GoalStatus::Pending) == "pending"@,
        goals::goal_label(GoalStatus::Active) == "active"@,
        goals::goal_label(GoalStatus::Completed) == "completed"@,
        goals::goal_label(GoalStatus::Failed) == "failed"@,
        goals::task_label(TaskStatus::Waiting) == "waiting"@,
        goals::task_label(TaskStatus::Running) == "running"@,
        goals::task_label(TaskStatus::Done) == "done"@,
        goals::task_label(TaskStatus::Failed) == "failed"@,
{
}

/// The tasks of a unit are those that are assigned to it, each once, in the order in which they are
/// known.
pub proof fn law_tasks_of_a_unit(s: Seq<TaskV>, node: Seq<u8>, n: int)
    requires
        0 <= n <= s.len(),
    ensures
        ({
            let p = goals::assigned(s, node, n);
            &&& forall|k: int|
                0 <= k < p.len() ==> 0 <= #[trigger] p[k] < n && s[p[k]].assigned_to == Some(node)
            &&& forall|j: int, k: int| 0 <= j < k < p.len() ==> #[trigger] p[j] < #[trigger] p[k]
            &&& forall|i: int|
                0 <= i < n && (#[trigger] s[i]).assigned_to == Some(node) ==> p.contains(i)
        }),
    decreases n,
{
    if n > 0 {
        law_tasks_of_a_unit(s, node, n - 1);
        let d = goals::assigned(s, node, n - 1);
        let p = goals::assigned(s, node, n);
        assert forall|i: int|
            0 <= i < n && (#[trigger] s[i]).assigned_to == Some(node) implies p.contains(i) by {
            if i < n - 1 {
                assert(d.contains(i));
                let k = choose|k: int| 0 <= k < d.len() && d[k] == i;
                assert(p[k] == i);
            } else {
                assert(p[p.len() - 1] == i);
            }
        }
    }
}

/// What is said of a result starts with ok exactly if it was a success, else with its error.
pub proof fn law_result_is_told(r: ResultV)
    ensures
        r.success ==> "  status: ok\n"@.is_prefix_of(goals::result_text(r)),
        !r.success ==> "  status: FAILED — "@.is_prefix_of(goals::result_text(r)),
        !r.success && r.error.is_some() ==> ("  status: FAILED — "@ + r.error->0).is_prefix_of(
            goals::result_text(r),
        ),
{
    let t = goals::result_text(r);
    let ok = "  status: ok\n"@;
    let bad = "  status: FAILED — "@;
    assert(r.success ==> ok =~= t.subrange(0, ok.len() as int));
    assert(!r.success ==> bad =~= t.subrange(0, bad.len() as int));
    if !r.success && r.error.is_some() {
        let e = bad + r.error->0;
        assert(e =~= t.subrange(0, e.len() as int));
    }
}

/// The peak of some outcomes is the longest time that one took, and at least 1.
pub proof fn law_peak(s: Seq<StatusV>)
    ensures
        monitor::peak(s) >= 1,
        forall|i: int| 0 <= i < s.len() ==> (#[trigger] s[i]).response_ms <= monitor::peak(s),
        monitor::peak(s) == 1 || exists|i: int|
            0 <= i < s.len() && (#[trigger] s[i]).response_ms == monitor::peak(s),
    decreases s.len(),
{
    if s.len() > 0 {
        let d = s.drop_last();
        law_peak(d);
        assert forall|i: int| 0 <= i < s.len() implies (#[trigger] s[i]).response_ms
            <= monitor::peak(s) by {
            if i < d.len() {
                assert(d[i] == s[i]);
            }
        }
        if monitor::peak(s) != 1 {
            if s.last().response_ms > monitor::peak(d) {
                assert(s[s.len() - 1].response_ms == monitor::peak(s));
            } else {
                let i = choose|i: int|
                    0 <= i < d.len() && (#[trigger] d[i]).response_ms == monitor::peak(d);
                assert(s[i].response_ms == monitor::peak(s));
            }
        }
    }
}

/// The line of bars shows the last eight outcomes, oldest first. The one that took longest has the
/// full bar, one that took no time the lowest.
pub proof fn law_bars(h: Seq<StatusV>, i: int)
    requires
        0 < h.len() <= 8,
        0 <= i < h.len(),
    ensures
        monitor::spark(h).len() == h.len(),
        h[i].response_ms == 0 ==> monitor::spark(h)[i] == '▁',
        h[i].response_ms == monitor::peak(h) ==> monitor::spark(h)[i] == '█',
{
    let p = monitor::peak(h);
    law_peak(h);
    if h[i].response_ms == p {
        assert(p * 7 / p == 7) by (nonlinear_arith)
            requires
                p >= 1,
        ;
    }
    if h[i].response_ms == 0 {
        assert(0int * 7 / p == 0) by (nonlinear_arith)
            requires
                p >= 1,
        ;
    }
}

/// Of many outcomes the last eight are shown.
pub proof fn law_last_eight(h: Seq<StatusV>)
    requires
        h.len() > 8,
    ensures
        monitor::spark(h) == monitor::spark(h.skip(h.len() - 8)),
{
    assert(monitor::spark(h) =~= monitor::spark(h.skip(h.len() - 8)));
}

/// The next run of a schedule comes when its interval is over; one that never ran runs now.
pub proof fn law_next_run(x: SchedV, last: u64, now: u64)
    requires
        last <= now,
    ensures
        x.last_run.is_none() ==> monitor::next_run_text(x, now) == "now"@,
        x.last_run == Some(last) && (now - last) / 1000 < x.interval_secs
            ==> monitor::next_run_text(x, now) == "in "@ + text::dec(
            (x.interval_secs - (now - last) / 1000) as nat,
        ) + "s"@,
        x.last_run == Some(last) && (now - last) / 1000 >= x.interval_secs
            ==> monitor::next_run_text(x, now) == "in "@ + text::dec(0) + "s"@,
{
}

} // verus!
