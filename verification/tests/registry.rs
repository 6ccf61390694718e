//! Goals and tasks.

use unit::goals::{Goal, GoalRegistry, GoalStatus, Task, TaskResult, TaskStatus};

fn ok(stack: Vec<i64>) -> TaskResult {
    TaskResult { stack_snapshot: stack, output: String::new(), success: true, error: None }
}

#[test]
fn a_goal_has_one_task_and_moves_on_with_it() {
    let mut r = GoalRegistry::empty();
    let g = r.create_goal_at("dig".to_string(), 3, [1; 8], None, 50);
    assert_eq!(r.goals[0].task_ids.len(), 1);
    assert!(matches!(r.goals[0].status, GoalStatus::Pending));
    let (t, goal, desc) = r.claim_task([2; 8]).unwrap();
    assert_eq!((goal, desc.as_str()), (g, "dig"));
    assert!(matches!(r.goals[0].status, GoalStatus::Active));
    assert!(r.claim_task([3; 8]).is_none());
    assert!(r.complete_task(t, Some(ok(vec![1]))));
    assert!(matches!(r.goals[0].status, GoalStatus::Completed));
    assert!(!r.complete_task(999_999, None));
}

#[test]
fn the_highest_priority_is_claimed_first() {
    let mut r = GoalRegistry::empty();
    r.create_goal_at("low".to_string(), 1, [1; 8], None, 0);
    r.create_goal_at("high".to_string(), 9, [1; 8], None, 0);
    r.create_goal_at("mid".to_string(), 5, [1; 8], None, 0);
    let order: Vec<String> = (0..3).map(|_| r.claim_task([2; 8]).unwrap().2).collect();
    assert_eq!(order, vec!["high", "mid", "low"]);
}

#[test]
fn only_goals_with_code_can_be_run() {
    let mut r = GoalRegistry::empty();
    r.create_goal_at("think".to_string(), 9, [1; 8], None, 0);
    assert!(r.claim_executable_task([2; 8]).is_none());
    let g = r.create_goal_at("run".to_string(), 1, [1; 8], Some("1 2 +".to_string()), 0);
    let (_, goal, _, code) = r.claim_executable_task([2; 8]).unwrap();
    assert_eq!((goal, code.as_str()), (g, "1 2 +"));
}

#[test]
fn cancelled_goals_fail_and_steered_goals_change_priority() {
    let mut r = GoalRegistry::empty();
    let g = r.create_goal_at("a".to_string(), 1, [1; 8], None, 0);
    assert!(r.steer_goal(g, 8));
    assert_eq!(r.goals[0].priority, 8);
    assert!(r.cancel_goal(g));
    assert!(matches!(r.goals[0].status, GoalStatus::Failed));
    assert!(matches!(r.tasks[0].status, TaskStatus::Failed));
    assert!(!r.cancel_goal(12345));
    assert!(!r.steer_goal(12345, 1));
}

#[test]
fn merging_twice_changes_nothing_more() {
    let mut a = GoalRegistry::empty();
    let g = a.create_goal_at("a".to_string(), 1, [1; 8], Some("5".to_string()), 7);
    let goal = a.goals[0].clone();
    let task = a.tasks[0].clone();
    let mut b = GoalRegistry::empty();
    b.merge_goal(goal.clone());
    b.merge_task(task.clone());
    let once = b.format_report();
    b.merge_goal(goal);
    b.merge_task(task);
    assert_eq!(b.format_report(), once);
    assert_eq!(b.goals.len(), 1);
    assert_eq!(b.goals[0].id, g);
}

#[test]
fn a_stale_task_does_not_turn_the_clock_back() {
    let mut r = GoalRegistry::empty();
    r.create_goal_at("a".to_string(), 1, [1; 8], None, 7);
    let stale: Task = r.tasks[0].clone();
    let (t, _, _) = r.claim_task([2; 8]).unwrap();
    r.complete_task(t, Some(ok(vec![])));
    r.merge_task(stale);
    assert!(matches!(r.tasks[0].status, TaskStatus::Done));
}

#[test]
fn split_covers_everything_once() {
    let mut r = GoalRegistry::empty();
    let g = r.create_split_goal_at(10, 3, "WORK", 4, [1; 8], 0);
    let codes: Vec<String> = r.tasks.iter().map(|t| t.code.clone().unwrap()).collect();
    assert_eq!(r.tasks.len(), 3);
    assert!(r.tasks.iter().all(|t| t.goal_id == g));
    assert_eq!(codes, vec!["0 3 WORK", "3 6 WORK", "6 10 WORK"]);
}

#[test]
fn forks_and_subtasks() {
    let mut r = GoalRegistry::empty();
    let plain = r.create_goal_at("plain".to_string(), 1, [1; 8], None, 0);
    assert!(!r.fork_goal_at(plain, 2, 0));
    let g = r.create_goal_at("run".to_string(), 1, [1; 8], Some("1".to_string()), 0);
    assert!(r.fork_goal_at(g, 2, 0));
    assert_eq!(r.tasks.iter().filter(|t| t.goal_id == g).count(), 2);
    assert_eq!(r.tasks.last().unwrap().description, "fork 2/2: 1");
    assert!(r.create_subtask_at(g, "more".to_string(), Some("2".to_string()), 0).is_some());
    assert!(r.create_subtask_at(777, "more".to_string(), None, 0).is_none());
    assert!(!r.fork_goal_at(777, 2, 0));
}

#[test]
fn report_counts_everything() {
    let mut r = GoalRegistry::empty();
    r.create_goal_at("a".to_string(), 1, [1; 8], Some("1".to_string()), 0);
    r.create_goal_at("b".to_string(), 2, [1; 8], None, 0);
    r.claim_task([2; 8]);
    assert_eq!(
        r.format_report(),
        "--- mesh progress report ---\n\
         goals: 2 total (1 pending, 1 active, 0 completed, 0 failed, 1 executable)\n\
         tasks: 2 total (1 waiting, 1 running, 0 done, 0 failed)\n\
         workers: 1 active units\n---\n"
    );
}

#[test]
fn status_numbers_come_back() {
    for n in 0..4u8 {
        assert_eq!(GoalStatus::from_u8(n).as_u8(), n);
        assert_eq!(TaskStatus::from_u8(n).as_u8(), n);
    }
    assert_eq!(GoalStatus::Completed.label(), "completed");
    assert_eq!(TaskStatus::Running.label(), "running");
}

#[test]
fn goals_with_the_same_identity_are_one() {
    let mut r = GoalRegistry::empty();
    let g = Goal {
        id: 5,
        description: "x".to_string(),
        code: None,
        priority: 1,
        status: GoalStatus::Pending,
        created_at: 0,
        creator: [1; 8],
        task_ids: vec![],
    };
    r.insert_goal(g.clone());
    r.insert_goal(g);
    assert_eq!(r.goals.len(), 1);
}

#[test]
fn operations_at_the_present_time() {
    let mut r = GoalRegistry::empty();
    let g = r.create_split_goal(7, 2, "WORK", 1, [1; 8]);
    assert_eq!(r.task_code(r.tasks[1].id).as_deref(), Some("3 7 WORK"));
    let t = r.create_subtask(g, "more".to_string(), Some("2".to_string())).unwrap();
    assert_eq!(r.task_code(t).as_deref(), Some("2"));
    assert_eq!(r.task_code(9999), None);
    assert!(r.fork_goal(g, 3));
    assert_eq!(r.tasks.len(), 5);
    assert_eq!(r.goals[0].task_ids.len(), 5);
}

#[test]
fn order_of_gossip_does_not_matter() {
    let task = |status: TaskStatus| {
        let mut r = GoalRegistry::empty();
        r.create_goal_at("a".to_string(), 1, [1; 8], Some("1".to_string()), 0);
        let mut t = r.tasks.remove(0);
        t.status = status;
        t
    };
    let mut x = GoalRegistry::empty();
    x.merge_task(task(TaskStatus::Running));
    x.merge_task(task(TaskStatus::Done));
    let mut y = GoalRegistry::empty();
    y.merge_task(task(TaskStatus::Done));
    y.merge_task(task(TaskStatus::Running));
    assert!(matches!(x.tasks[0].status, TaskStatus::Done));
    assert!(matches!(y.tasks[0].status, TaskStatus::Done));
}

#[test]
fn waiting_tasks_are_counted() {
    let mut r = GoalRegistry::empty();
    let g = r.create_goal_at("a".to_string(), 1, [1; 8], Some("1".to_string()), 0);
    assert_eq!(r.pending_task_count(), 1);
    let t = r.create_subtask_at(g, "b".to_string(), None, 0).unwrap();
    assert_eq!(r.pending_task_count(), 2);
    r.create_split_goal_at(10, 3, "W", 1, [1; 8], 0);
    assert_eq!(r.pending_task_count(), 5);
    r.create_split_goal_at(10, 0, "W", 1, [1; 8], 0);
    assert_eq!(r.pending_task_count(), 6);
    assert!(r.claim_task([2; 8]).is_some());
    assert_eq!(r.pending_task_count(), 5);
    assert!(r.steer_goal(g, 9));
    assert_eq!(r.pending_task_count(), 5);
    assert!(r.complete_task(t, None));
    assert_eq!(r.pending_task_count(), 4);
    let mut ids: Vec<u64> = r.goals.iter().map(|g| g.id).chain(r.tasks.iter().map(|t| t.id)).collect();
    ids.sort();
    ids.dedup();
    assert_eq!(ids.len(), r.goals.len() + r.tasks.len());
}

#[test]
fn a_task_gives_way_when_its_identity_comes_again() {
    let mut r = GoalRegistry::empty();
    let g = r.create_goal_at("a".to_string(), 1, [1; 8], Some("1".to_string()), 0);
    assert_eq!(r.pending_task_count(), 1);
    r.id_counter = u64::MAX;
    r.create_goal_at("b".to_string(), 1, [1; 8], None, 0);
    assert_eq!(r.tasks[1].id, 0);
    assert_eq!(r.pending_task_count(), 2);
    assert_eq!(r.id_counter, 1);
    assert_eq!(r.create_subtask_at(g, "c".to_string(), None, 0), Some(1));
    assert_eq!(r.pending_task_count(), 3);
    assert_eq!(r.create_subtask_at(g, "d".to_string(), None, 0), Some(2));
    assert_eq!(r.tasks.len(), 3);
    assert_eq!(r.pending_task_count(), 3);
    assert_eq!(r.tasks[0].description, "d");
}
