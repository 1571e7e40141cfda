use flt::tasks::{EngineTask, TaskRunner};

#[test]
fn task_in_the_future_waits_and_runs_once_when_due() {
    let mut runner = TaskRunner::new();
    runner.post_task(EngineTask::new(100, "a"));
    assert!(runner.take_expired_tasks(99).is_empty());
    assert_eq!(runner.len(), 1);
    let due = runner.take_expired_tasks(100);
    assert_eq!(due.len(), 1);
    assert_eq!(due[0].target_time_nanos(), 100);
    assert_eq!(runner.len(), 0);
    assert!(runner.take_expired_tasks(1000).is_empty());
}

#[test]
fn expired_and_deferred_tasks_keep_their_order() {
    let mut runner = TaskRunner::new();
    runner.post_task(EngineTask::new(5, 1));
    runner.post_task(EngineTask::new(50, 2));
    runner.post_task(EngineTask::new(3, 3));
    runner.post_task(EngineTask::new(70, 4));
    let due: Vec<i32> = runner.take_expired_tasks(10).into_iter().map(|t| t.into_task()).collect();
    assert_eq!(due, vec![1, 3]);
    let later: Vec<i32> = runner.take_expired_tasks(100).into_iter().map(|t| t.into_task()).collect();
    assert_eq!(later, vec![2, 4]);
}

#[test]
fn can_run_now_compares_with_the_clock() {
    let task = EngineTask::new(10, ());
    assert!(!task.can_run_now(9));
    assert!(task.can_run_now(10));
    assert!(task.can_run_now(11));
}

#[test]
fn unrun_tasks_go_back_to_the_front() {
    let mut runner = TaskRunner::new();
    runner.post_task(EngineTask::new(1, 1));
    runner.post_task(EngineTask::new(2, 2));
    runner.post_task(EngineTask::new(50, 3));
    let mut due = runner.take_expired_tasks(10).into_iter();
    assert_eq!(due.next().map(|t| t.into_task()), Some(1));
    runner.requeue_front(due.collect());
    let order: Vec<i32> = runner.take_expired_tasks(100).into_iter().map(|t| t.into_task()).collect();
    assert_eq!(order, vec![2, 3]);
}
