use tickbox::event::Event;
use tickbox::pattern::Pattern;
use tickbox::scheduler::{initial_status_events, policy_of, Scheduler, Step, SyncPolicy};
use tickbox::task::{State, Task};

fn task(n: usize, id: usize, name: &str) -> Task {
    Task { n, id, name: name.to_string(), cmd: String::new(), state: State::Pending }
}

fn match_all() -> Pattern {
    Pattern::new(".*").unwrap()
}

fn expect_launch(s: &mut Scheduler, expected: usize, now: u64) {
    match s.next_step(now) {
        Step::Launch(k, Event::Status(t)) => {
            assert_eq!(k, expected);
            assert_eq!(t.n, expected);
            assert!(matches!(t.state, State::Running(_)));
        }
        other => panic!("expected a launch of task {expected}, got {other:?}"),
    }
}

fn running_count(s: &Scheduler) -> usize {
    s.tasks
        .iter()
        .filter(|t| matches!(t.state, State::Running(_)))
        .count()
}

#[test]
fn sequential_runs_one_at_a_time_in_order() {
    let tasks = vec![task(0, 1, "01-a"), task(1, 2, "02-b"), task(2, 3, "03-c")];
    // The cap is high; Sequential must still keep the width at one.
    let mut s = Scheduler::new(tasks, 5, SyncPolicy::Sequential, match_all());
    for i in 0..3 {
        expect_launch(&mut s, i, 100);
        assert_eq!(running_count(&s), 1);
        assert!(matches!(s.next_step(100), Step::Wait));
        assert_eq!(running_count(&s), 1);
        let evs = s.task_finished(0, true, 10);
        assert_eq!(evs.len(), 1);
        match &evs[0] {
            Event::Status(t) => {
                assert_eq!(t.n, i);
                assert!(matches!(t.state, State::Complete(10)));
            }
            other => panic!("expected a status event, got {other:?}"),
        }
        assert_eq!(running_count(&s), 0);
    }
    assert!(matches!(s.next_step(100), Step::Finished(true)));
}

#[test]
fn range_group_runs_together_and_drains_before_outsider() {
    let tasks = vec![
        task(0, 0, "00-a"),
        task(1, 1, "01-b"),
        task(2, 2, "02-c"),
        task(3, 3, "03-d"),
    ];
    let policy = policy_of(vec![(0, 2)], Vec::new());
    let mut s = Scheduler::new(tasks, 4, policy, match_all());
    // Tasks 0, 1 and 2 share the declared group and may run concurrently.
    expect_launch(&mut s, 0, 0);
    expect_launch(&mut s, 1, 0);
    expect_launch(&mut s, 2, 0);
    assert_eq!(running_count(&s), 3);
    // Task 3 is outside every range: it must wait for a full drain.
    assert!(matches!(s.next_step(0), Step::Wait));
    s.task_finished(0, true, 1);
    // One finisher is not enough; the whole group must drain first.
    assert!(matches!(s.next_step(0), Step::Wait));
    s.task_finished(0, true, 1);
    assert!(matches!(s.next_step(0), Step::Wait));
    s.task_finished(0, true, 1);
    assert_eq!(running_count(&s), 0);
    expect_launch(&mut s, 3, 0);
    s.task_finished(0, true, 1);
    assert!(matches!(s.next_step(0), Step::Finished(true)));
}

#[test]
fn concurrency_cap_blocks_further_launches() {
    let tasks = vec![task(0, 0, "00-a"), task(1, 1, "01-b"), task(2, 2, "02-c")];
    let policy = policy_of(vec![(0, 9)], Vec::new());
    let mut s = Scheduler::new(tasks, 2, policy, match_all());
    expect_launch(&mut s, 0, 0);
    expect_launch(&mut s, 1, 0);
    // All three share one group, but the cap is two.
    assert!(matches!(s.next_step(0), Step::Wait));
    s.task_finished(0, true, 1);
    expect_launch(&mut s, 2, 0);
}

#[test]
fn failure_emits_wait_and_stops_dispatch() {
    let tasks = vec![task(0, 1, "01-a"), task(1, 2, "02-b"), task(2, 3, "03-c")];
    let mut s = Scheduler::new(tasks, 3, SyncPolicy::Sequential, match_all());
    expect_launch(&mut s, 0, 0);
    let evs = s.task_finished(0, false, 7);
    assert_eq!(evs.len(), 2);
    assert!(matches!(evs[0], Event::Wait));
    match &evs[1] {
        Event::Status(t) => assert!(matches!(t.state, State::Failed(7))),
        other => panic!("expected a status event, got {other:?}"),
    }
    // Nothing further launches; the scheduler reports overall failure.
    assert!(matches!(s.next_step(0), Step::Finished(false)));
    assert!(matches!(s.tasks[1].state, State::Pending));
    assert!(matches!(s.tasks[2].state, State::Pending));
}

#[test]
fn failure_drains_in_flight_siblings() {
    let tasks = vec![task(0, 0, "00-a"), task(1, 1, "01-b"), task(2, 2, "02-c")];
    let policy = policy_of(vec![(0, 9)], Vec::new());
    let mut s = Scheduler::new(tasks, 2, policy, match_all());
    expect_launch(&mut s, 0, 0);
    expect_launch(&mut s, 1, 0);
    s.task_finished(0, false, 3);
    // The failed run still awaits the already-started sibling.
    assert!(matches!(s.next_step(0), Step::Wait));
    s.task_finished(0, true, 4);
    assert!(matches!(s.next_step(0), Step::Finished(false)));
    // The third task never started.
    assert!(matches!(s.tasks[2].state, State::Pending));
}

#[test]
fn filtered_out_tasks_are_skipped_without_a_slot() {
    let tasks = vec![task(0, 0, "00-x"), task(1, 1, "01-a")];
    let filter = Pattern::new("^01-").unwrap();
    let mut s = Scheduler::new(tasks, 1, SyncPolicy::Sequential, filter);
    match s.next_step(0) {
        Step::Skipped(Event::Status(t)) => {
            assert_eq!(t.n, 0);
            assert!(matches!(t.state, State::Skipped));
        }
        other => panic!("expected a skip, got {other:?}"),
    }
    assert_eq!(running_count(&s), 0);
    expect_launch(&mut s, 1, 0);
    s.task_finished(0, true, 1);
    assert!(matches!(s.next_step(0), Step::Finished(true)));
}

#[test]
fn empty_workflow_finishes_successfully() {
    let mut s = Scheduler::new(Vec::new(), 3, SyncPolicy::Sequential, match_all());
    assert!(matches!(s.next_step(0), Step::Finished(true)));
}

#[test]
fn initial_status_events_cover_every_task() {
    let tasks = vec![task(0, 1, "01-a"), task(1, 2, "02-b")];
    let evs = initial_status_events(&tasks);
    assert_eq!(evs.len(), 2);
    for (i, e) in evs.iter().enumerate() {
        match e {
            Event::Status(t) => {
                assert_eq!(t.n, i);
                assert!(matches!(t.state, State::Pending));
            }
            other => panic!("expected a status event, got {other:?}"),
        }
    }
}
