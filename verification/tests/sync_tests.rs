use tickbox::pattern::Pattern;
use tickbox::policy::sync_point;
use tickbox::task::{State, Task};

fn task(n: usize, id: usize, name: &str) -> Task {
    Task { n, id, name: name.to_string(), cmd: String::new(), state: State::Pending }
}

fn patterns(sources: &[&str]) -> Vec<Pattern> {
    let mut out = Vec::new();
    for s in sources {
        out.push(Pattern::new(s).unwrap());
    }
    out
}

#[test]
fn sync_test() {
    let running = [task(0, 1, "01-first"), task(1, 2, "02-second")];
    let new = task(2, 3, "03-third");
    for (a, b, out) in [
        (vec![], vec![], true),
        // Test command line.
        (vec![(0, 1)], vec![], true),
        (vec![(0, 2)], vec![], true),
        (vec![(0, 3)], vec![], false),
        (vec![(0, 4)], vec![], false),
        (vec![(1, 4)], vec![], false),
        (vec![(2, 4)], vec![], true),
        // Test config.
        (vec![], vec!["XXX"], true),
        (vec![], vec!["^01-"], true),
        (vec![], vec!["^0[1-2]-"], true),
        (vec![], vec!["^0[1-3]-"], false),
        (vec![], vec!["^0[1-4]-"], false),
        (vec![], vec!["^0[2-4]-"], true),
    ] {
        let pats = patterns(&b);
        assert_eq!(
            sync_point(&new, &running, &a, &pats),
            out,
            "failed for input {a:?} {b:?} => {out}"
        );
    }
}

#[test]
fn name_pattern_mixed_running_group_blocks() {
    // Not every running task matches "^01-", so the new task must wait.
    let running = [task(0, 1, "01-a"), task(1, 2, "02-b")];
    let new = task(2, 3, "01-c");
    let pats = patterns(&["^01-"]);
    assert!(sync_point(&new, &running, &[], &pats));
}

#[test]
fn name_pattern_uniform_running_group_joins() {
    let running = [task(0, 1, "01-a"), task(1, 2, "01-b")];
    let new = task(2, 3, "01-c");
    let pats = patterns(&["^01-"]);
    assert!(!sync_point(&new, &running, &[], &pats));
}

#[test]
fn first_matching_range_wins() {
    // Task id 2 falls into the first range; the running task id 5 is
    // outside it, so the new task waits.
    let running = [task(0, 5, "05-x")];
    let new = task(1, 2, "02-y");
    assert!(sync_point(&new, &running, &[(0, 3), (0, 9)], &[]));
    // With only the wide range the running task is inside the group.
    assert!(!sync_point(&new, &running, &[(0, 9)], &[]));
}

#[test]
fn unmatched_task_is_a_barrier() {
    let running = [task(0, 1, "01-a")];
    let new = task(1, 7, "07-z");
    // No range holds id 7: unconditional sync point.
    assert!(sync_point(&new, &running, &[(0, 3)], &[]));
    // No pattern matches "07-z": unconditional sync point.
    let pats = patterns(&["^01-"]);
    assert!(sync_point(&new, &running, &[], &pats));
}

#[test]
fn empty_running_set_still_syncs_by_policy() {
    // With no running tasks, a sync point is harmless but still reported
    // for tasks outside every group.
    let new = task(0, 3, "03-third");
    assert!(sync_point(&new, &[], &[], &[]));
    assert!(!sync_point(&new, &[], &[(0, 3)], &[]));
}

#[test]
fn invalid_pattern_is_refused() {
    assert!(Pattern::new("foo(bar").is_err());
    assert!(Pattern::new("^01-").is_ok());
}
