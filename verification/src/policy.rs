//! The sync-point policy: when must a task wait for every currently running
//! task to finish before it may start?
//!
//! A task only joins an existing running batch when it and all currently
//! running tasks belong to the same declared parallel group; any non-member
//! forces a full drain first. Groups are declared either as inclusive id
//! ranges or as name patterns; ranges take priority when both are configured,
//! and with neither, every task is a barrier (sequential execution).

use vstd::prelude::*;

use crate::pattern::{regex_matches, Pattern};
use crate::task::Task;

verus! {

/// Whether `id` lies in the inclusive range `r`.
pub open spec fn spec_in_range(r: (usize, usize), id: usize) -> bool {
    r.0 <= id <= r.1
}

/// The first range in `ranges` that contains `id`, if any.
pub open spec fn spec_find_range(ranges: Seq<(usize, usize)>, id: usize) -> Option<(usize, usize)>
    decreases ranges.len(),
{
    if ranges.len() == 0 {
        None
    } else if spec_in_range(ranges[0], id) {
        Some(ranges[0])
    } else {
        spec_find_range(ranges.drop_first(), id)
    }
}

/// The source text of the first pattern in `pats` that matches `name`, if
/// any.
pub open spec fn spec_find_pattern(pats: Seq<Pattern>, name: Seq<char>) -> Option<Seq<char>>
    decreases pats.len(),
{
    if pats.len() == 0 {
        None
    } else if regex_matches(pats[0].src(), name) {
        Some(pats[0].src())
    } else {
        spec_find_pattern(pats.drop_first(), name)
    }
}

/// Whether `task` is a sync point given the running set and the configured
/// groups: true unless the first group containing `task` also contains every
/// running task.
pub open spec fn spec_sync_point(
    task: Task,
    running: Seq<Task>,
    ranges: Seq<(usize, usize)>,
    pats: Seq<Pattern>,
) -> bool {
    if ranges.len() > 0 {
        match spec_find_range(ranges, task.id) {
            Some(r) => !(forall|i: int|
                0 <= i < running.len() ==> spec_in_range(r, #[trigger] running[i].id)),
            None => true,
        }
    } else {
        match spec_find_pattern(pats, task.name@) {
            Some(p) => !(forall|i: int|
                0 <= i < running.len() ==> regex_matches(p, #[trigger] running[i].name@)),
            None => true,
        }
    }
}

/// Returns `true` if starting `task` requires the running set to fully drain
/// first. Command-line ranges (`opt_par`), when present, take priority over
/// the configured name patterns (`conf_par_re`).
pub fn sync_point(
    task: &Task,
    running: &[Task],
    opt_par: &[(usize, usize)],
    conf_par_re: &[Pattern],
) -> (r: bool)
    ensures
        r == spec_sync_point(*task, running@, opt_par@, conf_par_re@),
{
    if opt_par.len() > 0 {
        proof {
            assert(opt_par@.skip(0) =~= opt_par@);
        }
        let mut i: usize = 0;
        while i < opt_par.len()
            invariant
                i <= opt_par@.len(),
                spec_find_range(opt_par@, task.id) == spec_find_range(
                    opt_par@.skip(i as int),
                    task.id,
                ),
            decreases opt_par@.len() - i,
        {
            let r = opt_par[i];
            proof {
                assert(opt_par@.skip(i as int).drop_first() =~= opt_par@.skip(i + 1));
            }
            if r.0 <= task.id && task.id <= r.1 {
                proof {
                    assert(opt_par@.skip(i as int)[0] == opt_par@[i as int]);
                }
                return !all_ids_in_range(running, r);
            }
            i = i + 1;
        }
        return true;
    }
    proof {
        assert(conf_par_re@.skip(0) =~= conf_par_re@);
    }
    let mut i: usize = 0;
    while i < conf_par_re.len()
        invariant
            opt_par@.len() == 0,
            i <= conf_par_re@.len(),
            spec_find_pattern(conf_par_re@, task.name@) == spec_find_pattern(
                conf_par_re@.skip(i as int),
                task.name@,
            ),
        decreases conf_par_re@.len() - i,
    {
        proof {
            assert(conf_par_re@.skip(i as int).drop_first() =~= conf_par_re@.skip(i + 1));
        }
        if conf_par_re[i].is_match(task.name.as_str()) {
            proof {
                assert(conf_par_re@.skip(i as int)[0] == conf_par_re@[i as int]);
            }
            return !all_names_match(running, &conf_par_re[i]);
        }
        i = i + 1;
    }
    true
}

/// Whether every task in `running` has its id inside `r`.
fn all_ids_in_range(running: &[Task], r: (usize, usize)) -> (b: bool)
    ensures
        b == forall|i: int| 0 <= i < running@.len() ==> spec_in_range(r, #[trigger] running@[i].id),
{
    let mut i: usize = 0;
    while i < running.len()
        invariant
            i <= running@.len(),
            forall|j: int| 0 <= j < i ==> spec_in_range(r, #[trigger] running@[j].id),
        decreases running@.len() - i,
    {
        let t = &running[i];
        if !(r.0 <= t.id && t.id <= r.1) {
            return false;
        }
        i = i + 1;
    }
    true
}

/// Whether every task in `running` has a name matched by `p`.
fn all_names_match(running: &[Task], p: &Pattern) -> (b: bool)
    ensures
        b == forall|i: int|
            0 <= i < running@.len() ==> regex_matches(p.src(), #[trigger] running@[i].name@),
{
    let mut i: usize = 0;
    while i < running.len()
        invariant
            i <= running@.len(),
            forall|j: int| 0 <= j < i ==> regex_matches(p.src(), #[trigger] running@[j].name@),
        decreases running@.len() - i,
    {
        if !p.is_match(running[i].name.as_str()) {
            return false;
        }
        i = i + 1;
    }
    true
}

/// With no ranges and no patterns configured every task is a barrier: the
/// policy degenerates to pure sequential execution.
pub proof fn lemma_sequential_always_sync(task: Task, running: Seq<Task>)
    ensures
        spec_sync_point(task, running, Seq::empty(), Seq::empty()),
{
}

} // verus!
