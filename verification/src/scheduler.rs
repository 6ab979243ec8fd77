//! The scheduler: walks the ordered task list, skips tasks the name filter
//! rejects, bounds how many run at once, holds new tasks back at sync
//! points until the running set has fully drained, and stops dispatching on
//! the first failure while still awaiting what is already in flight.
//!
//! The waiting itself is outside work; the scheduler is a state machine the
//! driver consults: each call says what to do next, and the driver reports
//! every finished task back.

use vstd::prelude::*;

use crate::event::{views_of, Event, EventModel};
use crate::pattern::{regex_matches, Pattern};
use crate::policy::{spec_sync_point, sync_point};
use crate::task::{state_step_ok, State, Task};

verus! {

/// How parallel groups are declared: none (every task is a barrier),
/// explicit id ranges, or name patterns. Mutually exclusive; ranges take
/// priority when both are configured.
pub enum SyncPolicy {
    Sequential,
    Ranges(Vec<(usize, usize)>),
    NamePattern(Vec<Pattern>),
}

/// Builds the policy from the two configuration sources: command-line
/// ranges win over configured name patterns; with neither, execution is
/// sequential.
pub fn policy_of(ranges: Vec<(usize, usize)>, patterns: Vec<Pattern>) -> (p: SyncPolicy)
    ensures
        ranges@.len() > 0 ==> p == SyncPolicy::Ranges(ranges),
        ranges@.len() == 0 && patterns@.len() > 0 ==> p == SyncPolicy::NamePattern(patterns),
        ranges@.len() == 0 && patterns@.len() == 0 ==> p == SyncPolicy::Sequential,
{
    if ranges.len() > 0 {
        SyncPolicy::Ranges(ranges)
    } else if patterns.len() > 0 {
        SyncPolicy::NamePattern(patterns)
    } else {
        SyncPolicy::Sequential
    }
}

/// Whether `task` must wait for the running set to drain under `policy`.
pub open spec fn spec_policy_sync(task: Task, running: Seq<Task>, policy: SyncPolicy) -> bool {
    match policy {
        SyncPolicy::Sequential => true,
        SyncPolicy::Ranges(rs) => spec_sync_point(task, running, rs@, Seq::empty()),
        SyncPolicy::NamePattern(ps) => spec_sync_point(task, running, Seq::empty(), ps@),
    }
}

/// What the scheduler has decided to do next.
pub enum Decision {
    /// Mark the task at this position skipped.
    Skip(usize),
    /// Wait for some running task to finish and report it back.
    Wait,
    /// Mark the task at this position running and spawn its supervisor.
    Launch(usize),
    /// Everything settled; the flag is the overall success.
    Finished(bool),
}

/// What the driver must do after one scheduling step. `Skipped` and
/// `Launch` carry the status snapshot to put on the bus.
#[derive(Debug)]
pub enum Step {
    Skipped(Event),
    Launch(usize, Event),
    Wait,
    Finished(bool),
}

/// The scheduler's state.
pub struct Scheduler {
    /// All tasks, in run order; `tasks[i].n == i`.
    pub tasks: Vec<Task>,
    /// The position of the next task to consider; everything before it has
    /// been dispatched or skipped.
    pub next: usize,
    /// Positions of the tasks currently running, each exactly once.
    pub running: Vec<usize>,
    /// The concurrency cap; the running set never grows beyond it.
    pub concurrency: usize,
    pub policy: SyncPolicy,
    /// Tasks whose names this pattern does not match are skipped.
    pub filter: Pattern,
    /// Whether some task has failed; set once, never cleared.
    pub failed: bool,
    /// Whether a sync point is being drained: no launches until the running
    /// set is empty.
    pub draining: bool,
}

impl Scheduler {
    /// The running tasks themselves, in launch order.
    pub open spec fn running_tasks(self) -> Seq<Task> {
        self.running@.map_values(|k: usize| self.tasks@[k as int])
    }

    /// The scheduler's invariant: positions are in range and distinct, a
    /// task is in the running set exactly while its state is `Running`,
    /// everything at and after `next` is still `Pending` while nothing
    /// dispatched ever returns to `Pending`, the cap holds, `failed`
    /// mirrors the existence of a failed task, and under the sequential
    /// policy at most one task runs.
    pub open spec fn wf(self) -> bool {
        &&& self.next <= self.tasks@.len()
        &&& forall|i: int|
            0 <= i < self.next ==> !((#[trigger] self.tasks@[i]).state is Pending)
        &&& self.concurrency >= 1
        &&& self.running@.len() <= self.concurrency
        &&& forall|i: int| 0 <= i < self.running@.len() ==> (#[trigger] self.running@[i]) < self.next
        &&& forall|i: int, j: int|
            0 <= i < j < self.running@.len() ==> self.running@[i] != self.running@[j]
        &&& forall|i: int|
            self.next <= i < self.tasks@.len() ==> (#[trigger] self.tasks@[i]).state is Pending
        &&& forall|i: int|
            0 <= i < self.next ==> ((#[trigger] self.tasks@[i]).state is Running
                <==> self.running@.contains(i as usize))
        &&& (self.failed <==> exists|i: int|
            0 <= i < self.tasks@.len() && (#[trigger] self.tasks@[i]).state is Failed)
        &&& (self.draining ==> self.running@.len() > 0)
        &&& (self.policy is Sequential ==> self.running@.len() <= 1)
        &&& forall|i: int| 0 <= i < self.tasks@.len() ==> (#[trigger] self.tasks@[i]).n == i
    }

    /// The decision the next step will carry out: finish or drain after a
    /// failure; finish or drain at the end of the list; keep draining a
    /// sync point; skip a filtered-out task; wait at the concurrency cap;
    /// wait at a new sync point; otherwise launch.
    pub open spec fn spec_decision(self) -> Decision {
        if self.failed {
            if self.running@.len() == 0 {
                Decision::Finished(false)
            } else {
                Decision::Wait
            }
        } else if self.next == self.tasks@.len() {
            if self.running@.len() == 0 {
                Decision::Finished(true)
            } else {
                Decision::Wait
            }
        } else if self.draining {
            Decision::Wait
        } else if !regex_matches(self.filter.src(), self.tasks@[self.next as int].name@) {
            Decision::Skip(self.next)
        } else if self.running@.len() >= self.concurrency {
            Decision::Wait
        } else if self.running@.len() > 0 && spec_policy_sync(
            self.tasks@[self.next as int],
            self.running_tasks(),
            self.policy,
        ) {
            Decision::Wait
        } else {
            Decision::Launch(self.next)
        }
    }

    /// Whether this step hits a fresh sync point: the next task must not
    /// join the non-empty running set, so draining begins.
    pub open spec fn spec_blocks_on_sync(self) -> bool {
        &&& !self.failed
        &&& self.next < self.tasks@.len()
        &&& !self.draining
        &&& regex_matches(self.filter.src(), self.tasks@[self.next as int].name@)
        &&& self.running@.len() < self.concurrency
        &&& self.running@.len() > 0
        &&& spec_policy_sync(self.tasks@[self.next as int], self.running_tasks(), self.policy)
    }

    /// A scheduler over a freshly loaded task list: nothing dispatched,
    /// nothing running, nothing failed.
    pub fn new(tasks: Vec<Task>, concurrency: usize, policy: SyncPolicy, filter: Pattern) -> (s:
        Scheduler)
        requires
            concurrency >= 1,
            forall|i: int| 0 <= i < tasks@.len() ==> (#[trigger] tasks@[i]).state is Pending,
            forall|i: int| 0 <= i < tasks@.len() ==> (#[trigger] tasks@[i]).n == i,
        ensures
            s.wf(),
            s.tasks == tasks,
            s.next == 0,
            s.running@.len() == 0,
            s.concurrency == concurrency,
            s.policy == policy,
            s.filter == filter,
            !s.failed,
            !s.draining,
    {
        Scheduler {
            tasks,
            next: 0,
            running: Vec::new(),
            concurrency,
            policy,
            filter,
            failed: false,
            draining: false,
        }
    }

    /// Computes the sync-point test for the next task against the tasks
    /// currently running.
    fn sync_now(&self) -> (b: bool)
        requires
            self.wf(),
            self.next < self.tasks@.len(),
        ensures
            b == spec_policy_sync(
                self.tasks@[self.next as int],
                self.running_tasks(),
                self.policy,
            ),
    {
        let mut rs: Vec<Task> = Vec::new();
        let mut i: usize = 0;
        while i < self.running.len()
            invariant
                self.wf(),
                i <= self.running@.len(),
                rs@ =~= self.running@.subrange(0, i as int).map_values(
                    |k: usize| self.tasks@[k as int],
                ),
            decreases self.running@.len() - i,
        {
            let k = self.running[i];
            rs.push(self.tasks[k].snapshot());
            proof {
                assert(self.running@.subrange(0, i + 1) =~= self.running@.subrange(
                    0,
                    i as int,
                ).push(self.running@[i as int]));
                assert(rs@ =~= self.running@.subrange(0, i + 1).map_values(
                    |k2: usize| self.tasks@[k2 as int],
                ));
            }
            i = i + 1;
        }
        proof {
            assert(self.running@.subrange(0, self.running@.len() as int) =~= self.running@);
            assert(rs@ =~= self.running_tasks());
        }
        let empty_ranges: [(usize, usize); 0] = [];
        let empty_patterns: [Pattern; 0] = [];
        match &self.policy {
            SyncPolicy::Sequential => true,
            SyncPolicy::Ranges(ranges) => {
                proof {
                    assert(empty_patterns@ =~= Seq::<Pattern>::empty());
                }
                sync_point(
                    &self.tasks[self.next],
                    rs.as_slice(),
                    ranges.as_slice(),
                    &empty_patterns,
                )
            },
            SyncPolicy::NamePattern(ps) => {
                proof {
                    assert(empty_ranges@ =~= Seq::<(usize, usize)>::empty());
                }
                sync_point(&self.tasks[self.next], rs.as_slice(), &empty_ranges, ps.as_slice())
            },
        }
    }

    /// Carries out one scheduling decision. The caller performs what the
    /// returned step says: put the carried status event on the bus, spawn
    /// a supervisor on `Launch`, wait for a finisher on `Wait` and report
    /// it through [`Scheduler::task_finished`], or stop on `Finished`.
    pub fn next_step(&mut self, now_millis: u64) -> (r: Step)
        requires
            old(self).wf(),
        ensures
            final(self).wf(),
            final(self).tasks@.len() == old(self).tasks@.len(),
            final(self).concurrency == old(self).concurrency,
            final(self).policy == old(self).policy,
            final(self).filter == old(self).filter,
            final(self).failed == old(self).failed,
            forall|i: int|
                0 <= i < old(self).tasks@.len() ==> state_step_ok(
                    (#[trigger] old(self).tasks@[i]).state,
                    final(self).tasks@[i].state,
                ),
            match old(self).spec_decision() {
                Decision::Skip(k) => {
                    &&& r matches Step::Skipped(ev) && ev@ == EventModel::Status(
                        final(self).tasks@[k as int],
                    )
                    &&& final(self).tasks@ == old(self).tasks@.update(
                        k as int,
                        (Task { state: State::Skipped, ..old(self).tasks@[k as int] }),
                    )
                    &&& final(self).next == k + 1
                    &&& final(self).running == old(self).running
                    &&& final(self).draining == old(self).draining
                },
                Decision::Launch(k) => {
                    &&& r matches Step::Launch(k2, ev) && k2 == k && ev@ == EventModel::Status(
                        final(self).tasks@[k as int],
                    )
                    &&& final(self).tasks@ == old(self).tasks@.update(
                        k as int,
                        (Task { state: State::Running(now_millis), ..old(self).tasks@[k as int] }),
                    )
                    &&& final(self).next == k + 1
                    &&& final(self).running@ == old(self).running@.push(k)
                    &&& final(self).draining == old(self).draining
                },
                Decision::Wait => {
                    &&& r matches Step::Wait
                    &&& final(self).tasks == old(self).tasks
                    &&& final(self).next == old(self).next
                    &&& final(self).running == old(self).running
                    &&& final(self).draining == (old(self).draining || old(
                        self,
                    ).spec_blocks_on_sync())
                },
                Decision::Finished(b) => {
                    &&& r matches Step::Finished(b2) && b2 == b
                    &&& *final(self) == *old(self)
                },
            },
    {
        if self.failed {
            if self.running.len() == 0 {
                return Step::Finished(false);
            } else {
                return Step::Wait;
            }
        }
        if self.next == self.tasks.len() {
            if self.running.len() == 0 {
                return Step::Finished(true);
            } else {
                return Step::Wait;
            }
        }
        if self.draining {
            return Step::Wait;
        }
        let k = self.next;
        if !self.filter.is_match(self.tasks[k].name.as_str()) {
            let t0 = self.tasks[k].snapshot();
            self.tasks.set(
                k,
                Task { n: t0.n, id: t0.id, name: t0.name, cmd: t0.cmd, state: State::Skipped },
            );
            self.next = k + 1;
            proof {
                assert forall|i: int| 0 <= i < self.next implies ((
                #[trigger] self.tasks@[i]).state is Running <==> self.running@.contains(
                    i as usize,
                )) by {
                    if i == k {
                        if self.running@.contains(k) {
                            let w = choose|w: int|
                                0 <= w < self.running@.len() && self.running@[w] == k;
                            assert(self.running@[w] < k);
                        }
                    }
                }
            }
            let ev = Event::Status(self.tasks[k].snapshot());
            return Step::Skipped(ev);
        }
        if self.running.len() >= self.concurrency {
            return Step::Wait;
        }
        if self.running.len() > 0 {
            if self.sync_now() {
                self.draining = true;
                return Step::Wait;
            }
        }
        let t0 = self.tasks[k].snapshot();
        self.tasks.set(
            k,
            Task {
                n: t0.n,
                id: t0.id,
                name: t0.name,
                cmd: t0.cmd,
                state: State::Running(now_millis),
            },
        );
        self.running.push(k);
        self.next = k + 1;
        proof {
            assert forall|i: int| 0 <= i < self.next implies ((
            #[trigger] self.tasks@[i]).state is Running <==> self.running@.contains(i as usize)) by {
                if i == k {
                    assert(self.running@[self.running@.len() - 1] == k);
                } else {
                    if self.running@.contains(i as usize) {
                        let w = choose|w: int|
                            0 <= w < self.running@.len() && self.running@[w] == i as usize;
                        assert(w < self.running@.len() - 1);
                        assert(old(self).running@.contains(i as usize));
                    }
                    if old(self).running@.contains(i as usize) {
                        let w = choose|w: int|
                            0 <= w < old(self).running@.len() && old(self).running@[w] == i
                                as usize;
                        assert(self.running@[w] == i as usize);
                    }
                }
            }
            assert forall|i: int, j: int|
                0 <= i < j < self.running@.len() implies self.running@[i]
                != self.running@[j] by {
                if j == self.running@.len() - 1 {
                    assert(self.running@[i] < k);
                }
            }
            if self.policy is Sequential {
                assert(old(self).running@.len() == 0);
            }
        }
        let ev = Event::Status(self.tasks[k].snapshot());
        Step::Launch(k, ev)
    }

    /// Records that the running task in `slot` finished: its state becomes
    /// `Complete` or `Failed` with the measured duration, it leaves the
    /// running set, a failure arms fail-fast for good, and a drained sync
    /// point ends when the set empties.
    ///
    /// Returns the events to put on the bus: the status snapshot, preceded
    /// on failure by `Wait` so the consumer will not exit unseen.
    pub fn task_finished(&mut self, slot: usize, success: bool, duration_millis: u64) -> (evs: Vec<
        Event,
    >)
        requires
            old(self).wf(),
            slot < old(self).running@.len(),
        ensures
            final(self).wf(),
            final(self).tasks@.len() == old(self).tasks@.len(),
            final(self).concurrency == old(self).concurrency,
            final(self).policy == old(self).policy,
            final(self).filter == old(self).filter,
            final(self).next == old(self).next,
            final(self).running@ == old(self).running@.remove(slot as int),
            final(self).failed == (old(self).failed || !success),
            final(self).draining == (old(self).draining && final(self).running@.len() > 0),
            ({
                let k = old(self).running@[slot as int] as int;
                let done = Task {
                    state: if success {
                        State::Complete(duration_millis)
                    } else {
                        State::Failed(duration_millis)
                    },
                    ..old(self).tasks@[k]
                };
                &&& final(self).tasks@ == old(self).tasks@.update(k, done)
                &&& views_of(evs@) == (if success {
                    seq![EventModel::Status(done)]
                } else {
                    seq![EventModel::Wait, EventModel::Status(done)]
                })
            }),
            forall|i: int|
                0 <= i < old(self).tasks@.len() ==> state_step_ok(
                    (#[trigger] old(self).tasks@[i]).state,
                    final(self).tasks@[i].state,
                ),
    {
        let k = self.running[slot];
        proof {
            assert(self.running@.contains(k));
            assert(self.tasks@[k as int].state is Running);
        }
        self.running.remove(slot);
        let t0 = self.tasks[k].snapshot();
        let st = if success {
            State::Complete(duration_millis)
        } else {
            State::Failed(duration_millis)
        };
        self.tasks.set(k, Task { n: t0.n, id: t0.id, name: t0.name, cmd: t0.cmd, state: st });
        if !success {
            self.failed = true;
        }
        if self.running.len() == 0 {
            self.draining = false;
        }
        proof {
            let r0 = old(self).running@;
            let r1 = self.running@;
            assert forall|i: int| 0 <= i < self.next implies ((
            #[trigger] self.tasks@[i]).state is Running <==> r1.contains(i as usize)) by {
                if i == k {
                    if r1.contains(k) {
                        let w = choose|w: int| 0 <= w < r1.len() && r1[w] == k;
                        if w < slot {
                            assert(r0[w] == r1[w]);
                            assert(r0[w] != r0[slot as int]);
                        } else {
                            assert(r0[w + 1] == r1[w]);
                            assert(r0[w + 1] != r0[slot as int]);
                        }
                    }
                } else {
                    if r1.contains(i as usize) {
                        let w = choose|w: int| 0 <= w < r1.len() && r1[w] == i as usize;
                        if w < slot {
                            assert(r0[w] == i as usize);
                        } else {
                            assert(r0[w + 1] == i as usize);
                        }
                        assert(r0.contains(i as usize));
                    }
                    if r0.contains(i as usize) {
                        let w = choose|w: int| 0 <= w < r0.len() && r0[w] == i as usize;
                        assert(w != slot);
                        if w < slot {
                            assert(r1[w] == i as usize);
                        } else {
                            assert(r1[w - 1] == i as usize);
                        }
                        assert(r1.contains(i as usize));
                    }
                }
            }
            if !success {
                assert(self.tasks@[k as int].state is Failed);
            } else {
                if old(self).failed {
                    let w = choose|w: int|
                        0 <= w < old(self).tasks@.len() && (#[trigger] old(
                            self,
                        ).tasks@[w]).state is Failed;
                    assert(w != k);
                    assert(self.tasks@[w].state is Failed);
                }
                if self.failed {
                } else {
                    assert forall|w: int|
                        0 <= w < self.tasks@.len() implies !((#[trigger] self.tasks@[w]).state
                        is Failed) by {
                        if w != k {
                            assert(self.tasks@[w] == old(self).tasks@[w]);
                        }
                    }
                }
            }
        }
        let mut evs: Vec<Event> = Vec::new();
        if !success {
            evs.push(Event::Wait);
        }
        evs.push(Event::Status(self.tasks[k].snapshot()));
        proof {
            let k2 = old(self).running@[slot as int] as int;
            let done = Task {
                state: if success {
                    State::Complete(duration_millis)
                } else {
                    State::Failed(duration_millis)
                },
                ..old(self).tasks@[k2]
            };
            if success {
                assert(views_of(evs@) =~= seq![EventModel::Status(done)]);
            } else {
                assert(views_of(evs@) =~= seq![EventModel::Wait, EventModel::Status(done)]);
            }
        }
        evs
    }
}

/// The initial status events: one `Status` snapshot per task, in task
/// order, so the consumer's table starts out complete.
pub fn initial_status_events(tasks: &Vec<Task>) -> (evs: Vec<Event>)
    ensures
        evs@.len() == tasks@.len(),
        forall|i: int|
            0 <= i < evs@.len() ==> (#[trigger] evs@[i])@ == EventModel::Status(tasks@[i]),
{
    let mut evs: Vec<Event> = Vec::new();
    let mut i: usize = 0;
    while i < tasks.len()
        invariant
            i <= tasks@.len(),
            evs@.len() == i,
            forall|j: int|
                0 <= j < i ==> (#[trigger] evs@[j])@ == EventModel::Status(tasks@[j]),
        decreases tasks@.len() - i,
    {
        evs.push(Event::Status(tasks[i].snapshot()));
        i = i + 1;
    }
    evs
}

/// Under the sequential policy no two tasks are ever running at once,
/// whatever concurrency cap was configured.
pub proof fn lemma_sequential_exclusive(s: Scheduler)
    requires
        s.wf(),
        s.policy is Sequential,
    ensures
        forall|i: int, j: int|
            0 <= i < s.tasks@.len() && 0 <= j < s.tasks@.len() && s.tasks@[i].state is Running
                && s.tasks@[j].state is Running ==> i == j,
{
    assert forall|i: int, j: int|
        0 <= i < s.tasks@.len() && 0 <= j < s.tasks@.len() && s.tasks@[i].state is Running
            && s.tasks@[j].state is Running implies i == j by {
        assert(s.running@.contains(i as usize));
        assert(s.running@.contains(j as usize));
        let a = choose|a: int| 0 <= a < s.running@.len() && s.running@[a] == i as usize;
        let b = choose|b: int| 0 <= b < s.running@.len() && s.running@[b] == j as usize;
        assert(a == 0 && b == 0);
    }
}

/// The scheduler's verdict is exact: it reports success precisely when no
/// task ended in failure, which drives the process exit code.
pub proof fn lemma_verdict(s: Scheduler, b: bool)
    requires
        s.wf(),
        s.spec_decision() == Decision::Finished(b),
    ensures
        b <==> !(exists|i: int|
            0 <= i < s.tasks@.len() && (#[trigger] s.tasks@[i]).state is Failed),
{
}

/// After a failure the scheduler never launches or skips another task: it
/// only drains what is already in flight and then reports overall failure.
pub proof fn lemma_fail_fast(s: Scheduler)
    requires
        s.wf(),
        s.failed,
    ensures
        !(s.spec_decision() is Launch),
        !(s.spec_decision() is Skip),
        s.running@.len() == 0 ==> s.spec_decision() == Decision::Finished(false),
{
}

} // verus!
