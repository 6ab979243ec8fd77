//! The task model: one schedulable unit of work, backed by one executable
//! file, and its monotonic lifecycle state.

use vstd::prelude::*;

verus! {

/// The lifecycle state of a task. Instants and durations are carried as
/// milliseconds.
///
/// The only allowed transitions are
/// `Pending -> Running -> Complete | Failed` and `Pending -> Skipped`;
/// see [`state_step_ok`].
#[derive(Debug, Clone, Copy, PartialEq)]
pub enum State {
    /// Finished with success, after the given duration.
    Complete(u64),
    /// Finished without success, after the given duration.
    Failed(u64),
    /// Started at the given instant and not yet finished.
    Running(u64),
    /// Not yet dispatched.
    Pending,
    /// Excluded by the name filter; never occupies a slot.
    Skipped,
}

/// One step of a workflow.
///
/// `n` is the position in run order, assigned once at load time; `id` is the
/// numeric value parsed from the file name's digit prefix and determines run
/// order as well as the groups that sync-point ranges operate on.
#[derive(Debug, PartialEq)]
pub struct Task {
    pub n: usize,
    pub id: usize,
    pub name: String,
    pub cmd: String,
    pub state: State,
}

/// The transition relation of [`State`]: reflexive, and otherwise only
/// `Pending -> Running`, `Pending -> Skipped`, `Running -> Complete` and
/// `Running -> Failed`.
pub open spec fn state_step_ok(pre: State, post: State) -> bool {
    ||| pre == post
    ||| (pre is Pending && (post is Running || post is Skipped))
    ||| (pre is Running && (post is Complete || post is Failed))
}

/// A state is terminal when no step other than staying in place is allowed
/// from it.
pub open spec fn state_terminal(s: State) -> bool {
    s is Complete || s is Failed || s is Skipped
}

impl Task {
    /// The task itself, as a fresh value for an event to carry; the
    /// consumer owns what it receives.
    pub fn snapshot(&self) -> (t: Task)
        ensures
            t == *self,
    {
        Task {
            n: self.n,
            id: self.id,
            name: self.name.clone(),
            cmd: self.cmd.clone(),
            state: self.state,
        }
    }
}

/// No sequence of allowed steps leaves a terminal state: the lifecycle is
/// monotonic and a task never returns to `Pending`.
pub proof fn lemma_terminal_is_final(pre: State, post: State)
    requires
        state_terminal(pre),
        state_step_ok(pre, post),
    ensures
        post == pre,
{
}

} // verus!
