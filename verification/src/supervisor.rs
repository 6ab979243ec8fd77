//! The process supervisor: owns the lifecycle of one subprocess for one task
//! and multiplexes its two output streams and its exit event into a single
//! ordered stream of line and summary events.
//!
//! The waiting itself (next line on either pipe, process exit) is outside
//! work; this module holds the verified decisions: what each arrival makes
//! the supervisor emit, when a stream stops being polled, what outcome an
//! exit maps to, and that a vanished consumer ends the supervision at once.

use vstd::prelude::*;
use vstd::string::{StrSliceExecFns, StringExecFns};

use crate::event::{views_of, Event, EventModel};
use crate::text::{i32_string, spec_signed_decimal};

verus! {

/// How a subprocess left: with an exit code, or terminated by a signal.
#[derive(Debug, Clone, Copy, PartialEq)]
pub enum ExitKind {
    Code(i32),
    Signal(i32),
}

/// The result of supervising one subprocess.
#[derive(Debug, Clone, Copy, PartialEq)]
pub enum ExitOutcome {
    /// Exited with code zero.
    Success,
    /// Exited with the given non-zero code.
    NonZeroExit(i32),
    /// Terminated by the given signal.
    Signaled(i32),
    /// The consumer disconnected; the subprocess was killed and supervision
    /// ended early.
    ConsumerGone,
}

/// One arrival in the multiplexing loop: a completed line on a stream
/// (`None` when the stream reached end-of-input), or the process's exit.
#[derive(Debug, PartialEq)]
pub enum StreamEvent {
    OutLine(Option<String>),
    ErrLine(Option<String>),
    Exited(ExitKind),
}

/// The supervisor's state: which streams are still open for polling, and
/// whether the subprocess has finished.
pub struct Supervisor {
    pub name: String,
    pub out_open: bool,
    pub err_open: bool,
    pub finished: Option<ExitOutcome>,
}

/// The banner line announcing a task.
pub open spec fn spec_banner(name: Seq<char>) -> Seq<char> {
    "============ Running \""@ + name + "\" ================"@
}

/// The summary line for an exit with a code.
pub open spec fn spec_code_summary(name: Seq<char>, code: int) -> Seq<char> {
    "==> Command \""@ + name + "\" exited with code "@ + spec_signed_decimal(code)
}

/// The summary line for a termination by signal.
pub open spec fn spec_signal_summary(name: Seq<char>, sig: int) -> Seq<char> {
    "==> Command \""@ + name + "\" exited with signal "@ + spec_signed_decimal(sig) + " "@
}

/// The outcome an exit maps to: code zero is success, any other code is a
/// failure, and a signal is its own kind of failure.
pub open spec fn spec_outcome_of(k: ExitKind) -> ExitOutcome {
    match k {
        ExitKind::Code(c) => if c == 0 {
            ExitOutcome::Success
        } else {
            ExitOutcome::NonZeroExit(c)
        },
        ExitKind::Signal(g) => ExitOutcome::Signaled(g),
    }
}

/// What one arrival does to the supervisor: the state afterwards and the
/// models of the events it emits.
///
/// A completed line is forwarded as one `AddLine`, in arrival order across
/// both streams; end-of-input closes that stream; the exit emits a blank
/// separator line and one summary line, and records the outcome.
pub open spec fn spec_step(s: Supervisor, ev: StreamEvent) -> (Supervisor, Seq<EventModel>) {
    match ev {
        StreamEvent::OutLine(l) => match l {
            Option::Some(line) => (s, seq![EventModel::AddLine(line@)]),
            Option::None => (
                Supervisor {
                    out_open: false,
                    ..s
                },
                Seq::empty(),
            ),
        },
        StreamEvent::ErrLine(l) => match l {
            Option::Some(line) => (s, seq![EventModel::AddLine(line@)]),
            Option::None => (
                Supervisor {
                    err_open: false,
                    ..s
                },
                Seq::empty(),
            ),
        },
        StreamEvent::Exited(k) => {
            let summary = match k {
                ExitKind::Code(c) => spec_code_summary(s.name@, c as int),
                ExitKind::Signal(g) => spec_signal_summary(s.name@, g as int),
            };
            (
                Supervisor {
                    finished: Some(spec_outcome_of(k)),
                    ..s
                },
                seq![EventModel::AddLine(Seq::empty()), EventModel::AddLine(summary)],
            )
        },
    }
}

/// Builds the summary line for an exit code.
fn code_summary(name: &str, c: i32) -> (r: String)
    ensures
        r@ == spec_code_summary(name@, c as int),
{
    let mut r = String::new();
    r.append("==> Command \"");
    r.append(name);
    r.append("\" exited with code ");
    let digits = i32_string(c);
    r.append(digits.as_str());
    proof {
        assert(r@ =~= spec_code_summary(name@, c as int));
    }
    r
}

/// Builds the summary line for a termination by signal.
fn signal_summary(name: &str, g: i32) -> (r: String)
    ensures
        r@ == spec_signal_summary(name@, g as int),
{
    let mut r = String::new();
    r.append("==> Command \"");
    r.append(name);
    r.append("\" exited with signal ");
    let digits = i32_string(g);
    r.append(digits.as_str());
    r.append(" ");
    proof {
        assert(r@ =~= spec_signal_summary(name@, g as int));
    }
    r
}

impl Supervisor {
    /// A fresh supervisor for the named task: both streams open, not
    /// finished.
    pub fn new(name: String) -> (s: Supervisor)
        ensures
            s.name == name,
            s.out_open,
            s.err_open,
            s.finished is None,
    {
        Supervisor { name, out_open: true, err_open: true, finished: None }
    }

    /// The banner event to emit before the subprocess is spawned.
    pub fn banner(&self) -> (e: Event)
        ensures
            e@ == EventModel::AddLine(spec_banner(self.name@)),
    {
        let mut r = String::new();
        r.append("============ Running \"");
        r.append(self.name.as_str());
        r.append("\" ================");
        proof {
            assert(r@ =~= spec_banner(self.name@));
        }
        Event::AddLine(r)
    }

    /// Handles one arrival: returns the events to emit, in order, and
    /// updates the state exactly as [`spec_step`] says.
    pub fn step(&mut self, ev: StreamEvent) -> (emit: Vec<Event>)
        ensures
            *final(self) == spec_step(*old(self), ev).0,
            views_of(emit@) == spec_step(*old(self), ev).1,
    {
        let mut emit: Vec<Event> = Vec::new();
        match ev {
            StreamEvent::OutLine(l) => match l {
                Some(line) => {
                    emit.push(Event::AddLine(line));
                },
                None => {
                    self.out_open = false;
                },
            },
            StreamEvent::ErrLine(l) => match l {
                Some(line) => {
                    emit.push(Event::AddLine(line));
                },
                None => {
                    self.err_open = false;
                },
            },
            StreamEvent::Exited(k) => {
                emit.push(Event::AddLine(String::new()));
                let summary = match k {
                    ExitKind::Code(c) => code_summary(self.name.as_str(), c),
                    ExitKind::Signal(g) => signal_summary(self.name.as_str(), g),
                };
                emit.push(Event::AddLine(summary));
                let outcome = match k {
                    ExitKind::Code(c) => if c == 0 {
                        ExitOutcome::Success
                    } else {
                        ExitOutcome::NonZeroExit(c)
                    },
                    ExitKind::Signal(g) => ExitOutcome::Signaled(g),
                };
                self.finished = Some(outcome);
            },
        }
        proof {
            assert(views_of(emit@) =~= spec_step(*old(self), ev).1);
        }
        emit
    }

    /// A send to the consumer failed: the consumer is gone. The caller must
    /// kill the subprocess and stop supervising; the outcome records the
    /// early termination. No sibling supervisor is affected.
    pub fn consumer_gone(&mut self)
        ensures
            final(self).name == old(self).name,
            final(self).out_open == old(self).out_open,
            final(self).err_open == old(self).err_open,
            final(self).finished == Some(ExitOutcome::ConsumerGone),
    {
        self.finished = Some(ExitOutcome::ConsumerGone);
    }
}

/// Whether the outcome counts as success for the scheduler: only a clean
/// exit with code zero does.
pub fn outcome_success(o: &ExitOutcome) -> (b: bool)
    ensures
        b == (*o is Success),
{
    match o {
        ExitOutcome::Success => true,
        _ => false,
    }
}

/// A stream event that carries a completed line.
pub open spec fn is_line_event(ev: StreamEvent) -> bool {
    ||| ev matches StreamEvent::OutLine(Some(_))
    ||| ev matches StreamEvent::ErrLine(Some(_))
}

/// The lines carried by a script of stream events, in arrival order.
pub open spec fn script_lines(script: Seq<StreamEvent>) -> Seq<Seq<char>>
    decreases script.len(),
{
    if script.len() == 0 {
        Seq::empty()
    } else {
        let rest = script_lines(script.drop_first());
        match script[0] {
            StreamEvent::OutLine(l) => match l {
                Option::Some(line) => seq![line@] + rest,
                Option::None => rest,
            },
            StreamEvent::ErrLine(l) => match l {
                Option::Some(line) => seq![line@] + rest,
                Option::None => rest,
            },
            StreamEvent::Exited(k) => rest,
        }
    }
}

/// Stepping a supervisor through a whole script of arrivals: the final
/// state and everything emitted, in order.
pub open spec fn spec_run(s: Supervisor, script: Seq<StreamEvent>) -> (Supervisor, Seq<EventModel>)
    decreases script.len(),
{
    if script.len() == 0 {
        (s, Seq::empty())
    } else {
        let first = spec_step(s, script[0]);
        let rest = spec_run(first.0, script.drop_first());
        (rest.0, first.1 + rest.1)
    }
}

/// Round trip through the multiplexer: a script made of completed lines is
/// emitted as exactly one `AddLine` per line, in arrival order — no loss,
/// no duplication, no reordering.
pub proof fn lemma_lines_round_trip(s: Supervisor, script: Seq<StreamEvent>)
    requires
        forall|i: int| 0 <= i < script.len() ==> is_line_event(#[trigger] script[i]),
    ensures
        spec_run(s, script).1 == script_lines(script).map_values(
            |l: Seq<char>| EventModel::AddLine(l),
        ),
    decreases script.len(),
{
    if script.len() == 0 {
        assert(spec_run(s, script).1 =~= script_lines(script).map_values(
            |l: Seq<char>| EventModel::AddLine(l),
        ));
    } else {
        assert(is_line_event(script[0]));
        let first = spec_step(s, script[0]);
        assert(first.0 == s);
        assert(forall|i: int|
            0 <= i < script.drop_first().len() ==> is_line_event(
                #[trigger] script.drop_first()[i],
            ));
        lemma_lines_round_trip(s, script.drop_first());
        assert(spec_run(s, script).1 =~= script_lines(script).map_values(
            |l: Seq<char>| EventModel::AddLine(l),
        ));
    }
}

} // verus!
