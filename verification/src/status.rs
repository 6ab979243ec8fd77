//! The status display texts: durations, state labels, and the per-task
//! status table lines. The terminal widget only wraps these strings in
//! styled spans; every character here is computed and verified.

use vstd::prelude::*;
use vstd::string::{StrSliceExecFns, StringExecFns};

use crate::task::{State, Task};
use crate::text::{
    digit_char, push_digit, spec_decimal, spec_pad_left, spec_pad_right, pad_left, pad_right,
    u64_string,
};

verus! {

/// A duration in tenths of a second, rounded to nearest (half rounds up).
pub open spec fn spec_tenths(ms: nat) -> nat {
    ms / 100 + if ms % 100 >= 50 {
        1nat
    } else {
        0nat
    }
}

/// A duration shown as seconds with one decimal, right-aligned to seven
/// columns, with an `'s'` suffix.
pub open spec fn spec_format_duration(ms: nat) -> Seq<char> {
    spec_pad_left(
        spec_decimal(spec_tenths(ms) / 10) + seq!['.'] + seq![digit_char(spec_tenths(ms) % 10)],
        7,
    ) + seq!['s']
}

/// Formats a duration given in milliseconds, as in `"    1.5s"`.
pub fn format_duration(millis: u64) -> (r: String)
    ensures
        r@ == spec_format_duration(millis as nat),
{
    let tenths: u64 = millis / 100 + if millis % 100 >= 50 {
        1
    } else {
        0
    };
    let whole = u64_string(tenths / 10);
    let mut num = String::new();
    num.append(whole.as_str());
    num.append(".");
    push_digit(&mut num, tenths % 10);
    proof {
        reveal_strlit(".");
        assert(num@ =~= spec_decimal(spec_tenths(millis as nat) / 10) + seq!['.'] + seq![
            digit_char(spec_tenths(millis as nat) % 10),
        ]);
    }
    let mut r = pad_left(num.as_str(), 7);
    r.append("s");
    proof {
        reveal_strlit("s");
        assert(r@ =~= spec_format_duration(millis as nat));
    }
    r
}

/// The label describing a state, with the duration for finished tasks.
pub open spec fn spec_state_label(s: State) -> Seq<char> {
    match s {
        State::Pending => "Pending"@,
        State::Running(_) => "Running"@,
        State::Failed(d) => "Failed after "@ + spec_format_duration(d as nat),
        State::Complete(d) => "Succeeded after "@ + spec_format_duration(d as nat),
        State::Skipped => "Skipped"@,
    }
}

/// Describes a state in words, as shown in the plain status report.
pub fn state_label(s: &State) -> (r: String)
    ensures
        r@ == spec_state_label(*s),
{
    match s {
        State::Pending => {
            let mut r = String::new();
            r.append("Pending");
            proof {
                assert(r@ =~= "Pending"@);
            }
            r
        },
        State::Running(_) => {
            let mut r = String::new();
            r.append("Running");
            proof {
                assert(r@ =~= "Running"@);
            }
            r
        },
        State::Failed(d) => {
            let mut r = String::new();
            r.append("Failed after ");
            let dur = format_duration(*d);
            r.append(dur.as_str());
            proof {
                assert(r@ =~= "Failed after "@ + spec_format_duration(*d as nat));
            }
            r
        },
        State::Complete(d) => {
            let mut r = String::new();
            r.append("Succeeded after ");
            let dur = format_duration(*d);
            r.append(dur.as_str());
            proof {
                assert(r@ =~= "Succeeded after "@ + spec_format_duration(*d as nat));
            }
            r
        },
        State::Skipped => {
            let mut r = String::new();
            r.append("Skipped");
            proof {
                assert(r@ =~= "Skipped"@);
            }
            r
        },
    }
}

/// The display colour for a state.
#[derive(Debug, Clone, Copy, PartialEq, Eq, Structural)]
pub enum StatusColor {
    Blue,
    Green,
    Red,
    Yellow,
    Gray,
}

/// The colour a task's row is drawn in: blue while running, green on
/// success, red on failure, yellow while pending, gray when skipped.
pub fn state_color(s: &State) -> (c: StatusColor)
    ensures
        c == (match *s {
            State::Running(_) => StatusColor::Blue,
            State::Complete(_) => StatusColor::Green,
            State::Failed(_) => StatusColor::Red,
            State::Pending => StatusColor::Yellow,
            State::Skipped => StatusColor::Gray,
        }),
{
    match s {
        State::Running(_) => StatusColor::Blue,
        State::Complete(_) => StatusColor::Green,
        State::Failed(_) => StatusColor::Red,
        State::Pending => StatusColor::Yellow,
        State::Skipped => StatusColor::Gray,
    }
}

/// The checkbox symbol for a state: checked on success, crossed on failure,
/// empty otherwise.
pub open spec fn spec_status_symbol(s: State) -> Seq<char> {
    match s {
        State::Complete(_) => "\u{2611}"@,
        State::Failed(_) => "\u{2612}"@,
        _ => "\u{2610}"@,
    }
}

/// The extra column of a status row: the elapsed time while running, the
/// duration when finished, nothing otherwise.
pub open spec fn spec_status_extra(s: State, now: nat) -> Seq<char> {
    match s {
        State::Running(st) => spec_format_duration(if now >= st {
            (now - st) as nat
        } else {
            0nat
        }),
        State::Complete(d) => spec_format_duration(d as nat),
        State::Failed(d) => spec_format_duration(d as nat),
        _ => Seq::empty(),
    }
}

/// One row of the status table: symbol, space, name padded to the longest
/// name's width, space, and the extra column.
pub open spec fn spec_status_line(t: Task, maxlen: nat, now: nat) -> Seq<char> {
    spec_status_symbol(t.state) + seq![' '] + spec_pad_right(t.name@, maxlen) + seq![' ']
        + spec_status_extra(t.state, now)
}

/// Builds one status table row; `now_millis` is the current instant, used
/// for the elapsed time of running tasks.
pub fn status_line(t: &Task, maxlen: usize, now_millis: u64) -> (r: String)
    ensures
        r@ == spec_status_line(*t, maxlen as nat, now_millis as nat),
{
    let mut r = String::new();
    match &t.state {
        State::Complete(_) => r.append("\u{2611}"),
        State::Failed(_) => r.append("\u{2612}"),
        _ => r.append("\u{2610}"),
    }
    r.append(" ");
    let padded = pad_right(t.name.as_str(), maxlen);
    r.append(padded.as_str());
    r.append(" ");
    match &t.state {
        State::Running(st) => {
            let started: u64 = *st;
            let elapsed: u64 = if now_millis >= started {
                now_millis - started
            } else {
                0
            };
            let dur = format_duration(elapsed);
            r.append(dur.as_str());
        },
        State::Complete(d) => {
            let dur = format_duration(*d);
            r.append(dur.as_str());
        },
        State::Failed(d) => {
            let dur = format_duration(*d);
            r.append(dur.as_str());
        },
        _ => {},
    }
    proof {
        reveal_strlit(" ");
        assert(r@ =~= spec_status_line(*t, maxlen as nat, now_millis as nat));
    }
    r
}

/// The length of the longest task name, in characters.
pub open spec fn spec_max_name_len(ts: Seq<Task>) -> nat
    decreases ts.len(),
{
    if ts.len() == 0 {
        0
    } else {
        let rest = spec_max_name_len(ts.drop_last());
        if ts.last().name@.len() >= rest {
            ts.last().name@.len()
        } else {
            rest
        }
    }
}

/// The width of the name column: the longest name among the tasks.
pub fn max_name_len(ts: &Vec<Task>) -> (r: usize)
    ensures
        r == spec_max_name_len(ts@),
{
    let mut r: usize = 0;
    let mut i: usize = 0;
    while i < ts.len()
        invariant
            i <= ts@.len(),
            r == spec_max_name_len(ts@.subrange(0, i as int)),
        decreases ts@.len() - i,
    {
        proof {
            assert(ts@.subrange(0, i + 1).drop_last() =~= ts@.subrange(0, i as int));
            assert(ts@.subrange(0, i + 1).last() == ts@[i as int]);
        }
        let n = ts[i].name.as_str().unicode_len();
        if n > r {
            r = n;
        }
        i = i + 1;
    }
    proof {
        assert(ts@.subrange(0, ts@.len() as int) =~= ts@);
    }
    r
}

/// Builds the whole status table, one row per task in task order.
pub fn status_lines(ts: &Vec<Task>, now_millis: u64) -> (r: Vec<String>)
    ensures
        r@.len() == ts@.len(),
        forall|i: int|
            0 <= i < ts@.len() ==> (#[trigger] r@[i])@ == spec_status_line(
                ts@[i],
                spec_max_name_len(ts@),
                now_millis as nat,
            ),
{
    let maxlen = max_name_len(ts);
    let mut r: Vec<String> = Vec::new();
    let mut i: usize = 0;
    while i < ts.len()
        invariant
            i <= ts@.len(),
            r@.len() == i,
            maxlen == spec_max_name_len(ts@),
            forall|j: int|
                0 <= j < i ==> (#[trigger] r@[j])@ == spec_status_line(
                    ts@[j],
                    spec_max_name_len(ts@),
                    now_millis as nat,
                ),
        decreases ts@.len() - i,
    {
        let line = status_line(&ts[i], maxlen, now_millis);
        r.push(line);
        i = i + 1;
    }
    r
}

/// The plain-mode status report: a header line, then one indented row per
/// task with its name right-aligned and its state spelled out.
pub fn status_report(ts: &Vec<Task>) -> (r: Vec<String>)
    ensures
        r@.len() == ts@.len() + 1,
        r@[0]@ == "=== Status ==="@,
        forall|i: int|
            0 <= i < ts@.len() ==> (#[trigger] r@[i + 1])@ == "  "@ + spec_pad_left(
                ts@[i].name@,
                spec_max_name_len(ts@),
            ) + seq![' '] + spec_state_label(ts@[i].state),
{
    let maxlen = max_name_len(ts);
    let mut r: Vec<String> = Vec::new();
    let mut header = String::new();
    header.append("=== Status ===");
    proof {
        assert(header@ =~= "=== Status ==="@);
    }
    r.push(header);
    let mut i: usize = 0;
    while i < ts.len()
        invariant
            i <= ts@.len(),
            r@.len() == i + 1,
            r@[0]@ == "=== Status ==="@,
            maxlen == spec_max_name_len(ts@),
            forall|j: int|
                0 <= j < i ==> (#[trigger] r@[j + 1])@ == "  "@ + spec_pad_left(
                    ts@[j].name@,
                    spec_max_name_len(ts@),
                ) + seq![' '] + spec_state_label(ts@[j].state),
        decreases ts@.len() - i,
    {
        let mut line = String::new();
        line.append("  ");
        let padded = pad_left(ts[i].name.as_str(), maxlen);
        line.append(padded.as_str());
        line.append(" ");
        let label = state_label(&ts[i].state);
        line.append(label.as_str());
        proof {
            reveal_strlit(" ");
            assert(line@ =~= "  "@ + spec_pad_left(ts@[i as int].name@, spec_max_name_len(ts@))
                + seq![' '] + spec_state_label(ts@[i as int].state));
        }
        r.push(line);
        i = i + 1;
    }
    r
}

} // verus!
