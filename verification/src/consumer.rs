//! The consumer's side of the event protocol: the status table as an
//! idempotent upsert keyed by each task's position, the append-only
//! scrollback buffer, the wait flag, and the scrollback position arithmetic.

use vstd::prelude::*;
use vstd::string::StringExecFns;

use crate::event::{Event, EventModel};
use crate::task::Task;

verus! {

/// Applies one `Status` snapshot to the table: a new position appends, an
/// existing position replaces in place — never reorders.
pub fn apply_status(status: &mut Vec<Task>, st: Task)
    requires
        st.n <= old(status)@.len(),
    ensures
        st.n == old(status)@.len() ==> final(status)@ == old(status)@.push(st),
        st.n < old(status)@.len() ==> final(status)@ == old(status)@.update(st.n as int, st),
{
    if st.n == status.len() {
        status.push(st);
    } else {
        let n = st.n;
        status.set(n, st);
    }
}

/// Everything the display consumer accumulates while draining the bus.
pub struct Consumer {
    /// The scrollback buffer: every `AddLine` payload, each followed by a
    /// newline.
    pub out: String,
    /// The status table, keyed by task position.
    pub status: Vec<Task>,
    /// Whether a `Wait` event was seen: the consumer must then keep going
    /// on end-of-stream until told to stop.
    pub do_wait: bool,
    /// How far the scrollback view is scrolled back from the bottom.
    pub scroll: usize,
}

impl Consumer {
    /// The status table never holds a task whose position disagrees with
    /// its slot.
    pub open spec fn wf(self) -> bool {
        forall|i: int| 0 <= i < self.status@.len() ==> (#[trigger] self.status@[i]).n == i
    }

    /// A fresh consumer: empty buffer, empty table, not waiting.
    pub fn new() -> (c: Consumer)
        ensures
            c.out@ == Seq::<char>::empty(),
            c.status@ == Seq::<Task>::empty(),
            !c.do_wait,
            c.scroll == 0,
            c.wf(),
    {
        Consumer { out: String::new(), status: Vec::new(), do_wait: false, scroll: 0 }
    }

    /// What digesting one event means: `Wait` arms the wait flag,
    /// `AddLine` appends the line and a newline to the scrollback,
    /// `Status` upserts the table. Nothing else changes.
    pub open spec fn spec_apply(pre: Consumer, e: EventModel, post: Consumer) -> bool {
        &&& post.scroll == pre.scroll
        &&& match e {
            EventModel::Wait => {
                &&& post.do_wait
                &&& post.out == pre.out
                &&& post.status == pre.status
            },
            EventModel::AddLine(l) => {
                &&& post.out@ == pre.out@ + l + seq!['\n']
                &&& post.status == pre.status
                &&& post.do_wait == pre.do_wait
            },
            EventModel::Status(t) => {
                &&& post.out == pre.out
                &&& post.do_wait == pre.do_wait
                &&& t.n == pre.status@.len() ==> post.status@ == pre.status@.push(t)
                &&& t.n < pre.status@.len() ==> post.status@ == pre.status@.update(t.n as int, t)
            },
        }
    }

    /// Digests one event, exactly as [`Consumer::spec_apply`] says.
    pub fn apply(&mut self, e: Event)
        requires
            old(self).wf(),
            e@ matches EventModel::Status(t) ==> t.n <= old(self).status@.len(),
        ensures
            final(self).wf(),
            Consumer::spec_apply(*old(self), e@, *final(self)),
    {
        match e {
            Event::Wait => {
                self.do_wait = true;
            },
            Event::AddLine(l) => {
                self.out.append(l.as_str());
                self.out.append("\n");
                proof {
                    reveal_strlit("\n");
                    assert(self.out@ =~= old(self).out@ + l@ + seq!['\n']);
                }
            },
            Event::Status(t) => {
                apply_status(&mut self.status, t);
            },
        }
    }

    /// On end-of-stream the consumer exits unless a `Wait` event was seen,
    /// in which case it keeps running until told to stop.
    pub fn keep_open_on_disconnect(&self) -> (b: bool)
        ensures
            b == self.do_wait,
    {
        self.do_wait
    }

    /// Scrolls back by `n` lines, stopping at the top of what fits.
    pub fn scroll_back(&mut self, n: usize)
        ensures
            final(self).scroll == (if old(self).scroll + n > usize::MAX {
                usize::MAX as int
            } else {
                old(self).scroll + n
            }),
            final(self).out == old(self).out,
            final(self).status == old(self).status,
            final(self).do_wait == old(self).do_wait,
    {
        self.scroll = match self.scroll.checked_add(n) {
            Some(v) => v,
            None => usize::MAX,
        };
    }

    /// Scrolls forward by `n` lines, stopping at the bottom.
    pub fn scroll_forward(&mut self, n: usize)
        ensures
            final(self).scroll == (if old(self).scroll >= n {
                old(self).scroll - n
            } else {
                0int
            }),
            final(self).out == old(self).out,
            final(self).status == old(self).status,
            final(self).do_wait == old(self).do_wait,
    {
        self.scroll = if self.scroll >= n {
            self.scroll - n
        } else {
            0
        };
    }
}

/// The scrollback position clamped to what the buffer and the window allow:
/// at most two lines beyond the top of the buffer.
pub open spec fn spec_clamp_scroll(scroll: nat, nlines: nat, h: nat) -> nat {
    let top = if nlines >= h {
        nlines
    } else {
        h
    };
    let hi = (top - h + 2) as nat;
    if scroll > hi {
        hi
    } else {
        scroll
    }
}

/// Clamps a scrollback position for a buffer of `nlines` lines shown in a
/// window `height` lines tall.
pub fn clamp_scroll(scroll: usize, nlines: usize, height: u16) -> (r: usize)
    requires
        nlines <= usize::MAX - 2,
    ensures
        r == spec_clamp_scroll(scroll as nat, nlines as nat, height as nat),
{
    let h = height as usize;
    let hi: usize = if nlines >= h {
        nlines - h + 2
    } else {
        2
    };
    if scroll > hi {
        hi
    } else {
        scroll
    }
}

} // verus!
