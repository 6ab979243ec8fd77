//! The events that flow from the scheduler and the process supervisors to
//! the single display consumer. Events are immutable value snapshots: the
//! consumer owns whatever it receives.

use vstd::prelude::*;

use crate::task::Task;

verus! {

/// One update for the consumer.
#[derive(Debug, PartialEq)]
pub enum Event {
    /// Do not exit automatically on end-of-stream; require an explicit user
    /// action first.
    Wait,
    /// A snapshot of one task, keyed by its `n` for idempotent upsert.
    Status(Task),
    /// One line to append to the scrollback buffer.
    AddLine(String),
}

/// The mathematical value of an [`Event`]: line text as a character
/// sequence.
pub enum EventModel {
    Wait,
    Status(Task),
    AddLine(Seq<char>),
}

impl View for Event {
    type V = EventModel;

    open spec fn view(&self) -> EventModel {
        match self {
            Event::Wait => EventModel::Wait,
            Event::Status(t) => EventModel::Status(*t),
            Event::AddLine(s) => EventModel::AddLine(s@),
        }
    }
}

/// The models of a sequence of events.
pub open spec fn views_of(es: Seq<Event>) -> Seq<EventModel> {
    es.map_values(|e: Event| e@)
}

} // verus!
