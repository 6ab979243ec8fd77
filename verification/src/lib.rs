//! A small workflow runner: an ordered set of executable "step" files is run
//! sequentially or in bounded parallel batches, while per-step status and the
//! interleaved output of the steps stream to a single consumer.
//!
//! This crate holds the verified core: the task model, the sync-point policy
//! that decides which steps may run side by side, the scheduler, the process
//! supervisor's event multiplexing, the bounded event bus, and the text
//! formatting for status display. Process spawning, terminal rendering and
//! configuration loading live outside the library and call into it with plain
//! values.

pub mod bus;
pub mod consumer;
pub mod event;
pub mod parse;
pub mod pattern;
pub mod policy;
pub mod registry;
pub mod scheduler;
pub mod status;
pub mod supervisor;
pub mod task;
pub mod text;
