//! A bounded-concurrency task runner, written without I/O of its own.
//!
//! The library holds the task buffer, the life cycle of a task and the
//! scheduling decisions. It never spawns a process, sleeps or prints: it
//! tells its caller what to do next and is told what came of it.
//!
//! - [`slidingvec`]: the buffer in two partitions that holds the tasks.
//! - [`task`]: one command, its state and what is shown of it.
//! - [`runner`]: the runner and the handle of a run in the background.
//! - [`schedule`]: the rules that the runner follows, on plain values.
//! - [`laws`]: what holds of every run that follows the rules.
//! - [`stage`]: the build stage that a runner takes its commands from.
//! - [`error`]: the errors of the tool and the lines that tell of them.
//! - [`text`], [`utils`]: joined lines, decimal numbers, paths.

pub mod error;
pub mod laws;
pub mod runner;
pub mod schedule;
pub mod slidingvec;
pub mod stage;
pub mod task;
pub mod text;
pub mod utils;
