//! Verified core of a local-first task planner: task model, greedy scheduling,
//! TaskNotes import and identity matching, and the task store.

pub mod task;
pub mod schedule;
pub mod sync;
pub mod text;
pub mod store;
pub mod codec;
pub mod tasknotes;
pub mod clock;
pub mod calendar;
pub mod llm;
pub mod commands;
