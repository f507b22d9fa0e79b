//! Reminder scheduling for a personal task tracker.
//!
//! A task may carry one reminder, due at a fixed offset before the task
//! starts. A scheduler scans the stored tasks for reminders that fall due
//! inside a sliding time window, dispatches each one under a bound on the
//! number of simultaneous dispatches, and records the dispatch in the store so
//! that no later scan offers the same reminder again.
//!
//! Times are counted in milliseconds since the Unix epoch, UTC.

pub mod category;
pub mod clock;
pub mod config;
pub mod cycle;
pub mod dispatch;
pub mod gate;
pub mod goal;
pub mod laws;
pub mod notification;
pub mod object_id;
pub mod repository;
pub mod scheduler;
pub mod stats;
pub mod task;
pub mod task_service;
pub mod window;
