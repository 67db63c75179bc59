//! Distributed job and task manager that keeps its state in an object store.

pub mod builder;
mod chance;
pub mod cleaner;
pub mod code;
pub mod code_map;
pub mod definition;
pub mod description_laws;
pub mod error;
pub mod execution;
pub mod execution_laws;
pub mod executors;
pub mod graph;
pub mod handle_laws;
pub mod job;
pub mod job_handle;
pub mod job_laws;
pub mod job_view;
pub mod laws;
pub mod manager;
pub mod message_laws;
pub mod metrics;
pub mod outcome;
pub mod pick_laws;
pub mod poll;
pub mod pool;
pub mod registry;
pub mod retrier;
pub mod schedule_laws;
pub mod status;
pub mod task;
pub mod task_laws;
pub mod text;
pub mod time;
pub mod value_laws;
