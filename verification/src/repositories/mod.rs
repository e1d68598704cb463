//! Repositories: the stores of the daemon's entities and the decisions taken
//! when they change.
pub mod task_prefix;
pub mod task;
pub mod activity;
