//! The task record as the daemon's store keeps it, with its content hash cached.
pub mod task;
