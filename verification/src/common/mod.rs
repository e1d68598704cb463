//! Building blocks shared by the daemon's services.
pub mod utils;
pub mod task_prefix;
pub mod color;
pub mod retry;
pub mod batch_loader;
pub mod inter_process_storage;
pub mod task_core;
pub mod cache_strategy;
