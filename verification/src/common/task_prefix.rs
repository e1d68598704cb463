//! The task id prefix index, under the name the core layer gives it.
pub use crate::repositories::task_prefix::PrefixIndex;
