//! Services: the decisions the daemon's services take on the events and
//! requests they receive, and the records they hand back.
pub mod activity;
pub mod storage_bridge;
pub mod task;
