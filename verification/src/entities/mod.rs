//! Stored entities of the daemon: tasks, activities and prefix index nodes.
pub mod task;
pub mod activity;
pub mod prefix_trie_node;
