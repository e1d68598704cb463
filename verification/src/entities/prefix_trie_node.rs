//! A node of the task id prefix index.
use vstd::prelude::*;

verus! {

/// One prefix of one or more task ids. The index builds such nodes so that a
/// user can refer to a task by a prefix of its id while collisions are detected.
#[derive(Clone, Debug)]
pub struct PrefixTrieNode {
    pub prefix: String,
    /// Exactly one indexed id has this prefix.
    pub is_unique: bool,
    /// The prefix is itself an indexed id.
    pub is_end_of_id: bool,
}

/// The two flags of a node.
pub open spec fn node_info(n: PrefixTrieNode) -> (bool, bool) {
    (n.is_unique, n.is_end_of_id)
}

} // verus!
