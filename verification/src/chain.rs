//! What is asked of the chain node, and how a question can fail. The node
//! itself is not part of this library: callers put the questions to it and
//! hand the answers in.

use vstd::prelude::*;

verus! {

/// Which block is asked for.
#[derive(Clone, Copy, Debug, PartialEq, Eq, Structural, Hash)]
pub enum BlockSelector {
    /// The newest block the node knows.
    Latest,
    /// The newest block the node holds to be final.
    Finalized,
    /// The block at this height.
    Number(u64),
}

/// Why the node gave no answer. Both are passing conditions: the question is
/// put again at a later tick.
#[derive(Clone, Copy, Debug, PartialEq, Eq, Structural, Hash)]
pub enum ChainError {
    /// The node has no such block: not yet, or no longer.
    NotFound,
    /// The node could not be reached, or did not answer in time.
    Unavailable,
}

} // verus!
