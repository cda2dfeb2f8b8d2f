//! Status records returned by a block-explorer node: which coin the index
//! serves and which chain the backend follows.

use vstd::prelude::*;

verus! {

/// The index service's own description.
#[derive(Debug)]
pub struct Blockbook {
    pub coin: String,
}

/// The backing node's description.
#[derive(Debug)]
pub struct Backend {
    pub chain: String,
}

/// The full status answer: index and backend together.
#[derive(Debug)]
pub struct NodeStatus {
    pub blockbook: Blockbook,
    pub backend: Backend,
}

} // verus!
