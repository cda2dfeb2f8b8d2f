//! Response envelopes for the mining-pool service: which kind of answer a
//! handler produced, and the body sent when something was not found.

use vstd::prelude::*;

verus! {

/// The kind of answer a handler produced, with its payload.
pub enum ResponseType<T> {
    Okay(T),
    NotFound(T),
    Success(T),
}

/// The body sent when a requested record does not exist.
#[derive(Debug)]
pub struct NotFound {
    pub message: String,
}

impl NotFound {
    pub fn new(message: String) -> (n: NotFound)
        ensures
            n.message == message,
    {
        NotFound { message }
    }
}

} // verus!
