use vstd::prelude::*;

verus! {

/// A client operation on the key-value store.
#[derive(Debug, Clone)]
pub enum Op {
    Get { key: String },
    Put { key: String, value: String },
    Append { key: String, value: String },
}

/// Why a submitted operation produced no answer.
#[derive(Debug, Clone, Copy, PartialEq, Eq, Structural)]
pub enum Error {
    /// This replica is not the leader; `hint` is its best guess of who is.
    NotLeader { hint: usize },
    /// No commit was observed within the time bound.
    Timeout,
    /// The log index of the proposal committed a different entry.
    Failed,
}

} // verus!
