use vstd::prelude::*;
use crate::msg::Error;
use crate::registry::Registry;

verus! {

/// How long a caller waits for its proposal to commit, in milliseconds.
pub const TIMEOUT_MS: u64 = 500;

/// How the wait for a registered proposal ended.
pub enum Resolution<T> {
    /// The commit at the index carried the caller's identifier.
    Delivered(T),
    /// The slot was removed without a value: another entry committed there.
    Dropped,
    /// The time bound passed first.
    Elapsed,
}

/// The outcome of proposing a command to the consensus module: its log index,
/// or the caller's error when this replica is not the leader. Nothing is
/// registered in the second case.
pub fn proposal_outcome(proposed: Result<u64, usize>) -> (r: Result<u64, Error>)
    ensures
        match proposed {
            Ok(index) => r == Ok::<u64, Error>(index),
            Err(hint) => r == Err::<u64, Error>(Error::NotLeader { hint }),
        },
{
    match proposed {
        Ok(index) => Ok(index),
        Err(hint) => Err(Error::NotLeader { hint }),
    }
}

/// Starts the wait for a proposal. When this replica is not the leader the
/// caller gets `NotLeader` with the hint and nothing is registered; otherwise
/// `handle` is registered for `id` under the log index the proposal was given.
pub fn register_proposal<H>(
    registry: &mut Registry<H>,
    proposed: Result<u64, usize>,
    id: u64,
    handle: H,
) -> (r: Result<u64, Error>)
    ensures
        match proposed {
            Ok(index) => r == Ok::<u64, Error>(index) && final(registry)@ == old(registry)@.insert(
                index,
                (id, handle),
            ),
            Err(hint) => r == Err::<u64, Error>(Error::NotLeader { hint }) && final(registry)@
                == old(registry)@,
        },
{
    let r = proposal_outcome(proposed);
    if let Ok(index) = r {
        registry.register(index, id, handle);
    }
    r
}

/// What the caller of a registered proposal receives for each way the wait
/// can end. The registry is not touched: the slot of a caller that timed out
/// stays until a commit at its index removes it.
pub fn resolution_outcome<T>(res: Resolution<T>) -> (r: Result<T, Error>)
    ensures
        match res {
            Resolution::Delivered(v) => r == Ok::<T, Error>(v),
            Resolution::Dropped => r == Err::<T, Error>(Error::Failed),
            Resolution::Elapsed => r == Err::<T, Error>(Error::Timeout),
        },
{
    match res {
        Resolution::Delivered(v) => Ok(v),
        Resolution::Dropped => Err(Error::Failed),
        Resolution::Elapsed => Err(Error::Timeout),
    }
}

/// Whether the log should be compacted after a command was applied: only when
/// a bound is configured and the log has reached it.
pub fn should_compact(max_log_size: Option<usize>, log_size: u64) -> (r: bool)
    ensures
        r == match max_log_size {
            Some(max) => log_size >= max as u64,
            None => false,
        },
{
    match max_log_size {
        Some(max) => log_size >= max as u64,
        None => false,
    }
}

} // verus!
