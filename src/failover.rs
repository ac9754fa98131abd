//! The decision of a retrying insert: after each attempt, stop or retry.

use vstd::prelude::*;

verus! {

/// What to do after an attempt.
#[derive(Debug, Clone, Copy, PartialEq, Eq)]
pub enum FailoverStep {
    /// The data went in, after this many attempts.
    Done(u32),
    /// Wait and try again.
    Retry,
    /// Every allowed attempt failed; this many were allowed.
    GiveUp(u32),
}

/// After attempt number `attempts` (counting from 1) of at most `retries`:
/// done when it succeeded, give up when it failed and no attempt is left,
/// else retry.
pub fn failover_step(attempts: u32, retries: u32, inserted: bool) -> (r: FailoverStep)
    ensures
        inserted ==> r == FailoverStep::Done(attempts),
        !inserted && attempts >= retries ==> r == FailoverStep::GiveUp(retries),
        !inserted && attempts < retries ==> r == FailoverStep::Retry,
{
    if inserted {
        FailoverStep::Done(attempts)
    } else if attempts >= retries {
        FailoverStep::GiveUp(retries)
    } else {
        FailoverStep::Retry
    }
}

} // verus!
