//! Wait strategies that take no parameter.
use vstd::prelude::*;

verus! {

/// How a thread passes the time while it cannot go on, where both sides of
/// a channel wait in the same way.
#[derive(Copy, Clone, PartialEq, Eq, Structural, Debug)]
pub enum WaitStrategy {
    /// Park the thread for the shortest time there is.
    Parking,
    /// Spin in a busy loop.
    Spinning,
    /// Yield the thread to the scheduler.
    Yielding,
}

} // verus!
