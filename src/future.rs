//! The poll-based task protocol shared by the executor and its futures.
use vstd::prelude::*;

use crate::executor::Waker;

verus! {

/// What one poll of a future reports.
pub enum PollState<T> {
    /// The future is done, with this value.
    Ready(T),
    /// The future has arranged to be woken and must be polled again later.
    NotReady,
}

/// A unit of work that makes progress each time it is polled.
///
/// Only a pending future may be polled. One that returns `Ready` is no longer
/// pending and must not be polled again; one that returns `NotReady` stays
/// pending and must first have handed `waker` to whatever will wake it.
pub trait Future {
    type Output;

    /// Whether the future may be polled: it has not completed.
    spec fn is_pending(&self) -> bool;

    fn poll(&mut self, waker: &Waker) -> (r: PollState<Self::Output>)
        requires
            old(self).is_pending(),
        ensures
            r is NotReady <==> final(self).is_pending(),
    ;
}

} // verus!
