//! The outcome of resuming a computation once.

use vstd::prelude::*;

verus! {

/// Whether a resumed computation has produced its value or has suspended again.
#[derive(Debug, PartialEq, Eq)]
pub enum Poll<T> {
    /// The computation has finished with this value.
    Ready(T),
    /// The computation has suspended and wants to be resumed later.
    Pending,
}

impl<T> Poll<T> {
    /// Whether the computation has finished.
    pub fn is_ready(&self) -> (b: bool)
        ensures
            b == (self is Ready),
    {
        match self {
            Poll::Ready(_) => true,
            Poll::Pending => false,
        }
    }

    /// Whether the computation has suspended.
    pub fn is_pending(&self) -> (b: bool)
        ensures
            b == (self is Pending),
    {
        match self {
            Poll::Ready(_) => false,
            Poll::Pending => true,
        }
    }
}

impl Poll<()> {
    /// The outcome of a computation without a value: `Ready` if it has
    /// finished, `Pending` if not.
    pub open spec fn ready_if(finished: bool) -> Poll<()> {
        if finished {
            Poll::Ready(())
        } else {
            Poll::Pending
        }
    }

    /// The outcome of two computations taken together: finished once both
    /// have finished, suspended as long as either is.
    pub fn and(self, other: Poll<()>) -> (both: Poll<()>)
        ensures
            both == Poll::ready_if(self is Ready && other is Ready),
    {
        match (self, other) {
            (Poll::Ready(_), Poll::Ready(_)) => Poll::Ready(()),
            _ => Poll::Pending,
        }
    }
}

} // verus!
