//! The answer of one advancement of a suspendable computation.

use vstd::prelude::*;

verus! {

/// What one advancement of a suspendable computation reports.
#[derive(Debug, PartialEq, Eq)]
pub enum Step<T> {
    /// The computation finished with this value.
    Ready(T),
    /// The computation is not finished; it has recorded whom to wake.
    Pending,
}

impl<T> Step<T> {
    /// Whether the step carries a final value.
    pub fn is_ready(&self) -> (r: bool)
        ensures
            r == (*self is Ready),
    {
        match self {
            Step::Ready(_) => true,
            Step::Pending => false,
        }
    }
}

} // verus!
