//! Counts that cannot be zero.
use vstd::prelude::*;

verus! {

/// A `usize` that is known not to be zero.
#[derive(Debug, Clone, Copy, PartialEq, Eq, Structural)]
pub struct NonZeroUsize {
    value: usize,
}

impl NonZeroUsize {
    #[verifier::type_invariant]
    spec fn is_positive(self) -> bool {
        self.value > 0
    }

    /// The count itself.
    pub closed spec fn count(self) -> usize {
        self.value
    }

    /// The count, if it is not zero.
    pub fn new(value: usize) -> (count: Option<NonZeroUsize>)
        ensures
            count is Some <==> value != 0,
            count matches Some(n) ==> n.count() == value,
    {
        if value == 0 {
            None
        } else {
            Some(NonZeroUsize { value })
        }
    }

    /// The smallest count, one.
    pub fn one() -> (count: NonZeroUsize)
        ensures
            count.count() == 1,
    {
        NonZeroUsize { value: 1 }
    }

    /// The count as a plain integer.
    pub fn get(self) -> (value: usize)
        ensures
            value == self.count(),
            value > 0,
    {
        proof {
            use_type_invariant(&self);
        }
        self.value
    }
}

} // verus!
