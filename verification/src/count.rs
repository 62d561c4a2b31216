//! Counts of at least one.

use vstd::prelude::*;

verus! {

/// A 64-bit count that is never zero. Only [`NonZeroU64::new`] makes one,
/// so no value of this type holds zero.
#[derive(Clone, Copy, Debug, PartialEq, Eq, Hash)]
pub struct NonZeroU64 {
    value: u64,
}

impl View for NonZeroU64 {
    type V = u64;

    closed spec fn view(&self) -> u64 {
        self.value
    }
}

impl DeepView for NonZeroU64 {
    type V = u64;

    open spec fn deep_view(&self) -> u64 {
        self@
    }
}

impl NonZeroU64 {
    #[verifier::type_invariant]
    spec fn is_positive(self) -> bool {
        self.value >= 1
    }

    /// The count `n`, unless `n` is zero.
    pub fn new(n: u64) -> (r: Option<NonZeroU64>)
        ensures
            match r {
                Some(count) => n != 0 && count@ == n,
                None => n == 0,
            },
    {
        if n == 0 {
            None
        } else {
            Some(NonZeroU64 { value: n })
        }
    }

    /// The count as a number; it is at least one.
    pub fn get(&self) -> (n: u64)
        ensures
            n == self@,
            n >= 1,
    {
        proof {
            use_type_invariant(self);
        }
        self.value
    }
}

} // verus!
