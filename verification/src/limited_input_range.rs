//! An integer confined to a closed range fixed at compile time.

use std::ops::Deref;
use vstd::prelude::*;
use vstd::std_specs::convert::{TryFromSpec, TryFromSpecImpl};

verus! {

/// Why a value was refused by [`LimitedInputRange`].
#[derive(Debug, PartialEq, Eq, Structural)]
pub enum RangeError {
    /// The value lies below the lower bound.
    UnderRange,
    /// The value lies above the upper bound.
    OverRange,
}

/// A `usize` that is known to lie in `[MIN, MAX]`.
///
/// The only way to obtain one is `try_from`, which refuses everything
/// outside the range; after that the value never changes.
#[derive(Debug, PartialEq, Eq, Clone, Copy)]
pub struct LimitedInputRange<const MIN: usize, const MAX: usize>(usize);

/// On which side of `[min, max]` a value falls out, if on any. The lower
/// bound is tested first.
pub open spec fn range_fault(min: int, max: int, value: int) -> Option<RangeError> {
    if value < min {
        Some(RangeError::UnderRange)
    } else if value > max {
        Some(RangeError::OverRange)
    } else {
        None
    }
}

impl<const MIN: usize, const MAX: usize> View for LimitedInputRange<MIN, MAX> {
    type V = int;

    /// The wrapped number.
    closed spec fn view(&self) -> int {
        self.0 as int
    }
}

impl<const MIN: usize, const MAX: usize> LimitedInputRange<MIN, MAX> {
    /// The range invariant: the wrapped number lies in `[MIN, MAX]`.
    #[verifier::type_invariant]
    pub open spec fn wf(&self) -> bool {
        MIN <= self@ <= MAX
    }

    /// The wrapped number.
    pub fn value(&self) -> (v: usize)
        ensures
            v == self@,
            MIN <= v <= MAX,
    {
        proof {
            use_type_invariant(self);
        }
        self.0
    }

    /// Every value inside the range is accepted, and what was accepted
    /// reads back as the value that went in.
    pub proof fn lemma_in_range_round_trips(value: usize)
        requires
            MIN <= value <= MAX,
        ensures
            <Self as TryFromSpec<usize>>::try_from_spec(value) matches Ok(accepted)
                && accepted@ == value && accepted.wf(),
    {
    }

    /// Every value outside the range is refused: below `MIN` as
    /// `UnderRange`, above `MAX` as `OverRange`.
    pub proof fn lemma_out_of_range_is_refused(value: usize)
        ensures
            value < MIN ==> <Self as TryFromSpec<usize>>::try_from_spec(value) == Err::<
                Self,
                RangeError,
            >(RangeError::UnderRange),
            MIN <= value && value > MAX ==> <Self as TryFromSpec<usize>>::try_from_spec(value)
                == Err::<Self, RangeError>(RangeError::OverRange),
    {
    }
}

impl<const MIN: usize, const MAX: usize> TryFromSpecImpl<usize> for LimitedInputRange<MIN, MAX> {
    open spec fn obeys_try_from_spec() -> bool {
        true
    }

    /// What `try_from` returns.
    closed spec fn try_from_spec(value: usize) -> Result<Self, RangeError> {
        match range_fault(MIN as int, MAX as int, value as int) {
            Some(fault) => Err(fault),
            None => Ok(LimitedInputRange(value)),
        }
    }
}

impl<const MIN: usize, const MAX: usize> TryFrom<usize> for LimitedInputRange<MIN, MAX> {
    type Error = RangeError;

    /// Wraps `value` when it lies in `[MIN, MAX]`, and says on which side
    /// it fell out otherwise.
    fn try_from(value: usize) -> (r: Result<Self, RangeError>)
        ensures
            match r {
                Ok(accepted) => range_fault(MIN as int, MAX as int, value as int) is None
                    && accepted@ == value && accepted.wf(),
                Err(fault) => range_fault(MIN as int, MAX as int, value as int) == Some(fault),
            },
    {
        if value < MIN {
            Err(RangeError::UnderRange)
        } else if value > MAX {
            Err(RangeError::OverRange)
        } else {
            Ok(LimitedInputRange(value))
        }
    }
}

impl<const MIN: usize, const MAX: usize> Deref for LimitedInputRange<MIN, MAX> {
    type Target = usize;

    /// Borrows the wrapped number.
    fn deref(&self) -> (v: &usize)
        ensures
            *v == self@,
            MIN <= *v <= MAX,
    {
        proof {
            use_type_invariant(self);
        }
        &self.0
    }
}

} // verus!
