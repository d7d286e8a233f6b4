//! The piecewise rate of an adaptation field extension.
use super::WritableLen;
use crate::error::Error;
use vstd::prelude::*;

verus! {

/// Piecewise rate: a 22-bit number.
#[derive(Debug, Clone, Copy, PartialEq, Eq, Hash, PartialOrd, Ord)]
pub struct PiecewiseRate(pub(crate) u32);

impl View for PiecewiseRate {
    type V = u32;

    closed spec fn view(&self) -> u32 {
        self.0
    }
}

impl PiecewiseRate {
    /// Maximum rate.
    pub const MAX: u32 = 0x3F_FFFF;

    #[verifier::type_invariant]
    spec fn in_range(self) -> bool {
        self.0 <= PiecewiseRate::MAX
    }

    /// Makes a new `PiecewiseRate`; a rate above [`PiecewiseRate::MAX`] is
    /// refused.
    pub fn new(rate: u32) -> (r: Result<Self, Error>)
        ensures
            rate <= PiecewiseRate::MAX ==> (r matches Ok(p) && p@ == rate),
            rate > PiecewiseRate::MAX ==> r == Err::<Self, Error>(
                Error::ValueTooLarge(rate as u64),
            ),
    {
        if rate > PiecewiseRate::MAX {
            return Err(Error::ValueTooLarge(rate as u64));
        }
        Ok(PiecewiseRate(rate))
    }

    /// Returns the value of the `PiecewiseRate`.
    pub fn as_u32(&self) -> (r: u32)
        ensures
            r == self@,
            r <= PiecewiseRate::MAX,
    {
        proof {
            use_type_invariant(self);
        }
        self.0
    }

    /// Two rates with the same value are the same rate.
    pub proof fn lemma_view_determines(a: Self, b: Self)
        requires
            a@ == b@,
        ensures
            a == b,
    {
    }
}

impl WritableLen for PiecewiseRate {
    open spec fn wire_len(&self) -> nat {
        3
    }

    fn writable_len(&self) -> usize {
        3
    }
}

} // verus!
