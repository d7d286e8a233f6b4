//! The continuity counter of a packet.
use crate::error::Error;
use vstd::prelude::*;

verus! {

/// Continuity counter: a 4-bit number that wraps.
#[derive(Debug, Clone, Copy, PartialEq, Eq, Hash, PartialOrd, Ord)]
pub struct ContinuityCounter(u8);

impl View for ContinuityCounter {
    type V = u8;

    closed spec fn view(&self) -> u8 {
        self.0
    }
}

impl ContinuityCounter {
    /// Maximum counter value.
    pub const MAX: u8 = 15;

    /// What holds of every counter: its value has four bits.
    #[verifier::type_invariant]
    pub open spec fn in_range(self) -> bool {
        self@ <= ContinuityCounter::MAX
    }

    /// Makes a new `ContinuityCounter` that has the value `0`.
    pub fn new() -> (r: Self)
        ensures
            r@ == 0,
    {
        ContinuityCounter(0)
    }

    /// Makes a new `ContinuityCounter` with the given value; a value above
    /// [`ContinuityCounter::MAX`] is refused.
    pub fn from_u8(n: u8) -> (r: Result<Self, Error>)
        ensures
            n <= ContinuityCounter::MAX ==> (r matches Ok(c) && c@ == n),
            n > ContinuityCounter::MAX ==> r == Err::<Self, Error>(
                Error::ValueTooLarge(n as u64),
            ),
    {
        if n > ContinuityCounter::MAX {
            return Err(Error::ValueTooLarge(n as u64));
        }
        Ok(ContinuityCounter(n))
    }

    /// Returns the value of the counter.
    pub fn as_u8(&self) -> (r: u8)
        ensures
            r == self@,
            r <= ContinuityCounter::MAX,
    {
        proof {
            use_type_invariant(self);
        }
        self.0
    }

    /// Increments the counter; after 15 comes 0.
    pub fn increment(&mut self)
        ensures
            final(self)@ == (old(self)@ + 1) % 16,
    {
        proof {
            use_type_invariant(&*self);
        }
        self.0 = (self.0 + 1) % 16;
    }

    /// Two counters with the same value are the same counter.
    pub proof fn lemma_view_determines(a: Self, b: Self)
        requires
            a@ == b@,
        ensures
            a == b,
    {
    }
}

impl Default for ContinuityCounter {
    fn default() -> (r: Self)
        ensures
            r@ == 0,
    {
        ContinuityCounter::new()
    }
}

} // verus!
