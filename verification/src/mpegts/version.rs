//! The version number of a PSI table.
use crate::error::Error;
use vstd::prelude::*;

verus! {

/// Version number for PSI table syntax section: a 5-bit number that wraps.
#[derive(Debug, Clone, Copy, PartialEq, Eq, Hash, PartialOrd, Ord)]
pub struct VersionNumber(u8);

impl View for VersionNumber {
    type V = u8;

    closed spec fn view(&self) -> u8 {
        self.0
    }
}

impl VersionNumber {
    /// Maximum version number.
    pub const MAX: u8 = 31;

    #[verifier::type_invariant]
    spec fn in_range(self) -> bool {
        self.0 <= VersionNumber::MAX
    }

    /// Makes a new `VersionNumber` that has the value `0`.
    pub fn new() -> (r: Self)
        ensures
            r@ == 0,
    {
        VersionNumber(0)
    }

    /// Makes a new `VersionNumber` with the given value; a value above
    /// [`VersionNumber::MAX`] is refused.
    pub fn from_u8(n: u8) -> (r: Result<Self, Error>)
        ensures
            n <= VersionNumber::MAX ==> (r matches Ok(v) && v@ == n),
            n > VersionNumber::MAX ==> r == Err::<Self, Error>(Error::ValueTooLarge(n as u64)),
    {
        if n > VersionNumber::MAX {
            return Err(Error::ValueTooLarge(n as u64));
        }
        Ok(VersionNumber(n))
    }

    /// Returns the value of the version number.
    pub fn as_u8(&self) -> (r: u8)
        ensures
            r == self@,
            r <= VersionNumber::MAX,
    {
        proof {
            use_type_invariant(self);
        }
        self.0
    }

    /// Increments the version number; after 31 comes 0.
    pub fn increment(&mut self)
        ensures
            final(self)@ == (old(self)@ + 1) % 32,
    {
        proof {
            use_type_invariant(&*self);
        }
        self.0 = (self.0 + 1) % 32;
    }

    /// Two version numbers with the same value are the same.
    pub proof fn lemma_view_determines(a: Self, b: Self)
        requires
            a@ == b@,
        ensures
            a == b,
    {
    }
}

impl Default for VersionNumber {
    fn default() -> (r: Self)
        ensures
            r@ == 0,
    {
        VersionNumber::new()
    }
}

} // verus!
