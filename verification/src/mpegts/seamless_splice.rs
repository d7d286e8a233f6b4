//! The seamless splice of an adaptation field extension.
use super::timestamp::{pts_word, PtsDts, Timestamp};
use crate::error::Error;
use vstd::prelude::*;

verus! {

/// Seamless splice: a 4-bit splice type and the DTS of the next access unit.
#[derive(Debug, Clone, Copy, PartialEq, Eq, Hash)]
pub struct SeamlessSplice {
    pub(crate) splice_type: u8,
    pub(crate) dts_next_access_unit: Timestamp<PtsDts>,
}

/// What a [`SeamlessSplice`] holds.
pub ghost struct SeamlessSpliceView {
    pub splice_type: u8,
    pub dts_next_access_unit: u64,
}

impl View for SeamlessSplice {
    type V = SeamlessSpliceView;

    closed spec fn view(&self) -> SeamlessSpliceView {
        SeamlessSpliceView {
            splice_type: self.splice_type,
            dts_next_access_unit: self.dts_next_access_unit@,
        }
    }
}

/// The 40-bit word of a seamless splice: the DTS word with the splice type
/// as its tag.
pub open spec fn seamless_splice_word(s: SeamlessSpliceView) -> int {
    pts_word(s.dts_next_access_unit as int, s.splice_type as int)
}

impl SeamlessSplice {
    /// Maximum splice type value.
    pub const MAX_SPLICE_TYPE: u8 = 15;

    #[verifier::type_invariant]
    spec fn in_range(self) -> bool {
        self.splice_type <= SeamlessSplice::MAX_SPLICE_TYPE
    }

    /// Makes a new `SeamlessSplice`; a splice type above
    /// [`SeamlessSplice::MAX_SPLICE_TYPE`] is refused.
    pub fn new(splice_type: u8, dts_next_access_unit: Timestamp<PtsDts>) -> (r: Result<
        Self,
        Error,
    >)
        ensures
            splice_type <= SeamlessSplice::MAX_SPLICE_TYPE ==> (r matches Ok(s) && s@
                == SeamlessSpliceView {
                splice_type,
                dts_next_access_unit: dts_next_access_unit@,
            }),
            splice_type > SeamlessSplice::MAX_SPLICE_TYPE ==> r == Err::<Self, Error>(
                Error::ValueTooLarge(splice_type as u64),
            ),
    {
        if splice_type > SeamlessSplice::MAX_SPLICE_TYPE {
            return Err(Error::ValueTooLarge(splice_type as u64));
        }
        Ok(SeamlessSplice { splice_type, dts_next_access_unit })
    }

    /// Returns the splice type (i.e., parameters of the H.262 splice).
    pub fn splice_type(&self) -> (r: u8)
        ensures
            r == self@.splice_type,
            r <= SeamlessSplice::MAX_SPLICE_TYPE,
    {
        proof {
            use_type_invariant(self);
        }
        self.splice_type
    }

    /// Returns the PES DTS of the splice point.
    pub fn dts_next_access_unit(&self) -> (r: Timestamp<PtsDts>)
        ensures
            r@ == self@.dts_next_access_unit,
    {
        self.dts_next_access_unit
    }

    /// Two splices that hold the same are the same splice.
    pub proof fn lemma_view_determines(a: Self, b: Self)
        requires
            a@ == b@,
        ensures
            a == b,
    {
        Timestamp::<PtsDts>::lemma_view_determines(
            a.dts_next_access_unit,
            b.dts_next_access_unit,
        );
    }
}

} // verus!
