//! The legal time window of an adaptation field extension.
use super::WritableLen;
use crate::error::Error;
use vstd::prelude::*;

verus! {

/// Legal time window: a validity flag and a 15-bit offset.
#[derive(Debug, Clone, Copy, PartialEq, Eq, Hash)]
pub struct LegalTimeWindow {
    pub(crate) is_valid: bool,
    pub(crate) offset: u16,
}

/// What a [`LegalTimeWindow`] holds.
pub ghost struct LegalTimeWindowView {
    pub is_valid: bool,
    pub offset: u16,
}

impl View for LegalTimeWindow {
    type V = LegalTimeWindowView;

    closed spec fn view(&self) -> LegalTimeWindowView {
        LegalTimeWindowView { is_valid: self.is_valid, offset: self.offset }
    }
}

/// The 16-bit field of a legal time window: the flag, then the offset.
pub open spec fn legal_time_window_word(w: LegalTimeWindowView) -> int {
    (if w.is_valid {
        0x8000int
    } else {
        0int
    }) + w.offset as int
}

impl LegalTimeWindow {
    /// Maximum offset value.
    pub const MAX_OFFSET: u16 = 0x7FFF;

    #[verifier::type_invariant]
    spec fn in_range(self) -> bool {
        self.offset <= LegalTimeWindow::MAX_OFFSET
    }

    /// Makes a new `LegalTimeWindow`; an offset above
    /// [`LegalTimeWindow::MAX_OFFSET`] is refused.
    pub fn new(is_valid: bool, offset: u16) -> (r: Result<Self, Error>)
        ensures
            offset <= LegalTimeWindow::MAX_OFFSET ==> (r matches Ok(w) && w@
                == LegalTimeWindowView { is_valid, offset }),
            offset > LegalTimeWindow::MAX_OFFSET ==> r == Err::<Self, Error>(
                Error::ValueTooLarge(offset as u64),
            ),
    {
        if offset > LegalTimeWindow::MAX_OFFSET {
            return Err(Error::ValueTooLarge(offset as u64));
        }
        Ok(LegalTimeWindow { is_valid, offset })
    }

    /// Returns `true` if the window is valid, otherwise `false`.
    pub fn is_valid(&self) -> (r: bool)
        ensures
            r == self@.is_valid,
    {
        self.is_valid
    }

    /// Returns the offset of the window.
    pub fn offset(&self) -> (r: u16)
        ensures
            r == self@.offset,
            r <= LegalTimeWindow::MAX_OFFSET,
    {
        proof {
            use_type_invariant(self);
        }
        self.offset
    }

    /// Two windows that hold the same are the same window.
    pub proof fn lemma_view_determines(a: Self, b: Self)
        requires
            a@ == b@,
        ensures
            a == b,
    {
    }
}

impl WritableLen for LegalTimeWindow {
    open spec fn wire_len(&self) -> nat {
        2
    }

    fn writable_len(&self) -> usize {
        2
    }
}

} // verus!
