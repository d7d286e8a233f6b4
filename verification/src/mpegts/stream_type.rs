//! Stream types of elementary streams.
use vstd::prelude::*;

verus! {

/// Stream type of an elementary stream, as a PMT names it.
///
/// Every value is accepted; the codec acts on [`StreamType::H264`] and
/// [`StreamType::H265`] only.
#[derive(Debug, Clone, Copy, PartialEq, Eq, Hash)]
pub struct StreamType(u8);

impl View for StreamType {
    type V = u8;

    closed spec fn view(&self) -> u8 {
        self.0
    }
}

impl StreamType {
    /// Value of H.264 video.
    pub const H264: u8 = 0x1B;

    /// Value of H.265 video.
    pub const H265: u8 = 0x24;

    /// Makes the stream type with the given value.
    pub fn from_u8(n: u8) -> (r: Self)
        ensures
            r@ == n,
    {
        StreamType(n)
    }

    /// Returns the value of the stream type.
    pub fn as_u8(&self) -> (r: u8)
        ensures
            r == self@,
    {
        self.0
    }

    /// Two stream types with the same value are the same stream type.
    pub proof fn lemma_view_determines(a: Self, b: Self)
        requires
            a@ == b@,
        ensures
            a == b,
    {
    }
}

} // verus!
