//! Stuffing bytes.
use crate::mpegts::wire::repeated;
use crate::mpegts::WritableLen;
use vstd::prelude::*;

verus! {

/// A run of stuffing: the byte, and how many times it is written.
#[derive(Debug, Clone, Copy, PartialEq, Eq, Structural, Hash)]
pub struct Stuffing(pub u8, pub usize);

/// The bytes of a run of stuffing.
pub open spec fn stuffing_bytes(s: Stuffing) -> Seq<u8> {
    repeated(s.0, s.1 as nat)
}

impl WritableLen for Stuffing {
    open spec fn wire_len(&self) -> nat {
        self.1 as nat
    }

    fn writable_len(&self) -> usize {
        self.1
    }
}

} // verus!
