//! Payload bytes of one packet.
use super::wire::copy_range;
use super::WritableLen;
use crate::error::Error;
use vstd::prelude::*;

verus! {

/// Byte sequence used to represent packet payload data: at most
/// [`RawData::MAX_SIZE`] bytes.
#[derive(Debug, PartialEq, Eq, Hash)]
pub struct RawData {
    buf: Vec<u8>,
}

impl View for RawData {
    type V = Seq<u8>;

    closed spec fn view(&self) -> Seq<u8> {
        self.buf@
    }
}

impl RawData {
    /// Maximum size of a byte sequence: a packet without its header.
    pub const MAX_SIZE: usize = 184;

    #[verifier::type_invariant]
    spec fn fits(self) -> bool {
        self.buf@.len() <= RawData::MAX_SIZE
    }

    /// Makes a new `RawData` holding a copy of `bytes`; more than
    /// [`RawData::MAX_SIZE`] bytes are refused.
    pub fn new(bytes: &[u8]) -> (r: Result<Self, Error>)
        ensures
            bytes@.len() <= RawData::MAX_SIZE ==> (r matches Ok(d) && d@ == bytes@),
            bytes@.len() > RawData::MAX_SIZE ==> r == Err::<Self, Error>(
                Error::ValueTooLarge(bytes@.len() as u64),
            ),
    {
        if bytes.len() > RawData::MAX_SIZE {
            return Err(Error::ValueTooLarge(bytes.len() as u64));
        }
        let buf = copy_range(bytes, 0, bytes.len());
        assert(bytes@.subrange(0, bytes@.len() as int) =~= bytes@);
        Ok(RawData { buf })
    }

    /// The bytes held.
    pub fn as_slice(&self) -> (r: &[u8])
        ensures
            r@ == self@,
            r@.len() <= RawData::MAX_SIZE,
    {
        proof {
            use_type_invariant(self);
        }
        self.buf.as_slice()
    }

    /// The number of bytes held.
    pub fn len(&self) -> (r: usize)
        ensures
            r == self@.len(),
            r <= RawData::MAX_SIZE,
    {
        proof {
            use_type_invariant(self);
        }
        self.buf.len()
    }
}

impl Clone for RawData {
    fn clone(&self) -> (r: Self)
        ensures
            r@ == self@,
    {
        proof {
            use_type_invariant(self);
        }
        let buf = copy_range(self.buf.as_slice(), 0, self.buf.len());
        assert(self.buf@.subrange(0, self.buf@.len() as int) =~= self.buf@);
        RawData { buf }
    }
}

impl WritableLen for RawData {
    open spec fn wire_len(&self) -> nat {
        self@.len()
    }

    fn writable_len(&self) -> usize {
        self.len()
    }
}

} // verus!
