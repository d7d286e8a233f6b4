//! The transport stream codec: value types, wire format and packet reader/writer.
use vstd::prelude::*;

pub mod bytes;
pub mod continuity_counter;
pub mod crc32;
pub mod io;
pub mod legal_time_window;
pub mod pid;
pub mod piecewise_rate;
pub mod seamless_splice;
pub mod stream_id;
pub mod stream_type;
pub mod timestamp;
pub mod ts;
pub mod version;
pub mod wire;

verus! {

/// What an optional value holds, if it is there.
pub open spec fn view_of<T: View>(o: Option<T>) -> Option<T::V> {
    match o {
        Some(x) => Some(x@),
        None => None,
    }
}

/// Whether `r` is the outcome that `expected` describes: the same error, or
/// a value that holds what is expected.
pub open spec fn reads_as<T: View>(r: Result<T, crate::error::Error>, expected: Result<
    T::V,
    crate::error::Error,
>) -> bool {
    match expected {
        Ok(v) => r matches Ok(x) && x@ == v,
        Err(e) => r == Err::<T, crate::error::Error>(e),
    }
}

/// The list that starts with `acc` and goes on with what `r` holds, or the
/// error of `r`.
pub open spec fn prepend<T>(acc: Seq<T>, r: Result<Seq<T>, crate::error::Error>) -> Result<
    Seq<T>,
    crate::error::Error,
> {
    match r {
        Ok(rest) => Ok(acc + rest),
        Err(e) => Err(e),
    }
}

/// Reading one item more moves it from the rest to the list read so far.
pub proof fn lemma_prepend_step<T>(acc: Seq<T>, first: T, r: Result<Seq<T>, crate::error::Error>)
    ensures
        prepend(
            acc,
            match r {
                Ok(rest) => Ok(seq![first] + rest),
                Err(e) => Err(e),
            },
        ) == prepend(acc.push(first), r),
{
    match r {
        Ok(rest) => {
            assert(acc + (seq![first] + rest) =~= acc.push(first) + rest);
        },
        Err(e) => {},
    }
}

/// With nothing left to read, the list read so far is the whole list.
pub proof fn lemma_prepend_done<T>(acc: Seq<T>)
    ensures
        prepend(acc, Ok(Seq::<T>::empty())) == Ok::<Seq<T>, crate::error::Error>(acc),
{
    assert(acc + Seq::<T>::empty() =~= acc);
}

/// Whether bit `mask` of `byte` is set; `mask` is a power of two.
pub open spec fn has_bit(byte: u8, mask: int) -> bool {
    (byte as int / mask) % 2 == 1
}

/// Values that know how many bytes their payload encoding takes.
pub trait WritableLen {
    /// Number of bytes of the encoding.
    spec fn wire_len(&self) -> nat;

    /// Returns the number of bytes of the encoding.
    fn writable_len(&self) -> (r: usize)
        requires
            self.wire_len() <= usize::MAX,
        ensures
            r == self.wire_len(),
    ;
}

/// Whether bit `mask` of `byte` is set; `mask` is a power of two.
pub fn test_bit(byte: u8, mask: u8) -> (r: bool)
    requires
        mask > 0,
    ensures
        r == has_bit(byte, mask as int),
{
    (byte / mask) % 2 == 1
}

} // verus!
