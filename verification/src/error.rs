//! Error values of the codec.
use crate::frame::Fourcc;
use vstd::prelude::*;

verus! {

/// The type of an input error that cannot occur: no value of it exists.
#[derive(Debug, Clone, Copy, PartialEq, Eq)]
pub struct Void {
    never: (),
}

impl Void {
    #[verifier::type_invariant]
    spec fn uninhabited(self) -> bool {
        false
    }
}

/// What can go wrong while reading or writing a transport stream.
///
/// `E` is the error type of the stage that feeds the codec; the codec itself
/// only ever produces `Error<Void>`.
#[derive(Debug, Clone, PartialEq, Eq)]
pub enum Error<E = Void> {
    /// The input is truncated, a reserved field has the wrong value, a length
    /// does not fit, or a checksum does not match.
    TsGeneric,
    /// A stream identifier outside the audio range.
    WrongAudioStreamId(u8),
    /// A stream identifier outside the video range.
    WrongVideoStreamId(u8),
    /// A value that does not fit in the field it is meant for.
    ValueTooLarge(u64),
    /// Mandatory marker bits were not all set; the payload holds the bits
    /// that were found at the checked positions.
    UnexpectedMarkerBit(u64),
    /// A packet does not start with the synchronization byte.
    WrogSyncByte,
    /// A packet arrived on a PID that no table has announced.
    UnknownPid(u16),
    /// A PSI section without any table.
    PsiTableCountZero,
    /// A frame whose codec the muxer cannot carry.
    MuxUnsupportedCodec(Fourcc),
    /// An error of the input stage.
    Other(E),
}

impl Error<Void> {
    /// The same error, seen as an error of a pipeline whose input stage fails
    /// with `E`.
    pub open spec fn extended<E>(self) -> Error<E> {
        match self {
            Error::TsGeneric => Error::TsGeneric,
            Error::WrongAudioStreamId(id) => Error::WrongAudioStreamId(id),
            Error::WrongVideoStreamId(id) => Error::WrongVideoStreamId(id),
            Error::ValueTooLarge(val) => Error::ValueTooLarge(val),
            Error::UnexpectedMarkerBit(mask) => Error::UnexpectedMarkerBit(mask),
            Error::WrogSyncByte => Error::WrogSyncByte,
            Error::UnknownPid(pid) => Error::UnknownPid(pid),
            Error::PsiTableCountZero => Error::PsiTableCountZero,
            Error::MuxUnsupportedCodec(fourcc) => Error::MuxUnsupportedCodec(fourcc),
            Error::Other(_) => arbitrary(),
        }
    }

    /// Widens the error to a pipeline error, keeping variant and payload.
    pub fn extend<E>(self) -> (r: Error<E>)
        ensures
            r == self.extended::<E>(),
            !(r is Other),
    {
        match self {
            Error::TsGeneric => Error::TsGeneric,
            Error::WrongAudioStreamId(id) => Error::WrongAudioStreamId(id),
            Error::WrongVideoStreamId(id) => Error::WrongVideoStreamId(id),
            Error::ValueTooLarge(val) => Error::ValueTooLarge(val),
            Error::UnexpectedMarkerBit(mask) => Error::UnexpectedMarkerBit(mask),
            Error::WrogSyncByte => Error::WrogSyncByte,
            Error::UnknownPid(pid) => Error::UnknownPid(pid),
            Error::PsiTableCountZero => Error::PsiTableCountZero,
            Error::MuxUnsupportedCodec(fourcc) => Error::MuxUnsupportedCodec(fourcc),
            Error::Other(never) => {
                proof {
                    use_type_invariant(&never);
                }
                unreached()
            },
        }
    }
}

} // verus!
