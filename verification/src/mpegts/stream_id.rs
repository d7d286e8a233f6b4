//! Stream identifiers of PES packets.
use crate::error::Error;
use vstd::prelude::*;

verus! {

/// Stream identifier.
#[derive(Debug, Clone, Copy, PartialEq, Eq, Hash, PartialOrd, Ord)]
pub struct StreamId(u8);

impl View for StreamId {
    type V = u8;

    closed spec fn view(&self) -> u8 {
        self.0
    }
}

impl StreamId {
    /// Minimum value of the identifiers for audio streams.
    pub const AUDIO_MIN: u8 = 0xC0;

    /// Maximum value of the identifiers for audio streams.
    pub const AUDIO_MAX: u8 = 0xDF;

    /// Minimum value of the identifiers for video streams.
    pub const VIDEO_MIN: u8 = 0xE0;

    /// Maximum value of the identifiers for video streams.
    pub const VIDEO_MAX: u8 = 0xEF;

    /// Makes a new `StreamId`.
    pub fn new(id: u8) -> (r: Self)
        ensures
            r@ == id,
    {
        StreamId(id)
    }

    /// Makes a new `StreamId` for an audio stream; an identifier outside the
    /// audio range is refused.
    pub fn new_audio(id: u8) -> (r: Result<Self, Error>)
        ensures
            StreamId::AUDIO_MIN <= id <= StreamId::AUDIO_MAX ==> (r matches Ok(s) && s@ == id),
            !(StreamId::AUDIO_MIN <= id <= StreamId::AUDIO_MAX) ==> r == Err::<Self, Error>(
                Error::WrongAudioStreamId(id),
            ),
    {
        if id < StreamId::AUDIO_MIN || id > StreamId::AUDIO_MAX {
            return Err(Error::WrongAudioStreamId(id));
        }
        Ok(StreamId(id))
    }

    /// Makes a new `StreamId` for a video stream; an identifier outside the
    /// video range is refused.
    pub fn new_video(id: u8) -> (r: Result<Self, Error>)
        ensures
            StreamId::VIDEO_MIN <= id <= StreamId::VIDEO_MAX ==> (r matches Ok(s) && s@ == id),
            !(StreamId::VIDEO_MIN <= id <= StreamId::VIDEO_MAX) ==> r == Err::<Self, Error>(
                Error::WrongVideoStreamId(id),
            ),
    {
        if id < StreamId::VIDEO_MIN || id > StreamId::VIDEO_MAX {
            return Err(Error::WrongVideoStreamId(id));
        }
        Ok(StreamId(id))
    }

    /// Returns the value of the identifier.
    pub fn as_u8(&self) -> (r: u8)
        ensures
            r == self@,
    {
        self.0
    }

    /// Returns `true` if it is an audio identifier, otherwise `false`.
    pub fn is_audio(&self) -> (r: bool)
        ensures
            r == (StreamId::AUDIO_MIN <= self@ <= StreamId::AUDIO_MAX),
    {
        StreamId::AUDIO_MIN <= self.0 && self.0 <= StreamId::AUDIO_MAX
    }

    /// Returns `true` if it is a video identifier, otherwise `false`.
    pub fn is_video(&self) -> (r: bool)
        ensures
            r == (StreamId::VIDEO_MIN <= self@ <= StreamId::VIDEO_MAX),
    {
        StreamId::VIDEO_MIN <= self.0 && self.0 <= StreamId::VIDEO_MAX
    }

    /// Two identifiers with the same value are the same identifier.
    pub proof fn lemma_view_determines(a: Self, b: Self)
        requires
            a@ == b@,
        ensures
            a == b,
    {
    }
}

} // verus!
