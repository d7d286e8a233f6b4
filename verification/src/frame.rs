//! The frame model: what the muxer consumes and the demuxer produces.
use vstd::prelude::*;

verus! {

/// Four-character code naming a codec, packed big-endian into one word.
#[derive(Debug, Clone, Copy, PartialEq, Eq, Structural, Hash, Default)]
pub struct Fourcc(pub u32);

impl Fourcc {
    /// Code of AVC (H.264) video, `avc1`.
    pub const VIDEO_AVC: u32 = 0x6176_6331;

    /// Code of HEVC (H.265) video, `hvc1`.
    pub const VIDEO_HEVC: u32 = 0x6876_6331;
}

/// A set of frame flags, one bit each.
#[derive(Debug, Clone, Copy, PartialEq, Eq, Structural, Hash, Default)]
pub struct FrameFlags(pub u32);

impl FrameFlags {
    /// The stream can be split on that frame.
    pub const KEYFRAME: u32 = 0x1;

    /// The frame comes with decoding parameters.
    pub const HAS_PARAMS: u32 = 0x10;

    /// The frame is encoded.
    pub const ENCODED: u32 = 0x80;

    /// The chunks of the frame start with Annex-B start codes.
    pub const ANNEXB: u32 = 0x200;

    /// The frame belongs to a video stream.
    pub const VIDEO_STREAM: u32 = 0x2_0000;

    /// Whether all bits of `flag` are in the set.
    pub open spec fn has(self, flag: u32) -> bool {
        (self.0 & flag) == flag
    }

    /// Whether all bits of `flag` are in the set.
    pub fn contains(&self, flag: u32) -> (r: bool)
        ensures
            r == self.has(flag),
    {
        (self.0 & flag) == flag
    }

    /// The set with the bits of `flag` added.
    pub fn with(self, flag: u32) -> (r: Self)
        ensures
            r.0 == self.0 | flag,
    {
        FrameFlags(self.0 | flag)
    }
}

/// Where demuxed frames come from: the codec of the stream and its decoding
/// parameters.
#[derive(Debug, Clone, PartialEq, Eq, Default)]
pub struct Mpeg2TsSource {
    pub codec: Fourcc,
    pub params: Vec<Vec<u8>>,
}

/// A demuxed frame: one access unit in Annex-B form.
#[derive(Debug, Clone, PartialEq, Eq)]
pub struct Mpeg2TsFrame {
    /// Presentation time in microseconds.
    pub pts: i64,
    /// Decoding time in microseconds.
    pub dts: u64,
    pub keyframe: bool,
    pub payload: Vec<u8>,
    pub source: Mpeg2TsSource,
}

/// What a [`Mpeg2TsFrame`] holds.
pub ghost struct Mpeg2TsFrameView {
    pub codec: Fourcc,
    pub pts: i64,
    pub dts: u64,
    pub keyframe: bool,
    pub payload: Seq<u8>,
}

impl View for Mpeg2TsFrame {
    type V = Mpeg2TsFrameView;

    open spec fn view(&self) -> Mpeg2TsFrameView {
        Mpeg2TsFrameView {
            codec: self.source.codec,
            pts: self.pts,
            dts: self.dts,
            keyframe: self.keyframe,
            payload: self.payload@,
        }
    }
}

impl Mpeg2TsFrame {
    /// The flags of a demuxed frame: encoded Annex-B video, and a keyframe
    /// where `keyframe` says so.
    pub open spec fn flag_bits(keyframe: bool) -> u32 {
        (if keyframe {
            FrameFlags::KEYFRAME
        } else {
            0u32
        }) | FrameFlags::ENCODED | FrameFlags::ANNEXB | FrameFlags::VIDEO_STREAM
    }

    /// Presentation time in microseconds.
    pub fn pts(&self) -> (r: i64)
        ensures
            r == self@.pts,
    {
        self.pts
    }

    /// Decoding time in microseconds.
    pub fn timestamp(&self) -> (r: u64)
        ensures
            r == self@.dts,
    {
        self.dts
    }

    /// The codec of the stream.
    pub fn codec(&self) -> (r: Fourcc)
        ensures
            r == self@.codec,
    {
        self.source.codec
    }

    /// The decoding parameters of the stream.
    pub fn params(&self) -> (r: &Vec<Vec<u8>>)
        ensures
            r == &self.source.params,
    {
        &self.source.params
    }

    /// The one chunk of the frame: its access unit.
    pub fn chunks(&self) -> (r: &Vec<u8>)
        ensures
            r@ == self@.payload,
    {
        &self.payload
    }

    /// The source of the frame.
    pub fn source(&self) -> (r: &Mpeg2TsSource)
        ensures
            r == &self.source,
    {
        &self.source
    }

    /// The flags of the frame.
    pub fn flags(&self) -> (r: FrameFlags)
        ensures
            r.0 == Self::flag_bits(self@.keyframe),
            r.has(FrameFlags::KEYFRAME) == self@.keyframe,
            r.has(FrameFlags::ENCODED),
            r.has(FrameFlags::ANNEXB),
            r.has(FrameFlags::VIDEO_STREAM),
            !r.has(FrameFlags::HAS_PARAMS),
    {
        let key: u32 = if self.keyframe {
            FrameFlags::KEYFRAME
        } else {
            0
        };
        let r = FrameFlags(key).with(FrameFlags::ENCODED).with(FrameFlags::ANNEXB).with(
            FrameFlags::VIDEO_STREAM,
        );
        let bits: u32 = r.0;
        assert({
            &&& ((bits & 0x1u32) == 0x1u32) == (key == 1)
            &&& (bits & 0x80u32) == 0x80u32
            &&& (bits & 0x200u32) == 0x200u32
            &&& (bits & 0x2_0000u32) == 0x2_0000u32
            &&& (bits & 0x10u32) != 0x10u32
        }) by (bit_vector)
            requires
                key == 0 || key == 1,
                bits == ((key | 0x80u32) | 0x200u32) | 0x2_0000u32,
        ;
        r
    }
}

/// An encoded video frame as the muxer takes it: codec, presentation time,
/// flags, the parameter sets of the stream, and the units of the frame.
#[derive(Debug, Clone, PartialEq, Eq, Default)]
pub struct EncodedFrame {
    pub codec: Fourcc,
    /// Presentation time in microseconds.
    pub pts: i64,
    pub flags: FrameFlags,
    /// Parameter sets (for H.264 and H.265: VPS, SPS, PPS), one chunk each.
    pub params: Vec<Vec<u8>>,
    /// NAL units, one chunk each, or one chunk with a whole access unit.
    pub units: Vec<Vec<u8>>,
}

/// What an [`EncodedFrame`] holds, as the muxer reads it.
pub ghost struct EncodedFrameView {
    pub codec: Fourcc,
    pub pts: i64,
    pub keyframe: bool,
    pub has_params: bool,
    pub annexb: bool,
    pub params: Seq<Seq<u8>>,
    pub units: Seq<Seq<u8>>,
}

impl View for EncodedFrame {
    type V = EncodedFrameView;

    open spec fn view(&self) -> EncodedFrameView {
        EncodedFrameView {
            codec: self.codec,
            pts: self.pts,
            keyframe: self.flags.has(FrameFlags::KEYFRAME),
            has_params: self.flags.has(FrameFlags::HAS_PARAMS),
            annexb: self.flags.has(FrameFlags::ANNEXB),
            params: self.params@.map_values(|c: Vec<u8>| c@),
            units: self.units@.map_values(|c: Vec<u8>| c@),
        }
    }
}

impl EncodedFrame {
    /// The codec of the frame.
    pub fn codec(&self) -> (r: Fourcc)
        ensures
            r == self@.codec,
    {
        self.codec
    }

    /// Presentation time in microseconds.
    pub fn pts(&self) -> (r: i64)
        ensures
            r == self@.pts,
    {
        self.pts
    }

    /// Whether the frame has all bits of `flag`.
    pub fn has_flag(&self, flag: u32) -> (r: bool)
        ensures
            r == self.flags.has(flag),
    {
        self.flags.contains(flag)
    }

    /// Whether the stream can be split on the frame.
    pub fn is_keyframe(&self) -> (r: bool)
        ensures
            r == self@.keyframe,
    {
        self.flags.contains(FrameFlags::KEYFRAME)
    }

    /// Whether the frame comes with decoding parameters.
    pub fn has_params(&self) -> (r: bool)
        ensures
            r == self@.has_params,
    {
        self.flags.contains(FrameFlags::HAS_PARAMS)
    }
}

} // verus!
