//! The demultiplexing session: transport stream packets in, frames out.
//!
//! The session reads packet after packet, learns from PAT and PMT which
//! PIDs carry what, and gathers the elementary stream bytes of one PES
//! packet after the other. A frame is complete when the next PES packet
//! starts, or when the stream ends.
use crate::error::Error;
use crate::frame::{Fourcc, Mpeg2TsFrame, Mpeg2TsFrameView, Mpeg2TsSource};
use crate::mpegts::io::Mpeg2tsParser;
use crate::mpegts::pid::{kind_in, Pid, PidKind, PidTable};
use crate::mpegts::stream_type::StreamType;
use crate::mpegts::ts::packet::{
    is_reserved_pid, parse_ts_header_spec, parse_ts_packet_spec, table_after, TsPacketView,
    TsPayloadView,
};
use crate::mpegts::ts::pmt::{DescriptorView, EsInfoView, PmtView};
use crate::mpegts::ts::{Descriptor, EsInfo, Pes, Pmt, TsPacket, TsPayload};
use crate::mpegts::wire::{copy_range, put_slice, put_u32, u32_bytes};
use vstd::prelude::*;
use vstd::slice::slice_subrange;

verus! {

/// Stream id of the video PES packets that the demuxer gathers.
pub const PES_VIDEO_STREAM_ID: u8 = 224;

/// Demultiplexer state.
pub struct Mpeg2TsDemux {
    ignore: bool,
    parser: Mpeg2tsParser,
    base_ts: u64,
    fragm_idx: u64,
    frame_idx: u64,
    codec: Fourcc,
    is_keyframe: bool,
    is_params_updated: bool,
    descriptors: Vec<u8>,
    video_pid: Option<u16>,
    pts: u64,
    body: Vec<u8>,
}

/// What a [`Mpeg2TsDemux`] holds between two packets.
pub ghost struct DemuxView {
    /// The PIDs learned so far.
    pub table: PidTable,
    /// Whether no frame is being gathered: true until the first video PES
    /// packet starts, and after a PES packet that is no video or cannot be
    /// read.
    pub ignore: bool,
    /// The offset between presentation and decoding time of the frames.
    pub base_ts: u64,
    pub fragment_index: u64,
    /// The number of frames given out so far, as far as 64 bits count.
    pub frame_index: u64,
    /// The codec that the last PMT named.
    pub codec: Fourcc,
    /// Whether the frame being gathered started at a point of random access.
    pub is_keyframe: bool,
    /// Whether a PMT has changed the descriptors of the elementary streams
    /// since the last frame was given out.
    pub is_params_updated: bool,
    /// The descriptors of the elementary streams of the last PMT, as the
    /// bytes that mark them.
    pub descriptors: Seq<u8>,
    /// The PID on which the last video PES packet started: the frame is
    /// gathered from this PID alone.
    pub video_pid: Option<u16>,
    /// The presentation time of the frame being gathered, in microseconds.
    pub pts: u64,
    /// The elementary stream bytes gathered so far.
    pub body: Seq<u8>,
}

impl View for Mpeg2TsDemux {
    type V = DemuxView;

    closed spec fn view(&self) -> DemuxView {
        DemuxView {
            table: self.parser@,
            ignore: self.ignore,
            base_ts: self.base_ts,
            fragment_index: self.fragm_idx,
            frame_index: self.frame_idx,
            codec: self.codec,
            is_keyframe: self.is_keyframe,
            is_params_updated: self.is_params_updated,
            descriptors: self.descriptors@,
            video_pid: self.video_pid,
            pts: self.pts,
            body: self.body@,
        }
    }
}

/// Ticks of 90 kHz as microseconds, rounded down.
pub open spec fn pts_us_of(raw: u64) -> u64 {
    ((raw * 1_000_000) / 90_000) as u64
}

/// The sum of two 64-bit numbers, as far as 64 bits hold it.
pub open spec fn wrapping_sum(a: u64, b: u64) -> u64 {
    ((a + b) % 0x1_0000_0000_0000_0000) as u64
}

/// The codec after the elementary streams of a PMT were read: that of the
/// last stream that is H.264 or H.265, or the one before where none is.
pub open spec fn codec_after(codec: Fourcc, es: Seq<EsInfoView>) -> Fourcc
    decreases es.len(),
{
    if es.len() == 0 {
        codec
    } else if es.last().stream_type == StreamType::H264 {
        Fourcc(Fourcc::VIDEO_AVC)
    } else if es.last().stream_type == StreamType::H265 {
        Fourcc(Fourcc::VIDEO_HEVC)
    } else {
        codec_after(codec, es.drop_last())
    }
}

/// The eight bytes of a count.
pub open spec fn count_mark(n: nat) -> Seq<u8> {
    u32_bytes((n / 0x1_0000_0000) as int) + u32_bytes((n % 0x1_0000_0000) as int)
}

/// The bytes that mark a descriptor: its tag, the count of its data, its
/// data.
pub open spec fn descriptor_mark(d: DescriptorView) -> Seq<u8> {
    seq![d.tag] + count_mark(d.data.len()) + d.data
}

/// The bytes that mark descriptors, one after the other.
pub open spec fn descriptors_mark(ds: Seq<DescriptorView>) -> Seq<u8>
    decreases ds.len(),
{
    if ds.len() == 0 {
        Seq::empty()
    } else {
        descriptors_mark(ds.drop_last()) + descriptor_mark(ds.last())
    }
}

/// The bytes that mark the descriptors of elementary streams: for each
/// stream the count of its descriptors, then their marks.
pub open spec fn streams_mark(es: Seq<EsInfoView>) -> Seq<u8>
    decreases es.len(),
{
    if es.len() == 0 {
        Seq::empty()
    } else {
        streams_mark(es.drop_last()) + (count_mark(es.last().descriptors.len())
            + descriptors_mark(es.last().descriptors))
    }
}

/// The state after a PMT: the codec is that of its last stream that is
/// H.264 or H.265, and the parameters count as updated where the
/// descriptors of its streams are not those of the PMT before.
pub open spec fn after_pmt(s: DemuxView, pmt: PmtView) -> DemuxView {
    DemuxView {
        codec: codec_after(s.codec, pmt.es_info),
        is_params_updated: s.is_params_updated || streams_mark(pmt.es_info) != s.descriptors,
        descriptors: streams_mark(pmt.es_info),
        ..s
    }
}

/// The state after the frame gathered so far, if there is one, was given
/// out: it is counted, and the parameters count as updated no more.
pub open spec fn given_out(s: DemuxView) -> DemuxView {
    DemuxView {
        frame_index: frames_after(s),
        is_params_updated: s.ignore && s.is_params_updated,
        ..s
    }
}

/// The frame that is complete when the next PES packet starts or the
/// stream ends: none while nothing is being gathered.
pub open spec fn pending_frame(s: DemuxView) -> Option<Mpeg2TsFrameView> {
    if s.ignore {
        None
    } else {
        Some(
            Mpeg2TsFrameView {
                codec: s.codec,
                pts: s.pts as i64,
                dts: wrapping_sum(s.pts, s.base_ts),
                keyframe: s.is_keyframe,
                payload: s.body,
            },
        )
    }
}

/// The number of frames after the pending one, if there is one, was given
/// out.
pub open spec fn frames_after(s: DemuxView) -> u64 {
    if s.ignore {
        s.frame_index
    } else {
        wrapping_sum(s.frame_index, 1)
    }
}

/// Whether the adaptation field of a packet marks a point of random access.
pub open spec fn random_access(p: TsPacketView) -> bool {
    match p.adaptation_field {
        Some(a) => a.random_access_indicator,
        None => false,
    }
}

/// The state after nothing is gathered any more.
pub open spec fn discarded(s: DemuxView) -> DemuxView {
    DemuxView { ignore: true, body: Seq::empty(), ..s }
}

/// What a packet that was read does to the session, and the frame that it
/// completes.
///
/// A PMT sets the codec. The start of a video PES packet completes the
/// frame gathered so far and starts the next one with its PTS, the random
/// access mark of the packet and its data. The start of another PES packet
/// completes the frame gathered so far, and nothing is gathered until the
/// next video PES packet starts. A video PES packet without a PTS is an
/// error, and what was gathered is dropped. Raw bytes on the PID on which
/// the video PES packet started are added to the frame being gathered; raw
/// bytes on any other PID are passed over.
pub open spec fn demux_packet(s: DemuxView, p: TsPacketView) -> (
    DemuxView,
    Result<Option<Mpeg2TsFrameView>, Error>,
) {
    match p.payload {
        Some(TsPayloadView::Pmt(pmt)) => (after_pmt(s, pmt), Ok(None)),
        Some(TsPayloadView::Pes(pes)) => if pes.header.stream_id != PES_VIDEO_STREAM_ID {
            (discarded(given_out(s)), Ok(pending_frame(s)))
        } else {
            match pes.header.pts {
                None => (discarded(s), Err(Error::TsGeneric)),
                Some(raw) => (
                    DemuxView {
                        ignore: false,
                        is_keyframe: random_access(p),
                        video_pid: Some(p.header.pid),
                        pts: pts_us_of(raw),
                        body: pes.data,
                        ..given_out(s)
                    },
                    Ok(pending_frame(s)),
                ),
            }
        },
        Some(TsPayloadView::Raw(data)) => if !s.ignore && s.video_pid == Some(p.header.pid) {
            (DemuxView { body: s.body + data, ..s }, Ok(None))
        } else {
            (s, Ok(None))
        },
        _ => (s, Ok(None)),
    }
}

/// Whether the bytes of a packet announce the start of a PES packet: the
/// header reads, its PID was learned from a PMT, and it starts a unit.
pub open spec fn starts_pes(pids: Map<u16, PidKind>, bytes: Seq<u8>) -> bool {
    match parse_ts_header_spec(bytes) {
        Ok(h) => h.payload_unit_start_indicator && h.pid != Pid::PAT && h.pid != Pid::NULL
            && !is_reserved_pid(h.pid) && kind_in(pids, h.pid) == PidKind::Pes,
        Err(_) => false,
    }
}

/// What the bytes of one packet do to the session, and the frame that they
/// complete.
///
/// A packet on an unknown PID is dropped. A packet that cannot be read is
/// an error; where it was to start a PES packet, what was gathered is
/// dropped and nothing is gathered until the next video PES packet starts.
#[verifier::opaque]
pub open spec fn demux_step(s: DemuxView, bytes: Seq<u8>) -> (
    DemuxView,
    Result<Option<Mpeg2TsFrameView>, Error>,
) {
    match parse_ts_packet_spec(s.table.pids, bytes) {
        Ok(p) => demux_packet(DemuxView { table: table_after(s.table, p.payload), ..s }, p),
        Err(Error::UnknownPid(_)) => (s, Ok(None)),
        Err(e) => (
            if starts_pes(s.table.pids, bytes) {
                discarded(s)
            } else {
                s
            },
            Err(e),
        ),
    }
}

/// What a stretch of the stream does to the session: how many bytes are
/// read, and how reading ends. Packet after packet is read until one
/// completes a frame or is an error, or until less than a packet is left.
pub open spec fn demux_run(s: DemuxView, bytes: Seq<u8>) -> (
    DemuxView,
    nat,
    Result<Option<Mpeg2TsFrameView>, Error>,
)
    decreases bytes.len(),
{
    if bytes.len() < TsPacket::SIZE {
        (s, 0, Ok(None))
    } else {
        let (next, r) = demux_step(s, bytes.take(TsPacket::SIZE as int));
        if r == Ok::<Option<Mpeg2TsFrameView>, Error>(None) {
            let (last, n, end) = demux_run(next, bytes.skip(TsPacket::SIZE as int));
            (last, (TsPacket::SIZE + n) as nat, end)
        } else {
            (next, TsPacket::SIZE as nat, r)
        }
    }
}

/// What the end of the stream does to the session: the frame gathered so
/// far is complete where it has any bytes.
pub open spec fn demux_end(s: DemuxView) -> (DemuxView, Option<Mpeg2TsFrameView>) {
    if !s.ignore && s.body.len() > 0 {
        (discarded(given_out(s)), pending_frame(s))
    } else {
        (s, None)
    }
}

/// What the outcome of a step holds.
pub open spec fn outcome_view(r: Result<Option<Mpeg2TsFrame>, Error>) -> Result<
    Option<Mpeg2TsFrameView>,
    Error,
> {
    match r {
        Ok(Some(f)) => Ok(Some(f@)),
        Ok(None) => Ok(None),
        Err(e) => Err(e),
    }
}

impl Mpeg2TsDemux {
    /// Makes a session that has read nothing yet.
    pub fn new(base_ts: u64, fragm_idx: u64) -> (r: Self)
        ensures
            r@ == (DemuxView {
                table: crate::mpegts::io::empty_table(),
                ignore: true,
                base_ts,
                fragment_index: fragm_idx,
                frame_index: 0,
                codec: Fourcc(0),
                is_keyframe: false,
                is_params_updated: false,
                descriptors: Seq::empty(),
                video_pid: None,
                pts: 0,
                body: Seq::empty(),
            }),
    {
        Self {
            ignore: true,
            parser: Mpeg2tsParser::new(),
            base_ts,
            fragm_idx,
            frame_idx: 0,
            is_keyframe: false,
            is_params_updated: false,
            descriptors: Vec::new(),
            video_pid: None,
            codec: Fourcc(0),
            pts: 0,
            body: Vec::new(),
        }
    }

    /// The number of frames given out so far.
    pub fn frame_index(&self) -> (r: u64)
        ensures
            r == self@.frame_index,
    {
        self.frame_idx
    }

    /// Whether a PMT has changed the descriptors of the elementary streams
    /// since the last frame was given out.
    pub fn is_params_updated(&self) -> (r: bool)
        ensures
            r == self@.is_params_updated,
    {
        self.is_params_updated
    }

    /// The index of the fragment that the session reads.
    pub fn fragment_index(&self) -> (r: u64)
        ensures
            r == self@.fragment_index,
    {
        self.fragm_idx
    }

    /// The sum of two numbers, as far as 64 bits hold it.
    fn sum(a: u64, b: u64) -> (r: u64)
        ensures
            r == wrapping_sum(a, b),
    {
        if a <= u64::MAX - b {
            a + b
        } else {
            a - (u64::MAX - b) - 1
        }
    }

    /// Takes the frame gathered so far, if there is one, and counts it.
    fn take_pending(&mut self) -> (r: Option<Mpeg2TsFrame>)
        ensures
            crate::mpegts::view_of(r) == pending_frame(old(self)@),
            final(self)@ == given_out(old(self)@),
    {
        if self.ignore {
            return None;
        }
        let payload = copy_range(self.body.as_slice(), 0, self.body.len());
        assert(self.body@.subrange(0, self.body@.len() as int) =~= self.body@);
        self.frame_idx = Self::sum(self.frame_idx, 1);
        self.is_params_updated = false;
        Some(
            Mpeg2TsFrame {
                pts: self.pts as i64,
                dts: Self::sum(self.pts, self.base_ts),
                keyframe: self.is_keyframe,
                payload,
                source: Mpeg2TsSource { codec: self.codec, params: Vec::new() },
            },
        )
    }

    /// Appends the eight bytes of a count.
    fn put_count(out: &mut Vec<u8>, n: usize)
        ensures
            final(out)@ == old(out)@ + count_mark(n as nat),
    {
        let wide: u64 = n as u64;
        put_u32(out, (wide / 0x1_0000_0000) as u32);
        put_u32(out, (wide % 0x1_0000_0000) as u32);
        assert(out@ =~= old(out)@ + count_mark(n as nat));
    }

    /// Appends the bytes that mark descriptors.
    fn put_descriptors_mark(out: &mut Vec<u8>, ds: &Vec<Descriptor>)
        ensures
            final(out)@ == old(out)@ + descriptors_mark(ds@.map_values(|d: Descriptor| d@)),
    {
        let ghost views = ds@.map_values(|d: Descriptor| d@);
        let mut i: usize = 0;
        while i < ds.len()
            invariant
                i <= ds@.len(),
                views == ds@.map_values(|d: Descriptor| d@),
                out@ == old(out)@ + descriptors_mark(views.take(i as int)),
            decreases ds@.len() - i,
        {
            proof {
                let next = views.take(i as int + 1);
                assert(next.drop_last() =~= views.take(i as int));
                assert(next.last() == ds@[i as int]@);
            }
            let ghost before = out@;
            out.push(ds[i].tag);
            Self::put_count(out, ds[i].data.len());
            put_slice(out, ds[i].data.as_slice());
            assert(out@ =~= before + descriptor_mark(ds@[i as int]@));
            assert(out@ =~= old(out)@ + descriptors_mark(views.take(i as int + 1)));
            i += 1;
        }
        assert(views.take(i as int) =~= views);
    }

    /// The bytes that mark the descriptors of the elementary streams of a
    /// PMT.
    fn mark_of(pmt: &Pmt) -> (r: Vec<u8>)
        ensures
            r@ == streams_mark(pmt@.es_info),
    {
        let ghost views = pmt@.es_info;
        let mut out: Vec<u8> = Vec::new();
        let mut i: usize = 0;
        while i < pmt.es_info.len()
            invariant
                i <= pmt.es_info@.len(),
                views == pmt.es_info@.map_values(|e: EsInfo| e@),
                out@ == streams_mark(views.take(i as int)),
            decreases pmt.es_info@.len() - i,
        {
            proof {
                let next = views.take(i as int + 1);
                assert(next.drop_last() =~= views.take(i as int));
                assert(next.last() == pmt.es_info@[i as int]@);
            }
            let ghost before = out@;
            Self::put_count(&mut out, pmt.es_info[i].descriptors.len());
            Self::put_descriptors_mark(&mut out, &pmt.es_info[i].descriptors);
            assert(out@ =~= before + (count_mark(views[i as int].descriptors.len())
                + descriptors_mark(views[i as int].descriptors)));
            i += 1;
        }
        assert(views.take(i as int) =~= views);
        out
    }

    /// Whether two runs of bytes are the same.
    fn same_bytes(a: &Vec<u8>, b: &Vec<u8>) -> (r: bool)
        ensures
            r == (a@ == b@),
    {
        if a.len() != b.len() {
            return false;
        }
        let mut i: usize = 0;
        while i < a.len()
            invariant
                i <= a@.len(),
                a@.len() == b@.len(),
                a@.take(i as int) == b@.take(i as int),
            decreases a@.len() - i,
        {
            if a[i] != b[i] {
                return false;
            }
            i += 1;
            assert(a@.take(i as int) =~= a@.take(i as int - 1).push(a@[i as int - 1]));
            assert(b@.take(i as int) =~= b@.take(i as int - 1).push(b@[i as int - 1]));
        }
        assert(a@.take(i as int) =~= a@);
        assert(b@.take(i as int) =~= b@);
        true
    }

    /// Sets the codec from the elementary streams of a PMT.
    fn learn_codec(&mut self, pmt: &Pmt)
        ensures
            final(self)@ == (DemuxView {
                codec: codec_after(old(self)@.codec, pmt@.es_info),
                ..old(self)@
            }),
    {
        let ghost views = pmt@.es_info;
        let ghost first = self.codec;
        let mut i: usize = 0;
        while i < pmt.es_info.len()
            invariant
                i <= pmt.es_info@.len(),
                views == pmt.es_info@.map_values(|e: EsInfo| e@),
                self.codec == codec_after(first, views.take(i as int)),
                self@ == (DemuxView { codec: self.codec, ..old(self)@ }),
            decreases pmt.es_info@.len() - i,
        {
            proof {
                let next = views.take(i as int + 1);
                assert(next.drop_last() =~= views.take(i as int));
                assert(next.last() == pmt.es_info@[i as int]@);
            }
            let stream_type: u8 = pmt.es_info[i].stream_type.as_u8();
            if stream_type == StreamType::H264 {
                self.codec = Fourcc(Fourcc::VIDEO_AVC);
            } else if stream_type == StreamType::H265 {
                self.codec = Fourcc(Fourcc::VIDEO_HEVC);
            }
            i += 1;
        }
        assert(views.take(i as int) =~= views);
    }

    /// Takes in a PMT: sets the codec, and notes whether the descriptors of
    /// the elementary streams have changed.
    fn learn_pmt(&mut self, pmt: &Pmt)
        ensures
            final(self)@ == after_pmt(old(self)@, pmt@),
    {
        self.learn_codec(pmt);
        let mark = Self::mark_of(pmt);
        if !Self::same_bytes(&mark, &self.descriptors) {
            self.is_params_updated = true;
        }
        self.descriptors = mark;
    }

    /// Drops what was gathered; nothing is gathered until the next video
    /// PES packet starts.
    fn discard(&mut self)
        ensures
            final(self)@ == discarded(old(self)@),
    {
        self.body.clear();
        self.ignore = true;
    }

    /// Takes in the start of a PES packet on the given PID.
    fn start(&mut self, pes: &Pes, is_keyframe: bool, pid: u16) -> (r: Result<
        Option<Mpeg2TsFrame>,
        Error,
    >)
        ensures
            ({
                let s = old(self)@;
                if pes@.header.stream_id != PES_VIDEO_STREAM_ID {
                    final(self)@ == discarded(given_out(s)) && outcome_view(r) == Ok::<
                        Option<Mpeg2TsFrameView>,
                        Error,
                    >(pending_frame(s))
                } else {
                    match pes@.header.pts {
                        None => final(self)@ == discarded(s) && r == Err::<
                            Option<Mpeg2TsFrame>,
                            Error,
                        >(Error::TsGeneric),
                        Some(raw) => final(self)@ == (DemuxView {
                            ignore: false,
                            is_keyframe,
                            video_pid: Some(pid),
                            pts: pts_us_of(raw),
                            body: pes@.data,
                            ..given_out(s)
                        }) && outcome_view(r) == Ok::<Option<Mpeg2TsFrameView>, Error>(
                            pending_frame(s),
                        ),
                    }
                }
            }),
    {
        if pes.header.stream_id.as_u8() != PES_VIDEO_STREAM_ID {
            let frame = self.take_pending();
            self.discard();
            return Ok(frame);
        }
        let raw: u64 = match pes.header.pts {
            Some(t) => t.as_u64(),
            None => {
                self.discard();
                return Err(Error::TsGeneric);
            },
        };
        let frame = self.take_pending();
        self.ignore = false;
        self.pts = (raw * 1_000_000) / 90_000;
        self.is_keyframe = is_keyframe;
        self.video_pid = Some(pid);
        self.body.clear();
        put_slice(&mut self.body, pes.data.as_slice());
        assert(self.body@ =~= pes@.data);
        Ok(frame)
    }

    /// Takes in a packet that was read: what it holds decides what becomes
    /// of the frame being gathered.
    pub fn apply(&mut self, packet: &TsPacket) -> (r: Result<Option<Mpeg2TsFrame>, Error>)
        ensures
            (final(self)@, outcome_view(r)) == demux_packet(old(self)@, packet@),
    {
        let is_keyframe: bool = match &packet.adaptation_field {
            Some(a) => a.random_access_indicator,
            None => false,
        };
        match &packet.payload {
            Some(TsPayload::Pmt(pmt)) => {
                self.learn_pmt(pmt);
                Ok(None)
            },
            Some(TsPayload::Pes(pes)) => self.start(pes, is_keyframe, packet.header.pid.as_u16()),
            Some(TsPayload::Raw(raw)) => {
                let pid: u16 = packet.header.pid.as_u16();
                let on_video_pid: bool = match self.video_pid {
                    Some(video) => video == pid,
                    None => false,
                };
                if !self.ignore && on_video_pid {
                    put_slice(&mut self.body, raw.as_slice());
                }
                Ok(None)
            },
            _ => Ok(None),
        }
    }

    /// Whether the bytes of a packet announce the start of a PES packet.
    fn announces_pes(&self, packet: &[u8]) -> (r: bool)
        ensures
            r == starts_pes(self@.table.pids, packet@),
    {
        match self.parser.parse_ts_header(packet) {
            Ok(h) => {
                let pid: u16 = h.pid.as_u16();
                let reserved: bool = (0x0001 <= pid && pid <= 0x001F) || pid == 0x1FFB;
                h.payload_unit_start_indicator && pid != Pid::PAT && pid != Pid::NULL && !reserved
                    && match self.parser.kind_of(pid) {
                    PidKind::Pes => true,
                    _ => false,
                }
            },
            Err(_) => false,
        }
    }

    /// Takes in the 188 bytes of one packet, and gives out the frame that
    /// the packet completes, if it completes one.
    ///
    /// A packet on an unknown PID is dropped. A packet that cannot be read
    /// is an error; the session goes on with the next packet.
    pub fn push_packet(&mut self, packet: &[u8]) -> (r: Result<Option<Mpeg2TsFrame>, Error>)
        ensures
            (final(self)@, outcome_view(r)) == demux_step(old(self)@, packet@),
    {
        proof {
            reveal(demux_step);
        }
        match self.parser.parse(packet) {
            Ok(p) => self.apply(&p),
            Err(Error::UnknownPid(_)) => Ok(None),
            Err(e) => {
                if self.announces_pes(packet) {
                    self.discard();
                }
                Err(e)
            },
        }
    }

    /// Reads packets from the start of `src` until one completes a frame or
    /// is an error, or until less than a packet is left. Tells how many
    /// bytes were read, and gives out the frame or the error.
    pub fn parse(&mut self, src: &[u8]) -> (r: (usize, Result<Option<Mpeg2TsFrame>, Error>))
        ensures
            (final(self)@, r.0 as nat, outcome_view(r.1)) == demux_run(old(self)@, src@),
            r.0 <= src@.len(),
    {
        let mut pos: usize = 0;
        assert(src@.skip(0) =~= src@);
        while src.len() - pos >= TsPacket::SIZE
            invariant
                pos <= src@.len(),
                ({
                    let (last, n, end) = demux_run(self@, src@.skip(pos as int));
                    demux_run(old(self)@, src@) == (last, (pos + n) as nat, end)
                }),
            decreases src@.len() - pos,
        {
            let ghost rest = src@.skip(pos as int);
            assert(rest.take(TsPacket::SIZE as int) =~= src@.subrange(
                pos as int,
                pos + TsPacket::SIZE,
            ));
            assert(rest.skip(TsPacket::SIZE as int) =~= src@.skip(pos + TsPacket::SIZE));
            let r = self.push_packet(slice_subrange(src, pos, pos + TsPacket::SIZE));
            pos += TsPacket::SIZE;
            match r {
                Ok(None) => {},
                other => {
                    return (pos, other);
                },
            }
        }
        (pos, Ok(None))
    }

    /// Ends the stream: gives out the frame gathered so far, where it has
    /// any bytes.
    pub fn flush(&mut self) -> (r: Option<Mpeg2TsFrame>)
        ensures
            (final(self)@, crate::mpegts::view_of(r)) == demux_end(old(self)@),
    {
        if self.ignore || self.body.len() == 0 {
            return None;
        }
        let frame = self.take_pending();
        self.discard();
        frame
    }
}

} // verus!
