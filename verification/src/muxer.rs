//! The multiplexing session: frames in, transport stream packets out.
//!
//! The first frame is preceded by a PAT and a PMT. Each frame becomes one
//! PES packet, cut into transport packets on the video PID: the first
//! carries the PES header (and, on a keyframe, the program clock reference),
//! the others raw slices, and the last is padded by adaptation field
//! stuffing.
use crate::error::Error;
use crate::frame::{EncodedFrame, EncodedFrameView, Fourcc, FrameFlags};
use crate::mpegts::bytes::RawData;
use crate::mpegts::continuity_counter::ContinuityCounter;
use crate::mpegts::io::Mpeg2tsParser;
use crate::mpegts::pid::Pid;
use crate::mpegts::stream_id::StreamId;
use crate::mpegts::stream_type::StreamType;
use crate::mpegts::timestamp::{Clock, PtsDts, Timestamp, PCR};
use crate::mpegts::ts::adaptation_field::{AdaptationFieldControl, AdaptationFieldView};
use crate::mpegts::ts::packet::{
    ts_packet_bytes, ts_packet_writable, TsHeaderView, TsPacketView, TsPayloadView,
};
use crate::mpegts::ts::pat::{lemma_pat_bytes_len, PatView, ProgramAssociationView};
use crate::mpegts::ts::pes::{lemma_pes_header_len, PesHeaderView, PesView};
use crate::mpegts::ts::pmt::{lemma_pmt_bytes_len, DescriptorView, EsInfoView, PmtView};
use crate::mpegts::ts::{
    AdaptationField, Descriptor, EsInfo, Pat, Pes, PesHeader, Pmt, ProgramAssociation,
    TransportScramblingControl, TsHeader, TsPacket, TsPayload,
};
use crate::mpegts::version::VersionNumber;
use crate::mpegts::wire::put_slice;
use vstd::prelude::*;
use vstd::slice::slice_subrange;

verus! {

/// Options of the muxer.
#[derive(Debug, Clone, Copy, PartialEq, Eq, Structural)]
pub struct Mpeg2TsMuxerConfig {
    /// Reserved: no access unit delimiter is ever written.
    pub send_aud: bool,
    /// Where set, the parameter sets go before every keyframe; where clear,
    /// before every frame that says it has parameters.
    pub send_params_on_each_keyframe: bool,
}

impl Default for Mpeg2TsMuxerConfig {
    fn default() -> (r: Self)
        ensures
            r == (Mpeg2TsMuxerConfig { send_aud: false, send_params_on_each_keyframe: true }),
    {
        Self { send_aud: false, send_params_on_each_keyframe: true }
    }
}

/// PID of the PMT.
pub const PMT_PID: u16 = 256;

/// PID of the video elementary stream.
pub const VIDEO_ES_PID: u16 = 257;

/// Stream id of the video PES packets.
pub const PES_VIDEO_STREAM_ID: u8 = 224;

/// The bytes of a PES header with a PTS alone.
pub const VIDEO_PES_HEADER_LEN: usize = 14;

/// The bytes of an adaptation field with a program clock reference alone.
pub const CLOCK_FIELD_LEN: usize = 8;

/// Multiplexer state.
pub struct Mpeg2TsMuxer {
    video_continuity_counter: ContinuityCounter,
    header_sent: bool,
    buf: Vec<u8>,
    config: Mpeg2TsMuxerConfig,
    writer: Mpeg2tsParser,
}

/// What a [`Mpeg2TsMuxer`] holds between two frames.
pub ghost struct MuxerView {
    /// The counter of the next packet on the video PID.
    pub continuity_counter: u8,
    /// Whether PAT and PMT were written.
    pub header_sent: bool,
    pub config: Mpeg2TsMuxerConfig,
}

impl Default for Mpeg2TsMuxer {
    fn default() -> (r: Self)
        ensures
            r@ == (MuxerView {
                continuity_counter: 0,
                header_sent: false,
                config: Mpeg2TsMuxerConfig { send_aud: false, send_params_on_each_keyframe: true },
            }),
    {
        Mpeg2TsMuxer::new(Mpeg2TsMuxerConfig::default())
    }
}

impl View for Mpeg2TsMuxer {
    type V = MuxerView;

    closed spec fn view(&self) -> MuxerView {
        MuxerView {
            continuity_counter: (self.video_continuity_counter@ % 16) as u8,
            header_sent: self.header_sent,
            config: self.config,
        }
    }
}

impl Mpeg2TsMuxer {
    /// Every muxer is in a state that the laws of the muxer speak of: its
    /// counter has four bits.
    pub proof fn lemma_state_valid(self)
        ensures
            mux_state_valid(self@),
    {
    }
}

/// A presentation time in microseconds as an unsigned 64-bit number: a
/// negative one is read as its two's complement.
pub open spec fn pts_as_unsigned(pts: i64) -> int {
    if pts >= 0 {
        pts as int
    } else {
        pts + 0x1_0000_0000_0000_0000
    }
}

/// Microseconds as ticks of 90 kHz, rounded down.
pub open spec fn pts_to_90k(pts_us: int) -> int {
    (pts_us * 9) / 100
}

/// Ticks of 90 kHz as microseconds, rounded down.
pub open spec fn pts_from_90k(raw: int) -> int {
    (raw * 1_000_000) / 90_000
}

/// The PTS of a frame in ticks of 90 kHz.
pub open spec fn frame_pts_90k(f: EncodedFrameView) -> int {
    pts_to_90k(pts_as_unsigned(f.pts))
}

/// The stream type that the PMT names for a codec, where the muxer carries
/// the codec.
pub open spec fn stream_type_of(codec: Fourcc) -> Option<u8> {
    if codec.0 == Fourcc::VIDEO_AVC {
        Some(StreamType::H264)
    } else if codec.0 == Fourcc::VIDEO_HEVC {
        Some(StreamType::H265)
    } else {
        None
    }
}

/// The bytes of one chunk in the elementary stream: a start code before it,
/// unless the chunk has one.
pub open spec fn chunk_bytes(chunk: Seq<u8>, annexb: bool) -> Seq<u8> {
    if annexb {
        chunk
    } else {
        seq![0u8, 0u8, 1u8] + chunk
    }
}

/// The bytes of chunks in the elementary stream, one after the other.
pub open spec fn chunks_bytes(chunks: Seq<Seq<u8>>, annexb: bool) -> Seq<u8>
    decreases chunks.len(),
{
    if chunks.len() == 0 {
        Seq::empty()
    } else {
        chunks_bytes(chunks.drop_last(), annexb) + chunk_bytes(chunks.last(), annexb)
    }
}

/// Whether the parameter sets go before a frame.
pub open spec fn sends_params(config: Mpeg2TsMuxerConfig, f: EncodedFrameView) -> bool {
    if config.send_params_on_each_keyframe {
        f.keyframe
    } else {
        f.has_params
    }
}

/// The elementary stream bytes of a frame: the parameter sets where they are
/// sent, then the units.
pub open spec fn es_payload(config: Mpeg2TsMuxerConfig, f: EncodedFrameView) -> Seq<u8> {
    (if sends_params(config, f) {
        chunks_bytes(f.params, f.annexb)
    } else {
        Seq::empty()
    }) + chunks_bytes(f.units, f.annexb)
}

/// The header that the muxer gives every packet: nothing set but PID and
/// counter. The writer fills in the start indicator and the adaptation
/// field control.
pub open spec fn default_header(pid: u16, counter: u8) -> TsHeaderView {
    TsHeaderView {
        transport_error_indicator: false,
        transport_priority: false,
        pid,
        transport_scrambling_control: TransportScramblingControl::NotScrambled,
        continuity_counter: counter,
        adaptation_field_control: AdaptationFieldControl::PayloadOnly,
        payload_unit_start_indicator: false,
    }
}

/// The PAT packet: transport stream 1, program 1 on the PMT PID.
pub open spec fn pat_packet() -> TsPacketView {
    TsPacketView {
        header: default_header(Pid::PAT, 0),
        adaptation_field: None,
        payload: Some(
            TsPayloadView::Pat(
                PatView {
                    transport_stream_id: 1,
                    version_number: 0,
                    table: seq![
                        ProgramAssociationView { program_num: 1, program_map_pid: PMT_PID },
                    ],
                },
            ),
        ),
    }
}

/// The PMT packet: program 1, its clock and its one stream on the video PID.
pub open spec fn pmt_packet(stream_type: u8) -> TsPacketView {
    TsPacketView {
        header: default_header(PMT_PID, 0),
        adaptation_field: None,
        payload: Some(
            TsPayloadView::Pmt(
                PmtView {
                    program_num: 1,
                    pcr_pid: Some(VIDEO_ES_PID),
                    version_number: 0,
                    program_info: Seq::empty(),
                    es_info: seq![
                        EsInfoView {
                            stream_type,
                            elementary_pid: VIDEO_ES_PID,
                            descriptors: Seq::empty(),
                        },
                    ],
                },
            ),
        ),
    }
}

/// The bytes of packets, one after the other.
pub open spec fn packets_bytes(packets: Seq<TsPacketView>) -> Seq<u8>
    decreases packets.len(),
{
    if packets.len() == 0 {
        Seq::empty()
    } else {
        packets_bytes(packets.drop_last()) + ts_packet_bytes(packets.last())
    }
}

/// The two packets before the first frame.
pub open spec fn header_packets(stream_type: u8) -> Seq<TsPacketView> {
    seq![pat_packet(), pmt_packet(stream_type)]
}

/// The PES header of a frame: video, a PTS and nothing else, no length.
pub open spec fn video_pes_header(ts: u64) -> PesHeaderView {
    PesHeaderView {
        stream_id: PES_VIDEO_STREAM_ID,
        priority: false,
        data_alignment_indicator: false,
        copyright: false,
        original_or_copy: false,
        pts: Some(ts),
        dts: None,
        escr: None,
        packet_len: 0,
    }
}

/// The adaptation field of the first packet of a keyframe: a point of random
/// access, with the PTS as program clock reference.
pub open spec fn keyframe_field(ts: u64) -> AdaptationFieldView {
    AdaptationFieldView {
        discontinuity_indicator: false,
        random_access_indicator: true,
        es_priority_indicator: false,
        pcr: Some((ts * 300) as u64),
        opcr: None,
        splice_countdown: None,
        transport_private_data: Seq::empty(),
        extension: None,
    }
}

/// The elementary stream bytes that fit the first packet of a frame: what
/// the header, the PES header and, on a keyframe, the clock field leave of
/// the 188.
pub open spec fn first_capacity(keyframe: bool) -> nat {
    if keyframe {
        (TsPacket::SIZE - 4 - CLOCK_FIELD_LEN - VIDEO_PES_HEADER_LEN) as nat
    } else {
        (TsPacket::SIZE - 4 - VIDEO_PES_HEADER_LEN) as nat
    }
}

/// The number of packets that a frame of `len` elementary stream bytes
/// takes: the first, and one for every 184 bytes or part of them beyond it.
pub open spec fn video_packet_count(keyframe: bool, len: nat) -> nat {
    if len <= first_capacity(keyframe) {
        1
    } else {
        (1 + (len - first_capacity(keyframe) + 183) / 184) as nat
    }
}

/// Where the slice of packet `k` ends in the elementary stream bytes.
pub open spec fn video_slice_end(keyframe: bool, len: nat, k: nat) -> nat {
    if first_capacity(keyframe) + 184 * k <= len {
        first_capacity(keyframe) + 184 * k
    } else {
        len
    }
}

/// Where the slice of packet `k` starts in the elementary stream bytes.
pub open spec fn video_slice_start(keyframe: bool, len: nat, k: nat) -> nat {
    if k == 0 {
        0
    } else {
        video_slice_end(keyframe, len, (k - 1) as nat)
    }
}

/// The elementary stream bytes that packet `k` of a frame carries.
pub open spec fn video_slice(keyframe: bool, payload: Seq<u8>, k: nat) -> Seq<u8> {
    payload.subrange(
        video_slice_start(keyframe, payload.len(), k) as int,
        video_slice_end(keyframe, payload.len(), k) as int,
    )
}

/// The first packet of a frame: the PES header and the first slice, behind
/// the clock field on a keyframe.
pub open spec fn pes_start_packet(counter: u8, ts: u64, keyframe: bool, data: Seq<u8>)
    -> TsPacketView {
    TsPacketView {
        header: default_header(VIDEO_ES_PID, counter),
        adaptation_field: if keyframe {
            Some(keyframe_field(ts))
        } else {
            None
        },
        payload: Some(TsPayloadView::Pes(PesView { header: video_pes_header(ts), data })),
    }
}

/// A later packet of a frame: a raw slice.
pub open spec fn continuation_packet(counter: u8, data: Seq<u8>) -> TsPacketView {
    TsPacketView {
        header: default_header(VIDEO_ES_PID, counter),
        adaptation_field: None,
        payload: Some(TsPayloadView::Raw(data)),
    }
}

/// The counter that follows `counter` after `k` packets.
pub open spec fn counter_after(counter: u8, k: nat) -> u8 {
    ((counter + k) % 16) as u8
}

/// Packet `k` of a frame.
pub open spec fn video_packet(counter: u8, ts: u64, keyframe: bool, payload: Seq<u8>, k: nat)
    -> TsPacketView {
    if k == 0 {
        pes_start_packet(counter, ts, keyframe, video_slice(keyframe, payload, 0))
    } else {
        continuation_packet(counter_after(counter, k), video_slice(keyframe, payload, k))
    }
}

/// The bytes of the first `n` packets of a frame.
pub open spec fn video_packets_bytes(
    counter: u8,
    ts: u64,
    keyframe: bool,
    payload: Seq<u8>,
    n: nat,
) -> Seq<u8>
    decreases n,
{
    if n == 0 {
        Seq::empty()
    } else {
        video_packets_bytes(counter, ts, keyframe, payload, (n - 1) as nat) + ts_packet_bytes(
            video_packet(counter, ts, keyframe, payload, (n - 1) as nat),
        )
    }
}

/// Why the muxer refuses a frame, if it does: before PAT and PMT are
/// written, a codec that it cannot carry; at any time, a PTS beyond 33 bits.
pub open spec fn mux_error(s: MuxerView, f: EncodedFrameView) -> Option<Error> {
    if !s.header_sent && stream_type_of(f.codec) is None {
        Some(Error::MuxUnsupportedCodec(f.codec))
    } else if frame_pts_90k(f) > Timestamp::<PtsDts>::MAX {
        Some(Error::ValueTooLarge(frame_pts_90k(f) as u64))
    } else {
        None
    }
}

/// The bytes of PAT and PMT where they are still to be written.
pub open spec fn mux_header_bytes(s: MuxerView, f: EncodedFrameView) -> Seq<u8> {
    if s.header_sent {
        Seq::empty()
    } else {
        packets_bytes(header_packets(stream_type_of(f.codec).unwrap()))
    }
}

/// The number of packets on the video PID that a frame takes.
pub open spec fn mux_video_count(s: MuxerView, f: EncodedFrameView) -> nat {
    video_packet_count(f.keyframe, es_payload(s.config, f).len())
}

/// The bytes of the packets on the video PID that a frame takes.
pub open spec fn mux_video_bytes(s: MuxerView, f: EncodedFrameView) -> Seq<u8> {
    video_packets_bytes(
        s.continuity_counter,
        frame_pts_90k(f) as u64,
        f.keyframe,
        es_payload(s.config, f),
        mux_video_count(s, f),
    )
}

/// The bytes that the muxer writes for a frame that it accepts: PAT and PMT
/// before the first, then the packets of the frame.
pub open spec fn mux_bytes(s: MuxerView, f: EncodedFrameView) -> Seq<u8> {
    mux_header_bytes(s, f) + mux_video_bytes(s, f)
}

/// The state of the muxer after a frame that it accepts.
pub open spec fn mux_next(s: MuxerView, f: EncodedFrameView) -> MuxerView {
    MuxerView {
        continuity_counter: counter_after(s.continuity_counter, mux_video_count(s, f)),
        header_sent: true,
        config: s.config,
    }
}

/// PAT and PMT of the muxer can be written, whatever the stream type.
pub proof fn lemma_header_packets_writable(stream_type: u8)
    ensures
        ts_packet_writable(pat_packet()),
        ts_packet_writable(pmt_packet(stream_type)),
{
    let pat = pat_packet().payload->Some_0->Pat_0;
    lemma_pat_bytes_len(pat);
    crate::mpegts::ts::pat::lemma_associations_len(pat.table);
    let pmt = pmt_packet(stream_type).payload->Some_0->Pmt_0;
    lemma_pmt_bytes_len(pmt);
    assert(pmt.es_info.drop_last() =~= Seq::<EsInfoView>::empty());
    reveal_with_fuel(crate::mpegts::ts::pmt::es_infos_size, 2);
    reveal_with_fuel(crate::mpegts::ts::pmt::descriptors_size, 2);
}

/// The slices of the packets of a frame follow each other, none longer than
/// its packet has room for, and the last ends where the bytes end.
pub proof fn lemma_video_slices(keyframe: bool, len: nat, k: nat)
    ensures
        video_slice_start(keyframe, len, k) <= video_slice_end(keyframe, len, k) <= len,
        k == 0 ==> video_slice_end(keyframe, len, k) - video_slice_start(keyframe, len, k)
            <= first_capacity(keyframe),
        k > 0 ==> video_slice_end(keyframe, len, k) - video_slice_start(keyframe, len, k)
            <= 184,
        k + 1 >= video_packet_count(keyframe, len) ==> video_slice_end(keyframe, len, k) == len,
        0 < k < video_packet_count(keyframe, len) ==> video_slice_start(keyframe, len, k) < len,
{
}

/// The packets of a frame are counted: the slice of the last ends where the
/// bytes end, and that of the one before it does not.
pub proof fn lemma_video_count(keyframe: bool, len: nat, k: nat)
    requires
        k >= 1,
        video_slice_end(keyframe, len, (k - 1) as nat) == len,
        k >= 2 ==> video_slice_end(keyframe, len, (k - 2) as nat) < len,
    ensures
        k == video_packet_count(keyframe, len),
{
}

/// Counting one packet more is one step of the counter.
pub proof fn lemma_counter_step(counter: u8, k: nat)
    ensures
        counter_after(counter_after(counter, k), 1) == counter_after(counter, k + 1),
        counter_after(counter, 0) == counter % 16,
{
}

/// Every packet of a frame can be written.
pub proof fn lemma_video_packet_writable(
    counter: u8,
    ts: u64,
    keyframe: bool,
    payload: Seq<u8>,
    k: nat,
)
    requires
        ts <= Timestamp::<PtsDts>::MAX,
    ensures
        ts_packet_writable(video_packet(counter, ts, keyframe, payload, k)),
{
    lemma_video_slices(keyframe, payload.len(), k);
    lemma_pes_header_len(video_pes_header(ts));
}

/// Packet `k` of a stream of packets: its 188 bytes.
pub open spec fn nth_packet(bytes: Seq<u8>, k: nat) -> Seq<u8> {
    bytes.subrange(TsPacket::SIZE * k, TsPacket::SIZE * k + TsPacket::SIZE)
}

/// The number of packets before those of the frame: PAT and PMT, where they
/// are still to be written.
pub open spec fn mux_header_count(s: MuxerView) -> nat {
    if s.header_sent {
        0
    } else {
        2
    }
}

/// The number of packets that the muxer writes for a frame.
pub open spec fn mux_packet_count(s: MuxerView, f: EncodedFrameView) -> nat {
    mux_header_count(s) + mux_video_count(s, f)
}

/// Packet `k` of those that the muxer writes for a frame.
pub open spec fn mux_packet(s: MuxerView, f: EncodedFrameView, k: nat) -> TsPacketView {
    if k < mux_header_count(s) {
        header_packets(stream_type_of(f.codec).unwrap())[k as int]
    } else {
        video_packet(
            s.continuity_counter,
            frame_pts_90k(f) as u64,
            f.keyframe,
            es_payload(s.config, f),
            (k - mux_header_count(s)) as nat,
        )
    }
}

/// Whether the muxer can be in state `s`: its counter has four bits.
pub open spec fn mux_state_valid(s: MuxerView) -> bool {
    s.continuity_counter <= ContinuityCounter::MAX
}

/// A block behind whole blocks is a block of the result, and the blocks
/// before it stay where they were.
proof fn lemma_append_packet(prefix: Seq<u8>, packet: Seq<u8>, m: nat, k: nat)
    requires
        prefix.len() == TsPacket::SIZE * m,
        packet.len() == TsPacket::SIZE,
        k <= m,
    ensures
        (prefix + packet).len() == TsPacket::SIZE * (m + 1),
        k < m ==> nth_packet(prefix + packet, k) == nth_packet(prefix, k),
        k == m ==> nth_packet(prefix + packet, k) == packet,
{
    if k < m {
        assert(nth_packet(prefix + packet, k) =~= nth_packet(prefix, k));
    } else {
        assert(nth_packet(prefix + packet, k) =~= packet);
    }
}

/// Blocks behind whole blocks stay blocks, and the blocks before them stay
/// where they were.
proof fn lemma_append_packets(prefix: Seq<u8>, rest: Seq<u8>, m: nat, n: nat, k: nat)
    requires
        prefix.len() == TsPacket::SIZE * m,
        rest.len() == TsPacket::SIZE * n,
        k < m + n,
    ensures
        (prefix + rest).len() == TsPacket::SIZE * (m + n),
        k < m ==> nth_packet(prefix + rest, k) == nth_packet(prefix, k),
        k >= m ==> nth_packet(prefix + rest, k) == nth_packet(rest, (k - m) as nat),
{
    if k < m {
        assert(nth_packet(prefix + rest, k) =~= nth_packet(prefix, k));
    } else {
        assert(nth_packet(prefix + rest, k) =~= nth_packet(rest, (k - m) as nat));
    }
}

/// The bytes of the first `n` packets of a frame are `n` blocks of 188, and
/// block `k` holds packet `k`.
pub proof fn lemma_video_packets(
    counter: u8,
    ts: u64,
    keyframe: bool,
    payload: Seq<u8>,
    n: nat,
    k: nat,
)
    requires
        counter <= ContinuityCounter::MAX,
        ts <= Timestamp::<PtsDts>::MAX,
        k < n,
    ensures
        video_packets_bytes(counter, ts, keyframe, payload, n).len() == TsPacket::SIZE * n,
        nth_packet(video_packets_bytes(counter, ts, keyframe, payload, n), k) == ts_packet_bytes(
            video_packet(counter, ts, keyframe, payload, k),
        ),
    decreases n,
{
    let last = video_packet(counter, ts, keyframe, payload, (n - 1) as nat);
    lemma_video_packet_writable(counter, ts, keyframe, payload, (n - 1) as nat);
    crate::mpegts::ts::packet::lemma_written_header(last);
    let prefix = video_packets_bytes(counter, ts, keyframe, payload, (n - 1) as nat);
    if n > 1 {
        lemma_video_packets(
            counter,
            ts,
            keyframe,
            payload,
            (n - 1) as nat,
            if k < n - 1 {
                k
            } else {
                0
            },
        );
    }
    lemma_append_packet(prefix, ts_packet_bytes(last), (n - 1) as nat, k);
}

/// The bytes of PAT and PMT are two blocks of 188, the PAT first.
pub proof fn lemma_header_packets(stream_type: u8)
    ensures
        packets_bytes(header_packets(stream_type)).len() == TsPacket::SIZE * 2,
        nth_packet(packets_bytes(header_packets(stream_type)), 0) == ts_packet_bytes(
            pat_packet(),
        ),
        nth_packet(packets_bytes(header_packets(stream_type)), 1) == ts_packet_bytes(
            pmt_packet(stream_type),
        ),
{
    lemma_header_packets_writable(stream_type);
    crate::mpegts::ts::packet::lemma_written_header(pat_packet());
    crate::mpegts::ts::packet::lemma_written_header(pmt_packet(stream_type));
    let both = header_packets(stream_type);
    assert(both.drop_last() =~= seq![pat_packet()]);
    assert(both.drop_last().drop_last() =~= Seq::<TsPacketView>::empty());
    reveal_with_fuel(packets_bytes, 3);
    let pat = ts_packet_bytes(pat_packet());
    let pmt = ts_packet_bytes(pmt_packet(stream_type));
    assert(packets_bytes(both) =~= pat + pmt);
    assert(nth_packet(pat + pmt, 0) =~= pat);
    assert(nth_packet(pat + pmt, 1) =~= pmt);
}

/// What the muxer writes for a frame is a whole number of blocks of 188
/// bytes, and block `k` holds packet `k`, which can be written.
pub proof fn lemma_mux_packets(s: MuxerView, f: EncodedFrameView, k: nat)
    requires
        mux_state_valid(s),
        mux_error(s, f) is None,
        k < mux_packet_count(s, f),
    ensures
        mux_bytes(s, f).len() == TsPacket::SIZE * mux_packet_count(s, f),
        nth_packet(mux_bytes(s, f), k) == ts_packet_bytes(mux_packet(s, f, k)),
        ts_packet_writable(mux_packet(s, f, k)),
        mux_packet(s, f, k).header.pid <= Pid::MAX,
        mux_packet(s, f, k).header.continuity_counter <= ContinuityCounter::MAX,
{
    let ts = frame_pts_90k(f) as u64;
    let payload = es_payload(s.config, f);
    let n = mux_video_count(s, f);
    let m = mux_header_count(s);
    let video = mux_video_bytes(s, f);
    lemma_video_packets(
        s.continuity_counter,
        ts,
        f.keyframe,
        payload,
        n,
        if k >= m {
            (k - m) as nat
        } else {
            0
        },
    );
    if s.header_sent {
        assert(mux_bytes(s, f) =~= video);
    } else {
        let stream_type = stream_type_of(f.codec).unwrap();
        lemma_header_packets(stream_type);
        lemma_header_packets_writable(stream_type);
        lemma_append_packets(mux_header_bytes(s, f), video, 2, n, k);
    }
    if k >= m {
        lemma_video_packet_writable(s.continuity_counter, ts, f.keyframe, payload, (k - m) as nat);
    }
}

/// Every byte that the muxer writes belongs to one packet of 188 bytes, and
/// every packet starts with the synchronization byte.
pub proof fn lemma_mux_framing(s: MuxerView, f: EncodedFrameView)
    requires
        mux_state_valid(s),
        mux_error(s, f) is None,
    ensures
        mux_bytes(s, f).len() == TsPacket::SIZE * mux_packet_count(s, f),
        forall|k: nat|
            k < mux_packet_count(s, f) ==> (#[trigger] nth_packet(mux_bytes(s, f), k))[0]
                == TsPacket::SYNC_BYTE,
{
    lemma_mux_packets(s, f, 0);
    assert forall|k: nat| k < mux_packet_count(s, f) implies (#[trigger] nth_packet(
        mux_bytes(s, f),
        k,
    ))[0] == TsPacket::SYNC_BYTE by {
        lemma_mux_packets(s, f, k);
        crate::mpegts::ts::packet::lemma_written_header(mux_packet(s, f, k));
    }
}

/// The packets of a frame are all on the video PID, each carries a payload,
/// and their continuity counters go up by one from packet to packet, after
/// 15 comes 0. The counter that the muxer keeps for the next frame is the
/// one after that of the last packet.
pub proof fn lemma_mux_continuity(s: MuxerView, f: EncodedFrameView)
    requires
        mux_state_valid(s),
        mux_error(s, f) is None,
    ensures
        forall|k: nat|
            k < mux_video_count(s, f) ==> {
                let b = #[trigger] nth_packet(mux_bytes(s, f), mux_header_count(s) + k);
                &&& crate::mpegts::ts::packet::packet_pid(b) == VIDEO_ES_PID
                &&& crate::mpegts::ts::packet::packet_control(b) % 2 == 1
                &&& crate::mpegts::ts::packet::packet_counter(b) == counter_after(
                    s.continuity_counter,
                    k,
                )
            },
        mux_next(s, f).continuity_counter == counter_after(
            s.continuity_counter,
            mux_video_count(s, f),
        ),
{
    assert forall|k: nat| k < mux_video_count(s, f) implies {
        let b = #[trigger] nth_packet(mux_bytes(s, f), mux_header_count(s) + k);
        &&& crate::mpegts::ts::packet::packet_pid(b) == VIDEO_ES_PID
        &&& crate::mpegts::ts::packet::packet_control(b) % 2 == 1
        &&& crate::mpegts::ts::packet::packet_counter(b) == counter_after(s.continuity_counter, k)
    } by {
        lemma_mux_video_packet(s, f, k);
    }
}

/// Packet `k` of a frame is on the video PID, carries a payload, and has
/// the counter that follows that of the first after `k` steps.
#[verifier::rlimit(40)]
proof fn lemma_mux_video_packet(s: MuxerView, f: EncodedFrameView, k: nat)
    requires
        mux_state_valid(s),
        mux_error(s, f) is None,
        k < mux_video_count(s, f),
    ensures
        ({
            let b = nth_packet(mux_bytes(s, f), mux_header_count(s) + k);
            &&& crate::mpegts::ts::packet::packet_pid(b) == VIDEO_ES_PID
            &&& crate::mpegts::ts::packet::packet_control(b) % 2 == 1
            &&& crate::mpegts::ts::packet::packet_counter(b) == counter_after(
                s.continuity_counter,
                k,
            )
        }),
{
    let j = mux_header_count(s) + k;
    let p = mux_packet(s, f, j);
    lemma_mux_packets(s, f, j);
    crate::mpegts::ts::packet::lemma_written_header(p);
    crate::mpegts::ts::packet::lemma_written_control(p);
    assert(p.header.pid == VIDEO_ES_PID);
    assert(p.payload is Some);
    assert(p.header.continuity_counter == counter_after(s.continuity_counter, k));
}

/// PAT and PMT are on their PIDs and have the counter 0.
pub proof fn lemma_mux_tables(s: MuxerView, f: EncodedFrameView)
    requires
        mux_state_valid(s),
        mux_error(s, f) is None,
        !s.header_sent,
    ensures
        crate::mpegts::ts::packet::packet_pid(nth_packet(mux_bytes(s, f), 0)) == Pid::PAT,
        crate::mpegts::ts::packet::packet_counter(nth_packet(mux_bytes(s, f), 0)) == 0,
        crate::mpegts::ts::packet::packet_pid(nth_packet(mux_bytes(s, f), 1)) == PMT_PID,
        crate::mpegts::ts::packet::packet_counter(nth_packet(mux_bytes(s, f), 1)) == 0,
{
    lemma_mux_packets(s, f, 0);
    lemma_mux_packets(s, f, 1);
    crate::mpegts::ts::packet::lemma_written_header(mux_packet(s, f, 0));
    crate::mpegts::ts::packet::lemma_written_header(mux_packet(s, f, 1));
}

/// PAT and PMT of the muxer end with their checksums: in each of the two
/// packets the last four bytes are the CRC-32/MPEG-2 of the bytes of the
/// table before them, twelve in the PAT and seventeen in the PMT.
pub proof fn lemma_mux_checksums(s: MuxerView, f: EncodedFrameView)
    requires
        mux_state_valid(s),
        mux_error(s, f) is None,
        !s.header_sent,
    ensures
        crate::mpegts::wire::u32_at(nth_packet(mux_bytes(s, f), 0), 184)
            == crate::mpegts::crc32::crc32_mpeg2(nth_packet(mux_bytes(s, f), 0).subrange(172, 184)),
        crate::mpegts::wire::u32_at(nth_packet(mux_bytes(s, f), 1), 184)
            == crate::mpegts::crc32::crc32_mpeg2(nth_packet(mux_bytes(s, f), 1).subrange(167, 184)),
{
    lemma_mux_packets(s, f, 0);
    lemma_mux_packets(s, f, 1);
    let stream_type = stream_type_of(f.codec).unwrap();
    let pat = pat_packet();
    let pmt = pmt_packet(stream_type);
    crate::mpegts::ts::packet::lemma_written_checksum(pat);
    crate::mpegts::ts::packet::lemma_written_checksum(pmt);
    crate::mpegts::ts::psi::lemma_table_bytes_len(crate::mpegts::ts::pat::pat_table(
        pat.payload->Some_0->Pat_0,
    ));
    crate::mpegts::ts::psi::lemma_table_bytes_len(crate::mpegts::ts::pmt::pmt_table(
        pmt.payload->Some_0->Pmt_0,
    ));
    lemma_pat_bytes_len(pat.payload->Some_0->Pat_0);
    lemma_pmt_bytes_len(pmt.payload->Some_0->Pmt_0);
    crate::mpegts::ts::pat::lemma_associations_len(pat.payload->Some_0->Pat_0.table);
    assert(pmt.payload->Some_0->Pmt_0.es_info.drop_last() =~= Seq::<EsInfoView>::empty());
    reveal_with_fuel(crate::mpegts::ts::pmt::es_infos_size, 2);
    reveal_with_fuel(crate::mpegts::ts::pmt::descriptors_size, 2);
}

/// In every packet that the muxer writes, the adaptation field control
/// agrees with what follows the header: it declares an adaptation field
/// exactly where the packet has bytes between header and payload, and the
/// header, those bytes as the length byte counts them, and the payload make
/// up the 188 bytes.
pub proof fn lemma_mux_control(s: MuxerView, f: EncodedFrameView)
    requires
        mux_state_valid(s),
        mux_error(s, f) is None,
    ensures
        forall|k: nat|
            k < mux_packet_count(s, f) ==> {
                let b = #[trigger] nth_packet(mux_bytes(s, f), k);
                let p = mux_packet(s, f, k);
                &&& 1 <= crate::mpegts::ts::packet::packet_control(b) <= 3
                &&& (crate::mpegts::ts::packet::packet_control(b) >= 2) == (
                crate::mpegts::ts::packet::packet_adaptation_bytes(p).len() > 0)
                &&& (crate::mpegts::ts::packet::packet_control(b) % 2 == 1) == (p.payload is Some)
                &&& 4 + crate::mpegts::ts::packet::packet_adaptation_len(b)
                    + crate::mpegts::ts::packet::packet_payload_bytes(p).len() == TsPacket::SIZE
                &&& b.subrange(
                    4 + crate::mpegts::ts::packet::packet_adaptation_len(b),
                    TsPacket::SIZE as int,
                ) == crate::mpegts::ts::packet::packet_payload_bytes(p)
            },
{
    assert forall|k: nat| k < mux_packet_count(s, f) implies {
        let b = #[trigger] nth_packet(mux_bytes(s, f), k);
        let p = mux_packet(s, f, k);
        &&& 1 <= crate::mpegts::ts::packet::packet_control(b) <= 3
        &&& (crate::mpegts::ts::packet::packet_control(b) >= 2) == (
        crate::mpegts::ts::packet::packet_adaptation_bytes(p).len() > 0)
        &&& (crate::mpegts::ts::packet::packet_control(b) % 2 == 1) == (p.payload is Some)
        &&& 4 + crate::mpegts::ts::packet::packet_adaptation_len(b)
            + crate::mpegts::ts::packet::packet_payload_bytes(p).len() == TsPacket::SIZE
        &&& b.subrange(
            4 + crate::mpegts::ts::packet::packet_adaptation_len(b),
            TsPacket::SIZE as int,
        ) == crate::mpegts::ts::packet::packet_payload_bytes(p)
    } by {
        lemma_mux_packets(s, f, k);
        crate::mpegts::ts::packet::lemma_written_control(mux_packet(s, f, k));
    }
}

/// A program clock reference stands in the first packet of a keyframe and
/// in no other packet that the muxer writes; the same packets are the
/// points of random access.
pub proof fn lemma_mux_clock(s: MuxerView, f: EncodedFrameView)
    requires
        mux_state_valid(s),
        mux_error(s, f) is None,
    ensures
        forall|k: nat|
            k < mux_packet_count(s, f) ==> {
                let b = #[trigger] nth_packet(mux_bytes(s, f), k);
                &&& crate::mpegts::ts::packet::packet_has_pcr(b) == (f.keyframe && k
                    == mux_header_count(s))
                &&& crate::mpegts::ts::packet::packet_random_access(b) == (f.keyframe && k
                    == mux_header_count(s))
            },
{
    assert forall|k: nat| k < mux_packet_count(s, f) implies {
        let b = #[trigger] nth_packet(mux_bytes(s, f), k);
        &&& crate::mpegts::ts::packet::packet_has_pcr(b) == (f.keyframe && k == mux_header_count(
            s,
        ))
        &&& crate::mpegts::ts::packet::packet_random_access(b) == (f.keyframe && k
            == mux_header_count(s))
    } by {
        lemma_mux_packets(s, f, k);
        crate::mpegts::ts::packet::lemma_written_flags(mux_packet(s, f, k));
    }
}

/// Microseconds and ticks of 90 kHz are inverse up to rounding: the way to
/// ticks and back loses at most 11 microseconds and never gains any, and
/// loses nothing on a whole number of hundreds; the way to microseconds and
/// back loses at most one tick.
pub proof fn lemma_pts_conversion(pts_us: int, raw: int)
    requires
        0 <= pts_us,
        0 <= raw,
    ensures
        pts_from_90k(pts_to_90k(pts_us)) <= pts_us <= pts_from_90k(pts_to_90k(pts_us)) + 11,
        pts_us % 100 == 0 ==> pts_from_90k(pts_to_90k(pts_us)) == pts_us,
        pts_to_90k(pts_from_90k(raw)) <= raw <= pts_to_90k(pts_from_90k(raw)) + 1,
        raw % 9 == 0 ==> pts_to_90k(pts_from_90k(raw)) == raw,
{
    let k = (pts_us * 9) / 100;
    assert(k * 100 <= pts_us * 9 < k * 100 + 100);
    let back = (k * 1_000_000) / 90_000;
    assert(back * 90_000 <= k * 1_000_000 < back * 90_000 + 90_000);
    let u = (raw * 1_000_000) / 90_000;
    assert(u * 90_000 <= raw * 1_000_000 < u * 90_000 + 90_000);
    let r = (u * 9) / 100;
    assert(r * 100 <= u * 9 < r * 100 + 100);
}

impl Mpeg2TsMuxer {
    /// Makes a muxer that has written nothing yet.
    pub fn new(config: Mpeg2TsMuxerConfig) -> (r: Self)
        ensures
            r@ == (MuxerView { continuity_counter: 0, header_sent: false, config }),
    {
        Self {
            video_continuity_counter: ContinuityCounter::new(),
            header_sent: false,
            buf: Vec::new(),
            config,
            writer: Mpeg2tsParser::new(),
        }
    }

    /// The header of a packet of the muxer. A PID beyond 13 bits is refused.
    pub fn default_ts_header(pid: u16, continuity_counter: ContinuityCounter) -> (r: Result<
        TsHeader,
        Error,
    >)
        ensures
            pid <= Pid::MAX ==> (r matches Ok(h) && h@ == default_header(
                pid,
                continuity_counter@,
            )),
            pid > Pid::MAX ==> r == Err::<TsHeader, Error>(Error::ValueTooLarge(pid as u64)),
    {
        let pid = match Pid::new(pid) {
            Ok(pid) => pid,
            Err(e) => {
                return Err(e);
            },
        };
        Ok(
            TsHeader {
                transport_error_indicator: false,
                transport_priority: false,
                pid,
                transport_scrambling_control: TransportScramblingControl::NotScrambled,
                continuity_counter,
                adaptation_field_control: AdaptationFieldControl::PayloadOnly,
                payload_unit_start_indicator: false,
            },
        )
    }

    /// The header of a packet of the muxer on one of its own PIDs.
    fn own_header(pid: u16, continuity_counter: ContinuityCounter) -> (r: TsHeader)
        requires
            pid <= Pid::MAX,
        ensures
            r@ == default_header(pid, continuity_counter@),
    {
        match Self::default_ts_header(pid, continuity_counter) {
            Ok(h) => h,
            Err(_) => unreached(),
        }
    }

    /// The PAT packet.
    pub fn default_pat_packet() -> (r: TsPacket)
        ensures
            r@ == pat_packet(),
    {
        let program_map_pid = Self::own_header(PMT_PID, ContinuityCounter::new()).pid;
        let table = vec![ProgramAssociation { program_num: 1, program_map_pid }];
        assert(table@.map_values(|a: ProgramAssociation| a@) =~= seq![
            ProgramAssociationView { program_num: 1, program_map_pid: PMT_PID },
        ]);
        TsPacket {
            header: Self::own_header(Pid::PAT, ContinuityCounter::new()),
            adaptation_field: None,
            payload: Some(
                TsPayload::Pat(
                    Pat { transport_stream_id: 1, version_number: VersionNumber::new(), table },
                ),
            ),
        }
    }

    /// The PMT packet for a stream of the given type.
    pub fn default_pmt_packet(stream_type: StreamType) -> (r: TsPacket)
        ensures
            r@ == pmt_packet(stream_type@),
    {
        let video_pid = Self::own_header(VIDEO_ES_PID, ContinuityCounter::new()).pid;
        let descriptors: Vec<Descriptor> = Vec::new();
        let program_info: Vec<Descriptor> = Vec::new();
        assert(descriptors@.map_values(|d: Descriptor| d@) =~= Seq::<DescriptorView>::empty());
        assert(program_info@.map_values(|d: Descriptor| d@) =~= Seq::<DescriptorView>::empty());
        let es_info = vec![EsInfo { stream_type, elementary_pid: video_pid, descriptors }];
        assert(es_info@.map_values(|e: EsInfo| e@) =~= seq![
            EsInfoView {
                stream_type: stream_type@,
                elementary_pid: VIDEO_ES_PID,
                descriptors: Seq::empty(),
            },
        ]);
        TsPacket {
            header: Self::own_header(PMT_PID, ContinuityCounter::new()),
            adaptation_field: None,
            payload: Some(
                TsPayload::Pmt(
                    Pmt {
                        program_num: 1,
                        pcr_pid: Some(video_pid),
                        version_number: VersionNumber::new(),
                        program_info,
                        es_info,
                    },
                ),
            ),
        }
    }

    /// Writes packets, one after the other. Nothing is written where one of
    /// them cannot be written.
    pub fn write_packets(&self, output: &mut Vec<u8>, packets: &Vec<TsPacket>) -> (r: Result<
        (),
        Error,
    >)
        ensures
            ({
                let views = packets@.map_values(|p: TsPacket| p@);
                let ok = forall|i: int|
                    0 <= i < views.len() ==> ts_packet_writable(#[trigger] views[i]);
                &&& ok ==> r is Ok && final(output)@ == old(output)@ + packets_bytes(views)
                &&& !ok ==> r == Err::<(), Error>(Error::TsGeneric)
                    && final(output)@ == old(output)@
            }),
    {
        let ghost views = packets@.map_values(|p: TsPacket| p@);
        let mut written: Vec<u8> = Vec::new();
        let mut i: usize = 0;
        while i < packets.len()
            invariant
                i <= packets@.len(),
                views == packets@.map_values(|p: TsPacket| p@),
                written@ == packets_bytes(views.take(i as int)),
                forall|k: int| 0 <= k < i ==> ts_packet_writable(#[trigger] views[k]),
            decreases packets@.len() - i,
        {
            proof {
                let next = views.take(i as int + 1);
                assert(next.drop_last() =~= views.take(i as int));
                assert(next.last() == packets@[i as int]@);
            }
            match self.writer.serialize(&packets[i], &mut written) {
                Ok(()) => {},
                Err(e) => {
                    assert(!ts_packet_writable(views[i as int]));
                    return Err(e);
                },
            }
            i += 1;
        }
        assert(views.take(i as int) =~= views);
        put_slice(output, written.as_slice());
        Ok(())
    }

    /// Writes PAT and PMT for a stream of the given type.
    fn write_header(&self, output: &mut Vec<u8>, stream_type: StreamType)
        ensures
            final(output)@ == old(output)@ + packets_bytes(header_packets(stream_type@)),
    {
        let packets = vec![Self::default_pat_packet(), Self::default_pmt_packet(stream_type)];
        proof {
            lemma_header_packets_writable(stream_type@);
            assert(packets@.map_values(|p: TsPacket| p@) =~= header_packets(stream_type@));
        }
        match self.write_packets(output, &packets) {
            Ok(()) => {},
            Err(_) => {
                assert(false);
            },
        }
    }

    /// Appends chunks to the elementary stream bytes, each behind a start
    /// code unless the chunks have them.
    fn append_chunks(buf: &mut Vec<u8>, chunks: &Vec<Vec<u8>>, annexb: bool)
        ensures
            final(buf)@ == old(buf)@ + chunks_bytes(chunks@.map_values(|c: Vec<u8>| c@), annexb),
    {
        let ghost views = chunks@.map_values(|c: Vec<u8>| c@);
        let mut i: usize = 0;
        while i < chunks.len()
            invariant
                i <= chunks@.len(),
                views == chunks@.map_values(|c: Vec<u8>| c@),
                buf@ == old(buf)@ + chunks_bytes(views.take(i as int), annexb),
            decreases chunks@.len() - i,
        {
            proof {
                let next = views.take(i as int + 1);
                assert(next.drop_last() =~= views.take(i as int));
                assert(next.last() == chunks@[i as int]@);
            }
            let ghost before = buf@;
            if !annexb {
                buf.push(0);
                buf.push(0);
                buf.push(1);
            }
            put_slice(buf, chunks[i].as_slice());
            assert(buf@ =~= before + chunk_bytes(chunks@[i as int]@, annexb));
            assert(buf@ =~= old(buf)@ + chunks_bytes(views.take(i as int + 1), annexb));
            i += 1;
        }
        assert(views.take(i as int) =~= views);
    }

    /// Gathers the elementary stream bytes of a frame in the scratch buffer.
    fn gather(&mut self, frame: &EncodedFrame)
        ensures
            final(self).buf@ == es_payload(old(self)@.config, frame@),
            final(self)@ == old(self)@,
    {
        self.buf.clear();
        let annexb: bool = frame.has_flag(FrameFlags::ANNEXB);
        let send_params: bool = if self.config.send_params_on_each_keyframe {
            frame.is_keyframe()
        } else {
            frame.has_params()
        };
        if send_params {
            Self::append_chunks(&mut self.buf, &frame.params, annexb);
        }
        Self::append_chunks(&mut self.buf, &frame.units, annexb);
        assert(self.buf@ =~= es_payload(old(self)@.config, frame@));
    }

    /// The first packet of a frame.
    fn start_packet(
        counter: ContinuityCounter,
        ts: Timestamp<PtsDts>,
        is_keyframe: bool,
        data: RawData,
    ) -> (r: TsPacket)
        requires
            ts@ <= Timestamp::<PtsDts>::MAX,
        ensures
            r@ == pes_start_packet(counter@, ts@, is_keyframe, data@),
    {
        let adaptation_field = if is_keyframe {
            let pcr: Timestamp<Clock<PCR>> = Timestamp::<Clock<PCR>>::from_pts(ts);
            Some(
                AdaptationField {
                    discontinuity_indicator: false,
                    random_access_indicator: true,
                    es_priority_indicator: false,
                    pcr: Some(pcr),
                    opcr: None,
                    splice_countdown: None,
                    transport_private_data: Vec::new(),
                    extension: None,
                },
            )
        } else {
            None
        };
        TsPacket {
            header: Self::own_header(VIDEO_ES_PID, counter),
            adaptation_field,
            payload: Some(
                TsPayload::Pes(
                    Pes {
                        header: PesHeader {
                            stream_id: StreamId::new(PES_VIDEO_STREAM_ID),
                            priority: false,
                            data_alignment_indicator: false,
                            copyright: false,
                            original_or_copy: false,
                            pts: Some(ts),
                            dts: None,
                            escr: None,
                            packet_len: 0,
                        },
                        data,
                    },
                ),
            ),
        }
    }

    /// The bytes of the scratch buffer from `from` up to `to`, as the data
    /// of one packet.
    fn slice(&self, from: usize, to: usize) -> (r: RawData)
        requires
            from <= to <= self.buf@.len(),
            to - from <= RawData::MAX_SIZE,
        ensures
            r@ == self.buf@.subrange(from as int, to as int),
    {
        match RawData::new(slice_subrange(self.buf.as_slice(), from, to)) {
            Ok(data) => data,
            Err(_) => unreached(),
        }
    }

    /// Writes the first packet of a frame whose elementary stream bytes
    /// stand in the scratch buffer, and tells where its slice ends.
    fn write_first(
        &self,
        output: &mut Vec<u8>,
        counter: ContinuityCounter,
        ts: Timestamp<PtsDts>,
        is_keyframe: bool,
    ) -> (end: usize)
        requires
            ts@ <= Timestamp::<PtsDts>::MAX,
        ensures
            end == video_slice_end(is_keyframe, self.buf@.len(), 0),
            final(output)@ == old(output)@ + ts_packet_bytes(
                video_packet(counter@, ts@, is_keyframe, self.buf@, 0),
            ),
    {
        let len: usize = self.buf.len();
        let capacity: usize = if is_keyframe {
            TsPacket::SIZE - 4 - CLOCK_FIELD_LEN - VIDEO_PES_HEADER_LEN
        } else {
            TsPacket::SIZE - 4 - VIDEO_PES_HEADER_LEN
        };
        let end: usize = if len < capacity {
            len
        } else {
            capacity
        };
        let packet = Self::start_packet(counter, ts, is_keyframe, self.slice(0, end));
        proof {
            lemma_video_packet_writable(counter@, ts@, is_keyframe, self.buf@, 0);
        }
        match self.writer.serialize(&packet, output) {
            Ok(()) => {},
            Err(_) => {
                assert(false);
            },
        }
        end
    }

    /// Writes packet `k` of a frame, a later one than the first, and tells
    /// where its slice ends.
    fn write_continuation(
        &self,
        output: &mut Vec<u8>,
        counter: ContinuityCounter,
        pos: usize,
        is_keyframe: bool,
        Ghost(first): Ghost<u8>,
        Ghost(ts): Ghost<u64>,
        Ghost(k): Ghost<nat>,
    ) -> (end: usize)
        requires
            k >= 1,
            pos == video_slice_start(is_keyframe, self.buf@.len(), k),
            pos < self.buf@.len(),
            counter@ == counter_after(first, k),
            ts <= Timestamp::<PtsDts>::MAX,
        ensures
            end == video_slice_end(is_keyframe, self.buf@.len(), k),
            pos < end <= self.buf@.len(),
            final(output)@ == old(output)@ + ts_packet_bytes(
                video_packet(first, ts, is_keyframe, self.buf@, k),
            ),
    {
        let len: usize = self.buf.len();
        let end: usize = if len - pos < RawData::MAX_SIZE {
            len
        } else {
            pos + RawData::MAX_SIZE
        };
        let packet = TsPacket {
            header: Self::own_header(VIDEO_ES_PID, counter),
            adaptation_field: None,
            payload: Some(TsPayload::Raw(self.slice(pos, end))),
        };
        proof {
            lemma_video_packet_writable(first, ts, is_keyframe, self.buf@, k);
            assert(packet@ == video_packet(first, ts, is_keyframe, self.buf@, k));
        }
        match self.writer.serialize(&packet, output) {
            Ok(()) => {},
            Err(_) => {
                assert(false);
            },
        }
        end
    }

    /// Writes the packets of a frame whose elementary stream bytes stand in
    /// the scratch buffer: the first with the PES header, each of the others
    /// with up to 184 bytes more.
    fn write_packet(&mut self, output: &mut Vec<u8>, ts: Timestamp<PtsDts>, is_keyframe: bool)
        requires
            ts@ <= Timestamp::<PtsDts>::MAX,
        ensures
            final(output)@ == old(output)@ + video_packets_bytes(
                old(self)@.continuity_counter,
                ts@,
                is_keyframe,
                old(self).buf@,
                video_packet_count(is_keyframe, old(self).buf@.len()),
            ),
            final(self)@.continuity_counter == counter_after(
                old(self)@.continuity_counter,
                video_packet_count(is_keyframe, old(self).buf@.len()),
            ),
            final(self)@.header_sent == old(self)@.header_sent,
            final(self)@.config == old(self)@.config,
            final(self).buf@ == old(self).buf@,
    {
        let ghost first = self.video_continuity_counter@;
        let ghost payload = self.buf@;
        let mut counter = self.video_continuity_counter;
        proof {
            use_type_invariant(&counter);
        }
        let len: usize = self.buf.len();
        let mut pos: usize = self.write_first(output, counter, ts, is_keyframe);
        counter.increment();
        let ghost mut k: nat = 1;
        proof {
            reveal_with_fuel(video_packets_bytes, 2);
            assert(output@ =~= old(output)@ + video_packets_bytes(
                first,
                ts@,
                is_keyframe,
                payload,
                1,
            ));
        }
        while pos < len
            invariant
                k >= 1,
                len == payload.len(),
                payload == self.buf@,
                ts@ <= Timestamp::<PtsDts>::MAX,
                pos == video_slice_end(is_keyframe, payload.len(), (k - 1) as nat),
                pos <= len,
                k >= 2 ==> video_slice_end(is_keyframe, payload.len(), (k - 2) as nat) < len,
                counter@ == counter_after(first, k),
                output@ == old(output)@ + video_packets_bytes(
                    first,
                    ts@,
                    is_keyframe,
                    payload,
                    k,
                ),
                self.header_sent == old(self).header_sent,
                self.config == old(self).config,
            decreases len - pos,
        {
            let end = self.write_continuation(
                output,
                counter,
                pos,
                is_keyframe,
                Ghost(first),
                Ghost(ts@),
                Ghost(k),
            );
            counter.increment();
            pos = end;
            proof {
                lemma_counter_step(first, k);
                assert(output@ =~= old(output)@ + video_packets_bytes(
                    first,
                    ts@,
                    is_keyframe,
                    payload,
                    k + 1,
                ));
                k = k + 1;
            }
        }
        proof {
            lemma_video_count(is_keyframe, payload.len(), k);
        }
        self.video_continuity_counter = counter;
    }

    /// The PTS of a frame in ticks of 90 kHz, where it fits 33 bits.
    fn frame_timestamp(frame: &EncodedFrame) -> (r: Result<Timestamp<PtsDts>, Error>)
        ensures
            frame_pts_90k(frame@) <= Timestamp::<PtsDts>::MAX ==> (r matches Ok(t) && t@
                == frame_pts_90k(frame@)),
            frame_pts_90k(frame@) > Timestamp::<PtsDts>::MAX ==> r == Err::<
                Timestamp<PtsDts>,
                Error,
            >(Error::ValueTooLarge(frame_pts_90k(frame@) as u64)),
    {
        let pts: i64 = frame.pts();
        let unsigned: u64 = if pts >= 0 {
            pts as u64
        } else {
            u64::MAX - ((-(pts + 1)) as u64)
        };
        let raw: u128 = (unsigned as u128 * 9) / 100;
        Timestamp::<PtsDts>::new(raw as u64)
    }

    /// The stream type for the codec of a frame, where the muxer carries the
    /// codec.
    fn frame_stream_type(frame: &EncodedFrame) -> (r: Option<StreamType>)
        ensures
            match r {
                Some(t) => stream_type_of(frame@.codec) == Some(t@),
                None => stream_type_of(frame@.codec) is None,
            },
    {
        let codec: u32 = frame.codec().0;
        if codec == Fourcc::VIDEO_AVC {
            Some(StreamType::from_u8(StreamType::H264))
        } else if codec == Fourcc::VIDEO_HEVC {
            Some(StreamType::from_u8(StreamType::H265))
        } else {
            None
        }
    }

    /// Muxes one frame: appends to `dst` the PAT and the PMT, where this is
    /// the first frame that the muxer accepts, and the packets of the frame.
    ///
    /// A frame is refused, with nothing written and nothing changed, where
    /// PAT and PMT are still to be written and its codec is neither AVC nor
    /// HEVC, or where its PTS does not fit 33 bits at 90 kHz.
    pub fn push_frame(&mut self, frame: &EncodedFrame, dst: &mut Vec<u8>) -> (r: Result<
        (),
        Error,
    >)
        ensures
            match mux_error(old(self)@, frame@) {
                Some(e) => r == Err::<(), Error>(e) && final(dst)@ == old(dst)@ && final(self)@
                    == old(self)@,
                None => r is Ok && final(dst)@ == old(dst)@ + mux_bytes(old(self)@, frame@)
                    && final(self)@ == mux_next(old(self)@, frame@),
            },
    {
        let stream_type = Self::frame_stream_type(frame);
        if !self.header_sent {
            if stream_type.is_none() {
                return Err(Error::MuxUnsupportedCodec(frame.codec()));
            }
        }
        let ts = match Self::frame_timestamp(frame) {
            Ok(ts) => ts,
            Err(e) => {
                return Err(e);
            },
        };
        if !self.header_sent {
            match stream_type {
                Some(t) => self.write_header(dst, t),
                None => {},
            }
            self.header_sent = true;
        }
        self.gather(frame);
        self.write_packet(dst, ts, frame.is_keyframe());
        assert(dst@ =~= old(dst)@ + mux_bytes(old(self)@, frame@));
        Ok(())
    }
}

} // verus!
