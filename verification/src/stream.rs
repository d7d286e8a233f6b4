//! Whole streams: what the muxer writes for frame after frame, and what
//! comes back when the demuxer reads it.
//!
//! The frames come back one packet late: the start of each PES packet
//! completes the frame before it, and the last frame is the one that the end
//! of the stream completes.
use crate::demux::{
    after_pmt, codec_after, demux_step, given_out, pending_frame, pts_us_of, wrapping_sum,
    DemuxView,
};
use crate::error::Error;
use crate::frame::{EncodedFrameView, Fourcc, Mpeg2TsFrameView};
use crate::mpegts::pid::{forget, kind_in, learn, streams_of, PidKind, PidTable};
use crate::mpegts::timestamp::{PtsDts, Timestamp};
use crate::mpegts::ts::packet::{lemma_packet_inverse, table_after, ts_packet_bytes, TsPacketView};
use crate::mpegts::ts::pat::ProgramAssociationView;
use crate::mpegts::ts::pmt::EsInfoView;
use crate::mpegts::ts::TsPacket;
use crate::muxer::{
    continuation_packet, es_payload, frame_pts_90k, header_packets, lemma_header_packets,
    lemma_header_packets_writable, lemma_video_packet_writable, lemma_video_packets,
    lemma_video_slices, mux_bytes, mux_error, mux_header_bytes, mux_next, mux_packet_count,
    mux_state_valid, mux_video_bytes, mux_video_count, nth_packet, packets_bytes, pat_packet,
    pes_start_packet, pmt_packet, stream_type_of, video_packet, video_packets_bytes, video_slice,
    video_slice_end, MuxerView, Mpeg2TsMuxerConfig, PMT_PID, VIDEO_ES_PID,
};
use vstd::prelude::*;

verus! {

/// The state of the muxer after the frames, each accepted.
pub open spec fn mux_state_after(s: MuxerView, frames: Seq<EncodedFrameView>) -> MuxerView
    decreases frames.len(),
{
    if frames.len() == 0 {
        s
    } else {
        mux_next(mux_state_after(s, frames.drop_last()), frames.last())
    }
}

/// Whether the muxer accepts each of the frames in its turn.
pub open spec fn mux_accepts(s: MuxerView, frames: Seq<EncodedFrameView>) -> bool
    decreases frames.len(),
{
    frames.len() == 0 || (mux_accepts(s, frames.drop_last()) && mux_error(
        mux_state_after(s, frames.drop_last()),
        frames.last(),
    ) is None)
}

/// The bytes that the muxer writes for the frames, each accepted.
pub open spec fn mux_stream(s: MuxerView, frames: Seq<EncodedFrameView>) -> Seq<u8>
    decreases frames.len(),
{
    if frames.len() == 0 {
        Seq::empty()
    } else {
        mux_stream(s, frames.drop_last()) + mux_bytes(
            mux_state_after(s, frames.drop_last()),
            frames.last(),
        )
    }
}

/// The number of packets that the muxer writes for the frames.
pub open spec fn mux_stream_count(s: MuxerView, frames: Seq<EncodedFrameView>) -> nat
    decreases frames.len(),
{
    if frames.len() == 0 {
        0
    } else {
        mux_stream_count(s, frames.drop_last()) + mux_packet_count(
            mux_state_after(s, frames.drop_last()),
            frames.last(),
        )
    }
}

/// What the first `n` packets of a stream do to the session, and the
/// frames that they complete.
pub open spec fn demux_packets(s: DemuxView, bytes: Seq<u8>, n: nat) -> (
    DemuxView,
    Seq<Mpeg2TsFrameView>,
)
    decreases n,
{
    if n == 0 {
        (s, Seq::empty())
    } else {
        let (before, out) = demux_packets(s, bytes, (n - 1) as nat);
        let (after, r) = demux_step(before, nth_packet(bytes, (n - 1) as nat));
        (
            after,
            match r {
                Ok(Some(f)) => out.push(f),
                _ => out,
            },
        )
    }
}

/// The frame that comes back for a frame that was muxed, in a stream whose
/// PMT names `codec`: the presentation time in whole microseconds of its
/// ticks, the decoding time that the offset of the session makes of it, and
/// the elementary stream bytes.
pub open spec fn demuxed_frame(
    config: Mpeg2TsMuxerConfig,
    base_ts: u64,
    codec: Fourcc,
    f: EncodedFrameView,
) -> Mpeg2TsFrameView {
    Mpeg2TsFrameView {
        codec,
        pts: pts_us_of(frame_pts_90k(f) as u64) as i64,
        dts: wrapping_sum(pts_us_of(frame_pts_90k(f) as u64), base_ts),
        keyframe: f.keyframe,
        payload: es_payload(config, f),
    }
}

/// Whether a session knows the PID of the video stream of the muxer.
pub open spec fn knows_video(d: DemuxView) -> bool {
    kind_in(d.table.pids, VIDEO_ES_PID) == PidKind::Pes
}

/// The packets of a stream behind whole packets are read from the state
/// that those leave, and complete the frames that follow theirs.
pub proof fn lemma_demux_concat(s: DemuxView, a: Seq<u8>, m: nat, b: Seq<u8>, n: nat)
    requires
        a.len() == TsPacket::SIZE * m,
        b.len() >= TsPacket::SIZE * n,
    ensures
        demux_packets(s, a + b, m + n) == (
            demux_packets(demux_packets(s, a, m).0, b, n).0,
            demux_packets(s, a, m).1 + demux_packets(demux_packets(s, a, m).0, b, n).1,
        ),
    decreases n,
{
    let first = demux_packets(s, a, m);
    if n == 0 {
        lemma_demux_prefix(s, a, b, m);
        assert(first.1 + Seq::<Mpeg2TsFrameView>::empty() =~= first.1);
    } else {
        lemma_demux_concat(s, a, m, b, (n - 1) as nat);
        assert(nth_packet(a + b, (m + n - 1) as nat) =~= nth_packet(b, (n - 1) as nat));
        let before = demux_packets(first.0, b, (n - 1) as nat);
        let (after, r) = demux_step(before.0, nth_packet(b, (n - 1) as nat));
        match r {
            Ok(Some(f)) => {
                assert((first.1 + before.1).push(f) =~= first.1 + before.1.push(f));
            },
            _ => {},
        }
    }
}

/// The first packets of a stream are read without regard to what follows
/// them.
pub proof fn lemma_demux_prefix(s: DemuxView, a: Seq<u8>, b: Seq<u8>, m: nat)
    requires
        a.len() >= TsPacket::SIZE * m,
    ensures
        demux_packets(s, a + b, m) == demux_packets(s, a, m),
    decreases m,
{
    if m > 0 {
        lemma_demux_prefix(s, a, b, (m - 1) as nat);
        assert(nth_packet(a + b, (m - 1) as nat) =~= nth_packet(a, (m - 1) as nat));
    }
}

/// The table of a session after the PAT of the muxer.
pub open spec fn table_after_pat(t: PidTable) -> PidTable {
    table_after(t, pat_packet().payload)
}

/// The table of a session after the PAT and the PMT of the muxer.
pub open spec fn table_after_header(t: PidTable, stream_type: u8) -> PidTable {
    table_after(table_after_pat(t), pmt_packet(stream_type).payload)
}

/// Learning one PID makes it known, and leaves the others as they were.
proof fn lemma_learn_one(pids: Map<u16, PidKind>, pid: u16, kind: PidKind)
    ensures
        learn(pids, seq![pid], kind) == pids.insert(pid, kind),
{
    assert(seq![pid].drop_last() =~= Seq::<u16>::empty());
    reveal_with_fuel(learn, 2);
}

/// Forgetting elementary streams leaves the PIDs of the PMTs known.
proof fn lemma_forget_keeps(pids: Map<u16, PidKind>, keys: Seq<u16>, pid: u16)
    requires
        kind_in(pids, pid) == PidKind::Pmt,
    ensures
        kind_in(forget(pids, keys), pid) == PidKind::Pmt,
    decreases keys.len(),
{
    if keys.len() > 0 {
        lemma_forget_keeps(pids, keys.drop_last(), pid);
    }
}

/// The PAT of the muxer teaches the PID of its PMT.
pub proof fn lemma_demux_pat(d: DemuxView)
    ensures
        demux_step(d, ts_packet_bytes(pat_packet())) == (
            DemuxView { table: table_after_pat(d.table), ..d },
            Ok::<Option<Mpeg2TsFrameView>, Error>(None),
        ),
        kind_in(table_after_pat(d.table).pids, PMT_PID) == PidKind::Pmt,
{
    reveal(demux_step);
    lemma_header_packets_writable(0);
    let p = pat_packet();
    lemma_packet_inverse(d.table.pids, p);
    let pat = p.payload->Some_0->Pat_0;
    let keys = pat.table.map_values(|a: ProgramAssociationView| a.program_map_pid);
    assert(keys =~= seq![PMT_PID]);
    lemma_learn_one(d.table.pids, PMT_PID, PidKind::Pmt);
}

/// The codec that a stream type stands for.
pub open spec fn codec_of(stream_type: u8) -> Fourcc {
    if stream_type == crate::mpegts::stream_type::StreamType::H264 {
        Fourcc(Fourcc::VIDEO_AVC)
    } else {
        Fourcc(Fourcc::VIDEO_HEVC)
    }
}

/// The PMT of the muxer teaches the PID of the video stream and the codec.
pub proof fn lemma_demux_pmt(d: DemuxView, stream_type: u8)
    requires
        kind_in(d.table.pids, PMT_PID) == PidKind::Pmt,
        stream_type == crate::mpegts::stream_type::StreamType::H264 || stream_type
            == crate::mpegts::stream_type::StreamType::H265,
    ensures
        demux_step(d, ts_packet_bytes(pmt_packet(stream_type))) == (
            DemuxView {
                table: table_after(d.table, pmt_packet(stream_type).payload),
                ..after_pmt(d, pmt_packet(stream_type).payload->Some_0->Pmt_0)
            },
            Ok::<Option<Mpeg2TsFrameView>, Error>(None),
        ),
        after_pmt(d, pmt_packet(stream_type).payload->Some_0->Pmt_0).codec == codec_of(
            stream_type,
        ),
        kind_in(table_after(d.table, pmt_packet(stream_type).payload).pids, VIDEO_ES_PID)
            == PidKind::Pes,
{
    reveal(demux_step);
    lemma_header_packets_writable(stream_type);
    let p = pmt_packet(stream_type);
    lemma_packet_inverse(d.table.pids, p);
    let pmt = p.payload->Some_0->Pmt_0;
    let keys = pmt.es_info.map_values(|e: EsInfoView| e.elementary_pid);
    assert(keys =~= seq![VIDEO_ES_PID]);
    lemma_learn_one(
        forget(d.table.pids, streams_of(d.table.programs, pmt.program_num)),
        VIDEO_ES_PID,
        PidKind::Pes,
    );
    assert(pmt.es_info.drop_last() =~= Seq::<EsInfoView>::empty());
    reveal_with_fuel(codec_after, 2);
}

/// The first packet of a frame completes the frame gathered so far and
/// starts the next one.
pub proof fn lemma_demux_start(d: DemuxView, counter: u8, ts: u64, keyframe: bool, data: Seq<u8>)
    requires
        knows_video(d),
        counter <= crate::mpegts::continuity_counter::ContinuityCounter::MAX,
        ts <= Timestamp::<PtsDts>::MAX,
        crate::mpegts::ts::packet::ts_packet_writable(
            pes_start_packet(counter, ts, keyframe, data),
        ),
    ensures
        demux_step(d, ts_packet_bytes(pes_start_packet(counter, ts, keyframe, data))) == (
            DemuxView {
                ignore: false,
                is_keyframe: keyframe,
                video_pid: Some(VIDEO_ES_PID),
                pts: pts_us_of(ts),
                body: data,
                ..given_out(d)
            },
            Ok::<Option<Mpeg2TsFrameView>, Error>(pending_frame(d)),
        ),
{
    reveal(demux_step);
    let p = pes_start_packet(counter, ts, keyframe, data);
    crate::mpegts::ts::pes::lemma_pes_header_len(crate::muxer::video_pes_header(ts));
    lemma_packet_inverse(d.table.pids, p);
}

/// A later packet of a frame adds its bytes to the frame being gathered.
pub proof fn lemma_demux_continuation(d: DemuxView, counter: u8, data: Seq<u8>)
    requires
        knows_video(d),
        !d.ignore,
        d.video_pid == Some(VIDEO_ES_PID),
        counter <= crate::mpegts::continuity_counter::ContinuityCounter::MAX,
        data.len() <= crate::mpegts::bytes::RawData::MAX_SIZE,
    ensures
        demux_step(d, ts_packet_bytes(continuation_packet(counter, data))) == (
            DemuxView { body: d.body + data, ..d },
            Ok::<Option<Mpeg2TsFrameView>, Error>(None),
        ),
{
    reveal(demux_step);
    let p = continuation_packet(counter, data);
    lemma_packet_inverse(d.table.pids, p);
}

/// The frame that a session gives out when the next PES packet starts, as
/// a list: none while nothing is being gathered.
pub open spec fn pending_frames(d: DemuxView) -> Seq<Mpeg2TsFrameView> {
    match pending_frame(d) {
        Some(f) => seq![f],
        None => Seq::empty(),
    }
}

/// The state of a session after the PAT and the PMT of the muxer.
pub open spec fn after_header(d: DemuxView, stream_type: u8) -> DemuxView {
    DemuxView {
        table: table_after_header(d.table, stream_type),
        ..after_pmt(d, pmt_packet(stream_type).payload->Some_0->Pmt_0)
    }
}

/// PAT and PMT of the muxer complete no frame, and teach the session the
/// PIDs and the codec.
pub proof fn lemma_demux_header(d: DemuxView, stream_type: u8)
    requires
        stream_type == crate::mpegts::stream_type::StreamType::H264 || stream_type
            == crate::mpegts::stream_type::StreamType::H265,
    ensures
        demux_packets(d, packets_bytes(header_packets(stream_type)), 2) == (
            after_header(d, stream_type),
            Seq::<Mpeg2TsFrameView>::empty(),
        ),
        packets_bytes(header_packets(stream_type)).len() == TsPacket::SIZE * 2,
        knows_video(after_header(d, stream_type)),
        after_header(d, stream_type).codec == codec_of(stream_type),
{
    lemma_header_packets(stream_type);
    lemma_demux_pat(d);
    let d1 = DemuxView { table: table_after_pat(d.table), ..d };
    lemma_demux_pmt(d1, stream_type);
    reveal_with_fuel(demux_packets, 3);
}

/// The state of a session that has read the first packets of a frame.
pub open spec fn started(d: DemuxView, keyframe: bool, ts: u64, body: Seq<u8>) -> DemuxView {
    DemuxView {
        ignore: false,
        is_keyframe: keyframe,
        video_pid: Some(VIDEO_ES_PID),
        pts: pts_us_of(ts),
        body,
        ..given_out(d)
    }
}

/// The first `k` packets of a frame complete the frame gathered before
/// them, and leave the session with the bytes of their slices.
pub proof fn lemma_demux_video(
    d: DemuxView,
    counter: u8,
    ts: u64,
    keyframe: bool,
    payload: Seq<u8>,
    k: nat,
)
    requires
        knows_video(d),
        counter <= crate::mpegts::continuity_counter::ContinuityCounter::MAX,
        ts <= Timestamp::<PtsDts>::MAX,
        k >= 1,
    ensures
        demux_packets(d, video_packets_bytes(counter, ts, keyframe, payload, k), k) == (
            started(
                d,
                keyframe,
                ts,
                payload.subrange(
                    0,
                    video_slice_end(keyframe, payload.len(), (k - 1) as nat) as int,
                ),
            ),
            pending_frames(d),
        ),
        video_packets_bytes(counter, ts, keyframe, payload, k).len() == TsPacket::SIZE * k,
    decreases k,
{
    let all = video_packets_bytes(counter, ts, keyframe, payload, k);
    let last = (k - 1) as nat;
    let prefix = video_packets_bytes(counter, ts, keyframe, payload, last);
    let packet = video_packet(counter, ts, keyframe, payload, last);
    lemma_video_packets(counter, ts, keyframe, payload, k, last);
    lemma_video_slices(keyframe, payload.len(), last);
    lemma_video_packet_writable(counter, ts, keyframe, payload, last);
    assert(all == prefix + ts_packet_bytes(packet));
    if k == 1 {
        lemma_demux_start(d, counter, ts, keyframe, video_slice(keyframe, payload, 0));
        reveal_with_fuel(demux_packets, 2);
        match pending_frame(d) {
            Some(f) => {
                assert(Seq::<Mpeg2TsFrameView>::empty().push(f) =~= seq![f]);
            },
            None => {},
        }
    } else {
        lemma_demux_video(d, counter, ts, keyframe, payload, last);
        lemma_demux_prefix(d, prefix, ts_packet_bytes(packet), last);
        let before = started(
            d,
            keyframe,
            ts,
            payload.subrange(0, video_slice_end(keyframe, payload.len(), (k - 2) as nat) as int),
        );
        let data = video_slice(keyframe, payload, last);
        lemma_demux_continuation(before, crate::muxer::counter_after(counter, last), data);
        assert(before.body + data =~= payload.subrange(
            0,
            video_slice_end(keyframe, payload.len(), last) as int,
        ));
    }
}

/// The state of a session when the first packet of a frame of the muxer
/// arrives: after PAT and PMT, where they precede the frame.
pub open spec fn before_frame(d: DemuxView, m: MuxerView, f: EncodedFrameView) -> DemuxView {
    if m.header_sent {
        d
    } else {
        after_header(d, stream_type_of(f.codec).unwrap())
    }
}

/// The state of a session after a frame of the muxer.
pub open spec fn after_frame(d: DemuxView, m: MuxerView, f: EncodedFrameView) -> DemuxView {
    started(before_frame(d, m, f), f.keyframe, frame_pts_90k(f) as u64, es_payload(m.config, f))
}

/// The packets of a frame complete the frame gathered before them, and
/// leave the session with the frame that they carry.
pub proof fn lemma_demux_frame(d: DemuxView, m: MuxerView, f: EncodedFrameView)
    requires
        mux_state_valid(m),
        mux_error(m, f) is None,
        m.header_sent ==> knows_video(d),
    ensures
        demux_packets(d, mux_bytes(m, f), mux_packet_count(m, f)) == (
            after_frame(d, m, f),
            pending_frames(before_frame(d, m, f)),
        ),
        mux_bytes(m, f).len() == TsPacket::SIZE * mux_packet_count(m, f),
{
    let ts = frame_pts_90k(f) as u64;
    let payload = es_payload(m.config, f);
    let n = mux_video_count(m, f);
    let video = mux_video_bytes(m, f);
    lemma_video_slices(f.keyframe, payload.len(), (n - 1) as nat);
    assert(payload.subrange(0, payload.len() as int) =~= payload);
    if m.header_sent {
        lemma_demux_video(d, m.continuity_counter, ts, f.keyframe, payload, n);
        assert(mux_bytes(m, f) =~= video);
    } else {
        let stream_type = stream_type_of(f.codec).unwrap();
        let header = mux_header_bytes(m, f);
        lemma_demux_header(d, stream_type);
        let d1 = after_header(d, stream_type);
        lemma_demux_video(d1, m.continuity_counter, ts, f.keyframe, payload, n);
        lemma_demux_concat(d, header, 2, video, n);
        assert(Seq::<Mpeg2TsFrameView>::empty() + pending_frames(d1) =~= pending_frames(d1));
    }
}

/// The frames that come back for frames that were muxed.
pub open spec fn demuxed_frames(
    config: Mpeg2TsMuxerConfig,
    base_ts: u64,
    codec: Fourcc,
    frames: Seq<EncodedFrameView>,
) -> Seq<Mpeg2TsFrameView> {
    frames.map_values(|f: EncodedFrameView| demuxed_frame(config, base_ts, codec, f))
}

/// What holds of a session that has read the packets of frames that were
/// muxed: it knows the PIDs, it has the codec of the first frame, and it
/// gathers the last frame.
pub open spec fn holds_last(
    d: DemuxView,
    after: DemuxView,
    m: MuxerView,
    frames: Seq<EncodedFrameView>,
) -> bool {
    &&& knows_video(after)
    &&& after.codec == frames[0].codec
    &&& after.base_ts == d.base_ts
    &&& pending_frame(after) == Some(
        demuxed_frame(m.config, d.base_ts, frames[0].codec, frames.last()),
    )
}

/// The muxer keeps its options and a counter of four bits, and has written
/// PAT and PMT once it has accepted a frame.
pub proof fn lemma_mux_state_after(m: MuxerView, frames: Seq<EncodedFrameView>)
    requires
        mux_state_valid(m),
    ensures
        mux_state_valid(mux_state_after(m, frames)),
        mux_state_after(m, frames).config == m.config,
        frames.len() > 0 ==> mux_state_after(m, frames).header_sent,
        frames.len() == 0 ==> mux_state_after(m, frames) == m,
    decreases frames.len(),
{
    if frames.len() > 0 {
        lemma_mux_state_after(m, frames.drop_last());
    }
}

/// The number of packets on the video PID that the muxer writes for the
/// frames.
pub open spec fn mux_stream_video_count(s: MuxerView, frames: Seq<EncodedFrameView>) -> nat
    decreases frames.len(),
{
    if frames.len() == 0 {
        0
    } else {
        mux_stream_video_count(s, frames.drop_last()) + mux_video_count(
            mux_state_after(s, frames.drop_last()),
            frames.last(),
        )
    }
}

/// Over a whole stream the continuity counter of the video PID goes up by
/// one with every packet on that PID: each frame starts with the counter
/// that follows the one of the last packet of the frame before it.
pub proof fn lemma_stream_continuity(m: MuxerView, frames: Seq<EncodedFrameView>)
    requires
        mux_state_valid(m),
    ensures
        mux_state_after(m, frames).continuity_counter == crate::muxer::counter_after(
            m.continuity_counter,
            mux_stream_video_count(m, frames),
        ),
    decreases frames.len(),
{
    if frames.len() > 0 {
        lemma_stream_continuity(m, frames.drop_last());
        lemma_mux_state_after(m, frames.drop_last());
    }
}

/// Every byte of a whole stream belongs to one packet of 188 bytes, and
/// every packet starts with the synchronization byte.
pub proof fn lemma_stream_framing(m: MuxerView, frames: Seq<EncodedFrameView>)
    requires
        mux_state_valid(m),
        mux_accepts(m, frames),
    ensures
        mux_stream(m, frames).len() == TsPacket::SIZE * mux_stream_count(m, frames),
        forall|k: nat|
            k < mux_stream_count(m, frames) ==> (#[trigger] nth_packet(mux_stream(m, frames), k))[0]
                == TsPacket::SYNC_BYTE,
    decreases frames.len(),
{
    if frames.len() > 0 {
        let before = frames.drop_last();
        let f = frames.last();
        let s = mux_state_after(m, before);
        lemma_stream_framing(m, before);
        lemma_mux_state_after(m, before);
        crate::muxer::lemma_mux_framing(s, f);
        let head = mux_stream(m, before);
        let tail = mux_bytes(s, f);
        let a = mux_stream_count(m, before);
        let b = mux_packet_count(s, f);
        assert forall|k: nat| k < mux_stream_count(m, frames) implies (#[trigger] nth_packet(
            mux_stream(m, frames),
            k,
        ))[0] == TsPacket::SYNC_BYTE by {
            if k < a {
                assert(nth_packet(head + tail, k) =~= nth_packet(head, k));
            } else {
                assert(nth_packet(head + tail, k) =~= nth_packet(tail, (k - a) as nat));
            }
        }
    }
}

/// Round trip: where frames were muxed from the start of a stream, and a
/// session that gathers nothing yet reads the packets, every frame but the
/// last comes back when the packet after it starts, and the last is the one
/// that the end of the stream completes.
///
/// Each comes back with its keyframe mark, with its elementary stream bytes
/// in Annex-B form, and with its presentation time as the whole
/// microseconds of its 90 kHz ticks. The codec is that of the first frame,
/// which the PMT names.
pub proof fn lemma_round_trip(m: MuxerView, d: DemuxView, frames: Seq<EncodedFrameView>)
    requires
        mux_state_valid(m),
        !m.header_sent,
        d.ignore,
        frames.len() > 0,
        mux_accepts(m, frames),
    ensures
        mux_stream(m, frames).len() == TsPacket::SIZE * mux_stream_count(m, frames),
        demux_packets(d, mux_stream(m, frames), mux_stream_count(m, frames)).1 == demuxed_frames(
            m.config,
            d.base_ts,
            frames[0].codec,
            frames.drop_last(),
        ),
        holds_last(
            d,
            demux_packets(d, mux_stream(m, frames), mux_stream_count(m, frames)).0,
            m,
            frames,
        ),
    decreases frames.len(),
{
    let f = frames.last();
    let before = frames.drop_last();
    let m1 = mux_state_after(m, before);
    lemma_mux_state_after(m, before);
    let codec = frames[0].codec;
    let expected = demuxed_frames(m.config, d.base_ts, codec, before);
    if before.len() == 0 {
        lemma_demux_frame(d, m, f);
        assert(mux_stream(m, before) =~= Seq::<u8>::empty());
        assert(mux_stream(m, frames) =~= mux_bytes(m, f));
        assert(mux_stream_count(m, before) == 0);
        assert(expected =~= Seq::<Mpeg2TsFrameView>::empty());
        assert(codec_of(stream_type_of(f.codec).unwrap()) == f.codec);
    } else {
        lemma_round_trip(m, d, before);
        let stream = mux_stream(m, before);
        let count = mux_stream_count(m, before);
        let (d1, out1) = demux_packets(d, stream, count);
        lemma_demux_frame(d1, m1, f);
        lemma_demux_concat(d, stream, count, mux_bytes(m1, f), mux_packet_count(m1, f));
        assert(before[0] == frames[0]);
        let earlier = demuxed_frames(m.config, d.base_ts, codec, before.drop_last());
        let last = demuxed_frame(m.config, d.base_ts, codec, before.last());
        assert(pending_frames(d1) == seq![last]);
        assert(earlier + seq![last] =~= expected);
    }
}

/// Round trip, to the end: where the last of the frames has any bytes,
/// the end of the stream gives it out.
pub proof fn lemma_round_trip_end(m: MuxerView, d: DemuxView, frames: Seq<EncodedFrameView>)
    requires
        mux_state_valid(m),
        !m.header_sent,
        d.ignore,
        frames.len() > 0,
        mux_accepts(m, frames),
        es_payload(m.config, frames.last()).len() > 0,
    ensures
        crate::demux::demux_end(
            demux_packets(d, mux_stream(m, frames), mux_stream_count(m, frames)).0,
        ).1 == Some(demuxed_frame(m.config, d.base_ts, frames[0].codec, frames.last())),
{
    lemma_round_trip(m, d, frames);
}

/// A packet with a PAT or a PMT, with one byte of the table changed at a
/// place that its checksum guards, and so with any one bit flipped there,
/// is an error to the session: nothing is learned from it, the codec stays,
/// and no frame is given out.
pub proof fn lemma_demux_damaged(d: DemuxView, p: TsPacketView, pos: int, x: u8)
    requires
        crate::mpegts::ts::packet::ts_packet_writable(p),
        crate::mpegts::ts::packet::packet_valid(p),
        p.payload is Some,
        p.payload.unwrap() is Pat || p.payload.unwrap() is Pmt,
        crate::mpegts::ts::packet::payload_on_its_pid(
            d.table.pids,
            p.header.pid,
            p.payload.unwrap(),
        ),
        crate::mpegts::ts::packet::guarded_packet_place(p, pos),
        x != ts_packet_bytes(p)[pos],
    ensures
        demux_step(d, ts_packet_bytes(p).update(pos, x)) == (
            d,
            Err::<Option<Mpeg2TsFrameView>, Error>(Error::TsGeneric),
        ),
{
    reveal(demux_step);
    crate::mpegts::ts::packet::lemma_damaged_packet_refused(d.table.pids, p, pos, x);
    crate::mpegts::ts::packet::lemma_written_table(p);
    crate::mpegts::ts::packet::lemma_table_payload(p);
    crate::mpegts::ts::packet::lemma_damaged_packet_head(p, pos, x);
}

/// The PAT and the PMT of the muxer, with one byte changed in the table id
/// or in the syntax section before the checksum, are refused by a session
/// that would read them undamaged: the session stays as it was, so nothing
/// is learnt and the codec is unchanged, and no frame is given out.
pub proof fn lemma_demux_damaged_tables(d: DemuxView, stream_type: u8, pos: int, x: u8)
    ensures
        (pos == 172 || 175 <= pos < 184) && x != ts_packet_bytes(pat_packet())[pos] ==> demux_step(
            d,
            ts_packet_bytes(pat_packet()).update(pos, x),
        ) == (d, Err::<Option<Mpeg2TsFrameView>, Error>(Error::TsGeneric)),
        (pos == 167 || 170 <= pos < 184) && x != ts_packet_bytes(pmt_packet(stream_type))[pos]
            && kind_in(d.table.pids, PMT_PID) == PidKind::Pmt ==> demux_step(
            d,
            ts_packet_bytes(pmt_packet(stream_type)).update(pos, x),
        ) == (d, Err::<Option<Mpeg2TsFrameView>, Error>(Error::TsGeneric)),
{
    lemma_header_packets_writable(stream_type);
    let pat = pat_packet();
    let pmt = pmt_packet(stream_type);
    let pat_table = crate::mpegts::ts::pat::pat_table(pat.payload->Some_0->Pat_0);
    let pmt_table = crate::mpegts::ts::pmt::pmt_table(pmt.payload->Some_0->Pmt_0);
    crate::mpegts::ts::psi::lemma_table_bytes_len(pat_table);
    crate::mpegts::ts::psi::lemma_table_bytes_len(pmt_table);
    crate::mpegts::ts::pat::lemma_associations_len(pat.payload->Some_0->Pat_0.table);
    crate::mpegts::ts::pmt::lemma_pmt_bytes_len(pmt.payload->Some_0->Pmt_0);
    assert(pmt.payload->Some_0->Pmt_0.es_info.drop_last() =~= Seq::<EsInfoView>::empty());
    reveal_with_fuel(crate::mpegts::ts::pmt::es_infos_size, 2);
    reveal_with_fuel(crate::mpegts::ts::pmt::descriptors_size, 2);
    if (pos == 172 || 175 <= pos < 184) && x != ts_packet_bytes(pat)[pos] {
        lemma_demux_damaged(d, pat, pos, x);
    }
    if (pos == 167 || 170 <= pos < 184) && x != ts_packet_bytes(pmt)[pos] && kind_in(
        d.table.pids,
        PMT_PID,
    ) == PidKind::Pmt {
        lemma_demux_damaged(d, pmt, pos, x);
    }
}

/// The same of one flipped bit: whichever bit of the table id, or of the
/// syntax section before the checksum, is flipped in the PAT or the PMT of
/// the muxer, the packet is refused and the session stays as it was.
pub proof fn lemma_demux_flipped_bit(d: DemuxView, stream_type: u8, pos: int, bit: u8)
    requires
        bit < 8,
    ensures
        pos == 172 || 175 <= pos < 184 ==> demux_step(
            d,
            ts_packet_bytes(pat_packet()).update(
                pos,
                ts_packet_bytes(pat_packet())[pos] ^ (1u8 << bit),
            ),
        ) == (d, Err::<Option<Mpeg2TsFrameView>, Error>(Error::TsGeneric)),
        (pos == 167 || 170 <= pos < 184) && kind_in(d.table.pids, PMT_PID) == PidKind::Pmt
            ==> demux_step(
            d,
            ts_packet_bytes(pmt_packet(stream_type)).update(
                pos,
                ts_packet_bytes(pmt_packet(stream_type))[pos] ^ (1u8 << bit),
            ),
        ) == (d, Err::<Option<Mpeg2TsFrameView>, Error>(Error::TsGeneric)),
{
    let pat = ts_packet_bytes(pat_packet());
    let pmt = ts_packet_bytes(pmt_packet(stream_type));
    crate::mpegts::crc32::lemma_flipped_bit(pat[pos], bit);
    crate::mpegts::crc32::lemma_flipped_bit(pmt[pos], bit);
    lemma_demux_damaged_tables(d, stream_type, pos, pat[pos] ^ (1u8 << bit));
    lemma_demux_damaged_tables(d, stream_type, pos, pmt[pos] ^ (1u8 << bit));
}

/// The frame that the outcome of a step gives out, as a list.
pub open spec fn frames_of(r: Result<Option<Mpeg2TsFrameView>, Error>) -> Seq<Mpeg2TsFrameView> {
    match r {
        Ok(Some(f)) => seq![f],
        _ => Seq::empty(),
    }
}

/// What reading a whole stretch of the stream does to the session, and the
/// frames that it gives out, where the stretch is read run after run: each
/// run starts behind what the one before it has read, whether that one
/// ended with a frame or with an error, and the last is the one that reads
/// nothing.
pub open spec fn demux_all(s: DemuxView, bytes: Seq<u8>) -> (DemuxView, Seq<Mpeg2TsFrameView>)
    decreases bytes.len(),
{
    let (next, n, r) = crate::demux::demux_run(s, bytes);
    if n == 0 || n > bytes.len() {
        (next, Seq::empty())
    } else {
        let (last, out) = demux_all(next, bytes.skip(n as int));
        (last, frames_of(r) + out)
    }
}

/// The packets of a stream are read the first, then the others from the
/// state that the first leaves.
pub proof fn lemma_demux_front(s: DemuxView, bytes: Seq<u8>, n: nat)
    requires
        n >= 1,
        bytes.len() >= TsPacket::SIZE * n,
    ensures
        demux_packets(s, bytes, n) == ({
            let (next, r) = demux_step(s, bytes.take(TsPacket::SIZE as int));
            let (last, out) = demux_packets(
                next,
                bytes.skip(TsPacket::SIZE as int),
                (n - 1) as nat,
            );
            (last, frames_of(r) + out)
        }),
{
    let a = bytes.take(TsPacket::SIZE as int);
    let b = bytes.skip(TsPacket::SIZE as int);
    assert(a + b =~= bytes);
    lemma_demux_concat(s, a, 1, b, (n - 1) as nat);
    reveal_with_fuel(demux_packets, 2);
    assert(nth_packet(a, 0) =~= a);
    let (next, r) = demux_step(s, a);
    match r {
        Ok(Some(f)) => {
            assert(Seq::<Mpeg2TsFrameView>::empty().push(f) =~= seq![f]);
        },
        _ => {},
    }
}

/// One run reads whole packets, as many as it says, and what it does is
/// what those packets do one by one: none before the last gives out a frame
/// or is refused, and where the run ends without either, less than a packet
/// is left.
pub proof fn lemma_demux_run(s: DemuxView, bytes: Seq<u8>)
    ensures
        ({
            let (next, n, r) = crate::demux::demux_run(s, bytes);
            &&& n % TsPacket::SIZE as nat == 0
            &&& n <= bytes.len()
            &&& bytes.len() >= TsPacket::SIZE ==> n >= TsPacket::SIZE
            &&& r == Ok::<Option<Mpeg2TsFrameView>, Error>(None) ==> bytes.len() - n
                < TsPacket::SIZE
            &&& demux_packets(s, bytes, n / TsPacket::SIZE as nat) == (next, frames_of(r))
        }),
    decreases bytes.len(),
{
    if bytes.len() >= TsPacket::SIZE {
        let (next, r) = demux_step(s, bytes.take(TsPacket::SIZE as int));
        let rest = bytes.skip(TsPacket::SIZE as int);
        if r == Ok::<Option<Mpeg2TsFrameView>, Error>(None) {
            lemma_demux_run(next, rest);
            let (last, m, end) = crate::demux::demux_run(next, rest);
            let k = m / TsPacket::SIZE as nat;
            assert((TsPacket::SIZE + m) / TsPacket::SIZE as int == 1 + k);
            lemma_demux_front(s, bytes, 1 + k);
            assert(frames_of(r) + frames_of(end) =~= frames_of(end));
        } else {
            lemma_demux_front(s, bytes, 1);
            assert(frames_of(r) + Seq::<Mpeg2TsFrameView>::empty() =~= frames_of(r));
        }
    }
}

/// Reading a stretch of the stream run after run is reading its whole
/// packets one by one.
pub proof fn lemma_demux_all(s: DemuxView, bytes: Seq<u8>)
    ensures
        demux_all(s, bytes) == demux_packets(s, bytes, bytes.len() / TsPacket::SIZE as nat),
    decreases bytes.len(),
{
    lemma_demux_run(s, bytes);
    let (next, n, r) = crate::demux::demux_run(s, bytes);
    if n > 0 {
        let k = n / TsPacket::SIZE as nat;
        let a = bytes.take(n as int);
        let b = bytes.skip(n as int);
        let total = bytes.len() / TsPacket::SIZE as nat;
        let later = b.len() / TsPacket::SIZE as nat;
        assert(total == k + later);
        lemma_demux_all(next, b);
        assert(a + b =~= bytes);
        lemma_demux_concat(s, a, k, b, later);
        lemma_demux_prefix(s, a, b, k);
    }
}

/// Round trip through runs: where frames were muxed from the start of a
/// stream, and a session that gathers nothing yet reads the stream run
/// after run, the runs give out every frame but the last, in the order in
/// which they were muxed, and leave the session with the last frame, which
/// the end of the stream completes.
pub proof fn lemma_round_trip_runs(m: MuxerView, d: DemuxView, frames: Seq<EncodedFrameView>)
    requires
        mux_state_valid(m),
        !m.header_sent,
        d.ignore,
        frames.len() > 0,
        mux_accepts(m, frames),
    ensures
        demux_all(d, mux_stream(m, frames)).1 == demuxed_frames(
            m.config,
            d.base_ts,
            frames[0].codec,
            frames.drop_last(),
        ),
        demux_all(d, mux_stream(m, frames)).1.len() == frames.len() - 1,
        holds_last(d, demux_all(d, mux_stream(m, frames)).0, m, frames),
        es_payload(m.config, frames.last()).len() > 0 ==> crate::demux::demux_end(
            demux_all(d, mux_stream(m, frames)).0,
        ).1 == Some(demuxed_frame(m.config, d.base_ts, frames[0].codec, frames.last())),
{
    lemma_round_trip(m, d, frames);
    lemma_demux_all(d, mux_stream(m, frames));
    let count = mux_stream_count(m, frames);
    assert(mux_stream(m, frames).len() / TsPacket::SIZE as nat == count);
}

} // verus!
