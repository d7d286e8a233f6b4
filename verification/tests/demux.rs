use flowly_mpegts::demux::Mpeg2TsDemux;
use flowly_mpegts::error::Error;
use flowly_mpegts::frame::{EncodedFrame, Fourcc, FrameFlags, Mpeg2TsFrame};
use flowly_mpegts::mpegts::bytes::RawData;
use flowly_mpegts::mpegts::continuity_counter::ContinuityCounter;
use flowly_mpegts::mpegts::io::Mpeg2tsParser;
use flowly_mpegts::mpegts::pid::Pid;
use flowly_mpegts::mpegts::stream_id::StreamId;
use flowly_mpegts::mpegts::stream_type::StreamType;
use flowly_mpegts::mpegts::timestamp::{PtsDts, Timestamp};
use flowly_mpegts::mpegts::ts::{
    AdaptationFieldControl, EsInfo, Pes, PesHeader, Pmt, TransportScramblingControl, TsHeader,
    TsPacket, TsPayload,
};
use flowly_mpegts::mpegts::version::VersionNumber;
use flowly_mpegts::muxer::{Mpeg2TsMuxer, Mpeg2TsMuxerConfig};

fn frame(codec: u32, pts: i64, keyframe: bool, unit: Vec<u8>) -> EncodedFrame {
    EncodedFrame {
        codec: Fourcc(codec),
        pts,
        flags: FrameFlags(if keyframe { FrameFlags::KEYFRAME } else { 0 }),
        params: vec![vec![0x67, 0x42, 0x00, 0x1E], vec![0x68, 0xCE, 0x38, 0x80]],
        units: vec![unit],
    }
}

fn annexb(f: &EncodedFrame) -> Vec<u8> {
    let mut out = Vec::new();
    let keyframe = f.flags.contains(FrameFlags::KEYFRAME);
    if keyframe {
        for p in &f.params {
            out.extend([0, 0, 1]);
            out.extend(p);
        }
    }
    for u in &f.units {
        out.extend([0, 0, 1]);
        out.extend(u);
    }
    out
}

fn demux_all(demux: &mut Mpeg2TsDemux, stream: &[u8]) -> Vec<Mpeg2TsFrame> {
    let mut frames = Vec::new();
    let mut pos = 0;
    loop {
        let (used, r) = demux.parse(&stream[pos..]);
        pos += used;
        match r.unwrap() {
            Some(f) => frames.push(f),
            None => break,
        }
    }
    assert_eq!(stream.len() - pos, stream.len() % 188);
    if let Some(f) = demux.flush() {
        frames.push(f);
    }
    frames
}

fn header(pid: u16, counter: u8) -> TsHeader {
    TsHeader {
        transport_error_indicator: false,
        transport_priority: false,
        pid: Pid::new(pid).unwrap(),
        transport_scrambling_control: TransportScramblingControl::NotScrambled,
        continuity_counter: ContinuityCounter::from_u8(counter).unwrap(),
        adaptation_field_control: AdaptationFieldControl::PayloadOnly,
        payload_unit_start_indicator: false,
    }
}

fn pes_packet(pid: u16, stream_id: u8, pts: Option<u64>, data: &[u8]) -> Vec<u8> {
    let packet = TsPacket {
        header: header(pid, 0),
        adaptation_field: None,
        payload: Some(TsPayload::Pes(Pes {
            header: PesHeader {
                stream_id: StreamId::new(stream_id),
                priority: false,
                data_alignment_indicator: false,
                copyright: false,
                original_or_copy: false,
                pts: pts.map(|t| Timestamp::<PtsDts>::new(t).unwrap()),
                dts: None,
                escr: None,
                packet_len: 0,
            },
            data: RawData::new(data).unwrap(),
        })),
    };
    let mut out = Vec::new();
    Mpeg2tsParser::new().serialize(&packet, &mut out).unwrap();
    out
}

fn raw_packet(pid: u16, data: &[u8]) -> Vec<u8> {
    let packet = TsPacket {
        header: header(pid, 1),
        adaptation_field: None,
        payload: Some(TsPayload::Raw(RawData::new(data).unwrap())),
    };
    let mut out = Vec::new();
    Mpeg2tsParser::new().serialize(&packet, &mut out).unwrap();
    out
}

fn tables(stream_types: &[(u8, u16)]) -> Vec<u8> {
    let mut out = Vec::new();
    let parser = Mpeg2tsParser::new();
    parser.serialize(&Mpeg2TsMuxer::default_pat_packet(), &mut out).unwrap();
    let packet = TsPacket {
        header: header(256, 0),
        adaptation_field: None,
        payload: Some(TsPayload::Pmt(Pmt {
            program_num: 1,
            pcr_pid: Some(Pid::new(257).unwrap()),
            version_number: VersionNumber::new(),
            program_info: vec![],
            es_info: stream_types
                .iter()
                .map(|(t, pid)| EsInfo {
                    stream_type: StreamType::from_u8(*t),
                    elementary_pid: Pid::new(*pid).unwrap(),
                    descriptors: vec![],
                })
                .collect(),
        })),
    };
    parser.serialize(&packet, &mut out).unwrap();
    out
}

#[test]
fn no_bytes_give_no_frames() {
    let mut demux = Mpeg2TsDemux::new(0, 0);
    assert_eq!(demux.parse(&[]), (0, Ok(None)));
    assert_eq!(demux.parse(&[0x47; 187]), (0, Ok(None)));
    assert_eq!(demux.flush(), None);
    assert_eq!(demux.frame_index(), 0);
}

#[test]
fn muxed_frames_come_back() {
    let frames: Vec<EncodedFrame> = (0..12)
        .map(|i| {
            frame(
                Fourcc::VIDEO_AVC,
                i * 40_000,
                i % 5 == 0,
                (0..(i as usize * 97 + 3)).map(|x| (x * 7 + i as usize) as u8).collect(),
            )
        })
        .collect();
    let mut muxer = Mpeg2TsMuxer::new(Mpeg2TsMuxerConfig::default());
    let mut stream = Vec::new();
    for f in &frames {
        muxer.push_frame(f, &mut stream).unwrap();
    }
    assert_eq!(stream.len() % 188, 0);
    let mut demux = Mpeg2TsDemux::new(0, 3);
    let out = demux_all(&mut demux, &stream);
    assert_eq!(out.len(), frames.len());
    for (read, sent) in out.iter().zip(&frames) {
        assert_eq!(read.codec(), Fourcc(Fourcc::VIDEO_AVC));
        assert_eq!(read.keyframe, sent.flags.contains(FrameFlags::KEYFRAME));
        assert_eq!(read.pts, sent.pts);
        assert_eq!(read.dts, sent.pts as u64);
        assert_eq!(read.payload, annexb(sent));
    }
    assert_eq!(demux.frame_index(), 12);
    assert_eq!(demux.fragment_index(), 3);
    assert_eq!(demux.flush(), None);
}

#[test]
fn muxed_hevc_frames_come_back_with_offset() {
    let frames = vec![
        frame(Fourcc::VIDEO_HEVC, 0, true, vec![1; 500]),
        frame(Fourcc::VIDEO_HEVC, 33_367, false, vec![2; 170]),
        frame(Fourcc::VIDEO_HEVC, 66_733, false, vec![3; 171]),
    ];
    let mut muxer = Mpeg2TsMuxer::new(Mpeg2TsMuxerConfig::default());
    let mut stream = Vec::new();
    for f in &frames {
        muxer.push_frame(f, &mut stream).unwrap();
    }
    let mut demux = Mpeg2TsDemux::new(1_000, 0);
    let out = demux_all(&mut demux, &stream);
    assert_eq!(out.len(), 3);
    assert_eq!(out[0].codec(), Fourcc(Fourcc::VIDEO_HEVC));
    assert_eq!(out[0].pts, 0);
    // 33_367 us are 3003 ticks, which are 33_366 us.
    assert_eq!(out[1].pts, 33_366);
    assert_eq!(out[1].dts, 34_366);
    // 66_733 us are 6005 ticks, which are 66_722 us.
    assert_eq!(out[2].pts, 66_722);
    assert_eq!(out[2].payload, annexb(&frames[2]));
    assert!(out[0].keyframe);
    assert!(!out[1].keyframe);
}

#[test]
fn packet_by_packet_gives_the_same_frames() {
    let frames = vec![
        frame(Fourcc::VIDEO_AVC, 0, true, vec![1; 400]),
        frame(Fourcc::VIDEO_AVC, 40_000, false, vec![2; 10]),
    ];
    let mut muxer = Mpeg2TsMuxer::new(Mpeg2TsMuxerConfig::default());
    let mut stream = Vec::new();
    for f in &frames {
        muxer.push_frame(f, &mut stream).unwrap();
    }
    let mut demux = Mpeg2TsDemux::new(0, 0);
    let mut out = Vec::new();
    for packet in stream.chunks(188) {
        if let Some(f) = demux.push_packet(packet).unwrap() {
            out.push(f);
        }
    }
    assert_eq!(out.len(), 1);
    assert_eq!(out[0].payload, annexb(&frames[0]));
    let last = demux.flush().unwrap();
    assert_eq!(last.payload, annexb(&frames[1]));
    assert_eq!(last.pts, 40_000);
    assert_eq!(demux.flush(), None);
}

#[test]
fn pes_before_its_pmt_is_unknown_and_dropped() {
    let packet = pes_packet(257, 0xE0, Some(0), &[1, 2, 3]);
    let mut parser = Mpeg2tsParser::new();
    assert_eq!(parser.parse(&packet), Err(Error::UnknownPid(257)));
    let mut demux = Mpeg2TsDemux::new(0, 0);
    assert_eq!(demux.push_packet(&packet), Ok(None));
    assert_eq!(demux.flush(), None);
    let (used, r) = demux.parse(&tables(&[(0x1B, 257)]));
    assert_eq!((used, r), (376, Ok(None)));
    assert_eq!(demux.push_packet(&packet), Ok(None));
    let f = demux.flush().unwrap();
    assert_eq!(f.payload, vec![1, 2, 3]);
    assert_eq!(f.codec(), Fourcc(Fourcc::VIDEO_AVC));
    for p in tables(&[(0x1B, 257)]).chunks(188) {
        parser.parse(p).unwrap();
    }
    assert!(parser.parse(&packet).is_ok());
}

#[test]
fn pmt_sets_the_codec_of_the_last_video_stream() {
    let mut demux = Mpeg2TsDemux::new(0, 0);
    demux.parse(&tables(&[(0x0F, 258), (0x24, 257), (0x03, 259)]));
    demux.push_packet(&pes_packet(257, 0xE0, Some(90_000), &[9])).unwrap();
    let f = demux.flush().unwrap();
    assert_eq!(f.codec(), Fourcc(Fourcc::VIDEO_HEVC));
    assert_eq!(f.pts, 1_000_000);
    let mut demux = Mpeg2TsDemux::new(0, 0);
    demux.parse(&tables(&[(0x24, 257), (0x1B, 258)]));
    demux.push_packet(&pes_packet(258, 0xE0, Some(1), &[9])).unwrap();
    assert_eq!(demux.flush().unwrap().codec(), Fourcc(Fourcc::VIDEO_AVC));
    let mut demux = Mpeg2TsDemux::new(0, 0);
    demux.parse(&tables(&[(0x0F, 257)]));
    demux.push_packet(&pes_packet(257, 0xE0, Some(1), &[9])).unwrap();
    assert_eq!(demux.flush().unwrap().codec(), Fourcc(0));
}

#[test]
fn other_stream_ends_the_frame_and_is_ignored() {
    let mut demux = Mpeg2TsDemux::new(0, 0);
    demux.parse(&tables(&[(0x1B, 257), (0x0F, 258)]));
    assert_eq!(demux.push_packet(&pes_packet(257, 0xE0, Some(0), &[1, 2])), Ok(None));
    assert_eq!(demux.push_packet(&raw_packet(257, &[3])), Ok(None));
    let f = demux.push_packet(&pes_packet(258, 0xC0, Some(0), &[7, 7])).unwrap().unwrap();
    assert_eq!(f.payload, vec![1, 2, 3]);
    assert_eq!(demux.push_packet(&raw_packet(258, &[8])), Ok(None));
    assert_eq!(demux.flush(), None);
    assert_eq!(demux.push_packet(&pes_packet(257, 0xE0, Some(9), &[4])), Ok(None));
    assert_eq!(demux.flush().unwrap().payload, vec![4]);
    assert_eq!(demux.frame_index(), 2);
}

#[test]
fn raw_bytes_on_another_stream_are_not_gathered() {
    let mut demux = Mpeg2TsDemux::new(0, 0);
    demux.parse(&tables(&[(0x1B, 257), (0x1B, 258)]));
    // Raw bytes before any PES packet has started.
    assert_eq!(demux.push_packet(&raw_packet(257, &[9])), Ok(None));
    demux.push_packet(&pes_packet(257, 0xE0, Some(0), &[1])).unwrap();
    assert_eq!(demux.push_packet(&raw_packet(258, &[7, 7])), Ok(None));
    assert_eq!(demux.push_packet(&raw_packet(257, &[2])), Ok(None));
    // A video PES packet that starts on the other PID moves the gathering there.
    let first = demux.push_packet(&pes_packet(258, 0xE0, Some(90), &[3])).unwrap().unwrap();
    assert_eq!(first.payload, vec![1, 2]);
    assert_eq!(demux.push_packet(&raw_packet(257, &[8])), Ok(None));
    assert_eq!(demux.push_packet(&raw_packet(258, &[4])), Ok(None));
    assert_eq!(demux.flush().unwrap().payload, vec![3, 4]);
}

#[test]
fn raw_bytes_on_reserved_pids_are_not_gathered() {
    let mut demux = Mpeg2TsDemux::new(0, 0);
    demux.parse(&tables(&[(0x1B, 257)]));
    demux.push_packet(&pes_packet(257, 0xE0, Some(0), &[1])).unwrap();
    assert_eq!(demux.push_packet(&raw_packet(0x11, &[5, 5])), Ok(None));
    assert_eq!(demux.push_packet(&raw_packet(257, &[2])), Ok(None));
    assert_eq!(demux.flush().unwrap().payload, vec![1, 2]);
}

#[test]
fn malformed_pes_start_drops_what_was_gathered() {
    let mut demux = Mpeg2TsDemux::new(0, 0);
    demux.parse(&tables(&[(0x1B, 257)]));
    demux.push_packet(&pes_packet(257, 0xE0, Some(0), &[1])).unwrap();
    let mut bad = pes_packet(257, 0xE0, Some(5), &[2]);
    let at = 188 - 1 - 14 + 9;
    bad[at] &= 0xFE;
    assert_eq!(demux.push_packet(&bad), Err(Error::UnexpectedMarkerBit(0x1_0001)));
    assert_eq!(demux.push_packet(&raw_packet(257, &[3])), Ok(None));
    assert_eq!(demux.flush(), None);
    // A video PES packet without a PTS.
    demux.push_packet(&pes_packet(257, 0xE0, Some(0), &[1])).unwrap();
    assert_eq!(demux.push_packet(&pes_packet(257, 0xE0, None, &[2])), Err(Error::TsGeneric));
    assert_eq!(demux.flush(), None);
    // The session goes on.
    demux.push_packet(&pes_packet(257, 0xE0, Some(180), &[6])).unwrap();
    let f = demux.flush().unwrap();
    assert_eq!(f.payload, vec![6]);
    assert_eq!(f.pts, 2_000);
}

#[test]
fn damaged_packet_is_an_error_and_the_run_stops_behind_it() {
    let mut stream = tables(&[(0x1B, 257)]);
    stream.extend(pes_packet(257, 0xE0, Some(0), &[1]));
    let mut damaged = raw_packet(257, &[2]);
    damaged[0] = 0;
    stream.extend(damaged);
    stream.extend(raw_packet(257, &[3]));
    stream.extend(pes_packet(257, 0xE0, Some(3600), &[4]));
    stream.extend([0x47, 0x00]);
    let mut demux = Mpeg2TsDemux::new(0, 0);
    assert_eq!(demux.parse(&stream), (4 * 188, Err(Error::WrogSyncByte)));
    let (used, r) = demux.parse(&stream[4 * 188..]);
    assert_eq!(used, 2 * 188);
    let f = r.unwrap().unwrap();
    assert_eq!(f.payload, vec![1, 3]);
    assert_eq!(demux.parse(&stream[6 * 188..]), (0, Ok(None)));
    assert_eq!(demux.flush().unwrap().pts, 40_000);
}

#[test]
fn damaged_table_teaches_nothing() {
    let good = tables(&[(0x1B, 257)]);
    let other = tables(&[(0x24, 257)]);
    // Every bit of the table id, and of the section behind its length up to the checksum.
    let places = (170..184).chain([167]);
    for at in places {
        for bit in 0..8 {
            let mut damaged = other[188..].to_vec();
            damaged[at] ^= 1 << bit;
            // Before any PMT was read: the video stream stays unknown.
            let mut demux = Mpeg2TsDemux::new(0, 0);
            assert_eq!(demux.push_packet(&good[..188]), Ok(None));
            assert_eq!(demux.push_packet(&damaged), Err(Error::TsGeneric));
            assert_eq!(demux.push_packet(&pes_packet(257, 0xE0, Some(0), &[1])), Ok(None));
            assert_eq!(demux.flush(), None);
            // Behind a good PMT: the codec stays what that one gave.
            let mut demux = Mpeg2TsDemux::new(0, 0);
            assert_eq!(demux.parse(&good), (376, Ok(None)));
            let updated = demux.is_params_updated();
            assert_eq!(demux.parse(&damaged), (188, Err(Error::TsGeneric)));
            assert_eq!(demux.is_params_updated(), updated);
            assert_eq!(demux.push_packet(&pes_packet(257, 0xE0, Some(0), &[1])), Ok(None));
            assert_eq!(demux.flush().unwrap().codec(), Fourcc(Fourcc::VIDEO_AVC));
        }
    }
    // The undamaged table is read, and changes the codec.
    let mut demux = Mpeg2TsDemux::new(0, 0);
    demux.parse(&good);
    assert_eq!(demux.parse(&other[188..]), (188, Ok(None)));
    demux.push_packet(&pes_packet(257, 0xE0, Some(0), &[1])).unwrap();
    assert_eq!(demux.flush().unwrap().codec(), Fourcc(Fourcc::VIDEO_HEVC));
}

fn pmt_with_descriptors(data: &[u8]) -> Vec<u8> {
    let packet = TsPacket {
        header: header(256, 0),
        adaptation_field: None,
        payload: Some(TsPayload::Pmt(Pmt {
            program_num: 1,
            pcr_pid: Some(Pid::new(257).unwrap()),
            version_number: VersionNumber::new(),
            program_info: vec![],
            es_info: vec![EsInfo {
                stream_type: StreamType::from_u8(0x1B),
                elementary_pid: Pid::new(257).unwrap(),
                descriptors: if data.is_empty() {
                    vec![]
                } else {
                    vec![flowly_mpegts::mpegts::ts::Descriptor { tag: 0x28, data: data.to_vec() }]
                },
            }],
        })),
    };
    let mut out = Vec::new();
    Mpeg2tsParser::new().serialize(&packet, &mut out).unwrap();
    out
}

#[test]
fn changed_descriptors_mark_the_parameters_as_updated() {
    let mut demux = Mpeg2TsDemux::new(0, 0);
    assert!(!demux.is_params_updated());
    demux.parse(&tables(&[(0x1B, 257)]));
    // The first PMT brings descriptors where there were none.
    assert!(demux.is_params_updated());
    demux.push_packet(&pes_packet(257, 0xE0, Some(0), &[1])).unwrap();
    // Nothing was given out yet.
    assert!(demux.is_params_updated());
    assert!(demux.push_packet(&pes_packet(257, 0xE0, Some(1), &[2])).unwrap().is_some());
    assert!(!demux.is_params_updated());
    // The same PMT again changes nothing.
    demux.push_packet(&pmt_with_descriptors(&[])).unwrap();
    assert!(!demux.is_params_updated());
    demux.push_packet(&pmt_with_descriptors(&[1, 2])).unwrap();
    assert!(demux.is_params_updated());
    demux.push_packet(&pmt_with_descriptors(&[1, 2])).unwrap();
    assert!(demux.is_params_updated());
    assert!(demux.flush().is_some());
    assert!(!demux.is_params_updated());
    demux.push_packet(&pmt_with_descriptors(&[1, 3])).unwrap();
    assert!(demux.is_params_updated());
}

#[test]
fn decoding_time_wraps_at_64_bits() {
    let mut demux = Mpeg2TsDemux::new(u64::MAX, 0);
    demux.parse(&tables(&[(0x1B, 257)]));
    demux.push_packet(&pes_packet(257, 0xE0, Some(90), &[1])).unwrap();
    let f = demux.flush().unwrap();
    assert_eq!(f.pts, 1_000);
    assert_eq!(f.dts, 999);
}
