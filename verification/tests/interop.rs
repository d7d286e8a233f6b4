use flowly_mpegts::frame::{EncodedFrame, Fourcc, FrameFlags};
use flowly_mpegts::mpegts::io::Mpeg2tsParser;
use flowly_mpegts::mpegts::pid::PidKind;
use flowly_mpegts::mpegts::ts::TsPayload;
use flowly_mpegts::muxer::{Mpeg2TsMuxer, Mpeg2TsMuxerConfig};
use mpeg2ts::ts::{ReadTsPacket, TsPacketReader, TsPacketWriter, WriteTsPacket};

#[test]
fn codes_and_flags_are_those_of_the_pipeline() {
    assert_eq!(u32::from(flowly::Fourcc::VIDEO_AVC), Fourcc::VIDEO_AVC);
    assert_eq!(u32::from(flowly::Fourcc::VIDEO_HEVC), Fourcc::VIDEO_HEVC);
    assert_eq!(flowly::FrameFlags::KEYFRAME.bits(), FrameFlags::KEYFRAME);
    assert_eq!(flowly::FrameFlags::HAS_PARAMS.bits(), FrameFlags::HAS_PARAMS);
    assert_eq!(flowly::FrameFlags::ENCODED.bits(), FrameFlags::ENCODED);
    assert_eq!(flowly::FrameFlags::ANNEXB.bits(), FrameFlags::ANNEXB);
    assert_eq!(flowly::FrameFlags::VIDEO_STREAM.bits(), FrameFlags::VIDEO_STREAM);
}

fn frames() -> Vec<EncodedFrame> {
    (0..4)
        .map(|i| EncodedFrame {
            codec: Fourcc(Fourcc::VIDEO_AVC),
            pts: i * 40_000,
            flags: FrameFlags(if i % 2 == 0 { FrameFlags::KEYFRAME } else { 0 }),
            params: vec![vec![0x67, 0x42, 0x00, 0x1E], vec![0x68, 0xCE, 0x38, 0x80]],
            units: vec![(0..(300 * i as usize + 5)).map(|x| x as u8).collect()],
        })
        .collect()
}

#[test]
fn another_reader_reads_what_the_muxer_writes() {
    let mut muxer = Mpeg2TsMuxer::new(Mpeg2TsMuxerConfig::default());
    let mut stream = Vec::new();
    for f in &frames() {
        muxer.push_frame(f, &mut stream).unwrap();
    }
    let mut reader = TsPacketReader::new(&stream[..]);
    let mut starts = Vec::new();
    let mut bodies: Vec<Vec<u8>> = Vec::new();
    let mut tables = 0;
    let mut count = 0;
    while let Some(packet) = reader.read_ts_packet().unwrap() {
        count += 1;
        match packet.payload {
            Some(mpeg2ts::ts::TsPayload::Pat(pat)) => {
                tables += 1;
                assert_eq!(pat.transport_stream_id, 1);
                assert_eq!(pat.table.len(), 1);
                assert_eq!(pat.table[0].program_num, 1);
                assert_eq!(pat.table[0].program_map_pid.as_u16(), 256);
            }
            Some(mpeg2ts::ts::TsPayload::Pmt(pmt)) => {
                tables += 1;
                assert_eq!(pmt.program_num, 1);
                assert_eq!(pmt.pcr_pid.map(|p| p.as_u16()), Some(257));
                assert_eq!(pmt.es_info.len(), 1);
                assert_eq!(pmt.es_info[0].stream_type, mpeg2ts::es::StreamType::H264);
                assert_eq!(pmt.es_info[0].elementary_pid.as_u16(), 257);
            }
            Some(mpeg2ts::ts::TsPayload::PesStart(pes)) => {
                assert_eq!(packet.header.pid.as_u16(), 257);
                assert_eq!(pes.header.stream_id.as_u8(), 0xE0);
                assert!(pes.header.dts.is_none());
                let clock = packet.adaptation_field.as_ref().and_then(|a| a.pcr);
                let random = packet
                    .adaptation_field
                    .as_ref()
                    .map(|a| a.random_access_indicator)
                    .unwrap_or(false);
                starts.push((
                    pes.header.pts.unwrap().as_u64(),
                    clock.map(|c| c.as_u64()),
                    random,
                    packet.header.continuity_counter.as_u8(),
                ));
                bodies.push(pes.data.to_vec());
            }
            Some(mpeg2ts::ts::TsPayload::PesContinuation(data)) => {
                assert_eq!(packet.header.pid.as_u16(), 257);
                bodies.last_mut().unwrap().extend(&data[..]);
            }
            other => panic!("unexpected payload {:?}", other),
        }
    }
    assert_eq!(count * 188, stream.len());
    assert_eq!(tables, 2);
    assert_eq!(
        starts,
        vec![
            (0, Some(0), true, 0),
            (3_600, None, false, 1),
            (7_200, Some(7_200 * 300), true, 3),
            (10_800, None, false, 7),
        ]
    );
    for (body, f) in bodies.iter().zip(frames()) {
        let mut expected = Vec::new();
        if f.flags.contains(FrameFlags::KEYFRAME) {
            for p in &f.params {
                expected.extend([0, 0, 1]);
                expected.extend(p);
            }
        }
        expected.extend([0, 0, 1]);
        expected.extend(&f.units[0]);
        assert_eq!(body, &expected);
    }
}

fn other_header(pid: u16, counter: u8) -> mpeg2ts::ts::TsHeader {
    mpeg2ts::ts::TsHeader {
        transport_error_indicator: false,
        transport_priority: false,
        pid: mpeg2ts::ts::Pid::new(pid).unwrap(),
        transport_scrambling_control: mpeg2ts::ts::TransportScramblingControl::NotScrambled,
        continuity_counter: mpeg2ts::ts::ContinuityCounter::from_u8(counter).unwrap(),
    }
}

#[test]
fn the_parser_reads_what_another_writer_writes() {
    let packets = vec![
        mpeg2ts::ts::TsPacket {
            header: other_header(0, 0),
            adaptation_field: None,
            payload: Some(mpeg2ts::ts::TsPayload::Pat(mpeg2ts::ts::payload::Pat {
                transport_stream_id: 7,
                version_number: mpeg2ts::ts::VersionNumber::from_u8(2).unwrap(),
                table: vec![mpeg2ts::ts::ProgramAssociation {
                    program_num: 3,
                    program_map_pid: mpeg2ts::ts::Pid::new(0x100).unwrap(),
                }],
            })),
        },
        mpeg2ts::ts::TsPacket {
            header: other_header(0x100, 0),
            adaptation_field: None,
            payload: Some(mpeg2ts::ts::TsPayload::Pmt(mpeg2ts::ts::payload::Pmt {
                program_num: 3,
                pcr_pid: Some(mpeg2ts::ts::Pid::new(0x101).unwrap()),
                version_number: mpeg2ts::ts::VersionNumber::from_u8(2).unwrap(),
                program_info: vec![mpeg2ts::ts::Descriptor { tag: 5, data: vec![1, 2, 3, 4] }],
                es_info: vec![mpeg2ts::ts::EsInfo {
                    stream_type: mpeg2ts::es::StreamType::H265,
                    elementary_pid: mpeg2ts::ts::Pid::new(0x101).unwrap(),
                    descriptors: vec![mpeg2ts::ts::Descriptor { tag: 0x38, data: vec![9] }],
                }],
            })),
        },
        mpeg2ts::ts::TsPacket {
            header: other_header(0x101, 5),
            adaptation_field: Some(mpeg2ts::ts::AdaptationField {
                discontinuity_indicator: false,
                random_access_indicator: true,
                es_priority_indicator: false,
                pcr: Some(mpeg2ts::time::ClockReference::new(27_000_123).unwrap()),
                opcr: None,
                splice_countdown: Some(-2),
                transport_private_data: vec![1, 2, 3],
                extension: None,
            }),
            payload: Some(mpeg2ts::ts::TsPayload::PesStart(mpeg2ts::ts::payload::Pes {
                header: mpeg2ts::pes::PesHeader {
                    stream_id: mpeg2ts::es::StreamId::new(0xE0),
                    priority: true,
                    data_alignment_indicator: false,
                    copyright: true,
                    original_or_copy: false,
                    pts: Some(mpeg2ts::time::Timestamp::new(0x1_2345_6789).unwrap()),
                    dts: Some(mpeg2ts::time::Timestamp::new(0x1_2345_0000).unwrap()),
                    escr: Some(mpeg2ts::time::ClockReference::new(123_456_789).unwrap()),
                },
                pes_packet_len: 0,
                data: mpeg2ts::ts::payload::Bytes::new(&[0, 0, 1, 0x40, 1]).unwrap(),
            })),
        },
        mpeg2ts::ts::TsPacket {
            header: other_header(0x101, 6),
            adaptation_field: None,
            payload: Some(mpeg2ts::ts::TsPayload::PesContinuation(
                mpeg2ts::ts::payload::Bytes::new(&[7; 100]).unwrap(),
            )),
        },
    ];
    let mut writer = TsPacketWriter::new(Vec::new());
    for p in &packets {
        writer.write_ts_packet(p).unwrap();
    }
    let stream = writer.into_stream();
    assert_eq!(stream.len(), 4 * 188);
    let mut parser = Mpeg2tsParser::new();
    let read: Vec<_> = stream.chunks(188).map(|p| parser.parse(p).unwrap()).collect();
    match &read[0].payload {
        Some(TsPayload::Pat(pat)) => {
            assert_eq!(pat.transport_stream_id, 7);
            assert_eq!(pat.version_number.as_u8(), 2);
            assert_eq!(pat.table.len(), 1);
            assert_eq!(pat.table[0].program_num, 3);
            assert_eq!(pat.table[0].program_map_pid.as_u16(), 0x100);
        }
        other => panic!("unexpected payload {:?}", other),
    }
    match &read[1].payload {
        Some(TsPayload::Pmt(pmt)) => {
            assert_eq!(pmt.program_num, 3);
            assert_eq!(pmt.pcr_pid.map(|p| p.as_u16()), Some(0x101));
            assert_eq!(pmt.program_info.len(), 1);
            assert_eq!(pmt.program_info[0].data, vec![1, 2, 3, 4]);
            assert_eq!(pmt.es_info.len(), 1);
            assert_eq!(pmt.es_info[0].stream_type.as_u8(), 0x24);
            assert_eq!(pmt.es_info[0].descriptors[0].tag, 0x38);
        }
        other => panic!("unexpected payload {:?}", other),
    }
    assert_eq!(parser.kind_of(0x100), PidKind::Pmt);
    assert_eq!(parser.kind_of(0x101), PidKind::Pes);
    let field = read[2].adaptation_field.as_ref().unwrap();
    assert!(field.random_access_indicator);
    assert_eq!(field.pcr.unwrap().as_u64(), 27_000_123);
    assert_eq!(field.splice_countdown, Some(-2));
    assert_eq!(field.transport_private_data, vec![1, 2, 3]);
    assert_eq!(read[2].header.continuity_counter.as_u8(), 5);
    match &read[2].payload {
        Some(TsPayload::Pes(pes)) => {
            assert_eq!(pes.header.stream_id.as_u8(), 0xE0);
            assert!(pes.header.priority);
            assert!(pes.header.copyright);
            assert!(!pes.header.original_or_copy);
            assert_eq!(pes.header.pts.unwrap().as_u64(), 0x1_2345_6789);
            assert_eq!(pes.header.dts.unwrap().as_u64(), 0x1_2345_0000);
            assert_eq!(pes.header.escr.unwrap().as_u64(), 123_456_789);
            assert_eq!(pes.data.as_slice(), &[0, 0, 1, 0x40, 1]);
        }
        other => panic!("unexpected payload {:?}", other),
    }
    match &read[3].payload {
        Some(TsPayload::Raw(data)) => assert_eq!(data.as_slice(), &[7; 100]),
        other => panic!("unexpected payload {:?}", other),
    }
}

#[test]
fn both_writers_agree_but_for_reserved_clock_bits() {
    let mut muxer = Mpeg2TsMuxer::new(Mpeg2TsMuxerConfig::default());
    let mut stream = Vec::new();
    for f in &frames() {
        muxer.push_frame(f, &mut stream).unwrap();
    }
    let mut reader = TsPacketReader::new(&stream[..]);
    let mut writer = TsPacketWriter::new(Vec::new());
    while let Some(packet) = reader.read_ts_packet().unwrap() {
        writer.write_ts_packet(&packet).unwrap();
    }
    let again = writer.into_stream();
    assert_eq!(again.len(), stream.len());
    for (ours, theirs) in stream.chunks(188).zip(again.chunks(188)) {
        let has_clock = ours[3] & 0x20 != 0 && ours[4] > 0 && ours[5] & 0x10 != 0;
        for k in 0..188 {
            if has_clock && k == 10 {
                assert_eq!(ours[k] & 0x81, theirs[k] & 0x81);
                assert_eq!(ours[k] & 0x7E, 0x7E);
            } else {
                assert_eq!(ours[k], theirs[k], "byte {}", k);
            }
        }
    }
}
