use flowly_mpegts::frame::{EncodedFrame, Fourcc, FrameFlags};
use flowly_mpegts::mpegts::continuity_counter::ContinuityCounter;
use flowly_mpegts::mpegts::crc32::crc32;
use flowly_mpegts::mpegts::stream_type::StreamType;
use flowly_mpegts::muxer::{Mpeg2TsMuxer, Mpeg2TsMuxerConfig, PMT_PID, VIDEO_ES_PID};
use flowly_mpegts::Error;

fn avc_keyframe() -> EncodedFrame {
    EncodedFrame {
        codec: Fourcc(Fourcc::VIDEO_AVC),
        pts: 0,
        flags: FrameFlags(FrameFlags::KEYFRAME),
        params: vec![vec![0x67, 0x42, 0x00, 0x1E], vec![0x68, 0xCE, 0x38, 0x80]],
        units: vec![vec![0x65, 0x88, 0x84, 0x00, 0x33]],
    }
}

fn pid(packet: &[u8]) -> u16 {
    ((packet[1] as u16 & 0x1F) << 8) | packet[2] as u16
}

fn control(packet: &[u8]) -> u8 {
    (packet[3] >> 4) & 3
}

fn counter(packet: &[u8]) -> u8 {
    packet[3] & 0x0F
}

fn adaptation_len(packet: &[u8]) -> usize {
    if control(packet) >= 2 {
        1 + packet[4] as usize
    } else {
        0
    }
}

fn has_pcr(packet: &[u8]) -> bool {
    control(packet) >= 2 && packet[4] > 0 && packet[5] & 0x10 != 0
}

fn pcr(packet: &[u8]) -> u64 {
    let mut n: u64 = 0;
    for b in &packet[6..12] {
        n = (n << 8) | *b as u64;
    }
    (n >> 15) * 300 + (n & 0x1FF)
}

#[test]
fn empty_stream_gives_no_bytes() {
    let _muxer = Mpeg2TsMuxer::new(Mpeg2TsMuxerConfig::default());
    let dst: Vec<u8> = Vec::new();
    assert_eq!(dst.len(), 0);
}

#[test]
fn config_sends_params_on_keyframes_by_default() {
    let config = Mpeg2TsMuxerConfig::default();
    assert!(!config.send_aud);
    assert!(config.send_params_on_each_keyframe);
}

#[test]
fn single_avc_keyframe_gives_three_packets() {
    let mut muxer = Mpeg2TsMuxer::new(Mpeg2TsMuxerConfig::default());
    let mut dst: Vec<u8> = Vec::new();
    muxer.push_frame(&avc_keyframe(), &mut dst).unwrap();
    assert_eq!(dst.len(), 3 * 188);
    for k in 0..3 {
        assert_eq!(dst[188 * k], 0x47);
    }
    // PAT on PID 0, PMT on PID 256, PES on PID 257.
    assert_eq!(&dst[1..3], &[0x40, 0x00]);
    assert_eq!(&dst[189..191], &[0x41, 0x00]);
    assert_eq!(&dst[377..379], &[0x41, 0x01]);
    // The PES packet: adaptation field and payload, counter 0.
    assert_eq!(dst[379], 0x30);
    let es: Vec<u8> = vec![
        0, 0, 1, 0x67, 0x42, 0x00, 0x1E, 0, 0, 1, 0x68, 0xCE, 0x38, 0x80, 0, 0, 1, 0x65, 0x88,
        0x84, 0x00, 0x33,
    ];
    let payload_len = 14 + es.len();
    let field_len = 184 - payload_len;
    assert_eq!(dst[380] as usize, field_len - 1);
    // Random access indicator and PCR flag, then a PCR of zero.
    assert_eq!(dst[381], 0x50);
    assert_eq!(&dst[382..388], &[0, 0, 0, 0, 0x7E, 0]);
    for k in 388..(380 + field_len) {
        assert_eq!(dst[k], 0xFF);
    }
    let pes = &dst[3 * 188 - payload_len..];
    assert_eq!(&pes[..9], &[0, 0, 1, 0xE0, 0, 0, 0x80, 0x80, 5]);
    assert_eq!(&pes[9..14], &[0x21, 0x00, 0x01, 0x00, 0x01]);
    assert_eq!(&pes[14..], &es[..]);
}

#[test]
fn tables_end_with_their_checksum() {
    let mut muxer = Mpeg2TsMuxer::new(Mpeg2TsMuxerConfig::default());
    let mut dst: Vec<u8> = Vec::new();
    muxer.push_frame(&avc_keyframe(), &mut dst).unwrap();
    let pat = &dst[..188];
    assert_eq!(pat[171], 0);
    assert_eq!(&pat[184..], &crc32(&pat[172..184]).to_be_bytes());
    assert_eq!(
        &pat[172..184],
        &[0x00, 0xB0, 0x0D, 0x00, 0x01, 0xC1, 0x00, 0x00, 0x00, 0x01, 0xE1, 0x00]
    );
    let pmt = &dst[188..376];
    assert_eq!(pmt[166], 0);
    assert_eq!(&pmt[184..], &crc32(&pmt[167..184]).to_be_bytes());
    assert_eq!(
        &pmt[167..184],
        &[
            0x02, 0xB0, 0x12, 0x00, 0x01, 0xC1, 0x00, 0x00, 0xE1, 0x01, 0xF0, 0x00, 0x1B, 0xE1,
            0x01, 0xF0, 0x00
        ]
    );
    assert_eq!(pid(pmt), PMT_PID);
    assert_eq!(counter(pat), 0);
    assert_eq!(counter(pmt), 0);
}

#[test]
fn hevc_sequence_has_tables_once_and_clock_on_keyframes() {
    let mut muxer = Mpeg2TsMuxer::new(Mpeg2TsMuxerConfig::default());
    let mut dst: Vec<u8> = Vec::new();
    let mut first = avc_keyframe();
    first.codec = Fourcc(Fourcc::VIDEO_HEVC);
    let mut second = first.clone();
    second.pts = 40_000;
    muxer.push_frame(&first, &mut dst).unwrap();
    muxer.push_frame(&second, &mut dst).unwrap();
    let packets: Vec<&[u8]> = dst.chunks(188).collect();
    assert_eq!(packets.len(), 4);
    assert_eq!(packets.iter().filter(|p| pid(p) == 0).count(), 1);
    assert_eq!(packets.iter().filter(|p| pid(p) == PMT_PID).count(), 1);
    // Stream type of the one stream of the PMT.
    assert_eq!(packets[1][179], StreamType::H265);
    assert_eq!(packets[1][179], 0x24);
    assert!(has_pcr(packets[2]));
    assert_eq!(pcr(packets[2]), 0);
    assert!(has_pcr(packets[3]));
    assert_eq!(pcr(packets[3]), (40_000 * 9) / 100 * 300);
    assert_eq!(counter(packets[2]), 0);
    assert_eq!(counter(packets[3]), 1);
    let mut third = first.clone();
    third.flags = FrameFlags(0);
    third.pts = 80_000;
    let before = dst.len();
    muxer.push_frame(&third, &mut dst).unwrap();
    assert_eq!(dst.len(), before + 188);
    assert!(!has_pcr(&dst[before..]));
    // No parameter sets before a frame that is no keyframe.
    assert_eq!(&dst[dst.len() - 8..], &[0, 0, 1, 0x65, 0x88, 0x84, 0x00, 0x33]);
}

#[test]
fn long_frame_is_cut_into_packets_that_count_up() {
    for (keyframe, len, expected) in [
        (false, 0usize, 1usize),
        (false, 170, 1),
        (false, 171, 2),
        (false, 170 + 184, 2),
        (false, 170 + 184 + 1, 3),
        (true, 162, 1),
        (true, 163, 2),
        (true, 162 + 20 * 184, 21),
        (true, 162 + 20 * 184 + 1, 22),
    ] {
        let mut muxer = Mpeg2TsMuxer::new(Mpeg2TsMuxerConfig::default());
        let mut dst: Vec<u8> = Vec::new();
        muxer.push_frame(&avc_keyframe(), &mut dst).unwrap();
        let start = dst.len();
        let data: Vec<u8> = (0..len).map(|x| (x % 251) as u8).collect();
        let frame = EncodedFrame {
            codec: Fourcc(Fourcc::VIDEO_AVC),
            pts: 1_000_000,
            flags: FrameFlags(
                FrameFlags::ANNEXB | if keyframe { FrameFlags::KEYFRAME } else { 0 },
            ),
            params: vec![],
            units: vec![data.clone()],
        };
        muxer.push_frame(&frame, &mut dst).unwrap();
        let packets: Vec<&[u8]> = dst[start..].chunks(188).collect();
        assert_eq!(packets.len(), expected, "{} bytes", len);
        let mut gathered: Vec<u8> = Vec::new();
        for (k, p) in packets.iter().enumerate() {
            assert_eq!(p.len(), 188);
            assert_eq!(p[0], 0x47);
            assert_eq!(pid(p), VIDEO_ES_PID);
            assert_eq!(counter(p) as usize, (1 + k) % 16);
            assert_eq!(p[1] & 0x40 != 0, k == 0);
            assert_eq!(has_pcr(p), keyframe && k == 0);
            assert!(control(p) == 1 || control(p) == 3);
            let from = 4 + adaptation_len(p) + if k == 0 { 14 } else { 0 };
            // Only the last packet is padded.
            if k + 1 < packets.len() {
                assert_eq!(adaptation_len(p), if keyframe && k == 0 { 8 } else { 0 });
            }
            gathered.extend(&p[from..]);
        }
        assert_eq!(gathered, data);
        // The next frame goes on counting.
        let start = dst.len();
        muxer.push_frame(&frame, &mut dst).unwrap();
        assert_eq!(counter(&dst[start..]) as usize, (1 + expected) % 16);
    }
}

#[test]
fn params_follow_the_config() {
    let mut frame = avc_keyframe();
    frame.flags = FrameFlags(FrameFlags::HAS_PARAMS | FrameFlags::ANNEXB);
    let mut muxer = Mpeg2TsMuxer::new(Mpeg2TsMuxerConfig::default());
    let mut dst: Vec<u8> = Vec::new();
    muxer.push_frame(&frame, &mut dst).unwrap();
    // No keyframe: no parameter sets, whatever the frame says; no start codes.
    assert_eq!(&dst[dst.len() - 5..], &[0x65, 0x88, 0x84, 0x00, 0x33]);
    assert_eq!(&dst[dst.len() - 5 - 14..dst.len() - 5 - 5], &[0, 0, 1, 0xE0, 0, 0, 0x80, 0x80, 5]);
    let config = Mpeg2TsMuxerConfig { send_aud: false, send_params_on_each_keyframe: false };
    let mut muxer = Mpeg2TsMuxer::new(config);
    let mut dst: Vec<u8> = Vec::new();
    muxer.push_frame(&frame, &mut dst).unwrap();
    assert_eq!(
        &dst[dst.len() - 13..],
        &[0x67, 0x42, 0x00, 0x1E, 0x68, 0xCE, 0x38, 0x80, 0x65, 0x88, 0x84, 0x00, 0x33]
    );
    let before = dst.len();
    muxer.push_frame(&avc_keyframe(), &mut dst).unwrap();
    // A keyframe that does not say it has parameters.
    assert_eq!(&dst[dst.len() - 8..], &[0, 0, 1, 0x65, 0x88, 0x84, 0x00, 0x33]);
    assert_eq!(dst[before + 4] as usize, 184 - 14 - 8 - 1);
}

#[test]
fn unsupported_codec_is_refused_and_header_not_sent() {
    let mut muxer = Mpeg2TsMuxer::new(Mpeg2TsMuxerConfig::default());
    let mut dst: Vec<u8> = Vec::new();
    let mut frame = avc_keyframe();
    frame.codec = Fourcc(0x7670_3039);
    assert_eq!(
        muxer.push_frame(&frame, &mut dst),
        Err(Error::MuxUnsupportedCodec(Fourcc(0x7670_3039)))
    );
    assert_eq!(dst.len(), 0);
    muxer.push_frame(&avc_keyframe(), &mut dst).unwrap();
    assert_eq!(dst.len(), 3 * 188);
    assert_eq!(&dst[1..3], &[0x40, 0x00]);
    // Once the tables are written, the codec of a frame is not looked at.
    muxer.push_frame(&frame, &mut dst).unwrap();
    assert_eq!(dst.len(), 4 * 188);
}

#[test]
fn presentation_time_beyond_33_bits_is_refused() {
    let mut muxer = Mpeg2TsMuxer::new(Mpeg2TsMuxerConfig::default());
    let mut dst: Vec<u8> = vec![1, 2, 3];
    let mut frame = avc_keyframe();
    // The last microsecond whose ticks fit 33 bits.
    frame.pts = 95_443_717_688;
    assert_eq!((frame.pts as u64 * 9) / 100, (1 << 33) - 1);
    muxer.push_frame(&frame, &mut dst).unwrap();
    assert_eq!(dst.len(), 3 + 3 * 188);
    let mut muxer = Mpeg2TsMuxer::new(Mpeg2TsMuxerConfig::default());
    let mut dst: Vec<u8> = vec![1, 2, 3];
    frame.pts = 95_443_717_689;
    assert_eq!(muxer.push_frame(&frame, &mut dst), Err(Error::ValueTooLarge(1 << 33)));
    frame.pts = -1;
    assert_eq!(
        muxer.push_frame(&frame, &mut dst),
        Err(Error::ValueTooLarge(((u64::MAX as u128 * 9) / 100) as u64))
    );
    frame.pts = i64::MAX;
    assert_eq!(
        muxer.push_frame(&frame, &mut dst),
        Err(Error::ValueTooLarge(((i64::MAX as u128 * 9) / 100) as u64))
    );
    assert_eq!(dst, vec![1, 2, 3]);
    // Nothing was written, so the tables are still to come.
    frame.pts = 0;
    muxer.push_frame(&frame, &mut dst).unwrap();
    assert_eq!(dst.len(), 3 + 3 * 188);
}

#[test]
fn microseconds_and_ticks_convert_with_rounding() {
    for (us, ticks, back) in [
        (0u64, 0u64, 0u64),
        (11, 0, 0),
        (12, 1, 11),
        (100, 9, 100),
        (40_000, 3_600, 40_000),
        (33_367, 3_003, 33_366),
        (1_000_000, 90_000, 1_000_000),
    ] {
        assert_eq!((us * 9) / 100, ticks);
        assert_eq!((ticks * 1_000_000) / 90_000, back);
        assert!(back <= us && us <= back + 11);
    }
}

#[test]
fn default_packets_name_the_program() {
    let pat = Mpeg2TsMuxer::default_pat_packet();
    assert_eq!(pat.header.pid.as_u16(), 0);
    let pmt = Mpeg2TsMuxer::default_pmt_packet(StreamType::from_u8(StreamType::H264));
    assert_eq!(pmt.header.pid.as_u16(), 256);
    let h = Mpeg2TsMuxer::default_ts_header(257, ContinuityCounter::from_u8(4).unwrap()).unwrap();
    assert_eq!(h.pid.as_u16(), 257);
    assert_eq!(h.continuity_counter.as_u8(), 4);
    assert_eq!(
        Mpeg2TsMuxer::default_ts_header(0x2000, ContinuityCounter::new()),
        Err(Error::ValueTooLarge(0x2000))
    );
    let muxer = Mpeg2TsMuxer::new(Mpeg2TsMuxerConfig::default());
    let mut out = vec![9];
    muxer.write_packets(&mut out, &vec![pat.clone(), pmt]).unwrap();
    assert_eq!(out.len(), 1 + 2 * 188);
    let mut bad = pat.clone();
    bad.header.adaptation_field_control =
        flowly_mpegts::mpegts::ts::AdaptationFieldControl::AdaptationFieldOnly;
    let mut out = vec![9];
    assert_eq!(muxer.write_packets(&mut out, &vec![pat, bad]), Err(Error::TsGeneric));
    assert_eq!(out, vec![9]);
}
