use flowly_mpegts::error::Error;
use flowly_mpegts::frame::{Fourcc, FrameFlags, Mpeg2TsFrame, Mpeg2TsSource};
use flowly_mpegts::mpegts::bytes::RawData;
use flowly_mpegts::mpegts::continuity_counter::ContinuityCounter;
use flowly_mpegts::mpegts::legal_time_window::LegalTimeWindow;
use flowly_mpegts::mpegts::pid::Pid;
use flowly_mpegts::mpegts::piecewise_rate::PiecewiseRate;
use flowly_mpegts::mpegts::seamless_splice::SeamlessSplice;
use flowly_mpegts::mpegts::stream_id::StreamId;
use flowly_mpegts::mpegts::stream_type::StreamType;
use flowly_mpegts::mpegts::timestamp::{Clock, PtsDts, Timestamp, ESCR, PCR};
use flowly_mpegts::mpegts::ts::{AdaptationFieldControl, TransportScramblingControl};
use flowly_mpegts::mpegts::version::VersionNumber;
use flowly_mpegts::mpegts::WritableLen;

#[test]
fn pid_accepts_thirteen_bits() {
    assert_eq!(Pid::new(0).unwrap().as_u16(), 0);
    assert_eq!(Pid::new(257).unwrap().as_u16(), 257);
    assert_eq!(Pid::new(0x1FFF).unwrap().as_u16(), 0x1FFF);
    assert_eq!(Pid::new(0x2000), Err(Error::ValueTooLarge(0x2000)));
    assert_eq!(Pid::new(0xFFFF), Err(Error::ValueTooLarge(0xFFFF)));
    assert_eq!(Pid::new(5).unwrap().writable_len(), 2);
}

#[test]
fn values_are_made_from_narrower_numbers() {
    assert_eq!(Pid::from(200u8).as_u16(), 200);
    assert_eq!(Timestamp::<PtsDts>::from(4_000_000_000u32).as_u64(), 4_000_000_000);
    assert_eq!(Timestamp::<Clock<PCR>>::from(7u32).as_u64(), 7);
    let pts = Timestamp::<PtsDts>::new((1 << 33) - 1).unwrap();
    assert_eq!(Timestamp::<Clock<ESCR>>::from(pts).as_u64(), ((1 << 33) - 1) * 300);
}

#[test]
fn continuity_counter_wraps_after_fifteen() {
    let mut c = ContinuityCounter::new();
    assert_eq!(c.as_u8(), 0);
    for _ in 0..5 {
        c.increment();
    }
    assert_eq!(c.as_u8(), 5);
    for _ in 0..11 {
        c.increment();
    }
    assert_eq!(c.as_u8(), 0);
    assert_eq!(ContinuityCounter::from_u8(15).unwrap().as_u8(), 15);
    assert_eq!(ContinuityCounter::from_u8(16), Err(Error::ValueTooLarge(16)));
    assert_eq!(ContinuityCounter::default().as_u8(), 0);
}

#[test]
fn version_number_wraps_after_thirty_one() {
    let mut v = VersionNumber::from_u8(30).unwrap();
    v.increment();
    assert_eq!(v.as_u8(), 31);
    v.increment();
    assert_eq!(v.as_u8(), 0);
    assert_eq!(VersionNumber::from_u8(32), Err(Error::ValueTooLarge(32)));
    assert_eq!(VersionNumber::new().as_u8(), 0);
    assert_eq!(VersionNumber::default().as_u8(), 0);
}

#[test]
fn legal_time_window_keeps_flag_and_offset() {
    let w = LegalTimeWindow::new(true, 0x7FFF).unwrap();
    assert!(w.is_valid());
    assert_eq!(w.offset(), 0x7FFF);
    assert_eq!(w.writable_len(), 2);
    assert_eq!(LegalTimeWindow::new(false, 0x8000), Err(Error::ValueTooLarge(0x8000)));
}

#[test]
fn piecewise_rate_accepts_twenty_two_bits() {
    assert_eq!(PiecewiseRate::new(0x3F_FFFF).unwrap().as_u32(), 0x3F_FFFF);
    assert_eq!(PiecewiseRate::new(0x40_0000), Err(Error::ValueTooLarge(0x40_0000)));
    assert_eq!(PiecewiseRate::new(1).unwrap().writable_len(), 3);
}

#[test]
fn seamless_splice_accepts_four_bits_of_type() {
    let dts = Timestamp::<PtsDts>::new(12345).unwrap();
    let s = SeamlessSplice::new(15, dts).unwrap();
    assert_eq!(s.splice_type(), 15);
    assert_eq!(s.dts_next_access_unit().as_u64(), 12345);
    assert_eq!(SeamlessSplice::new(16, dts), Err(Error::ValueTooLarge(16)));
}

#[test]
fn timestamp_accepts_thirty_three_bits() {
    assert_eq!(Timestamp::<PtsDts>::MAX, (1 << 33) - 1);
    assert_eq!(Timestamp::<PtsDts>::RESOLUTION, 90_000);
    assert_eq!(Timestamp::<PtsDts>::new(0).unwrap().as_u64(), 0);
    let max = (1u64 << 33) - 1;
    assert_eq!(Timestamp::<PtsDts>::new(max).unwrap().as_u64(), max);
    assert_eq!(Timestamp::<PtsDts>::new(max + 1), Err(Error::ValueTooLarge(max + 1)));
}

#[test]
fn clock_reference_accepts_base_and_extension() {
    let max = ((1u64 << 33) - 1) * 300 + 0b1_1111_1111;
    assert_eq!(Timestamp::<Clock<PCR>>::MAX, max);
    assert_eq!(Timestamp::<Clock<PCR>>::RESOLUTION, 27_000_000);
    assert_eq!(Timestamp::<Clock<PCR>>::new(max).unwrap().as_u64(), max);
    assert_eq!(Timestamp::<Clock<ESCR>>::new(max + 1), Err(Error::ValueTooLarge(max + 1)));
    let pts = Timestamp::<PtsDts>::new(3600).unwrap();
    assert_eq!(Timestamp::<Clock<PCR>>::from_pts(pts).as_u64(), 1_080_000);
}

#[test]
fn timestamp_word_interleaves_tag_value_and_markers() {
    let t = Timestamp::<PtsDts>::new(0).unwrap();
    assert_eq!(t.to_u64(2), 0x21_0001_0001);
    let t = Timestamp::<PtsDts>::new((1 << 33) - 1).unwrap();
    assert_eq!(t.to_u64(3), 0x3F_FFFF_FFFF);
    let t = Timestamp::<PtsDts>::new(3600).unwrap();
    // 3600 = 0b111000010000: all in the lowest run.
    assert_eq!(t.to_u64(1), 0x11_0001_0001 + (3600 << 1));
    for v in [0u64, 1, 0x7FFF, 0x8000, 0x3FFF_FFFF, 0x4000_0000, 0x1_2345_6789, (1 << 33) - 1] {
        let t = Timestamp::<PtsDts>::new(v).unwrap();
        for tag in [1u8, 2, 3] {
            let word = t.to_u64(tag);
            assert_eq!(Timestamp::<PtsDts>::from_u64(word).unwrap().as_u64(), v);
            assert_eq!(Timestamp::<PtsDts>::check_bits(word, tag), Ok(()));
        }
    }
}

#[test]
fn timestamp_word_without_marker_bit_is_refused() {
    let word = Timestamp::<PtsDts>::new(77).unwrap().to_u64(2);
    assert_eq!(
        Timestamp::<PtsDts>::from_u64(word - 1),
        Err(Error::UnexpectedMarkerBit(0x1_0001_0000))
    );
    assert_eq!(
        Timestamp::<PtsDts>::from_u64(word - 0x1_0000),
        Err(Error::UnexpectedMarkerBit(0x1_0000_0001))
    );
    assert_eq!(
        Timestamp::<PtsDts>::from_u64(word - 0x1_0000_0000),
        Err(Error::UnexpectedMarkerBit(0x1_0001))
    );
    assert_eq!(Timestamp::<PtsDts>::from_u64(0), Err(Error::UnexpectedMarkerBit(0)));
}

#[test]
fn timestamp_word_with_other_tag_is_refused() {
    let word = Timestamp::<PtsDts>::new(77).unwrap().to_u64(3);
    assert_eq!(
        Timestamp::<PtsDts>::check_bits(word, 2),
        Err(Error::UnexpectedMarkerBit(0x30_0000_0000))
    );
    assert_eq!(Timestamp::<PtsDts>::check_bits(word, 3), Ok(()));
}

#[test]
fn pcr_word_holds_base_reserved_bits_and_extension() {
    let t = Timestamp::<Clock<PCR>>::new(0).unwrap();
    assert_eq!(t.to_u64(), 0x7E00);
    let t = Timestamp::<Clock<PCR>>::new(1_080_000).unwrap();
    assert_eq!(t.to_u64(), (3600 << 15) | 0x7E00);
    let t = Timestamp::<Clock<PCR>>::new(301).unwrap();
    assert_eq!(t.to_u64(), (1 << 15) | 0x7E00 | 1);
    let max = Timestamp::<Clock<PCR>>::MAX;
    for v in [0u64, 299, 300, 12_345_678_901, max - 212, max - 211, max] {
        let word = Timestamp::<Clock<PCR>>::new(v).unwrap().to_u64();
        assert!(word < (1 << 48));
        assert_eq!(Timestamp::<Clock<PCR>>::from_u64(word).as_u64(), v);
        // Reserved bits are passed over.
        assert_eq!(Timestamp::<Clock<PCR>>::from_u64(word & !0x7E00).as_u64(), v);
    }
}

#[test]
fn escr_word_holds_base_extension_and_markers() {
    let t = Timestamp::<Clock<ESCR>>::new(0).unwrap();
    assert_eq!(t.to_u64(), 0x400_0400_0401);
    let max = Timestamp::<Clock<ESCR>>::MAX;
    for v in [0u64, 299, 300, 12_345_678_901, max] {
        let word = Timestamp::<Clock<ESCR>>::new(v).unwrap().to_u64();
        assert_eq!(Timestamp::<Clock<ESCR>>::from_u64(word).unwrap().as_u64(), v);
    }
    assert_eq!(
        Timestamp::<Clock<ESCR>>::from_u64(0x400_0400_0400),
        Err(Error::UnexpectedMarkerBit(0x400_0400_0400))
    );
    assert_eq!(
        Timestamp::<Clock<ESCR>>::from_u64(0x4400_0400_0401),
        Err(Error::TsGeneric)
    );
}

#[test]
fn raw_data_holds_up_to_a_packet_payload() {
    assert_eq!(RawData::MAX_SIZE, 184);
    let d = RawData::new(&[1, 2, 3]).unwrap();
    assert_eq!(d.as_slice(), &[1, 2, 3]);
    assert_eq!(d.len(), 3);
    assert_eq!(d.writable_len(), 3);
    assert_eq!(d.clone(), d);
    assert_eq!(RawData::new(&[0; 184]).unwrap().len(), 184);
    assert_eq!(RawData::new(&[0; 185]), Err(Error::ValueTooLarge(185)));
    assert_eq!(RawData::new(&[]).unwrap().len(), 0);
}

#[test]
fn stream_id_knows_audio_and_video() {
    assert!(StreamId::new(0xE0).is_video());
    assert!(!StreamId::new(0xE0).is_audio());
    assert!(StreamId::new(0xC0).is_audio());
    assert_eq!(StreamId::new_audio(0xDF).unwrap().as_u8(), 0xDF);
    assert_eq!(StreamId::new_audio(0xE0), Err(Error::WrongAudioStreamId(0xE0)));
    assert_eq!(StreamId::new_video(0xEF).unwrap().as_u8(), 0xEF);
    assert_eq!(StreamId::new_video(0xF0), Err(Error::WrongVideoStreamId(0xF0)));
    assert_eq!(StreamId::new_video(0xDF), Err(Error::WrongVideoStreamId(0xDF)));
}

#[test]
fn stream_type_keeps_every_value() {
    assert_eq!(StreamType::H264, 0x1B);
    assert_eq!(StreamType::H265, 0x24);
    assert_eq!(StreamType::from_u8(0x0F).as_u8(), 0x0F);
}

#[test]
fn controls_stand_for_two_bits() {
    assert_eq!(AdaptationFieldControl::from_u8(0), AdaptationFieldControl::Reserved);
    assert_eq!(AdaptationFieldControl::from_u8(1), AdaptationFieldControl::PayloadOnly);
    assert_eq!(AdaptationFieldControl::from_u8(2), AdaptationFieldControl::AdaptationFieldOnly);
    assert_eq!(
        AdaptationFieldControl::from_u8(3),
        AdaptationFieldControl::AdaptationFieldAndPayload
    );
    assert_eq!(AdaptationFieldControl::from_u8(9), AdaptationFieldControl::Unknown(9));
    assert!(!AdaptationFieldControl::PayloadOnly.has_adaptation_field());
    assert!(AdaptationFieldControl::PayloadOnly.has_payload());
    assert!(AdaptationFieldControl::AdaptationFieldOnly.has_adaptation_field());
    assert!(!AdaptationFieldControl::AdaptationFieldOnly.has_payload());
    assert!(AdaptationFieldControl::AdaptationFieldAndPayload.has_adaptation_field());
    assert!(AdaptationFieldControl::AdaptationFieldAndPayload.has_payload());
    // The reserved value and an unknown one announce neither.
    assert!(!AdaptationFieldControl::Reserved.has_adaptation_field());
    assert!(!AdaptationFieldControl::Reserved.has_payload());
    for n in [0u8, 1, 2, 3, 4, 200] {
        assert!(!AdaptationFieldControl::Unknown(n).has_adaptation_field());
        assert!(!AdaptationFieldControl::Unknown(n).has_payload());
    }
    for n in 0..4u8 {
        assert_eq!(AdaptationFieldControl::from_u8(n).as_u8(), n);
        assert_eq!(TransportScramblingControl::from_u8(n).as_u8(), n);
    }
    assert_eq!(TransportScramblingControl::from_u8(0), TransportScramblingControl::NotScrambled);
    assert_eq!(TransportScramblingControl::from_u8(1), TransportScramblingControl::Reserved);
    assert_eq!(
        TransportScramblingControl::from_u8(2),
        TransportScramblingControl::ScrambledWithEvenKey
    );
    assert_eq!(
        TransportScramblingControl::from_u8(3),
        TransportScramblingControl::ScrambledWithOddKey
    );
    assert_eq!(TransportScramblingControl::from_u8(7), TransportScramblingControl::Unknown(7));
}

#[test]
fn error_keeps_variant_and_payload_when_extended() {
    assert_eq!(Error::TsGeneric.extend::<String>(), Error::<String>::TsGeneric);
    assert_eq!(Error::WrongAudioStreamId(1).extend::<u8>(), Error::<u8>::WrongAudioStreamId(1));
    assert_eq!(Error::WrongVideoStreamId(2).extend::<u8>(), Error::<u8>::WrongVideoStreamId(2));
    assert_eq!(Error::ValueTooLarge(3).extend::<u8>(), Error::<u8>::ValueTooLarge(3));
    assert_eq!(Error::UnexpectedMarkerBit(4).extend::<u8>(), Error::<u8>::UnexpectedMarkerBit(4));
    assert_eq!(Error::WrogSyncByte.extend::<u8>(), Error::<u8>::WrogSyncByte);
    assert_eq!(Error::UnknownPid(5).extend::<u8>(), Error::<u8>::UnknownPid(5));
    assert_eq!(Error::PsiTableCountZero.extend::<u8>(), Error::<u8>::PsiTableCountZero);
    assert_eq!(
        Error::MuxUnsupportedCodec(Fourcc(6)).extend::<u8>(),
        Error::<u8>::MuxUnsupportedCodec(Fourcc(6))
    );
}

#[test]
fn error_of_the_input_stage_is_carried() {
    let e: Error<String> = Error::Other("gone".to_string());
    assert_eq!(e, Error::Other("gone".to_string()));
    assert_ne!(e, Error::TsGeneric);
}

#[test]
fn demuxed_frame_is_encoded_annexb_video() {
    let frame = Mpeg2TsFrame {
        pts: 40_000,
        dts: 40_007,
        keyframe: true,
        payload: vec![0, 0, 1, 0x65],
        source: Mpeg2TsSource { codec: Fourcc(Fourcc::VIDEO_HEVC), params: vec![vec![1, 2]] },
    };
    assert_eq!(frame.pts(), 40_000);
    assert_eq!(frame.timestamp(), 40_007);
    assert_eq!(frame.codec(), Fourcc(Fourcc::VIDEO_HEVC));
    assert_eq!(frame.params(), &vec![vec![1u8, 2]]);
    assert_eq!(frame.chunks(), &vec![0u8, 0, 1, 0x65]);
    assert_eq!(frame.source().codec, Fourcc(Fourcc::VIDEO_HEVC));
    let flags = frame.flags();
    assert_eq!(
        flags.0,
        FrameFlags::KEYFRAME | FrameFlags::ENCODED | FrameFlags::ANNEXB | FrameFlags::VIDEO_STREAM
    );
    assert!(flags.contains(FrameFlags::KEYFRAME));
    assert!(flags.contains(FrameFlags::ANNEXB));
    assert!(!flags.contains(FrameFlags::HAS_PARAMS));
    let mut other = frame.clone();
    other.keyframe = false;
    assert_eq!(
        other.flags().0,
        FrameFlags::ENCODED | FrameFlags::ANNEXB | FrameFlags::VIDEO_STREAM
    );
    assert_eq!(FrameFlags(0).with(FrameFlags::KEYFRAME), FrameFlags(1));
}
