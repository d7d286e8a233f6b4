use flowly_mpegts::error::Error;
use flowly_mpegts::mpegts::bytes::RawData;
use flowly_mpegts::mpegts::io::{Io, Mpeg2tsParser};
use flowly_mpegts::mpegts::pid::{Pid, PidKind};
use flowly_mpegts::mpegts::timestamp::{Clock, Timestamp, ESCR, PCR};
use flowly_mpegts::mpegts::ts::{Pat, Pmt, ProgramAssociation, Psi, TsHeader, TsPacket};
use flowly_mpegts::mpegts::version::VersionNumber;
use flowly_mpegts::muxer::Mpeg2TsMuxer;
use flowly_mpegts::mpegts::stream_type::StreamType;

fn body(out: Vec<u8>) -> Vec<u8> {
    assert_eq!(out[0], 0xEE);
    out[1..].to_vec()
}

#[test]
fn each_kind_reads_what_it_writes() {
    let mut parser = Mpeg2tsParser::new();
    let pid = Pid::new(0x123).unwrap();
    let bytes = {
        let mut out = vec![0xEE];
        Io::serialize(&mut parser, &pid, &mut out).unwrap();
        body(out)
    };
    assert_eq!(bytes, vec![0xE1, 0x23]);
    assert_eq!(Io::<Pid>::parse(&mut parser, &bytes), Ok(pid));

    let entry = ProgramAssociation { program_num: 9, program_map_pid: pid };
    let bytes = {
        let mut out = vec![0xEE];
        Io::serialize(&mut parser, &entry, &mut out).unwrap();
        body(out)
    };
    assert_eq!(Io::<ProgramAssociation>::parse(&mut parser, &bytes), Ok(entry));

    let pat =
        Pat { transport_stream_id: 4, version_number: VersionNumber::new(), table: vec![entry] };
    let bytes = {
        let mut out = vec![0xEE];
        Io::serialize(&mut parser, &pat, &mut out).unwrap();
        body(out)
    };
    assert_eq!(Io::<Pat>::parse(&mut parser, &bytes), Ok(pat));
    let psi: Psi = Io::<Psi>::parse(&mut parser, &bytes).unwrap();
    assert_eq!(psi.tables.len(), 1);
    assert_eq!({
        let mut out = vec![0xEE];
        Io::serialize(&mut parser, &psi, &mut out).unwrap();
        body(out)
    }, bytes);
    let syntax = psi.tables[0].syntax.clone().unwrap();
    let inner = {
        let mut out = vec![0xEE];
        Io::serialize(&mut parser, &syntax, &mut out).unwrap();
        body(out)
    };
    assert_eq!(&inner[..], &bytes[4..bytes.len() - 4]);

    let pmt_packet = Mpeg2TsMuxer::default_pmt_packet(StreamType::from_u8(StreamType::H265));
    let pmt: Pmt = match pmt_packet.payload.clone().unwrap() {
        flowly_mpegts::mpegts::ts::TsPayload::Pmt(pmt) => pmt,
        _ => unreachable!(),
    };
    let bytes = {
        let mut out = vec![0xEE];
        Io::serialize(&mut parser, &pmt, &mut out).unwrap();
        body(out)
    };
    assert_eq!(Io::<Pmt>::parse(&mut parser, &bytes), Ok(pmt));

    let raw = RawData::new(&[1, 2, 3]).unwrap();
    let bytes = {
        let mut out = vec![0xEE];
        Io::serialize(&mut parser, &raw, &mut out).unwrap();
        body(out)
    };
    assert_eq!(Io::<RawData>::parse(&mut parser, &bytes), Ok(raw));
    assert_eq!(Io::<RawData>::parse(&mut parser, &[0; 185]), Err(Error::ValueTooLarge(185)));

    let pcr = Timestamp::<Clock<PCR>>::new(123_456).unwrap();
    let bytes = {
        let mut out = vec![0xEE];
        Io::serialize(&mut parser, &pcr, &mut out).unwrap();
        body(out)
    };
    assert_eq!(Io::<Timestamp<Clock<PCR>>>::parse(&mut parser, &bytes), Ok(pcr));
    let escr = Timestamp::<Clock<ESCR>>::new(123_456).unwrap();
    let bytes = {
        let mut out = vec![0xEE];
        Io::serialize(&mut parser, &escr, &mut out).unwrap();
        body(out)
    };
    assert_eq!(Io::<Timestamp<Clock<ESCR>>>::parse(&mut parser, &bytes), Ok(escr));
}

#[test]
fn packets_teach_the_parser_through_the_trait() {
    let mut parser = Mpeg2tsParser::new();
    let pat = Mpeg2TsMuxer::default_pat_packet();
    let bytes = {
        let mut out = vec![0xEE];
        Io::serialize(&mut parser, &pat, &mut out).unwrap();
        body(out)
    };
    assert_eq!(bytes.len(), 188);
    assert_eq!(parser.kind_of(256), PidKind::Unknown);
    let read: TsPacket = Io::<TsPacket>::parse(&mut parser, &bytes).unwrap();
    assert_eq!(read.payload, pat.payload);
    assert_eq!(parser.kind_of(256), PidKind::Pmt);
    let header: TsHeader = Io::<TsHeader>::parse(&mut parser, &bytes).unwrap();
    assert_eq!(header, read.header);
    assert_eq!({
        let mut out = vec![0xEE];
        Io::serialize(&mut parser, &header, &mut out).unwrap();
        body(out)
    }, bytes[..4].to_vec());
    let mut damaged = bytes.clone();
    damaged[0] = 0;
    assert_eq!(Io::<TsPacket>::parse(&mut parser, &damaged), Err(Error::WrogSyncByte));
}
