use flowly_mpegts::error::Error;
use flowly_mpegts::mpegts::bytes::RawData;
use flowly_mpegts::mpegts::continuity_counter::ContinuityCounter;
use flowly_mpegts::mpegts::crc32::crc32;
use flowly_mpegts::mpegts::io::Mpeg2tsParser;
use flowly_mpegts::mpegts::legal_time_window::LegalTimeWindow;
use flowly_mpegts::mpegts::pid::{Pid, PidKind};
use flowly_mpegts::mpegts::piecewise_rate::PiecewiseRate;
use flowly_mpegts::mpegts::seamless_splice::SeamlessSplice;
use flowly_mpegts::mpegts::stream_id::StreamId;
use flowly_mpegts::mpegts::stream_type::StreamType;
use flowly_mpegts::mpegts::timestamp::{Clock, PtsDts, Timestamp, ESCR, PCR};
use flowly_mpegts::mpegts::ts::{
    AdaptationExtensionField, AdaptationField, AdaptationFieldControl, Descriptor, EsInfo, Null,
    Pat, Pes, PesHeader, Pmt, ProgramAssociation, Psi, PsiTable, PsiTableHeader, PsiTableSyntax,
    Section, Stuffing, TransportScramblingControl, TsHeader, TsPacket, TsPayload,
};
use flowly_mpegts::mpegts::version::VersionNumber;
use flowly_mpegts::mpegts::WritableLen;

fn header(pid: u16, counter: u8) -> TsHeader {
    TsHeader {
        transport_error_indicator: false,
        transport_priority: false,
        pid: Pid::new(pid).unwrap(),
        transport_scrambling_control: TransportScramblingControl::NotScrambled,
        continuity_counter: ContinuityCounter::from_u8(counter).unwrap(),
        adaptation_field_control: AdaptationFieldControl::PayloadOnly,
        payload_unit_start_indicator: false,
    }
}

fn pat() -> Pat {
    Pat {
        transport_stream_id: 1,
        version_number: VersionNumber::new(),
        table: vec![ProgramAssociation { program_num: 1, program_map_pid: Pid::new(256).unwrap() }],
    }
}

fn pmt() -> Pmt {
    Pmt {
        program_num: 1,
        pcr_pid: Some(Pid::new(257).unwrap()),
        version_number: VersionNumber::from_u8(3).unwrap(),
        program_info: vec![Descriptor { tag: 5, data: vec![1, 2, 3] }],
        es_info: vec![
            EsInfo {
                stream_type: StreamType::from_u8(StreamType::H264),
                elementary_pid: Pid::new(257).unwrap(),
                descriptors: vec![
                    Descriptor { tag: 0x28, data: vec![9, 8] },
                    Descriptor { tag: 0x2A, data: vec![] },
                ],
            },
            EsInfo {
                stream_type: StreamType::from_u8(0x0F),
                elementary_pid: Pid::new(258).unwrap(),
                descriptors: vec![],
            },
        ],
    }
}

fn pes_header() -> PesHeader {
    PesHeader {
        stream_id: StreamId::new(0xE0),
        priority: false,
        data_alignment_indicator: true,
        copyright: false,
        original_or_copy: true,
        pts: Some(Timestamp::<PtsDts>::new(900_000).unwrap()),
        dts: Some(Timestamp::<PtsDts>::new(896_400).unwrap()),
        escr: Some(Timestamp::<Clock<ESCR>>::new(27_000_123).unwrap()),
        packet_len: 0,
    }
}

fn full_adaptation_field() -> AdaptationField {
    AdaptationField {
        discontinuity_indicator: true,
        random_access_indicator: false,
        es_priority_indicator: true,
        pcr: Some(Timestamp::<Clock<PCR>>::new(1_080_301).unwrap()),
        opcr: Some(Timestamp::<Clock<PCR>>::new(5).unwrap()),
        splice_countdown: Some(-3),
        transport_private_data: vec![0xAB, 0xCD],
        extension: Some(AdaptationExtensionField {
            legal_time_window: Some(LegalTimeWindow::new(true, 1234).unwrap()),
            piecewise_rate: Some(PiecewiseRate::new(0x12_3456).unwrap()),
            seamless_splice: Some(
                SeamlessSplice::new(9, Timestamp::<PtsDts>::new(0x1_0000_0001).unwrap()).unwrap(),
            ),
        }),
    }
}

fn written(packet: &TsPacket) -> Vec<u8> {
    let parser = Mpeg2tsParser::new();
    let mut out = Vec::new();
    parser.serialize(packet, &mut out).unwrap();
    out
}

#[test]
fn header_bytes_hold_every_field() {
    let parser = Mpeg2tsParser::new();
    let mut h = header(0x1234, 9);
    h.transport_error_indicator = true;
    h.transport_priority = true;
    h.payload_unit_start_indicator = true;
    h.transport_scrambling_control = TransportScramblingControl::ScrambledWithEvenKey;
    h.adaptation_field_control = AdaptationFieldControl::AdaptationFieldAndPayload;
    let mut out = Vec::new();
    parser.serialize_ts_header(&h, &mut out).unwrap();
    assert_eq!(out, vec![0x47, 0x80 | 0x40 | 0x20 | 0x12, 0x34, 0x80 | 0x30 | 9]);
    assert_eq!(parser.parse_ts_header(&out), Ok(h));
    h.transport_scrambling_control = TransportScramblingControl::Unknown(4);
    let mut again = vec![1];
    assert_eq!(parser.serialize_ts_header(&h, &mut again), Err(Error::TsGeneric));
    assert_eq!(again, vec![1]);
}

#[test]
fn header_with_wrong_sync_byte_is_refused() {
    let parser = Mpeg2tsParser::new();
    assert_eq!(parser.parse_ts_header(&[0x48, 0, 0, 0x10]), Err(Error::WrogSyncByte));
    assert_eq!(parser.parse_ts_header(&[0x47, 0, 0]), Err(Error::TsGeneric));
    let mut parser = Mpeg2tsParser::new();
    let mut bytes = written(&TsPacket {
        header: header(0, 0),
        adaptation_field: None,
        payload: Some(TsPayload::Pat(pat())),
    });
    bytes[0] = 0x46;
    assert_eq!(parser.parse(&bytes), Err(Error::WrogSyncByte));
}

#[test]
fn pat_packet_is_written_behind_stuffing() {
    let packet = TsPacket {
        header: header(0, 0),
        adaptation_field: None,
        payload: Some(TsPayload::Pat(pat())),
    };
    let bytes = written(&packet);
    assert_eq!(bytes.len(), 188);
    // Start indicator set, adaptation field and payload.
    assert_eq!(&bytes[..4], &[0x47, 0x40, 0x00, 0x30]);
    // 17 bytes of payload leave 167 bytes: length 166, no flags, stuffing.
    assert_eq!(bytes[4], 166);
    assert_eq!(bytes[5], 0);
    assert!(bytes[6..171].iter().all(|b| *b == 0xFF));
    let section = &bytes[171..];
    assert_eq!(
        &section[..13],
        &[0x00, 0x00, 0xB0, 0x0D, 0x00, 0x01, 0xC1, 0x00, 0x00, 0x00, 0x01, 0xE1, 0x00]
    );
    assert_eq!(&section[13..], &crc32(&section[1..13]).to_be_bytes());
    assert_eq!(TsPayload::Pat(pat()).writable_len(), 17);
    assert_eq!(pat().writable_len(), 17);
}

#[test]
fn pat_packet_reads_back_and_teaches_the_pmt_pid() {
    let packet = TsPacket {
        header: header(0, 0),
        adaptation_field: None,
        payload: Some(TsPayload::Pat(pat())),
    };
    let bytes = written(&packet);
    let mut parser = Mpeg2tsParser::new();
    assert_eq!(parser.kind_of(256), PidKind::Unknown);
    let read = parser.parse(&bytes).unwrap();
    assert_eq!(read.payload, Some(TsPayload::Pat(pat())));
    // The stuffing reads as an adaptation field that holds nothing.
    assert_eq!(
        read.adaptation_field,
        Some(AdaptationField {
            discontinuity_indicator: false,
            random_access_indicator: false,
            es_priority_indicator: false,
            pcr: None,
            opcr: None,
            splice_countdown: None,
            transport_private_data: vec![],
            extension: None,
        })
    );
    assert_eq!(read.header.pid.as_u16(), 0);
    assert!(read.header.payload_unit_start_indicator);
    assert_eq!(
        read.header.adaptation_field_control,
        AdaptationFieldControl::AdaptationFieldAndPayload
    );
    assert_eq!(parser.kind_of(256), PidKind::Pmt);
    assert_eq!(parser.kind_of(257), PidKind::Unknown);
}

#[test]
fn pmt_bytes_hold_descriptors_and_streams() {
    let parser = Mpeg2tsParser::new();
    let mut out = Vec::new();
    parser.serialize_pmt(&pmt(), &mut out).unwrap();
    let expected_data: Vec<u8> = vec![
        0xE1, 0x01, // PCR PID 257
        0xF0, 0x05, // program info length
        5, 3, 1, 2, 3, // descriptor
        0x1B, 0xE1, 0x01, 0xF0, 0x06, 0x28, 2, 9, 8, 0x2A, 0, // first stream
        0x0F, 0xE1, 0x02, 0xF0, 0x00, // second stream
    ];
    let len = 5 + expected_data.len() + 4;
    assert_eq!(out[0], 0);
    assert_eq!(out[1], 2);
    assert_eq!(&out[2..4], &[0xB0 | (len >> 8) as u8, (len & 0xFF) as u8]);
    assert_eq!(&out[4..9], &[0x00, 0x01, 0xC0 | (3 << 1) | 1, 0, 0]);
    assert_eq!(&out[9..9 + expected_data.len()], &expected_data[..]);
    let end = 9 + expected_data.len();
    assert_eq!(&out[end..], &crc32(&out[1..end]).to_be_bytes());
    assert_eq!(out.len(), pmt().writable_len());
    assert_eq!(parser.parse_pmt(&out), Ok(pmt()));
}

#[test]
fn pmt_packet_reads_back_once_its_pid_is_known() {
    let pat_bytes = written(&TsPacket {
        header: header(0, 0),
        adaptation_field: None,
        payload: Some(TsPayload::Pat(pat())),
    });
    let pmt_bytes = written(&TsPacket {
        header: header(256, 0),
        adaptation_field: None,
        payload: Some(TsPayload::Pmt(pmt())),
    });
    let mut parser = Mpeg2tsParser::new();
    assert_eq!(parser.parse(&pmt_bytes), Err(Error::UnknownPid(256)));
    parser.parse(&pat_bytes).unwrap();
    let read = parser.parse(&pmt_bytes).unwrap();
    assert_eq!(read.payload, Some(TsPayload::Pmt(pmt())));
    assert_eq!(parser.kind_of(257), PidKind::Pes);
    assert_eq!(parser.kind_of(258), PidKind::Pes);
    assert_eq!(parser.kind_of(256), PidKind::Pmt);
}

#[test]
fn new_pmt_replaces_the_streams_of_its_program() {
    let mut parser = Mpeg2tsParser::new();
    assert_eq!(parser.kind_of(0), PidKind::Pat);
    assert_eq!(parser.kind_of(0x1FFF), PidKind::Unknown);
    let mut table = pat();
    table
        .table
        .push(ProgramAssociation { program_num: 2, program_map_pid: Pid::new(512).unwrap() });
    parser.parse(&written(&TsPacket {
        header: header(0, 0),
        adaptation_field: None,
        payload: Some(TsPayload::Pat(table)),
    })).unwrap();
    let entry = |pid: u16| EsInfo {
        stream_type: StreamType::from_u8(StreamType::H264),
        elementary_pid: Pid::new(pid).unwrap(),
        descriptors: vec![],
    };
    let program = |num: u16, on: u16, pids: &[u16]| {
        let mut p = pmt();
        p.program_num = num;
        p.program_info = vec![];
        p.es_info = pids.iter().map(|pid| entry(*pid)).collect();
        written(&TsPacket {
            header: header(on, 0),
            adaptation_field: None,
            payload: Some(TsPayload::Pmt(p)),
        })
    };
    parser.parse(&program(1, 256, &[257, 258])).unwrap();
    parser.parse(&program(2, 512, &[513])).unwrap();
    assert_eq!(parser.kind_of(257), PidKind::Pes);
    assert_eq!(parser.kind_of(258), PidKind::Pes);
    assert_eq!(parser.kind_of(513), PidKind::Pes);
    // A new PMT of program 1: its streams take the place of the old ones.
    parser.parse(&program(1, 256, &[258, 259])).unwrap();
    assert_eq!(parser.kind_of(257), PidKind::Unknown);
    assert_eq!(parser.kind_of(258), PidKind::Pes);
    assert_eq!(parser.kind_of(259), PidKind::Pes);
    assert_eq!(parser.kind_of(513), PidKind::Pes);
    assert_eq!(parser.kind_of(256), PidKind::Pmt);
    // A PMT that names the PID of another PMT as a stream, and then no more.
    parser.parse(&program(2, 512, &[256])).unwrap();
    assert_eq!(parser.kind_of(256), PidKind::Pes);
    assert_eq!(parser.kind_of(513), PidKind::Unknown);
    parser.parse(&program(2, 512, &[])).unwrap();
    assert_eq!(parser.kind_of(256), PidKind::Unknown);
    assert_eq!(parser.kind_of(258), PidKind::Pes);
}

#[test]
fn pmt_without_clock_pid_writes_all_ones() {
    let parser = Mpeg2tsParser::new();
    let mut p = pmt();
    p.pcr_pid = None;
    let mut out = Vec::new();
    parser.serialize_pmt(&p, &mut out).unwrap();
    assert_eq!(&out[9..11], &[0xFF, 0xFF]);
    assert_eq!(parser.parse_pmt(&out), Ok(p));
}

#[test]
fn pmt_that_cannot_be_written_is_refused() {
    let parser = Mpeg2tsParser::new();
    let mut out = vec![7];
    let mut p = pmt();
    p.pcr_pid = Some(Pid::new(0x1FFF).unwrap());
    assert_eq!(parser.serialize_pmt(&p, &mut out), Err(Error::TsGeneric));
    let mut p = pmt();
    p.program_info = vec![Descriptor { tag: 1, data: vec![0; 256] }];
    assert_eq!(parser.serialize_pmt(&p, &mut out), Err(Error::TsGeneric));
    let mut p = pmt();
    p.es_info[1].descriptors = (0..5).map(|_| Descriptor { tag: 1, data: vec![0; 250] }).collect();
    assert_eq!(parser.serialize_pmt(&p, &mut out), Err(Error::TsGeneric));
    let mut p = pmt();
    p.es_info = (0..250)
        .map(|_| EsInfo {
            stream_type: StreamType::from_u8(1),
            elementary_pid: Pid::new(300).unwrap(),
            descriptors: vec![],
        })
        .collect();
    assert_eq!(parser.serialize_pmt(&p, &mut out), Err(Error::TsGeneric));
    assert_eq!(out, vec![7]);
}

#[test]
fn pat_with_too_many_entries_is_refused() {
    let parser = Mpeg2tsParser::new();
    let entry = ProgramAssociation { program_num: 1, program_map_pid: Pid::new(256).unwrap() };
    let mut p = pat();
    p.table = vec![entry; 253];
    let mut out = Vec::new();
    assert_eq!(parser.serialize_pat(&p, &mut out), Ok(()));
    assert_eq!(out.len(), 13 + 4 * 253);
    assert_eq!(parser.parse_pat(&out), Ok(p.clone()));
    p.table = vec![entry; 254];
    let mut out = vec![1, 2];
    assert_eq!(parser.serialize_pat(&p, &mut out), Err(Error::TsGeneric));
    assert_eq!(out, vec![1, 2]);
    // A PAT that can be written, but not into one packet.
    p.table = vec![entry; 43];
    let packet =
        TsPacket { header: header(0, 0), adaptation_field: None, payload: Some(TsPayload::Pat(p)) };
    assert_eq!(parser.serialize(&packet, &mut out), Err(Error::TsGeneric));
    assert_eq!(out, vec![1, 2]);
}

#[test]
fn flipped_bit_in_a_table_is_refused() {
    for table in [TsPayload::Pat(pat()), TsPayload::Pmt(pmt())] {
        let pid = if matches!(table, TsPayload::Pat(_)) { 0 } else { 256 };
        let len = table.writable_len();
        let bytes = written(&TsPacket {
            header: header(pid, 0),
            adaptation_field: None,
            payload: Some(table.clone()),
        });
        // Every bit of the section before its checksum, pointer field included.
        for at in (188 - len)..(188 - 4) {
            for bit in 0..8 {
                let mut damaged = bytes.clone();
                damaged[at] ^= 1 << bit;
                let mut parser = Mpeg2tsParser::new();
                parser
                    .parse(&written(&TsPacket {
                        header: header(0, 0),
                        adaptation_field: None,
                        payload: Some(TsPayload::Pat(pat())),
                    }))
                    .unwrap();
                let r = parser.parse(&damaged);
                assert!(r.is_err(), "byte {} bit {}", at, bit);
            }
        }
        // The checksum itself.
        let mut damaged = bytes.clone();
        damaged[187] ^= 1;
        let mut parser = Mpeg2tsParser::new();
        assert_eq!(
            if pid == 0 { parser.parse(&damaged) } else { Err(Error::TsGeneric) },
            Err(Error::TsGeneric)
        );
    }
}

#[test]
fn section_without_tables_is_refused() {
    let parser = Mpeg2tsParser::new();
    assert_eq!(parser.parse_pat(&[0]), Err(Error::PsiTableCountZero));
    assert_eq!(parser.parse_pmt(&[0]), Err(Error::PsiTableCountZero));
    assert_eq!(parser.parse_pat(&[]), Err(Error::TsGeneric));
    assert_eq!(parser.parse_pat(&[1]), Err(Error::TsGeneric));
    assert_eq!(parser.parse_psi(&[0]).unwrap().tables.len(), 0);
    // A packet on PID 0 whose payload is a pointer field alone.
    let mut bytes = vec![0x47, 0x40, 0x00, 0x30, 182, 0];
    bytes.extend(std::iter::repeat(0xFF).take(181));
    bytes.push(0);
    assert_eq!(bytes.len(), 188);
    let mut parser = Mpeg2tsParser::new();
    assert_eq!(parser.parse(&bytes), Err(Error::PsiTableCountZero));
}

#[test]
fn psi_section_holds_tables_and_stops_at_stuffing() {
    let parser = Mpeg2tsParser::new();
    let with_syntax = PsiTable {
        header: PsiTableHeader {
            table_id: 0x42,
            private_bit: true,
            syntax_section_indicator: true,
        },
        syntax: Some(PsiTableSyntax {
            table_id_extension: 0xBEEF,
            version_number: VersionNumber::from_u8(31).unwrap(),
            current_next_indicator: false,
            section_number: 1,
            last_section_number: 2,
            table_data: vec![1, 2, 3],
        }),
    };
    let without = PsiTable {
        header: PsiTableHeader {
            table_id: 0x70,
            private_bit: false,
            syntax_section_indicator: false,
        },
        syntax: None,
    };
    let psi = Psi { tables: vec![with_syntax.clone(), without.clone()] };
    let mut out = Vec::new();
    parser.serialize_psi(&psi, &mut out).unwrap();
    assert_eq!(&out[..4], &[0, 0x42, 0x80 | 0x40 | 0x30, 12]);
    assert_eq!(&out[4..12], &[0xBE, 0xEF, 0xC0 | (31 << 1), 1, 2, 1, 2, 3]);
    assert_eq!(&out[12..16], &crc32(&out[1..12]).to_be_bytes());
    assert_eq!(&out[16..], &[0x70, 0x30, 0x00]);
    assert_eq!(parser.parse_psi(&out), Ok(Psi { tables: vec![with_syntax.clone(), without] }));
    assert_eq!(with_syntax.syntax.as_ref().unwrap().external_size(), 12);
    out.extend([0xFF, 0xFF, 0x12]);
    assert_eq!(parser.parse_psi(&out).unwrap().tables.len(), 2);
    let (table, used) = parser.parse_psi_table(&out[1..]).unwrap();
    assert_eq!(table, with_syntax);
    assert_eq!(used, 15);
    assert_eq!(
        parser.parse_psi_table_header(&out[1..]),
        Ok((with_syntax.header, 12))
    );
}

#[test]
fn table_header_with_wrong_reserved_bits_is_refused() {
    let parser = Mpeg2tsParser::new();
    assert_eq!(parser.parse_psi_table_header(&[0, 0xB0, 13]).unwrap().1, 13);
    assert_eq!(parser.parse_psi_table_header(&[0, 0xA0, 13]), Err(Error::TsGeneric));
    assert_eq!(parser.parse_psi_table_header(&[0, 0xB4, 13]), Err(Error::TsGeneric));
    assert_eq!(parser.parse_psi_table_header(&[0, 0xB3, 0xFE]), Err(Error::TsGeneric));
    assert_eq!(parser.parse_psi_table_header(&[0, 0xB3, 0xFD]).unwrap().1, 1021);
    assert_eq!(parser.parse_psi_table_header(&[0, 0xB0]), Err(Error::TsGeneric));
    let mut out = Vec::new();
    let h = PsiTableHeader { table_id: 0, private_bit: false, syntax_section_indicator: true };
    assert_eq!(parser.serialize_psi_table_header(&h, 1022, &mut out), Err(Error::TsGeneric));
    assert_eq!(parser.serialize_psi_table_header(&h, 1021, &mut out), Ok(()));
    assert_eq!(out, vec![0, 0xB3, 0xFD]);
}

#[test]
fn pid_inside_a_table_needs_its_reserved_bits() {
    let parser = Mpeg2tsParser::new();
    let mut out = Vec::new();
    parser.serialize_pid(&Pid::new(0x1ABC).unwrap(), &mut out);
    assert_eq!(out, vec![0xFA, 0xBC]);
    assert_eq!(parser.parse_pid(&out).unwrap().as_u16(), 0x1ABC);
    assert_eq!(parser.parse_pid(&[0x1A, 0xBC]), Err(Error::TsGeneric));
    assert_eq!(parser.parse_pid(&[0xFA]), Err(Error::TsGeneric));
    let mut out = Vec::new();
    let entry = ProgramAssociation { program_num: 7, program_map_pid: Pid::new(0x101).unwrap() };
    parser.serialize_program_association(&entry, &mut out);
    assert_eq!(out, vec![0, 7, 0xE1, 0x01]);
    assert_eq!(parser.parse_program_association(&out), Ok(entry));
    assert_eq!(entry.writable_len(), 4);
}

#[test]
fn adaptation_field_holds_every_part() {
    let parser = Mpeg2tsParser::new();
    let field = full_adaptation_field();
    assert_eq!(field.external_size(), 2 + 6 + 6 + 1 + 3 + 12);
    let mut out = Vec::new();
    parser.serialize_adaptation_field(&field, 34, &mut out).unwrap();
    assert_eq!(out.len(), 34);
    assert_eq!(out[0], 33);
    assert_eq!(out[1], 0x80 | 0x20 | 0x10 | 0x08 | 0x04 | 0x02 | 0x01);
    // PCR 1_080_301 = base 3601, extension 1.
    assert_eq!(&out[2..8], &[0x00, 0x00, 0x07, 0x08, 0xFE, 0x01]);
    // OPCR 5 = base 0, extension 5.
    assert_eq!(&out[8..14], &[0x00, 0x00, 0x00, 0x00, 0x7E, 0x05]);
    assert_eq!(out[14], 0xFD);
    assert_eq!(&out[15..18], &[2, 0xAB, 0xCD]);
    assert_eq!(&out[18..20], &[11, 0xE0]);
    assert_eq!(&out[20..22], &[0x80 | 0x04, 0xD2]);
    assert_eq!(&out[22..25], &[0x12, 0x34, 0x56]);
    assert_eq!(&out[25..30], &[0x99, 0x00, 0x01, 0x00, 0x03]);
    assert_eq!(&out[30..], &[0xFF; 4]);
    let (read, used) = parser.parse_adaptation_field(&out).unwrap();
    assert_eq!(used, 34);
    assert_eq!(read, Some(field.clone()));
    assert_eq!(parser.parse_adaptation_body(&out[1..]), Ok(field.clone()));
    assert_eq!(parser.parse_adaptation_extension(&out[19..30]), Ok(field.extension.unwrap()));
    let mut short = vec![9];
    assert_eq!(parser.serialize_adaptation_field(&field, 29, &mut short), Err(Error::TsGeneric));
    assert_eq!(short, vec![9]);
}

#[test]
fn adaptation_field_that_is_cut_short_is_refused() {
    let parser = Mpeg2tsParser::new();
    assert_eq!(parser.parse_adaptation_field(&[]), Err(Error::TsGeneric));
    assert_eq!(parser.parse_adaptation_field(&[0, 1, 2]), Ok((None, 1)));
    assert_eq!(parser.parse_adaptation_field(&[2, 0]), Err(Error::TsGeneric));
    // PCR flag, but only five bytes behind the flags.
    assert_eq!(parser.parse_adaptation_field(&[6, 0x10, 0, 0, 0, 0, 0]), Err(Error::TsGeneric));
    // Splice countdown flag without the byte.
    assert_eq!(parser.parse_adaptation_field(&[1, 0x04]), Err(Error::TsGeneric));
    // Private data longer than the field.
    assert_eq!(parser.parse_adaptation_field(&[3, 0x02, 2, 1]), Err(Error::TsGeneric));
    // Extension longer than the field.
    assert_eq!(parser.parse_adaptation_field(&[3, 0x01, 2, 0]), Err(Error::TsGeneric));
    // Seamless splice without its marker bits.
    assert_eq!(
        parser.parse_adaptation_field(&[8, 0x01, 6, 0x20, 0x90, 0, 0, 0, 0]),
        Err(Error::UnexpectedMarkerBit(0))
    );
    let (field, used) = parser.parse_adaptation_field(&[2, 0x40, 0xFF, 7]).unwrap();
    assert_eq!(used, 3);
    assert!(field.unwrap().random_access_indicator);
}

#[test]
fn adaptation_field_with_too_many_private_bytes_is_refused() {
    let parser = Mpeg2tsParser::new();
    let mut field = full_adaptation_field();
    field.transport_private_data = vec![0; 256];
    let mut out = Vec::new();
    assert_eq!(parser.serialize_adaptation_field(&field, 256, &mut out), Err(Error::TsGeneric));
    field.transport_private_data = vec![];
    assert_eq!(parser.serialize_adaptation_field(&field, 257, &mut out), Err(Error::TsGeneric));
    assert_eq!(out.len(), 0);
}

#[test]
fn stuffing_field_fills_the_room() {
    let parser = Mpeg2tsParser::new();
    let mut out = Vec::new();
    parser.serialize_stuffing_field(1, &mut out);
    assert_eq!(out, vec![0]);
    let mut out = Vec::new();
    parser.serialize_stuffing_field(2, &mut out);
    assert_eq!(out, vec![1, 0]);
    let mut out = Vec::new();
    parser.serialize_stuffing_field(5, &mut out);
    assert_eq!(out, vec![4, 0, 0xFF, 0xFF, 0xFF]);
    let mut out = Vec::new();
    parser.serialize_stuffing(&Stuffing(0xFF, 3), &mut out);
    assert_eq!(out, vec![0xFF; 3]);
    assert_eq!(Stuffing(0xFF, 3).writable_len(), 3);
}

#[test]
fn small_fields_are_written_and_read() {
    let parser = Mpeg2tsParser::new();
    let mut out = Vec::new();
    let window = LegalTimeWindow::new(false, 77).unwrap();
    parser.serialize_legal_time_window(&window, &mut out);
    assert_eq!(out, vec![0, 77]);
    assert_eq!(parser.parse_legal_time_window(&out), Ok(window));
    assert_eq!(parser.parse_legal_time_window(&[1]), Err(Error::TsGeneric));
    let mut out = Vec::new();
    let rate = PiecewiseRate::new(0x3F_FFFF).unwrap();
    parser.serialize_piecewise_rate(&rate, &mut out);
    assert_eq!(out, vec![0x3F, 0xFF, 0xFF]);
    assert_eq!(parser.parse_piecewise_rate(&[0xFF, 0xFF, 0xFF]), Ok(rate));
    assert_eq!(parser.parse_piecewise_rate(&[0, 0]), Err(Error::TsGeneric));
    let mut out = Vec::new();
    let splice = SeamlessSplice::new(5, Timestamp::<PtsDts>::new(1).unwrap()).unwrap();
    parser.serialize_seamless_splice(&splice, &mut out);
    assert_eq!(out, vec![0x51, 0x00, 0x01, 0x00, 0x03]);
    assert_eq!(parser.parse_seamless_splice(&out), Ok(splice));
    assert_eq!(parser.parse_seamless_splice(&out[..4]), Err(Error::TsGeneric));
    let mut out = Vec::new();
    let pcr = Timestamp::<Clock<PCR>>::new(600).unwrap();
    parser.serialize_pcr(&pcr, &mut out);
    assert_eq!(out, vec![0, 0, 0, 1, 0x7E, 0]);
    assert_eq!(parser.parse_pcr(&out), Ok(pcr));
    assert_eq!(parser.parse_pcr(&[0, 0, 0, 1, 0, 0]), Ok(pcr));
    assert_eq!(parser.parse_pcr(&out[..5]), Err(Error::TsGeneric));
    let mut out = Vec::new();
    let escr = Timestamp::<Clock<ESCR>>::new(600).unwrap();
    parser.serialize_escr(&escr, &mut out);
    assert_eq!(out, vec![0x04, 0x00, 0x04, 0x00, 0x14, 0x01]);
    assert_eq!(parser.parse_escr(&out), Ok(escr));
    assert_eq!(parser.parse_escr(&[0x44, 0x00, 0x04, 0x00, 0x14, 0x01]), Err(Error::TsGeneric));
    assert_eq!(
        parser.parse_escr(&[0x04, 0x00, 0x04, 0x00, 0x14, 0x00]),
        Err(Error::UnexpectedMarkerBit(0x400_0400_0400))
    );
    let mut out = Vec::new();
    let pts = Timestamp::<PtsDts>::new(0).unwrap();
    parser.serialize_timestamp(&pts, 2, &mut out);
    assert_eq!(out, vec![0x21, 0x00, 0x01, 0x00, 0x01]);
    assert_eq!(parser.parse_timestamp(&out, 2), Ok(pts));
    assert_eq!(
        parser.parse_timestamp(&out, 3),
        Err(Error::UnexpectedMarkerBit(0x20_0000_0000))
    );
    assert_eq!(
        parser.parse_timestamp(&[0x21, 0x00, 0x00, 0x00, 0x01], 2),
        Err(Error::UnexpectedMarkerBit(0x1_0000_0001))
    );
    assert_eq!(parser.parse_timestamp(&out[..4], 2), Err(Error::TsGeneric));
}

#[test]
fn pes_header_holds_flags_and_timestamps() {
    let parser = Mpeg2tsParser::new();
    let h = pes_header();
    assert_eq!(h.optional_header_len(), 19);
    let mut out = Vec::new();
    parser.serialize_pes_header(&h, &mut out).unwrap();
    assert_eq!(out.len(), 6 + 19);
    assert_eq!(&out[..9], &[0, 0, 1, 0xE0, 0, 0, 0x80 | 0x04 | 0x01, 0x80 | 0x40 | 0x20, 16]);
    assert_eq!(out[9] >> 4, 3);
    assert_eq!(out[14] >> 4, 1);
    assert_eq!(parser.parse_pes_header(&out), Ok((h, 25)));
    // Stuffing inside the optional header is passed over.
    let mut stuffed = out.clone();
    stuffed[8] = 18;
    stuffed.extend([0xFF, 0xFF, 1, 2, 3]);
    assert_eq!(parser.parse_pes_header(&stuffed), Ok((h, 27)));
    let pes = parser.parse_pes(&stuffed).unwrap();
    assert_eq!(pes.data.as_slice(), &[1, 2, 3]);
    let mut only_pts = h;
    only_pts.dts = None;
    only_pts.escr = None;
    assert_eq!(only_pts.optional_header_len(), 8);
    let mut out = Vec::new();
    parser.serialize_pes_header(&only_pts, &mut out).unwrap();
    assert_eq!(out.len(), 14);
    assert_eq!(out[7], 0x80);
    assert_eq!(out[8], 5);
    assert_eq!(out[9] >> 4, 2);
    let mut none = only_pts;
    none.pts = None;
    assert_eq!(none.optional_header_len(), 3);
}

#[test]
fn pes_header_that_is_malformed_is_refused() {
    let parser = Mpeg2tsParser::new();
    let mut out = Vec::new();
    parser.serialize_pes_header(&pes_header(), &mut out).unwrap();
    let damaged = |at: usize, value: u8| {
        let mut bytes = out.clone();
        bytes[at] = value;
        parser.parse_pes_header(&bytes)
    };
    assert_eq!(damaged(2, 2), Err(Error::TsGeneric));
    assert_eq!(damaged(6, 0x05), Err(Error::UnexpectedMarkerBit(0)));
    assert_eq!(damaged(6, 0xC5), Err(Error::UnexpectedMarkerBit(0xC0)));
    assert_eq!(damaged(6, 0x95), Err(Error::TsGeneric));
    assert_eq!(damaged(7, 0x40), Err(Error::TsGeneric));
    for flag in [0x10, 0x08, 0x04, 0x02, 0x01] {
        assert_eq!(damaged(7, 0xE0 | flag), Err(Error::TsGeneric));
    }
    assert_eq!(damaged(8, 17), Err(Error::TsGeneric));
    assert_eq!(damaged(8, 15), Err(Error::TsGeneric));
    assert_eq!(damaged(9, out[9] & 0xFE), Err(Error::UnexpectedMarkerBit(0x1_0001)));
    assert_eq!(damaged(9, (out[9] & 0x0F) | 0x20), Err(Error::UnexpectedMarkerBit(0x20_0000_0000)));
    assert_eq!(
        damaged(14, (out[14] & 0x0F) | 0x30),
        Err(Error::UnexpectedMarkerBit(0x30_0000_0000))
    );
    assert_eq!(damaged(24, out[24] & 0xFE), Err(Error::UnexpectedMarkerBit(0x400_0400_0400)));
    assert_eq!(parser.parse_pes_header(&out[..8]), Err(Error::TsGeneric));
    let mut h = pes_header();
    h.pts = None;
    let mut unchanged = vec![3];
    assert_eq!(parser.serialize_pes_header(&h, &mut unchanged), Err(Error::TsGeneric));
    let pes = Pes { header: h, data: RawData::new(&[1]).unwrap() };
    assert_eq!(parser.serialize_pes(&pes, &mut unchanged), Err(Error::TsGeneric));
    assert_eq!(unchanged, vec![3]);
}

#[test]
fn pes_data_ends_with_the_declared_length() {
    let parser = Mpeg2tsParser::new();
    let mut h = pes_header();
    h.dts = None;
    h.escr = None;
    h.packet_len = 8 + 4;
    let pes = Pes { header: h, data: RawData::new(&[1, 2, 3, 4]).unwrap() };
    let mut out = Vec::new();
    parser.serialize_pes(&pes, &mut out).unwrap();
    assert_eq!(out.len(), pes.writable_len());
    assert_eq!(parser.parse_pes(&out), Ok(pes.clone()));
    // Bytes beyond the declared length are not data.
    out.extend([9, 9]);
    assert_eq!(parser.parse_pes(&out), Ok(pes.clone()));
    // A declared length beyond the packet: all that is there.
    out[5] = 200;
    let read = parser.parse_pes(&out).unwrap();
    assert_eq!(read.data.as_slice(), &[1, 2, 3, 4, 9, 9]);
    // A declared length that does not cover the header.
    out[5] = 7;
    assert_eq!(parser.parse_pes(&out), Err(Error::TsGeneric));
    out[5] = 8;
    assert_eq!(parser.parse_pes(&out).unwrap().data.len(), 0);
    // No declared length, more than a packet holds.
    out[5] = 0;
    out.extend([0; 200]);
    assert_eq!(parser.parse_pes(&out), Err(Error::ValueTooLarge(206)));
}

#[test]
fn packet_with_adaptation_field_and_pes_reads_back() {
    let mut h = pes_header();
    h.escr = None;
    let data: Vec<u8> = (0..100).collect();
    let packet = TsPacket {
        header: header(257, 7),
        adaptation_field: Some(full_adaptation_field()),
        payload: Some(TsPayload::Pes(Pes { header: h, data: RawData::new(&data).unwrap() })),
    };
    let bytes = written(&packet);
    assert_eq!(bytes.len(), 188);
    assert_eq!(&bytes[..4], &[0x47, 0x41, 0x01, 0x37]);
    let mut parser = Mpeg2tsParser::new();
    assert_eq!(parser.parse(&bytes), Err(Error::UnknownPid(257)));
    parser.parse(&written(&TsPacket {
        header: header(0, 0),
        adaptation_field: None,
        payload: Some(TsPayload::Pat(pat())),
    })).unwrap();
    parser.parse(&written(&TsPacket {
        header: header(256, 0),
        adaptation_field: None,
        payload: Some(TsPayload::Pmt(pmt())),
    })).unwrap();
    let read = parser.parse(&bytes).unwrap();
    assert_eq!(read.adaptation_field, packet.adaptation_field);
    assert_eq!(read.payload, packet.payload);
    assert_eq!(read.header.continuity_counter.as_u8(), 7);
    assert!(read.header.payload_unit_start_indicator);
}

#[test]
fn raw_packet_fills_all_184_bytes() {
    let data: Vec<u8> = (0..184).map(|x| x as u8).collect();
    let packet = TsPacket {
        header: header(257, 15),
        adaptation_field: None,
        payload: Some(TsPayload::Raw(RawData::new(&data).unwrap())),
    };
    let bytes = written(&packet);
    assert_eq!(&bytes[..4], &[0x47, 0x01, 0x01, 0x1F]);
    assert_eq!(&bytes[4..], &data[..]);
    // One byte less: a stuffing field of one byte.
    let packet = TsPacket {
        header: header(257, 15),
        adaptation_field: None,
        payload: Some(TsPayload::Raw(RawData::new(&data[..183]).unwrap())),
    };
    let bytes = written(&packet);
    assert_eq!(&bytes[..5], &[0x47, 0x01, 0x01, 0x3F, 0]);
    assert_eq!(&bytes[5..], &data[..183]);
    // Two bytes less: length byte and flags byte.
    let packet = TsPacket {
        header: header(257, 15),
        adaptation_field: None,
        payload: Some(TsPayload::Raw(RawData::new(&data[..182]).unwrap())),
    };
    let bytes = written(&packet);
    assert_eq!(&bytes[..6], &[0x47, 0x01, 0x01, 0x3F, 1, 0]);
    assert_eq!(&bytes[6..], &data[..182]);
}

#[test]
fn packets_on_special_pids_are_read_without_tables() {
    let mut parser = Mpeg2tsParser::new();
    let data: Vec<u8> = vec![5; 184];
    for pid in [0x0001u16, 0x001F, 0x1FFB] {
        let packet = TsPacket {
            header: header(pid, 0),
            adaptation_field: None,
            payload: Some(TsPayload::Raw(RawData::new(&data).unwrap())),
        };
        assert_eq!(parser.parse(&written(&packet)).unwrap().payload, packet.payload);
    }
    let null = TsPacket {
        header: header(0x1FFF, 0),
        adaptation_field: None,
        payload: Some(TsPayload::Null(Null)),
    };
    let bytes = written(&null);
    assert_eq!(&bytes[..6], &[0x47, 0x1F, 0xFF, 0x30, 183, 0]);
    assert_eq!(parser.parse(&bytes).unwrap().payload, Some(TsPayload::Null(Null)));
    let packet = TsPacket {
        header: header(0x0020, 0),
        adaptation_field: None,
        payload: Some(TsPayload::Raw(RawData::new(&data).unwrap())),
    };
    assert_eq!(parser.parse(&written(&packet)), Err(Error::UnknownPid(0x20)));
    assert_eq!(Null.writable_len(), 0);
}

#[test]
fn packet_without_payload_is_an_adaptation_field_alone() {
    let mut field = full_adaptation_field();
    field.extension = None;
    let packet = TsPacket { header: header(300, 1), adaptation_field: Some(field), payload: None };
    let bytes = written(&packet);
    assert_eq!(&bytes[..5], &[0x47, 0x01, 0x2C, 0x21, 183]);
    let mut parser = Mpeg2tsParser::new();
    let read = parser.parse(&bytes).unwrap();
    assert_eq!(read.payload, None);
    assert_eq!(read.adaptation_field, packet.adaptation_field);
    let empty = TsPacket { header: header(300, 1), adaptation_field: None, payload: None };
    let bytes = written(&empty);
    assert_eq!(&bytes[..6], &[0x47, 0x01, 0x2C, 0x21, 183, 0]);
    assert!(bytes[6..].iter().all(|b| *b == 0xFF));
}

#[test]
fn packet_that_contradicts_its_header_is_refused() {
    let parser = Mpeg2tsParser::new();
    let mut out = vec![1];
    let mut h = header(257, 0);
    h.adaptation_field_control = AdaptationFieldControl::AdaptationFieldOnly;
    let packet = TsPacket {
        header: h,
        adaptation_field: None,
        payload: Some(TsPayload::Raw(RawData::new(&[1]).unwrap())),
    };
    assert_eq!(parser.serialize(&packet, &mut out), Err(Error::TsGeneric));
    let mut h = header(257, 0);
    h.adaptation_field_control = AdaptationFieldControl::Reserved;
    let packet = TsPacket {
        header: h,
        adaptation_field: None,
        payload: Some(TsPayload::Raw(RawData::new(&[]).unwrap())),
    };
    assert_eq!(parser.serialize(&packet, &mut out), Err(Error::TsGeneric));
    let mut h = header(257, 0);
    h.transport_scrambling_control = TransportScramblingControl::Unknown(5);
    let packet = TsPacket { header: h, adaptation_field: None, payload: None };
    assert_eq!(parser.serialize(&packet, &mut out), Err(Error::TsGeneric));
    // An adaptation field that leaves no room for the payload.
    let packet = TsPacket {
        header: header(257, 0),
        adaptation_field: Some(full_adaptation_field()),
        payload: Some(TsPayload::Raw(RawData::new(&[0; 160]).unwrap())),
    };
    assert_eq!(parser.serialize(&packet, &mut out), Err(Error::TsGeneric));
    assert_eq!(out, vec![1]);
}

#[test]
fn packet_with_reserved_control_is_refused() {
    let mut parser = Mpeg2tsParser::new();
    let mut bytes = vec![0x47, 0x1F, 0xFF, 0x00];
    bytes.extend([0u8; 184]);
    assert_eq!(parser.parse(&bytes), Err(Error::TsGeneric));
    assert_eq!(parser.parse(&bytes[..187]), Err(Error::TsGeneric));
    bytes.push(0);
    assert_eq!(parser.parse(&bytes), Err(Error::TsGeneric));
}

#[test]
fn section_payload_is_pointer_and_data() {
    let parser = Mpeg2tsParser::new();
    let section = Section { pointer_field: 3, data: RawData::new(&[1, 2]).unwrap() };
    let mut out = Vec::new();
    parser.serialize_section(&section, &mut out);
    assert_eq!(out, vec![3, 1, 2]);
    assert_eq!(section.writable_len(), 3);
    let packet = TsPacket {
        header: header(300, 0),
        adaptation_field: None,
        payload: Some(TsPayload::Section(section)),
    };
    let bytes = written(&packet);
    assert_eq!(bytes[1], 0x41);
    assert_eq!(&bytes[185..], &[3, 1, 2]);
}

#[test]
fn descriptors_are_read_one_after_the_other() {
    let parser = Mpeg2tsParser::new();
    let d = Descriptor { tag: 9, data: vec![1, 2] };
    let mut out = Vec::new();
    parser.serialize_descriptor(&d, &mut out).unwrap();
    parser.serialize_descriptor(&Descriptor { tag: 10, data: vec![] }, &mut out).unwrap();
    assert_eq!(out, vec![9, 2, 1, 2, 10, 0]);
    assert_eq!(
        parser.parse_descriptors(&out),
        Ok(vec![d, Descriptor { tag: 10, data: vec![] }])
    );
    assert_eq!(parser.parse_descriptors(&[]), Ok(vec![]));
    assert_eq!(parser.parse_descriptors(&[9]), Err(Error::TsGeneric));
    assert_eq!(parser.parse_descriptors(&[9, 2, 1]), Err(Error::TsGeneric));
    let es = EsInfo {
        stream_type: StreamType::from_u8(0x24),
        elementary_pid: Pid::new(257).unwrap(),
        descriptors: vec![Descriptor { tag: 9, data: vec![1, 2] }],
    };
    let mut out = Vec::new();
    parser.serialize_es_info(&es, &mut out).unwrap();
    assert_eq!(out, vec![0x24, 0xE1, 0x01, 0xF0, 0x04, 9, 2, 1, 2]);
    assert_eq!(parser.parse_es_info(&out), Ok((es, 9)));
    assert_eq!(parser.parse_es_info(&[0x24, 0xE1, 0x01, 0xE0, 0x00]), Err(Error::TsGeneric));
    assert_eq!(parser.parse_es_info(&[0x24, 0xE1, 0x01, 0xF4, 0x00]), Err(Error::TsGeneric));
    assert_eq!(parser.parse_es_info(&[0x24, 0x01, 0x01, 0xF0, 0x00]), Err(Error::TsGeneric));
    assert_eq!(parser.parse_es_info(&[0x24, 0xE1, 0x01, 0xF0, 0x01]), Err(Error::TsGeneric));
}
