//! Writing whole packets.
use super::{bit_of, Mpeg2tsParser};
use crate::error::Error;
use crate::mpegts::ts::adaptation_field::AdaptationFieldControl;
use crate::mpegts::ts::packet::{
    packet_adaptation_bytes, packet_free_len, packet_payload_bytes, payload_bytes, payload_writable,
    ts_header_bytes, ts_packet_bytes, ts_packet_writable, written_header,
};
use crate::mpegts::continuity_counter::ContinuityCounter;
use crate::mpegts::pid::{forget, kind_in, learn, streams_of, Pid, PidKind};
use crate::mpegts::ts::packet::{
    packet_adaptation_spec, parse_payload_spec, parse_raw_spec, parse_ts_header_spec,
    parse_ts_packet_spec, table_after, TransportScramblingControl,
};
use crate::mpegts::ts::pat::ProgramAssociationView;
use crate::mpegts::ts::pmt::EsInfoView;
use crate::mpegts::ts::packet::TsPayloadView;
use crate::mpegts::ts::{AdaptationField, Pat, Pmt, TsHeader, TsPacket, TsPayload};
use crate::mpegts::wire::put_slice;
use crate::mpegts::{reads_as, test_bit, view_of};
use vstd::slice::slice_subrange;
use vstd::prelude::*;

verus! {

impl Mpeg2tsParser {
    /// Writes the four bytes of a packet header. Nothing is written where
    /// one of the two controls does not fit its two bits.
    pub fn serialize_ts_header(&self, item: &TsHeader, output: &mut Vec<u8>) -> (r: Result<
        (),
        Error,
    >)
        ensures
            ({
                let ok = item@.transport_scrambling_control.bits() <= 3
                    && item@.adaptation_field_control.bits() <= 3;
                &&& ok ==> r is Ok && final(output)@ == old(output)@ + ts_header_bytes(item@)
                &&& !ok ==> r == Err::<(), Error>(Error::TsGeneric)
                    && final(output)@ == old(output)@
            }),
    {
        let scrambling: u8 = item.transport_scrambling_control.as_u8();
        let control: u8 = item.adaptation_field_control.as_u8();
        if scrambling > 3 || control > 3 {
            return Err(Error::TsGeneric);
        }
        let pid: u16 = item.pid.as_u16();
        output.push(TsPacket::SYNC_BYTE);
        output.push(
            bit_of(item.transport_error_indicator) * 0x80 + bit_of(
                item.payload_unit_start_indicator,
            ) * 0x40 + bit_of(item.transport_priority) * 0x20 + (pid / 0x100) as u8,
        );
        output.push((pid % 0x100) as u8);
        output.push(scrambling * 0x40 + control * 0x10 + item.continuity_counter.as_u8());
        assert(output@ =~= old(output)@ + ts_header_bytes(item@));
        Ok(())
    }

    /// Writes a payload. Nothing is written where the payload cannot be
    /// written.
    pub fn serialize_payload(&self, item: &TsPayload, output: &mut Vec<u8>) -> (r: Result<
        (),
        Error,
    >)
        ensures
            payload_writable(item@) ==> r is Ok && final(output)@ == old(output)@
                + payload_bytes(item@),
            !payload_writable(item@) ==> r == Err::<(), Error>(Error::TsGeneric)
                && final(output)@ == old(output)@,
    {
        match item {
            TsPayload::Pat(pat) => self.serialize_pat(pat, output),
            TsPayload::Pmt(pmt) => self.serialize_pmt(pmt, output),
            TsPayload::Pes(pes) => self.serialize_pes(pes, output),
            TsPayload::Section(section) => {
                self.serialize_section(section, output);
                Ok(())
            },
            TsPayload::Null(null) => {
                self.serialize_null(null, output);
                assert(output@ =~= old(output)@ + payload_bytes(item@));
                Ok(())
            },
            TsPayload::Raw(raw_data) => {
                self.serialize_raw_data(raw_data, output);
                Ok(())
            },
        }
    }

    /// The payload bytes of a packet, where they can be written and fit
    /// behind the header.
    fn packet_payload(&self, item: &TsPacket) -> (r: Result<Vec<u8>, Error>)
        ensures
            ({
                let ok = (match item@.payload {
                    Some(x) => payload_writable(x),
                    None => true,
                }) && packet_payload_bytes(item@).len() <= TsPacket::SIZE - 4;
                &&& ok ==> (r matches Ok(bytes) && bytes@ == packet_payload_bytes(item@))
                &&& !ok ==> r == Err::<Vec<u8>, Error>(Error::TsGeneric)
            }),
    {
        let mut payload: Vec<u8> = Vec::new();
        match &item.payload {
            Some(p) => {
                match self.serialize_payload(p, &mut payload) {
                    Ok(()) => {},
                    Err(e) => {
                        return Err(e);
                    },
                }
                assert(payload@ =~= packet_payload_bytes(item@));
            },
            None => {},
        }
        if payload.len() > TsPacket::SIZE - 4 {
            return Err(Error::TsGeneric);
        }
        Ok(payload)
    }

    /// The bytes between the header and a payload of `payload_len` bytes,
    /// where the adaptation field fits the room that the payload leaves.
    fn packet_adaptation(&self, item: &TsPacket, payload_len: usize) -> (r: Result<
        Vec<u8>,
        Error,
    >)
        requires
            payload_len == packet_payload_bytes(item@).len(),
            payload_len <= TsPacket::SIZE - 4,
        ensures
            ({
                let ok = match item@.adaptation_field {
                    Some(a) => crate::mpegts::ts::adaptation_field::adaptation_field_fits(
                        a,
                        packet_free_len(item@),
                    ),
                    None => true,
                };
                &&& ok ==> (r matches Ok(bytes) && bytes@ == packet_adaptation_bytes(item@))
                &&& !ok ==> r == Err::<Vec<u8>, Error>(Error::TsGeneric)
            }),
    {
        let free_len: usize = TsPacket::SIZE - 4 - payload_len;
        let mut field: Vec<u8> = Vec::new();
        match &item.adaptation_field {
            Some(a) => {
                match self.serialize_adaptation_field(a, free_len, &mut field) {
                    Ok(()) => {},
                    Err(e) => {
                        return Err(e);
                    },
                }
                assert(field@ =~= packet_adaptation_bytes(item@));
            },
            None => {
                if free_len > 0 {
                    self.serialize_stuffing_field(free_len, &mut field);
                }
                assert(field@ =~= packet_adaptation_bytes(item@));
            },
        }
        Ok(field)
    }

    /// Writes a packet: its header with the adaptation field control and
    /// the start indicator that follow from what the packet holds, its
    /// adaptation field stretched over the room that the payload leaves (or
    /// a field of stuffing, where it has none and there is room), and its
    /// payload. Nothing is written where the packet cannot be written.
    pub fn serialize(&self, item: &TsPacket, output: &mut Vec<u8>) -> (r: Result<(), Error>)
        ensures
            ts_packet_writable(item@) ==> r is Ok && final(output)@ == old(output)@
                + ts_packet_bytes(item@),
            !ts_packet_writable(item@) ==> r == Err::<(), Error>(Error::TsGeneric)
                && final(output)@ == old(output)@,
    {
        if item.header.transport_scrambling_control.as_u8() > 3 {
            return Err(Error::TsGeneric);
        }
        let payload = match self.packet_payload(item) {
            Ok(bytes) => bytes,
            Err(e) => {
                return Err(e);
            },
        };
        let field = match self.packet_adaptation(item, payload.len()) {
            Ok(bytes) => bytes,
            Err(e) => {
                return Err(e);
            },
        };
        let agrees: bool = match item.header.adaptation_field_control {
            AdaptationFieldControl::AdaptationFieldOnly => payload.len() == 0,
            AdaptationFieldControl::Reserved => item.payload.is_none(),
            _ => true,
        };
        if !agrees {
            return Err(Error::TsGeneric);
        }
        let free_len: usize = TsPacket::SIZE - 4 - payload.len();
        let adaptation_field_control = if item.adaptation_field.is_some() || free_len > 0 {
            if item.payload.is_some() {
                AdaptationFieldControl::AdaptationFieldAndPayload
            } else {
                AdaptationFieldControl::AdaptationFieldOnly
            }
        } else {
            AdaptationFieldControl::PayloadOnly
        };
        let payload_unit_start_indicator: bool = match &item.payload {
            Some(TsPayload::Raw(_)) => false,
            Some(TsPayload::Null(_)) => false,
            None => false,
            _ => true,
        };
        let header = TsHeader {
            transport_error_indicator: item.header.transport_error_indicator,
            transport_priority: item.header.transport_priority,
            pid: item.header.pid,
            transport_scrambling_control: item.header.transport_scrambling_control,
            continuity_counter: item.header.continuity_counter,
            adaptation_field_control,
            payload_unit_start_indicator,
        };
        assert(header@ == written_header(item@));
        match self.serialize_ts_header(&header, output) {
            Ok(()) => {},
            Err(e) => {
                return Err(e);
            },
        }
        put_slice(output, field.as_slice());
        put_slice(output, payload.as_slice());
        assert(output@ =~= old(output)@ + ts_packet_bytes(item@));
        Ok(())
    }

    /// Reads the header of a packet from the first four bytes.
    pub fn parse_ts_header(&self, input: &[u8]) -> (r: Result<TsHeader, Error>)
        ensures
            reads_as(r, parse_ts_header_spec(input@)),
    {
        if input.len() < 4 {
            return Err(Error::TsGeneric);
        }
        if input[0] != TsPacket::SYNC_BYTE {
            return Err(Error::WrogSyncByte);
        }
        let b1: u8 = input[1];
        let b3: u8 = input[3];
        let pid = match Pid::new((b1 % 0x20) as u16 * 0x100 + input[2] as u16) {
            Ok(pid) => pid,
            Err(e) => {
                return Err(e);
            },
        };
        let continuity_counter = match ContinuityCounter::from_u8(b3 % 0x10) {
            Ok(c) => c,
            Err(e) => {
                return Err(e);
            },
        };
        Ok(
            TsHeader {
                transport_error_indicator: test_bit(b1, 0x80),
                transport_priority: test_bit(b1, 0x20),
                pid,
                transport_scrambling_control: TransportScramblingControl::from_u8(b3 / 0x40),
                continuity_counter,
                adaptation_field_control: AdaptationFieldControl::from_u8((b3 / 0x10) % 4),
                payload_unit_start_indicator: test_bit(b1, 0x40),
            },
        )
    }

    /// Reads raw bytes as the payload of a packet.
    fn parse_raw(&self, input: &[u8]) -> (r: Result<TsPayload, Error>)
        ensures
            reads_as(r, parse_raw_spec(input@)),
    {
        match self.parse_raw_data(input) {
            Ok(d) => Ok(TsPayload::Raw(d)),
            Err(e) => Err(e),
        }
    }

    /// What the parser knows of a PID.
    pub fn kind_of(&self, pid: u16) -> (r: PidKind)
        ensures
            r == kind_in(self@.pids, pid),
    {
        broadcast use vstd::std_specs::hash::group_hash_axioms;

        if pid == Pid::PAT {
            return PidKind::Pat;
        }
        match self.pids.get(&pid) {
            Some(kind) => *kind,
            None => PidKind::Unknown,
        }
    }

    /// Reads the payload of a packet, given its header: what the PID
    /// carries decides how the bytes are read.
    pub fn parse_payload(&self, header: &TsHeader, input: &[u8]) -> (r: Result<TsPayload, Error>)
        ensures
            reads_as(r, parse_payload_spec(self@.pids, header@, input@)),
    {
        let pid: u16 = header.pid.as_u16();
        if pid == Pid::PAT {
            return match self.parse_pat(input) {
                Ok(pat) => Ok(TsPayload::Pat(pat)),
                Err(e) => Err(e),
            };
        }
        if pid == Pid::NULL {
            return Ok(TsPayload::Null(self.parse_null(input)));
        }
        if (0x0001 <= pid && pid <= 0x001F) || pid == 0x1FFB {
            return self.parse_raw(input);
        }
        match self.kind_of(pid) {
            PidKind::Pmt => match self.parse_pmt(input) {
                Ok(pmt) => Ok(TsPayload::Pmt(pmt)),
                Err(e) => Err(e),
            },
            PidKind::Pes => {
                if header.payload_unit_start_indicator {
                    match self.parse_pes(input) {
                        Ok(pes) => Ok(TsPayload::Pes(pes)),
                        Err(e) => Err(e),
                    }
                } else {
                    self.parse_raw(input)
                }
            },
            _ => Err(Error::UnknownPid(pid)),
        }
    }

    /// Learns that the PIDs of the entries of a PAT carry PMTs.
    fn learn_pat(&mut self, pat: &Pat)
        ensures
            final(self)@ == table_after(old(self)@, Some(TsPayloadView::Pat(pat@))),
    {
        broadcast use vstd::std_specs::hash::group_hash_axioms;

        let ghost keys = pat@.table.map_values(|a: ProgramAssociationView| a.program_map_pid);
        let mut i: usize = 0;
        while i < pat.table.len()
            invariant
                i <= pat.table@.len(),
                keys == pat@.table.map_values(|a: ProgramAssociationView| a.program_map_pid),
                keys.len() == pat.table@.len(),
                self.pids@ == learn(old(self).pids@, keys.take(i as int), PidKind::Pmt),
                self.programs == old(self).programs,
            decreases pat.table@.len() - i,
        {
            proof {
                let next = keys.take(i as int + 1);
                assert(next.drop_last() =~= keys.take(i as int));
                assert(next.last() == pat.table@[i as int]@.program_map_pid);
            }
            self.pids.insert(pat.table[i].program_map_pid.as_u16(), PidKind::Pmt);
            i += 1;
        }
        assert(keys.take(i as int) =~= keys);
    }

    /// Forgets those of `keys` that carry elementary streams.
    fn forget_streams(&mut self, keys: &Vec<u16>)
        ensures
            final(self).pids@ == forget(old(self).pids@, keys@),
            final(self).programs == old(self).programs,
    {
        broadcast use vstd::std_specs::hash::group_hash_axioms;

        let mut i: usize = 0;
        while i < keys.len()
            invariant
                i <= keys@.len(),
                self.pids@ == forget(old(self).pids@, keys@.take(i as int)),
                self.programs == old(self).programs,
            decreases keys@.len() - i,
        {
            proof {
                let next = keys@.take(i as int + 1);
                assert(next.drop_last() =~= keys@.take(i as int));
                assert(next.last() == keys@[i as int]);
            }
            let pid: u16 = keys[i];
            let carries_stream: bool = match self.pids.get(&pid) {
                Some(PidKind::Pes) => true,
                _ => false,
            };
            if carries_stream {
                self.pids.remove(&pid);
            }
            i += 1;
        }
        assert(keys@.take(i as int) =~= keys@);
    }

    /// The PIDs of the elementary streams of a PMT.
    fn stream_pids(pmt: &Pmt) -> (r: Vec<u16>)
        ensures
            r@ == pmt@.es_info.map_values(|e: EsInfoView| e.elementary_pid),
    {
        let mut list: Vec<u16> = Vec::new();
        let mut i: usize = 0;
        while i < pmt.es_info.len()
            invariant
                i <= pmt.es_info@.len(),
                list@ =~= pmt@.es_info.map_values(|e: EsInfoView| e.elementary_pid).take(i as int),
            decreases pmt.es_info@.len() - i,
        {
            list.push(pmt.es_info[i].elementary_pid.as_u16());
            i += 1;
        }
        list
    }

    /// The elementary streams that the last PMT of a program named.
    fn streams_of_program(&self, program_num: u16) -> (r: Vec<u16>)
        ensures
            r@ == streams_of(self@.programs, program_num),
    {
        broadcast use vstd::std_specs::hash::group_hash_axioms;

        match self.programs.get(&program_num) {
            Some(list) => crate::mpegts::wire::copy_pids(list),
            None => Vec::new(),
        }
    }

    /// Learns that the PIDs of a list carry PES packets.
    fn learn_streams(&mut self, keys: &Vec<u16>)
        ensures
            final(self).pids@ == learn(old(self).pids@, keys@, PidKind::Pes),
            final(self).programs == old(self).programs,
    {
        broadcast use vstd::std_specs::hash::group_hash_axioms;

        let mut i: usize = 0;
        while i < keys.len()
            invariant
                i <= keys@.len(),
                self.pids@ == learn(old(self).pids@, keys@.take(i as int), PidKind::Pes),
                self.programs == old(self).programs,
            decreases keys@.len() - i,
        {
            proof {
                let next = keys@.take(i as int + 1);
                assert(next.drop_last() =~= keys@.take(i as int));
                assert(next.last() == keys@[i as int]);
            }
            self.pids.insert(keys[i], PidKind::Pes);
            i += 1;
        }
        assert(keys@.take(i as int) =~= keys@);
    }

    /// Learns that the PIDs of the elementary streams of a PMT carry PES
    /// packets, in place of those that the last PMT of the program named.
    fn learn_pmt(&mut self, pmt: &Pmt)
        ensures
            final(self)@ == table_after(old(self)@, Some(TsPayloadView::Pmt(pmt@))),
    {
        broadcast use vstd::std_specs::hash::group_hash_axioms;

        let before = self.streams_of_program(pmt.program_num);
        self.forget_streams(&before);
        let streams = Self::stream_pids(pmt);
        self.learn_streams(&streams);
        let ghost programs = self.programs@.map_values(|v: Vec<u16>| v@);
        self.programs.insert(pmt.program_num, streams);
        assert(self.programs@.map_values(|v: Vec<u16>| v@) =~= programs.insert(
            pmt@.program_num,
            pmt@.es_info.map_values(|e: EsInfoView| e.elementary_pid),
        ));
    }

    /// Learns what the payload of a packet teaches about PIDs.
    fn learn_from(&mut self, payload: &TsPayload)
        ensures
            final(self)@ == table_after(old(self)@, Some(payload@)),
    {
        match payload {
            TsPayload::Pat(pat) => self.learn_pat(pat),
            TsPayload::Pmt(pmt) => self.learn_pmt(pmt),
            _ => {},
        }
    }

    /// Reads the adaptation field of a packet, where its header announces
    /// one, and tells where the payload starts.
    fn parse_packet_adaptation(&self, header: &TsHeader, input: &[u8]) -> (r: Result<
        (Option<AdaptationField>, usize),
        Error,
    >)
        requires
            input@.len() == TsPacket::SIZE,
        ensures
            match packet_adaptation_spec(header@, input@) {
                Ok((v, start)) => r matches Ok((a, n)) && view_of(a) == v && n == start && 4 <= n
                    <= input@.len(),
                Err(e) => r == Err::<(Option<AdaptationField>, usize), Error>(e),
            },
    {
        if header.adaptation_field_control.has_adaptation_field() {
            assert(input@.subrange(4, input@.len() as int) =~= input@.skip(4));
            match self.parse_adaptation_field(slice_subrange(input, 4, input.len())) {
                Ok((a, used)) => Ok((a, 4 + used)),
                Err(e) => Err(e),
            }
        } else {
            Ok((None, 4))
        }
    }

    /// Reads a packet from its 188 bytes, and learns from a PAT or a PMT in
    /// it which PIDs carry what. Where the packet is refused, nothing is
    /// learned.
    pub fn parse(&mut self, input: &[u8]) -> (r: Result<TsPacket, Error>)
        ensures
            match parse_ts_packet_spec(old(self)@.pids, input@) {
                Ok(v) => r matches Ok(p) && p@ == v && final(self)@ == table_after(
                    old(self)@,
                    v.payload,
                ),
                Err(e) => r == Err::<TsPacket, Error>(e) && final(self)@ == old(self)@,
            },
    {
        if input.len() != TsPacket::SIZE {
            return Err(Error::TsGeneric);
        }
        let header = match self.parse_ts_header(input) {
            Ok(h) => h,
            Err(e) => {
                return Err(e);
            },
        };
        let control = header.adaptation_field_control;
        if !control.has_adaptation_field() && !control.has_payload() {
            return Err(Error::TsGeneric);
        }
        let (adaptation_field, start) = match self.parse_packet_adaptation(&header, input) {
            Ok(x) => x,
            Err(e) => {
                return Err(e);
            },
        };
        if !control.has_payload() {
            return Ok(TsPacket { header, adaptation_field, payload: None });
        }
        assert(input@.subrange(start as int, input@.len() as int) =~= input@.skip(start as int));
        let payload = match self.parse_payload(
            &header,
            slice_subrange(input, start, input.len()),
        ) {
            Ok(p) => p,
            Err(e) => {
                return Err(e);
            },
        };
        self.learn_from(&payload);
        Ok(TsPacket { header, adaptation_field, payload: Some(payload) })
    }
}

} // verus!
