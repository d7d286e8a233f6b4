//! Writing PES headers and PES payloads.
use super::{bit_of, Mpeg2tsParser};
use crate::error::Error;
use crate::mpegts::ts::pes::{
    escr_part, pes_bytes, pes_fixed_bytes, pes_header_bytes, pes_header_writable,
    pes_property_flags, pes_timestamp_flags, pes_timestamps_bytes, pts_tag, timestamp_part,
    PACKET_START_CODE_PREFIX,
};

use crate::mpegts::stream_id::StreamId;
use crate::mpegts::timestamp::{Clock, PtsDts, Timestamp, ESCR};
use crate::mpegts::ts::pes::{
    escr_at, parse_pes_header_spec, parse_pes_spec, parse_pes_timestamps_spec, pes_fixed_error,
    timestamp_at,
};
use crate::mpegts::ts::{Pes, PesHeader};
use crate::mpegts::wire::{get_u16, get_u24, put_u16, put_u24};
use crate::mpegts::{reads_as, test_bit, view_of};
use vstd::slice::slice_subrange;
use vstd::prelude::*;

verus! {

impl Mpeg2tsParser {
    /// Writes the timestamps of a PES header that are present.
    fn serialize_pes_timestamps(&self, item: &PesHeader, output: &mut Vec<u8>)
        ensures
            final(output)@ == old(output)@ + pes_timestamps_bytes(item@),
    {
        match item.pts {
            Some(x) => {
                let check_bits: u8 = if item.dts.is_some() {
                    3
                } else {
                    2
                };
                self.serialize_timestamp(&x, check_bits, output);
            },
            None => {},
        }
        let ghost after_pts = output@;
        assert(after_pts =~= old(output)@ + timestamp_part(item@.pts, pts_tag(item@)));
        match item.dts {
            Some(x) => self.serialize_timestamp(&x, 1, output),
            None => {},
        }
        let ghost after_dts = output@;
        assert(after_dts =~= after_pts + timestamp_part(item@.dts, 1));
        match item.escr {
            Some(x) => self.serialize_escr(&x, output),
            None => {},
        }
        assert(output@ =~= after_dts + escr_part(item@.escr));
        assert(output@ =~= old(output)@ + pes_timestamps_bytes(item@));
    }

    /// The first flags byte of a PES header.
    fn property_flags_byte(item: &PesHeader) -> (r: u8)
        ensures
            r == pes_property_flags(item@),
    {
        0x80 + bit_of(item.priority) * 0x08 + bit_of(item.data_alignment_indicator) * 0x04
            + bit_of(item.copyright) * 0x02 + bit_of(item.original_or_copy)
    }

    /// The second flags byte of a PES header.
    fn timestamp_flags_byte(item: &PesHeader) -> (r: u8)
        ensures
            r == pes_timestamp_flags(item@),
    {
        bit_of(item.pts.is_some()) * 0x80 + bit_of(item.dts.is_some()) * 0x40 + bit_of(
            item.escr.is_some(),
        ) * 0x20
    }

    /// Writes the nine fixed bytes of a PES header.
    fn serialize_pes_fixed(&self, item: &PesHeader, output: &mut Vec<u8>)
        ensures
            final(output)@ == old(output)@ + pes_fixed_bytes(item@),
    {
        put_u24(output, PACKET_START_CODE_PREFIX as u32);
        output.push(item.stream_id.as_u8());
        put_u16(output, item.packet_len);
        output.push(Self::property_flags_byte(item));
        output.push(Self::timestamp_flags_byte(item));
        let pes_header_len: u8 = (item.optional_header_len() - 3) as u8;
        output.push(pes_header_len);
        assert(output@ =~= old(output)@ + pes_fixed_bytes(item@));
    }

    /// Writes a PES header. Nothing is written where it has a DTS without a
    /// PTS.
    pub fn serialize_pes_header(&self, item: &PesHeader, output: &mut Vec<u8>) -> (r: Result<
        (),
        Error,
    >)
        ensures
            pes_header_writable(item@) ==> r is Ok && final(output)@ == old(output)@
                + pes_header_bytes(item@),
            !pes_header_writable(item@) ==> r == Err::<(), Error>(Error::TsGeneric)
                && final(output)@ == old(output)@,
    {
        if item.dts.is_some() && item.pts.is_none() {
            return Err(Error::TsGeneric);
        }
        self.serialize_pes_fixed(item, output);
        self.serialize_pes_timestamps(item, output);
        assert(output@ =~= old(output)@ + pes_header_bytes(item@));
        Ok(())
    }

    /// Writes the payload of a packet that starts a PES packet: the header,
    /// then the data. Nothing is written where the header cannot be written.
    pub fn serialize_pes(&self, item: &Pes, output: &mut Vec<u8>) -> (r: Result<(), Error>)
        ensures
            pes_header_writable(item@.header) ==> r is Ok && final(output)@ == old(output)@
                + pes_bytes(item@),
            !pes_header_writable(item@.header) ==> r == Err::<(), Error>(Error::TsGeneric)
                && final(output)@ == old(output)@,
    {
        match self.serialize_pes_header(&item.header, output) {
            Ok(()) => {},
            Err(e) => {
                return Err(e);
            },
        }
        self.serialize_raw_data(&item.data, output);
        assert(output@ =~= old(output)@ + pes_bytes(item@));
        Ok(())
    }

    /// Reads the PTS or DTS at `at`, where one is present.
    fn read_timestamp(&self, input: &[u8], at: usize, present: bool, check_bits: u8) -> (r: Result<
        (Option<Timestamp<PtsDts>>, usize),
        Error,
    >)
        requires
            at <= input@.len(),
        ensures
            match timestamp_at(input@, at as int, present, check_bits) {
                Ok((v, next)) => r matches Ok((t, n)) && view_of(t) == v && n == next && n
                    <= input@.len(),
                Err(e) => r == Err::<(Option<Timestamp<PtsDts>>, usize), Error>(e),
            },
    {
        if !present {
            return Ok((None, at));
        }
        if input.len() - at < 5 {
            return Err(Error::TsGeneric);
        }
        match self.parse_timestamp(slice_subrange(input, at, at + 5), check_bits) {
            Ok(t) => Ok((Some(t), at + 5)),
            Err(e) => Err(e),
        }
    }

    /// Reads the elementary stream clock reference at `at`, where one is
    /// present.
    fn read_escr(&self, input: &[u8], at: usize, present: bool) -> (r: Result<
        (Option<Timestamp<Clock<ESCR>>>, usize),
        Error,
    >)
        requires
            at <= input@.len(),
        ensures
            match escr_at(input@, at as int, present) {
                Ok((v, next)) => r matches Ok((t, n)) && view_of(t) == v && n == next && n
                    <= input@.len(),
                Err(e) => r == Err::<(Option<Timestamp<Clock<ESCR>>>, usize), Error>(e),
            },
    {
        if !present {
            return Ok((None, at));
        }
        if input.len() - at < 6 {
            return Err(Error::TsGeneric);
        }
        match self.parse_escr(slice_subrange(input, at, at + 6)) {
            Ok(t) => Ok((Some(t), at + 6)),
            Err(e) => Err(e),
        }
    }

    /// Reads the timestamps that the flags byte announces from the bytes of
    /// the optional header behind its length byte.
    fn parse_pes_timestamps(&self, input: &[u8], flags: u8) -> (r: Result<
        (Option<Timestamp<PtsDts>>, Option<Timestamp<PtsDts>>, Option<Timestamp<Clock<ESCR>>>),
        Error,
    >)
        ensures
            match parse_pes_timestamps_spec(input@, flags) {
                Ok((pts, dts, escr)) => r matches Ok((p, d, e)) && view_of(p) == pts && view_of(d)
                    == dts && view_of(e) == escr,
                Err(e) => r == Err::<
                    (
                        Option<Timestamp<PtsDts>>,
                        Option<Timestamp<PtsDts>>,
                        Option<Timestamp<Clock<ESCR>>>,
                    ),
                    Error,
                >(e),
            },
    {
        proof {
            reveal(parse_pes_timestamps_spec);
        }
        let pts_flag: bool = test_bit(flags, 0x80);
        let dts_flag: bool = test_bit(flags, 0x40);
        let escr_flag: bool = test_bit(flags, 0x20);
        let check_bits: u8 = if dts_flag {
            3
        } else {
            2
        };
        let (pts, o1) = match self.read_timestamp(input, 0, pts_flag, check_bits) {
            Ok(x) => x,
            Err(e) => {
                return Err(e);
            },
        };
        let (dts, o2) = match self.read_timestamp(input, o1, dts_flag, 1) {
            Ok(x) => x,
            Err(e) => {
                return Err(e);
            },
        };
        let (escr, _) = match self.read_escr(input, o2, escr_flag) {
            Ok(x) => x,
            Err(e) => {
                return Err(e);
            },
        };
        Ok((pts, dts, escr))
    }

    /// Checks the nine fixed bytes of a PES header.
    fn check_pes_fixed(&self, input: &[u8]) -> (r: Result<(), Error>)
        ensures
            match pes_fixed_error(input@) {
                Some(e) => r == Err::<(), Error>(e),
                None => r is Ok && input@.len() >= 9,
            },
    {
        proof {
            reveal(pes_fixed_error);
        }
        if input.len() < 9 || get_u24(input, 0) as u64 != PACKET_START_CODE_PREFIX {
            return Err(Error::TsGeneric);
        }
        let b: u8 = input[6];
        if b / 0x40 != 2 {
            return Err(Error::UnexpectedMarkerBit(((b / 0x40) * 0x40) as u64));
        }
        let c: u8 = input[7];
        if (b / 0x10) % 4 != 0 || (test_bit(c, 0x40) && !test_bit(c, 0x80)) || c % 0x20 != 0 {
            return Err(Error::TsGeneric);
        }
        Ok(())
    }

    /// Reads the PES header that starts `input`, and tells how many bytes
    /// it takes. The marker `10` must stand before the properties; there
    /// must be no scrambling, no DTS without a PTS, and none of the five
    /// flags that the codec does not support; each timestamp must have its
    /// tag and its marker bits.
    pub fn parse_pes_header(&self, input: &[u8]) -> (r: Result<(PesHeader, usize), Error>)
        ensures
            match parse_pes_header_spec(input@) {
                Ok((v, used)) => r matches Ok((h, n)) && h@ == v && n == used && 9 <= n
                    <= input@.len(),
                Err(e) => r == Err::<(PesHeader, usize), Error>(e),
            },
    {
        match self.check_pes_fixed(input) {
            Ok(()) => {},
            Err(e) => {
                return Err(e);
            },
        }
        let pes_header_len: usize = input[8] as usize;
        if input.len() < 9 + pes_header_len {
            return Err(Error::TsGeneric);
        }
        let (pts, dts, escr) = match self.parse_pes_timestamps(
            slice_subrange(input, 9, 9 + pes_header_len),
            input[7],
        ) {
            Ok(x) => x,
            Err(e) => {
                return Err(e);
            },
        };
        let b: u8 = input[6];
        Ok(
            (
                PesHeader {
                    stream_id: StreamId::new(input[3]),
                    priority: test_bit(b, 0x08),
                    data_alignment_indicator: test_bit(b, 0x04),
                    copyright: test_bit(b, 0x02),
                    original_or_copy: test_bit(b, 0x01),
                    pts,
                    dts,
                    escr,
                    packet_len: get_u16(input, 4),
                },
                9 + pes_header_len,
            ),
        )
    }

    /// Reads the payload of a packet that starts a PES packet: the header,
    /// then the elementary stream bytes, up to the end of the payload or up
    /// to the length that the header declares.
    pub fn parse_pes(&self, input: &[u8]) -> (r: Result<Pes, Error>)
        ensures
            reads_as(r, parse_pes_spec(input@)),
    {
        let (header, used) = match self.parse_pes_header(input) {
            Ok(x) => x,
            Err(e) => {
                return Err(e);
            },
        };
        let rest: usize = input.len() - used;
        let packet_len: usize = header.packet_len as usize;
        if packet_len != 0 && packet_len < used - 6 {
            return Err(Error::TsGeneric);
        }
        let len: usize = if packet_len == 0 || packet_len - (used - 6) > rest {
            rest
        } else {
            packet_len - (used - 6)
        };
        let data = match self.parse_raw_data(slice_subrange(input, used, used + len)) {
            Ok(d) => d,
            Err(e) => {
                return Err(e);
            },
        };
        Ok(Pes { header, data })
    }
}

} // verus!
