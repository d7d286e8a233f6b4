//! Writing the small fields: PIDs, timestamps and the parts of an
//! adaptation field extension.
use super::Mpeg2tsParser;
use crate::mpegts::bytes::RawData;
use crate::mpegts::legal_time_window::{legal_time_window_word, LegalTimeWindow};
use crate::mpegts::pid::{pid_at, pid_bytes, Pid};
use crate::mpegts::piecewise_rate::PiecewiseRate;
use crate::mpegts::seamless_splice::{seamless_splice_word, SeamlessSplice};
use crate::mpegts::timestamp::{escr_word, pcr_word, pts_word, Clock, PtsDts, Timestamp, ESCR, PCR};
use crate::mpegts::ts::section::section_bytes;
use crate::mpegts::ts::stuffing::stuffing_bytes;
use crate::mpegts::ts::{Null, Section, Stuffing};
use crate::error::Error;

use crate::mpegts::reads_as;

use crate::mpegts::timestamp::pcr_word_value;
use crate::mpegts::ts::adaptation_field::{
    legal_time_window_at, piecewise_rate_at, seamless_splice_at,
};
use crate::mpegts::ts::pes::{parse_escr_spec, parse_timestamp_spec};
use crate::mpegts::wire::{
    get_u16, get_u24, get_u40, get_u48, put_bytes, put_slice, put_u16, put_u24, put_u40, put_u48,
    u16_bytes, u24_bytes, u40_bytes, u48_at, u48_bytes,
};
use vstd::prelude::*;

verus! {

impl Mpeg2tsParser {
    /// Writes a PID as it stands inside a table.
    pub fn serialize_pid(&self, item: &Pid, output: &mut Vec<u8>)
        ensures
            final(output)@ == old(output)@ + pid_bytes(item@),
    {
        put_u16(output, 0xE000 + item.as_u16());
    }

    /// Writes a legal time window.
    pub fn serialize_legal_time_window(&self, item: &LegalTimeWindow, output: &mut Vec<u8>)
        ensures
            final(output)@ == old(output)@ + u16_bytes(legal_time_window_word(item@)),
    {
        let flag: u16 = if item.is_valid() {
            0x8000
        } else {
            0
        };
        put_u16(output, flag + item.offset());
    }

    /// Writes a piecewise rate.
    pub fn serialize_piecewise_rate(&self, item: &PiecewiseRate, output: &mut Vec<u8>)
        ensures
            final(output)@ == old(output)@ + u24_bytes(item@ as int),
    {
        put_u24(output, item.as_u32());
    }

    /// Writes a seamless splice.
    pub fn serialize_seamless_splice(&self, item: &SeamlessSplice, output: &mut Vec<u8>)
        ensures
            final(output)@ == old(output)@ + u40_bytes(seamless_splice_word(item@)),
    {
        let dts = item.dts_next_access_unit();
        put_u40(output, dts.to_u64(item.splice_type()));
    }

    /// Writes a PTS or DTS under the tag of its place.
    pub fn serialize_timestamp(
        &self,
        item: &Timestamp<PtsDts>,
        check_bits: u8,
        output: &mut Vec<u8>,
    )
        requires
            check_bits <= 15,
        ensures
            final(output)@ == old(output)@ + u40_bytes(pts_word(item@ as int, check_bits as int)),
    {
        put_u40(output, item.to_u64(check_bits));
    }

    /// Writes a program clock reference.
    pub fn serialize_pcr(&self, item: &Timestamp<Clock<PCR>>, output: &mut Vec<u8>)
        ensures
            final(output)@ == old(output)@ + u48_bytes(pcr_word(item@ as int)),
    {
        put_u48(output, item.to_u64());
    }

    /// Writes an elementary stream clock reference.
    pub fn serialize_escr(&self, item: &Timestamp<Clock<ESCR>>, output: &mut Vec<u8>)
        ensures
            final(output)@ == old(output)@ + u48_bytes(escr_word(item@ as int)),
    {
        put_u48(output, item.to_u64());
    }

    /// Writes a run of stuffing.
    pub fn serialize_stuffing(&self, item: &Stuffing, output: &mut Vec<u8>)
        ensures
            final(output)@ == old(output)@ + stuffing_bytes(*item),
    {
        put_bytes(output, item.0, item.1);
    }

    /// Writes raw payload bytes.
    pub fn serialize_raw_data(&self, item: &RawData, output: &mut Vec<u8>)
        ensures
            final(output)@ == old(output)@ + item@,
    {
        put_slice(output, item.as_slice());
    }

    /// Writes a null payload: nothing.
    pub fn serialize_null(&self, item: &Null, output: &mut Vec<u8>)
        ensures
            final(output)@ == old(output)@,
    {
    }

    /// Writes a section payload.
    pub fn serialize_section(&self, item: &Section, output: &mut Vec<u8>)
        ensures
            final(output)@ == old(output)@ + section_bytes(item@),
    {
        output.push(item.pointer_field);
        put_slice(output, item.data.as_slice());
        assert(output@ =~= old(output)@ + section_bytes(item@));
    }
}

impl Mpeg2tsParser {
    /// Reads a PID as it stands inside a table, from the first two bytes.
    pub fn parse_pid(&self, input: &[u8]) -> (r: Result<Pid, Error>)
        ensures
            reads_as(r, pid_at(input@, 0)),
    {
        if input.len() < 2 {
            return Err(Error::TsGeneric);
        }
        let n: u16 = get_u16(input, 0);
        if n / 0x2000 != 7 {
            return Err(Error::TsGeneric);
        }
        Pid::new(n % 0x2000)
    }

    /// Reads a legal time window from the first two bytes.
    pub fn parse_legal_time_window(&self, input: &[u8]) -> (r: Result<LegalTimeWindow, Error>)
        ensures
            input@.len() < 2 ==> r == Err::<LegalTimeWindow, Error>(Error::TsGeneric),
            input@.len() >= 2 ==> (r matches Ok(w) && Some(w@) == legal_time_window_at(
                input@,
                0,
                true,
            )->Ok_0.0),
    {
        if input.len() < 2 {
            return Err(Error::TsGeneric);
        }
        let n: u16 = get_u16(input, 0);
        LegalTimeWindow::new(n / 0x8000 == 1, n % 0x8000)
    }

    /// Reads a piecewise rate from the first three bytes; the two bits
    /// before it are passed over.
    pub fn parse_piecewise_rate(&self, input: &[u8]) -> (r: Result<PiecewiseRate, Error>)
        ensures
            input@.len() < 3 ==> r == Err::<PiecewiseRate, Error>(Error::TsGeneric),
            input@.len() >= 3 ==> (r matches Ok(p) && Some(p@) == piecewise_rate_at(
                input@,
                0,
                true,
            )->Ok_0.0),
    {
        if input.len() < 3 {
            return Err(Error::TsGeneric);
        }
        let n: u32 = get_u24(input, 0);
        PiecewiseRate::new(n % 0x40_0000)
    }

    /// Reads a seamless splice from the first five bytes. A marker bit that
    /// is clear is an error.
    pub fn parse_seamless_splice(&self, input: &[u8]) -> (r: Result<SeamlessSplice, Error>)
        ensures
            match seamless_splice_at(input@, 0, true) {
                Ok((v, _)) => r matches Ok(s) && Some(s@) == v,
                Err(e) => r == Err::<SeamlessSplice, Error>(e),
            },
    {
        if input.len() < 5 {
            return Err(Error::TsGeneric);
        }
        let n: u64 = get_u40(input, 0);
        let dts = match Timestamp::<PtsDts>::from_u64(n) {
            Ok(t) => t,
            Err(e) => {
                return Err(e);
            },
        };
        SeamlessSplice::new(((n / 0x10_0000_0000) % 16) as u8, dts)
    }

    /// Reads a PTS or DTS from the first five bytes, at a place where the
    /// tag `check_bits` is expected. A marker bit that is clear, or another
    /// tag, is an error.
    pub fn parse_timestamp(&self, input: &[u8], check_bits: u8) -> (r: Result<
        Timestamp<PtsDts>,
        Error,
    >)
        ensures
            reads_as(r, parse_timestamp_spec(input@, check_bits)),
    {
        if input.len() < 5 {
            return Err(Error::TsGeneric);
        }
        let n: u64 = get_u40(input, 0);
        let t = match Timestamp::<PtsDts>::from_u64(n) {
            Ok(t) => t,
            Err(e) => {
                return Err(e);
            },
        };
        match Timestamp::<PtsDts>::check_bits(n, check_bits) {
            Ok(()) => {},
            Err(e) => {
                return Err(e);
            },
        }
        Ok(t)
    }

    /// Reads a program clock reference from the first six bytes.
    pub fn parse_pcr(&self, input: &[u8]) -> (r: Result<Timestamp<Clock<PCR>>, Error>)
        ensures
            input@.len() < 6 ==> r == Err::<Timestamp<Clock<PCR>>, Error>(Error::TsGeneric),
            input@.len() >= 6 ==> (r matches Ok(t) && t@ == pcr_word_value(u48_at(input@, 0))),
    {
        if input.len() < 6 {
            return Err(Error::TsGeneric);
        }
        let n: u64 = get_u48(input, 0);
        Ok(Timestamp::<Clock<PCR>>::from_u64(n))
    }

    /// Reads an elementary stream clock reference from the first six bytes.
    /// A reserved bit that is set, or a marker bit that is clear, is an
    /// error.
    pub fn parse_escr(&self, input: &[u8]) -> (r: Result<Timestamp<Clock<ESCR>>, Error>)
        ensures
            reads_as(r, parse_escr_spec(input@)),
    {
        if input.len() < 6 {
            return Err(Error::TsGeneric);
        }
        let n: u64 = get_u48(input, 0);
        Timestamp::<Clock<ESCR>>::from_u64(n)
    }

    /// Reads raw payload bytes: all of `input`, where a packet can hold it.
    pub fn parse_raw_data(&self, input: &[u8]) -> (r: Result<RawData, Error>)
        ensures
            input@.len() <= RawData::MAX_SIZE ==> (r matches Ok(d) && d@ == input@),
            input@.len() > RawData::MAX_SIZE ==> r == Err::<RawData, Error>(
                Error::ValueTooLarge(input@.len() as u64),
            ),
    {
        RawData::new(input)
    }

    /// Reads a null payload: whatever the bytes are, they say nothing.
    pub fn parse_null(&self, input: &[u8]) -> (r: Null)
        ensures
            r == Null,
    {
        Null
    }
}

} // verus!
