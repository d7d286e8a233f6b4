//! The kinds of items that are read and written as a whole, one
//! implementation of [`Io`] for each.
use super::{Io, Mpeg2tsParser};
use crate::error::Error;
use crate::mpegts::bytes::RawData;
use crate::mpegts::legal_time_window::{
    legal_time_window_word, LegalTimeWindow, LegalTimeWindowView,
};
use crate::mpegts::pid::{pid_at, pid_bytes, Pid, PidTable};
use crate::mpegts::piecewise_rate::PiecewiseRate;
use crate::mpegts::seamless_splice::{seamless_splice_word, SeamlessSplice, SeamlessSpliceView};
use crate::mpegts::ts::adaptation_field::{
    legal_time_window_at, piecewise_rate_at, seamless_splice_at,
};
use crate::mpegts::timestamp::{escr_word, pcr_word, pcr_word_value, Clock, Timestamp, ESCR, PCR};
use crate::mpegts::ts::packet::{
    parse_ts_header_spec, parse_ts_packet_spec, table_after, ts_header_bytes, ts_packet_bytes,
    ts_packet_writable, TsHeaderView, TsPacketView,
};
use crate::mpegts::ts::pat::{
    association_at, association_bytes, parse_pat_spec, pat_bytes, pat_writable, PatView,
    ProgramAssociationView,
};
use crate::mpegts::ts::pes::{
    parse_escr_spec, parse_pes_spec, pes_bytes, pes_header_writable, PesView,
};
use crate::mpegts::ts::pmt::{parse_pmt_spec, pmt_bytes, pmt_writable, PmtView};
use crate::mpegts::ts::psi::{
    parse_psi_spec, parse_syntax_spec, psi_bytes, syntax_bytes, tables_writable,
    PsiTableSyntaxView, PsiView,
};
use crate::mpegts::ts::{
    Pat, Pes, Pmt, ProgramAssociation, Psi, PsiTableSyntax, TsHeader, TsPacket,
};
use crate::mpegts::wire::{u16_at, u16_bytes, u24_bytes, u40_bytes, u48_at, u48_bytes};
use vstd::prelude::*;

verus! {

impl Io<TsPacket> for Mpeg2tsParser {
    open spec fn table(&self) -> PidTable {
        self@
    }

    open spec fn read_model(table: PidTable, input: Seq<u8>) -> Result<TsPacketView, Error> {
        parse_ts_packet_spec(table.pids, input)
    }

    open spec fn learn_model(table: PidTable, input: Seq<u8>) -> PidTable {
        match parse_ts_packet_spec(table.pids, input) {
            Ok(p) => table_after(table, p.payload),
            Err(_) => table,
        }
    }

    open spec fn write_model(item: TsPacketView) -> Option<Seq<u8>> {
        if ts_packet_writable(item) {
            Some(ts_packet_bytes(item))
        } else {
            None
        }
    }

    fn parse(&mut self, input: &[u8]) -> (r: Result<TsPacket, Error>) {
        Mpeg2tsParser::parse(self, input)
    }

    fn serialize(&mut self, item: &TsPacket, output: &mut Vec<u8>) -> (r: Result<(), Error>) {
        Mpeg2tsParser::serialize(&*self, item, output)
    }
}

impl Io<TsHeader> for Mpeg2tsParser {
    open spec fn table(&self) -> PidTable {
        self@
    }

    open spec fn read_model(table: PidTable, input: Seq<u8>) -> Result<TsHeaderView, Error> {
        parse_ts_header_spec(input)
    }

    open spec fn learn_model(table: PidTable, input: Seq<u8>) -> PidTable {
        table
    }

    open spec fn write_model(item: TsHeaderView) -> Option<Seq<u8>> {
        if item.transport_scrambling_control.bits() <= 3
            && item.adaptation_field_control.bits() <= 3 {
            Some(ts_header_bytes(item))
        } else {
            None
        }
    }

    fn parse(&mut self, input: &[u8]) -> (r: Result<TsHeader, Error>) {
        Mpeg2tsParser::parse_ts_header(&*self, input)
    }

    fn serialize(&mut self, item: &TsHeader, output: &mut Vec<u8>) -> (r: Result<(), Error>) {
        Mpeg2tsParser::serialize_ts_header(&*self, item, output)
    }
}

impl Io<Pat> for Mpeg2tsParser {
    open spec fn table(&self) -> PidTable {
        self@
    }

    open spec fn read_model(table: PidTable, input: Seq<u8>) -> Result<PatView, Error> {
        parse_pat_spec(input)
    }

    open spec fn learn_model(table: PidTable, input: Seq<u8>) -> PidTable {
        table
    }

    open spec fn write_model(item: PatView) -> Option<Seq<u8>> {
        if pat_writable(item) {
            Some(pat_bytes(item))
        } else {
            None
        }
    }

    fn parse(&mut self, input: &[u8]) -> (r: Result<Pat, Error>) {
        Mpeg2tsParser::parse_pat(&*self, input)
    }

    fn serialize(&mut self, item: &Pat, output: &mut Vec<u8>) -> (r: Result<(), Error>) {
        Mpeg2tsParser::serialize_pat(&*self, item, output)
    }
}

impl Io<Pmt> for Mpeg2tsParser {
    open spec fn table(&self) -> PidTable {
        self@
    }

    open spec fn read_model(table: PidTable, input: Seq<u8>) -> Result<PmtView, Error> {
        parse_pmt_spec(input)
    }

    open spec fn learn_model(table: PidTable, input: Seq<u8>) -> PidTable {
        table
    }

    open spec fn write_model(item: PmtView) -> Option<Seq<u8>> {
        if pmt_writable(item) {
            Some(pmt_bytes(item))
        } else {
            None
        }
    }

    fn parse(&mut self, input: &[u8]) -> (r: Result<Pmt, Error>) {
        Mpeg2tsParser::parse_pmt(&*self, input)
    }

    fn serialize(&mut self, item: &Pmt, output: &mut Vec<u8>) -> (r: Result<(), Error>) {
        Mpeg2tsParser::serialize_pmt(&*self, item, output)
    }
}

impl Io<Psi> for Mpeg2tsParser {
    open spec fn table(&self) -> PidTable {
        self@
    }

    open spec fn read_model(table: PidTable, input: Seq<u8>) -> Result<PsiView, Error> {
        parse_psi_spec(input)
    }

    open spec fn learn_model(table: PidTable, input: Seq<u8>) -> PidTable {
        table
    }

    open spec fn write_model(item: PsiView) -> Option<Seq<u8>> {
        if tables_writable(item.tables) {
            Some(psi_bytes(item))
        } else {
            None
        }
    }

    fn parse(&mut self, input: &[u8]) -> (r: Result<Psi, Error>) {
        Mpeg2tsParser::parse_psi(&*self, input)
    }

    fn serialize(&mut self, item: &Psi, output: &mut Vec<u8>) -> (r: Result<(), Error>) {
        Mpeg2tsParser::serialize_psi(&*self, item, output)
    }
}

impl Io<PsiTableSyntax> for Mpeg2tsParser {
    open spec fn table(&self) -> PidTable {
        self@
    }

    open spec fn read_model(table: PidTable, input: Seq<u8>) -> Result<PsiTableSyntaxView, Error> {
        parse_syntax_spec(input)
    }

    open spec fn learn_model(table: PidTable, input: Seq<u8>) -> PidTable {
        table
    }

    open spec fn write_model(item: PsiTableSyntaxView) -> Option<Seq<u8>> {
        Some(syntax_bytes(item))
    }

    fn parse(&mut self, input: &[u8]) -> (r: Result<PsiTableSyntax, Error>) {
        Mpeg2tsParser::parse_psi_table_syntax(&*self, input)
    }

    fn serialize(&mut self, item: &PsiTableSyntax, output: &mut Vec<u8>) -> (r: Result<(), Error>) {
        Mpeg2tsParser::serialize_psi_table_syntax(&*self, item, output);
        Ok(())
    }
}

impl Io<Pes> for Mpeg2tsParser {
    open spec fn table(&self) -> PidTable {
        self@
    }

    open spec fn read_model(table: PidTable, input: Seq<u8>) -> Result<PesView, Error> {
        parse_pes_spec(input)
    }

    open spec fn learn_model(table: PidTable, input: Seq<u8>) -> PidTable {
        table
    }

    open spec fn write_model(item: PesView) -> Option<Seq<u8>> {
        if pes_header_writable(item.header) {
            Some(pes_bytes(item))
        } else {
            None
        }
    }

    fn parse(&mut self, input: &[u8]) -> (r: Result<Pes, Error>) {
        Mpeg2tsParser::parse_pes(&*self, input)
    }

    fn serialize(&mut self, item: &Pes, output: &mut Vec<u8>) -> (r: Result<(), Error>) {
        Mpeg2tsParser::serialize_pes(&*self, item, output)
    }
}

impl Io<RawData> for Mpeg2tsParser {
    open spec fn table(&self) -> PidTable {
        self@
    }

    open spec fn read_model(table: PidTable, input: Seq<u8>) -> Result<Seq<u8>, Error> {
        if input.len() <= RawData::MAX_SIZE {
            Ok(input)
        } else {
            Err(Error::ValueTooLarge(input.len() as u64))
        }
    }

    open spec fn learn_model(table: PidTable, input: Seq<u8>) -> PidTable {
        table
    }

    open spec fn write_model(item: Seq<u8>) -> Option<Seq<u8>> {
        Some(item)
    }

    fn parse(&mut self, input: &[u8]) -> (r: Result<RawData, Error>) {
        Mpeg2tsParser::parse_raw_data(&*self, input)
    }

    fn serialize(&mut self, item: &RawData, output: &mut Vec<u8>) -> (r: Result<(), Error>) {
        Mpeg2tsParser::serialize_raw_data(&*self, item, output);
        Ok(())
    }
}

impl Io<Pid> for Mpeg2tsParser {
    open spec fn table(&self) -> PidTable {
        self@
    }

    open spec fn read_model(table: PidTable, input: Seq<u8>) -> Result<u16, Error> {
        pid_at(input, 0)
    }

    open spec fn learn_model(table: PidTable, input: Seq<u8>) -> PidTable {
        table
    }

    open spec fn write_model(item: u16) -> Option<Seq<u8>> {
        Some(pid_bytes(item))
    }

    fn parse(&mut self, input: &[u8]) -> (r: Result<Pid, Error>) {
        Mpeg2tsParser::parse_pid(&*self, input)
    }

    fn serialize(&mut self, item: &Pid, output: &mut Vec<u8>) -> (r: Result<(), Error>) {
        Mpeg2tsParser::serialize_pid(&*self, item, output);
        Ok(())
    }
}

impl Io<ProgramAssociation> for Mpeg2tsParser {
    open spec fn table(&self) -> PidTable {
        self@
    }

    open spec fn read_model(table: PidTable, input: Seq<u8>) -> Result<
        ProgramAssociationView,
        Error,
    > {
        if input.len() < 4 || u16_at(input, 2) / 0x2000 != 7 {
            Err(Error::TsGeneric)
        } else {
            Ok(association_at(input, 0))
        }
    }

    open spec fn learn_model(table: PidTable, input: Seq<u8>) -> PidTable {
        table
    }

    open spec fn write_model(item: ProgramAssociationView) -> Option<Seq<u8>> {
        Some(association_bytes(item))
    }

    fn parse(&mut self, input: &[u8]) -> (r: Result<ProgramAssociation, Error>) {
        Mpeg2tsParser::parse_program_association(&*self, input)
    }

    fn serialize(&mut self, item: &ProgramAssociation, output: &mut Vec<u8>) -> (r: Result<
        (),
        Error,
    >) {
        Mpeg2tsParser::serialize_program_association(&*self, item, output);
        Ok(())
    }
}

impl Io<Timestamp<Clock<PCR>>> for Mpeg2tsParser {
    open spec fn table(&self) -> PidTable {
        self@
    }

    open spec fn read_model(table: PidTable, input: Seq<u8>) -> Result<u64, Error> {
        if input.len() < 6 {
            Err(Error::TsGeneric)
        } else {
            Ok(pcr_word_value(u48_at(input, 0)) as u64)
        }
    }

    open spec fn learn_model(table: PidTable, input: Seq<u8>) -> PidTable {
        table
    }

    open spec fn write_model(item: u64) -> Option<Seq<u8>> {
        Some(u48_bytes(pcr_word(item as int)))
    }

    fn parse(&mut self, input: &[u8]) -> (r: Result<Timestamp<Clock<PCR>>, Error>) {
        Mpeg2tsParser::parse_pcr(&*self, input)
    }

    fn serialize(&mut self, item: &Timestamp<Clock<PCR>>, output: &mut Vec<u8>) -> (r: Result<
        (),
        Error,
    >) {
        Mpeg2tsParser::serialize_pcr(&*self, item, output);
        Ok(())
    }
}

impl Io<Timestamp<Clock<ESCR>>> for Mpeg2tsParser {
    open spec fn table(&self) -> PidTable {
        self@
    }

    open spec fn read_model(table: PidTable, input: Seq<u8>) -> Result<u64, Error> {
        parse_escr_spec(input)
    }

    open spec fn learn_model(table: PidTable, input: Seq<u8>) -> PidTable {
        table
    }

    open spec fn write_model(item: u64) -> Option<Seq<u8>> {
        Some(u48_bytes(escr_word(item as int)))
    }

    fn parse(&mut self, input: &[u8]) -> (r: Result<Timestamp<Clock<ESCR>>, Error>) {
        Mpeg2tsParser::parse_escr(&*self, input)
    }

    fn serialize(&mut self, item: &Timestamp<Clock<ESCR>>, output: &mut Vec<u8>) -> (r: Result<
        (),
        Error,
    >) {
        Mpeg2tsParser::serialize_escr(&*self, item, output);
        Ok(())
    }
}

impl Io<LegalTimeWindow> for Mpeg2tsParser {
    open spec fn table(&self) -> PidTable {
        self@
    }

    open spec fn read_model(table: PidTable, input: Seq<u8>) -> Result<LegalTimeWindowView, Error> {
        match legal_time_window_at(input, 0, true) {
            Ok((Some(w), _)) => Ok(w),
            Ok((None, _)) => Err(Error::TsGeneric),
            Err(e) => Err(e),
        }
    }

    open spec fn learn_model(table: PidTable, input: Seq<u8>) -> PidTable {
        table
    }

    open spec fn write_model(item: LegalTimeWindowView) -> Option<Seq<u8>> {
        Some(u16_bytes(legal_time_window_word(item)))
    }

    fn parse(&mut self, input: &[u8]) -> (r: Result<LegalTimeWindow, Error>) {
        Mpeg2tsParser::parse_legal_time_window(&*self, input)
    }

    fn serialize(&mut self, item: &LegalTimeWindow, output: &mut Vec<u8>) -> (r: Result<
        (),
        Error,
    >) {
        Mpeg2tsParser::serialize_legal_time_window(&*self, item, output);
        Ok(())
    }
}

impl Io<PiecewiseRate> for Mpeg2tsParser {
    open spec fn table(&self) -> PidTable {
        self@
    }

    open spec fn read_model(table: PidTable, input: Seq<u8>) -> Result<u32, Error> {
        match piecewise_rate_at(input, 0, true) {
            Ok((Some(r), _)) => Ok(r),
            Ok((None, _)) => Err(Error::TsGeneric),
            Err(e) => Err(e),
        }
    }

    open spec fn learn_model(table: PidTable, input: Seq<u8>) -> PidTable {
        table
    }

    open spec fn write_model(item: u32) -> Option<Seq<u8>> {
        Some(u24_bytes(item as int))
    }

    fn parse(&mut self, input: &[u8]) -> (r: Result<PiecewiseRate, Error>) {
        Mpeg2tsParser::parse_piecewise_rate(&*self, input)
    }

    fn serialize(&mut self, item: &PiecewiseRate, output: &mut Vec<u8>) -> (r: Result<(), Error>) {
        Mpeg2tsParser::serialize_piecewise_rate(&*self, item, output);
        Ok(())
    }
}

impl Io<SeamlessSplice> for Mpeg2tsParser {
    open spec fn table(&self) -> PidTable {
        self@
    }

    open spec fn read_model(table: PidTable, input: Seq<u8>) -> Result<SeamlessSpliceView, Error> {
        match seamless_splice_at(input, 0, true) {
            Ok((Some(s), _)) => Ok(s),
            Ok((None, _)) => Err(Error::TsGeneric),
            Err(e) => Err(e),
        }
    }

    open spec fn learn_model(table: PidTable, input: Seq<u8>) -> PidTable {
        table
    }

    open spec fn write_model(item: SeamlessSpliceView) -> Option<Seq<u8>> {
        Some(u40_bytes(seamless_splice_word(item)))
    }

    fn parse(&mut self, input: &[u8]) -> (r: Result<SeamlessSplice, Error>) {
        Mpeg2tsParser::parse_seamless_splice(&*self, input)
    }

    fn serialize(&mut self, item: &SeamlessSplice, output: &mut Vec<u8>) -> (r: Result<(), Error>) {
        Mpeg2tsParser::serialize_seamless_splice(&*self, item, output);
        Ok(())
    }
}

} // verus!
