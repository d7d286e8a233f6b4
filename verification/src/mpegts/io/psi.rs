//! Writing PSI sections and the tables in them.
use super::{bit_of, Mpeg2tsParser};
use crate::error::Error;
use crate::mpegts::crc32::crc32;
use crate::mpegts::ts::pat::{
    association_bytes, associations_bytes, pat_bytes, pat_table, pat_writable,
};
use crate::mpegts::ts::pmt::{
    descriptor_bytes, descriptors_bytes, descriptors_len, descriptors_size, descriptors_writable,
    es_info_bytes, es_infos_bytes, es_infos_writable, info_len_bytes, pcr_pid_bytes, pmt_bytes,
    pmt_table, pmt_table_data, pmt_writable, DescriptorView, EsInfoView,
};
use crate::mpegts::ts::psi::{
    psi_bytes, syntax_bytes, table_bytes, table_covered_bytes, table_header_bytes, table_writable,
    tables_bytes, tables_writable, PsiTableView, MAX_SYNTAX_SECTION_LEN,
};
use crate::mpegts::ts::{
    Descriptor, EsInfo, Pat, Pmt, ProgramAssociation, Psi, PsiTable, PsiTableHeader, PsiTableSyntax,
};

use crate::mpegts::pid::pid_at;
use crate::mpegts::stream_type::StreamType;
use crate::mpegts::ts::pat::{association_at, parse_associations_spec, parse_pat_spec};
use crate::mpegts::ts::pmt::{
    info_len_at, parse_descriptors_spec, parse_es_info_spec, parse_es_infos_spec, parse_pmt_spec,
};
use crate::mpegts::ts::psi::{
    last_syntax_spec, parse_psi_spec, parse_syntax_spec, parse_table_header_spec, parse_table_spec,
    parse_tables_spec,
};
use crate::mpegts::version::VersionNumber;
use crate::mpegts::wire::{copy_range, get_u16, get_u32, put_slice, put_u16, put_u32, u16_at};
use crate::mpegts::{lemma_prepend_done, lemma_prepend_step, prepend, reads_as};
use vstd::slice::slice_subrange;
use vstd::prelude::*;

verus! {

impl Mpeg2tsParser {
    /// Writes the header of a table that declares a syntax section of
    /// `syntax_section_len` bytes. Nothing is written where the length does
    /// not fit its field.
    pub fn serialize_psi_table_header(
        &self,
        item: &PsiTableHeader,
        syntax_section_len: u16,
        output: &mut Vec<u8>,
    ) -> (r: Result<(), Error>)
        ensures
            syntax_section_len <= MAX_SYNTAX_SECTION_LEN ==> r is Ok
                && final(output)@ == old(output)@
                + table_header_bytes(*item, syntax_section_len as nat),
            syntax_section_len > MAX_SYNTAX_SECTION_LEN ==> r == Err::<(), Error>(
                Error::TsGeneric,
            ) && final(output)@ == old(output)@,
    {
        if syntax_section_len as usize > MAX_SYNTAX_SECTION_LEN {
            return Err(Error::TsGeneric);
        }
        output.push(item.table_id);
        let n: u16 = (bit_of(syntax_section_len != 0) as u16) * 0x8000 + (bit_of(
            item.private_bit,
        ) as u16) * 0x4000 + 0x3000 + syntax_section_len;
        put_u16(output, n);
        assert(output@ =~= old(output)@ + table_header_bytes(*item, syntax_section_len as nat));
        Ok(())
    }

    /// Writes a syntax section without its checksum.
    pub fn serialize_psi_table_syntax(&self, item: &PsiTableSyntax, output: &mut Vec<u8>)
        ensures
            final(output)@ == old(output)@ + syntax_bytes(item@),
    {
        put_u16(output, item.table_id_extension);
        let n: u8 = 0xC0 + item.version_number.as_u8() * 2 + bit_of(item.current_next_indicator);
        output.push(n);
        output.push(item.section_number);
        output.push(item.last_section_number);
        put_slice(output, item.table_data.as_slice());
        assert(output@ =~= old(output)@ + syntax_bytes(item@));
    }

    /// Writes a table: header, syntax section and, where there is a syntax
    /// section, the checksum of both. Nothing is written where the syntax
    /// section is too long.
    pub fn serialize_psi_table(&self, item: &PsiTable, output: &mut Vec<u8>) -> (r: Result<
        (),
        Error,
    >)
        ensures
            table_writable(item@) ==> r is Ok && final(output)@ == old(output)@ + table_bytes(
                item@,
            ),
            !table_writable(item@) ==> r == Err::<(), Error>(Error::TsGeneric) && final(output)@
                == old(output)@,
    {
        let syntax_section_len: usize = match &item.syntax {
            Some(s) => {
                if s.table_data.len() > MAX_SYNTAX_SECTION_LEN - 9 {
                    return Err(Error::TsGeneric);
                }
                s.external_size()
            },
            None => 0,
        };
        let mut covered: Vec<u8> = Vec::new();
        match self.serialize_psi_table_header(
            &item.header,
            syntax_section_len as u16,
            &mut covered,
        ) {
            Ok(()) => {},
            Err(e) => {
                return Err(e);
            },
        }
        match &item.syntax {
            Some(s) => {
                self.serialize_psi_table_syntax(s, &mut covered);
                assert(covered@ =~= table_covered_bytes(item@));
                let checksum: u32 = crc32(covered.as_slice());
                put_slice(output, covered.as_slice());
                put_u32(output, checksum);
                assert(output@ =~= old(output)@ + table_bytes(item@));
            },
            None => {
                assert(covered@ =~= table_covered_bytes(item@));
                put_slice(output, covered.as_slice());
                assert(output@ =~= old(output)@ + table_bytes(item@));
            },
        }
        Ok(())
    }

    /// Writes a PSI section: the pointer field, then its tables. Nothing is
    /// written where one of the tables cannot be written.
    pub fn serialize_psi(&self, item: &Psi, output: &mut Vec<u8>) -> (r: Result<(), Error>)
        ensures
            tables_writable(item@.tables) ==> r is Ok && final(output)@ == old(output)@
                + psi_bytes(item@),
            !tables_writable(item@.tables) ==> r == Err::<(), Error>(Error::TsGeneric)
                && final(output)@ == old(output)@,
    {
        let ghost views = item@.tables;
        let mut section: Vec<u8> = Vec::new();
        section.push(0);
        let mut i: usize = 0;
        while i < item.tables.len()
            invariant
                i <= item.tables@.len(),
                views == item.tables@.map_values(|t: PsiTable| t@),
                section@ == seq![0u8] + tables_bytes(views.take(i as int)),
                forall|k: int| 0 <= k < i ==> table_writable(#[trigger] views[k]),
            decreases item.tables@.len() - i,
        {
            proof {
                let next = views.take(i as int + 1);
                assert(next.drop_last() =~= views.take(i as int));
                assert(next.last() == item.tables@[i as int]@);
            }
            match self.serialize_psi_table(&item.tables[i], &mut section) {
                Ok(()) => {},
                Err(e) => {
                    assert(!table_writable(views[i as int]));
                    return Err(e);
                },
            }
            assert(section@ =~= seq![0u8] + tables_bytes(views.take(i as int + 1)));
            i += 1;
        }
        assert(views.take(i as int) =~= views);
        put_slice(output, section.as_slice());
        Ok(())
    }

    /// Writes an entry of a PAT.
    pub fn serialize_program_association(
        &self,
        item: &ProgramAssociation,
        output: &mut Vec<u8>,
    )
        ensures
            final(output)@ == old(output)@ + association_bytes(item@),
    {
        put_u16(output, item.program_num);
        self.serialize_pid(&item.program_map_pid, output);
        assert(output@ =~= old(output)@ + association_bytes(item@));
    }

    /// The table data of a PAT: its entries.
    fn pat_table_data(&self, item: &Pat) -> (r: Vec<u8>)
        ensures
            r@ == associations_bytes(item@.table),
    {
        let ghost views = item@.table;
        let mut table_data: Vec<u8> = Vec::new();
        let mut i: usize = 0;
        while i < item.table.len()
            invariant
                i <= item.table@.len(),
                views == item.table@.map_values(|a: ProgramAssociation| a@),
                table_data@ == associations_bytes(views.take(i as int)),
            decreases item.table@.len() - i,
        {
            proof {
                let next = views.take(i as int + 1);
                assert(next.drop_last() =~= views.take(i as int));
                assert(next.last() == item.table@[i as int]@);
            }
            self.serialize_program_association(&item.table[i], &mut table_data);
            i += 1;
        }
        assert(views.take(i as int) =~= views);
        table_data
    }

    /// Writes a PAT as the payload of a packet: a PSI section with one
    /// table. Nothing is written where the entries do not fit one section.
    pub fn serialize_pat(&self, item: &Pat, output: &mut Vec<u8>) -> (r: Result<(), Error>)
        ensures
            pat_writable(item@) ==> r is Ok && final(output)@ == old(output)@ + pat_bytes(item@),
            !pat_writable(item@) ==> r == Err::<(), Error>(Error::TsGeneric) && final(output)@
                == old(output)@,
    {
        let table_data = self.pat_table_data(item);
        let syntax = Some(
            PsiTableSyntax {
                table_id_extension: item.transport_stream_id,
                version_number: item.version_number,
                current_next_indicator: true,
                section_number: 0,
                last_section_number: 0,
                table_data,
            },
        );
        let header = PsiTableHeader {
            table_id: Pat::TABLE_ID,
            private_bit: false,
            syntax_section_indicator: true,
        };
        let psi = Psi { tables: vec![PsiTable { header, syntax }] };
        assert(psi@.tables =~= seq![pat_table(item@)]);
        self.serialize_psi(&psi, output)
    }

    /// Writes a descriptor. Nothing is written where its data do not fit
    /// their length byte.
    pub fn serialize_descriptor(&self, item: &Descriptor, output: &mut Vec<u8>) -> (r: Result<
        (),
        Error,
    >)
        ensures
            item@.data.len() <= 255 ==> r is Ok && final(output)@ == old(output)@
                + descriptor_bytes(item@),
            item@.data.len() > 255 ==> r == Err::<(), Error>(Error::TsGeneric) && final(output)@
                == old(output)@,
    {
        if item.data.len() > 255 {
            return Err(Error::TsGeneric);
        }
        output.push(item.tag);
        output.push(item.data.len() as u8);
        put_slice(output, item.data.as_slice());
        assert(output@ =~= old(output)@ + descriptor_bytes(item@));
        Ok(())
    }

    /// Writes a list of descriptors behind the field that holds their
    /// length. Nothing is written where the list cannot be written.
    fn serialize_descriptors(&self, items: &Vec<Descriptor>, output: &mut Vec<u8>) -> (r: Result<
        (),
        Error,
    >)
        ensures
            ({
                let views = items@.map_values(|d: Descriptor| d@);
                &&& descriptors_writable(views) ==> r is Ok && final(output)@ == old(output)@
                    + info_len_bytes(descriptors_size(views)) + descriptors_bytes(views)
                &&& !descriptors_writable(views) ==> r == Err::<(), Error>(Error::TsGeneric)
                    && final(output)@ == old(output)@
            }),
    {
        let ghost views = items@.map_values(|d: Descriptor| d@);
        let size: usize = match descriptors_len(items, 0x3FF) {
            Some(n) => n,
            None => {
                return Err(Error::TsGeneric);
            },
        };
        let mut list: Vec<u8> = Vec::new();
        put_u16(&mut list, 0xF000 + size as u16);
        let mut i: usize = 0;
        while i < items.len()
            invariant
                i <= items@.len(),
                views == items@.map_values(|d: Descriptor| d@),
                size == descriptors_size(views),
                size <= 0x3FF,
                list@ == info_len_bytes(size as nat) + descriptors_bytes(views.take(i as int)),
                forall|k: int| 0 <= k < i ==> (#[trigger] views[k]).data.len() <= 255,
            decreases items@.len() - i,
        {
            proof {
                let next = views.take(i as int + 1);
                assert(next.drop_last() =~= views.take(i as int));
                assert(next.last() == items@[i as int]@);
            }
            match self.serialize_descriptor(&items[i], &mut list) {
                Ok(()) => {},
                Err(e) => {
                    assert(views[i as int].data.len() > 255);
                    return Err(e);
                },
            }
            assert(list@ =~= info_len_bytes(size as nat) + descriptors_bytes(
                views.take(i as int + 1),
            ));
            i += 1;
        }
        assert(views.take(i as int) =~= views);
        put_slice(output, list.as_slice());
        assert(output@ =~= old(output)@ + info_len_bytes(descriptors_size(views))
            + descriptors_bytes(views));
        Ok(())
    }

    /// Writes the entry of an elementary stream. Nothing is written where
    /// its descriptors cannot be written.
    pub fn serialize_es_info(&self, item: &EsInfo, output: &mut Vec<u8>) -> (r: Result<
        (),
        Error,
    >)
        ensures
            descriptors_writable(item@.descriptors) ==> r is Ok && final(output)@ == old(output)@
                + es_info_bytes(item@),
            !descriptors_writable(item@.descriptors) ==> r == Err::<(), Error>(Error::TsGeneric)
                && final(output)@ == old(output)@,
    {
        let mut entry: Vec<u8> = Vec::new();
        entry.push(item.stream_type.as_u8());
        self.serialize_pid(&item.elementary_pid, &mut entry);
        match self.serialize_descriptors(&item.descriptors, &mut entry) {
            Ok(()) => {},
            Err(e) => {
                return Err(e);
            },
        }
        assert(entry@ =~= es_info_bytes(item@));
        put_slice(output, entry.as_slice());
        Ok(())
    }

    /// Writes the entries of the elementary streams of a PMT.
    fn serialize_es_infos(&self, items: &Vec<EsInfo>, output: &mut Vec<u8>) -> (r: Result<
        (),
        Error,
    >)
        ensures
            ({
                let views = items@.map_values(|e: EsInfo| e@);
                &&& es_infos_writable(views) ==> r is Ok && final(output)@ == old(output)@
                    + es_infos_bytes(views)
                &&& !es_infos_writable(views) ==> r == Err::<(), Error>(Error::TsGeneric)
                    && final(output)@ == old(output)@
            }),
    {
        let ghost views = items@.map_values(|e: EsInfo| e@);
        let mut list: Vec<u8> = Vec::new();
        let mut i: usize = 0;
        while i < items.len()
            invariant
                i <= items@.len(),
                views == items@.map_values(|e: EsInfo| e@),
                list@ == es_infos_bytes(views.take(i as int)),
                forall|k: int|
                    0 <= k < i ==> descriptors_writable((#[trigger] views[k]).descriptors),
            decreases items@.len() - i,
        {
            proof {
                let next = views.take(i as int + 1);
                assert(next.drop_last() =~= views.take(i as int));
                assert(next.last() == items@[i as int]@);
            }
            match self.serialize_es_info(&items[i], &mut list) {
                Ok(()) => {},
                Err(e) => {
                    assert(!descriptors_writable(views[i as int].descriptors));
                    return Err(e);
                },
            }
            i += 1;
        }
        assert(views.take(i as int) =~= views);
        put_slice(output, list.as_slice());
        Ok(())
    }

    /// The table data of a PMT, where its PCR PID and its descriptors can be
    /// written.
    fn pmt_table_data(&self, item: &Pmt) -> (r: Result<Vec<u8>, Error>)
        ensures
            ({
                let ok = item@.pcr_pid != Some(crate::mpegts::pid::Pid::NULL)
                    && descriptors_writable(item@.program_info) && es_infos_writable(
                    item@.es_info,
                );
                &&& ok ==> (r matches Ok(data) && data@ == pmt_table_data(item@))
                &&& !ok ==> r == Err::<Vec<u8>, Error>(Error::TsGeneric)
            }),
    {
        let mut table_data: Vec<u8> = Vec::new();
        match item.pcr_pid {
            Some(pid) => {
                if pid.as_u16() == crate::mpegts::pid::Pid::NULL {
                    return Err(Error::TsGeneric);
                }
                self.serialize_pid(&pid, &mut table_data);
            },
            None => {
                put_u16(&mut table_data, 0xFFFF);
            },
        }
        assert(table_data@ =~= pcr_pid_bytes(item@.pcr_pid));
        match self.serialize_descriptors(&item.program_info, &mut table_data) {
            Ok(()) => {},
            Err(e) => {
                return Err(e);
            },
        }
        match self.serialize_es_infos(&item.es_info, &mut table_data) {
            Ok(()) => {},
            Err(e) => {
                return Err(e);
            },
        }
        assert(table_data@ =~= pmt_table_data(item@));
        Ok(table_data)
    }

    /// Writes a PMT as the payload of a packet: a PSI section with one
    /// table. Nothing is written where the PMT cannot be written.
    pub fn serialize_pmt(&self, item: &Pmt, output: &mut Vec<u8>) -> (r: Result<(), Error>)
        ensures
            pmt_writable(item@) ==> r is Ok && final(output)@ == old(output)@ + pmt_bytes(item@),
            !pmt_writable(item@) ==> r == Err::<(), Error>(Error::TsGeneric) && final(output)@
                == old(output)@,
    {
        let table_data = match self.pmt_table_data(item) {
            Ok(data) => data,
            Err(e) => {
                return Err(e);
            },
        };
        let header = PsiTableHeader {
            table_id: Pmt::TABLE_ID,
            private_bit: false,
            syntax_section_indicator: true,
        };
        let syntax = Some(
            PsiTableSyntax {
                table_id_extension: item.program_num,
                version_number: item.version_number,
                current_next_indicator: true,
                section_number: 0,
                last_section_number: 0,
                table_data,
            },
        );
        let psi = Psi { tables: vec![PsiTable { header, syntax }] };
        assert(psi@.tables =~= seq![pmt_table(item@)]);
        self.serialize_psi(&psi, output)
    }

    /// Reads the header of a table from the first three bytes, with the
    /// length that it declares for the syntax section.
    pub fn parse_psi_table_header(&self, input: &[u8]) -> (r: Result<
        (PsiTableHeader, u16),
        Error,
    >)
        ensures
            r == parse_table_header_spec(input@),
    {
        if input.len() < 3 {
            return Err(Error::TsGeneric);
        }
        let table_id: u8 = input[0];
        let n: u16 = get_u16(input, 1);
        if (n / 0x1000) % 4 != 3 || (n / 0x400) % 4 != 0 {
            return Err(Error::TsGeneric);
        }
        let syntax_section_len: u16 = n % 0x400;
        if syntax_section_len as usize > MAX_SYNTAX_SECTION_LEN {
            return Err(Error::TsGeneric);
        }
        Ok(
            (
                PsiTableHeader {
                    table_id,
                    private_bit: (n / 0x4000) % 2 == 1,
                    syntax_section_indicator: n / 0x8000 == 1,
                },
                syntax_section_len,
            ),
        )
    }

    /// Reads a syntax section from all of `input`, which holds the section
    /// without its checksum.
    pub fn parse_psi_table_syntax(&self, input: &[u8]) -> (r: Result<PsiTableSyntax, Error>)
        ensures
            reads_as(r, parse_syntax_spec(input@)),
    {
        if input.len() < 5 {
            return Err(Error::TsGeneric);
        }
        let table_id_extension: u16 = get_u16(input, 0);
        let b: u8 = input[2];
        if b / 0x40 != 3 {
            return Err(Error::TsGeneric);
        }
        let version_number = match VersionNumber::from_u8((b / 2) % 0x20) {
            Ok(v) => v,
            Err(e) => {
                return Err(e);
            },
        };
        let table_data = copy_range(input, 5, input.len());
        assert(input@.subrange(5, input@.len() as int) =~= input@.skip(5));
        Ok(
            PsiTableSyntax {
                table_id_extension,
                version_number,
                current_next_indicator: b % 2 == 1,
                section_number: input[3],
                last_section_number: input[4],
                table_data,
            },
        )
    }

    /// Reads the table that starts `input`, checks its checksum, and tells
    /// how many bytes the table takes.
    pub fn parse_psi_table(&self, input: &[u8]) -> (r: Result<(PsiTable, usize), Error>)
        ensures
            match parse_table_spec(input@) {
                Ok((v, used)) => r matches Ok((t, n)) && t@ == v && n == used && 0 < n
                    <= input@.len(),
                Err(e) => r == Err::<(PsiTable, usize), Error>(e),
            },
    {
        let (header, len) = match self.parse_psi_table_header(input) {
            Ok(x) => x,
            Err(e) => {
                return Err(e);
            },
        };
        let len: usize = len as usize;
        if !header.syntax_section_indicator {
            if len != 0 {
                return Err(Error::TsGeneric);
            }
            return Ok((PsiTable { header, syntax: None }, 3));
        }
        if len < 9 || input.len() < 3 + len {
            return Err(Error::TsGeneric);
        }
        let syntax = match self.parse_psi_table_syntax(slice_subrange(input, 3, len - 1)) {
            Ok(s) => s,
            Err(e) => {
                return Err(e);
            },
        };
        let expected: u32 = get_u32(input, len - 1);
        let found: u32 = crc32(slice_subrange(input, 0, len - 1));
        if expected != found {
            return Err(Error::TsGeneric);
        }
        Ok((PsiTable { header, syntax: Some(syntax) }, 3 + len))
    }

    /// Reads a PSI section from the payload of a packet: the pointer field,
    /// which must be zero, then tables up to the end or up to stuffing.
    pub fn parse_psi(&self, input: &[u8]) -> (r: Result<Psi, Error>)
        ensures
            reads_as(r, parse_psi_spec(input@)),
    {
        if input.len() < 1 || input[0] != 0 {
            return Err(Error::TsGeneric);
        }
        let ghost whole = parse_tables_spec(input@.skip(1), true);
        let mut tables: Vec<PsiTable> = Vec::new();
        let mut pos: usize = 1;
        assert(tables@.map_values(|t: PsiTable| t@) =~= Seq::<PsiTableView>::empty());
        assert(prepend(Seq::<PsiTableView>::empty(), whole) == whole) by {
            match whole {
                Ok(rest) => {
                    assert(Seq::<PsiTableView>::empty() + rest =~= rest);
                },
                Err(e) => {},
            }
        }
        while pos < input.len()
            invariant
                1 <= pos <= input@.len(),
                input@[0] == 0,
                whole == parse_tables_spec(input@.skip(1), true),
                whole == prepend(
                    tables@.map_values(|t: PsiTable| t@),
                    parse_tables_spec(input@.skip(pos as int), tables@.len() == 0),
                ),
            decreases input@.len() - pos,
        {
            let ghost views = tables@.map_values(|t: PsiTable| t@);
            let ghost rest = input@.skip(pos as int);
            assert(rest.len() > 0 && rest[0] == input@[pos as int]);
            if tables.len() > 0 && input[pos] == 0xFF {
                proof {
                    assert(parse_tables_spec(rest, false) == Ok::<Seq<PsiTableView>, Error>(
                        Seq::empty(),
                    ));
                    lemma_prepend_done(views);
                }
                return Ok(Psi { tables });
            }
            let (table, used) = match self.parse_psi_table(
                slice_subrange(input, pos, input.len()),
            ) {
                Ok(x) => x,
                Err(e) => {
                    assert(input@.subrange(pos as int, input@.len() as int) =~= rest);
                    assert(parse_tables_spec(rest, tables@.len() == 0) == Err::<
                        Seq<PsiTableView>,
                        Error,
                    >(e));
                    return Err(e);
                },
            };
            proof {
                assert(input@.subrange(pos as int, input@.len() as int) =~= rest);
                assert(rest.skip(used as int) =~= input@.skip(pos + used));
                lemma_prepend_step(
                    views,
                    table@,
                    parse_tables_spec(input@.skip(pos + used), false),
                );
                assert(tables@.push(table).map_values(|t: PsiTable| t@) =~= views.push(table@));
            }
            tables.push(table);
            pos += used;
        }
        proof {
            lemma_prepend_done(tables@.map_values(|t: PsiTable| t@));
        }
        Ok(Psi { tables })
    }

    /// Reads the syntax section of the last table of a PSI section.
    fn parse_last_syntax(&self, input: &[u8]) -> (r: Result<PsiTableSyntax, Error>)
        ensures
            reads_as(r, last_syntax_spec(input@)),
    {
        let mut psi = match self.parse_psi(input) {
            Ok(psi) => psi,
            Err(e) => {
                return Err(e);
            },
        };
        if psi.tables.len() < 1 {
            return Err(Error::PsiTableCountZero);
        }
        let ghost tables = psi.tables@;
        let table = match psi.tables.pop() {
            Some(t) => t,
            None => {
                return Err(Error::PsiTableCountZero);
            },
        };
        assert(table@ == tables.map_values(|t: PsiTable| t@).last());
        match table.syntax {
            Some(syntax) => Ok(syntax),
            None => Err(Error::TsGeneric),
        }
    }

    /// Reads an entry of a PAT from the first four bytes.
    pub fn parse_program_association(&self, input: &[u8]) -> (r: Result<
        ProgramAssociation,
        Error,
    >)
        ensures
            input@.len() < 4 || u16_at(input@, 2) / 0x2000 != 7 ==> r == Err::<
                ProgramAssociation,
                Error,
            >(Error::TsGeneric),
            !(input@.len() < 4 || u16_at(input@, 2) / 0x2000 != 7) ==> (r matches Ok(a) && a@
                == association_at(input@, 0)),
    {
        if input.len() < 4 {
            return Err(Error::TsGeneric);
        }
        let program_num: u16 = get_u16(input, 0);
        let program_map_pid = match self.parse_pid(slice_subrange(input, 2, 4)) {
            Ok(pid) => pid,
            Err(e) => {
                return Err(e);
            },
        };
        Ok(ProgramAssociation { program_num, program_map_pid })
    }

    /// Reads the entries of a PAT from its table data.
    fn parse_associations(&self, data: &[u8]) -> (r: Result<Vec<ProgramAssociation>, Error>)
        ensures
            match parse_associations_spec(data@) {
                Ok(v) => r matches Ok(t) && t@.map_values(|a: ProgramAssociation| a@) == v,
                Err(e) => r == Err::<Vec<ProgramAssociation>, Error>(e),
            },
    {
        if data.len() % 4 != 0 {
            return Err(Error::TsGeneric);
        }
        let count: usize = data.len() / 4;
        let mut table: Vec<ProgramAssociation> = Vec::new();
        let mut i: usize = 0;
        while i < count
            invariant
                i <= count,
                4 * count == data@.len(),
                data@.len() <= usize::MAX,
                table@.map_values(|a: ProgramAssociation| a@) =~= Seq::new(
                    i as nat,
                    |j: int| association_at(data@, j),
                ),
                forall|j: int| 0 <= j < i ==> #[trigger] u16_at(data@, 4 * j + 2) / 0x2000 == 7,
            decreases count - i,
        {
            let ghost views = table@.map_values(|a: ProgramAssociation| a@);
            let entry = match self.parse_program_association(
                slice_subrange(data, 4 * i, 4 * i + 4),
            ) {
                Ok(a) => a,
                Err(e) => {
                    assert(u16_at(data@, 4 * i + 2) / 0x2000 != 7);
                    return Err(e);
                },
            };
            proof {
                assert(entry@ == association_at(data@, i as int));
                assert(u16_at(data@, 4 * i + 2) / 0x2000 == 7);
                assert(table@.push(entry).map_values(|a: ProgramAssociation| a@) =~= views.push(
                    entry@,
                ));
            }
            table.push(entry);
            i += 1;
        }
        Ok(table)
    }

    /// Reads a PAT from the payload of a packet: the entries stand in the
    /// last table of the section.
    pub fn parse_pat(&self, input: &[u8]) -> (r: Result<Pat, Error>)
        ensures
            reads_as(r, parse_pat_spec(input@)),
    {
        let syntax = match self.parse_last_syntax(input) {
            Ok(s) => s,
            Err(e) => {
                return Err(e);
            },
        };
        let table = match self.parse_associations(syntax.table_data.as_slice()) {
            Ok(t) => t,
            Err(e) => {
                return Err(e);
            },
        };
        Ok(
            Pat {
                transport_stream_id: syntax.table_id_extension,
                version_number: syntax.version_number,
                table,
            },
        )
    }

    /// Reads the descriptors that `input` holds, one after the other.
    pub fn parse_descriptors(&self, input: &[u8]) -> (r: Result<Vec<Descriptor>, Error>)
        ensures
            match parse_descriptors_spec(input@) {
                Ok(v) => r matches Ok(t) && t@.map_values(|d: Descriptor| d@) == v,
                Err(e) => r == Err::<Vec<Descriptor>, Error>(e),
            },
    {
        let ghost whole = parse_descriptors_spec(input@);
        let mut list: Vec<Descriptor> = Vec::new();
        let mut pos: usize = 0;
        assert(list@.map_values(|d: Descriptor| d@) =~= Seq::<DescriptorView>::empty());
        assert(input@.skip(0) =~= input@);
        assert(prepend(Seq::<DescriptorView>::empty(), whole) == whole) by {
            match whole {
                Ok(rest) => {
                    assert(Seq::<DescriptorView>::empty() + rest =~= rest);
                },
                Err(e) => {},
            }
        }
        while pos < input.len()
            invariant
                pos <= input@.len(),
                whole == parse_descriptors_spec(input@),
                whole == prepend(
                    list@.map_values(|d: Descriptor| d@),
                    parse_descriptors_spec(input@.skip(pos as int)),
                ),
            decreases input@.len() - pos,
        {
            let ghost views = list@.map_values(|d: Descriptor| d@);
            let ghost rest = input@.skip(pos as int);
            assert(rest.len() == input@.len() - pos);
            if input.len() - pos < 2 {
                return Err(Error::TsGeneric);
            }
            let tag: u8 = input[pos];
            let len: usize = input[pos + 1] as usize;
            assert(rest[0] == tag && rest[1] == len);
            if input.len() - pos - 2 < len {
                return Err(Error::TsGeneric);
            }
            let data = copy_range(input, pos + 2, pos + 2 + len);
            let entry = Descriptor { tag, data };
            proof {
                assert(rest.subrange(2, 2 + len as int) =~= input@.subrange(
                    pos + 2,
                    pos + 2 + len,
                ));
                assert(rest.skip(2 + len as int) =~= input@.skip(pos + 2 + len));
                lemma_prepend_step(
                    views,
                    entry@,
                    parse_descriptors_spec(input@.skip(pos + 2 + len)),
                );
                assert(list@.push(entry).map_values(|d: Descriptor| d@) =~= views.push(entry@));
            }
            list.push(entry);
            pos = pos + 2 + len;
        }
        proof {
            lemma_prepend_done(list@.map_values(|d: Descriptor| d@));
        }
        Ok(list)
    }

    /// Reads the length of a list of descriptors from the two bytes at `at`.
    fn parse_info_len(&self, input: &[u8], at: usize) -> (r: Result<usize, Error>)
        requires
            at <= 8,
        ensures
            match info_len_at(input@, at as int) {
                Ok(len) => r == Ok::<usize, Error>(len as usize) && len <= 0x3FF,
                Err(e) => r == Err::<usize, Error>(e),
            },
    {
        if input.len() < at + 2 {
            return Err(Error::TsGeneric);
        }
        let n: u16 = get_u16(input, at);
        if n / 0x1000 != 0xF || (n / 0x400) % 4 != 0 {
            return Err(Error::TsGeneric);
        }
        Ok((n % 0x400) as usize)
    }

    /// Reads the PID in the two bytes at `at`.
    fn parse_pid_at(&self, input: &[u8], at: usize) -> (r: Result<crate::mpegts::pid::Pid, Error>)
        requires
            at <= 8,
        ensures
            reads_as(r, pid_at(input@, at as int)),
    {
        if input.len() < at + 2 {
            return Err(Error::TsGeneric);
        }
        self.parse_pid(slice_subrange(input, at, at + 2))
    }

    /// Reads the entry of an elementary stream that starts `input`, and
    /// tells how many bytes the entry takes.
    pub fn parse_es_info(&self, input: &[u8]) -> (r: Result<(EsInfo, usize), Error>)
        ensures
            match parse_es_info_spec(input@) {
                Ok((v, used)) => r matches Ok((t, n)) && t@ == v && n == used && 0 < n
                    <= input@.len(),
                Err(e) => r == Err::<(EsInfo, usize), Error>(e),
            },
    {
        if input.len() < 5 {
            return Err(Error::TsGeneric);
        }
        let stream_type = StreamType::from_u8(input[0]);
        let elementary_pid = match self.parse_pid_at(input, 1) {
            Ok(pid) => pid,
            Err(e) => {
                return Err(e);
            },
        };
        let len: usize = match self.parse_info_len(input, 3) {
            Ok(len) => len,
            Err(e) => {
                return Err(e);
            },
        };
        if input.len() < 5 + len {
            return Err(Error::TsGeneric);
        }
        let descriptors = match self.parse_descriptors(slice_subrange(input, 5, 5 + len)) {
            Ok(d) => d,
            Err(e) => {
                return Err(e);
            },
        };
        Ok((EsInfo { stream_type, elementary_pid, descriptors }, 5 + len))
    }

    /// Reads the entries of elementary streams that `input` holds, one
    /// after the other.
    fn parse_es_infos(&self, input: &[u8]) -> (r: Result<Vec<EsInfo>, Error>)
        ensures
            match parse_es_infos_spec(input@) {
                Ok(v) => r matches Ok(t) && t@.map_values(|e: EsInfo| e@) == v,
                Err(e) => r == Err::<Vec<EsInfo>, Error>(e),
            },
    {
        let ghost whole = parse_es_infos_spec(input@);
        let mut list: Vec<EsInfo> = Vec::new();
        let mut pos: usize = 0;
        assert(list@.map_values(|e: EsInfo| e@) =~= Seq::<EsInfoView>::empty());
        assert(input@.skip(0) =~= input@);
        assert(prepend(Seq::<EsInfoView>::empty(), whole) == whole) by {
            match whole {
                Ok(rest) => {
                    assert(Seq::<EsInfoView>::empty() + rest =~= rest);
                },
                Err(e) => {},
            }
        }
        while pos < input.len()
            invariant
                pos <= input@.len(),
                whole == parse_es_infos_spec(input@),
                whole == prepend(
                    list@.map_values(|e: EsInfo| e@),
                    parse_es_infos_spec(input@.skip(pos as int)),
                ),
            decreases input@.len() - pos,
        {
            let ghost views = list@.map_values(|e: EsInfo| e@);
            let ghost rest = input@.skip(pos as int);
            assert(rest.len() == input@.len() - pos);
            let (entry, used) = match self.parse_es_info(slice_subrange(input, pos, input.len())) {
                Ok(x) => x,
                Err(e) => {
                    assert(input@.subrange(pos as int, input@.len() as int) =~= rest);
                    assert(parse_es_infos_spec(rest) == Err::<Seq<EsInfoView>, Error>(e));
                    return Err(e);
                },
            };
            proof {
                assert(input@.subrange(pos as int, input@.len() as int) =~= rest);
                assert(rest.skip(used as int) =~= input@.skip(pos + used));
                lemma_prepend_step(views, entry@, parse_es_infos_spec(input@.skip(pos + used)));
                assert(list@.push(entry).map_values(|e: EsInfo| e@) =~= views.push(entry@));
            }
            list.push(entry);
            pos += used;
        }
        proof {
            lemma_prepend_done(list@.map_values(|e: EsInfo| e@));
        }
        Ok(list)
    }

    /// Reads a PMT from the payload of a packet: PCR PID, descriptors and
    /// elementary streams stand in the last table of the section.
    pub fn parse_pmt(&self, input: &[u8]) -> (r: Result<Pmt, Error>)
        ensures
            reads_as(r, parse_pmt_spec(input@)),
    {
        let syntax = match self.parse_last_syntax(input) {
            Ok(s) => s,
            Err(e) => {
                return Err(e);
            },
        };
        let data = syntax.table_data.as_slice();
        let pcr_pid = match self.parse_pid_at(data, 0) {
            Ok(pid) => pid,
            Err(e) => {
                return Err(e);
            },
        };
        let pcr_pid = if pcr_pid.as_u16() == crate::mpegts::pid::Pid::NULL {
            None
        } else {
            Some(pcr_pid)
        };
        let len: usize = match self.parse_info_len(data, 2) {
            Ok(len) => len,
            Err(e) => {
                return Err(e);
            },
        };
        if data.len() < 4 + len {
            return Err(Error::TsGeneric);
        }
        let program_info = match self.parse_descriptors(slice_subrange(data, 4, 4 + len)) {
            Ok(d) => d,
            Err(e) => {
                return Err(e);
            },
        };
        let es_info = match self.parse_es_infos(slice_subrange(data, 4 + len, data.len())) {
            Ok(d) => d,
            Err(e) => {
                return Err(e);
            },
        };
        assert(data@.subrange(4 + len, data@.len() as int) =~= data@.skip(4 + len));
        Ok(
            Pmt {
                program_num: syntax.table_id_extension,
                pcr_pid,
                version_number: syntax.version_number,
                program_info,
                es_info,
            },
        )
    }
}

} // verus!
