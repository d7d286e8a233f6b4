//! The program map table.
use super::psi::{
    psi_bytes, table_writable, PsiTableHeader, PsiTableSyntaxView, PsiTableView, PsiView,
};
use crate::mpegts::pid::{pid_at, pid_bytes, Pid};
use crate::mpegts::stream_type::StreamType;
use crate::mpegts::version::VersionNumber;
use super::psi::{last_syntax_spec, lemma_section_inverse};
use crate::mpegts::wire::lemma_read_back_u16;
use crate::error::Error;
use crate::mpegts::wire::{u16_at, u16_bytes};
use crate::mpegts::WritableLen;
use vstd::prelude::*;

verus! {

/// Program Map Table.
#[derive(Debug, Clone, PartialEq, Eq, Hash)]
pub struct Pmt {
    pub program_num: u16,
    /// The packet identifier that contains the program clock reference (PCR).
    ///
    /// The PCR is used to improve the random access accuracy of the stream's timing
    /// that is derived from the program timestamp.
    pub pcr_pid: Option<Pid>,
    pub version_number: VersionNumber,
    pub program_info: Vec<Descriptor>,
    pub es_info: Vec<EsInfo>,
}

/// Elementary stream information.
#[derive(Debug, Clone, PartialEq, Eq, Hash)]
pub struct EsInfo {
    pub stream_type: StreamType,
    /// The packet identifier that contains the stream type data.
    pub elementary_pid: Pid,
    pub descriptors: Vec<Descriptor>,
}

/// Program or elementary stream descriptor.
#[derive(Debug, Clone, PartialEq, Eq, Hash)]
pub struct Descriptor {
    pub tag: u8,
    pub data: Vec<u8>,
}

/// What a [`Descriptor`] holds.
pub ghost struct DescriptorView {
    pub tag: u8,
    pub data: Seq<u8>,
}

/// What an [`EsInfo`] holds.
pub ghost struct EsInfoView {
    pub stream_type: u8,
    pub elementary_pid: u16,
    pub descriptors: Seq<DescriptorView>,
}

/// What a [`Pmt`] holds.
pub ghost struct PmtView {
    pub program_num: u16,
    pub pcr_pid: Option<u16>,
    pub version_number: u8,
    pub program_info: Seq<DescriptorView>,
    pub es_info: Seq<EsInfoView>,
}

impl View for Descriptor {
    type V = DescriptorView;

    open spec fn view(&self) -> DescriptorView {
        DescriptorView { tag: self.tag, data: self.data@ }
    }
}

impl View for EsInfo {
    type V = EsInfoView;

    open spec fn view(&self) -> EsInfoView {
        EsInfoView {
            stream_type: self.stream_type@,
            elementary_pid: self.elementary_pid@,
            descriptors: self.descriptors@.map_values(|d: Descriptor| d@),
        }
    }
}

impl View for Pmt {
    type V = PmtView;

    open spec fn view(&self) -> PmtView {
        PmtView {
            program_num: self.program_num,
            pcr_pid: match self.pcr_pid {
                Some(p) => Some(p@),
                None => None,
            },
            version_number: self.version_number@,
            program_info: self.program_info@.map_values(|d: Descriptor| d@),
            es_info: self.es_info@.map_values(|e: EsInfo| e@),
        }
    }
}

/// The bytes of a descriptor: its tag, the length of its data, its data.
pub open spec fn descriptor_bytes(d: DescriptorView) -> Seq<u8> {
    seq![d.tag, d.data.len() as u8] + d.data
}

/// The bytes of descriptors, one after the other.
pub open spec fn descriptors_bytes(ds: Seq<DescriptorView>) -> Seq<u8>
    decreases ds.len(),
{
    if ds.len() == 0 {
        Seq::empty()
    } else {
        descriptors_bytes(ds.drop_last()) + descriptor_bytes(ds.last())
    }
}

/// The number of bytes of descriptors: two and the data, for each.
pub open spec fn descriptors_size(ds: Seq<DescriptorView>) -> nat
    decreases ds.len(),
{
    if ds.len() == 0 {
        0
    } else {
        descriptors_size(ds.drop_last()) + 2 + ds.last().data.len()
    }
}

/// Whether a list of descriptors can be written: the data of each fit its
/// length byte, and all together fit the 10-bit length before them.
pub open spec fn descriptors_writable(ds: Seq<DescriptorView>) -> bool {
    &&& forall|i: int| 0 <= i < ds.len() ==> (#[trigger] ds[i]).data.len() <= 255
    &&& descriptors_size(ds) <= 0x3FF
}

/// The 16-bit field before a list of descriptors: four reserved bits set,
/// two unused bits clear, and the 10-bit length of the list.
pub open spec fn info_len_bytes(len: nat) -> Seq<u8> {
    u16_bytes(0xF000 + len as int)
}

/// The bytes of the entry of one elementary stream: stream type, PID, then
/// the descriptors behind their length.
pub open spec fn es_info_bytes(e: EsInfoView) -> Seq<u8> {
    seq![e.stream_type] + pid_bytes(e.elementary_pid) + info_len_bytes(
        descriptors_size(e.descriptors),
    ) + descriptors_bytes(e.descriptors)
}

/// The bytes of entries of elementary streams, one after the other.
pub open spec fn es_infos_bytes(es: Seq<EsInfoView>) -> Seq<u8>
    decreases es.len(),
{
    if es.len() == 0 {
        Seq::empty()
    } else {
        es_infos_bytes(es.drop_last()) + es_info_bytes(es.last())
    }
}

/// The number of bytes of entries of elementary streams.
pub open spec fn es_infos_size(es: Seq<EsInfoView>) -> nat
    decreases es.len(),
{
    if es.len() == 0 {
        0
    } else {
        es_infos_size(es.drop_last()) + 5 + descriptors_size(es.last().descriptors)
    }
}

/// Whether every entry of elementary streams can be written.
pub open spec fn es_infos_writable(es: Seq<EsInfoView>) -> bool {
    forall|i: int| 0 <= i < es.len() ==> descriptors_writable((#[trigger] es[i]).descriptors)
}

/// The 16-bit field of the PCR PID: the PID, or all bits set where no
/// stream carries the clock.
pub open spec fn pcr_pid_bytes(pcr_pid: Option<u16>) -> Seq<u8> {
    match pcr_pid {
        Some(pid) => pid_bytes(pid),
        None => u16_bytes(0xFFFF),
    }
}

/// The table data of a PMT: the PCR PID, the program descriptors behind
/// their length, then the elementary streams.
pub open spec fn pmt_table_data(p: PmtView) -> Seq<u8> {
    pcr_pid_bytes(p.pcr_pid) + info_len_bytes(descriptors_size(p.program_info))
        + descriptors_bytes(p.program_info) + es_infos_bytes(p.es_info)
}

/// The table that carries a PMT: table id 2, current, a single section.
pub open spec fn pmt_table(p: PmtView) -> PsiTableView {
    PsiTableView {
        header: PsiTableHeader {
            table_id: Pmt::TABLE_ID,
            private_bit: false,
            syntax_section_indicator: true,
        },
        syntax: Some(
            PsiTableSyntaxView {
                table_id_extension: p.program_num,
                version_number: p.version_number,
                current_next_indicator: true,
                section_number: 0,
                last_section_number: 0,
                table_data: pmt_table_data(p),
            },
        ),
    }
}

/// Whether a PMT can be written: a PCR PID that is present is not the one
/// that stands for absence, every list of descriptors can be written, and
/// the whole fits one section.
pub open spec fn pmt_writable(p: PmtView) -> bool {
    &&& p.pcr_pid != Some(Pid::NULL)
    &&& descriptors_writable(p.program_info)
    &&& es_infos_writable(p.es_info)
    &&& table_writable(pmt_table(p))
}

/// The payload bytes of a PMT: a PSI section with its one table.
pub open spec fn pmt_bytes(p: PmtView) -> Seq<u8> {
    psi_bytes(PsiView { tables: seq![pmt_table(p)] })
}

/// The bytes of descriptors are as many as their size says.
pub proof fn lemma_descriptors_len(ds: Seq<DescriptorView>)
    ensures
        descriptors_bytes(ds).len() == descriptors_size(ds),
    decreases ds.len(),
{
    if ds.len() > 0 {
        lemma_descriptors_len(ds.drop_last());
    }
}

/// The bytes of entries of elementary streams are as many as their size
/// says.
pub proof fn lemma_es_infos_len(es: Seq<EsInfoView>)
    ensures
        es_infos_bytes(es).len() == es_infos_size(es),
    decreases es.len(),
{
    if es.len() > 0 {
        lemma_es_infos_len(es.drop_last());
        lemma_descriptors_len(es.last().descriptors);
    }
}

/// A PMT takes 17 bytes and those of its descriptors and streams.
pub proof fn lemma_pmt_bytes_len(p: PmtView)
    ensures
        pmt_table_data(p).len() == 4 + descriptors_size(p.program_info) + es_infos_size(
            p.es_info,
        ),
        pmt_bytes(p).len() == 17 + descriptors_size(p.program_info) + es_infos_size(p.es_info),
{
    lemma_descriptors_len(p.program_info);
    lemma_es_infos_len(p.es_info);
    let tables = seq![pmt_table(p)];
    assert(tables.drop_last() =~= Seq::<PsiTableView>::empty());
    reveal_with_fuel(super::psi::tables_bytes, 2);
}

/// What the bytes say of the descriptors that they hold, one after the
/// other: each a tag, a length, and as many bytes of data.
pub open spec fn parse_descriptors_spec(d: Seq<u8>) -> Result<Seq<DescriptorView>, Error>
    decreases d.len(),
{
    if d.len() == 0 {
        Ok(Seq::empty())
    } else if d.len() < 2 || d.len() < 2 + d[1] {
        Err(Error::TsGeneric)
    } else {
        match parse_descriptors_spec(d.skip(2 + d[1])) {
            Err(e) => Err(e),
            Ok(rest) => Ok(
                seq![DescriptorView { tag: d[0], data: d.subrange(2, 2 + d[1]) }] + rest,
            ),
        }
    }
}

/// The length that the 16-bit field at `at` declares for a list of
/// descriptors. The four bits before it must be set and the two after them
/// clear.
pub open spec fn info_len_at(d: Seq<u8>, at: int) -> Result<int, Error> {
    if d.len() < at + 2 || u16_at(d, at) / 0x1000 != 0xF || (u16_at(d, at) / 0x400) % 4 != 0 {
        Err(Error::TsGeneric)
    } else {
        Ok(u16_at(d, at) % 0x400)
    }
}

/// What the bytes say of the entry of an elementary stream that starts
/// them, and how many bytes the entry takes.
pub open spec fn parse_es_info_spec(d: Seq<u8>) -> Result<(EsInfoView, int), Error> {
    if d.len() < 5 {
        Err(Error::TsGeneric)
    } else {
        match pid_at(d, 1) {
            Err(e) => Err(e),
            Ok(elementary_pid) => match info_len_at(d, 3) {
                Err(e) => Err(e),
                Ok(len) => if d.len() < 5 + len {
                    Err(Error::TsGeneric)
                } else {
                    match parse_descriptors_spec(d.subrange(5, 5 + len)) {
                        Err(e) => Err(e),
                        Ok(descriptors) => Ok(
                            (
                                EsInfoView { stream_type: d[0], elementary_pid, descriptors },
                                5 + len,
                            ),
                        ),
                    }
                },
            },
        }
    }
}

/// What the bytes say of the entries of elementary streams that they hold,
/// one after the other.
pub open spec fn parse_es_infos_spec(d: Seq<u8>) -> Result<Seq<EsInfoView>, Error>
    decreases d.len(),
{
    if d.len() == 0 {
        Ok(Seq::empty())
    } else {
        match parse_es_info_spec(d) {
            Err(e) => Err(e),
            Ok((entry, used)) => if used <= 0 || used > d.len() {
                Err(Error::TsGeneric)
            } else {
                match parse_es_infos_spec(d.skip(used)) {
                    Err(e) => Err(e),
                    Ok(rest) => Ok(seq![entry] + rest),
                }
            },
        }
    }
}

/// What the table data of a PMT say: the PCR PID, where all its bits set
/// stand for none; the program descriptors behind their length; then the
/// elementary streams.
pub open spec fn parse_pmt_data_spec(d: Seq<u8>) -> Result<
    (Option<u16>, Seq<DescriptorView>, Seq<EsInfoView>),
    Error,
> {
    match pid_at(d, 0) {
        Err(e) => Err(e),
        Ok(pid) => match info_len_at(d, 2) {
            Err(e) => Err(e),
            Ok(len) => if d.len() < 4 + len {
                Err(Error::TsGeneric)
            } else {
                match parse_descriptors_spec(d.subrange(4, 4 + len)) {
                    Err(e) => Err(e),
                    Ok(program_info) => match parse_es_infos_spec(d.skip(4 + len)) {
                        Err(e) => Err(e),
                        Ok(es_info) => Ok(
                            (
                                if pid == Pid::NULL {
                                    None
                                } else {
                                    Some(pid)
                                },
                                program_info,
                                es_info,
                            ),
                        ),
                    },
                }
            },
        },
    }
}

/// What the payload bytes of a packet say of the PMT in them.
pub open spec fn parse_pmt_spec(s: Seq<u8>) -> Result<PmtView, Error> {
    match last_syntax_spec(s) {
        Err(e) => Err(e),
        Ok(syntax) => match parse_pmt_data_spec(syntax.table_data) {
            Err(e) => Err(e),
            Ok((pcr_pid, program_info, es_info)) => Ok(
                PmtView {
                    program_num: syntax.table_id_extension,
                    pcr_pid,
                    version_number: syntax.version_number,
                    program_info,
                    es_info,
                },
            ),
        },
    }
}

/// Whether the fields of a PMT fit their bits.
pub open spec fn pmt_valid(p: PmtView) -> bool {
    &&& p.version_number <= VersionNumber::MAX
    &&& match p.pcr_pid {
        Some(pid) => pid <= Pid::MAX,
        None => true,
    }
    &&& forall|i: int| 0 <= i < p.es_info.len() ==> (#[trigger] p.es_info[i]).elementary_pid
        <= Pid::MAX
}

/// The bytes of descriptors are those of the first, then those of the
/// others.
pub proof fn lemma_descriptors_front(ds: Seq<DescriptorView>)
    requires
        ds.len() > 0,
    ensures
        descriptors_bytes(ds) == descriptor_bytes(ds[0]) + descriptors_bytes(ds.skip(1)),
        descriptors_size(ds) == 2 + ds[0].data.len() + descriptors_size(ds.skip(1)),
    decreases ds.len(),
{
    if ds.len() == 1 {
        assert(ds.drop_last() =~= Seq::<DescriptorView>::empty());
        assert(ds.skip(1) =~= Seq::<DescriptorView>::empty());
        assert(descriptors_bytes(ds) =~= descriptor_bytes(ds[0]) + descriptors_bytes(ds.skip(1)));
    } else {
        lemma_descriptors_front(ds.drop_last());
        assert(ds.drop_last().skip(1) =~= ds.skip(1).drop_last());
        assert(ds.skip(1).last() == ds.last());
        assert(descriptors_bytes(ds) =~= descriptor_bytes(ds[0]) + descriptors_bytes(ds.skip(1)));
    }
}

/// Reading the bytes of descriptors gives the descriptors back.
pub proof fn lemma_descriptors_inverse(ds: Seq<DescriptorView>)
    requires
        forall|i: int| 0 <= i < ds.len() ==> (#[trigger] ds[i]).data.len() <= 255,
    ensures
        parse_descriptors_spec(descriptors_bytes(ds)) == Ok::<Seq<DescriptorView>, Error>(ds),
    decreases ds.len(),
{
    if ds.len() > 0 {
        lemma_descriptors_front(ds);
        let first = ds[0];
        let head = descriptor_bytes(first);
        let rest = descriptors_bytes(ds.skip(1));
        let d = descriptors_bytes(ds);
        assert(d[0] == head[0] && d[1] == head[1]);
        assert(d[1] == first.data.len());
        assert(d.subrange(2, 2 + d[1]) =~= first.data);
        assert(d.skip(2 + d[1]) =~= rest);
        assert forall|i: int| 0 <= i < ds.skip(1).len() implies (#[trigger] ds.skip(
            1,
        )[i]).data.len() <= 255 by {
            assert(ds.skip(1)[i] == ds[i + 1]);
        }
        lemma_descriptors_inverse(ds.skip(1));
        assert(seq![first] + ds.skip(1) =~= ds);
        assert(d.len() == 2 + first.data.len() + rest.len());
    } else {
        assert(ds =~= Seq::<DescriptorView>::empty());
    }
}

/// Reading the field before a list of descriptors gives its length back.
proof fn lemma_info_len(head: Seq<u8>, len: nat, rest: Seq<u8>)
    requires
        len <= 0x3FF,
    ensures
        info_len_at(head + info_len_bytes(len) + rest, head.len() as int) == Ok::<int, Error>(
            len as int,
        ),
{
    let w = 0xF000 + len as int;
    lemma_read_back_u16(w);
    let field = info_len_bytes(len);
    let all = head + field + rest;
    let at = head.len() as int;
    assert(all[at] == field[0] && all[at + 1] == field[1]);
    assert(u16_at(all, at) == w);
    assert(w / 0x1000 == 0xF);
    assert(w / 0x400 == 0x3C);
}

/// Reading the field of a PID gives the PID back.
proof fn lemma_pid_field(head: Seq<u8>, pid: u16, rest: Seq<u8>)
    requires
        pid <= Pid::MAX,
    ensures
        pid_at(head + pid_bytes(pid) + rest, head.len() as int) == Ok::<u16, Error>(pid),
{
    let w = 0xE000 + pid as int;
    lemma_read_back_u16(w);
    let field = pid_bytes(pid);
    let all = head + field + rest;
    let at = head.len() as int;
    assert(all[at] == field[0] && all[at + 1] == field[1]);
    assert(u16_at(all, at) == w);
    assert(w / 0x2000 == 7);
}

/// Reading the bytes of the entry of an elementary stream gives the entry
/// back and tells how many bytes it takes, whatever follows them.
pub proof fn lemma_es_info_inverse(e: EsInfoView, rest: Seq<u8>)
    requires
        e.elementary_pid <= Pid::MAX,
        descriptors_writable(e.descriptors),
    ensures
        parse_es_info_spec(es_info_bytes(e) + rest) == Ok::<(EsInfoView, int), Error>(
            (e, 5 + descriptors_size(e.descriptors) as int),
        ),
        es_info_bytes(e).len() == 5 + descriptors_size(e.descriptors),
{
    let size = descriptors_size(e.descriptors);
    let list = descriptors_bytes(e.descriptors);
    lemma_descriptors_len(e.descriptors);
    let d = es_info_bytes(e) + rest;
    let head = seq![e.stream_type];
    assert(d =~= head + pid_bytes(e.elementary_pid) + (info_len_bytes(size) + list + rest));
    lemma_pid_field(head, e.elementary_pid, info_len_bytes(size) + list + rest);
    assert(d =~= (head + pid_bytes(e.elementary_pid)) + info_len_bytes(size) + (list + rest));
    lemma_info_len(head + pid_bytes(e.elementary_pid), size, list + rest);
    assert(d.subrange(5, 5 + size as int) =~= list);
    lemma_descriptors_inverse(e.descriptors);
    assert(d[0] == e.stream_type);
}

/// The bytes of entries of elementary streams are those of the first, then
/// those of the others.
pub proof fn lemma_es_infos_front(es: Seq<EsInfoView>)
    requires
        es.len() > 0,
    ensures
        es_infos_bytes(es) == es_info_bytes(es[0]) + es_infos_bytes(es.skip(1)),
    decreases es.len(),
{
    if es.len() == 1 {
        assert(es.drop_last() =~= Seq::<EsInfoView>::empty());
        assert(es.skip(1) =~= Seq::<EsInfoView>::empty());
        assert(es_infos_bytes(es) =~= es_info_bytes(es[0]) + es_infos_bytes(es.skip(1)));
    } else {
        lemma_es_infos_front(es.drop_last());
        assert(es.drop_last().skip(1) =~= es.skip(1).drop_last());
        assert(es.skip(1).last() == es.last());
        assert(es_infos_bytes(es) =~= es_info_bytes(es[0]) + es_infos_bytes(es.skip(1)));
    }
}

/// Reading the bytes of entries of elementary streams gives the entries
/// back.
pub proof fn lemma_es_infos_inverse(es: Seq<EsInfoView>)
    requires
        es_infos_writable(es),
        forall|i: int| 0 <= i < es.len() ==> (#[trigger] es[i]).elementary_pid <= Pid::MAX,
    ensures
        parse_es_infos_spec(es_infos_bytes(es)) == Ok::<Seq<EsInfoView>, Error>(es),
    decreases es.len(),
{
    if es.len() > 0 {
        lemma_es_infos_front(es);
        let first = es[0];
        let rest = es_infos_bytes(es.skip(1));
        let d = es_infos_bytes(es);
        lemma_es_info_inverse(first, rest);
        let used = 5 + descriptors_size(first.descriptors) as int;
        assert(d.skip(used) =~= rest);
        assert forall|i: int| 0 <= i < es.skip(1).len() implies descriptors_writable(
            (#[trigger] es.skip(1)[i]).descriptors,
        ) && es.skip(1)[i].elementary_pid <= Pid::MAX by {
            assert(es.skip(1)[i] == es[i + 1]);
        }
        lemma_es_infos_inverse(es.skip(1));
        assert(seq![first] + es.skip(1) =~= es);
        assert(d.len() == used + rest.len());
    } else {
        assert(es =~= Seq::<EsInfoView>::empty());
    }
}

/// The PID that stands for a PCR PID in its field.
pub open spec fn pcr_pid_value(pcr_pid: Option<u16>) -> u16 {
    match pcr_pid {
        Some(pid) => pid,
        None => Pid::NULL,
    }
}

/// The table data of a PMT start with the field of the PCR PID and the
/// length of the program descriptors.
proof fn lemma_pmt_data_head(p: PmtView)
    requires
        pmt_writable(p),
        pmt_valid(p),
    ensures
        pid_at(pmt_table_data(p), 0) == Ok::<u16, Error>(pcr_pid_value(p.pcr_pid)),
        info_len_at(pmt_table_data(p), 2) == Ok::<int, Error>(
            descriptors_size(p.program_info) as int,
        ),
{
    let size = descriptors_size(p.program_info);
    let tail = descriptors_bytes(p.program_info) + es_infos_bytes(p.es_info);
    let d = pmt_table_data(p);
    let none = Seq::<u8>::empty();
    let pid = pcr_pid_value(p.pcr_pid);
    assert(pcr_pid_bytes(p.pcr_pid) == pid_bytes(pid));
    assert(d =~= none + pid_bytes(pid) + (info_len_bytes(size) + tail));
    lemma_pid_field(none, pid, info_len_bytes(size) + tail);
    assert(d =~= (none + pid_bytes(pid)) + info_len_bytes(size) + tail);
    lemma_info_len(none + pid_bytes(pid), size, tail);
}

/// The table data of a PMT go on with the program descriptors and end with
/// the elementary streams.
proof fn lemma_pmt_data_tail(p: PmtView)
    ensures
        pmt_table_data(p).len() == 4 + descriptors_size(p.program_info) + es_infos_bytes(
            p.es_info,
        ).len(),
        pmt_table_data(p).subrange(4, 4 + descriptors_size(p.program_info) as int)
            == descriptors_bytes(p.program_info),
        pmt_table_data(p).skip(4 + descriptors_size(p.program_info) as int) == es_infos_bytes(
            p.es_info,
        ),
{
    let size = descriptors_size(p.program_info) as int;
    lemma_descriptors_len(p.program_info);
    let d = pmt_table_data(p);
    assert(d.subrange(4, 4 + size) =~= descriptors_bytes(p.program_info));
    assert(d.skip(4 + size) =~= es_infos_bytes(p.es_info));
}

/// Reading the table data of a PMT gives back what they were made of.
pub proof fn lemma_pmt_data_inverse(p: PmtView)
    requires
        pmt_writable(p),
        pmt_valid(p),
    ensures
        parse_pmt_data_spec(pmt_table_data(p)) == Ok::<
            (Option<u16>, Seq<DescriptorView>, Seq<EsInfoView>),
            Error,
        >((p.pcr_pid, p.program_info, p.es_info)),
{
    lemma_pmt_data_head(p);
    lemma_pmt_data_tail(p);
    lemma_descriptors_inverse(p.program_info);
    lemma_es_infos_inverse(p.es_info);
}

/// Reading the payload bytes of a PMT gives the PMT back.
pub proof fn lemma_pmt_inverse(p: PmtView)
    requires
        pmt_writable(p),
        pmt_valid(p),
    ensures
        parse_pmt_spec(pmt_bytes(p)) == Ok::<PmtView, Error>(p),
{
    lemma_section_inverse(pmt_table(p));
    lemma_pmt_data_inverse(p);
}

impl Pmt {
    /// The table id of a PMT.
    pub const TABLE_ID: u8 = 2;
}

/// The size of a list of descriptors, as far as it stays within `limit`.
pub fn descriptors_len(ds: &Vec<Descriptor>, limit: usize) -> (r: Option<usize>)
    ensures
        match r {
            Some(n) => n == descriptors_size(ds@.map_values(|d: Descriptor| d@)) && n <= limit,
            None => descriptors_size(ds@.map_values(|d: Descriptor| d@)) > limit,
        },
{
    let ghost views = ds@.map_values(|d: Descriptor| d@);
    let mut n: usize = 0;
    let mut i: usize = 0;
    while i < ds.len()
        invariant
            i <= ds@.len(),
            views == ds@.map_values(|d: Descriptor| d@),
            n == descriptors_size(views.take(i as int)),
            n <= limit,
        decreases ds@.len() - i,
    {
        let len: usize = ds[i].data.len();
        proof {
            let next = views.take(i as int + 1);
            assert(next.drop_last() =~= views.take(i as int));
            assert(next.last() == ds@[i as int]@);
            lemma_descriptors_grow(views, i as int + 1, views.len() as int);
            assert(views.take(views.len() as int) =~= views);
        }
        if len > limit || 2 > limit - len || n > limit - len - 2 {
            return None;
        }
        n = n + 2 + len;
        i += 1;
    }
    assert(views.take(i as int) =~= views);
    Some(n)
}

/// A longer prefix of a list of descriptors is no smaller.
pub proof fn lemma_descriptors_grow(ds: Seq<DescriptorView>, i: int, j: int)
    requires
        0 <= i <= j <= ds.len(),
    ensures
        descriptors_size(ds.take(i)) <= descriptors_size(ds.take(j)),
    decreases j - i,
{
    if i < j {
        lemma_descriptors_grow(ds, i, j - 1);
        assert(ds.take(j).drop_last() =~= ds.take(j - 1));
    }
}

impl WritableLen for Pmt {
    open spec fn wire_len(&self) -> nat {
        pmt_bytes(self@).len()
    }

    fn writable_len(&self) -> usize {
        proof {
            lemma_pmt_bytes_len(self@);
        }
        let ghost es = self.es_info@.map_values(|e: EsInfo| e@);
        let ghost total = self.wire_len();
        let mut n: usize = 17;
        match descriptors_len(&self.program_info, usize::MAX - 17) {
            Some(len) => {
                n += len;
            },
            None => {
                assert(false);
            },
        }
        let mut i: usize = 0;
        while i < self.es_info.len()
            invariant
                i <= self.es_info@.len(),
                es == self.es_info@.map_values(|e: EsInfo| e@),
                n == 17 + descriptors_size(self@.program_info) + es_infos_size(es.take(i as int)),
                total == 17 + descriptors_size(self@.program_info) + es_infos_size(es),
                total <= usize::MAX,
            decreases self.es_info@.len() - i,
        {
            proof {
                let next = es.take(i as int + 1);
                assert(next.drop_last() =~= es.take(i as int));
                assert(next.last() == self.es_info@[i as int]@);
                lemma_es_infos_grow(es, i as int + 1, es.len() as int);
                assert(es.take(es.len() as int) =~= es);
            }
            match descriptors_len(&self.es_info[i].descriptors, usize::MAX - n - 5) {
                Some(len) => {
                    n = n + 5 + len;
                },
                None => {
                    assert(false);
                },
            }
            i += 1;
        }
        assert(es.take(i as int) =~= es);
        n
    }
}

/// A longer prefix of a list of elementary streams is no smaller.
pub proof fn lemma_es_infos_grow(es: Seq<EsInfoView>, i: int, j: int)
    requires
        0 <= i <= j <= es.len(),
    ensures
        es_infos_size(es.take(i)) <= es_infos_size(es.take(j)),
    decreases j - i,
{
    if i < j {
        lemma_es_infos_grow(es, i, j - 1);
        assert(es.take(j).drop_last() =~= es.take(j - 1));
    }
}

} // verus!
