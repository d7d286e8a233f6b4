//! The transport stream packet: header, adaptation field and payload in
//! exactly 188 bytes.
use super::adaptation_field::{
    adaptation_field_bytes, adaptation_field_fits, adaptation_valid, empty_field,
    lemma_adaptation_field_inverse, lemma_stuffing_field_inverse, parse_adaptation_field_spec,
    stuffing_field_bytes, AdaptationField, AdaptationFieldControl, AdaptationFieldView,
};
use super::pat::{
    lemma_pat_inverse, parse_pat_spec, pat_bytes, pat_valid, pat_writable, Pat, PatView,
    ProgramAssociationView,
};
use super::pes::{
    lemma_pes_inverse, optional_header_size, parse_pes_spec, pes_bytes, pes_header_valid,
    pes_header_writable, Pes, PesView,
};
use super::pmt::{
    lemma_pmt_inverse, parse_pmt_spec, pmt_bytes, pmt_valid, pmt_writable, EsInfoView, Pmt, PmtView,
};
use crate::error::Error;
use crate::mpegts::has_bit;
use crate::mpegts::pid::{forget, kind_in, learn, streams_of, PidKind, PidTable};
use super::section::{section_bytes, Section, SectionView};
use super::{bit, Null};
use crate::mpegts::bytes::RawData;
use crate::mpegts::continuity_counter::ContinuityCounter;
use crate::mpegts::pid::Pid;
use crate::mpegts::WritableLen;
use vstd::prelude::*;

verus! {

/// Transport scrambling control.
#[derive(Debug, Clone, Copy, PartialEq, Eq, Structural, Hash)]
pub enum TransportScramblingControl {
    NotScrambled,
    Reserved,
    ScrambledWithEvenKey,
    ScrambledWithOddKey,
    Unknown(u8),
}

impl TransportScramblingControl {
    /// The control that `n` stands for.
    pub open spec fn of(n: u8) -> Self {
        if n == 0 {
            TransportScramblingControl::NotScrambled
        } else if n == 1 {
            TransportScramblingControl::Reserved
        } else if n == 2 {
            TransportScramblingControl::ScrambledWithEvenKey
        } else if n == 3 {
            TransportScramblingControl::ScrambledWithOddKey
        } else {
            TransportScramblingControl::Unknown(n)
        }
    }

    /// The number that stands for the control.
    pub open spec fn bits(self) -> int {
        match self {
            TransportScramblingControl::NotScrambled => 0,
            TransportScramblingControl::Reserved => 1,
            TransportScramblingControl::ScrambledWithEvenKey => 2,
            TransportScramblingControl::ScrambledWithOddKey => 3,
            TransportScramblingControl::Unknown(v) => v as int,
        }
    }

    /// The control that `n` stands for.
    pub fn from_u8(n: u8) -> (r: Self)
        ensures
            n == 0 ==> r == TransportScramblingControl::NotScrambled,
            n == 1 ==> r == TransportScramblingControl::Reserved,
            n == 2 ==> r == TransportScramblingControl::ScrambledWithEvenKey,
            n == 3 ==> r == TransportScramblingControl::ScrambledWithOddKey,
            n > 3 ==> r == TransportScramblingControl::Unknown(n),
            r == TransportScramblingControl::of(n),
            r.bits() == n,
    {
        match n {
            0 => TransportScramblingControl::NotScrambled,
            1 => TransportScramblingControl::Reserved,
            2 => TransportScramblingControl::ScrambledWithEvenKey,
            3 => TransportScramblingControl::ScrambledWithOddKey,
            v => TransportScramblingControl::Unknown(v),
        }
    }

    /// The number that stands for the control.
    pub fn as_u8(&self) -> (r: u8)
        ensures
            r == self.bits(),
    {
        match self {
            TransportScramblingControl::NotScrambled => 0,
            TransportScramblingControl::Reserved => 1,
            TransportScramblingControl::ScrambledWithEvenKey => 2,
            TransportScramblingControl::ScrambledWithOddKey => 3,
            TransportScramblingControl::Unknown(v) => *v,
        }
    }
}

/// Transport stream packet.
#[derive(Debug, Clone, PartialEq, Eq, Hash)]
pub struct TsPacket {
    pub header: TsHeader,
    pub adaptation_field: Option<AdaptationField>,
    pub payload: Option<TsPayload>,
}

impl TsPacket {
    /// Size of a packet in bytes.
    pub const SIZE: usize = 188;

    /// Synchronization byte.
    ///
    /// Each packet starts with this byte.
    pub const SYNC_BYTE: u8 = 0x47;
}

/// TS packet header.
#[derive(Debug, Clone, Copy, PartialEq, Eq, Hash)]
pub struct TsHeader {
    pub transport_error_indicator: bool,
    pub transport_priority: bool,
    pub pid: Pid,
    pub transport_scrambling_control: TransportScramblingControl,
    pub continuity_counter: ContinuityCounter,
    pub adaptation_field_control: AdaptationFieldControl,
    pub payload_unit_start_indicator: bool,
}

/// TS packet payload.
#[derive(Debug, Clone, PartialEq, Eq, Hash)]
pub enum TsPayload {
    Pat(Pat),
    Pmt(Pmt),
    Pes(Pes),
    Section(Section),
    Null(Null),
    Raw(RawData),
}

/// What a [`TsHeader`] holds.
pub ghost struct TsHeaderView {
    pub transport_error_indicator: bool,
    pub transport_priority: bool,
    pub pid: u16,
    pub transport_scrambling_control: TransportScramblingControl,
    pub continuity_counter: u8,
    pub adaptation_field_control: AdaptationFieldControl,
    pub payload_unit_start_indicator: bool,
}

/// What a [`TsPayload`] holds.
pub ghost enum TsPayloadView {
    Pat(PatView),
    Pmt(PmtView),
    Pes(PesView),
    Section(SectionView),
    Null,
    Raw(Seq<u8>),
}

/// What a [`TsPacket`] holds.
pub ghost struct TsPacketView {
    pub header: TsHeaderView,
    pub adaptation_field: Option<AdaptationFieldView>,
    pub payload: Option<TsPayloadView>,
}

impl View for TsHeader {
    type V = TsHeaderView;

    open spec fn view(&self) -> TsHeaderView {
        TsHeaderView {
            transport_error_indicator: self.transport_error_indicator,
            transport_priority: self.transport_priority,
            pid: self.pid@,
            transport_scrambling_control: self.transport_scrambling_control,
            continuity_counter: self.continuity_counter@,
            adaptation_field_control: self.adaptation_field_control,
            payload_unit_start_indicator: self.payload_unit_start_indicator,
        }
    }
}

impl View for TsPayload {
    type V = TsPayloadView;

    open spec fn view(&self) -> TsPayloadView {
        match self {
            TsPayload::Pat(x) => TsPayloadView::Pat(x@),
            TsPayload::Pmt(x) => TsPayloadView::Pmt(x@),
            TsPayload::Pes(x) => TsPayloadView::Pes(x@),
            TsPayload::Section(x) => TsPayloadView::Section(x@),
            TsPayload::Null(_) => TsPayloadView::Null,
            TsPayload::Raw(x) => TsPayloadView::Raw(x@),
        }
    }
}

impl View for TsPacket {
    type V = TsPacketView;

    open spec fn view(&self) -> TsPacketView {
        TsPacketView {
            header: self.header@,
            adaptation_field: match self.adaptation_field {
                Some(a) => Some(a@),
                None => None,
            },
            payload: match self.payload {
                Some(p) => Some(p@),
                None => None,
            },
        }
    }
}

/// The four bytes of a header: the synchronization byte; the error
/// indicator, the start indicator, the priority and the high five bits of
/// the PID; the low eight bits of the PID; the scrambling control, the
/// adaptation field control and the continuity counter.
pub open spec fn ts_header_bytes(h: TsHeaderView) -> Seq<u8> {
    seq![
        TsPacket::SYNC_BYTE,
        (bit(h.transport_error_indicator) * 0x80 + bit(h.payload_unit_start_indicator) * 0x40
            + bit(h.transport_priority) * 0x20 + h.pid / 0x100) as u8,
        (h.pid % 0x100) as u8,
        (h.transport_scrambling_control.bits() * 0x40 + h.adaptation_field_control.bits() * 0x10
            + h.continuity_counter) as u8,
    ]
}

/// The bytes of a payload.
pub open spec fn payload_bytes(p: TsPayloadView) -> Seq<u8> {
    match p {
        TsPayloadView::Pat(x) => pat_bytes(x),
        TsPayloadView::Pmt(x) => pmt_bytes(x),
        TsPayloadView::Pes(x) => pes_bytes(x),
        TsPayloadView::Section(x) => section_bytes(x),
        TsPayloadView::Null => Seq::empty(),
        TsPayloadView::Raw(x) => x,
    }
}

/// Whether a payload can be written at all, whatever room there is.
pub open spec fn payload_writable(p: TsPayloadView) -> bool {
    match p {
        TsPayloadView::Pat(x) => pat_writable(x),
        TsPayloadView::Pmt(x) => pmt_writable(x),
        TsPayloadView::Pes(x) => pes_header_writable(x.header),
        TsPayloadView::Section(_) => true,
        TsPayloadView::Null => true,
        TsPayloadView::Raw(_) => true,
    }
}

/// The bytes of the payload of a packet: none where it has no payload.
pub open spec fn packet_payload_bytes(p: TsPacketView) -> Seq<u8> {
    match p.payload {
        Some(x) => payload_bytes(x),
        None => Seq::empty(),
    }
}

/// The room that the payload of a packet leaves behind the header.
pub open spec fn packet_free_len(p: TsPacketView) -> int {
    TsPacket::SIZE - 4 - packet_payload_bytes(p).len()
}

/// Whether the payload of a packet starts a unit: a table or a PES packet
/// does, a slice of raw bytes, a null payload or no payload does not.
pub open spec fn starts_unit(p: Option<TsPayloadView>) -> bool {
    match p {
        Some(TsPayloadView::Raw(_)) => false,
        Some(TsPayloadView::Null) => false,
        None => false,
        _ => true,
    }
}

/// The adaptation field control that a packet is written with: an
/// adaptation field is there when the packet has one or has room to fill,
/// a payload when the packet has one.
pub open spec fn chosen_control(p: TsPacketView) -> AdaptationFieldControl {
    if p.adaptation_field is Some || packet_free_len(p) > 0 {
        if p.payload is Some {
            AdaptationFieldControl::AdaptationFieldAndPayload
        } else {
            AdaptationFieldControl::AdaptationFieldOnly
        }
    } else {
        AdaptationFieldControl::PayloadOnly
    }
}

/// Whether what the header of a packet declares agrees with what the packet
/// holds: a header that declares an adaptation field alone comes with no
/// payload bytes, and one that declares the reserved value with no payload.
pub open spec fn declared_control_agrees(p: TsPacketView) -> bool {
    &&& p.header.adaptation_field_control == AdaptationFieldControl::AdaptationFieldOnly
        ==> packet_payload_bytes(p).len() == 0
    &&& p.header.adaptation_field_control == AdaptationFieldControl::Reserved ==> p.payload
        is None
}

/// Whether a packet can be written: its scrambling control fits two bits,
/// its payload can be written and fits behind the header, its adaptation
/// field fits the room that the payload leaves, and its header agrees with
/// what it holds.
pub open spec fn ts_packet_writable(p: TsPacketView) -> bool {
    &&& p.header.transport_scrambling_control.bits() <= 3
    &&& match p.payload {
        Some(x) => payload_writable(x),
        None => true,
    }
    &&& packet_payload_bytes(p).len() <= TsPacket::SIZE - 4
    &&& match p.adaptation_field {
        Some(a) => adaptation_field_fits(a, packet_free_len(p)),
        None => true,
    }
    &&& declared_control_agrees(p)
}

/// The header that a packet is written with: its own, with the adaptation
/// field control and the start indicator that follow from what it holds.
pub open spec fn written_header(p: TsPacketView) -> TsHeaderView {
    TsHeaderView {
        adaptation_field_control: chosen_control(p),
        payload_unit_start_indicator: starts_unit(p.payload),
        ..p.header
    }
}

/// The bytes between header and payload of a packet: its adaptation field,
/// stretched by stuffing over all the room that the payload leaves; or,
/// where it has none, a field of stuffing over that room.
pub open spec fn packet_adaptation_bytes(p: TsPacketView) -> Seq<u8> {
    match p.adaptation_field {
        Some(a) => adaptation_field_bytes(a, packet_free_len(p)),
        None => if packet_free_len(p) > 0 {
            stuffing_field_bytes(packet_free_len(p))
        } else {
            Seq::empty()
        },
    }
}

/// The 188 bytes of a packet: header, adaptation field, payload.
pub open spec fn ts_packet_bytes(p: TsPacketView) -> Seq<u8> {
    ts_header_bytes(written_header(p)) + packet_adaptation_bytes(p) + packet_payload_bytes(p)
}

/// The PID in the header of a packet.
pub open spec fn packet_pid(b: Seq<u8>) -> int {
    (b[1] % 0x20) * 0x100 + b[2]
}

/// The start indicator in the header of a packet.
pub open spec fn packet_start_indicator(b: Seq<u8>) -> bool {
    (b[1] / 0x40) % 2 == 1
}

/// The adaptation field control in the header of a packet, as a number.
pub open spec fn packet_control(b: Seq<u8>) -> int {
    ((b[3] / 0x10) % 4) as int
}

/// The continuity counter in the header of a packet.
pub open spec fn packet_counter(b: Seq<u8>) -> int {
    (b[3] % 0x10) as int
}

/// The number of bytes that the adaptation field of a packet takes, as its
/// header and its length byte declare it.
pub open spec fn packet_adaptation_len(b: Seq<u8>) -> int {
    if packet_control(b) >= 2 {
        1 + b[4]
    } else {
        0
    }
}

/// Whether a packet declares an adaptation field with flags in it.
pub open spec fn packet_has_flags(b: Seq<u8>) -> bool {
    packet_control(b) >= 2 && b[4] > 0
}

/// Whether a packet carries a program clock reference.
pub open spec fn packet_has_pcr(b: Seq<u8>) -> bool {
    packet_has_flags(b) && (b[5] / 0x10) % 2 == 1
}

/// Whether a packet is marked as a point of random access.
pub open spec fn packet_random_access(b: Seq<u8>) -> bool {
    packet_has_flags(b) && (b[5] / 0x40) % 2 == 1
}

/// The bytes between header and payload of a packet that can be written
/// fill the room that the payload leaves, and start with their own length.
pub proof fn lemma_adaptation_room(p: TsPacketView)
    requires
        ts_packet_writable(p),
    ensures
        packet_adaptation_bytes(p).len() == packet_free_len(p),
        packet_free_len(p) > 0 ==> packet_adaptation_bytes(p)[0] == packet_free_len(p) - 1,
        packet_free_len(p) > 1 ==> packet_adaptation_bytes(p)[1] == (match p.adaptation_field {
            Some(a) => super::adaptation_field::adaptation_flags(a),
            None => 0,
        }),
        p.adaptation_field is Some ==> packet_free_len(p) > 1,
{
    match p.adaptation_field {
        Some(a) => {
            super::adaptation_field::lemma_adaptation_body_len(a);
        },
        None => {},
    }
}

/// What the bytes of a written packet say: there are 188 of them, the first
/// is the synchronization byte, and the header holds the PID, the counter,
/// the start indicator and the control that the packet was written with.
pub proof fn lemma_written_header(p: TsPacketView)
    requires
        ts_packet_writable(p),
        p.header.pid <= Pid::MAX,
        p.header.continuity_counter <= ContinuityCounter::MAX,
    ensures
        ts_packet_bytes(p).len() == TsPacket::SIZE,
        ts_packet_bytes(p)[0] == TsPacket::SYNC_BYTE,
        packet_pid(ts_packet_bytes(p)) == p.header.pid,
        packet_counter(ts_packet_bytes(p)) == p.header.continuity_counter,
        packet_start_indicator(ts_packet_bytes(p)) == starts_unit(p.payload),
        packet_control(ts_packet_bytes(p)) == chosen_control(p).bits(),
{
    lemma_adaptation_room(p);
    let h = ts_header_bytes(written_header(p));
    let b = ts_packet_bytes(p);
    assert(b[0] == h[0] && b[1] == h[1] && b[2] == h[2] && b[3] == h[3]);
}

/// The adaptation field control of a written packet agrees with what the
/// packet holds: it declares an adaptation field exactly where bytes stand
/// between header and payload, as many as the length byte says, and a
/// payload exactly where the packet has one.
pub proof fn lemma_written_control(p: TsPacketView)
    requires
        ts_packet_writable(p),
        p.header.pid <= Pid::MAX,
        p.header.continuity_counter <= ContinuityCounter::MAX,
    ensures
        1 <= packet_control(ts_packet_bytes(p)) <= 3,
        (packet_control(ts_packet_bytes(p)) >= 2) == (packet_adaptation_bytes(p).len() > 0),
        (packet_control(ts_packet_bytes(p)) % 2 == 1) == (p.payload is Some),
        packet_adaptation_len(ts_packet_bytes(p)) == packet_adaptation_bytes(p).len(),
        4 + packet_adaptation_len(ts_packet_bytes(p)) + packet_payload_bytes(p).len()
            == TsPacket::SIZE,
        ts_packet_bytes(p).subrange(
            4 + packet_adaptation_len(ts_packet_bytes(p)),
            TsPacket::SIZE as int,
        ) == packet_payload_bytes(p),
{
    lemma_adaptation_room(p);
    lemma_written_header(p);
    let b = ts_packet_bytes(p);
    let a = packet_adaptation_bytes(p);
    if a.len() > 0 {
        assert(b[4] == a[0]);
    }
    assert(b.subrange(4 + a.len() as int, TsPacket::SIZE as int) =~= packet_payload_bytes(p));
}

/// A written packet carries a program clock reference exactly where its
/// adaptation field has one, and is marked as a point of random access
/// exactly where its adaptation field says so.
pub proof fn lemma_written_flags(p: TsPacketView)
    requires
        ts_packet_writable(p),
        p.header.pid <= Pid::MAX,
        p.header.continuity_counter <= ContinuityCounter::MAX,
    ensures
        packet_has_pcr(ts_packet_bytes(p)) == (match p.adaptation_field {
            Some(a) => a.pcr is Some,
            None => false,
        }),
        packet_random_access(ts_packet_bytes(p)) == (match p.adaptation_field {
            Some(a) => a.random_access_indicator,
            None => false,
        }),
{
    lemma_adaptation_room(p);
    lemma_written_control(p);
    let b = ts_packet_bytes(p);
    let a = packet_adaptation_bytes(p);
    if a.len() > 0 {
        assert(b[4] == a[0]);
    }
    if a.len() > 1 {
        assert(b[5] == a[1]);
    }
    match p.adaptation_field {
        Some(f) => {
            super::adaptation_field::lemma_adaptation_flags(f);
        },
        None => {},
    }
}

/// What the first four bytes say of the header of a packet. The first byte
/// must be the synchronization byte.
pub open spec fn parse_ts_header_spec(s: Seq<u8>) -> Result<TsHeaderView, Error> {
    if s.len() < 4 {
        Err(Error::TsGeneric)
    } else if s[0] != TsPacket::SYNC_BYTE {
        Err(Error::WrogSyncByte)
    } else {
        Ok(
            TsHeaderView {
                transport_error_indicator: has_bit(s[1], 0x80),
                transport_priority: has_bit(s[1], 0x20),
                pid: ((s[1] % 0x20) * 0x100 + s[2]) as u16,
                transport_scrambling_control: TransportScramblingControl::of(s[3] / 0x40),
                continuity_counter: s[3] % 0x10,
                adaptation_field_control: AdaptationFieldControl::of((s[3] / 0x10) % 4),
                payload_unit_start_indicator: has_bit(s[1], 0x40),
            },
        )
    }
}

/// Whether a PID is one of those that carry data which the codec passes
/// through unread.
pub open spec fn is_reserved_pid(pid: u16) -> bool {
    (0x0001 <= pid <= 0x001F) || pid == 0x1FFB
}

/// What raw bytes say: themselves, as far as a packet can hold them.
pub open spec fn parse_raw_spec(s: Seq<u8>) -> Result<TsPayloadView, Error> {
    if s.len() > RawData::MAX_SIZE {
        Err(Error::ValueTooLarge(s.len() as u64))
    } else {
        Ok(TsPayloadView::Raw(s))
    }
}

/// What the payload bytes of a packet say, given its header and the PIDs
/// learned so far: PID 0 carries the PAT and the null PID nothing; the
/// reserved PIDs carry raw bytes; a PID that a PAT announced carries a PMT;
/// a PID that a PMT announced carries a PES start where the packet starts a
/// unit, else raw bytes; any other PID is unknown.
pub open spec fn parse_payload_spec(pids: Map<u16, PidKind>, header: TsHeaderView, s: Seq<u8>)
    -> Result<TsPayloadView, Error> {
    if header.pid == Pid::PAT {
        match parse_pat_spec(s) {
            Ok(pat) => Ok(TsPayloadView::Pat(pat)),
            Err(e) => Err(e),
        }
    } else if header.pid == Pid::NULL {
        Ok(TsPayloadView::Null)
    } else if is_reserved_pid(header.pid) {
        parse_raw_spec(s)
    } else if kind_in(pids, header.pid) == PidKind::Pmt {
        match parse_pmt_spec(s) {
            Ok(pmt) => Ok(TsPayloadView::Pmt(pmt)),
            Err(e) => Err(e),
        }
    } else if kind_in(pids, header.pid) != PidKind::Pes {
        Err(Error::UnknownPid(header.pid))
    } else if header.payload_unit_start_indicator {
        match parse_pes_spec(s) {
            Ok(pes) => Ok(TsPayloadView::Pes(pes)),
            Err(e) => Err(e),
        }
    } else {
        parse_raw_spec(s)
    }
}

/// What the bytes behind the header of a packet say of its adaptation
/// field, where the header announces one, and where the payload starts.
pub open spec fn packet_adaptation_spec(header: TsHeaderView, s: Seq<u8>) -> Result<
    (Option<AdaptationFieldView>, int),
    Error,
> {
    if header.adaptation_field_control.announces_adaptation_field() {
        match parse_adaptation_field_spec(s.skip(4)) {
            Ok((a, used)) => Ok((a, 4 + used)),
            Err(e) => Err(e),
        }
    } else {
        Ok((None, 4))
    }
}

/// What the 188 bytes of a packet say, given the PIDs learned so far. A
/// header whose adaptation field control announces neither adaptation field
/// nor payload, as the reserved value does, is an error.
pub open spec fn parse_ts_packet_spec(pids: Map<u16, PidKind>, s: Seq<u8>) -> Result<
    TsPacketView,
    Error,
> {
    if s.len() != TsPacket::SIZE {
        Err(Error::TsGeneric)
    } else {
        match parse_ts_header_spec(s) {
            Err(e) => Err(e),
            Ok(header) => if !header.adaptation_field_control.announces_adaptation_field()
                && !header.adaptation_field_control.announces_payload() {
                Err(Error::TsGeneric)
            } else {
                match packet_adaptation_spec(header, s) {
                    Err(e) => Err(e),
                    Ok((adaptation_field, start)) => if (
                    header.adaptation_field_control.announces_payload()) {
                        match parse_payload_spec(pids, header, s.skip(start)) {
                            Err(e) => Err(e),
                            Ok(payload) => Ok(
                                TsPacketView { header, adaptation_field, payload: Some(payload) },
                            ),
                        }
                    } else {
                        Ok(TsPacketView { header, adaptation_field, payload: None })
                    },
                }
            },
        }
    }
}

/// The PIDs known after a packet with the given payload was read. A PAT
/// teaches the PIDs of the PMTs. A PMT teaches those of the elementary
/// streams of its program, in place of those that the last PMT of that
/// program had taught.
pub open spec fn table_after(t: PidTable, payload: Option<TsPayloadView>) -> PidTable {
    match payload {
        Some(TsPayloadView::Pat(pat)) => PidTable {
            pids: learn(
                t.pids,
                pat.table.map_values(|a: ProgramAssociationView| a.program_map_pid),
                PidKind::Pmt,
            ),
            programs: t.programs,
        },
        Some(TsPayloadView::Pmt(pmt)) => PidTable {
            pids: learn(
                forget(t.pids, streams_of(t.programs, pmt.program_num)),
                pmt.es_info.map_values(|e: EsInfoView| e.elementary_pid),
                PidKind::Pes,
            ),
            programs: t.programs.insert(
                pmt.program_num,
                pmt.es_info.map_values(|e: EsInfoView| e.elementary_pid),
            ),
        },
        _ => t,
    }
}

/// The header that is read back from the bytes of a header: the same, with
/// each control as the number that it stands for names it.
pub open spec fn header_as_read(h: TsHeaderView) -> TsHeaderView {
    TsHeaderView {
        transport_scrambling_control: TransportScramblingControl::of(
            h.transport_scrambling_control.bits() as u8,
        ),
        adaptation_field_control: AdaptationFieldControl::of(
            h.adaptation_field_control.bits() as u8,
        ),
        ..h
    }
}

/// Whether the fields of a header fit their bits.
pub open spec fn header_valid(h: TsHeaderView) -> bool {
    &&& h.pid <= Pid::MAX
    &&& h.continuity_counter <= ContinuityCounter::MAX
    &&& h.transport_scrambling_control.bits() <= 3
    &&& h.adaptation_field_control.bits() <= 3
}

/// Reading the bytes of a header gives the header back, whatever follows
/// them.
pub proof fn lemma_header_inverse(h: TsHeaderView, rest: Seq<u8>)
    requires
        header_valid(h),
    ensures
        parse_ts_header_spec(ts_header_bytes(h) + rest) == Ok::<TsHeaderView, Error>(
            header_as_read(h),
        ),
{
    let s = ts_header_bytes(h) + rest;
    let e = bit(h.transport_error_indicator);
    let u = bit(h.payload_unit_start_indicator);
    let p = bit(h.transport_priority);
    let high = h.pid as int / 0x100;
    assert(0 <= high < 0x20);
    let b1 = e * 0x80 + u * 0x40 + p * 0x20 + high;
    assert(s[0] == TsPacket::SYNC_BYTE);
    assert(s[1] == b1);
    assert(s[2] == h.pid % 0x100);
    assert(b1 / 0x80 == e);
    assert(b1 / 0x40 == e * 2 + u);
    assert(b1 / 0x20 == e * 4 + u * 2 + p);
    assert(b1 % 0x20 == high);
    let t = h.transport_scrambling_control.bits();
    let c = h.adaptation_field_control.bits();
    let b3 = t * 0x40 + c * 0x10 + h.continuity_counter;
    assert(s[3] == b3);
    assert(b3 / 0x40 == t);
    assert(b3 / 0x10 == t * 4 + c);
    assert(b3 % 0x10 == h.continuity_counter);
}

/// Whether the fields of a payload fit their bits, and a PES header
/// declares no length or one that covers the data.
pub open spec fn payload_valid(p: TsPayloadView) -> bool {
    match p {
        TsPayloadView::Pat(x) => pat_valid(x),
        TsPayloadView::Pmt(x) => pmt_valid(x),
        TsPayloadView::Pes(x) => pes_header_valid(x.header) && (x.header.packet_len == 0
            || x.header.packet_len >= optional_header_size(x.header) + x.data.len()),
        _ => true,
    }
}

/// Whether the fields of a packet fit their bits.
pub open spec fn packet_valid(p: TsPacketView) -> bool {
    &&& header_valid(p.header)
    &&& match p.adaptation_field {
        Some(a) => adaptation_valid(a),
        None => true,
    }
    &&& match p.payload {
        Some(x) => payload_valid(x),
        None => true,
    }
}

/// Whether a PID is one that the tables give a meaning to: not that of the
/// PAT, not the null PID, not a reserved one.
pub open spec fn is_learned_pid(pid: u16) -> bool {
    pid != Pid::PAT && pid != Pid::NULL && !is_reserved_pid(pid)
}

/// Whether a payload stands on a PID that carries its kind, given the PIDs
/// learned so far: a PAT on PID 0, a null payload on the null PID, a PMT on
/// a PID that a PAT announced, a PES start on a PID that a PMT announced,
/// raw bytes on such a PID or on a reserved one.
pub open spec fn payload_on_its_pid(pids: Map<u16, PidKind>, pid: u16, p: TsPayloadView) -> bool {
    match p {
        TsPayloadView::Pat(_) => pid == Pid::PAT,
        TsPayloadView::Null => pid == Pid::NULL,
        TsPayloadView::Pmt(_) => is_learned_pid(pid) && kind_in(pids, pid) == PidKind::Pmt,
        TsPayloadView::Pes(_) => is_learned_pid(pid) && kind_in(pids, pid) == PidKind::Pes,
        TsPayloadView::Raw(_) => is_reserved_pid(pid) || (is_learned_pid(pid) && kind_in(pids, pid)
            == PidKind::Pes),
        TsPayloadView::Section(_) => false,
    }
}

/// The packet that is read back from the bytes of a packet: its header as
/// it was written, its payload, and its adaptation field; where it has
/// none, stuffing of more than one byte reads as an adaptation field that
/// holds nothing.
pub open spec fn packet_as_read(p: TsPacketView) -> TsPacketView {
    TsPacketView {
        header: header_as_read(written_header(p)),
        adaptation_field: match p.adaptation_field {
            Some(a) => Some(a),
            None => if packet_free_len(p) > 1 {
                Some(empty_field())
            } else {
                None
            },
        },
        payload: p.payload,
    }
}

/// Reading the payload bytes of a packet gives the payload back, where the
/// payload stands on a PID that carries its kind.
pub proof fn lemma_payload_inverse(pids: Map<u16, PidKind>, header: TsHeaderView, p: TsPayloadView)
    requires
        payload_writable(p),
        payload_valid(p),
        payload_bytes(p).len() <= RawData::MAX_SIZE,
        payload_on_its_pid(pids, header.pid, p),
        header.payload_unit_start_indicator == starts_unit(Some(p)),
    ensures
        parse_payload_spec(pids, header, payload_bytes(p)) == Ok::<TsPayloadView, Error>(p),
{
    match p {
        TsPayloadView::Pat(x) => {
            lemma_pat_inverse(x);
        },
        TsPayloadView::Pmt(x) => {
            lemma_pmt_inverse(x);
        },
        TsPayloadView::Pes(x) => {
            super::pes::lemma_pes_header_len(x.header);
            lemma_pes_inverse(x);
        },
        _ => {},
    }
}

/// What reading finds between the header and the payload of a packet that
/// was written.
pub proof fn lemma_packet_adaptation_inverse(p: TsPacketView)
    requires
        ts_packet_writable(p),
        packet_valid(p),
    ensures
        packet_adaptation_spec(
            header_as_read(written_header(p)),
            ts_packet_bytes(p),
        ) == Ok::<(Option<AdaptationFieldView>, int), Error>(
            (packet_as_read(p).adaptation_field, TsPacket::SIZE - packet_payload_bytes(p).len()),
        ),
        ts_packet_bytes(p).len() == TsPacket::SIZE,
        ts_packet_bytes(p).skip(TsPacket::SIZE - packet_payload_bytes(p).len())
            == packet_payload_bytes(p),
{
    lemma_adaptation_room(p);
    let b = ts_packet_bytes(p);
    let payload = packet_payload_bytes(p);
    let free = packet_free_len(p);
    assert(b.skip(4) =~= packet_adaptation_bytes(p) + payload);
    assert(b.skip(TsPacket::SIZE - payload.len()) =~= payload);
    match p.adaptation_field {
        Some(a) => {
            lemma_adaptation_field_inverse(a, free, payload);
        },
        None => {
            if free > 0 {
                lemma_stuffing_field_inverse(free, payload);
            }
        },
    }
}

/// The table that carries the payload of a packet with a PAT or a PMT.
pub open spec fn payload_table(p: TsPayloadView) -> super::psi::PsiTableView {
    match p {
        TsPayloadView::Pmt(x) => super::pmt::pmt_table(x),
        TsPayloadView::Pat(x) => super::pat::pat_table(x),
        _ => arbitrary(),
    }
}

/// The payload of a packet with a PAT or a PMT is a pointer field of zero
/// and the bytes of the table.
pub proof fn lemma_table_payload(p: TsPacketView)
    requires
        p.payload is Some,
        p.payload.unwrap() is Pat || p.payload.unwrap() is Pmt,
    ensures
        packet_payload_bytes(p) == seq![0u8] + super::psi::table_bytes(
            payload_table(p.payload.unwrap()),
        ),
        packet_payload_bytes(p).len() == 1 + super::psi::table_bytes(
            payload_table(p.payload.unwrap()),
        ).len(),
        packet_payload_bytes(p)[0] == 0,
        payload_table(p.payload.unwrap()).syntax is Some,
{
    let t = payload_table(p.payload.unwrap());
    let tables = seq![t];
    assert(tables.drop_last() =~= Seq::<super::psi::PsiTableView>::empty());
    reveal_with_fuel(super::psi::tables_bytes, 2);
    assert(packet_payload_bytes(p) =~= seq![0u8] + super::psi::table_bytes(t));
}

/// A packet that was written with a PAT or a PMT ends with the table,
/// behind a pointer field of zero.
pub proof fn lemma_written_table(p: TsPacketView)
    requires
        ts_packet_writable(p),
        header_valid(p.header),
        p.payload is Some,
        p.payload.unwrap() is Pat || p.payload.unwrap() is Pmt,
    ensures
        ({
            let b = ts_packet_bytes(p);
            let table = super::psi::table_bytes(payload_table(p.payload.unwrap()));
            &&& b.len() == TsPacket::SIZE
            &&& 4 <= table.len() < TsPacket::SIZE - 4
            &&& b.subrange(TsPacket::SIZE - table.len(), TsPacket::SIZE as int) == table
            &&& b[TsPacket::SIZE - table.len() - 1] == 0
        }),
{
    lemma_written_control(p);
    lemma_table_payload(p);
    let b = ts_packet_bytes(p);
    let table = super::psi::table_bytes(payload_table(p.payload.unwrap()));
    let payload = packet_payload_bytes(p);
    super::psi::lemma_table_checksum(payload_table(p.payload.unwrap()));
    let from = TsPacket::SIZE - table.len();
    let whole = b.subrange(from - 1, TsPacket::SIZE as int);
    assert(whole == payload);
    assert(b.subrange(from, TsPacket::SIZE as int) =~= whole.skip(1));
    assert(whole.skip(1) =~= table);
    assert(b[from - 1] == whole[0]);
}

/// A packet that was written with a PAT or a PMT ends with the table, and
/// the table with its checksum: the last four bytes of the packet are the
/// CRC-32/MPEG-2 of the bytes of the table before them.
pub proof fn lemma_written_checksum(p: TsPacketView)
    requires
        ts_packet_writable(p),
        header_valid(p.header),
        p.payload is Some,
        p.payload.unwrap() is Pat || p.payload.unwrap() is Pmt,
    ensures
        ({
            let b = ts_packet_bytes(p);
            let table = super::psi::table_bytes(payload_table(p.payload.unwrap()));
            &&& b.len() == TsPacket::SIZE
            &&& 4 <= table.len() < TsPacket::SIZE - 4
            &&& b.subrange(TsPacket::SIZE - table.len(), TsPacket::SIZE as int) == table
            &&& b[TsPacket::SIZE - table.len() - 1] == 0
            &&& crate::mpegts::wire::u32_at(b, TsPacket::SIZE - 4)
                == crate::mpegts::crc32::crc32_mpeg2(
                b.subrange(TsPacket::SIZE - table.len(), TsPacket::SIZE - 4),
            )
        }),
{
    lemma_written_table(p);
    lemma_table_payload(p);
    let b = ts_packet_bytes(p);
    let t = payload_table(p.payload.unwrap());
    let table = super::psi::table_bytes(t);
    super::psi::lemma_table_checksum(t);
    let from = TsPacket::SIZE - table.len();
    let covered = table.subrange(0, table.len() - 4);
    assert(b.subrange(from, TsPacket::SIZE - 4) =~= covered);
    let sum = crate::mpegts::crc32::crc32_mpeg2(covered) as int;
    crate::mpegts::wire::lemma_read_back_u32(sum);
    let tail = crate::mpegts::wire::u32_bytes(sum);
    assert(table.subrange(table.len() - 4, table.len() as int) == tail);
    assert(b[184] == table[table.len() - 4] && b[185] == table[table.len() - 3] && b[186]
        == table[table.len() - 2] && b[187] == table[table.len() - 1]);
    assert(table[table.len() - 4] == tail[0] && table[table.len() - 3] == tail[1]
        && table[table.len() - 2] == tail[2] && table[table.len() - 1] == tail[3]);
}

/// What reading finds in the header of a packet that was written.
pub proof fn lemma_packet_header_inverse(p: TsPacketView)
    requires
        ts_packet_writable(p),
        packet_valid(p),
    ensures
        parse_ts_header_spec(ts_packet_bytes(p)) == Ok::<TsHeaderView, Error>(
            header_as_read(written_header(p)),
        ),
        header_as_read(written_header(p)).adaptation_field_control == chosen_control(p),
        header_as_read(written_header(p)).pid == p.header.pid,
        header_as_read(written_header(p)).payload_unit_start_indicator == starts_unit(p.payload),
        chosen_control(p).announces_payload() == (p.payload is Some),
        chosen_control(p).announces_adaptation_field() == (p.adaptation_field is Some
            || packet_free_len(p) > 0),
{
    let b = ts_packet_bytes(p);
    lemma_header_inverse(written_header(p), packet_adaptation_bytes(p) + packet_payload_bytes(p));
    assert(b =~= ts_header_bytes(written_header(p)) + (packet_adaptation_bytes(p)
        + packet_payload_bytes(p)));
}

/// Reading the bytes of a packet gives the packet back, where its payload
/// stands on a PID that carries its kind: the header with the start
/// indicator and the adaptation field control that it was written with, the
/// adaptation field, and the payload.
pub proof fn lemma_packet_inverse(pids: Map<u16, PidKind>, p: TsPacketView)
    requires
        ts_packet_writable(p),
        packet_valid(p),
        match p.payload {
            Some(x) => payload_on_its_pid(pids, p.header.pid, x),
            None => true,
        },
    ensures
        parse_ts_packet_spec(pids, ts_packet_bytes(p)) == Ok::<TsPacketView, Error>(
            packet_as_read(p),
        ),
{
    let b = ts_packet_bytes(p);
    let header = header_as_read(written_header(p));
    lemma_packet_header_inverse(p);
    lemma_packet_adaptation_inverse(p);
    let start = TsPacket::SIZE - packet_payload_bytes(p).len();
    match p.payload {
        Some(x) => {
            lemma_payload_inverse(pids, header, x);
            assert(parse_payload_spec(pids, header, b.skip(start)) == Ok::<TsPayloadView, Error>(
                x,
            ));
        },
        None => {},
    }
}

/// Whether a place in the bytes of a written packet with a PAT or a PMT is
/// one that the checksum of the table guards: the table id, or a byte of
/// the syntax section before the checksum.
pub open spec fn guarded_packet_place(p: TsPacketView, pos: int) -> bool {
    let from = TsPacket::SIZE - super::psi::table_bytes(payload_table(p.payload.unwrap())).len();
    pos == from || from + 3 <= pos < TsPacket::SIZE - 4
}

/// The header and the adaptation field of a packet are read from the bytes
/// before its payload: a change behind them changes nothing of either.
pub proof fn lemma_damaged_packet_head(p: TsPacketView, pos: int, x: u8)
    requires
        ts_packet_writable(p),
        packet_valid(p),
        TsPacket::SIZE - packet_payload_bytes(p).len() <= pos < TsPacket::SIZE,
    ensures
        parse_ts_header_spec(ts_packet_bytes(p).update(pos, x)) == Ok::<TsHeaderView, Error>(
            header_as_read(written_header(p)),
        ),
        packet_adaptation_spec(
            header_as_read(written_header(p)),
            ts_packet_bytes(p).update(pos, x),
        ) == Ok::<(Option<AdaptationFieldView>, int), Error>(
            (packet_as_read(p).adaptation_field, TsPacket::SIZE - packet_payload_bytes(p).len()),
        ),
        ts_packet_bytes(p).update(pos, x).skip(TsPacket::SIZE - packet_payload_bytes(p).len())
            == packet_payload_bytes(p).update(
            pos - (TsPacket::SIZE - packet_payload_bytes(p).len()),
            x,
        ),
{
    let b = ts_packet_bytes(p);
    let bad = b.update(pos, x);
    let start = TsPacket::SIZE - packet_payload_bytes(p).len();
    lemma_packet_header_inverse(p);
    lemma_packet_adaptation_inverse(p);
    lemma_adaptation_room(p);
    assert(bad[0] == b[0] && bad[1] == b[1] && bad[2] == b[2] && bad[3] == b[3]);
    assert(bad.skip(start) =~= packet_payload_bytes(p).update(pos - start, x));
    let s = b.skip(4);
    let t = bad.skip(4);
    assert(s =~= packet_adaptation_bytes(p) + packet_payload_bytes(p));
    if packet_free_len(p) > 0 {
        assert(s[0] == packet_adaptation_bytes(p)[0]);
        assert(t[0] == s[0]);
        assert(t.subrange(1, 1 + s[0]) =~= s.subrange(1, 1 + s[0]));
    }
}

/// A written packet with a PAT or a PMT, with one byte of the table changed
/// at a place that its checksum guards, is refused.
pub proof fn lemma_damaged_packet_refused(pids: Map<u16, PidKind>, p: TsPacketView, pos: int, x: u8)
    requires
        ts_packet_writable(p),
        packet_valid(p),
        p.payload is Some,
        p.payload.unwrap() is Pat || p.payload.unwrap() is Pmt,
        payload_on_its_pid(pids, p.header.pid, p.payload.unwrap()),
        guarded_packet_place(p, pos),
        x != ts_packet_bytes(p)[pos],
    ensures
        parse_ts_packet_spec(pids, ts_packet_bytes(p).update(pos, x)) == Err::<
            TsPacketView,
            Error,
        >(Error::TsGeneric),
{
    let b = ts_packet_bytes(p);
    let t = payload_table(p.payload.unwrap());
    let table = super::psi::table_bytes(t);
    let from = TsPacket::SIZE - table.len();
    let payload = packet_payload_bytes(p);
    lemma_written_table(p);
    lemma_table_payload(p);
    super::psi::lemma_table_bytes_len(t);
    lemma_damaged_packet_head(p, pos, x);
    lemma_packet_header_inverse(p);
    assert(b[pos] == table[pos - from]);
    super::psi::lemma_damaged_section_refused(t, pos - from, x);
    assert(payload.update(pos - from + 1, x) =~= seq![0u8] + table.update(pos - from, x));
}

impl WritableLen for TsPayload {
    open spec fn wire_len(&self) -> nat {
        payload_bytes(self@).len()
    }

    fn writable_len(&self) -> usize {
        match self {
            TsPayload::Pat(pat) => pat.writable_len(),
            TsPayload::Pmt(pmt) => pmt.writable_len(),
            TsPayload::Pes(pes) => pes.writable_len(),
            TsPayload::Section(section) => section.writable_len(),
            TsPayload::Null(null) => null.writable_len(),
            TsPayload::Raw(raw_data) => raw_data.writable_len(),
        }
    }
}

} // verus!
