//! Packetized elementary stream packets.
use super::bit;
use crate::mpegts::bytes::RawData;
use crate::mpegts::stream_id::StreamId;
use crate::error::Error;
use crate::mpegts::has_bit;
use crate::mpegts::timestamp::{
    escr_word, escr_word_markers, escr_word_reserved, escr_word_value, pts_word, pts_word_markers,
    pts_word_tag, pts_word_value, Clock, PtsDts, Timestamp, ESCR, ESCR_MARKER_BITS, PTS_MARKER_BITS,
};
use crate::mpegts::timestamp::{lemma_escr_word_inverse, lemma_pts_word_inverse};
use crate::mpegts::wire::{
    lemma_read_back_u16, lemma_read_back_u24, lemma_read_back_u40, lemma_read_back_u48, u16_at,
    u16_bytes, u24_at, u24_bytes, u40_at, u40_bytes, u48_at, u48_bytes,
};
use crate::mpegts::WritableLen;
use vstd::prelude::*;

verus! {

/// The three bytes that start every PES packet, as a number.
pub const PACKET_START_CODE_PREFIX: u64 = 0x00_0001;

/// Payload for PES(Packetized elementary stream) packets: the header and the
/// elementary stream bytes that share the transport packet with it.
#[derive(Debug, Clone, PartialEq, Eq, Hash)]
pub struct Pes {
    pub header: PesHeader,
    pub data: RawData,
}

/// PES packet header.
///
/// Note that `PesHeader` contains the fields that belong to the optional PES header.
#[derive(Debug, Clone, Copy, PartialEq, Eq, Hash)]
pub struct PesHeader {
    pub stream_id: StreamId,
    pub priority: bool,
    /// `true` indicates that the PES packet header is immediately followed by
    /// the video start code or audio syncword.
    pub data_alignment_indicator: bool,
    /// `true` implies copyrighted.
    pub copyright: bool,
    /// `true` implies original.
    pub original_or_copy: bool,
    pub pts: Option<Timestamp<PtsDts>>,
    pub dts: Option<Timestamp<PtsDts>>,
    /// Elementary stream clock reference.
    pub escr: Option<Timestamp<Clock<ESCR>>>,
    /// The number of bytes of the PES packet after this field, or zero where
    /// the packet ends with the next one's start.
    pub packet_len: u16,
}

/// What a [`PesHeader`] holds.
pub ghost struct PesHeaderView {
    pub stream_id: u8,
    pub priority: bool,
    pub data_alignment_indicator: bool,
    pub copyright: bool,
    pub original_or_copy: bool,
    pub pts: Option<u64>,
    pub dts: Option<u64>,
    pub escr: Option<u64>,
    pub packet_len: u16,
}

/// What a [`Pes`] holds.
pub ghost struct PesView {
    pub header: PesHeaderView,
    pub data: Seq<u8>,
}

impl View for PesHeader {
    type V = PesHeaderView;

    open spec fn view(&self) -> PesHeaderView {
        PesHeaderView {
            stream_id: self.stream_id@,
            priority: self.priority,
            data_alignment_indicator: self.data_alignment_indicator,
            copyright: self.copyright,
            original_or_copy: self.original_or_copy,
            pts: match self.pts {
                Some(t) => Some(t@),
                None => None,
            },
            dts: match self.dts {
                Some(t) => Some(t@),
                None => None,
            },
            escr: match self.escr {
                Some(t) => Some(t@),
                None => None,
            },
            packet_len: self.packet_len,
        }
    }
}

impl View for Pes {
    type V = PesView;

    open spec fn view(&self) -> PesView {
        PesView { header: self.header@, data: self.data@ }
    }
}

/// The number of bytes of the optional header: three, and those of the
/// timestamps that are present.
pub open spec fn optional_header_size(h: PesHeaderView) -> nat {
    (3 + (if h.pts is Some {
        5int
    } else {
        0int
    }) + (if h.dts is Some {
        5int
    } else {
        0int
    }) + (if h.escr is Some {
        6int
    } else {
        0int
    })) as nat
}

/// The first flags byte of the optional header: the marker `10`, no
/// scrambling, then the four properties.
pub open spec fn pes_property_flags(h: PesHeaderView) -> int {
    0x80 + bit(h.priority) * 0x08 + bit(h.data_alignment_indicator) * 0x04 + bit(h.copyright)
        * 0x02 + bit(h.original_or_copy)
}

/// The second flags byte of the optional header: one bit for each timestamp
/// that is present.
pub open spec fn pes_timestamp_flags(h: PesHeaderView) -> int {
    bit(h.pts is Some) * 0x80 + bit(h.dts is Some) * 0x40 + bit(h.escr is Some) * 0x20
}

/// The tag of the PTS: `0011` where a DTS follows, else `0010`.
pub open spec fn pts_tag(h: PesHeaderView) -> int {
    if h.dts is Some {
        3
    } else {
        2
    }
}

/// The bytes of a PTS or DTS under its tag, none where there is none.
pub open spec fn timestamp_part(t: Option<u64>, tag: int) -> Seq<u8> {
    match t {
        Some(t) => u40_bytes(pts_word(t as int, tag)),
        None => Seq::empty(),
    }
}

/// The bytes of an elementary stream clock reference, none where there is
/// none.
pub open spec fn escr_part(t: Option<u64>) -> Seq<u8> {
    match t {
        Some(t) => u48_bytes(escr_word(t as int)),
        None => Seq::empty(),
    }
}

/// The bytes of the timestamps that are present: PTS, DTS, ESCR.
pub open spec fn pes_timestamps_bytes(h: PesHeaderView) -> Seq<u8> {
    timestamp_part(h.pts, pts_tag(h)) + timestamp_part(h.dts, 1) + escr_part(h.escr)
}

/// The nine bytes that every PES header starts with: start code, stream
/// id, packet length, the two flags bytes, the length of what follows.
pub open spec fn pes_fixed_bytes(h: PesHeaderView) -> Seq<u8> {
    u24_bytes(PACKET_START_CODE_PREFIX as int) + seq![h.stream_id] + u16_bytes(
        h.packet_len as int,
    ) + seq![
        pes_property_flags(h) as u8,
        pes_timestamp_flags(h) as u8,
        (optional_header_size(h) - 3) as u8,
    ]
}

/// The bytes of a PES header: the nine fixed bytes, then the timestamps.
pub open spec fn pes_header_bytes(h: PesHeaderView) -> Seq<u8> {
    pes_fixed_bytes(h) + pes_timestamps_bytes(h)
}

/// Whether a PES header can be written: there is no DTS without a PTS.
pub open spec fn pes_header_writable(h: PesHeaderView) -> bool {
    h.dts is Some ==> h.pts is Some
}

/// The payload bytes of a PES start: the header, then the data.
pub open spec fn pes_bytes(p: PesView) -> Seq<u8> {
    pes_header_bytes(p.header) + p.data
}

/// A PES header takes six bytes and its optional header.
pub proof fn lemma_pes_header_len(h: PesHeaderView)
    ensures
        pes_header_bytes(h).len() == 6 + optional_header_size(h),
{
}

/// What the first five bytes say of a PTS or DTS at a place where `tag` is
/// expected: the marker bits must be set, and the tag must be the expected
/// one.
pub open spec fn parse_timestamp_spec(s: Seq<u8>, tag: u8) -> Result<u64, Error> {
    if s.len() < 5 {
        Err(Error::TsGeneric)
    } else if pts_word_markers(u40_at(s, 0)) != PTS_MARKER_BITS {
        Err(Error::UnexpectedMarkerBit(pts_word_markers(u40_at(s, 0)) as u64))
    } else if pts_word_tag(u40_at(s, 0)) != tag * 0x10_0000_0000 {
        Err(Error::UnexpectedMarkerBit(pts_word_tag(u40_at(s, 0)) as u64))
    } else {
        Ok(pts_word_value(u40_at(s, 0)) as u64)
    }
}

/// What the first six bytes say of an elementary stream clock reference:
/// the reserved bits must be clear and the marker bits set.
pub open spec fn parse_escr_spec(s: Seq<u8>) -> Result<u64, Error> {
    if s.len() < 6 || escr_word_reserved(u48_at(s, 0)) != 0 {
        Err(Error::TsGeneric)
    } else if escr_word_markers(u48_at(s, 0)) != ESCR_MARKER_BITS {
        Err(Error::UnexpectedMarkerBit(escr_word_markers(u48_at(s, 0)) as u64))
    } else {
        Ok(escr_word_value(u48_at(s, 0)) as u64)
    }
}

/// The PTS or DTS that stands at `at` under the tag of its place, where
/// one is present, and where the next part starts.
pub open spec fn timestamp_at(a: Seq<u8>, at: int, present: bool, tag: u8) -> Result<
    (Option<u64>, int),
    Error,
> {
    if !present {
        Ok((None, at))
    } else if at + 5 > a.len() {
        Err(Error::TsGeneric)
    } else {
        match parse_timestamp_spec(a.subrange(at, at + 5), tag) {
            Err(e) => Err(e),
            Ok(t) => Ok((Some(t), at + 5)),
        }
    }
}

/// The elementary stream clock reference that stands at `at`, where one is
/// present, and where the next part starts.
pub open spec fn escr_at(a: Seq<u8>, at: int, present: bool) -> Result<(Option<u64>, int), Error> {
    if !present {
        Ok((None, at))
    } else if at + 6 > a.len() {
        Err(Error::TsGeneric)
    } else {
        match parse_escr_spec(a.subrange(at, at + 6)) {
            Err(e) => Err(e),
            Ok(t) => Ok((Some(t), at + 6)),
        }
    }
}

/// What the bytes of the optional header behind its length byte say of the
/// timestamps that the flags byte `flags` announces. Bytes behind them are
/// stuffing and are passed over.
#[verifier::opaque]
pub open spec fn parse_pes_timestamps_spec(a: Seq<u8>, flags: u8) -> Result<
    (Option<u64>, Option<u64>, Option<u64>),
    Error,
> {
    match timestamp_at(
        a,
        0,
        has_bit(flags, 0x80),
        if has_bit(flags, 0x40) {
            3
        } else {
            2
        },
    ) {
        Err(e) => Err(e),
        Ok((pts, o1)) => match timestamp_at(a, o1, has_bit(flags, 0x40), 1) {
            Err(e) => Err(e),
            Ok((dts, o2)) => match escr_at(a, o2, has_bit(flags, 0x20)) {
                Err(e) => Err(e),
                Ok((escr, _)) => Ok((pts, dts, escr)),
            },
        },
    }
}

/// Why the nine fixed bytes of a PES header are refused, if they are: too
/// few bytes, another start code, the marker `10` missing, scrambling, a
/// DTS without a PTS, or one of the five flags that the codec does not
/// support.
#[verifier::opaque]
pub open spec fn pes_fixed_error(s: Seq<u8>) -> Option<Error> {
    if s.len() < 9 || u24_at(s, 0) != PACKET_START_CODE_PREFIX {
        Some(Error::TsGeneric)
    } else if s[6] / 0x40 != 2 {
        Some(Error::UnexpectedMarkerBit(((s[6] / 0x40) * 0x40) as u64))
    } else if (s[6] / 0x10) % 4 != 0 || (has_bit(s[7], 0x40) && !has_bit(s[7], 0x80)) || s[7]
        % 0x20 != 0 {
        Some(Error::TsGeneric)
    } else {
        None
    }
}

/// What the bytes say of the PES header that starts them, and how many
/// bytes the header takes.
pub open spec fn parse_pes_header_spec(s: Seq<u8>) -> Result<(PesHeaderView, int), Error> {
    match pes_fixed_error(s) {
        Some(e) => Err(e),
        None => if s.len() < 9 + s[8] {
            Err(Error::TsGeneric)
        } else {
            match parse_pes_timestamps_spec(s.subrange(9, 9 + s[8]), s[7]) {
                Err(e) => Err(e),
                Ok((pts, dts, escr)) => Ok(
                    (
                        PesHeaderView {
                            stream_id: s[3],
                            priority: has_bit(s[6], 0x08),
                            data_alignment_indicator: has_bit(s[6], 0x04),
                            copyright: has_bit(s[6], 0x02),
                            original_or_copy: has_bit(s[6], 0x01),
                            pts,
                            dts,
                            escr,
                            packet_len: u16_at(s, 4) as u16,
                        },
                        9 + s[8],
                    ),
                ),
            }
        },
    }
}

/// The elementary stream bytes behind a PES header of `used` bytes: all
/// that is left of the packet where the header declares no length, else as
/// many as the declared length leaves behind the header, as far as the
/// packet holds them.
pub open spec fn pes_data_len(rest: int, packet_len: u16, used: int) -> int {
    if packet_len == 0 || packet_len - (used - 6) > rest {
        rest
    } else {
        packet_len - (used - 6)
    }
}

/// What the payload bytes of a packet say of the PES start in them. A
/// declared length that does not even cover the header is an error.
pub open spec fn parse_pes_spec(s: Seq<u8>) -> Result<PesView, Error> {
    match parse_pes_header_spec(s) {
        Err(e) => Err(e),
        Ok((header, used)) => if header.packet_len != 0 && header.packet_len < used - 6 {
            Err(Error::TsGeneric)
        } else if pes_data_len(s.len() - used, header.packet_len, used) > RawData::MAX_SIZE {
            Err(
                Error::ValueTooLarge(
                    pes_data_len(s.len() - used, header.packet_len, used) as u64,
                ),
            )
        } else {
            Ok(
                PesView {
                    header,
                    data: s.subrange(
                        used,
                        used + pes_data_len(s.len() - used, header.packet_len, used),
                    ),
                },
            )
        },
    }
}

/// Whether the timestamps of a PES header fit their bits.
pub open spec fn pes_header_valid(h: PesHeaderView) -> bool {
    &&& match h.pts {
        Some(t) => t <= 0x1_FFFF_FFFF,
        None => true,
    }
    &&& match h.dts {
        Some(t) => t <= 0x1_FFFF_FFFF,
        None => true,
    }
    &&& match h.escr {
        Some(t) => t <= 0x258_0000_00D3,
        None => true,
    }
}

/// Reading a PTS or DTS where it was written under its tag gives it back.
pub proof fn lemma_timestamp_inverse(head: Seq<u8>, t: Option<u64>, tag: int, rest: Seq<u8>)
    requires
        1 <= tag <= 3,
        t is Some ==> t.unwrap() <= 0x1_FFFF_FFFF,
    ensures
        timestamp_at(head + timestamp_part(t, tag) + rest, head.len() as int, t is Some, tag as u8)
            == Ok::<(Option<u64>, int), Error>(
            (t, (head.len() + timestamp_part(t, tag).len()) as int),
        ),
{
    match t {
        Some(v) => {
            let n = pts_word(v as int, tag);
            lemma_pts_word_inverse(v as int, tag);
            lemma_read_back_u40(n);
            let part = timestamp_part(t, tag);
            let all = head + part + rest;
            let at = head.len() as int;
            assert(all.subrange(at, at + 5) =~= part);
        },
        None => {},
    }
}

/// Reading an elementary stream clock reference where it was written gives
/// it back.
pub proof fn lemma_escr_inverse(head: Seq<u8>, t: Option<u64>, rest: Seq<u8>)
    requires
        t is Some ==> t.unwrap() <= 0x258_0000_00D3,
    ensures
        escr_at(head + escr_part(t) + rest, head.len() as int, t is Some) == Ok::<
            (Option<u64>, int),
            Error,
        >((t, (head.len() + escr_part(t).len()) as int)),
{
    match t {
        Some(v) => {
            let n = escr_word(v as int);
            lemma_escr_word_inverse(v as int);
            lemma_read_back_u48(n);
            let part = escr_part(t);
            let all = head + part + rest;
            let at = head.len() as int;
            assert(all.subrange(at, at + 6) =~= part);
        },
        None => {},
    }
}

/// Each flag of a PES header can be read off its two flags bytes.
pub proof fn lemma_pes_flags(h: PesHeaderView)
    ensures
        0x80 <= pes_property_flags(h) <= 0x8F,
        pes_property_flags(h) / 0x40 == 2,
        (pes_property_flags(h) / 0x10) % 4 == 0,
        (pes_property_flags(h) / 0x08) % 2 == bit(h.priority),
        (pes_property_flags(h) / 0x04) % 2 == bit(h.data_alignment_indicator),
        (pes_property_flags(h) / 0x02) % 2 == bit(h.copyright),
        pes_property_flags(h) % 2 == bit(h.original_or_copy),
        0 <= pes_timestamp_flags(h) <= 0xE0,
        (pes_timestamp_flags(h) / 0x80) % 2 == bit(h.pts is Some),
        (pes_timestamp_flags(h) / 0x40) % 2 == bit(h.dts is Some),
        (pes_timestamp_flags(h) / 0x20) % 2 == bit(h.escr is Some),
        pes_timestamp_flags(h) % 0x20 == 0,
{
    let a = bit(h.priority);
    let b = bit(h.data_alignment_indicator);
    let c = bit(h.copyright);
    let d = bit(h.original_or_copy);
    let f = pes_property_flags(h);
    assert(f == 0x80 + a * 8 + b * 4 + c * 2 + d);
    assert(f / 2 == 0x40 + a * 4 + b * 2 + c);
    assert(f / 4 == 0x20 + a * 2 + b);
    assert(f / 8 == 0x10 + a);
    let p = bit(h.pts is Some);
    let q = bit(h.dts is Some);
    let r = bit(h.escr is Some);
    let g = pes_timestamp_flags(h);
    assert(g == p * 0x80 + q * 0x40 + r * 0x20);
    assert(g / 0x20 == p * 4 + q * 2 + r);
    assert(g / 0x40 == p * 2 + q);
    assert(g / 0x80 == p);
}

/// What reading finds at each timestamp of a PES header that was written.
proof fn lemma_pes_timestamp_parts(h: PesHeaderView, stuffing: Seq<u8>)
    requires
        pes_header_writable(h),
        pes_header_valid(h),
    ensures
        ({
            let all = pes_timestamps_bytes(h) + stuffing;
            let o1 = timestamp_part(h.pts, pts_tag(h)).len() as int;
            let o2 = o1 + timestamp_part(h.dts, 1).len() as int;
            let o3 = o2 + escr_part(h.escr).len() as int;
            &&& timestamp_at(all, 0, h.pts is Some, pts_tag(h) as u8) == Ok::<
                (Option<u64>, int),
                Error,
            >((h.pts, o1))
            &&& timestamp_at(all, o1, h.dts is Some, 1) == Ok::<(Option<u64>, int), Error>(
                (h.dts, o2),
            )
            &&& escr_at(all, o2, h.escr is Some) == Ok::<(Option<u64>, int), Error>((h.escr, o3))
        }),
{
    let none = Seq::<u8>::empty();
    let p = timestamp_part(h.pts, pts_tag(h));
    let d = timestamp_part(h.dts, 1);
    let e = escr_part(h.escr);
    let all = pes_timestamps_bytes(h) + stuffing;
    assert(all =~= none + p + (d + e + stuffing));
    lemma_timestamp_inverse(none, h.pts, pts_tag(h), d + e + stuffing);
    assert(all =~= (none + p) + d + (e + stuffing));
    lemma_timestamp_inverse(none + p, h.dts, 1, e + stuffing);
    assert(all =~= (none + p + d) + e + stuffing);
    lemma_escr_inverse(none + p + d, h.escr, stuffing);
}

/// Reading the timestamps of a PES header where they were written gives
/// them back, whatever stuffing follows them.
pub proof fn lemma_pes_timestamps_inverse(h: PesHeaderView, stuffing: Seq<u8>)
    requires
        pes_header_writable(h),
        pes_header_valid(h),
    ensures
        parse_pes_timestamps_spec(
            pes_timestamps_bytes(h) + stuffing,
            pes_timestamp_flags(h) as u8,
        ) == Ok::<(Option<u64>, Option<u64>, Option<u64>), Error>((h.pts, h.dts, h.escr)),
{
    reveal(parse_pes_timestamps_spec);
    lemma_pes_flags(h);
    lemma_pes_timestamp_parts(h, stuffing);
    let flags = pes_timestamp_flags(h) as u8;
    assert(has_bit(flags, 0x80) == (h.pts is Some));
    assert(has_bit(flags, 0x40) == (h.dts is Some));
    assert(has_bit(flags, 0x20) == (h.escr is Some));
}

/// What reading finds in the nine fixed bytes of a PES header that was
/// written.
pub proof fn lemma_pes_fixed_inverse(h: PesHeaderView, rest: Seq<u8>)
    requires
        pes_header_writable(h),
    ensures
        ({
            let s = pes_fixed_bytes(h) + rest;
            &&& pes_fixed_bytes(h).len() == 9
            &&& pes_fixed_error(s) is None
            &&& s[3] == h.stream_id
            &&& u16_at(s, 4) == h.packet_len
            &&& has_bit(s[6], 0x08) == h.priority
            &&& has_bit(s[6], 0x04) == h.data_alignment_indicator
            &&& has_bit(s[6], 0x02) == h.copyright
            &&& has_bit(s[6], 0x01) == h.original_or_copy
            &&& s[7] == pes_timestamp_flags(h)
            &&& s[8] == optional_header_size(h) - 3
        }),
{
    reveal(pes_fixed_error);
    lemma_pes_flags(h);
    lemma_read_back_u24(PACKET_START_CODE_PREFIX as int);
    lemma_read_back_u16(h.packet_len as int);
    let s = pes_fixed_bytes(h) + rest;
    let code = u24_bytes(PACKET_START_CODE_PREFIX as int);
    let len = u16_bytes(h.packet_len as int);
    assert(s[0] == code[0] && s[1] == code[1] && s[2] == code[2]);
    assert(s[4] == len[0] && s[5] == len[1]);
    assert(s[6] == pes_property_flags(h));
    assert(s[7] == pes_timestamp_flags(h));
}

/// Reading the bytes of a PES header gives the header back and tells how
/// many bytes it takes, whatever follows them.
pub proof fn lemma_pes_header_inverse(h: PesHeaderView, rest: Seq<u8>)
    requires
        pes_header_writable(h),
        pes_header_valid(h),
    ensures
        parse_pes_header_spec(pes_header_bytes(h) + rest) == Ok::<(PesHeaderView, int), Error>(
            (h, 6 + optional_header_size(h) as int),
        ),
        pes_header_bytes(h).len() == 6 + optional_header_size(h),
{
    let times = pes_timestamps_bytes(h);
    let s = pes_header_bytes(h) + rest;
    assert(s =~= pes_fixed_bytes(h) + (times + rest));
    lemma_pes_fixed_inverse(h, times + rest);
    lemma_pes_timestamps_inverse(h, Seq::empty());
    assert(times.len() == optional_header_size(h) - 3);
    let area = s.subrange(9, 9 + s[8]);
    assert(area =~= times + Seq::<u8>::empty());
    assert(parse_pes_timestamps_spec(area, s[7]) == Ok::<
        (Option<u64>, Option<u64>, Option<u64>),
        Error,
    >((h.pts, h.dts, h.escr)));
    assert(pes_fixed_error(s) is None);
    assert(s.len() >= 9 + s[8]);
}

/// Reading the payload bytes of a PES start gives the PES start back,
/// where the header declares no length or one that covers the data.
pub proof fn lemma_pes_inverse(p: PesView)
    requires
        pes_header_writable(p.header),
        pes_header_valid(p.header),
        p.data.len() <= RawData::MAX_SIZE,
        p.header.packet_len == 0 || p.header.packet_len >= optional_header_size(p.header)
            + p.data.len(),
    ensures
        parse_pes_spec(pes_bytes(p)) == Ok::<PesView, Error>(p),
{
    lemma_pes_header_inverse(p.header, p.data);
    let s = pes_bytes(p);
    let used = 6 + optional_header_size(p.header) as int;
    assert(s.subrange(used, used + p.data.len()) =~= p.data);
}

impl PesHeader {
    /// The number of bytes of the optional header.
    pub fn optional_header_len(&self) -> (r: u16)
        ensures
            r == optional_header_size(self@),
            3 <= r <= 19,
    {
        let mut n: u16 = 3;
        if self.pts.is_some() {
            n += 5;
        }
        if self.dts.is_some() {
            n += 5;
        }
        if self.escr.is_some() {
            n += 6;
        }
        n
    }
}

impl WritableLen for Pes {
    open spec fn wire_len(&self) -> nat {
        pes_bytes(self@).len()
    }

    fn writable_len(&self) -> usize {
        proof {
            lemma_pes_header_len(self@.header);
        }
        6 + self.header.optional_header_len() as usize + self.data.len()
    }
}

} // verus!
