//! The adaptation field of a packet.
use super::bit;
use crate::mpegts::legal_time_window::{
    legal_time_window_word, LegalTimeWindow, LegalTimeWindowView,
};
use crate::mpegts::piecewise_rate::PiecewiseRate;
use crate::mpegts::seamless_splice::{seamless_splice_word, SeamlessSplice, SeamlessSpliceView};
use crate::mpegts::timestamp::{pcr_word, Clock, Timestamp, PCR};
use crate::error::Error;
use crate::mpegts::has_bit;
use crate::mpegts::timestamp::{
    lemma_pcr_word_inverse, lemma_pts_word_inverse, pcr_word_value, pts_word_markers,
    pts_word_value, PTS_MARKER_BITS,
};
use crate::mpegts::wire::{
    lemma_read_back_u16, lemma_read_back_u24, lemma_read_back_u40, lemma_read_back_u48, repeated,
    u16_at, u16_bytes, u24_at, u24_bytes, u40_at, u40_bytes, u48_at, u48_bytes,
};
use vstd::prelude::*;

verus! {

/// Adaptation field.
#[derive(Debug, Clone, PartialEq, Eq, Hash)]
pub struct AdaptationField {
    /// Set `true` if current TS packet is in a discontinuity state with respect to
    /// either the continuity counter or the program clock reference.
    pub discontinuity_indicator: bool,
    /// Set `true` when the stream may be decoded without errors from this point.
    pub random_access_indicator: bool,
    /// Set `true` when this stream should be considered "high priority".
    pub es_priority_indicator: bool,
    pub pcr: Option<Timestamp<Clock<PCR>>>,
    pub opcr: Option<Timestamp<Clock<PCR>>>,
    /// Indicates how many TS packets from this one a splicing point occurs.
    pub splice_countdown: Option<i8>,
    pub transport_private_data: Vec<u8>,
    pub extension: Option<AdaptationExtensionField>,
}

/// What an [`AdaptationField`] holds.
pub ghost struct AdaptationFieldView {
    pub discontinuity_indicator: bool,
    pub random_access_indicator: bool,
    pub es_priority_indicator: bool,
    pub pcr: Option<u64>,
    pub opcr: Option<u64>,
    pub splice_countdown: Option<i8>,
    pub transport_private_data: Seq<u8>,
    pub extension: Option<AdaptationExtensionFieldView>,
}

/// Adaptation extension field.
#[derive(Debug, Clone, Copy, PartialEq, Eq, Hash)]
pub struct AdaptationExtensionField {
    pub legal_time_window: Option<LegalTimeWindow>,
    pub piecewise_rate: Option<PiecewiseRate>,
    pub seamless_splice: Option<SeamlessSplice>,
}

/// What an [`AdaptationExtensionField`] holds.
pub ghost struct AdaptationExtensionFieldView {
    pub legal_time_window: Option<LegalTimeWindowView>,
    pub piecewise_rate: Option<u32>,
    pub seamless_splice: Option<SeamlessSpliceView>,
}

impl View for AdaptationExtensionField {
    type V = AdaptationExtensionFieldView;

    open spec fn view(&self) -> AdaptationExtensionFieldView {
        AdaptationExtensionFieldView {
            legal_time_window: match self.legal_time_window {
                Some(x) => Some(x@),
                None => None,
            },
            piecewise_rate: match self.piecewise_rate {
                Some(x) => Some(x@),
                None => None,
            },
            seamless_splice: match self.seamless_splice {
                Some(x) => Some(x@),
                None => None,
            },
        }
    }
}

impl View for AdaptationField {
    type V = AdaptationFieldView;

    open spec fn view(&self) -> AdaptationFieldView {
        AdaptationFieldView {
            discontinuity_indicator: self.discontinuity_indicator,
            random_access_indicator: self.random_access_indicator,
            es_priority_indicator: self.es_priority_indicator,
            pcr: match self.pcr {
                Some(x) => Some(x@),
                None => None,
            },
            opcr: match self.opcr {
                Some(x) => Some(x@),
                None => None,
            },
            splice_countdown: self.splice_countdown,
            transport_private_data: self.transport_private_data@,
            extension: match self.extension {
                Some(x) => Some(x@),
                None => None,
            },
        }
    }
}

/// The number of bytes of an extension, its length byte included.
pub open spec fn extension_size(e: AdaptationExtensionFieldView) -> nat {
    (2 + (if e.legal_time_window is Some {
        2int
    } else {
        0int
    }) + (if e.piecewise_rate is Some {
        3int
    } else {
        0int
    }) + (if e.seamless_splice is Some {
        5int
    } else {
        0int
    })) as nat
}

/// The flags byte of an extension: one bit for each part that is present.
pub open spec fn extension_flags(e: AdaptationExtensionFieldView) -> int {
    bit(e.legal_time_window is Some) * 0x80 + bit(e.piecewise_rate is Some) * 0x40 + bit(
        e.seamless_splice is Some,
    ) * 0x20
}

/// The bytes of a legal time window, none where there is none.
pub open spec fn legal_time_window_part(w: Option<LegalTimeWindowView>) -> Seq<u8> {
    match w {
        Some(w) => u16_bytes(legal_time_window_word(w)),
        None => Seq::empty(),
    }
}

/// The bytes of a piecewise rate, none where there is none.
pub open spec fn piecewise_rate_part(r: Option<u32>) -> Seq<u8> {
    match r {
        Some(r) => u24_bytes(r as int),
        None => Seq::empty(),
    }
}

/// The bytes of a seamless splice, none where there is none.
pub open spec fn seamless_splice_part(s: Option<SeamlessSpliceView>) -> Seq<u8> {
    match s {
        Some(s) => u40_bytes(seamless_splice_word(s)),
        None => Seq::empty(),
    }
}

/// The bytes of an extension: its length, its flags, then the parts that are
/// present.
pub open spec fn extension_bytes(e: AdaptationExtensionFieldView) -> Seq<u8> {
    seq![(extension_size(e) - 1) as u8, extension_flags(e) as u8] + legal_time_window_part(
        e.legal_time_window,
    ) + piecewise_rate_part(e.piecewise_rate) + seamless_splice_part(e.seamless_splice)
}

/// The number of bytes that the private data take: none when there are none,
/// else a length byte and the data.
pub open spec fn private_data_size(data: Seq<u8>) -> nat {
    if data.len() == 0 {
        0
    } else {
        1 + data.len()
    }
}

/// The least number of bytes of an adaptation field, its length byte
/// included.
pub open spec fn adaptation_field_size(a: AdaptationFieldView) -> nat {
    (2 + (if a.pcr is Some {
        6int
    } else {
        0int
    }) + (if a.opcr is Some {
        6int
    } else {
        0int
    }) + (if a.splice_countdown is Some {
        1int
    } else {
        0int
    }) + private_data_size(a.transport_private_data) + (match a.extension {
        Some(e) => extension_size(e),
        None => 0nat,
    })) as nat
}

/// The flags byte of an adaptation field: the three indicators, then one bit
/// for each part that is present.
pub open spec fn adaptation_flags(a: AdaptationFieldView) -> int {
    bit(a.discontinuity_indicator) * 0x80 + bit(a.random_access_indicator) * 0x40 + bit(
        a.es_priority_indicator,
    ) * 0x20 + bit(a.pcr is Some) * 0x10 + bit(a.opcr is Some) * 0x08 + bit(
        a.splice_countdown is Some,
    ) * 0x04 + bit(a.transport_private_data.len() > 0) * 0x02 + bit(a.extension is Some)
}

/// Each flag of an adaptation field can be read off its flags byte.
pub proof fn lemma_adaptation_flags(a: AdaptationFieldView)
    ensures
        0 <= adaptation_flags(a) <= 255,
        (adaptation_flags(a) / 0x80) % 2 == bit(a.discontinuity_indicator),
        (adaptation_flags(a) / 0x40) % 2 == bit(a.random_access_indicator),
        (adaptation_flags(a) / 0x20) % 2 == bit(a.es_priority_indicator),
        (adaptation_flags(a) / 0x10) % 2 == bit(a.pcr is Some),
        (adaptation_flags(a) / 0x08) % 2 == bit(a.opcr is Some),
        (adaptation_flags(a) / 0x04) % 2 == bit(a.splice_countdown is Some),
        (adaptation_flags(a) / 0x02) % 2 == bit(a.transport_private_data.len() > 0),
        adaptation_flags(a) % 2 == bit(a.extension is Some),
{
    let b7 = bit(a.discontinuity_indicator);
    let b6 = bit(a.random_access_indicator);
    let b5 = bit(a.es_priority_indicator);
    let b4 = bit(a.pcr is Some);
    let b3 = bit(a.opcr is Some);
    let b2 = bit(a.splice_countdown is Some);
    let b1 = bit(a.transport_private_data.len() > 0);
    let b0 = bit(a.extension is Some);
    let f = adaptation_flags(a);
    assert(f == b7 * 0x80 + b6 * 0x40 + b5 * 0x20 + b4 * 0x10 + b3 * 0x08 + b2 * 0x04 + b1 * 0x02
        + b0);
    assert(f / 0x02 == b7 * 0x40 + b6 * 0x20 + b5 * 0x10 + b4 * 0x08 + b3 * 0x04 + b2 * 0x02 + b1);
    assert(f / 0x04 == b7 * 0x20 + b6 * 0x10 + b5 * 0x08 + b4 * 0x04 + b3 * 0x02 + b2);
    assert(f / 0x08 == b7 * 0x10 + b6 * 0x08 + b5 * 0x04 + b4 * 0x02 + b3);
    assert(f / 0x10 == b7 * 0x08 + b6 * 0x04 + b5 * 0x02 + b4);
    assert(f / 0x20 == b7 * 0x04 + b6 * 0x02 + b5);
    assert(f / 0x40 == b7 * 0x02 + b6);
    assert(f / 0x80 == b7);
}

/// The byte of a signed number: its two's complement.
pub open spec fn i8_byte(x: i8) -> u8 {
    if x >= 0 {
        x as u8
    } else {
        (x + 256) as u8
    }
}

/// The signed number of a byte, read as two's complement.
pub open spec fn byte_i8(b: u8) -> i8 {
    if b < 128 {
        b as i8
    } else {
        (b - 256) as i8
    }
}

/// The bytes of a clock reference, none where there is none.
pub open spec fn clock_part(t: Option<u64>) -> Seq<u8> {
    match t {
        Some(t) => u48_bytes(pcr_word(t as int)),
        None => Seq::empty(),
    }
}

/// The byte of a splice countdown, none where there is none.
pub open spec fn splice_countdown_part(x: Option<i8>) -> Seq<u8> {
    match x {
        Some(x) => seq![i8_byte(x)],
        None => Seq::empty(),
    }
}

/// The bytes of the private data: their length and the data, none where
/// there are none.
pub open spec fn private_data_part(data: Seq<u8>) -> Seq<u8> {
    if data.len() > 0 {
        seq![data.len() as u8] + data
    } else {
        Seq::empty()
    }
}

/// The bytes of an extension, none where there is none.
pub open spec fn extension_part(e: Option<AdaptationExtensionFieldView>) -> Seq<u8> {
    match e {
        Some(e) => extension_bytes(e),
        None => Seq::empty(),
    }
}

/// The bytes of an adaptation field after its length byte and before its
/// stuffing: the flags, then the parts that are present.
pub open spec fn adaptation_body_bytes(a: AdaptationFieldView) -> Seq<u8> {
    seq![adaptation_flags(a) as u8] + clock_part(a.pcr) + clock_part(a.opcr)
        + splice_countdown_part(a.splice_countdown) + private_data_part(a.transport_private_data)
        + extension_part(a.extension)
}

/// The parts of an adaptation field take as many bytes as its size says,
/// less the length byte.
pub proof fn lemma_adaptation_body_len(a: AdaptationFieldView)
    ensures
        adaptation_body_bytes(a).len() == adaptation_field_size(a) - 1,
{
}

/// Whether an adaptation field can be written into `total` bytes, its length
/// byte included: the private data fit their length byte, and the field fits
/// the room.
pub open spec fn adaptation_field_fits(a: AdaptationFieldView, total: int) -> bool {
    &&& a.transport_private_data.len() <= 255
    &&& adaptation_field_size(a) <= total <= 256
}

/// The `total` bytes of an adaptation field: its length byte, its parts, and
/// `0xFF` stuffing up to the end.
pub open spec fn adaptation_field_bytes(a: AdaptationFieldView, total: int) -> Seq<u8> {
    seq![(total - 1) as u8] + adaptation_body_bytes(a) + repeated(
        0xFF,
        (total - adaptation_field_size(a)) as nat,
    )
}

/// The `total` bytes of an adaptation field that only fills room: the length
/// byte and, where more than that byte is asked for, a flags byte with
/// nothing set and `0xFF` stuffing.
pub open spec fn stuffing_field_bytes(total: int) -> Seq<u8> {
    if total <= 1 {
        seq![0u8]
    } else {
        seq![(total - 1) as u8, 0u8] + repeated(0xFF, (total - 2) as nat)
    }
}

/// The clock reference that stands at `at`, where one is present, and where
/// the next part starts.
pub open spec fn clock_at(a: Seq<u8>, at: int, present: bool) -> Result<(Option<u64>, int), Error> {
    if !present {
        Ok((None, at))
    } else if at + 6 > a.len() {
        Err(Error::TsGeneric)
    } else {
        Ok((Some(pcr_word_value(u48_at(a, at)) as u64), at + 6))
    }
}

/// The splice countdown that stands at `at`, where one is present, and
/// where the next part starts.
pub open spec fn countdown_at(a: Seq<u8>, at: int, present: bool) -> Result<
    (Option<i8>, int),
    Error,
> {
    if !present {
        Ok((None, at))
    } else if at + 1 > a.len() {
        Err(Error::TsGeneric)
    } else {
        Ok((Some(byte_i8(a[at])), at + 1))
    }
}

/// The private data that stand at `at` behind their length, where they are
/// present, and where the next part starts.
pub open spec fn private_data_at(a: Seq<u8>, at: int, present: bool) -> Result<
    (Seq<u8>, int),
    Error,
> {
    if !present {
        Ok((Seq::empty(), at))
    } else if at + 1 > a.len() || at + 1 + a[at] > a.len() {
        Err(Error::TsGeneric)
    } else {
        Ok((a.subrange(at + 1, at + 1 + a[at]), at + 1 + a[at]))
    }
}

/// The legal time window that stands at `at`, where one is present, and
/// where the next part starts.
pub open spec fn legal_time_window_at(a: Seq<u8>, at: int, present: bool) -> Result<
    (Option<LegalTimeWindowView>, int),
    Error,
> {
    if !present {
        Ok((None, at))
    } else if at + 2 > a.len() {
        Err(Error::TsGeneric)
    } else {
        Ok(
            (
                Some(
                    LegalTimeWindowView {
                        is_valid: u16_at(a, at) / 0x8000 == 1,
                        offset: (u16_at(a, at) % 0x8000) as u16,
                    },
                ),
                at + 2,
            ),
        )
    }
}

/// The piecewise rate that stands at `at`, where one is present, and where
/// the next part starts. Its two reserved bits are passed over.
pub open spec fn piecewise_rate_at(a: Seq<u8>, at: int, present: bool) -> Result<
    (Option<u32>, int),
    Error,
> {
    if !present {
        Ok((None, at))
    } else if at + 3 > a.len() {
        Err(Error::TsGeneric)
    } else {
        Ok((Some((u24_at(a, at) % 0x40_0000) as u32), at + 3))
    }
}

/// The seamless splice that stands at `at`, where one is present, and where
/// the next part starts. A marker bit that is clear is an error.
pub open spec fn seamless_splice_at(a: Seq<u8>, at: int, present: bool) -> Result<
    (Option<SeamlessSpliceView>, int),
    Error,
> {
    if !present {
        Ok((None, at))
    } else if at + 5 > a.len() {
        Err(Error::TsGeneric)
    } else if pts_word_markers(u40_at(a, at)) != PTS_MARKER_BITS {
        Err(Error::UnexpectedMarkerBit(pts_word_markers(u40_at(a, at)) as u64))
    } else {
        Ok(
            (
                Some(
                    SeamlessSpliceView {
                        splice_type: ((u40_at(a, at) / 0x10_0000_0000) % 16) as u8,
                        dts_next_access_unit: pts_word_value(u40_at(a, at)) as u64,
                    },
                ),
                at + 5,
            ),
        )
    }
}

/// What the bytes of an extension behind its length byte say: the flags,
/// then the parts that the flags announce. Bytes behind the parts are
/// passed over.
pub open spec fn parse_extension_body_spec(a: Seq<u8>) -> Result<
    AdaptationExtensionFieldView,
    Error,
> {
    if a.len() < 1 {
        Err(Error::TsGeneric)
    } else {
        match legal_time_window_at(a, 1, has_bit(a[0], 0x80)) {
            Err(e) => Err(e),
            Ok((legal_time_window, o1)) => match piecewise_rate_at(a, o1, has_bit(a[0], 0x40)) {
                Err(e) => Err(e),
                Ok((piecewise_rate, o2)) => match seamless_splice_at(
                    a,
                    o2,
                    has_bit(a[0], 0x20),
                ) {
                    Err(e) => Err(e),
                    Ok((seamless_splice, _)) => Ok(
                        AdaptationExtensionFieldView {
                            legal_time_window,
                            piecewise_rate,
                            seamless_splice,
                        },
                    ),
                },
            },
        }
    }
}

/// The extension that stands at `at` behind its length, where one is
/// present, and where the next part starts.
pub open spec fn extension_at(a: Seq<u8>, at: int, present: bool) -> Result<
    (Option<AdaptationExtensionFieldView>, int),
    Error,
> {
    if !present {
        Ok((None, at))
    } else if at + 1 > a.len() || at + 1 + a[at] > a.len() {
        Err(Error::TsGeneric)
    } else {
        match parse_extension_body_spec(a.subrange(at + 1, at + 1 + a[at])) {
            Err(e) => Err(e),
            Ok(e) => Ok((Some(e), at + 1 + a[at])),
        }
    }
}

/// What the bytes of an adaptation field behind its length byte say: the
/// flags, then the parts that the flags announce. Bytes behind the parts
/// are stuffing and are passed over.
pub open spec fn parse_adaptation_body_spec(a: Seq<u8>) -> Result<AdaptationFieldView, Error> {
    if a.len() < 1 {
        Err(Error::TsGeneric)
    } else {
        match clock_at(a, 1, has_bit(a[0], 0x10)) {
            Err(e) => Err(e),
            Ok((pcr, o1)) => match clock_at(a, o1, has_bit(a[0], 0x08)) {
                Err(e) => Err(e),
                Ok((opcr, o2)) => match countdown_at(a, o2, has_bit(a[0], 0x04)) {
                    Err(e) => Err(e),
                    Ok((splice_countdown, o3)) => match private_data_at(
                        a,
                        o3,
                        has_bit(a[0], 0x02),
                    ) {
                        Err(e) => Err(e),
                        Ok((transport_private_data, o4)) => match extension_at(
                            a,
                            o4,
                            has_bit(a[0], 0x01),
                        ) {
                            Err(e) => Err(e),
                            Ok((extension, _)) => Ok(
                                AdaptationFieldView {
                                    discontinuity_indicator: has_bit(a[0], 0x80),
                                    random_access_indicator: has_bit(a[0], 0x40),
                                    es_priority_indicator: has_bit(a[0], 0x20),
                                    pcr,
                                    opcr,
                                    splice_countdown,
                                    transport_private_data,
                                    extension,
                                },
                            ),
                        },
                    },
                },
            },
        }
    }
}

/// What the bytes behind the header of a packet say of its adaptation
/// field, and how many of them the field takes: a length byte of zero is a
/// field without flags, which holds nothing; else the field has as many
/// bytes behind its length byte as that byte says.
pub open spec fn parse_adaptation_field_spec(s: Seq<u8>) -> Result<
    (Option<AdaptationFieldView>, int),
    Error,
> {
    if s.len() < 1 {
        Err(Error::TsGeneric)
    } else if s[0] == 0 {
        Ok((None, 1))
    } else if s.len() < 1 + s[0] {
        Err(Error::TsGeneric)
    } else {
        match parse_adaptation_body_spec(s.subrange(1, 1 + s[0])) {
            Err(e) => Err(e),
            Ok(a) => Ok((Some(a), 1 + s[0])),
        }
    }
}

/// Whether the fields of an extension fit their bits.
pub open spec fn extension_valid(e: AdaptationExtensionFieldView) -> bool {
    &&& match e.legal_time_window {
        Some(w) => w.offset <= LegalTimeWindow::MAX_OFFSET,
        None => true,
    }
    &&& match e.piecewise_rate {
        Some(r) => r <= PiecewiseRate::MAX,
        None => true,
    }
    &&& match e.seamless_splice {
        Some(s) => s.splice_type <= SeamlessSplice::MAX_SPLICE_TYPE && s.dts_next_access_unit
            <= 0x1_FFFF_FFFF,
        None => true,
    }
}

/// Whether the fields of an adaptation field fit their bits.
pub open spec fn adaptation_valid(a: AdaptationFieldView) -> bool {
    &&& match a.pcr {
        Some(t) => t <= 0x258_0000_00D3,
        None => true,
    }
    &&& match a.opcr {
        Some(t) => t <= 0x258_0000_00D3,
        None => true,
    }
    &&& a.transport_private_data.len() <= 255
    &&& match a.extension {
        Some(e) => extension_valid(e),
        None => true,
    }
}

/// Reading a clock reference where it was written gives it back.
pub proof fn lemma_clock_inverse(head: Seq<u8>, t: Option<u64>, rest: Seq<u8>)
    requires
        t is Some ==> t.unwrap() <= 0x258_0000_00D3,
    ensures
        clock_at(head + clock_part(t) + rest, head.len() as int, t is Some) == Ok::<
            (Option<u64>, int),
            Error,
        >((t, (head.len() + clock_part(t).len()) as int)),
{
    match t {
        Some(v) => {
            lemma_pcr_word_inverse(v as int);
            lemma_read_back_u48(pcr_word(v as int));
            let part = clock_part(t);
            let all = head + part + rest;
            let at = head.len() as int;
            assert(all[at] == part[0] && all[at + 1] == part[1] && all[at + 2] == part[2]
                && all[at + 3] == part[3] && all[at + 4] == part[4] && all[at + 5] == part[5]);
            assert(u48_at(all, at) == u48_at(part, 0));
        },
        None => {},
    }
}

/// A byte read as a signed number and written back is the same byte, and
/// the other way round.
pub proof fn lemma_signed_byte(x: i8, b: u8)
    ensures
        byte_i8(i8_byte(x)) == x,
        i8_byte(byte_i8(b)) == b,
{
}

/// Reading a splice countdown where it was written gives it back.
pub proof fn lemma_countdown_inverse(head: Seq<u8>, x: Option<i8>, rest: Seq<u8>)
    ensures
        countdown_at(head + splice_countdown_part(x) + rest, head.len() as int, x is Some)
            == Ok::<(Option<i8>, int), Error>(
            (x, (head.len() + splice_countdown_part(x).len()) as int),
        ),
{
    match x {
        Some(v) => {
            lemma_signed_byte(v, 0);
            let all = head + splice_countdown_part(x) + rest;
            assert(all[head.len() as int] == i8_byte(v));
        },
        None => {},
    }
}

/// Reading private data where they were written gives them back.
pub proof fn lemma_private_data_inverse(head: Seq<u8>, data: Seq<u8>, rest: Seq<u8>)
    requires
        data.len() <= 255,
    ensures
        private_data_at(head + private_data_part(data) + rest, head.len() as int, data.len() > 0)
            == Ok::<(Seq<u8>, int), Error>(
            (data, (head.len() + private_data_part(data).len()) as int),
        ),
{
    let all = head + private_data_part(data) + rest;
    let at = head.len() as int;
    if data.len() > 0 {
        assert(all[at] == data.len());
        assert(all.subrange(at + 1, at + 1 + data.len()) =~= data);
    } else {
        assert(data =~= Seq::<u8>::empty());
    }
}

/// Reading a legal time window where it was written gives it back.
pub proof fn lemma_legal_time_window_inverse(
    head: Seq<u8>,
    w: Option<LegalTimeWindowView>,
    rest: Seq<u8>,
)
    requires
        w is Some ==> w.unwrap().offset <= LegalTimeWindow::MAX_OFFSET,
    ensures
        legal_time_window_at(head + legal_time_window_part(w) + rest, head.len() as int, w is Some)
            == Ok::<(Option<LegalTimeWindowView>, int), Error>(
            (w, (head.len() + legal_time_window_part(w).len()) as int),
        ),
{
    match w {
        Some(v) => {
            let n = legal_time_window_word(v);
            lemma_read_back_u16(n);
            let part = legal_time_window_part(w);
            let all = head + part + rest;
            let at = head.len() as int;
            assert(all[at] == part[0] && all[at + 1] == part[1]);
            assert(u16_at(all, at) == n);
        },
        None => {},
    }
}

/// Reading a piecewise rate where it was written gives it back.
pub proof fn lemma_piecewise_rate_inverse(head: Seq<u8>, r: Option<u32>, rest: Seq<u8>)
    requires
        r is Some ==> r.unwrap() <= PiecewiseRate::MAX,
    ensures
        piecewise_rate_at(head + piecewise_rate_part(r) + rest, head.len() as int, r is Some)
            == Ok::<(Option<u32>, int), Error>(
            (r, (head.len() + piecewise_rate_part(r).len()) as int),
        ),
{
    match r {
        Some(v) => {
            lemma_read_back_u24(v as int);
            let part = piecewise_rate_part(r);
            let all = head + part + rest;
            let at = head.len() as int;
            assert(all[at] == part[0] && all[at + 1] == part[1] && all[at + 2] == part[2]);
            assert(u24_at(all, at) == v);
        },
        None => {},
    }
}

/// Reading a seamless splice where it was written gives it back.
pub proof fn lemma_seamless_splice_inverse(
    head: Seq<u8>,
    s: Option<SeamlessSpliceView>,
    rest: Seq<u8>,
)
    requires
        s is Some ==> s.unwrap().splice_type <= SeamlessSplice::MAX_SPLICE_TYPE
            && s.unwrap().dts_next_access_unit <= 0x1_FFFF_FFFF,
    ensures
        seamless_splice_at(head + seamless_splice_part(s) + rest, head.len() as int, s is Some)
            == Ok::<(Option<SeamlessSpliceView>, int), Error>(
            (s, (head.len() + seamless_splice_part(s).len()) as int),
        ),
{
    match s {
        Some(v) => {
            let n = seamless_splice_word(v);
            lemma_pts_word_inverse(v.dts_next_access_unit as int, v.splice_type as int);
            lemma_read_back_u40(n);
            let part = seamless_splice_part(s);
            let all = head + part + rest;
            let at = head.len() as int;
            assert(all[at] == part[0] && all[at + 1] == part[1] && all[at + 2] == part[2]
                && all[at + 3] == part[3] && all[at + 4] == part[4]);
            assert(u40_at(all, at) == n);
            assert(n / 0x10_0000_0000 == v.splice_type) by {
                assert(crate::mpegts::timestamp::pts_word_tag(n) == v.splice_type
                    * 0x10_0000_0000);
            }
        },
        None => {},
    }
}

/// Each flag of an extension can be read off its flags byte.
pub proof fn lemma_extension_flags(e: AdaptationExtensionFieldView)
    ensures
        0 <= extension_flags(e) <= 255,
        (extension_flags(e) / 0x80) % 2 == bit(e.legal_time_window is Some),
        (extension_flags(e) / 0x40) % 2 == bit(e.piecewise_rate is Some),
        (extension_flags(e) / 0x20) % 2 == bit(e.seamless_splice is Some),
{
}

/// Reading the bytes of an extension behind its length byte gives the
/// extension back.
pub proof fn lemma_extension_body_inverse(e: AdaptationExtensionFieldView)
    requires
        extension_valid(e),
    ensures
        extension_bytes(e).len() == extension_size(e),
        extension_bytes(e)[0] == extension_size(e) - 1,
        parse_extension_body_spec(extension_bytes(e).skip(1)) == Ok::<
            AdaptationExtensionFieldView,
            Error,
        >(e),
{
    lemma_extension_flags(e);
    let a = extension_bytes(e).skip(1);
    let flags = seq![extension_flags(e) as u8];
    let w = legal_time_window_part(e.legal_time_window);
    let r = piecewise_rate_part(e.piecewise_rate);
    let s = seamless_splice_part(e.seamless_splice);
    let none = Seq::<u8>::empty();
    assert(a =~= flags + w + (r + s));
    lemma_legal_time_window_inverse(flags, e.legal_time_window, r + s);
    assert(a =~= (flags + w) + r + s);
    lemma_piecewise_rate_inverse(flags + w, e.piecewise_rate, s);
    assert(a =~= (flags + w + r) + s + none);
    lemma_seamless_splice_inverse(flags + w + r, e.seamless_splice, none);
    assert(a[0] == extension_flags(e));
}

/// Reading an extension where it was written gives it back.
pub proof fn lemma_extension_inverse(
    head: Seq<u8>,
    e: Option<AdaptationExtensionFieldView>,
    rest: Seq<u8>,
)
    requires
        e is Some ==> extension_valid(e.unwrap()),
    ensures
        extension_at(head + extension_part(e) + rest, head.len() as int, e is Some) == Ok::<
            (Option<AdaptationExtensionFieldView>, int),
            Error,
        >((e, (head.len() + extension_part(e).len()) as int)),
{
    match e {
        Some(v) => {
            lemma_extension_body_inverse(v);
            let part = extension_bytes(v);
            let all = head + part + rest;
            let at = head.len() as int;
            assert(all[at] == part[0]);
            assert(all.subrange(at + 1, at + 1 + all[at]) =~= part.skip(1));
        },
        None => {},
    }
}

/// Six runs of bytes, one after the other, can be cut behind any of them.
proof fn lemma_regroup(
    f: Seq<u8>,
    p: Seq<u8>,
    o: Seq<u8>,
    c: Seq<u8>,
    d: Seq<u8>,
    e: Seq<u8>,
    s: Seq<u8>,
)
    ensures
        f + p + o + c + d + e + s == f + p + (o + c + d + e + s),
        f + p + o + c + d + e + s == (f + p) + o + (c + d + e + s),
        f + p + o + c + d + e + s == (f + p + o) + c + (d + e + s),
        f + p + o + c + d + e + s == (f + p + o + c) + d + (e + s),
        (f + p).len() == f.len() + p.len(),
        (f + p + o).len() == f.len() + p.len() + o.len(),
        (f + p + o + c).len() == f.len() + p.len() + o.len() + c.len(),
        (f + p + o + c + d).len() == f.len() + p.len() + o.len() + c.len() + d.len(),
{
    let all = f + p + o + c + d + e + s;
    assert(all =~= f + p + (o + c + d + e + s));
    assert(all =~= (f + p) + o + (c + d + e + s));
    assert(all =~= (f + p + o) + c + (d + e + s));
    assert(all =~= (f + p + o + c) + d + (e + s));
}

/// What reading finds at each part of an adaptation field that was written.
proof fn lemma_adaptation_parts_inverse(a: AdaptationFieldView, stuffing: Seq<u8>)
    requires
        adaptation_valid(a),
    ensures
        ({
            let all = adaptation_body_bytes(a) + stuffing;
            let o1 = 1 + clock_part(a.pcr).len() as int;
            let o2 = o1 + clock_part(a.opcr).len() as int;
            let o3 = o2 + splice_countdown_part(a.splice_countdown).len() as int;
            let o4 = o3 + private_data_part(a.transport_private_data).len() as int;
            let o5 = o4 + extension_part(a.extension).len() as int;
            &&& all.len() >= 1
            &&& all[0] == adaptation_flags(a)
            &&& clock_at(all, 1, a.pcr is Some) == Ok::<(Option<u64>, int), Error>((a.pcr, o1))
            &&& clock_at(all, o1, a.opcr is Some) == Ok::<(Option<u64>, int), Error>((a.opcr, o2))
            &&& countdown_at(all, o2, a.splice_countdown is Some) == Ok::<
                (Option<i8>, int),
                Error,
            >((a.splice_countdown, o3))
            &&& private_data_at(all, o3, a.transport_private_data.len() > 0) == Ok::<
                (Seq<u8>, int),
                Error,
            >((a.transport_private_data, o4))
            &&& extension_at(all, o4, a.extension is Some) == Ok::<
                (Option<AdaptationExtensionFieldView>, int),
                Error,
            >((a.extension, o5))
        }),
{
    lemma_adaptation_flags(a);
    let flags = seq![adaptation_flags(a) as u8];
    let p = clock_part(a.pcr);
    let o = clock_part(a.opcr);
    let c = splice_countdown_part(a.splice_countdown);
    let d = private_data_part(a.transport_private_data);
    let e = extension_part(a.extension);
    let all = adaptation_body_bytes(a) + stuffing;
    assert(all == flags + p + o + c + d + e + stuffing);
    lemma_regroup(flags, p, o, c, d, e, stuffing);
    lemma_clock_inverse(flags, a.pcr, o + c + d + e + stuffing);
    lemma_clock_inverse(flags + p, a.opcr, c + d + e + stuffing);
    lemma_countdown_inverse(flags + p + o, a.splice_countdown, d + e + stuffing);
    lemma_private_data_inverse(flags + p + o + c, a.transport_private_data, e + stuffing);
    lemma_extension_inverse(flags + p + o + c + d, a.extension, stuffing);
    assert(all[0] == flags[0]);
}

/// Reading the flags and the parts of an adaptation field gives the field
/// back, whatever stuffing follows them.
#[verifier::rlimit(40)]
pub proof fn lemma_adaptation_body_inverse(a: AdaptationFieldView, stuffing: Seq<u8>)
    requires
        adaptation_valid(a),
    ensures
        parse_adaptation_body_spec(adaptation_body_bytes(a) + stuffing) == Ok::<
            AdaptationFieldView,
            Error,
        >(a),
{
    lemma_adaptation_flags(a);
    lemma_adaptation_parts_inverse(a, stuffing);
    let all = adaptation_body_bytes(a) + stuffing;
    assert(has_bit(all[0], 0x80) == a.discontinuity_indicator);
    assert(has_bit(all[0], 0x40) == a.random_access_indicator);
    assert(has_bit(all[0], 0x20) == a.es_priority_indicator);
    assert(has_bit(all[0], 0x10) == (a.pcr is Some));
    assert(has_bit(all[0], 0x08) == (a.opcr is Some));
    assert(has_bit(all[0], 0x04) == (a.splice_countdown is Some));
    assert(has_bit(all[0], 0x02) == (a.transport_private_data.len() > 0));
    assert(has_bit(all[0], 0x01) == (a.extension is Some));
}

/// Reading an adaptation field that was written over `total` bytes gives
/// the field back and tells that it takes `total` bytes, whatever follows.
pub proof fn lemma_adaptation_field_inverse(a: AdaptationFieldView, total: int, rest: Seq<u8>)
    requires
        adaptation_valid(a),
        adaptation_field_fits(a, total),
    ensures
        parse_adaptation_field_spec(adaptation_field_bytes(a, total) + rest) == Ok::<
            (Option<AdaptationFieldView>, int),
            Error,
        >((Some(a), total)),
        adaptation_field_bytes(a, total).len() == total,
{
    lemma_adaptation_body_len(a);
    let stuffing = repeated(0xFF, (total - adaptation_field_size(a)) as nat);
    let s = adaptation_field_bytes(a, total) + rest;
    assert(s[0] == total - 1);
    assert(s.subrange(1, total) =~= adaptation_body_bytes(a) + stuffing);
    lemma_adaptation_body_inverse(a, stuffing);
}

/// The adaptation field that holds nothing.
pub open spec fn empty_field() -> AdaptationFieldView {
    AdaptationFieldView {
        discontinuity_indicator: false,
        random_access_indicator: false,
        es_priority_indicator: false,
        pcr: None,
        opcr: None,
        splice_countdown: None,
        transport_private_data: Seq::empty(),
        extension: None,
    }
}

/// A field of stuffing reads as no adaptation field where it is a single
/// byte, else as an adaptation field that holds nothing; either way it
/// takes the bytes that were written.
pub proof fn lemma_stuffing_field_inverse(total: int, rest: Seq<u8>)
    requires
        1 <= total <= 256,
    ensures
        parse_adaptation_field_spec(stuffing_field_bytes(total) + rest) == Ok::<
            (Option<AdaptationFieldView>, int),
            Error,
        >(
            (
                if total == 1 {
                    None
                } else {
                    Some(empty_field())
                },
                total,
            ),
        ),
        stuffing_field_bytes(total).len() == total,
{
    let s = stuffing_field_bytes(total) + rest;
    assert(s[0] == total - 1);
    if total > 1 {
        let fill = repeated(0xFF, (total - 2) as nat);
        assert(adaptation_flags(empty_field()) == 0);
        assert(adaptation_body_bytes(empty_field()) =~= seq![0u8]);
        assert(s.subrange(1, total) =~= adaptation_body_bytes(empty_field()) + fill);
        lemma_adaptation_body_inverse(empty_field(), fill);
    }
}

impl AdaptationExtensionField {
    /// The number of bytes of the extension, its length byte included.
    pub fn external_size(&self) -> (r: usize)
        ensures
            r == extension_size(self@),
            2 <= r <= 12,
    {
        let mut n: usize = 1 + 1;
        if self.legal_time_window.is_some() {
            n += 2;
        }
        if self.piecewise_rate.is_some() {
            n += 3;
        }
        if self.seamless_splice.is_some() {
            n += 5;
        }
        n
    }
}

impl AdaptationField {
    /// The least number of bytes of the adaptation field, its length byte
    /// included.
    pub fn external_size(&self) -> (r: usize)
        requires
            self.transport_private_data@.len() <= usize::MAX - 32,
        ensures
            r == adaptation_field_size(self@),
    {
        let mut n: usize = 1 + 1;
        if self.pcr.is_some() {
            n += 6;
        }
        if self.opcr.is_some() {
            n += 6;
        }
        if self.splice_countdown.is_some() {
            n += 1;
        }
        if self.transport_private_data.len() > 0 {
            n += 1 + self.transport_private_data.len();
        }
        if let Some(ref x) = self.extension {
            n += x.external_size();
        }
        n
    }
}

/// Adaptation field control: which of adaptation field and payload follow
/// the header.
#[derive(Debug, Clone, Copy, PartialEq, Eq, Structural, Hash)]
pub enum AdaptationFieldControl {
    Reserved,
    PayloadOnly,
    AdaptationFieldOnly,
    AdaptationFieldAndPayload,
    Unknown(u8),
}

impl AdaptationFieldControl {
    /// The control that `n` stands for.
    pub open spec fn of(n: u8) -> Self {
        if n == 0 {
            AdaptationFieldControl::Reserved
        } else if n == 1 {
            AdaptationFieldControl::PayloadOnly
        } else if n == 2 {
            AdaptationFieldControl::AdaptationFieldOnly
        } else if n == 3 {
            AdaptationFieldControl::AdaptationFieldAndPayload
        } else {
            AdaptationFieldControl::Unknown(n)
        }
    }

    /// The number that stands for the control.
    pub open spec fn bits(self) -> int {
        match self {
            AdaptationFieldControl::Reserved => 0,
            AdaptationFieldControl::PayloadOnly => 1,
            AdaptationFieldControl::AdaptationFieldOnly => 2,
            AdaptationFieldControl::AdaptationFieldAndPayload => 3,
            AdaptationFieldControl::Unknown(v) => v as int,
        }
    }

    /// Whether the control announces an adaptation field: the reserved
    /// value and an unknown one announce none.
    pub open spec fn announces_adaptation_field(self) -> bool {
        self is AdaptationFieldOnly || self is AdaptationFieldAndPayload
    }

    /// Whether the control announces a payload: the reserved value and an
    /// unknown one announce none.
    pub open spec fn announces_payload(self) -> bool {
        self is PayloadOnly || self is AdaptationFieldAndPayload
    }

    /// Whether an adaptation field follows the header.
    pub fn has_adaptation_field(&self) -> (r: bool)
        ensures
            r == self.announces_adaptation_field(),
            r == (self is AdaptationFieldOnly || self is AdaptationFieldAndPayload),
    {
        matches!(
            self,
            AdaptationFieldControl::AdaptationFieldOnly
                | AdaptationFieldControl::AdaptationFieldAndPayload
        )
    }

    /// Whether a payload follows the header and the adaptation field.
    pub fn has_payload(&self) -> (r: bool)
        ensures
            r == self.announces_payload(),
            r == (self is PayloadOnly || self is AdaptationFieldAndPayload),
    {
        matches!(
            self,
            AdaptationFieldControl::PayloadOnly | AdaptationFieldControl::AdaptationFieldAndPayload
        )
    }

    /// The control that `n` stands for.
    pub fn from_u8(n: u8) -> (r: Self)
        ensures
            n == 0 ==> r == AdaptationFieldControl::Reserved,
            n == 1 ==> r == AdaptationFieldControl::PayloadOnly,
            n == 2 ==> r == AdaptationFieldControl::AdaptationFieldOnly,
            n == 3 ==> r == AdaptationFieldControl::AdaptationFieldAndPayload,
            n > 3 ==> r == AdaptationFieldControl::Unknown(n),
            r == AdaptationFieldControl::of(n),
            r.bits() == n,
    {
        match n {
            0 => AdaptationFieldControl::Reserved,
            1 => AdaptationFieldControl::PayloadOnly,
            2 => AdaptationFieldControl::AdaptationFieldOnly,
            3 => AdaptationFieldControl::AdaptationFieldAndPayload,
            v => AdaptationFieldControl::Unknown(v),
        }
    }

    /// The number that stands for the control.
    pub fn as_u8(&self) -> (r: u8)
        ensures
            r == self.bits(),
    {
        match self {
            AdaptationFieldControl::Reserved => 0,
            AdaptationFieldControl::PayloadOnly => 1,
            AdaptationFieldControl::AdaptationFieldOnly => 2,
            AdaptationFieldControl::AdaptationFieldAndPayload => 3,
            AdaptationFieldControl::Unknown(v) => *v,
        }
    }
}

} // verus!
