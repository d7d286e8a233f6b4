//! Timestamps: the 33-bit PTS/DTS at 90 kHz and the 42-bit clock references
//! at 27 MHz, with the words that carry them on the wire.
use crate::error::Error;
use std::marker::PhantomData;
use vstd::prelude::*;

verus! {

/// A kind of timestamp, with the largest value that its field can carry.
pub trait TimeKind {
    /// The largest value of the kind.
    spec fn max_value() -> u64;
}

/// Kind of the presentation and decoding timestamps.
#[derive(Debug, Clone, Copy, PartialEq, Eq, Hash, PartialOrd, Ord)]
pub struct PtsDts;

/// Kind of the clock references; `T` tells which one.
#[derive(Debug, PartialEq, Eq, Hash, PartialOrd, Ord)]
pub struct Clock<T>(PhantomData<T>);

/// The program clock reference of an adaptation field.
#[derive(Debug, Clone, Copy, PartialEq, Eq, Hash, PartialOrd, Ord)]
pub struct PCR;

/// The elementary stream clock reference of a PES header.
#[derive(Debug, Clone, Copy, PartialEq, Eq, Hash, PartialOrd, Ord)]
pub struct ESCR;

impl<T> Clone for Clock<T> {
    fn clone(&self) -> (r: Self)
        ensures
            r == *self,
    {
        Clock(PhantomData)
    }
}

impl<T> Copy for Clock<T> {

}

impl TimeKind for PtsDts {
    open spec fn max_value() -> u64 {
        0x1_FFFF_FFFF
    }
}

impl<T> TimeKind for Clock<T> {
    open spec fn max_value() -> u64 {
        0x258_0000_00D3
    }
}

/// A timestamp of kind `T`: a count of ticks that fits the kind's field.
#[derive(Debug, PartialEq, Eq, Hash, PartialOrd, Ord)]
pub struct Timestamp<T: TimeKind>(pub(crate) u64, pub(crate) PhantomData<T>);

impl<T: TimeKind> Clone for Timestamp<T> {
    fn clone(&self) -> (r: Self)
        ensures
            r == *self,
    {
        proof {
            use_type_invariant(self);
        }
        Timestamp(self.0, PhantomData)
    }
}

impl<T: TimeKind> Copy for Timestamp<T> {

}

impl<T: TimeKind> View for Timestamp<T> {
    type V = u64;

    closed spec fn view(&self) -> u64 {
        self.0
    }
}

impl<T: TimeKind> Timestamp<T> {
    #[verifier::type_invariant]
    spec fn in_range(self) -> bool {
        self.0 <= T::max_value()
    }

    /// Two timestamps of one kind with the same value are the same.
    pub proof fn lemma_view_determines(a: Self, b: Self)
        requires
            a@ == b@,
        ensures
            a == b,
    {
    }
}

/// The 40-bit word of a PTS or DTS: the 4-bit tag, then the 33 bits of
/// `value` in runs of 3, 15 and 15 bits, each run followed by a marker bit.
pub open spec fn pts_word(value: int, tag: int) -> int {
    tag * 0x10_0000_0000 + (value / 0x4000_0000) * 0x2_0000_0000 + 0x1_0000_0000 + ((value
        / 0x8000) % 0x8000) * 0x2_0000 + 0x1_0000 + (value % 0x8000) * 2 + 1
}

/// The 33-bit value that a PTS or DTS word carries.
pub open spec fn pts_word_value(n: int) -> int {
    ((n / 0x2_0000_0000) % 8) * 0x4000_0000 + ((n / 0x2_0000) % 0x8000) * 0x8000 + (n / 2)
        % 0x8000
}

/// The three marker bits of a PTS or DTS word, each at its place.
pub open spec fn pts_word_markers(n: int) -> int {
    ((n / 0x1_0000_0000) % 2) * 0x1_0000_0000 + ((n / 0x1_0000) % 2) * 0x1_0000 + n % 2
}

/// All three marker bits of a PTS or DTS word.
pub const PTS_MARKER_BITS: u64 = 0x1_0001_0001;

/// The tag of a PTS or DTS word, at its place.
pub open spec fn pts_word_tag(n: int) -> int {
    ((n / 0x10_0000_0000) % 16) * 0x10_0000_0000
}

/// The 33-bit base of a clock reference: the number of whole 300-tick
/// periods, as far as 33 bits hold it.
pub open spec fn clock_base(value: int) -> int {
    if value / 300 <= 0x1_FFFF_FFFF {
        value / 300
    } else {
        0x1_FFFF_FFFF
    }
}

/// The 9-bit extension of a clock reference: the ticks beyond the base.
pub open spec fn clock_extension(value: int) -> int {
    value - clock_base(value) * 300
}

/// The 48-bit word of a program clock reference: the 33-bit base, six
/// reserved bits that are set, and the 9-bit extension.
pub open spec fn pcr_word(value: int) -> int {
    clock_base(value) * 0x8000 + 0x7E00 + clock_extension(value)
}

/// The value that a program clock reference word carries, whatever its
/// reserved bits are.
pub open spec fn pcr_word_value(n: int) -> int {
    ((n % 0x1_0000_0000_0000) / 0x8000) * 300 + n % 0x200
}

/// The 48-bit word of an elementary stream clock reference: two reserved
/// bits that are clear, the base in runs of 3, 15 and 15 bits, each followed
/// by a marker bit, then the extension and a last marker bit.
pub open spec fn escr_word(value: int) -> int {
    (clock_base(value) / 0x4000_0000) * 0x800_0000_0000 + 0x400_0000_0000 + ((clock_base(value)
        / 0x8000) % 0x8000) * 0x800_0000 + 0x400_0000 + (clock_base(value) % 0x8000) * 0x800
        + 0x400 + clock_extension(value) * 2 + 1
}

/// The value that an elementary stream clock reference word carries.
pub open spec fn escr_word_value(n: int) -> int {
    (((n / 0x800_0000_0000) % 8) * 0x4000_0000 + ((n / 0x800_0000) % 0x8000) * 0x8000 + (n
        / 0x800) % 0x8000) * 300 + (n / 2) % 0x200
}

/// The four marker bits of an elementary stream clock reference word, each at
/// its place.
pub open spec fn escr_word_markers(n: int) -> int {
    ((n / 0x400_0000_0000) % 2) * 0x400_0000_0000 + ((n / 0x400_0000) % 2) * 0x400_0000 + ((n
        / 0x400) % 2) * 0x400 + n % 2
}

/// All four marker bits of an elementary stream clock reference word.
pub const ESCR_MARKER_BITS: u64 = 0x400_0400_0401;

/// The two reserved bits of an elementary stream clock reference word.
pub open spec fn escr_word_reserved(n: int) -> int {
    (n / 0x4000_0000_0000) % 4
}

proof fn lemma_pts_fields(a: int, b: int, c: int, tag: int)
    requires
        0 <= a <= 7,
        0 <= b < 0x8000,
        0 <= c < 0x8000,
        0 <= tag <= 15,
    ensures
        ({
            let n = tag * 0x10_0000_0000 + a * 0x2_0000_0000 + 0x1_0000_0000 + b * 0x2_0000
                + 0x1_0000 + c * 2 + 1;
            &&& 0 <= n < 0x100_0000_0000
            &&& pts_word_value(n) == a * 0x4000_0000 + b * 0x8000 + c
            &&& pts_word_markers(n) == PTS_MARKER_BITS
            &&& pts_word_tag(n) == tag * 0x10_0000_0000
        }),
{
    let a: u64 = a as u64;
    let b: u64 = b as u64;
    let c: u64 = c as u64;
    let t: u64 = tag as u64;
    let n: u64 = (t * 0x10_0000_0000 + a * 0x2_0000_0000 + 0x1_0000_0000 + b * 0x2_0000 + 0x1_0000
        + c * 2 + 1) as u64;
    assert({
        &&& n < 0x100_0000_0000
        &&& (n / 0x2_0000_0000) % 8 == a
        &&& (n / 0x2_0000) % 0x8000 == b
        &&& (n / 2) % 0x8000 == c
        &&& (n / 0x1_0000_0000) % 2 == 1
        &&& (n / 0x1_0000) % 2 == 1
        &&& n % 2 == 1
        &&& (n / 0x10_0000_0000) % 16 == t
    }) by (bit_vector)
        requires
            a <= 7,
            b < 0x8000,
            c < 0x8000,
            t <= 15,
            n == t * 0x10_0000_0000 + a * 0x2_0000_0000 + 0x1_0000_0000 + b * 0x2_0000 + 0x1_0000
                + c * 2 + 1,
    ;
}

/// A PTS or DTS word gives back the value and the tag it was made of, and
/// has all its marker bits.
pub proof fn lemma_pts_word_inverse(value: int, tag: int)
    requires
        0 <= value <= 0x1_FFFF_FFFF,
        0 <= tag <= 15,
    ensures
        0 <= pts_word(value, tag) < 0x100_0000_0000,
        pts_word_value(pts_word(value, tag)) == value,
        pts_word_markers(pts_word(value, tag)) == PTS_MARKER_BITS,
        pts_word_tag(pts_word(value, tag)) == tag * 0x10_0000_0000,
{
    let a = value / 0x4000_0000;
    let b = (value / 0x8000) % 0x8000;
    let c = value % 0x8000;
    assert(value == a * 0x4000_0000 + b * 0x8000 + c);
    lemma_pts_fields(a, b, c, tag);
}

/// A value is 300 times its base plus its extension, and both fit their
/// fields.
pub proof fn lemma_clock_parts(value: int)
    requires
        0 <= value <= 0x258_0000_00D3,
    ensures
        0 <= clock_base(value) <= 0x1_FFFF_FFFF,
        0 <= clock_extension(value) <= 511,
        value == clock_base(value) * 300 + clock_extension(value),
{
}

proof fn lemma_pcr_fields(base: int, ext: int)
    requires
        0 <= base <= 0x1_FFFF_FFFF,
        0 <= ext <= 511,
    ensures
        0 <= base * 0x8000 + 0x7E00 + ext < 0x1_0000_0000_0000,
        pcr_word_value(base * 0x8000 + 0x7E00 + ext) == base * 300 + ext,
{
    let b: u64 = base as u64;
    let e: u64 = ext as u64;
    let n: u64 = (b * 0x8000 + 0x7E00 + e) as u64;
    assert({
        &&& n < 0x1_0000_0000_0000
        &&& (n % 0x1_0000_0000_0000) / 0x8000 == b
        &&& n % 0x200 == e
    }) by (bit_vector)
        requires
            b <= 0x1_FFFF_FFFF,
            e <= 511,
            n == b * 0x8000 + 0x7E00 + e,
    ;
}

/// A program clock reference word gives back the value it was made of.
pub proof fn lemma_pcr_word_inverse(value: int)
    requires
        0 <= value <= 0x258_0000_00D3,
    ensures
        0 <= pcr_word(value) < 0x1_0000_0000_0000,
        pcr_word_value(pcr_word(value)) == value,
{
    lemma_clock_parts(value);
    lemma_pcr_fields(clock_base(value), clock_extension(value));
}

proof fn lemma_escr_fields(a: int, b: int, c: int, ext: int)
    requires
        0 <= a <= 7,
        0 <= b < 0x8000,
        0 <= c < 0x8000,
        0 <= ext <= 511,
    ensures
        ({
            let n = a * 0x800_0000_0000 + 0x400_0000_0000 + b * 0x800_0000 + 0x400_0000 + c
                * 0x800 + 0x400 + ext * 2 + 1;
            &&& 0 <= n < 0x4000_0000_0000
            &&& escr_word_value(n) == (a * 0x4000_0000 + b * 0x8000 + c) * 300 + ext
            &&& escr_word_markers(n) == ESCR_MARKER_BITS
            &&& escr_word_reserved(n) == 0
        }),
{
    let a: u64 = a as u64;
    let b: u64 = b as u64;
    let c: u64 = c as u64;
    let e: u64 = ext as u64;
    let n: u64 = (a * 0x800_0000_0000 + 0x400_0000_0000 + b * 0x800_0000 + 0x400_0000 + c * 0x800
        + 0x400 + e * 2 + 1) as u64;
    assert({
        &&& n < 0x4000_0000_0000
        &&& (n / 0x800_0000_0000) % 8 == a
        &&& (n / 0x800_0000) % 0x8000 == b
        &&& (n / 0x800) % 0x8000 == c
        &&& (n / 2) % 0x200 == e
        &&& (n / 0x400_0000_0000) % 2 == 1
        &&& (n / 0x400_0000) % 2 == 1
        &&& (n / 0x400) % 2 == 1
        &&& n % 2 == 1
        &&& (n / 0x4000_0000_0000) % 4 == 0
    }) by (bit_vector)
        requires
            a <= 7,
            b < 0x8000,
            c < 0x8000,
            e <= 511,
            n == a * 0x800_0000_0000 + 0x400_0000_0000 + b * 0x800_0000 + 0x400_0000 + c * 0x800
                + 0x400 + e * 2 + 1,
    ;
}

/// An elementary stream clock reference word gives back the value it was
/// made of, has all its marker bits, and has its reserved bits clear.
pub proof fn lemma_escr_word_inverse(value: int)
    requires
        0 <= value <= 0x258_0000_00D3,
    ensures
        0 <= escr_word(value) < 0x4000_0000_0000,
        escr_word_value(escr_word(value)) == value,
        escr_word_markers(escr_word(value)) == ESCR_MARKER_BITS,
        escr_word_reserved(escr_word(value)) == 0,
{
    lemma_clock_parts(value);
    let base = clock_base(value);
    let a = base / 0x4000_0000;
    let b = (base / 0x8000) % 0x8000;
    let c = base % 0x8000;
    assert(base == a * 0x4000_0000 + b * 0x8000 + c);
    lemma_escr_fields(a, b, c, clock_extension(value));
}

impl Timestamp<PtsDts> {
    /// 90 kHz.
    pub const RESOLUTION: u64 = 90_000;

    /// Maximum timestamp value.
    pub const MAX: u64 = 0x1_FFFF_FFFF;

    /// Makes a new `Timestamp`; a value above [`Timestamp::MAX`] is refused.
    pub fn new(n: u64) -> (r: Result<Self, Error>)
        ensures
            n <= Self::MAX ==> (r matches Ok(t) && t@ == n),
            n > Self::MAX ==> r == Err::<Self, Error>(Error::ValueTooLarge(n)),
    {
        if n > Self::MAX {
            return Err(Error::ValueTooLarge(n));
        }
        Ok(Timestamp(n, PhantomData))
    }

    /// Returns the value of the timestamp.
    pub fn as_u64(&self) -> (r: u64)
        ensures
            r == self@,
            r <= Self::MAX,
    {
        proof {
            use_type_invariant(self);
        }
        self.0
    }

    /// Takes the timestamp out of its 40-bit word. The word is refused when
    /// one of its three marker bits is clear.
    pub fn from_u64(n: u64) -> (r: Result<Self, Error>)
        ensures
            pts_word_markers(n as int) == PTS_MARKER_BITS ==> (r matches Ok(t) && t@
                == pts_word_value(n as int)),
            pts_word_markers(n as int) != PTS_MARKER_BITS ==> r == Err::<Self, Error>(
                Error::UnexpectedMarkerBit(pts_word_markers(n as int) as u64),
            ),
    {
        let markers: u64 = ((n / 0x1_0000_0000) % 2) * 0x1_0000_0000 + ((n / 0x1_0000) % 2)
            * 0x1_0000 + n % 2;
        if markers != PTS_MARKER_BITS {
            return Err(Error::UnexpectedMarkerBit(markers));
        }
        let n0: u64 = (n / 0x2_0000_0000) % 8;
        let n1: u64 = (n / 0x2_0000) % 0x8000;
        let n2: u64 = (n / 2) % 0x8000;
        Ok(Timestamp(n0 * 0x4000_0000 + n1 * 0x8000 + n2, PhantomData))
    }

    /// Checks the 4-bit tag of a 40-bit word against the one expected at its
    /// place in the header.
    pub fn check_bits(n: u64, expected: u8) -> (r: Result<(), Error>)
        ensures
            pts_word_tag(n as int) == expected * 0x10_0000_0000 ==> r is Ok,
            pts_word_tag(n as int) != expected * 0x10_0000_0000 ==> r == Err::<(), Error>(
                Error::UnexpectedMarkerBit(pts_word_tag(n as int) as u64),
            ),
    {
        let tag: u64 = (n / 0x10_0000_0000) % 16;
        if tag != expected as u64 {
            return Err(Error::UnexpectedMarkerBit(tag * 0x10_0000_0000));
        }
        Ok(())
    }

    /// Puts the timestamp into its 40-bit word under the given tag.
    pub fn to_u64(&self, check_bits: u8) -> (r: u64)
        requires
            check_bits <= 15,
        ensures
            r == pts_word(self@ as int, check_bits as int),
            r < 0x100_0000_0000,
    {
        let v: u64 = self.as_u64();
        (check_bits as u64) * 0x10_0000_0000 + (v / 0x4000_0000) * 0x2_0000_0000 + 0x1_0000_0000
            + ((v / 0x8000) % 0x8000) * 0x2_0000 + 0x1_0000 + (v % 0x8000) * 2 + 1
    }
}

impl<T> Timestamp<Clock<T>> {
    /// 27MHz.
    pub const RESOLUTION: u64 = 27_000_000;

    /// Maximum clock reference value: the largest base, times 300, plus the
    /// largest extension.
    pub const MAX: u64 = 0x258_0000_00D3;

    /// Makes a new clock reference; a value above the maximum is refused.
    pub fn new(n: u64) -> (r: Result<Self, Error>)
        ensures
            n <= Self::MAX ==> (r matches Ok(t) && t@ == n),
            n > Self::MAX ==> r == Err::<Self, Error>(Error::ValueTooLarge(n)),
    {
        if n > Self::MAX {
            return Err(Error::ValueTooLarge(n));
        }
        Ok(Timestamp(n, PhantomData))
    }

    /// Returns the value of the clock reference.
    pub fn as_u64(&self) -> (r: u64)
        ensures
            r == self@,
            r <= Self::MAX,
    {
        proof {
            use_type_invariant(self);
        }
        self.0
    }

    /// The 33-bit base of a value.
    fn base_of(v: u64) -> (r: u64)
        requires
            v <= Self::MAX,
        ensures
            r == clock_base(v as int),
            r <= 0x1_FFFF_FFFF,
            r * 300 <= v <= r * 300 + 511,
    {
        if v / 300 <= 0x1_FFFF_FFFF {
            v / 300
        } else {
            0x1_FFFF_FFFF
        }
    }

    /// The clock reference of a PTS or DTS: 300 ticks of 27 MHz for each tick
    /// of 90 kHz.
    pub fn from_pts(f: Timestamp<PtsDts>) -> (r: Self)
        ensures
            r@ == f@ * 300,
    {
        let v: u64 = f.as_u64();
        Timestamp(v * 300, PhantomData)
    }
}

impl From<u32> for Timestamp<PtsDts> {
    fn from(n: u32) -> (r: Self) {
        Timestamp(n as u64, PhantomData)
    }
}

impl vstd::std_specs::convert::FromSpecImpl<u32> for Timestamp<PtsDts> {
    open spec fn obeys_from_spec() -> bool {
        true
    }

    closed spec fn from_spec(n: u32) -> Self {
        Timestamp(n as u64, PhantomData)
    }
}

impl<T> From<u32> for Timestamp<Clock<T>> {
    fn from(n: u32) -> (r: Self) {
        Timestamp(n as u64, PhantomData)
    }
}

impl<T> vstd::std_specs::convert::FromSpecImpl<u32> for Timestamp<Clock<T>> {
    open spec fn obeys_from_spec() -> bool {
        true
    }

    closed spec fn from_spec(n: u32) -> Self {
        Timestamp(n as u64, PhantomData)
    }
}

impl<T> From<Timestamp<PtsDts>> for Timestamp<Clock<T>> {
    fn from(f: Timestamp<PtsDts>) -> (r: Self) {
        proof {
            use_type_invariant(&f);
        }
        Timestamp(f.0 * 300, PhantomData)
    }
}

impl<T> vstd::std_specs::convert::FromSpecImpl<Timestamp<PtsDts>> for Timestamp<Clock<T>> {
    open spec fn obeys_from_spec() -> bool {
        true
    }

    closed spec fn from_spec(f: Timestamp<PtsDts>) -> Self {
        Timestamp((f.0 * 300) as u64, PhantomData)
    }
}

/// A timestamp made from 32 bits has their value.
pub proof fn lemma_timestamp_from_u32(n: u32)
    ensures
        <Timestamp<PtsDts> as vstd::std_specs::convert::FromSpec<u32>>::from_spec(n)@ == n,
{
}

/// A clock reference made from 32 bits has their value.
pub proof fn lemma_clock_from_u32<T>(n: u32)
    ensures
        <Timestamp<Clock<T>> as vstd::std_specs::convert::FromSpec<u32>>::from_spec(n)@ == n,
{
}

/// The clock reference made from a PTS or DTS counts 300 ticks for each of
/// its ticks.
pub proof fn lemma_clock_from_timestamp<T>(f: Timestamp<PtsDts>)
    requires
        f@ <= 0x1_FFFF_FFFF,
    ensures
        <Timestamp<Clock<T>> as vstd::std_specs::convert::FromSpec<
            Timestamp<PtsDts>,
        >>::from_spec(f)@ == f@ * 300,
{
}

impl Timestamp<Clock<PCR>> {
    /// Takes the clock reference out of the low 48 bits of `n`.
    pub fn from_u64(n: u64) -> (r: Self)
        ensures
            r@ == pcr_word_value(n as int),
    {
        let base: u64 = (n % 0x1_0000_0000_0000) / 0x8000;
        let extension: u64 = n % 0x200;
        Timestamp(base * 300 + extension, PhantomData)
    }

    /// Puts the clock reference into its 48-bit word.
    pub fn to_u64(&self) -> (r: u64)
        ensures
            r == pcr_word(self@ as int),
            r < 0x1_0000_0000_0000,
    {
        let v: u64 = self.as_u64();
        let base: u64 = Self::base_of(v);
        base * 0x8000 + 0x7E00 + (v - base * 300)
    }
}

impl Timestamp<Clock<ESCR>> {
    /// Takes the clock reference out of the low 48 bits of `n`. The word is
    /// refused when a reserved bit is set or a marker bit is clear.
    pub fn from_u64(n: u64) -> (r: Result<Self, Error>)
        ensures
            escr_word_reserved(n as int) != 0 ==> r == Err::<Self, Error>(Error::TsGeneric),
            escr_word_reserved(n as int) == 0 && escr_word_markers(n as int) != ESCR_MARKER_BITS
                ==> r == Err::<Self, Error>(
                Error::UnexpectedMarkerBit(escr_word_markers(n as int) as u64),
            ),
            escr_word_reserved(n as int) == 0 && escr_word_markers(n as int) == ESCR_MARKER_BITS
                ==> (r matches Ok(t) && t@ == escr_word_value(n as int)),
    {
        if (n / 0x4000_0000_0000) % 4 != 0 {
            return Err(Error::TsGeneric);
        }
        let markers: u64 = ((n / 0x400_0000_0000) % 2) * 0x400_0000_0000 + ((n / 0x400_0000) % 2)
            * 0x400_0000 + ((n / 0x400) % 2) * 0x400 + n % 2;
        if markers != ESCR_MARKER_BITS {
            return Err(Error::UnexpectedMarkerBit(markers));
        }
        let base: u64 = ((n / 0x800_0000_0000) % 8) * 0x4000_0000 + ((n / 0x800_0000) % 0x8000)
            * 0x8000 + (n / 0x800) % 0x8000;
        let extension: u64 = (n / 2) % 0x200;
        Ok(Timestamp(base * 300 + extension, PhantomData))
    }

    /// Puts the clock reference into its 48-bit word.
    pub fn to_u64(&self) -> (r: u64)
        ensures
            r == escr_word(self@ as int),
            r < 0x4000_0000_0000,
    {
        let v: u64 = self.as_u64();
        let base: u64 = Self::base_of(v);
        (base / 0x4000_0000) * 0x800_0000_0000 + 0x400_0000_0000 + ((base / 0x8000) % 0x8000)
            * 0x800_0000 + 0x400_0000 + (base % 0x8000) * 0x800 + 0x400 + (v - base * 300) * 2 + 1
    }
}

} // verus!
