//! Big-endian integers on the wire, and the byte buffers they are written to
//! and read from.
use vstd::prelude::*;

verus! {

/// The two bytes of `n`, most significant first.
pub open spec fn u16_bytes(n: int) -> Seq<u8> {
    seq![((n / 0x100) % 0x100) as u8, (n % 0x100) as u8]
}

/// The three low bytes of `n`, most significant first.
pub open spec fn u24_bytes(n: int) -> Seq<u8> {
    seq![((n / 0x1_0000) % 0x100) as u8, ((n / 0x100) % 0x100) as u8, (n % 0x100) as u8]
}

/// The four low bytes of `n`, most significant first.
pub open spec fn u32_bytes(n: int) -> Seq<u8> {
    seq![
        ((n / 0x100_0000) % 0x100) as u8,
        ((n / 0x1_0000) % 0x100) as u8,
        ((n / 0x100) % 0x100) as u8,
        (n % 0x100) as u8,
    ]
}

/// The five low bytes of `n`, most significant first.
pub open spec fn u40_bytes(n: int) -> Seq<u8> {
    seq![
        ((n / 0x1_0000_0000) % 0x100) as u8,
        ((n / 0x100_0000) % 0x100) as u8,
        ((n / 0x1_0000) % 0x100) as u8,
        ((n / 0x100) % 0x100) as u8,
        (n % 0x100) as u8,
    ]
}

/// The six low bytes of `n`, most significant first.
pub open spec fn u48_bytes(n: int) -> Seq<u8> {
    seq![
        ((n / 0x100_0000_0000) % 0x100) as u8,
        ((n / 0x1_0000_0000) % 0x100) as u8,
        ((n / 0x100_0000) % 0x100) as u8,
        ((n / 0x1_0000) % 0x100) as u8,
        ((n / 0x100) % 0x100) as u8,
        (n % 0x100) as u8,
    ]
}

/// The number that the two bytes from index `i` on spell, most significant first.
pub open spec fn u16_at(s: Seq<u8>, i: int) -> int {
    s[i] as int * 0x100 + s[i + 1] as int
}

/// The number that the three bytes from index `i` on spell.
pub open spec fn u24_at(s: Seq<u8>, i: int) -> int {
    s[i] as int * 0x1_0000 + s[i + 1] as int * 0x100 + s[i + 2] as int
}

/// The number that the four bytes from index `i` on spell.
pub open spec fn u32_at(s: Seq<u8>, i: int) -> int {
    s[i] as int * 0x100_0000 + s[i + 1] as int * 0x1_0000 + s[i + 2] as int * 0x100 + s[i
        + 3] as int
}

/// The number that the five bytes from index `i` on spell.
pub open spec fn u40_at(s: Seq<u8>, i: int) -> int {
    s[i] as int * 0x1_0000_0000 + s[i + 1] as int * 0x100_0000 + s[i + 2] as int * 0x1_0000 + s[i
        + 3] as int * 0x100 + s[i + 4] as int
}

/// The number that the six bytes from index `i` on spell.
pub open spec fn u48_at(s: Seq<u8>, i: int) -> int {
    s[i] as int * 0x100_0000_0000 + s[i + 1] as int * 0x1_0000_0000 + s[i + 2] as int
        * 0x100_0000 + s[i + 3] as int * 0x1_0000 + s[i + 4] as int * 0x100 + s[i + 5] as int
}

/// `count` copies of `value`.
pub open spec fn repeated(value: u8, count: nat) -> Seq<u8> {
    Seq::new(count, |i: int| value)
}

/// The quotients of `n` by the powers of 256, each from the one before.
proof fn lemma_byte_quotients(n: int)
    requires
        0 <= n,
    ensures
        n / 0x1_0000 == (n / 0x100) / 0x100,
        n / 0x100_0000 == (n / 0x1_0000) / 0x100,
        n / 0x1_0000_0000 == (n / 0x100_0000) / 0x100,
        n / 0x100_0000_0000 == (n / 0x1_0000_0000) / 0x100,
{
    vstd::arithmetic::div_mod::lemma_div_denominator(n, 0x100, 0x100);
    vstd::arithmetic::div_mod::lemma_div_denominator(n, 0x1_0000, 0x100);
    vstd::arithmetic::div_mod::lemma_div_denominator(n, 0x100_0000, 0x100);
    vstd::arithmetic::div_mod::lemma_div_denominator(n, 0x1_0000_0000, 0x100);
}

/// Reading back two written bytes gives the number written.
pub proof fn lemma_read_back_u16(n: int)
    requires
        0 <= n < 0x1_0000,
    ensures
        u16_at(u16_bytes(n), 0) == n,
{
}

/// Reading back three written bytes gives the number written.
pub proof fn lemma_read_back_u24(n: int)
    requires
        0 <= n < 0x100_0000,
    ensures
        u24_at(u24_bytes(n), 0) == n,
{
    lemma_byte_quotients(n);
}

/// Reading back four written bytes gives the number written.
pub proof fn lemma_read_back_u32(n: int)
    requires
        0 <= n < 0x1_0000_0000,
    ensures
        u32_at(u32_bytes(n), 0) == n,
{
    lemma_byte_quotients(n);
}

/// Reading back five written bytes gives the number written.
pub proof fn lemma_read_back_u40(n: int)
    requires
        0 <= n < 0x100_0000_0000,
    ensures
        u40_at(u40_bytes(n), 0) == n,
{
    lemma_byte_quotients(n);
}

/// Reading back six written bytes gives the number written.
pub proof fn lemma_read_back_u48(n: int)
    requires
        0 <= n < 0x1_0000_0000_0000,
    ensures
        u48_at(u48_bytes(n), 0) == n,
{
    lemma_byte_quotients(n);
}

/// Writing the number read from two bytes gives those bytes.
pub proof fn lemma_write_back_u16(s: Seq<u8>, i: int)
    requires
        0 <= i,
        i + 2 <= s.len(),
    ensures
        u16_bytes(u16_at(s, i)) == s.subrange(i, i + 2),
{
    assert(u16_bytes(u16_at(s, i)) =~= s.subrange(i, i + 2));
}

/// Writing the number read from three bytes gives those bytes.
pub proof fn lemma_write_back_u24(s: Seq<u8>, i: int)
    requires
        0 <= i,
        i + 3 <= s.len(),
    ensures
        u24_bytes(u24_at(s, i)) == s.subrange(i, i + 3),
{
    let n = u24_at(s, i);
    lemma_byte_quotients(n);
    assert(n / 0x100 == u16_at(s, i));
    assert(u24_bytes(n) =~= s.subrange(i, i + 3));
}

/// Writing the number read from four bytes gives those bytes.
pub proof fn lemma_write_back_u32(s: Seq<u8>, i: int)
    requires
        0 <= i,
        i + 4 <= s.len(),
    ensures
        u32_bytes(u32_at(s, i)) == s.subrange(i, i + 4),
{
    let n = u32_at(s, i);
    lemma_byte_quotients(n);
    assert(n / 0x100 == u24_at(s, i));
    assert(n / 0x100 / 0x100 == u16_at(s, i));
    assert(u32_bytes(n) =~= s.subrange(i, i + 4));
}

/// Writing the number read from five bytes gives those bytes.
pub proof fn lemma_write_back_u40(s: Seq<u8>, i: int)
    requires
        0 <= i,
        i + 5 <= s.len(),
    ensures
        u40_bytes(u40_at(s, i)) == s.subrange(i, i + 5),
{
    let n = u40_at(s, i);
    lemma_byte_quotients(n);
    assert(n / 0x100 == u32_at(s, i));
    assert(n / 0x100 / 0x100 == u24_at(s, i));
    assert(n / 0x100 / 0x100 / 0x100 == u16_at(s, i));
    assert(u40_bytes(n) =~= s.subrange(i, i + 5));
}

/// Writing the number read from six bytes gives those bytes.
pub proof fn lemma_write_back_u48(s: Seq<u8>, i: int)
    requires
        0 <= i,
        i + 6 <= s.len(),
    ensures
        u48_bytes(u48_at(s, i)) == s.subrange(i, i + 6),
{
    let n = u48_at(s, i);
    lemma_byte_quotients(n);
    assert(n / 0x100 == u40_at(s, i));
    assert(n / 0x100 / 0x100 == u32_at(s, i));
    assert(n / 0x100 / 0x100 / 0x100 == u24_at(s, i));
    assert(n / 0x100 / 0x100 / 0x100 / 0x100 == u16_at(s, i));
    assert(u48_bytes(n) =~= s.subrange(i, i + 6));
}

/// Appends the two bytes of `n`.
pub fn put_u16(out: &mut Vec<u8>, n: u16)
    ensures
        final(out)@ == old(out)@ + u16_bytes(n as int),
{
    out.push((n / 0x100) as u8);
    out.push((n % 0x100) as u8);
    assert(out@ =~= old(out)@ + u16_bytes(n as int));
}

/// Appends the three low bytes of `n`.
pub fn put_u24(out: &mut Vec<u8>, n: u32)
    ensures
        final(out)@ == old(out)@ + u24_bytes(n as int),
{
    out.push(((n / 0x1_0000) % 0x100) as u8);
    out.push(((n / 0x100) % 0x100) as u8);
    out.push((n % 0x100) as u8);
    assert(out@ =~= old(out)@ + u24_bytes(n as int));
}

/// Appends the four bytes of `n`.
pub fn put_u32(out: &mut Vec<u8>, n: u32)
    ensures
        final(out)@ == old(out)@ + u32_bytes(n as int),
{
    out.push((n / 0x100_0000) as u8);
    out.push(((n / 0x1_0000) % 0x100) as u8);
    out.push(((n / 0x100) % 0x100) as u8);
    out.push((n % 0x100) as u8);
    assert(out@ =~= old(out)@ + u32_bytes(n as int));
}

/// Appends the five low bytes of `n`.
pub fn put_u40(out: &mut Vec<u8>, n: u64)
    ensures
        final(out)@ == old(out)@ + u40_bytes(n as int),
{
    out.push(((n / 0x1_0000_0000) % 0x100) as u8);
    out.push(((n / 0x100_0000) % 0x100) as u8);
    out.push(((n / 0x1_0000) % 0x100) as u8);
    out.push(((n / 0x100) % 0x100) as u8);
    out.push((n % 0x100) as u8);
    assert(out@ =~= old(out)@ + u40_bytes(n as int));
}

/// Appends the six low bytes of `n`.
pub fn put_u48(out: &mut Vec<u8>, n: u64)
    ensures
        final(out)@ == old(out)@ + u48_bytes(n as int),
{
    out.push(((n / 0x100_0000_0000) % 0x100) as u8);
    out.push(((n / 0x1_0000_0000) % 0x100) as u8);
    out.push(((n / 0x100_0000) % 0x100) as u8);
    out.push(((n / 0x1_0000) % 0x100) as u8);
    out.push(((n / 0x100) % 0x100) as u8);
    out.push((n % 0x100) as u8);
    assert(out@ =~= old(out)@ + u48_bytes(n as int));
}

/// Appends a copy of `data`.
pub fn put_slice(out: &mut Vec<u8>, data: &[u8])
    ensures
        final(out)@ == old(out)@ + data@,
{
    let mut i: usize = 0;
    while i < data.len()
        invariant
            i <= data@.len(),
            out@ == old(out)@ + data@.take(i as int),
        decreases data@.len() - i,
    {
        out.push(data[i]);
        i += 1;
        assert(out@ =~= old(out)@ + data@.take(i as int));
    }
    assert(data@.take(i as int) =~= data@);
}

/// Appends `count` copies of `value`.
pub fn put_bytes(out: &mut Vec<u8>, value: u8, count: usize)
    ensures
        final(out)@ == old(out)@ + repeated(value, count as nat),
{
    let mut i: usize = 0;
    while i < count
        invariant
            i <= count,
            out@ == old(out)@ + repeated(value, i as nat),
        decreases count - i,
    {
        out.push(value);
        i += 1;
        assert(out@ =~= old(out)@ + repeated(value, i as nat));
    }
}

/// Reads the two bytes at `pos`.
pub fn get_u16(input: &[u8], pos: usize) -> (r: u16)
    requires
        pos + 2 <= input@.len(),
    ensures
        r == u16_at(input@, pos as int),
{
    (input[pos] as u16) * 0x100 + (input[pos + 1] as u16)
}

/// Reads the three bytes at `pos`.
pub fn get_u24(input: &[u8], pos: usize) -> (r: u32)
    requires
        pos + 3 <= input@.len(),
    ensures
        r == u24_at(input@, pos as int),
        r < 0x100_0000,
{
    (input[pos] as u32) * 0x1_0000 + (input[pos + 1] as u32) * 0x100 + (input[pos + 2] as u32)
}

/// Reads the four bytes at `pos`.
pub fn get_u32(input: &[u8], pos: usize) -> (r: u32)
    requires
        pos + 4 <= input@.len(),
    ensures
        r == u32_at(input@, pos as int),
{
    (input[pos] as u32) * 0x100_0000 + (input[pos + 1] as u32) * 0x1_0000 + (input[pos
        + 2] as u32) * 0x100 + (input[pos + 3] as u32)
}

/// Reads the five bytes at `pos`.
pub fn get_u40(input: &[u8], pos: usize) -> (r: u64)
    requires
        pos + 5 <= input@.len(),
    ensures
        r == u40_at(input@, pos as int),
        r < 0x100_0000_0000,
{
    (input[pos] as u64) * 0x1_0000_0000 + (input[pos + 1] as u64) * 0x100_0000 + (input[pos
        + 2] as u64) * 0x1_0000 + (input[pos + 3] as u64) * 0x100 + (input[pos + 4] as u64)
}

/// Reads the six bytes at `pos`.
pub fn get_u48(input: &[u8], pos: usize) -> (r: u64)
    requires
        pos + 6 <= input@.len(),
    ensures
        r == u48_at(input@, pos as int),
        r < 0x1_0000_0000_0000,
{
    (input[pos] as u64) * 0x100_0000_0000 + (input[pos + 1] as u64) * 0x1_0000_0000 + (input[pos
        + 2] as u64) * 0x100_0000 + (input[pos + 3] as u64) * 0x1_0000 + (input[pos
        + 4] as u64) * 0x100 + (input[pos + 5] as u64)
}

/// Copies the bytes from `from` up to `to` into a vector of their own.
pub fn copy_range(input: &[u8], from: usize, to: usize) -> (r: Vec<u8>)
    requires
        from <= to <= input@.len(),
    ensures
        r@ == input@.subrange(from as int, to as int),
{
    let mut r: Vec<u8> = Vec::new();
    let mut i: usize = from;
    while i < to
        invariant
            from <= i <= to <= input@.len(),
            r@ == input@.subrange(from as int, i as int),
        decreases to - i,
    {
        r.push(input[i]);
        i += 1;
        assert(r@ =~= input@.subrange(from as int, i as int));
    }
    r
}

/// Copies a list of 16-bit numbers.
pub fn copy_pids(list: &Vec<u16>) -> (r: Vec<u16>)
    ensures
        r@ == list@,
{
    let mut r: Vec<u16> = Vec::new();
    let mut i: usize = 0;
    while i < list.len()
        invariant
            i <= list@.len(),
            r@ == list@.take(i as int),
        decreases list@.len() - i,
    {
        r.push(list[i]);
        i += 1;
        assert(r@ =~= list@.take(i as int));
    }
    assert(list@.take(i as int) =~= list@);
    r
}

} // verus!
