//! CRC-32/MPEG-2: polynomial `0x04C11DB7`, initial value `0xFFFFFFFF`, no
//! reflection, no final xor.
use vstd::prelude::*;

verus! {

/// One step of the shift register: the top bit leaves, and the polynomial is
/// added when that bit was set.
pub open spec fn crc32_shift(crc: u32) -> u32 {
    if (crc & 0x8000_0000) != 0 {
        (crc << 1) ^ 0x04C1_1DB7
    } else {
        crc << 1
    }
}

/// The register after the eight bits of `b`, most significant first.
pub open spec fn crc32_byte(crc: u32, b: u8) -> u32 {
    crc32_shift(
        crc32_shift(
            crc32_shift(
                crc32_shift(
                    crc32_shift(crc32_shift(crc32_shift(crc32_shift(crc ^ ((b as u32) << 24))))),
                ),
            ),
        ),
    )
}

/// The register after all of `data`, starting from `crc`.
pub open spec fn crc32_update(crc: u32, data: Seq<u8>) -> u32
    decreases data.len(),
{
    if data.len() == 0 {
        crc
    } else {
        crc32_byte(crc32_update(crc, data.drop_last()), data.last())
    }
}

/// The CRC-32/MPEG-2 checksum of `data`.
pub open spec fn crc32_mpeg2(data: Seq<u8>) -> u32 {
    crc32_update(0xFFFF_FFFF, data)
}

/// The checksum can be computed piece by piece.
pub proof fn lemma_crc32_concat(crc: u32, a: Seq<u8>, b: Seq<u8>)
    ensures
        crc32_update(crc, a + b) == crc32_update(crc32_update(crc, a), b),
    decreases b.len(),
{
    if b.len() == 0 {
        assert(a + b =~= a);
    } else {
        lemma_crc32_concat(crc, a, b.drop_last());
        assert((a + b).drop_last() =~= a + b.drop_last());
        assert((a + b).last() == b.last());
    }
}

/// One step of the shift register loses nothing: registers that differ
/// before it differ after it.
pub proof fn lemma_shift_injective(a: u32, b: u32)
    requires
        crc32_shift(a) == crc32_shift(b),
    ensures
        a == b,
{
    assert(crc32_shift(a) == crc32_shift(b) ==> a == b) by (bit_vector);
}

/// The register after a byte tells both the register before it and the
/// byte: where either differs, the register after it differs.
pub proof fn lemma_byte_injective(c1: u32, b1: u8, c2: u32, b2: u8)
    requires
        crc32_byte(c1, b1) == crc32_byte(c2, b2),
    ensures
        c1 == c2 ==> b1 == b2,
        b1 == b2 ==> c1 == c2,
{
    let x = c1 ^ ((b1 as u32) << 24);
    let y = c2 ^ ((b2 as u32) << 24);
    let x1 = crc32_shift(x);
    let y1 = crc32_shift(y);
    let x2 = crc32_shift(x1);
    let y2 = crc32_shift(y1);
    let x3 = crc32_shift(x2);
    let y3 = crc32_shift(y2);
    let x4 = crc32_shift(x3);
    let y4 = crc32_shift(y3);
    let x5 = crc32_shift(x4);
    let y5 = crc32_shift(y4);
    let x6 = crc32_shift(x5);
    let y6 = crc32_shift(y5);
    let x7 = crc32_shift(x6);
    let y7 = crc32_shift(y6);
    lemma_shift_injective(x7, y7);
    lemma_shift_injective(x6, y6);
    lemma_shift_injective(x5, y5);
    lemma_shift_injective(x4, y4);
    lemma_shift_injective(x3, y3);
    lemma_shift_injective(x2, y2);
    lemma_shift_injective(x1, y1);
    lemma_shift_injective(x, y);
    assert(x == y);
    assert(c1 == c2 ==> b1 == b2) by (bit_vector)
        requires
            c1 ^ ((b1 as u32) << 24) == c2 ^ ((b2 as u32) << 24),
    ;
    assert(b1 == b2 ==> c1 == c2) by (bit_vector)
        requires
            c1 ^ ((b1 as u32) << 24) == c2 ^ ((b2 as u32) << 24),
    ;
}

/// Registers that differ before the same bytes differ after them.
pub proof fn lemma_update_injective(c1: u32, c2: u32, data: Seq<u8>)
    requires
        crc32_update(c1, data) == crc32_update(c2, data),
    ensures
        c1 == c2,
    decreases data.len(),
{
    if data.len() > 0 {
        lemma_byte_injective(
            crc32_update(c1, data.drop_last()),
            data.last(),
            crc32_update(c2, data.drop_last()),
            data.last(),
        );
        lemma_update_injective(c1, c2, data.drop_last());
    }
}

/// A byte with one bit flipped is another byte.
pub proof fn lemma_flipped_bit(b: u8, k: u8)
    requires
        k < 8,
    ensures
        b ^ (1u8 << k) != b,
{
    assert(b ^ (1u8 << k) != b) by (bit_vector)
        requires
            k < 8,
    ;
}

/// The checksum catches every change of one byte, and so every flipped
/// bit: bytes that differ in one place have different checksums.
pub proof fn lemma_crc32_changed_byte(crc: u32, data: Seq<u8>, i: int, x: u8)
    requires
        0 <= i < data.len(),
        x != data[i],
    ensures
        crc32_update(crc, data.update(i, x)) != crc32_update(crc, data),
{
    let before = data.take(i);
    let after = data.skip(i + 1);
    let good = before.push(data[i]);
    let bad = before.push(x);
    assert(data =~= good + after);
    assert(data.update(i, x) =~= bad + after);
    lemma_crc32_concat(crc, good, after);
    lemma_crc32_concat(crc, bad, after);
    assert(good.drop_last() =~= before);
    assert(bad.drop_last() =~= before);
    let state = crc32_update(crc, before);
    assert(crc32_update(crc, good) == crc32_byte(state, data[i]));
    assert(crc32_update(crc, bad) == crc32_byte(state, x));
    if crc32_update(crc, bad + after) == crc32_update(crc, good + after) {
        lemma_update_injective(crc32_update(crc, bad), crc32_update(crc, good), after);
        lemma_byte_injective(state, x, state, data[i]);
    }
}

/// A running CRC-32/MPEG-2 checksum.
#[derive(Debug, Clone, Copy)]
pub struct Crc32 {
    state: u32,
}

impl View for Crc32 {
    type V = u32;

    closed spec fn view(&self) -> u32 {
        self.state
    }
}

impl Crc32 {
    /// Starts a checksum.
    pub fn new() -> (r: Self)
        ensures
            r@ == crc32_mpeg2(Seq::empty()),
    {
        Crc32 { state: 0xFFFF_FFFF }
    }

    /// Feeds `data` to the checksum.
    pub fn update(&mut self, data: &[u8])
        ensures
            final(self)@ == crc32_update(old(self)@, data@),
    {
        let mut i: usize = 0;
        while i < data.len()
            invariant
                i <= data@.len(),
                self.state == crc32_update(old(self).state, data@.take(i as int)),
            decreases data@.len() - i,
        {
            let mut crc: u32 = self.state ^ ((data[i] as u32) << 24);
            let mut k: usize = 0;
            let ghost start = crc;
            while k < 8
                invariant
                    k <= 8,
                    k == 0 ==> crc == start,
                    k == 1 ==> crc == crc32_shift(start),
                    k == 2 ==> crc == crc32_shift(crc32_shift(start)),
                    k == 3 ==> crc == crc32_shift(crc32_shift(crc32_shift(start))),
                    k == 4 ==> crc == crc32_shift(
                        crc32_shift(crc32_shift(crc32_shift(start))),
                    ),
                    k == 5 ==> crc == crc32_shift(
                        crc32_shift(crc32_shift(crc32_shift(crc32_shift(start)))),
                    ),
                    k == 6 ==> crc == crc32_shift(
                        crc32_shift(crc32_shift(crc32_shift(crc32_shift(crc32_shift(start))))),
                    ),
                    k == 7 ==> crc == crc32_shift(
                        crc32_shift(
                            crc32_shift(
                                crc32_shift(crc32_shift(crc32_shift(crc32_shift(start)))),
                            ),
                        ),
                    ),
                    k == 8 ==> crc == crc32_shift(
                        crc32_shift(
                            crc32_shift(
                                crc32_shift(
                                    crc32_shift(crc32_shift(crc32_shift(crc32_shift(start)))),
                                ),
                            ),
                        ),
                    ),
                decreases 8 - k,
            {
                if (crc & 0x8000_0000) != 0 {
                    crc = (crc << 1) ^ 0x04C1_1DB7;
                } else {
                    crc = crc << 1;
                }
                k += 1;
            }
            proof {
                let prefix = data@.take(i as int + 1);
                assert(prefix.drop_last() =~= data@.take(i as int));
                assert(prefix.last() == data@[i as int]);
            }
            self.state = crc;
            i += 1;
        }
        assert(data@.take(i as int) =~= data@);
    }

    /// The checksum of everything fed so far.
    pub fn value(&self) -> (r: u32)
        ensures
            r == self@,
    {
        self.state
    }
}

/// Computes the CRC-32/MPEG-2 checksum of `data`.
pub fn crc32(data: &[u8]) -> (r: u32)
    ensures
        r == crc32_mpeg2(data@),
{
    let mut crc = Crc32::new();
    crc.update(data);
    crc.value()
}

} // verus!
