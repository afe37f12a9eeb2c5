//! Bytes as eight bits.

use vstd::prelude::*;

verus! {

/// Bit `k` of `b`; bit 0 is the lowest.
pub open spec fn bit(b: u8, k: u8) -> bool {
    (b >> k) & 1 == 1
}

/// The byte whose bit `k` is `bk`.
pub open spec fn compose(
    b0: bool,
    b1: bool,
    b2: bool,
    b3: bool,
    b4: bool,
    b5: bool,
    b6: bool,
    b7: bool,
) -> u8 {
    (if b0 { 0x01u8 } else { 0u8 }) | (if b1 { 0x02u8 } else { 0u8 })
        | (if b2 { 0x04u8 } else { 0u8 }) | (if b3 { 0x08u8 } else { 0u8 })
        | (if b4 { 0x10u8 } else { 0u8 }) | (if b5 { 0x20u8 } else { 0u8 })
        | (if b6 { 0x40u8 } else { 0u8 }) | (if b7 { 0x80u8 } else { 0u8 })
}

/// The byte whose bit `k` is `bits(k)`, for `k` from 0 to 7.
pub open spec fn byte_of_bits(bits: spec_fn(int) -> bool) -> u8 {
    compose(bits(0), bits(1), bits(2), bits(3), bits(4), bits(5), bits(6), bits(7))
}

pub proof fn lemma_compose_bits(
    b0: bool,
    b1: bool,
    b2: bool,
    b3: bool,
    b4: bool,
    b5: bool,
    b6: bool,
    b7: bool,
)
    by (bit_vector)
    ensures
        bit(compose(b0, b1, b2, b3, b4, b5, b6, b7), 0) == b0,
        bit(compose(b0, b1, b2, b3, b4, b5, b6, b7), 1) == b1,
        bit(compose(b0, b1, b2, b3, b4, b5, b6, b7), 2) == b2,
        bit(compose(b0, b1, b2, b3, b4, b5, b6, b7), 3) == b3,
        bit(compose(b0, b1, b2, b3, b4, b5, b6, b7), 4) == b4,
        bit(compose(b0, b1, b2, b3, b4, b5, b6, b7), 5) == b5,
        bit(compose(b0, b1, b2, b3, b4, b5, b6, b7), 6) == b6,
        bit(compose(b0, b1, b2, b3, b4, b5, b6, b7), 7) == b7,
{
}

/// A byte is made of its bits.
pub proof fn lemma_decompose(v: u8)
    by (bit_vector)
    ensures
        v == compose(
            bit(v, 0),
            bit(v, 1),
            bit(v, 2),
            bit(v, 3),
            bit(v, 4),
            bit(v, 5),
            bit(v, 6),
            bit(v, 7),
        ),
{
}

/// Bit `k` of `byte_of_bits(bits)` is `bits(k)`.
pub proof fn lemma_byte_of_bits(bits: spec_fn(int) -> bool, k: int)
    requires
        0 <= k < 8,
    ensures
        bit(byte_of_bits(bits), k as u8) == bits(k),
{
    lemma_compose_bits(bits(0), bits(1), bits(2), bits(3), bits(4), bits(5), bits(6), bits(7));
}

/// A byte that has the bits `bits` is `byte_of_bits(bits)`.
pub proof fn lemma_byte_of_bits_unique(v: u8, bits: spec_fn(int) -> bool)
    requires
        forall|k: int| 0 <= k < 8 ==> bit(v, k as u8) == #[trigger] bits(k),
    ensures
        v == byte_of_bits(bits),
{
    lemma_decompose(v);
    assert(bit(v, 0int as u8) == bits(0));
    assert(bit(v, 1int as u8) == bits(1));
    assert(bit(v, 2int as u8) == bits(2));
    assert(bit(v, 3int as u8) == bits(3));
    assert(bit(v, 4int as u8) == bits(4));
    assert(bit(v, 5int as u8) == bits(5));
    assert(bit(v, 6int as u8) == bits(6));
    assert(bit(v, 7int as u8) == bits(7));
}

/// Two bytes with the same bits are the same byte.
pub proof fn lemma_bits_equal(a: u8, b: u8)
    requires
        forall|k: u8| k < 8 ==> #[trigger] bit(a, k) == bit(b, k),
    ensures
        a == b,
{
    lemma_decompose(a);
    lemma_decompose(b);
    assert(bit(a, 0) == bit(b, 0));
    assert(bit(a, 1) == bit(b, 1));
    assert(bit(a, 2) == bit(b, 2));
    assert(bit(a, 3) == bit(b, 3));
    assert(bit(a, 4) == bit(b, 4));
    assert(bit(a, 5) == bit(b, 5));
    assert(bit(a, 6) == bit(b, 6));
    assert(bit(a, 7) == bit(b, 7));
}

/// Exclusive or works bit by bit.
pub proof fn lemma_bit_xor(a: u8, m: u8, k: u8)
    by (bit_vector)
    requires
        k < 8,
    ensures
        bit(a ^ m, k) == (bit(a, k) != bit(m, k)),
{
}

/// A right shift by `shift` brings bit `k + shift` down to bit `k`.
pub proof fn lemma_bit_shr(s: u8, shift: u8, k: u8)
    by (bit_vector)
    requires
        k < 8,
        shift < 8,
    ensures
        bit(s >> shift, k) == (k + shift < 8 && bit(s, (k + shift) as u8)),
{
}

/// A left shift by `shift` brings bit `k - shift` up to bit `k`.
pub proof fn lemma_bit_shl(s: u8, shift: u8, k: u8)
    by (bit_vector)
    requires
        k < 8,
        shift < 8,
    ensures
        bit(s << shift, k) == (k >= shift && bit(s, (k - shift) as u8)),
{
}

/// Two bytes have a set bit in common just where their conjunction is not
/// zero.
pub proof fn lemma_and_nonzero(a: u8, m: u8)
    by (bit_vector)
    ensures
        (a & m != 0) == (bit(a, 0) && bit(m, 0) || bit(a, 1) && bit(m, 1) || bit(a, 2) && bit(
            m,
            2,
        ) || bit(a, 3) && bit(m, 3) || bit(a, 4) && bit(m, 4) || bit(a, 5) && bit(m, 5) || bit(
            a,
            6,
        ) && bit(m, 6) || bit(a, 7) && bit(m, 7)),
{
}

/// The zero byte has no bit set.
pub proof fn lemma_bit_zero(k: u8)
    by (bit_vector)
    requires
        k < 8,
    ensures
        !bit(0u8, k),
{
}

/// Exclusive or with zero changes nothing.
pub proof fn lemma_xor_zero(b: u8)
    by (bit_vector)
    ensures
        b ^ 0 == b,
{
}

/// What passes a mask has no bit outside it.
pub proof fn lemma_masked(value: u8, mask: u8)
    by (bit_vector)
    ensures
        (value & mask) & !mask == 0,
{
}

} // verus!
