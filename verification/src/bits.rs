//! Bit-level view of a byte sequence: every filter fact is ultimately a fact
//! about single bits of the serialized bit array.

use vstd::prelude::*;

verus! {

/// True when bit `j` of the byte `x` is set.
pub open spec fn byte_bit(x: u8, j: u8) -> bool {
    (x >> j) & 1u8 == 1u8
}

/// True when bit `i` of the byte sequence `bytes` is set. Bit `i` lives in
/// byte `i / 8`, at position `i % 8` inside that byte.
pub open spec fn bit_at(bytes: Seq<u8>, i: int) -> bool
    recommends
        0 <= i < 8 * bytes.len(),
{
    byte_bit(bytes[i / 8], (i % 8) as u8)
}

/// Two bytes that agree on each of their eight bits are equal.
pub proof fn lemma_byte_from_bits(a: u8, b: u8)
    requires
        forall|j: u8| j < 8 ==> byte_bit(a, j) == byte_bit(b, j),
    ensures
        a == b,
{
    assert(byte_bit(a, 0) == byte_bit(b, 0));
    assert(byte_bit(a, 1) == byte_bit(b, 1));
    assert(byte_bit(a, 2) == byte_bit(b, 2));
    assert(byte_bit(a, 3) == byte_bit(b, 3));
    assert(byte_bit(a, 4) == byte_bit(b, 4));
    assert(byte_bit(a, 5) == byte_bit(b, 5));
    assert(byte_bit(a, 6) == byte_bit(b, 6));
    assert(byte_bit(a, 7) == byte_bit(b, 7));
    assert(a == b) by (bit_vector)
        requires
            ((a >> 0u8) & 1u8 == 1u8) == ((b >> 0u8) & 1u8 == 1u8),
            ((a >> 1u8) & 1u8 == 1u8) == ((b >> 1u8) & 1u8 == 1u8),
            ((a >> 2u8) & 1u8 == 1u8) == ((b >> 2u8) & 1u8 == 1u8),
            ((a >> 3u8) & 1u8 == 1u8) == ((b >> 3u8) & 1u8 == 1u8),
            ((a >> 4u8) & 1u8 == 1u8) == ((b >> 4u8) & 1u8 == 1u8),
            ((a >> 5u8) & 1u8 == 1u8) == ((b >> 5u8) & 1u8 == 1u8),
            ((a >> 6u8) & 1u8 == 1u8) == ((b >> 6u8) & 1u8 == 1u8),
            ((a >> 7u8) & 1u8 == 1u8) == ((b >> 7u8) & 1u8 == 1u8),
    ;
}

/// Bit `i` of a byte sequence is bit `i % 8` of byte `i / 8`; conversely,
/// bit `k` of byte `j` is bit `8 * j + k` of the sequence.
pub proof fn lemma_bit_index(j: int, k: u8)
    requires
        0 <= j,
        k < 8,
    ensures
        (8 * j + k) / 8 == j,
        (8 * j + k) % 8 == k as int,
{
    assert((8 * j + k) / 8 == j && (8 * j + k) % 8 == k as int) by (nonlinear_arith)
        requires
            0 <= j,
            0 <= k < 8,
    ;
}

/// Byte sequences of equal length that agree on every bit are equal.
pub proof fn lemma_bytes_from_bits(a: Seq<u8>, b: Seq<u8>)
    requires
        a.len() == b.len(),
        forall|i: int| 0 <= i < 8 * a.len() ==> bit_at(a, i) == bit_at(b, i),
    ensures
        a == b,
{
    assert forall|j: int| 0 <= j < a.len() implies a[j] == b[j] by {
        assert forall|k: u8| k < 8 implies byte_bit(a[j], k) == byte_bit(b[j], k) by {
            let i = 8 * j + k;
            lemma_bit_index(j, k);
            assert(0 <= i < 8 * a.len());
            assert(bit_at(a, i) == bit_at(b, i));
        }
        lemma_byte_from_bits(a[j], b[j]);
    }
    assert(a =~= b);
}

/// Each bit of `a | b` is the disjunction of the corresponding bits of `a`
/// and `b`.
pub proof fn lemma_byte_or_bit(a: u8, b: u8, j: u8)
    requires
        j < 8,
    ensures
        byte_bit(a | b, j) == (byte_bit(a, j) || byte_bit(b, j)),
{
    assert((((a | b) >> j) & 1u8 == 1u8) == (((a >> j) & 1u8 == 1u8) || ((b >> j) & 1u8 == 1u8)))
        by (bit_vector);
}

} // verus!
