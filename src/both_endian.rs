//! Integers that ISO9660 stores twice, little-endian then big-endian.
use crate::error::IsoError;
use vstd::prelude::*;

verus! {

/// Value of two bytes read little-endian.
pub open spec fn le16(s: Seq<u8>) -> int {
    s[0] + 256 * s[1]
}

/// Value of two bytes read big-endian.
pub open spec fn be16(s: Seq<u8>) -> int {
    256 * s[0] + s[1]
}

/// Value of four bytes read little-endian.
pub open spec fn le32(s: Seq<u8>) -> int {
    s[0] + 256 * s[1] + 65536 * s[2] + 16777216 * s[3]
}

/// Value of four bytes read big-endian.
pub open spec fn be32(s: Seq<u8>) -> int {
    16777216 * s[0] + 65536 * s[1] + 256 * s[2] + s[3]
}

/// What decoding a 16-bit dual-endian field yields: the value when both
/// halves agree, `FormatMismatch` when they do not.
pub open spec fn both_u16_value(s: Seq<u8>) -> Result<u16, IsoError> {
    if le16(s.subrange(0, 2)) == be16(s.subrange(2, 4)) {
        Ok(le16(s.subrange(0, 2)) as u16)
    } else {
        Err(IsoError::FormatMismatch)
    }
}

/// What decoding a 32-bit dual-endian field yields: the value when both
/// halves agree, `FormatMismatch` when they do not.
pub open spec fn both_u32_value(s: Seq<u8>) -> Result<u32, IsoError> {
    if le32(s.subrange(0, 4)) == be32(s.subrange(4, 8)) {
        Ok(le32(s.subrange(0, 4)) as u32)
    } else {
        Err(IsoError::FormatMismatch)
    }
}

/// Decodes a 16-bit dual-endian field: two bytes little-endian, then the same
/// value in two bytes big-endian.
pub fn decode_both_u16(field: &[u8; 4]) -> (r: Result<u16, IsoError>)
    ensures
        r == both_u16_value(field@),
{
    let le: u16 = field[0] as u16 + (field[1] as u16) * 256;
    let be: u16 = (field[2] as u16) * 256 + field[3] as u16;
    if le == be {
        Ok(le)
    } else {
        Err(IsoError::FormatMismatch)
    }
}

/// Decodes a 32-bit dual-endian field: four bytes little-endian, then the
/// same value in four bytes big-endian.
pub fn decode_both_u32(field: &[u8; 8]) -> (r: Result<u32, IsoError>)
    ensures
        r == both_u32_value(field@),
{
    let le: u32 = field[0] as u32 + (field[1] as u32) * 256 + (field[2] as u32) * 65536
        + (field[3] as u32) * 16777216;
    let be: u32 = (field[4] as u32) * 16777216 + (field[5] as u32) * 65536 + (field[6] as u32)
        * 256 + field[7] as u32;
    if le == be {
        Ok(le)
    } else {
        Err(IsoError::FormatMismatch)
    }
}

/// The four bytes of a 16-bit dual-endian field holding `v`.
pub open spec fn both_u16_bytes(v: u16) -> Seq<u8> {
    seq![(v % 256) as u8, (v / 256) as u8, (v / 256) as u8, (v % 256) as u8]
}

/// The eight bytes of a 32-bit dual-endian field holding `v`.
pub open spec fn both_u32_bytes(v: u32) -> Seq<u8> {
    let b0 = (v % 256) as u8;
    let b1 = (v / 256 % 256) as u8;
    let b2 = (v / 256 / 256 % 256) as u8;
    let b3 = (v / 256 / 256 / 256) as u8;
    seq![b0, b1, b2, b3, b3, b2, b1, b0]
}

/// `s` with bit `bit` of byte `i` inverted.
pub open spec fn flip_bit(s: Seq<u8>, i: int, bit: u8) -> Seq<u8> {
    s.update(i, s[i] ^ (1u8 << bit))
}

proof fn lemma_flip_changes_byte(x: u8, bit: u8)
    requires
        bit < 8,
    ensures
        x ^ (1u8 << bit) != x,
{
    assert(bit < 8 ==> x ^ (1u8 << bit) != x) by (bit_vector);
}

/// A 16-bit value written in both byte orders decodes to itself, and
/// inverting any one bit of either half makes the decode report
/// `FormatMismatch`.
pub proof fn lemma_both_u16_round_trip(v: u16)
    ensures
        both_u16_value(both_u16_bytes(v)) == Ok::<u16, IsoError>(v),
        forall|i: int, bit: u8|
            0 <= i < 4 && bit < 8 ==> #[trigger] both_u16_value(flip_bit(both_u16_bytes(v), i, bit))
                == Err::<u16, IsoError>(IsoError::FormatMismatch),
{
    let s = both_u16_bytes(v);
    assert(le16(s.subrange(0, 2)) == v);
    assert(be16(s.subrange(2, 4)) == v);
    assert forall|i: int, bit: u8| 0 <= i < 4 && bit < 8 implies #[trigger] both_u16_value(
        flip_bit(s, i, bit),
    ) == Err::<u16, IsoError>(IsoError::FormatMismatch) by {
        lemma_flip_changes_byte(s[i], bit);
        let t = flip_bit(s, i, bit);
        if i < 2 {
            assert(be16(t.subrange(2, 4)) == v);
            assert(le16(t.subrange(0, 2)) != v);
        } else {
            assert(le16(t.subrange(0, 2)) == v);
            assert(be16(t.subrange(2, 4)) != v);
        }
    }
}

proof fn lemma_both_u32_halves(v: u32)
    ensures
        le32(both_u32_bytes(v).subrange(0, 4)) == v,
        be32(both_u32_bytes(v).subrange(4, 8)) == v,
{
    let x = v as int;
    let q1 = x / 256;
    let q2 = q1 / 256;
    let q3 = q2 / 256;
    assert(x == x % 256 + 256 * q1);
    assert(q1 == q1 % 256 + 256 * q2);
    assert(q2 == q2 % 256 + 256 * q3);
    assert(q3 < 256);
    let s = both_u32_bytes(v);
    assert(s[0] == x % 256 && s[7] == x % 256);
    assert(s[1] == q1 % 256 && s[6] == q1 % 256);
    assert(s[2] == q2 % 256 && s[5] == q2 % 256);
    assert(s[3] == q3 && s[4] == q3);
}

proof fn lemma_le32_one_byte(s: Seq<u8>, t: Seq<u8>, i: int)
    requires
        s.len() == 4,
        t.len() == 4,
        0 <= i < 4,
        s[i] != t[i],
        forall|j: int| 0 <= j < 4 && j != i ==> s[j] == t[j],
    ensures
        le32(s) != le32(t),
        be32(s) != be32(t),
{
    assert(s[0] == t[0] || i == 0);
    assert(s[1] == t[1] || i == 1);
    assert(s[2] == t[2] || i == 2);
    assert(s[3] == t[3] || i == 3);
}

/// A 32-bit value written in both byte orders decodes to itself, and
/// inverting any one bit of either half makes the decode report
/// `FormatMismatch`.
pub proof fn lemma_both_u32_round_trip(v: u32)
    ensures
        both_u32_value(both_u32_bytes(v)) == Ok::<u32, IsoError>(v),
        forall|i: int, bit: u8|
            0 <= i < 8 && bit < 8 ==> #[trigger] both_u32_value(flip_bit(both_u32_bytes(v), i, bit))
                == Err::<u32, IsoError>(IsoError::FormatMismatch),
{
    let s = both_u32_bytes(v);
    lemma_both_u32_halves(v);
    assert forall|i: int, bit: u8| 0 <= i < 8 && bit < 8 implies #[trigger] both_u32_value(
        flip_bit(s, i, bit),
    ) == Err::<u32, IsoError>(IsoError::FormatMismatch) by {
        lemma_flip_changes_byte(s[i], bit);
        let t = flip_bit(s, i, bit);
        if i < 4 {
            assert(t.subrange(4, 8) =~= s.subrange(4, 8));
            lemma_le32_one_byte(s.subrange(0, 4), t.subrange(0, 4), i);
        } else {
            assert(t.subrange(0, 4) =~= s.subrange(0, 4));
            lemma_le32_one_byte(s.subrange(4, 8), t.subrange(4, 8), i - 4);
        }
    }
}

} // verus!
