//! Packing bytes into a stream of bits, most significant bit first, and back.

use vstd::prelude::*;

verus! {

/// Bit `k` of `byte`, where `k == 0` names the most significant bit.
pub open spec fn bit_of(byte: u8, k: int) -> bool
    recommends
        0 <= k < 8,
{
    (byte >> ((7 - k) as u8)) & 1u8 == 1u8
}

/// The bits of `bytes`: eight per byte, most significant bit first.
pub open spec fn bits_of_bytes(bytes: Seq<u8>) -> Seq<bool> {
    Seq::new(8 * bytes.len(), |i: int| bit_of(bytes[i / 8], i % 8))
}

/// Bit `i` of `bits`, read as unset beyond the end of the stream.
pub open spec fn padded_bit(bits: Seq<bool>, i: int) -> bool {
    0 <= i < bits.len() && bits[i]
}

/// The value a set bit contributes at a position of the given weight.
pub open spec fn weighted(bit: bool, weight: int) -> int {
    if bit {
        weight
    } else {
        0
    }
}

/// The byte made of the eight bits that start at `start`, the first of them
/// being the most significant; bits beyond the end of the stream count as unset.
pub open spec fn byte_at(bits: Seq<bool>, start: int) -> u8 {
    (weighted(padded_bit(bits, start), 128) + weighted(padded_bit(bits, start + 1), 64)
        + weighted(padded_bit(bits, start + 2), 32) + weighted(padded_bit(bits, start + 3), 16)
        + weighted(padded_bit(bits, start + 4), 8) + weighted(padded_bit(bits, start + 5), 4)
        + weighted(padded_bit(bits, start + 6), 2) + weighted(padded_bit(bits, start + 7), 1)) as u8
}

/// The bytes of `bits`: one per group of eight, the last group filled up with
/// unset bits in its low positions.
pub open spec fn bytes_of_bits(bits: Seq<bool>) -> Seq<u8> {
    Seq::new(((bits.len() + 7) / 8) as nat, |j: int| byte_at(bits, 8 * j))
}

/// A byte is the weighted sum of its bits.
pub proof fn lemma_byte_is_sum_of_bits(byte: u8)
    ensures
        byte == weighted(bit_of(byte, 0), 128) + weighted(bit_of(byte, 1), 64) + weighted(
            bit_of(byte, 2),
            32,
        ) + weighted(bit_of(byte, 3), 16) + weighted(bit_of(byte, 4), 8) + weighted(
            bit_of(byte, 5),
            4,
        ) + weighted(bit_of(byte, 6), 2) + weighted(bit_of(byte, 7), 1),
{
    let b7: u8 = (byte >> 7u8) & 1u8;
    let b6: u8 = (byte >> 6u8) & 1u8;
    let b5: u8 = (byte >> 5u8) & 1u8;
    let b4: u8 = (byte >> 4u8) & 1u8;
    let b3: u8 = (byte >> 3u8) & 1u8;
    let b2: u8 = (byte >> 2u8) & 1u8;
    let b1: u8 = (byte >> 1u8) & 1u8;
    let b0: u8 = (byte >> 0u8) & 1u8;
    assert(b7 <= 1 && b6 <= 1 && b5 <= 1 && b4 <= 1 && b3 <= 1 && b2 <= 1 && b1 <= 1 && b0 <= 1
        && byte == 128 * b7 + 64 * b6 + 32 * b5 + 16 * b4 + 8 * b3 + 4 * b2 + 2 * b1 + b0)
        by (bit_vector)
        requires
            b7 == (byte >> 7u8) & 1u8,
            b6 == (byte >> 6u8) & 1u8,
            b5 == (byte >> 5u8) & 1u8,
            b4 == (byte >> 4u8) & 1u8,
            b3 == (byte >> 3u8) & 1u8,
            b2 == (byte >> 2u8) & 1u8,
            b1 == (byte >> 1u8) & 1u8,
            b0 == (byte >> 0u8) & 1u8,
    ;
}

/// The number of unset bits at the low end of `byte`: eight for a zero byte.
pub open spec fn low_unset_bits(byte: u8) -> int {
    if bit_of(byte, 7) {
        0
    } else if bit_of(byte, 6) {
        1
    } else if bit_of(byte, 5) {
        2
    } else if bit_of(byte, 4) {
        3
    } else if bit_of(byte, 3) {
        4
    } else if bit_of(byte, 2) {
        5
    } else if bit_of(byte, 1) {
        6
    } else if bit_of(byte, 0) {
        7
    } else {
        8
    }
}

/// The bits that `low_unset_bits` counts are unset, the bit above them is set,
/// and only a zero byte has eight of them.
pub proof fn lemma_low_unset_bits(byte: u8)
    ensures
        0 <= low_unset_bits(byte) <= 8,
        low_unset_bits(byte) == 8 <==> byte == 0,
        forall|k: int| 8 - low_unset_bits(byte) <= k < 8 ==> !bit_of(byte, k),
        low_unset_bits(byte) < 8 ==> bit_of(byte, 7 - low_unset_bits(byte)),
{
    lemma_byte_is_sum_of_bits(byte);
    assert forall|k: int| 8 - low_unset_bits(byte) <= k < 8 implies !bit_of(byte, k) by {
        if k == 7 {
        } else if k == 6 {
        } else if k == 5 {
        } else if k == 4 {
        } else if k == 3 {
        } else if k == 2 {
        } else if k == 1 {
        } else {
            assert(k == 0);
        }
    }
}

/// Packing the bits of a byte sequence gives the sequence back.
pub proof fn lemma_bits_round_trip(bytes: Seq<u8>)
    ensures
        bytes_of_bits(bits_of_bytes(bytes)) == bytes,
{
    let bits = bits_of_bytes(bytes);
    assert forall|j: int| 0 <= j < bytes.len() implies byte_at(bits, 8 * j) == bytes[j] by {
        lemma_byte_is_sum_of_bits(bytes[j]);
    }
    assert(bytes_of_bits(bits) =~= bytes);
}

/// The bits of a packed byte are the eight bits it was packed from.
pub proof fn lemma_bit_of_byte_at(bits: Seq<bool>, start: int, k: int)
    requires
        0 <= k < 8,
    ensures
        bit_of(byte_at(bits, start), k) == padded_bit(bits, start + k),
{
    let x0: u8 = weighted(padded_bit(bits, start), 1) as u8;
    let x1: u8 = weighted(padded_bit(bits, start + 1), 1) as u8;
    let x2: u8 = weighted(padded_bit(bits, start + 2), 1) as u8;
    let x3: u8 = weighted(padded_bit(bits, start + 3), 1) as u8;
    let x4: u8 = weighted(padded_bit(bits, start + 4), 1) as u8;
    let x5: u8 = weighted(padded_bit(bits, start + 5), 1) as u8;
    let x6: u8 = weighted(padded_bit(bits, start + 6), 1) as u8;
    let x7: u8 = weighted(padded_bit(bits, start + 7), 1) as u8;
    let byte = byte_at(bits, start);
    assert(byte == 128 * x0 + 64 * x1 + 32 * x2 + 16 * x3 + 8 * x4 + 4 * x5 + 2 * x6 + x7);
    assert((byte >> 7u8) & 1u8 == x0 && (byte >> 6u8) & 1u8 == x1 && (byte >> 5u8) & 1u8 == x2 && (
    byte >> 4u8) & 1u8 == x3 && (byte >> 3u8) & 1u8 == x4 && (byte >> 2u8) & 1u8 == x5 && (byte
        >> 1u8) & 1u8 == x6 && (byte >> 0u8) & 1u8 == x7) by (bit_vector)
        requires
            x0 <= 1 && x1 <= 1 && x2 <= 1 && x3 <= 1 && x4 <= 1 && x5 <= 1 && x6 <= 1 && x7 <= 1,
            byte == 128 * x0 + 64 * x1 + 32 * x2 + 16 * x3 + 8 * x4 + 4 * x5 + 2 * x6 + x7,
    ;
    if k == 0 {
    } else if k == 1 {
    } else if k == 2 {
    } else if k == 3 {
    } else if k == 4 {
    } else if k == 5 {
    } else if k == 6 {
    } else {
        assert(k == 7);
    }
}

/// Unpacking the bytes of a bit stream gives the stream back, filled up with
/// unset bits to a whole number of bytes: packing loses only the length.
pub proof fn lemma_bytes_keep_bits(bits: Seq<bool>)
    ensures
        bits_of_bytes(bytes_of_bits(bits)).len() == 8 * ((bits.len() + 7) / 8),
        forall|i: int|
            0 <= i < bits_of_bytes(bytes_of_bits(bits)).len() ==> bits_of_bytes(
                bytes_of_bits(bits),
            )[i] == padded_bit(bits, i),
        bits.len() % 8 == 0 ==> bits_of_bytes(bytes_of_bits(bits)) == bits,
{
    let back = bits_of_bytes(bytes_of_bits(bits));
    assert forall|i: int| 0 <= i < back.len() implies back[i] == padded_bit(bits, i) by {
        lemma_bit_of_byte_at(bits, 8 * (i / 8), i % 8);
    }
    if bits.len() % 8 == 0 {
        assert(back =~= bits);
    }
}

/// The bits of `bytes`, eight per byte, most significant bit first.
pub fn bytes_to_bits(bytes: &[u8]) -> (bits: Vec<bool>)
    ensures
        bits@ == bits_of_bytes(bytes@),
{
    let mut bits: Vec<bool> = Vec::new();
    let mut j: usize = 0;
    while j < bytes.len()
        invariant
            j <= bytes.len(),
            bits@.len() == 8 * j,
            forall|i: int| 0 <= i < 8 * j ==> bits@[i] == bit_of(bytes@[i / 8], i % 8),
        decreases bytes.len() - j,
    {
        let byte = bytes[j];
        let mut k: u8 = 0;
        while k < 8
            invariant
                k <= 8,
                j < bytes.len(),
                byte == bytes@[j as int],
                bits@.len() == 8 * j + k,
                forall|i: int| 0 <= i < 8 * j + k ==> bits@[i] == bit_of(bytes@[i / 8], i % 8),
            decreases 8 - k,
        {
            bits.push((byte >> (7 - k)) & 1 == 1);
            k += 1;
        }
        j += 1;
    }
    assert(bits@ =~= bits_of_bytes(bytes@));
    bits
}

/// `weight` if the bit `offset` places after `start` is set, else nothing; a
/// place beyond the end of the stream counts as unset.
fn weight_at(bits: &[bool], start: usize, offset: usize, weight: u8) -> (value: u8)
    requires
        start <= bits@.len(),
    ensures
        value == weighted(padded_bit(bits@, start + offset), weight as int),
{
    if offset < bits.len() - start && bits[start + offset] {
        weight
    } else {
        0
    }
}

/// The bytes of `bits`, one per group of eight; a last group of fewer bits is
/// moved to the high positions of its byte and filled up with unset bits.
pub fn bits_to_bytes(bits: &[bool]) -> (bytes: Vec<u8>)
    ensures
        bytes@ == bytes_of_bits(bits@),
{
    let groups: usize = bits.len() / 8 + if bits.len() % 8 == 0 { 0 } else { 1 };
    let mut bytes: Vec<u8> = Vec::new();
    let mut j: usize = 0;
    while j < groups
        invariant
            j <= groups,
            groups == (bits@.len() + 7) / 8,
            bits@.len() <= usize::MAX,
            bytes@.len() == j,
            forall|g: int| 0 <= g < j ==> bytes@[g] == byte_at(bits@, 8 * g),
        decreases groups - j,
    {
        let start: usize = 8 * j;
        let byte: u8 = weight_at(bits, start, 0, 128) + weight_at(bits, start, 1, 64) + weight_at(
            bits,
            start,
            2,
            32,
        ) + weight_at(bits, start, 3, 16) + weight_at(bits, start, 4, 8) + weight_at(
            bits,
            start,
            5,
            4,
        ) + weight_at(bits, start, 6, 2) + weight_at(bits, start, 7, 1);
        bytes.push(byte);
        j += 1;
    }
    assert(bytes@ =~= bytes_of_bits(bits@));
    bytes
}

} // verus!
