//! The voter bitmap of a quorum certificate: one bit for each node of the authority list, in the
//! list's order, packed into bytes with the first bit in the high-order place of the first byte.

use vstd::prelude::*;
use bit_vec::BitVec;

verus! {

/// The bit vector of the `bit-vec` crate.
#[verifier::external_type_specification]
#[verifier::external_body]
#[verifier::reject_recursive_types(B)]
pub struct ExBitVec<B>(BitVec<B>);

/// The bits that a bit vector holds, in their order.
pub uninterp spec fn bits_of(v: BitVec<u32>) -> Seq<bool>;

/// `BitVec::from_elem`: a bit vector of `len` bits that are all `bit`.
#[verifier::external_body]
fn bit_vec_from_elem(len: usize, bit: bool) -> (r: BitVec<u32>)
    ensures
        bits_of(r) == Seq::new(len as nat, |i: int| bit),
{
    BitVec::from_elem(len, bit)
}

/// `BitVec::set`: sets the bit at index `i` to `x` and leaves the others. The index must be within
/// the vector: the outside function panics where it is not.
#[verifier::external_body]
fn bit_vec_set(v: &mut BitVec<u32>, i: usize, x: bool)
    requires
        i < bits_of(*old(v)).len(),
    ensures
        bits_of(*final(v)) == bits_of(*old(v)).update(i as int, x),
{
    v.set(i, x)
}

/// `BitVec::to_bytes`: the bits in groups of eight, the first bit of a group in the high-order
/// place of its byte, the last group filled up with zero bits.
#[verifier::external_body]
fn bit_vec_to_bytes(v: &BitVec<u32>) -> (r: Vec<u8>)
    ensures
        r@ == pack_bits(bits_of(*v)),
{
    v.to_bytes()
}

/// The bit at an index as a number; beyond the end it is zero.
pub open spec fn bit_or_zero(bits: Seq<bool>, i: int) -> u8 {
    if 0 <= i < bits.len() && bits[i] {
        1
    } else {
        0
    }
}

/// Eight bits as a byte, the first in the high-order place.
pub open spec fn byte_of_bits(b0: u8, b1: u8, b2: u8, b3: u8, b4: u8, b5: u8, b6: u8, b7: u8)
    -> u8 {
    (b0 << 7u8) | (b1 << 6u8) | (b2 << 5u8) | (b3 << 4u8) | (b4 << 3u8) | (b5 << 2u8) | (b6 << 1u8) | b7
}

/// The byte of the `k`-th group of eight bits.
pub open spec fn pack_byte(bits: Seq<bool>, k: int) -> u8 {
    byte_of_bits(
        bit_or_zero(bits, 8 * k),
        bit_or_zero(bits, 8 * k + 1),
        bit_or_zero(bits, 8 * k + 2),
        bit_or_zero(bits, 8 * k + 3),
        bit_or_zero(bits, 8 * k + 4),
        bit_or_zero(bits, 8 * k + 5),
        bit_or_zero(bits, 8 * k + 6),
        bit_or_zero(bits, 8 * k + 7),
    )
}

/// The bits packed into bytes.
pub open spec fn pack_bits(bits: Seq<bool>) -> Seq<u8> {
    Seq::new(((bits.len() + 7) / 8) as nat, |k: int| pack_byte(bits, k))
}

/// The bit of a bitmap at an index; beyond the end of the bitmap no bit is set.
pub open spec fn bit_at(bitmap: Seq<u8>, i: int) -> bool {
    0 <= i && i / 8 < bitmap.len() && (bitmap[i / 8] >> ((7 - i % 8) as u8)) & 1u8 == 1u8
}

proof fn lemma_byte_bits(b0: u8, b1: u8, b2: u8, b3: u8, b4: u8, b5: u8, b6: u8, b7: u8)
    requires
        b0 <= 1,
        b1 <= 1,
        b2 <= 1,
        b3 <= 1,
        b4 <= 1,
        b5 <= 1,
        b6 <= 1,
        b7 <= 1,
    ensures
        (byte_of_bits(b0, b1, b2, b3, b4, b5, b6, b7) >> 7u8) & 1u8 == b0,
        (byte_of_bits(b0, b1, b2, b3, b4, b5, b6, b7) >> 6u8) & 1u8 == b1,
        (byte_of_bits(b0, b1, b2, b3, b4, b5, b6, b7) >> 5u8) & 1u8 == b2,
        (byte_of_bits(b0, b1, b2, b3, b4, b5, b6, b7) >> 4u8) & 1u8 == b3,
        (byte_of_bits(b0, b1, b2, b3, b4, b5, b6, b7) >> 3u8) & 1u8 == b4,
        (byte_of_bits(b0, b1, b2, b3, b4, b5, b6, b7) >> 2u8) & 1u8 == b5,
        (byte_of_bits(b0, b1, b2, b3, b4, b5, b6, b7) >> 1u8) & 1u8 == b6,
        (byte_of_bits(b0, b1, b2, b3, b4, b5, b6, b7) >> 0u8) & 1u8 == b7,
{
    let x = byte_of_bits(b0, b1, b2, b3, b4, b5, b6, b7);
    assert((x >> 7u8) & 1u8 == b0 && (x >> 6u8) & 1u8 == b1 && (x >> 5u8) & 1u8 == b2 && (x >> 4u8)
        & 1u8 == b3 && (x >> 3u8) & 1u8 == b4 && (x >> 2u8) & 1u8 == b5 && (x >> 1u8) & 1u8 == b6
        && (x >> 0u8) & 1u8 == b7) by (bit_vector)
        requires
            x == (b0 << 7u8) | (b1 << 6u8) | (b2 << 5u8) | (b3 << 4u8) | (b4 << 3u8) | (b5 << 2u8) | (b6
                << 1u8) | b7,
            b0 <= 1,
            b1 <= 1,
            b2 <= 1,
            b3 <= 1,
            b4 <= 1,
            b5 <= 1,
            b6 <= 1,
            b7 <= 1,
    ;
}

/// Packing keeps every bit: the bitmap's bit at an index is the bit that was packed, and beyond
/// the packed bits no bit is set.
pub proof fn lemma_pack_bit_at(bits: Seq<bool>, i: int)
    requires
        0 <= i,
    ensures
        bit_at(pack_bits(bits), i) == (i < bits.len() && bits[i]),
{
    let k = i / 8;
    if k < pack_bits(bits).len() {
        lemma_byte_bits(
            bit_or_zero(bits, 8 * k),
            bit_or_zero(bits, 8 * k + 1),
            bit_or_zero(bits, 8 * k + 2),
            bit_or_zero(bits, 8 * k + 3),
            bit_or_zero(bits, 8 * k + 4),
            bit_or_zero(bits, 8 * k + 5),
            bit_or_zero(bits, 8 * k + 6),
            bit_or_zero(bits, 8 * k + 7),
        );
        assert(pack_bits(bits)[k] == pack_byte(bits, k));
        assert(i == 8 * k + i % 8);
    }
}

/// Packs a list of bits into a bitmap.
pub fn bitmap_of(bits: &Vec<bool>) -> (r: Vec<u8>)
    ensures
        r@ == pack_bits(bits@),
{
    let mut v = bit_vec_from_elem(bits.len(), false);
    let mut i: usize = 0;
    while i < bits.len()
        invariant
            i <= bits.len(),
            bits_of(v) == Seq::new(bits@.len(), |k: int| k < i && bits@[k]),
        decreases bits.len() - i,
    {
        if bits[i] {
            bit_vec_set(&mut v, i, true);
        }
        assert(bits_of(v) =~= Seq::new(bits@.len(), |k: int| k < i + 1 && bits@[k]));
        i += 1;
    }
    assert(bits_of(v) =~= bits@);
    bit_vec_to_bytes(&v)
}

/// Whether the bit at the index is set in the bitmap. Beyond the end of the bitmap no bit is set.
pub fn bit_is_set(bitmap: &Vec<u8>, i: usize) -> (r: bool)
    ensures
        r == bit_at(bitmap@, i as int),
{
    if i / 8 >= bitmap.len() {
        return false;
    }
    let shift: u8 = (7 - i % 8) as u8;
    (bitmap[i / 8] >> shift) & 1u8 == 1u8
}

} // verus!
