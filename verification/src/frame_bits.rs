//! The bits of a frame read from the sensor shift register, held in a
//! `bit_vec::BitVec`, and packed into bytes
//! with the first bit in the high-order position of the first byte.

use vstd::prelude::*;

verus! {

use bit_vec::BitVec;

#[verifier::external_type_specification]
#[verifier::external_body]
#[verifier::reject_recursive_types(B)]
pub struct ExBitVec<B>(BitVec<B>);

/// The bits a `BitVec` holds, in index order.
pub uninterp spec fn bitvec_bits(v: BitVec) -> Seq<bool>;

/// `BitVec::from_elem(len, bit)`: a vector of `len` bits, each equal to
/// `bit`.
#[verifier::external_body]
fn bitvec_from_elem(len: usize, bit: bool) -> (v: BitVec)
    ensures
        bitvec_bits(v) == Seq::new(len as nat, |_i: int| bit),
{
    BitVec::from_elem(len, bit)
}

/// `BitVec::set(i, x)`: bit `i` becomes `x`, every other bit stays; the
/// source panics when `i` is not below the length.
#[verifier::external_body]
fn bitvec_set(v: &mut BitVec, i: usize, x: bool)
    requires
        i < bitvec_bits(*old(v)).len(),
    ensures
        bitvec_bits(*final(v)) == bitvec_bits(*old(v)).update(i as int, x),
{
    v.set(i, x)
}

/// `BitVec::to_bytes()`: the bits packed eight to a byte, the first bit of
/// each group in the high-order position, the last byte padded with zero
/// bits.
#[verifier::external_body]
fn bitvec_to_bytes(v: &BitVec) -> (bytes: Vec<u8>)
    ensures
        bytes@ == pack_bytes(bitvec_bits(*v)),
{
    v.to_bytes()
}

/// The mask of bit `i` of `bits` within its byte: the first bit of a group
/// of eight is the high-order bit; a bit past the end, or one that is off,
/// contributes nothing.
pub open spec fn bit_mask(bits: Seq<bool>, i: int) -> u8 {
    if 0 <= i < bits.len() && bits[i] {
        (0x80u8 >> ((i % 8) as u8)) as u8
    } else {
        0u8
    }
}

/// Byte `k` of the packing of `bits`.
pub open spec fn pack_byte(bits: Seq<bool>, k: int) -> u8 {
    bit_mask(bits, 8 * k) | bit_mask(bits, 8 * k + 1) | bit_mask(bits, 8 * k + 2) | bit_mask(
        bits,
        8 * k + 3,
    ) | bit_mask(bits, 8 * k + 4) | bit_mask(bits, 8 * k + 5) | bit_mask(bits, 8 * k + 6)
        | bit_mask(bits, 8 * k + 7)
}

/// `bits` packed eight to a byte, first bit high, as many bytes as it takes
/// to hold every bit.
pub open spec fn pack_bytes(bits: Seq<bool>) -> Seq<u8> {
    Seq::new(((bits.len() + 7) / 8) as nat, |k: int| pack_byte(bits, k))
}

/// Bit `j` of byte `b`, counted from the high-order end.
pub open spec fn msb_bit(b: u8, j: int) -> bool {
    (b >> ((7 - j) as u8)) & 1u8 == 1u8
}

/// The bits of one frame.
pub struct FrameBits {
    bits: BitVec,
}

impl View for FrameBits {
    type V = Seq<bool>;

    /// The bits of the frame, in the order they were clocked in.
    closed spec fn view(&self) -> Seq<bool> {
        bitvec_bits(self.bits)
    }
}

impl FrameBits {
    /// A frame of `len` bits, all off.
    pub fn new(len: usize) -> (frame: FrameBits)
        ensures
            frame@ == Seq::new(len as nat, |_i: int| false),
    {
        FrameBits { bits: bitvec_from_elem(len, false) }
    }

    /// Sets bit `i` to `bit`.
    pub fn set(&mut self, i: usize, bit: bool)
        requires
            i < old(self)@.len(),
        ensures
            final(self)@ == old(self)@.update(i as int, bit),
    {
        bitvec_set(&mut self.bits, i, bit);
    }

    /// The frame packed into bytes, first bit high.
    pub fn to_bytes(&self) -> (bytes: Vec<u8>)
        ensures
            bytes@ == pack_bytes(self@),
    {
        bitvec_to_bytes(&self.bits)
    }
}

/// Packing is faithful: reading the bytes back first bit high gives every
/// bit of the frame at its place, and the padding bits of the last byte are
/// off.
pub proof fn lemma_pack_bytes_round_trip(bits: Seq<bool>)
    ensures
        pack_bytes(bits).len() == (bits.len() + 7) / 8,
        forall|i: int|
            0 <= i < bits.len() ==> #[trigger] msb_bit(pack_bytes(bits)[i / 8], i % 8) == bits[i],
        forall|i: int|
            bits.len() <= i < 8 * pack_bytes(bits).len() ==> !#[trigger] msb_bit(
                pack_bytes(bits)[i / 8],
                i % 8,
            ),
{
    assert forall|i: int| 0 <= i < 8 * pack_bytes(bits).len() implies #[trigger] msb_bit(
        pack_bytes(bits)[i / 8],
        i % 8,
    ) == (i < bits.len() && bits[i]) by {
        lemma_pack_bit(bits, i);
    }
}

proof fn lemma_pack_bit(bits: Seq<bool>, i: int)
    requires
        0 <= i < 8 * ((bits.len() + 7) / 8),
    ensures
        msb_bit(pack_bytes(bits)[i / 8], i % 8) == (i < bits.len() && bits[i]),
{
    let k = i / 8;
    let j = i % 8;
    assert(0 <= k < (bits.len() + 7) / 8);
    let b = pack_byte(bits, k);
    assert(pack_bytes(bits)[k] == b);
    assert(0x80u8 >> 0u8 == 0x80u8) by (bit_vector);
    assert(0x80u8 >> 1u8 == 0x40u8) by (bit_vector);
    assert(0x80u8 >> 2u8 == 0x20u8) by (bit_vector);
    assert(0x80u8 >> 3u8 == 0x10u8) by (bit_vector);
    assert(0x80u8 >> 4u8 == 0x08u8) by (bit_vector);
    assert(0x80u8 >> 5u8 == 0x04u8) by (bit_vector);
    assert(0x80u8 >> 6u8 == 0x02u8) by (bit_vector);
    assert(0x80u8 >> 7u8 == 0x01u8) by (bit_vector);
    let m0 = bit_mask(bits, 8 * k);
    let m1 = bit_mask(bits, 8 * k + 1);
    let m2 = bit_mask(bits, 8 * k + 2);
    let m3 = bit_mask(bits, 8 * k + 3);
    let m4 = bit_mask(bits, 8 * k + 4);
    let m5 = bit_mask(bits, 8 * k + 5);
    let m6 = bit_mask(bits, 8 * k + 6);
    let m7 = bit_mask(bits, 8 * k + 7);
    assert((8 * k) % 8 == 0 && (8 * k + 1) % 8 == 1 && (8 * k + 2) % 8 == 2 && (8 * k + 3) % 8 == 3
        && (8 * k + 4) % 8 == 4 && (8 * k + 5) % 8 == 5 && (8 * k + 6) % 8 == 6 && (8 * k + 7) % 8
        == 7);
    lemma_mask_bits(m0, m1, m2, m3, m4, m5, m6, m7);
    assert(b == m0 | m1 | m2 | m3 | m4 | m5 | m6 | m7);
    assert(i == 8 * k + j);
}

proof fn lemma_mask_bits(m0: u8, m1: u8, m2: u8, m3: u8, m4: u8, m5: u8, m6: u8, m7: u8)
    by (bit_vector)
    requires
        m0 == 0 || m0 == 0x80,
        m1 == 0 || m1 == 0x40,
        m2 == 0 || m2 == 0x20,
        m3 == 0 || m3 == 0x10,
        m4 == 0 || m4 == 0x08,
        m5 == 0 || m5 == 0x04,
        m6 == 0 || m6 == 0x02,
        m7 == 0 || m7 == 0x01,
    ensures
        (((m0 | m1 | m2 | m3 | m4 | m5 | m6 | m7) >> 7u8) & 1u8 == 1u8) == (m0 == 0x80),
        (((m0 | m1 | m2 | m3 | m4 | m5 | m6 | m7) >> 6u8) & 1u8 == 1u8) == (m1 == 0x40),
        (((m0 | m1 | m2 | m3 | m4 | m5 | m6 | m7) >> 5u8) & 1u8 == 1u8) == (m2 == 0x20),
        (((m0 | m1 | m2 | m3 | m4 | m5 | m6 | m7) >> 4u8) & 1u8 == 1u8) == (m3 == 0x10),
        (((m0 | m1 | m2 | m3 | m4 | m5 | m6 | m7) >> 3u8) & 1u8 == 1u8) == (m4 == 0x08),
        (((m0 | m1 | m2 | m3 | m4 | m5 | m6 | m7) >> 2u8) & 1u8 == 1u8) == (m5 == 0x04),
        (((m0 | m1 | m2 | m3 | m4 | m5 | m6 | m7) >> 1u8) & 1u8 == 1u8) == (m6 == 0x02),
        (((m0 | m1 | m2 | m3 | m4 | m5 | m6 | m7) >> 0u8) & 1u8 == 1u8) == (m7 == 0x01),
{
}

} // verus!
