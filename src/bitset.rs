//! Trusted declarations for `fixedbitset::FixedBitSet`, the packed bit
//! storage of the grid. Its contents are modelled as a `Seq<bool>` with one
//! entry per bit.

use fixedbitset::FixedBitSet;
use vstd::prelude::*;

verus! {

#[verifier::external_type_specification]
#[verifier::external_body]
pub struct ExFixedBitSet(FixedBitSet);

/// The bits that a `FixedBitSet` holds, one entry per bit of its length.
pub uninterp spec fn bits_of(s: FixedBitSet) -> Seq<bool>;

/// Whether bit `i` is enabled in a packed array of 32-bit blocks, bit `i`
/// being bit `i % 32` of block `i / 32`.
pub open spec fn word_bit(words: Seq<u32>, i: int) -> bool {
    (words[i / 32] >> ((i % 32) as u32)) & 1u32 == 1u32
}

/// Relies on `FixedBitSet::with_capacity`: `bits` bits, all disabled.
#[verifier::external_body]
pub fn new_cleared(bits: usize) -> (r: FixedBitSet)
    ensures
        bits_of(r) == Seq::new(bits as nat, |i: int| false),
{
    FixedBitSet::with_capacity(bits)
}

/// Relies on `FixedBitSet::contains`: whether the bit is enabled.
#[verifier::external_body]
pub fn bit(s: &FixedBitSet, i: usize) -> (r: bool)
    requires
        i < bits_of(*s).len(),
    ensures
        r == bits_of(*s)[i as int],
{
    s.contains(i)
}

/// Relies on `FixedBitSet::set`: enables or disables one bit in bounds,
/// leaving the others and the length as they were.
#[verifier::external_body]
pub fn set_bit(s: &mut FixedBitSet, i: usize, enabled: bool)
    requires
        i < bits_of(*old(s)).len(),
    ensures
        bits_of(*final(s)) == bits_of(*old(s)).update(i as int, enabled),
{
    s.set(i, enabled)
}

/// Relies on `FixedBitSet`'s `Clone`: a copy with the same length and bits.
#[verifier::external_body]
pub fn copy_bits(s: &FixedBitSet) -> (r: FixedBitSet)
    ensures
        bits_of(r) == bits_of(*s),
{
    s.clone()
}

/// Relies on `FixedBitSet::as_slice`: the 32-bit blocks that store the bits,
/// as many as the length needs, bit `i` in bit `i % 32` of block `i / 32`.
#[verifier::external_body]
pub fn blocks(s: &FixedBitSet) -> (r: &[u32])
    ensures
        r@.len() == (bits_of(*s).len() + 31) / 32,
        forall|i: int| 0 <= i < bits_of(*s).len() ==> word_bit(r@, i) == #[trigger] bits_of(*s)[i],
{
    s.as_slice()
}

} // verus!
