//! Sprite rows as bits, unpacked by the `bit_vec` crate.
use bit_vec::BitVec;
use vstd::prelude::*;
use crate::display::unpack_msb_first;

verus! {

/// `bit_vec::BitVec`, a growable sequence of bits. Nothing is known of a
/// value but what the functions below say of it.
#[verifier::external_type_specification]
#[verifier::external_body]
#[verifier::reject_recursive_types(B)]
pub struct ExBitVec<B>(BitVec<B>);

/// The bits that a `BitVec` holds, in index order.
pub uninterp spec fn bits_of(v: BitVec) -> Seq<bool>;

/// `BitVec::from_bytes`: each byte becomes eight bits, the most significant
/// bit of each byte first, a bit being `true` where it is 1. The call panics
/// where eight times the length overflows `usize`, which `requires` rules out.
#[verifier::external_body]
pub(crate) fn bits_from_bytes(bytes: &[u8]) -> (v: BitVec)
    requires
        8 * bytes@.len() <= usize::MAX,
    ensures
        bits_of(v) == unpack_msb_first(bytes@),
{
    BitVec::from_bytes(bytes)
}

/// Indexing a `BitVec`: the bit at position `i`. The index panics where `i`
/// is not below the length, which `requires` rules out.
#[verifier::external_body]
pub(crate) fn bit_at(v: &BitVec, i: usize) -> (bit: bool)
    requires
        i < bits_of(*v).len(),
    ensures
        bit == bits_of(*v)[i as int],
{
    v[i]
}

} // verus!
