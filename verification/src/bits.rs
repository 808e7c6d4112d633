//! The bit store: a fixed-length, densely packed array of boolean flags,
//! held in a `bitvec` bit-vector behind a small trusted boundary. Its
//! abstract contents are the sequence of booleans `bits_of` returns.

use vstd::prelude::*;
use bitvec::vec::BitVec;

verus! {

/// A packed array of boolean flags, backed by a `bitvec` bit-vector.
#[verifier::external_body]
pub struct BitArray {
    bits: BitVec,
}

/// The boolean flags a bit array holds, in index order.
pub uninterp spec fn bits_of(v: BitArray) -> Seq<bool>;

/// Relies on bitvec's `BitVec::repeat`: a bit-vector of `len` copies of the
/// given bit. It panics when `len` exceeds the greatest encodable bit count
/// (one eighth of the address space), which the precondition rules out.
#[verifier::external_body]
pub(crate) fn bit_vec_repeat(bit: bool, len: usize) -> (r: BitArray)
    requires
        len <= usize::MAX / 8,
    ensures
        bits_of(r).len() == len,
        forall|i: int| 0 <= i < len ==> bits_of(r)[i] == bit,
{
    BitArray { bits: BitVec::repeat(bit, len) }
}

/// Relies on bitvec's `BitSlice::set`: writes one bit by index. It panics
/// when the index is out of range, which the precondition rules out.
#[verifier::external_body]
pub(crate) fn bit_vec_set(v: &mut BitArray, index: usize, value: bool)
    requires
        index < bits_of(*old(v)).len(),
    ensures
        bits_of(*final(v)) == bits_of(*old(v)).update(index as int, value),
{
    v.bits.set(index, value);
}

/// Relies on bitvec's `Index<usize>` for `BitSlice`: reads one bit by index.
/// It panics when the index is out of range, which the precondition rules out.
#[verifier::external_body]
pub(crate) fn bit_vec_get(v: &BitArray, index: usize) -> (r: bool)
    requires
        index < bits_of(*v).len(),
    ensures
        r == bits_of(*v)[index as int],
{
    v.bits[index]
}

/// Relies on bitvec's `BitSlice::fill`: writes the given bit to every
/// position, leaving the length unchanged.
#[verifier::external_body]
pub(crate) fn bit_vec_fill(v: &mut BitArray, value: bool)
    ensures
        bits_of(*final(v)).len() == bits_of(*old(v)).len(),
        forall|i: int| 0 <= i < bits_of(*final(v)).len() ==> bits_of(*final(v))[i] == value,
{
    v.bits.fill(value);
}

/// Relies on bitvec's `BitSlice::len`: the number of bits the vector holds.
#[verifier::external_body]
pub(crate) fn bit_vec_len(v: &BitArray) -> (r: usize)
    ensures
        r == bits_of(*v).len(),
{
    v.bits.len()
}

} // verus!
