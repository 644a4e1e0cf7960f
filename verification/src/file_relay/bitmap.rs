//! One bit per chunk, kept in a bit vector of the `bitvec` crate.
//!
//! Nothing in this file is proved. [`bits`] names the bits of a bit vector, in order; every
//! function makes one call, and its contract is what the rest of the crate takes for granted about
//! that call.

use bitvec::order::Lsb0;
use bitvec::vec::BitVec;
use vstd::prelude::*;

verus! {

/// A vector of bits.
#[verifier::external_body]
pub struct Bitmap {
    vector: BitVec<u8, Lsb0>,
}

/// The bits of a bit vector, in order.
pub uninterp spec fn bits(bitmap: Bitmap) -> Seq<bool>;

/// A vector of `len` cleared bits: `BitVec::repeat`. It panics beyond an eighth of the address
/// space.
#[verifier::external_body]
pub(crate) fn cleared(len: usize) -> (bitmap: Bitmap)
    requires
        len <= usize::MAX / 8,
    ensures
        bits(bitmap) == Seq::new(len as nat, |i: int| false),
{
    Bitmap { vector: BitVec::repeat(false, len) }
}

/// The bit at `index`: indexing a `BitVec`, which panics beyond its end.
#[verifier::external_body]
pub(crate) fn bit(bitmap: &Bitmap, index: usize) -> (set: bool)
    requires
        index < bits(*bitmap).len(),
    ensures
        set == bits(*bitmap)[index as int],
{
    bitmap.vector[index]
}

/// Sets the bit at `index` and leaves the others as they are: `BitSlice::set`, which panics beyond
/// the end.
#[verifier::external_body]
pub(crate) fn set_bit(bitmap: &mut Bitmap, index: usize)
    requires
        index < bits(*old(bitmap)).len(),
    ensures
        bits(*final(bitmap)) == bits(*old(bitmap)).update(index as int, true),
{
    bitmap.vector.set(index, true)
}

/// Whether every bit is set: `BitSlice::all`. It is true of no bits at all.
#[verifier::external_body]
pub(crate) fn all_bits(bitmap: &Bitmap) -> (all: bool)
    ensures
        all == (forall|i: int| 0 <= i < bits(*bitmap).len() ==> bits(*bitmap)[i]),
{
    bitmap.vector.all()
}

} // verus!
