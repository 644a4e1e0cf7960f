//! The digest of a file, taken piece by piece with the `blake3` crate.
//!
//! [`taken_in`], [`unkeyed`] and [`blake3_digest`] name what a hasher has taken in, whether it
//! computes the plain hash, and what that hash is. The three functions in front of
//! [`ContentHasher`] make one call each into `blake3`, and their contracts are taken for granted.

use vstd::prelude::*;

verus! {

/// A BLAKE3 computation in progress.
#[verifier::external_type_specification]
#[verifier::external_body]
pub struct ExHasher(blake3::Hasher);

/// The bytes that a hasher has taken in, in order.
pub uninterp spec fn taken_in(hasher: blake3::Hasher) -> Seq<u8>;

/// Whether a hasher computes the plain hash of a whole input: neither a keyed hash, nor a key
/// derivation, nor a subtree.
pub uninterp spec fn unkeyed(hasher: blake3::Hasher) -> bool;

/// The BLAKE3 hash of `content`.
pub uninterp spec fn blake3_digest(content: Seq<u8>) -> Seq<u8>;

/// A hasher that has taken in nothing: `blake3::Hasher::new`.
#[verifier::external_body]
fn fresh() -> (hasher: blake3::Hasher)
    ensures
        unkeyed(hasher),
        taken_in(hasher) == Seq::<u8>::empty(),
{
    blake3::Hasher::new()
}

/// Takes in more bytes behind those before: `blake3::Hasher::update`.
#[verifier::external_body]
fn update(hasher: &mut blake3::Hasher, piece: &[u8])
    requires
        unkeyed(*old(hasher)),
    ensures
        unkeyed(*final(hasher)),
        taken_in(*final(hasher)) == taken_in(*old(hasher)) + piece@,
{
    hasher.update(piece);
}

/// The hash of what was taken in: `blake3::Hasher::finalize`. It depends on those bytes alone, not
/// on how they were cut into pieces.
#[verifier::external_body]
fn finalize(hasher: &blake3::Hasher) -> (hash: [u8; 32])
    requires
        unkeyed(*hasher),
    ensures
        hash@ == blake3_digest(taken_in(*hasher)),
{
    *hasher.finalize().as_bytes()
}

/// Computes the digest of a file whose content comes in pieces.
pub struct ContentHasher {
    hasher: blake3::Hasher,
}

impl ContentHasher {
    /// What the pieces so far add up to.
    pub closed spec fn content(self) -> Seq<u8> {
        taken_in(self.hasher)
    }

    /// Whether the hasher computes the plain BLAKE3 hash.
    pub closed spec fn wf(self) -> bool {
        unkeyed(self.hasher)
    }

    /// Starts with no content.
    pub fn new() -> (hasher: Self)
        ensures
            hasher.wf(),
            hasher.content() == Seq::<u8>::empty(),
    {
        ContentHasher { hasher: fresh() }
    }

    /// Takes in the next piece.
    pub fn absorb(&mut self, piece: &[u8])
        requires
            old(self).wf(),
        ensures
            final(self).wf(),
            final(self).content() == old(self).content() + piece@,
    {
        update(&mut self.hasher, piece);
    }

    /// The digest of the content.
    pub fn digest(&self) -> (digest: [u8; 32])
        requires
            self.wf(),
        ensures
            digest@ == blake3_digest(self.content()),
    {
        finalize(&self.hasher)
    }
}

} // verus!
