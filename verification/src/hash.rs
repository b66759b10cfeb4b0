use vstd::prelude::*;

verus! {

/// The hash capability the membership core consumes: a collision-resistant
/// leaf hash over byte strings and a two-to-one compression hash over pairs
/// of digests.
///
/// A provider value bundles the hash parameters produced by the hash
/// family's one-time setup; it must be the same value between tree
/// construction, path generation and verification. Implementations are
/// injected by the embedding program, once per curve family; everything the
/// library proves about trees and paths holds for any implementation whose
/// methods meet these contracts.
pub trait HashProvider {
    /// Length in bytes of every digest this provider produces. The default
    /// leaves it abstract: some fixed value of the implementation.
    open spec fn digest_len(&self) -> nat {
        arbitrary()
    }

    /// Largest input, in bytes, that the leaf hash accepts. Pedersen-style
    /// hashes have a fixed input-block width; feeding more would truncate.
    open spec fn leaf_capacity(&self) -> nat {
        arbitrary()
    }

    /// The leaf-hash function, as a mathematical map from input bytes to
    /// digest bytes. The default leaves it abstract: some fixed function
    /// of the provider value and the input, which is all the proofs rely
    /// on.
    open spec fn leaf_hash_spec(&self, input: Seq<u8>) -> Seq<u8> {
        arbitrary()
    }

    /// The two-to-one compression function, as a mathematical map from a
    /// pair of digests to one digest; abstract by default, like the leaf
    /// hash.
    open spec fn compress_spec(&self, left: Seq<u8>, right: Seq<u8>) -> Seq<u8> {
        arbitrary()
    }

    fn digest_len_bytes(&self) -> (n: usize)
        ensures
            n == self.digest_len(),
    ;

    fn leaf_capacity_bytes(&self) -> (n: usize)
        ensures
            n == self.leaf_capacity(),
    ;

    /// Hash an encoded record into a leaf digest.
    fn leaf_hash(&self, input: &[u8]) -> (r: Vec<u8>)
        requires
            input@.len() <= self.leaf_capacity(),
        ensures
            r@ == self.leaf_hash_spec(input@),
            r@.len() == self.digest_len(),
    ;

    /// Compress two child digests into their parent digest.
    fn compress(&self, left: &[u8], right: &[u8]) -> (r: Vec<u8>)
        requires
            left@.len() == self.digest_len(),
            right@.len() == self.digest_len(),
        ensures
            r@ == self.compress_spec(left@, right@),
            r@.len() == self.digest_len(),
    ;
}

} // verus!
