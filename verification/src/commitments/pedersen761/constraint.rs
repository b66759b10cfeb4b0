use vstd::prelude::*;

verus! {

/// The membership circuit instance of this curve family, over an
/// already-hashed leaf.
pub type MerkleTreeCircuit<H> = crate::commitments::GenericMerkleTreeCircuit<H>;

} // verus!
