use vstd::prelude::*;

verus! {

/// The membership circuit instance of this curve family, carrying the
/// member record itself; the leaf digest is recomputed from its canonical
/// encoding during synthesis.
pub type MerkleTreeCircuit<H> = crate::circuit::MerkleTreeVerification<H>;

} // verus!
