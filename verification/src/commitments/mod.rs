pub mod pedersen761;

use vstd::prelude::*;

use crate::MembershipError;
use crate::circuit::spec_satisfied;
use crate::hash::HashProvider;
use crate::merkle::{MerklePath, verify_path};

verus! {

/// The membership circuit instance over an already-hashed leaf, generic in
/// the hash family: hash parameters as constants, root and leaf hash as
/// public inputs, the authentication path as the private witness.
pub struct GenericMerkleTreeCircuit<H: HashProvider> {
    /// Constants embedded into the circuit.
    pub hash_provider: H,
    /// Public input: the commitment to the member set.
    pub root: Vec<u8>,
    /// Public input: the leaf digest whose membership is attested.
    pub leaf_hash: Vec<u8>,
    /// Private witness; absent only for parameter-sizing passes.
    pub authentication_path: Option<MerklePath>,
}

impl<H: HashProvider> GenericMerkleTreeCircuit<H> {
    /// Take the path witness for synthesis; a missing witness is the
    /// distinct condition a sizing pass expects and a proving pass treats
    /// as fatal.
    pub fn witness_path(&self) -> (r: Result<&MerklePath, MembershipError>)
        ensures
            r is Ok <==> self.authentication_path is Some,
            r is Err ==> r == Err::<&MerklePath, MembershipError>(MembershipError::WitnessMissing),
            r is Ok ==> *r.unwrap() == self.authentication_path.unwrap(),
    {
        match &self.authentication_path {
            Some(p) => Ok(p),
            None => Err(MembershipError::WitnessMissing),
        }
    }

    /// The reference semantics of constraint synthesis: the
    /// missing-witness condition when no path was supplied, else whether
    /// the assignment satisfies the circuit — exactly when the witness
    /// path recomputes the public root from the public leaf digest.
    pub fn synthesize_check(&self) -> (r: Result<bool, MembershipError>)
        ensures
            r is Err <==> self.authentication_path is None,
            r is Err ==> r == Err::<bool, MembershipError>(MembershipError::WitnessMissing),
            r is Ok ==> r.unwrap() == spec_satisfied(
                &self.hash_provider,
                self.authentication_path.unwrap().sibs(),
                self.authentication_path.unwrap().dirs@,
                self.root@,
                self.leaf_hash@,
            ),
    {
        let path = match self.witness_path() {
            Ok(p) => p,
            Err(e) => {
                return Err(e);
            },
        };
        Ok(verify_path(&self.hash_provider, path, &self.root, &self.leaf_hash))
    }
}

} // verus!
