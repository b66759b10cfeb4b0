use vstd::prelude::*;

use crate::MembershipError;
use crate::hash::HashProvider;
use crate::member::{Member, spec_member_encoding};
use crate::merkle::{MerklePath, spec_path_eval, spec_path_wf, verify_path};

verus! {

/// The membership circuit instance over a member record: the hash
/// parameters stand as circuit constants, the root and the record's leaf
/// hash as public inputs, and the authentication path as the private
/// witness. Synthesis asserts that the path recomputes the public root
/// from the public leaf hash.
pub struct MerkleTreeVerification<H: HashProvider> {
    /// Constants embedded into the circuit.
    pub hash_provider: H,
    /// Public input: the commitment to the member set.
    pub root: Vec<u8>,
    /// Public input: the member whose leaf hash is attested.
    pub leaf: Member,
    /// Private witness; absent only for parameter-sizing passes.
    pub authentication_path: Option<MerklePath>,
}

/// Whether a circuit instance's assignment satisfies the membership
/// relation: the witness path is structurally sound and recomputes the
/// public root from the leaf digest.
pub open spec fn spec_satisfied<H: HashProvider>(
    h: &H,
    sibs: Seq<Seq<u8>>,
    dirs: Seq<bool>,
    root: Seq<u8>,
    leaf_digest: Seq<u8>,
) -> bool {
    spec_path_wf(h, sibs, dirs, leaf_digest) && spec_path_eval(h, sibs, dirs, leaf_digest) == root
}

impl<H: HashProvider> MerkleTreeVerification<H> {
    /// Take the path witness for synthesis. Building the circuit without a
    /// path is how its size is measured, so the missing witness is
    /// reported as a distinct, expected condition — and is fatal when a
    /// real proof is wanted.
    pub fn witness_path(&self) -> (r: Result<&MerklePath, MembershipError>)
        ensures
            r is Ok <==> self.authentication_path is Some,
            r is Err ==> r == Err::<&MerklePath, MembershipError>(MembershipError::WitnessMissing),
            r is Ok ==> *r.unwrap() == self.authentication_path.unwrap(),
    {
        match &self.authentication_path {
            Some(p) => Ok(p),
            None => Err(MembershipError::WitnessMissing),
        }
    }

    /// The reference semantics of constraint synthesis: fail with the
    /// missing-witness condition when no path was supplied; otherwise say
    /// whether the assignment satisfies the circuit, which holds exactly
    /// when the witness path recomputes the public root from the member's
    /// leaf digest. A record encoding beyond the leaf hash's capacity is a
    /// fatal encoding error.
    pub fn synthesize_check(&self) -> (r: Result<bool, MembershipError>)
        ensures
            r is Ok <==> (self.authentication_path is Some && spec_member_encoding(
                self.leaf@,
            ).len() <= self.hash_provider.leaf_capacity()),
            r == Err::<bool, MembershipError>(MembershipError::WitnessMissing)
                <==> self.authentication_path is None,
            self.authentication_path is Some ==> (r == Err::<bool, MembershipError>(
                MembershipError::OverCapacity,
            ) <==> spec_member_encoding(self.leaf@).len() > self.hash_provider.leaf_capacity()),
            r is Ok ==> r.unwrap() == spec_satisfied(
                &self.hash_provider,
                self.authentication_path.unwrap().sibs(),
                self.authentication_path.unwrap().dirs@,
                self.root@,
                self.hash_provider.leaf_hash_spec(spec_member_encoding(self.leaf@)),
            ),
    {
        let path = match self.witness_path() {
            Ok(p) => p,
            Err(e) => {
                return Err(e);
            },
        };
        let leaf_digest = match self.leaf.hash(&self.hash_provider) {
            Ok(d) => d,
            Err(e) => {
                return Err(e);
            },
        };
        Ok(verify_path(&self.hash_provider, path, &self.root, &leaf_digest))
    }
}

} // verus!
