use vstd::prelude::*;

use crate::merkle::{is_pow2, lemma_next_pow2, next_pow2, spec_next_pow2};

verus! {

/// Calibration constant for the universal-setup sizing: how many non-zero
/// matrix entries are budgeted per constraint. The true figure depends on
/// the backend's arithmetization; measure it per backend and pass the
/// measured value where it differs.
pub const DEFAULT_NON_ZERO_FACTOR: usize = 5;

/// The three capacity bounds a universal setup is created with. Every
/// circuit later indexed against the setup must stay within all three.
pub struct UniversalSetupSizes {
    pub num_constraints: usize,
    pub num_variables: usize,
    pub num_non_zero: usize,
}

impl UniversalSetupSizes {
    pub open spec fn wf(&self, constraints: nat, variables: nat, non_zero_factor: nat) -> bool {
        &&& self.num_constraints == spec_next_pow2(constraints)
        &&& self.num_variables == spec_next_pow2(variables)
        &&& self.num_non_zero == spec_next_pow2(constraints * non_zero_factor)
        &&& is_pow2(self.num_constraints as nat)
        &&& is_pow2(self.num_variables as nat)
        &&& is_pow2(self.num_non_zero as nat)
        &&& self.num_constraints >= constraints
        &&& self.num_variables >= variables
        &&& self.num_non_zero >= constraints * non_zero_factor
    }
}

/// Size a universal setup from a representative circuit's measured
/// constraint and variable counts: the non-zero budget is the calibration
/// factor times the constraint count, and all three figures are rounded up
/// to the next power of two, which the backend's security argument
/// assumes.
pub fn universal_setup_sizes(constraints: usize, variables: usize, non_zero_factor: usize) -> (r:
    UniversalSetupSizes)
    requires
        constraints <= usize::MAX / 2,
        variables <= usize::MAX / 2,
        constraints * non_zero_factor <= usize::MAX / 2,
    ensures
        r.wf(constraints as nat, variables as nat, non_zero_factor as nat),
{
    proof {
        lemma_next_pow2(constraints as nat);
        lemma_next_pow2(variables as nat);
        lemma_next_pow2((constraints * non_zero_factor) as nat);
    }
    UniversalSetupSizes {
        num_constraints: next_pow2(constraints),
        num_variables: next_pow2(variables),
        num_non_zero: next_pow2(constraints * non_zero_factor),
    }
}

/// The public-input vector of a membership proof: exactly the root, then
/// the leaf hash. The verifier must be handed the two in this order and
/// nothing else; building the vector only through this type keeps the
/// order a matter of construction, not convention.
pub struct PublicInputs {
    pub root: Vec<u8>,
    pub leaf_hash: Vec<u8>,
}

impl PublicInputs {
    /// The ordered vector the backend's verifier consumes.
    pub fn to_vec(self) -> (r: Vec<Vec<u8>>)
        ensures
            r@.len() == 2,
            r@[0]@ == self.root@,
            r@[1]@ == self.leaf_hash@,
    {
        let mut v: Vec<Vec<u8>> = Vec::new();
        v.push(self.root);
        v.push(self.leaf_hash);
        v
    }
}

} // verus!
