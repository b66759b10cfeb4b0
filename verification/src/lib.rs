pub mod circuit;
pub mod codec;
pub mod commitments;
pub mod ed_on_bls12_381;
pub mod hash;
pub mod member;
pub mod membership;
pub mod merkle;
pub mod pedersen381;
pub mod snark;

use vstd::prelude::*;

verus! {

/// What can go wrong while committing to a member set or proving
/// membership. A path or proof that merely fails to attest membership is
/// never an error: verification reports that as a `false` return value.
#[derive(Clone, Copy, Debug, PartialEq, Eq, Structural)]
pub enum MembershipError {
    /// A tree was requested over zero members.
    EmptySet,
    /// An encoded record exceeds the leaf hash's input capacity.
    OverCapacity,
    /// A leaf digest does not have the hash provider's digest length.
    MalformedLeaf,
    /// A path was requested for an index at or beyond the padded leaf count.
    IndexOutOfRange,
    /// Constraint synthesis needed the authentication path witness, but the
    /// circuit instance was built without one.
    WitnessMissing,
}

/// The elliptic-curve family a membership deployment runs on. Each curve
/// fixes a hash family (a Pedersen hash over a twisted Edwards curve) and a
/// scalar field for the proof backend.
#[derive(Copy, Clone, Debug, PartialEq, Eq, Structural)]
pub enum CurveType {
    BLS12_381,
    BW6_761,
}

impl Default for CurveType {
    fn default() -> (r: Self)
        ensures
            r == CurveType::BLS12_381,
    {
        CurveType::BLS12_381
    }
}

/// The active-curve selection. It is an explicit value threaded through the
/// callers that need it, rather than process-wide mutable state, so that
/// independent trees over different curves can coexist.
pub struct CurveSelector {
    current: CurveType,
}

impl CurveSelector {
    pub closed spec fn curve(&self) -> CurveType {
        self.current
    }

    pub fn new() -> (r: Self)
        ensures
            r.curve() == CurveType::BLS12_381,
    {
        CurveSelector { current: CurveType::BLS12_381 }
    }
}

pub fn set_global_curve(selector: &mut CurveSelector, curve_type: CurveType)
    ensures
        final(selector).curve() == curve_type,
{
    selector.current = curve_type;
}

pub fn get_global_curve(selector: &CurveSelector) -> (r: CurveType)
    ensures
        r == selector.curve(),
{
    selector.current
}

} // verus!
