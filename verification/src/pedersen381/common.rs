use vstd::prelude::*;

pub use crate::membership::new_membership_tree;
pub use crate::merkle::{MembershipTree, MerklePath};

verus! {

/// Window shape of the Pedersen compression hash of this curve family,
/// identical to the `ed_on_bls12_381` deployment's.
pub struct TwoToOneWindow;

impl TwoToOneWindow {
    pub const WINDOW_SIZE: usize = 4;

    pub const NUM_WINDOWS: usize = 128;

    /// Bytes each child digest may occupy: half the absorbed bits.
    pub fn side_capacity_bytes() -> (r: usize)
        ensures
            r == 32,
    {
        TwoToOneWindow::WINDOW_SIZE * TwoToOneWindow::NUM_WINDOWS / 16
    }
}

/// Window shape of the Pedersen leaf hash of this curve family.
pub struct LeafWindow;

impl LeafWindow {
    pub const WINDOW_SIZE: usize = 4;

    pub const NUM_WINDOWS: usize = 144;

    /// Bytes an encoded record may occupy: all absorbed bits.
    pub fn capacity_bytes() -> (r: usize)
        ensures
            r == 72,
    {
        LeafWindow::WINDOW_SIZE * LeafWindow::NUM_WINDOWS / 8
    }
}

/// The tree configuration of this curve family's deployment.
pub struct MerkleConfig;

/// Bytes of a digest in this family: a base-field element of the curve,
/// canonically serialized.
pub fn digest_len_bytes() -> (r: usize)
    ensures
        r == 32,
{
    32
}

} // verus!
