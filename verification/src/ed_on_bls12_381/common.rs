use vstd::prelude::*;

verus! {

/// Window shape of the Pedersen compression hash over the Edwards curve
/// whose base field is the BLS12-381 scalar field: the hash absorbs
/// `WINDOW_SIZE * NUM_WINDOWS` bits, half per child digest.
pub struct TwoToOneWindow;

impl TwoToOneWindow {
    pub const WINDOW_SIZE: usize = 4;

    pub const NUM_WINDOWS: usize = 128;

    /// Bytes each child digest may occupy: half the absorbed bits.
    pub fn side_capacity_bytes() -> (r: usize)
        ensures
            r == 32,
    {
        TwoToOneWindow::WINDOW_SIZE * TwoToOneWindow::NUM_WINDOWS / 16
    }
}

/// Window shape of the Pedersen leaf hash of the same curve family.
pub struct LeafWindow;

impl LeafWindow {
    pub const WINDOW_SIZE: usize = 4;

    pub const NUM_WINDOWS: usize = 144;

    /// Bytes an encoded record may occupy: all absorbed bits.
    pub fn capacity_bytes() -> (r: usize)
        ensures
            r == 72,
    {
        LeafWindow::WINDOW_SIZE * LeafWindow::NUM_WINDOWS / 8
    }
}

/// Bytes of a digest in this family: a base-field element of the curve,
/// canonically serialized.
pub fn digest_len_bytes() -> (r: usize)
    ensures
        r == 32,
{
    32
}

} // verus!
