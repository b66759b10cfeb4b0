use vstd::prelude::*;

use crate::MembershipError;
use crate::hash::HashProvider;
use crate::member::{Member, spec_member_encoding};
use crate::membership::{lemma_sentinel_encoding_len, spec_sentinel_encoding_len};
use crate::merkle::{MembershipTree, build_tree, is_pow2, spec_padded_count};

verus! {

/// Window shape of the Pedersen compression hash over the Edwards curve
/// whose base field is the BW6-761 scalar field.
pub struct TwoToOneWindow;

impl TwoToOneWindow {
    pub const WINDOW_SIZE: usize = 4;

    pub const NUM_WINDOWS: usize = 192;

    /// Bytes each child digest may occupy: half the absorbed bits.
    pub fn side_capacity_bytes() -> (r: usize)
        ensures
            r == 48,
    {
        TwoToOneWindow::WINDOW_SIZE * TwoToOneWindow::NUM_WINDOWS / 16
    }
}

/// Window shape of the Pedersen leaf hash of the same curve family; wide
/// enough for ninety-six bytes of encoded record.
pub struct LeafWindow;

impl LeafWindow {
    pub const WINDOW_SIZE: usize = 4;

    pub const NUM_WINDOWS: usize = 192;

    /// Bytes an encoded record may occupy: all absorbed bits.
    pub fn capacity_bytes() -> (r: usize)
        ensures
            r == 96,
    {
        LeafWindow::WINDOW_SIZE * LeafWindow::NUM_WINDOWS / 8
    }
}

/// The tree configuration of this curve family's deployment.
pub struct MerkleConfig;

/// Bytes of a digest in this family: a base-field element of the curve,
/// canonically serialized.
pub fn digest_len_bytes() -> (r: usize)
    ensures
        r == 48,
{
    48
}

/// Pad a leaf-digest list in place to the padded leaf count, appending the
/// digest of a sentinel filler record: one filler for a single leaf, else
/// up to the next power of two. An empty list is rejected, as is a
/// sentinel encoding beyond the leaf hash's capacity.
pub fn clean_membership_list<H: HashProvider>(h: &H, leaves: &mut Vec<Vec<u8>>) -> (r: Result<
    (),
    MembershipError,
>)
    requires
        old(leaves)@.len() <= usize::MAX / 4,
    ensures
        r is Ok <==> (old(leaves)@.len() >= 1 && spec_sentinel_encoding_len()
            <= h.leaf_capacity()),
        r is Err ==> final(leaves)@ == old(leaves)@,
        r == Err::<(), MembershipError>(MembershipError::EmptySet) <==> old(leaves)@.len() == 0,
        r is Err ==> (r == Err::<(), MembershipError>(MembershipError::EmptySet) || r == Err::<
            (),
            MembershipError,
        >(MembershipError::OverCapacity)),
        r is Ok ==> {
            &&& final(leaves)@.len() == spec_padded_count(old(leaves)@.len())
            &&& forall|i: int|
                0 <= i < old(leaves)@.len() ==> (#[trigger] final(leaves)@[i]) == old(leaves)@[i]
            &&& forall|i: int|
                old(leaves)@.len() <= i < final(leaves)@.len()
                    ==> (#[trigger] final(leaves)@[i])@.len() == h.digest_len()
            &&& forall|i: int|
                old(leaves)@.len() <= i < final(leaves)@.len()
                    ==> (#[trigger] final(leaves)@[i])@ == h.leaf_hash_spec(
                    spec_member_encoding(Member::spec_sentinel()),
                )
        },
{
    let n = leaves.len();
    if n == 0 {
        return Err(MembershipError::EmptySet);
    }
    let pad = Member::default();
    proof {
        lemma_sentinel_encoding_len(pad@);
    }
    let filler = match pad.hash(h) {
        Ok(f) => f,
        Err(e) => {
            return Err(e);
        },
    };
    let num_needed: usize = if n == 1 {
        1
    } else {
        proof {
            crate::merkle::lemma_padded_count(n as nat);
        }
        crate::merkle::next_pow2(n) - n
    };
    let mut k: usize = 0;
    while k < num_needed
        invariant
            n == old(leaves)@.len(),
            leaves@.len() == n + k,
            k <= num_needed,
            filler@ == h.leaf_hash_spec(spec_member_encoding(pad@)),
            filler@.len() == h.digest_len(),
            pad@ == Member::spec_sentinel(),
            forall|i: int| 0 <= i < n ==> (#[trigger] leaves@[i]) == old(leaves)@[i],
            forall|i: int| n <= i < leaves@.len() ==> (#[trigger] leaves@[i])@ == filler@,
        decreases num_needed - k,
    {
        leaves.push(filler.clone());
        k += 1;
    }
    Ok(())
}

/// Hash-agnostic tree construction over already-hashed leaves: pad the
/// digest list in place with the sentinel record's digest, then build the
/// membership tree over it.
pub fn new_membership_tree<H: HashProvider>(h: &H, leaves: &mut Vec<Vec<u8>>) -> (r: Result<
    MembershipTree,
    MembershipError,
>)
    requires
        old(leaves)@.len() <= usize::MAX / 4,
    ensures
        r is Ok <==> (old(leaves)@.len() >= 1 && spec_sentinel_encoding_len() <= h.leaf_capacity()
            && forall|i: int|
            0 <= i < old(leaves)@.len() ==> (#[trigger] old(leaves)@[i])@.len() == h.digest_len()),
        r == Err::<MembershipTree, MembershipError>(MembershipError::EmptySet)
            <==> old(leaves)@.len() == 0,
        r == Err::<MembershipTree, MembershipError>(MembershipError::OverCapacity)
            <==> (old(leaves)@.len() >= 1 && spec_sentinel_encoding_len() > h.leaf_capacity()),
        r is Err ==> (r == Err::<MembershipTree, MembershipError>(MembershipError::EmptySet) || r
            == Err::<MembershipTree, MembershipError>(MembershipError::OverCapacity) || r == Err::<
            MembershipTree,
            MembershipError,
        >(MembershipError::MalformedLeaf)),
        (old(leaves)@.len() == 0 || spec_sentinel_encoding_len() > h.leaf_capacity())
            ==> final(leaves)@ == old(leaves)@,
        (old(leaves)@.len() >= 1 && spec_sentinel_encoding_len() <= h.leaf_capacity()) ==> {
            &&& final(leaves)@.len() == spec_padded_count(old(leaves)@.len())
            &&& forall|i: int|
                0 <= i < old(leaves)@.len() ==> (#[trigger] final(leaves)@[i]) == old(leaves)@[i]
            &&& forall|i: int|
                old(leaves)@.len() <= i < final(leaves)@.len()
                    ==> (#[trigger] final(leaves)@[i])@ == h.leaf_hash_spec(
                    spec_member_encoding(Member::spec_sentinel()),
                )
        },
        r is Ok ==> {
            let t = r.unwrap();
            &&& t.well_formed(h)
            &&& t.spec_leaf_count() == spec_padded_count(old(leaves)@.len())
            &&& forall|i: int|
                0 <= i < old(leaves)@.len() ==> (#[trigger] t.leaves()[i]) == old(leaves)@[i]@
            &&& t.leaves() == crate::merkle::digests_view(final(leaves)@)
        },
{
    match clean_membership_list(h, leaves) {
        Ok(u) => u,
        Err(e) => {
            return Err(e);
        },
    }
    proof {
        crate::merkle::lemma_padded_count(old(leaves)@.len() as nat);
    }
    let snapshot = crate::merkle::clone_digests(leaves);
    let ghost padded_view = snapshot@;
    let filler_slot = snapshot[snapshot.len() - 1].clone();
    let r = build_tree(h, snapshot, &filler_slot);
    proof {
        let n = old(leaves)@.len() as int;
        let m = padded_view.len() as int;
        assert(m == spec_padded_count(old(leaves)@.len() as nat));
        assert(is_pow2(m as nat) && m >= 2);
        crate::merkle::lemma_padded_count(m as nat);
        assert(spec_padded_count(m as nat) == m);
        assert(crate::merkle::digests_view(padded_view) =~= crate::merkle::digests_view(leaves@));
        assert forall|i: int| 0 <= i < n implies (#[trigger] padded_view[i])@ == old(
            leaves,
        )@[i]@ by {
            assert(padded_view[i]@ == leaves@[i]@);
            assert(leaves@[i] == old(leaves)@[i]);
        }
        if forall|i: int| 0 <= i < n ==> (#[trigger] old(leaves)@[i])@.len() == h.digest_len() {
            assert forall|i: int| 0 <= i < m implies (#[trigger] padded_view[i])@.len()
                == h.digest_len() by {
                assert(padded_view[i]@ == leaves@[i]@);
                if i < n {
                    assert(leaves@[i] == old(leaves)@[i]);
                } else {
                    assert(leaves@[i]@.len() == h.digest_len());
                }
            }
            assert(filler_slot@ == padded_view[m - 1]@);
        }
        if r is Ok {
            assert forall|i: int| 0 <= i < n implies (#[trigger] old(leaves)@[i])@.len()
                == h.digest_len() by {
                assert(padded_view[i]@.len() == h.digest_len());
            }
            let t = r.unwrap();
            assert(t.spec_leaf_count() == m);
            assert forall|i: int| 0 <= i < m implies (#[trigger] t.leaves()[i])
                == padded_view[i]@ by {
                assert(t.leaves()[i] == (padded_view[i])@);
            }
            assert(t.leaves() =~= crate::merkle::digests_view(padded_view));
            assert forall|i: int| 0 <= i < old(leaves)@.len() implies (#[trigger] t.leaves()[i])
                == old(leaves)@[i]@ by {
                assert(t.leaves()[i] == padded_view[i]@);
                assert(padded_view[i]@ == leaves@[i]@);
            }
        }
    }
    r
}

} // verus!
