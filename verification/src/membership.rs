use vstd::prelude::*;

use crate::MembershipError;
use crate::hash::HashProvider;
use crate::member::{Member, MemberView, spec_member_encoding};
use crate::merkle::{MembershipTree, build_tree, is_pow2, next_pow2, spec_padded_count};

verus! {

/// The tree configuration of the default deployment: the Pedersen hash
/// family over the Edwards curve whose base field is the BLS12-381 scalar
/// field, with the window shapes in `ed_on_bls12_381`.
pub struct MerkleConfig;

/// The apex digest of a membership tree.
pub type Root = Vec<u8>;

/// An authentication path in its transport role.
pub type SimplePath = crate::merkle::MerklePath;

/// The byte length of a sentinel filler record's canonical encoding: two
/// empty strings, eight timestamp bytes and two absent-field flags.
pub open spec fn spec_sentinel_encoding_len() -> nat {
    10
}

/// The encoding of any sentinel-shaped record is ten bytes long.
pub proof fn lemma_sentinel_encoding_len(m: MemberView)
    requires
        Member::is_sentinel(m),
    ensures
        spec_member_encoding(m).len() == spec_sentinel_encoding_len(),
{
    assert(vstd::utf8::encode_utf8(m.id).len() == 0);
    assert(vstd::utf8::encode_utf8(m.email).len() == 0);
}

/// The views of an ordered member list.
pub open spec fn members_views(s: Seq<Member>) -> Seq<MemberView> {
    Seq::new(s.len(), |i: int| s[i]@)
}

/// The exact padded leaf-digest sequence a member list commits to: each
/// member's leaf hash in its original position, then copies of the fixed
/// sentinel record's digest up to the padded count. No clock and no
/// randomness enter, so the same list commits to the same sequence — and
/// so to the same root — on every build.
pub open spec fn spec_committed_leaves<H: HashProvider>(h: &H, members: Seq<MemberView>) -> Seq<
    Seq<u8>,
> {
    Seq::new(
        spec_padded_count(members.len()),
        |i: int|
            if i < members.len() {
                h.leaf_hash_spec(spec_member_encoding(members[i]))
            } else {
                h.leaf_hash_spec(spec_member_encoding(Member::spec_sentinel()))
            },
    )
}

/// Clone a member list and append sentinel filler records to bring the
/// count to the padded leaf count: one filler for a single member, else up
/// to the next power of two. Real members keep their order as a prefix; an
/// empty list is rejected.
pub fn clean_members_list(members: &Vec<Member>) -> (r: Result<Vec<Member>, MembershipError>)
    requires
        members@.len() <= usize::MAX / 2,
    ensures
        r is Ok <==> members@.len() >= 1,
        r is Err ==> r == Err::<Vec<Member>, MembershipError>(MembershipError::EmptySet),
        r is Ok ==> {
            let v = r.unwrap();
            &&& v@.len() == spec_padded_count(members@.len())
            &&& forall|i: int| 0 <= i < members@.len() ==> (#[trigger] v@[i])@ == members@[i]@
            &&& forall|i: int|
                members@.len() <= i < v@.len() ==> (#[trigger] v@[i])@ == Member::spec_sentinel()
        },
{
    let n = members.len();
    if n == 0 {
        return Err(MembershipError::EmptySet);
    }
    let num_empty: usize = if n == 1 {
        1
    } else {
        proof {
            crate::merkle::lemma_padded_count(n as nat);
        }
        next_pow2(n) - n
    };
    let mut cleaned: Vec<Member> = Vec::new();
    let mut i: usize = 0;
    while i < n
        invariant
            n == members@.len(),
            i <= n,
            cleaned@.len() == i,
            forall|k: int| 0 <= k < i ==> (#[trigger] cleaned@[k])@ == members@[k]@,
        decreases n - i,
    {
        cleaned.push(members[i].clone());
        i += 1;
    }
    let pad = Member::default();
    let mut k: usize = 0;
    while k < num_empty
        invariant
            n == members@.len(),
            cleaned@.len() == n + k,
            k <= num_empty,
            pad@ == Member::spec_sentinel(),
            forall|j: int| 0 <= j < n ==> (#[trigger] cleaned@[j])@ == members@[j]@,
            forall|j: int| n <= j < cleaned@.len() ==> (#[trigger] cleaned@[j])@ == pad@,
        decreases num_empty - k,
    {
        cleaned.push(pad.clone());
        k += 1;
    }
    Ok(cleaned)
}

/// Hash an ordered member list into leaf digests and build the padded
/// membership tree, filling with the digest of a sentinel record. Rejected
/// are exactly the empty list and any record (the sentinel included) whose
/// encoding exceeds the leaf hash's capacity.
pub fn new_membership_tree<H: HashProvider>(h: &H, members: &Vec<Member>) -> (r: Result<
    MembershipTree,
    MembershipError,
>)
    requires
        members@.len() <= usize::MAX / 2,
    ensures
        r is Ok <==> (members@.len() >= 1 && spec_sentinel_encoding_len() <= h.leaf_capacity()
            && forall|i: int|
            0 <= i < members@.len() ==> spec_member_encoding(
                (#[trigger] members@[i])@,
            ).len() <= h.leaf_capacity()),
        r == Err::<MembershipTree, MembershipError>(MembershipError::EmptySet) <==> members@.len() == 0,
        r is Err ==> (r == Err::<MembershipTree, MembershipError>(MembershipError::EmptySet) || r
            == Err::<MembershipTree, MembershipError>(MembershipError::OverCapacity)),
        r is Ok ==> {
            let t = r.unwrap();
            &&& t.well_formed(h)
            &&& t.spec_leaf_count() == spec_padded_count(members@.len())
            &&& t.leaves() == spec_committed_leaves(h, members_views(members@))
        },
{
    let n = members.len();
    if n == 0 {
        return Err(MembershipError::EmptySet);
    }
    let mut leaves: Vec<Vec<u8>> = Vec::new();
    let mut i: usize = 0;
    while i < n
        invariant
            n == members@.len(),
            i <= n,
            leaves@.len() == i,
            forall|k: int|
                0 <= k < i ==> (#[trigger] leaves@[k])@ == h.leaf_hash_spec(
                    spec_member_encoding(members@[k]@),
                ),
            forall|k: int| 0 <= k < i ==> (#[trigger] leaves@[k])@.len() == h.digest_len(),
            forall|k: int|
                0 <= k < i ==> spec_member_encoding((#[trigger] members@[k])@).len()
                    <= h.leaf_capacity(),
        decreases n - i,
    {
        match members[i].hash(h) {
            Ok(d) => {
                leaves.push(d);
            },
            Err(e) => {
                return Err(e);
            },
        }
        i += 1;
    }
    let pad = Member::default();
    proof {
        lemma_sentinel_encoding_len(pad@);
    }
    let filler = match pad.hash(h) {
        Ok(f) => f,
        Err(e) => {
            return Err(e);
        },
    };
    let ghost leaves_view = leaves@;
    let r = build_tree(h, leaves, &filler);
    proof {
        crate::merkle::lemma_padded_count(n as nat);
        if r is Ok {
            let t = r.unwrap();
            let committed = spec_committed_leaves(h, members_views(members@));
            assert forall|i2: int| 0 <= i2 < t.spec_leaf_count() implies (#[trigger] t.leaves()[i2])
                == committed[i2] by {
                if i2 < members@.len() {
                    assert(t.leaves()[i2] == leaves_view[i2]@);
                } else {
                    assert(t.leaves()[i2] == filler@);
                }
            }
            assert(t.leaves() =~= committed);
        }
    }
    r
}

/// Law (membership completeness): in a well-formed tree whose leaf at `i`
/// commits to a member's canonical encoding — as every tree built over a
/// member list does for each original member — the authentication path
/// generated for `i` is structurally sound and recomputes the tree's root
/// from that member's leaf hash, so path verification accepts it.
pub proof fn lemma_member_proof_verifies<H: HashProvider>(
    h: &H,
    t: &MembershipTree,
    m: MemberView,
    i: int,
)
    requires
        t.well_formed(h),
        0 <= i < t.spec_leaf_count(),
        t.leaves()[i] == h.leaf_hash_spec(spec_member_encoding(m)),
    ensures
        crate::merkle::spec_path_wf(
            h,
            t.spec_siblings(i),
            t.spec_dirs(i),
            h.leaf_hash_spec(spec_member_encoding(m)),
        ),
        crate::merkle::spec_path_eval(
            h,
            t.spec_siblings(i),
            t.spec_dirs(i),
            h.leaf_hash_spec(spec_member_encoding(m)),
        ) == t.spec_root(),
{
    crate::merkle::lemma_generated_path_verifies(h, t, i);
}

/// Law (padding shape): a non-empty member list commits to exactly the
/// padded leaf count — two for a single member, else the next power of
/// two, always a power of two — with the members' leaf hashes as a prefix
/// in their original order and only the fixed sentinel's digest after them.
pub proof fn lemma_committed_leaves_shape<H: HashProvider>(h: &H, members: Seq<MemberView>)
    requires
        members.len() >= 1,
    ensures
        spec_committed_leaves(h, members).len() == spec_padded_count(members.len()),
        is_pow2(spec_committed_leaves(h, members).len()),
        forall|i: int|
            0 <= i < members.len() ==> #[trigger] spec_committed_leaves(h, members)[i]
                == h.leaf_hash_spec(spec_member_encoding(members[i])),
        forall|i: int|
            members.len() <= i < spec_committed_leaves(h, members).len()
                ==> #[trigger] spec_committed_leaves(h, members)[i] == h.leaf_hash_spec(
                spec_member_encoding(Member::spec_sentinel()),
            ),
{
    crate::merkle::lemma_padded_count(members.len());
}

/// Law (rebuild determinism): two well-formed trees committing to the same
/// member list — as any two successful builds over it do, since the
/// sentinel is fixed — agree on the root and the depth.
pub proof fn lemma_rebuild_same_root<H: HashProvider>(
    h: &H,
    t1: &MembershipTree,
    t2: &MembershipTree,
    members: Seq<MemberView>,
)
    requires
        t1.well_formed(h),
        t2.well_formed(h),
        t1.leaves() == spec_committed_leaves(h, members),
        t2.leaves() == spec_committed_leaves(h, members),
    ensures
        t1.spec_root() == t2.spec_root(),
        t1.spec_depth() == t2.spec_depth(),
{
    crate::merkle::lemma_root_determined(h, t1, t2);
}

} // verus!
