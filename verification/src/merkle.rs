use vstd::prelude::*;

use crate::MembershipError;
use crate::hash::HashProvider;
use vstd::arithmetic::mul::lemma_mul_inequality;
use vstd::arithmetic::power2::{
    lemma2_to64, lemma_pow2_pos, lemma_pow2_strictly_increases, lemma_pow2_unfold, pow2,
};

verus! {

/// Whether a count is a power of two.
pub open spec fn is_pow2(n: nat) -> bool
    decreases n,
{
    if n == 0 {
        false
    } else if n == 1 {
        true
    } else {
        n % 2 == 0 && is_pow2(n / 2)
    }
}

/// The smallest power of two at or above `n` (one, for `n` zero or one).
pub open spec fn spec_next_pow2(n: nat) -> nat
    decreases n,
{
    if n <= 1 {
        1
    } else {
        2 * spec_next_pow2((n + 1) / 2)
    }
}

pub proof fn lemma_pow2_odd(n: nat)
    requires
        is_pow2(n),
        n % 2 == 1,
    ensures
        n == 1,
{
}

pub proof fn lemma_next_pow2(n: nat)
    ensures
        is_pow2(spec_next_pow2(n)),
        spec_next_pow2(n) >= n,
        n >= 1 ==> spec_next_pow2(n) <= 2 * n,
        is_pow2(n) ==> spec_next_pow2(n) == n,
    decreases n,
{
    if n > 1 {
        lemma_next_pow2((n + 1) / 2);
    }
}

/// How many leaves a member list of size `n` is padded to: a single member
/// gets one filler leaf; otherwise the count is rounded up to the next
/// power of two (no filler when already a power of two).
pub open spec fn spec_padded_count(n: nat) -> nat {
    if n == 1 {
        2
    } else {
        spec_next_pow2(n)
    }
}

/// The padded leaf count of a non-empty list is a power of two at or above
/// the original count, at most doubles it, and leaves a power-of-two count
/// of two or more unchanged.
pub proof fn lemma_padded_count(n: nat)
    requires
        n >= 1,
    ensures
        is_pow2(spec_padded_count(n)),
        spec_padded_count(n) >= n,
        spec_padded_count(n) <= 2 * n,
        is_pow2(n) && n >= 2 ==> spec_padded_count(n) == n,
{
    lemma_next_pow2(n);
}

/// The smallest power of two at or above `n`.
pub fn next_pow2(n: usize) -> (r: usize)
    requires
        n <= usize::MAX / 2,
    ensures
        r == spec_next_pow2(n as nat),
    decreases n,
{
    proof {
        lemma_next_pow2(n as nat);
    }
    if n <= 1 {
        1
    } else {
        proof {
            lemma_next_pow2(((n + 1) / 2) as nat);
        }
        2 * next_pow2((n + 1) / 2)
    }
}

/// The digests a list of digest vectors holds, as a sequence of byte
/// sequences.
pub open spec fn digests_view(v: Seq<Vec<u8>>) -> Seq<Seq<u8>> {
    Seq::new(v.len(), |i: int| v[i]@)
}

/// An authentication path: one sibling digest and one positional bit per
/// tree level, leaf level first. A `true` direction says the node on the
/// way up is the right child, so its sibling stands on the left.
pub struct MerklePath {
    pub siblings: Vec<Vec<u8>>,
    pub dirs: Vec<bool>,
}

impl MerklePath {
    pub open spec fn sibs(&self) -> Seq<Seq<u8>> {
        digests_view(self.siblings@)
    }
}

/// Recompute the digest a path climbs to, starting from a leaf digest:
/// at each level the current digest is compressed with the sibling, on the
/// side the direction bit names.
pub open spec fn spec_path_eval<H: HashProvider>(
    h: &H,
    sibs: Seq<Seq<u8>>,
    dirs: Seq<bool>,
    leaf: Seq<u8>,
) -> Seq<u8>
    decreases sibs.len(),
{
    if sibs.len() == 0 {
        leaf
    } else {
        let below = spec_path_eval(h, sibs.drop_last(), dirs.drop_last(), leaf);
        if dirs[sibs.len() - 1] {
            h.compress_spec(sibs.last(), below)
        } else {
            h.compress_spec(below, sibs.last())
        }
    }
}

/// A structurally sound path for a given leaf: as many direction bits as
/// siblings, and every digest of the provider's digest length.
pub open spec fn spec_path_wf<H: HashProvider>(
    h: &H,
    sibs: Seq<Seq<u8>>,
    dirs: Seq<bool>,
    leaf: Seq<u8>,
) -> bool {
    &&& dirs.len() == sibs.len()
    &&& leaf.len() == h.digest_len()
    &&& forall|i: int| 0 <= i < sibs.len() ==> (#[trigger] sibs[i]).len() == h.digest_len()
}

/// The tree configuration of the default deployment, binding the leaf and
/// compression roles to the `ed_on_bls12_381` Pedersen window shapes.
pub struct MerkleConfig;

/// The apex digest of a membership tree: the public commitment to the
/// padded member set.
pub type Root = Vec<u8>;

/// An authentication path in its transport role.
pub type SimplePath = MerklePath;

/// A complete binary hash tree over a padded leaf-digest sequence. Level
/// zero holds the leaves; each higher level holds the compression of
/// adjacent pairs; the top level holds the root alone.
pub struct MembershipTree {
    levels: Vec<Vec<Vec<u8>>>,
}

impl MembershipTree {
    /// The digests at level `k`, leaves first.
    pub closed spec fn spec_level(&self, k: int) -> Seq<Seq<u8>> {
        digests_view(self.levels@[k]@)
    }

    pub closed spec fn num_levels(&self) -> nat {
        self.levels@.len()
    }

    /// Levels above the leaves.
    pub open spec fn spec_depth(&self) -> nat {
        (self.num_levels() - 1) as nat
    }

    /// The padded leaf digests, original members first.
    pub open spec fn leaves(&self) -> Seq<Seq<u8>> {
        self.spec_level(0)
    }

    pub open spec fn spec_leaf_count(&self) -> nat {
        self.leaves().len()
    }

    /// The apex digest: the public commitment to the padded member set.
    pub open spec fn spec_root(&self) -> Seq<u8> {
        self.spec_level(self.spec_depth() as int)[0]
    }

    /// Structural soundness: at least one level, a single apex digest, and
    /// each level exactly half as wide as the one below.
    pub open spec fn wf_shape(&self) -> bool {
        &&& self.num_levels() >= 1
        &&& self.spec_level(self.spec_depth() as int).len() == 1
        &&& forall|k: int|
            0 <= k < self.spec_depth() ==> (#[trigger] self.spec_level(k)).len() == 2
                * self.spec_level(k + 1).len()
    }

    /// Hash soundness under a provider: every inner node is the compression
    /// of its two children, and every digest has the provider's length.
    pub open spec fn wf_hash<H: HashProvider>(&self, h: &H) -> bool {
        &&& forall|k: int, j: int|
            0 <= k < self.spec_depth() && 0 <= j < self.spec_level(k + 1).len() ==> (
            #[trigger] self.spec_level(k + 1)[j]) == h.compress_spec(
                self.spec_level(k)[2 * j],
                self.spec_level(k)[2 * j + 1],
            )
        &&& forall|k: int, j: int|
            0 <= k <= self.spec_depth() && 0 <= j < self.spec_level(k).len() ==> (
            #[trigger] self.spec_level(k)[j]).len() == h.digest_len()
    }

    /// The invariant every constructed tree has and every method keeps.
    pub open spec fn well_formed<H: HashProvider>(&self, h: &H) -> bool {
        self.wf_shape() && self.wf_hash(h)
    }

    /// The number of padded leaves.
    pub fn leaf_count(&self) -> (r: usize)
        requires
            self.wf_shape(),
        ensures
            r == self.spec_leaf_count(),
    {
        self.levels[0].len()
    }

    /// The number of levels above the leaves; the length of every
    /// authentication path.
    pub fn depth(&self) -> (r: usize)
        requires
            self.wf_shape(),
        ensures
            r == self.spec_depth(),
    {
        self.levels.len() - 1
    }

    /// The root digest.
    pub fn root(&self) -> (r: Vec<u8>)
        requires
            self.wf_shape(),
        ensures
            r@ == self.spec_root(),
    {
        let li = self.levels.len() - 1;
        self.levels[li][0].clone()
    }
}

/// The fixed halving reduction of an ordered digest sequence: a single
/// digest stands for itself; a longer sequence is split in the middle and
/// the reductions of the two halves are compressed. On a power-of-two
/// number of leaves this is the membership tree's root.
pub open spec fn spec_merkle_root<H: HashProvider>(h: &H, leaves: Seq<Seq<u8>>) -> Seq<u8>
    decreases leaves.len(),
{
    if leaves.len() <= 1 {
        leaves[0]
    } else {
        h.compress_spec(
            spec_merkle_root(h, leaves.take(leaves.len() as int / 2)),
            spec_merkle_root(h, leaves.skip(leaves.len() as int / 2)),
        )
    }
}

/// The index a leaf's ancestor has within level `k`.
pub open spec fn spec_idx_at(i: int, k: nat) -> int
    decreases k,
{
    if k == 0 {
        i
    } else {
        spec_idx_at(i, (k - 1) as nat) / 2
    }
}

impl MembershipTree {
    /// The sibling digest of leaf `i`'s ancestor at level `k`.
    pub open spec fn spec_sibling_at(&self, i: int, k: int) -> Seq<u8> {
        let idx = spec_idx_at(i, k as nat);
        if idx % 2 == 0 {
            self.spec_level(k)[idx + 1]
        } else {
            self.spec_level(k)[idx - 1]
        }
    }

    /// Whether leaf `i`'s ancestor at level `k` is a right child.
    pub open spec fn spec_dir_at(&self, i: int, k: int) -> bool {
        spec_idx_at(i, k as nat) % 2 == 1
    }

    /// The sibling sequence of leaf `i`'s authentication path.
    pub open spec fn spec_siblings(&self, i: int) -> Seq<Seq<u8>> {
        Seq::new(self.spec_depth(), |k: int| self.spec_sibling_at(i, k))
    }

    /// The direction sequence of leaf `i`'s authentication path.
    pub open spec fn spec_dirs(&self, i: int) -> Seq<bool> {
        Seq::new(self.spec_depth(), |k: int| self.spec_dir_at(i, k))
    }

    /// The authentication path for the leaf at `index`: the sibling digest
    /// and position bit at every level. An index at or beyond the padded
    /// leaf count is rejected, and is the only thing rejected.
    pub fn generate_proof(&self, index: usize) -> (r: Result<MerklePath, MembershipError>)
        requires
            self.wf_shape(),
        ensures
            r is Ok <==> index < self.spec_leaf_count(),
            r is Err ==> r == Err::<MerklePath, MembershipError>(MembershipError::IndexOutOfRange),
            r is Ok ==> r.unwrap().sibs() == self.spec_siblings(index as int) && r.unwrap().dirs@
                == self.spec_dirs(index as int),
    {
        if index >= self.leaf_count() {
            return Err(MembershipError::IndexOutOfRange);
        }
        let depth = self.levels.len() - 1;
        let mut siblings: Vec<Vec<u8>> = Vec::new();
        let mut dirs: Vec<bool> = Vec::new();
        let mut idx: usize = index;
        let mut k: usize = 0;
        while k < depth
            invariant
                self.wf_shape(),
                depth == self.spec_depth(),
                k <= depth,
                idx == spec_idx_at(index as int, k as nat),
                idx < self.spec_level(k as int).len(),
                siblings@.len() == k,
                dirs@.len() == k,
                forall|kk: int|
                    0 <= kk < k ==> (#[trigger] siblings@[kk])@ == self.spec_sibling_at(
                        index as int,
                        kk,
                    ),
                forall|kk: int|
                    0 <= kk < k ==> (#[trigger] dirs@[kk]) == self.spec_dir_at(index as int, kk),
            decreases depth - k,
        {
            assert(self.spec_level(k as int).len() == 2 * self.spec_level(k as int + 1).len());
            let sib = if idx % 2 == 0 {
                idx + 1
            } else {
                idx - 1
            };
            siblings.push(self.levels[k][sib].clone());
            dirs.push(idx % 2 == 1);
            idx = idx / 2;
            k += 1;
        }
        proof {
            assert(digests_view(siblings@) =~= self.spec_siblings(index as int));
            assert(dirs@ =~= self.spec_dirs(index as int));
        }
        Ok(MerklePath { siblings, dirs })
    }
}

/// A fresh copy of a digest list, digest for digest.
pub fn clone_digests(v: &Vec<Vec<u8>>) -> (r: Vec<Vec<u8>>)
    ensures
        r@.len() == v@.len(),
        forall|i: int| 0 <= i < v@.len() ==> (#[trigger] r@[i])@ == v@[i]@,
{
    let mut out: Vec<Vec<u8>> = Vec::new();
    let n = v.len();
    let mut i: usize = 0;
    while i < n
        invariant
            n == v@.len(),
            i <= n,
            out@.len() == i,
            forall|k: int| 0 <= k < i ==> (#[trigger] out@[k])@ == v@[k]@,
        decreases n - i,
    {
        out.push(v[i].clone());
        i += 1;
    }
    out
}

/// Byte-string equality.
fn bytes_eq(a: &Vec<u8>, b: &Vec<u8>) -> (r: bool)
    ensures
        r == (a@ == b@),
{
    if a.len() != b.len() {
        return false;
    }
    let n = a.len();
    let mut i: usize = 0;
    while i < n
        invariant
            n == a@.len() == b@.len(),
            i <= n,
            forall|k: int| 0 <= k < i ==> a@[k] == b@[k],
        decreases n - i,
    {
        if a[i] != b[i] {
            return false;
        }
        i += 1;
    }
    proof {
        assert(a@ =~= b@);
    }
    true
}

/// Recompute the root a path climbs to from a claimed leaf digest and
/// compare it with a claimed root. True exactly when the path is
/// structurally sound for the provider and recomputes to the root; a
/// malformed path verifies to false, never panics.
pub fn verify_path<H: HashProvider>(
    h: &H,
    path: &MerklePath,
    root: &Vec<u8>,
    leaf_hash: &Vec<u8>,
) -> (r: bool)
    ensures
        r == (spec_path_wf(h, path.sibs(), path.dirs@, leaf_hash@) && spec_path_eval(
            h,
            path.sibs(),
            path.dirs@,
            leaf_hash@,
        ) == root@),
{
    if path.siblings.len() != path.dirs.len() {
        return false;
    }
    let dl = h.digest_len_bytes();
    if leaf_hash.len() != dl {
        return false;
    }
    let n = path.siblings.len();
    let mut i: usize = 0;
    while i < n
        invariant
            n == path.siblings@.len(),
            i <= n,
            dl == h.digest_len(),
            forall|k: int| 0 <= k < i ==> (#[trigger] path.sibs()[k]).len() == dl,
        decreases n - i,
    {
        if path.siblings[i].len() != dl {
            proof {
                assert(path.sibs()[i as int] == path.siblings@[i as int]@);
            }
            return false;
        }
        i += 1;
    }
    let mut cur: Vec<u8> = leaf_hash.clone();
    let mut k: usize = 0;
    while k < n
        invariant
            n == path.siblings@.len() == path.dirs@.len(),
            k <= n,
            dl == h.digest_len(),
            leaf_hash@.len() == dl,
            forall|j: int| 0 <= j < n ==> (#[trigger] path.sibs()[j]).len() == dl,
            cur@.len() == dl,
            cur@ == spec_path_eval(h, path.sibs().take(k as int), path.dirs@.take(k as int), leaf_hash@),
        decreases n - k,
    {
        let s = &path.siblings[k];
        proof {
            assert(path.sibs()[k as int] == path.siblings@[k as int]@);
        }
        let next = if path.dirs[k] {
            h.compress(s.as_slice(), cur.as_slice())
        } else {
            h.compress(cur.as_slice(), s.as_slice())
        };
        proof {
            assert(path.sibs().take(k + 1).drop_last() =~= path.sibs().take(k as int));
            assert(path.dirs@.take(k + 1).drop_last() =~= path.dirs@.take(k as int));
            assert(path.sibs().take(k + 1).last() == path.sibs()[k as int]);
        }
        cur = next;
        k += 1;
    }
    proof {
        assert(path.sibs().take(n as int) =~= path.sibs());
        assert(path.dirs@.take(n as int) =~= path.dirs@);
    }
    bytes_eq(&cur, root)
}

/// Build the padded membership tree over an ordered leaf-digest sequence.
/// One leaf gets exactly one filler leaf appended; otherwise fillers bring
/// the count to the next power of two, none if it is one already. Real
/// leaves keep their order as a prefix. An empty sequence is rejected, as
/// is any digest (filler included) that does not have the provider's
/// digest length.
pub fn build_tree<H: HashProvider>(
    h: &H,
    leaf_hashes: Vec<Vec<u8>>,
    filler: &Vec<u8>,
) -> (r: Result<MembershipTree, MembershipError>)
    requires
        leaf_hashes@.len() <= usize::MAX / 2,
    ensures
        r is Ok <==> (leaf_hashes@.len() >= 1 && filler@.len() == h.digest_len() && forall|i: int|
            0 <= i < leaf_hashes@.len() ==> (#[trigger] leaf_hashes@[i])@.len() == h.digest_len()),
        r == Err::<MembershipTree, MembershipError>(MembershipError::EmptySet) <==> leaf_hashes@.len() == 0,
        r is Err ==> (r == Err::<MembershipTree, MembershipError>(MembershipError::EmptySet) || r
            == Err::<MembershipTree, MembershipError>(MembershipError::MalformedLeaf)),
        r is Ok ==> {
            let t = r.unwrap();
            &&& t.well_formed(h)
            &&& t.spec_leaf_count() == spec_padded_count(leaf_hashes@.len())
            &&& forall|i: int|
                0 <= i < leaf_hashes@.len() ==> t.leaves()[i] == (#[trigger] leaf_hashes@[i])@
            &&& forall|i: int|
                leaf_hashes@.len() <= i < t.spec_leaf_count() ==> (#[trigger] t.leaves()[i])
                    == filler@
        },
{
    let ghost orig = leaf_hashes@;
    let n = leaf_hashes.len();
    if n == 0 {
        return Err(MembershipError::EmptySet);
    }
    let dl = h.digest_len_bytes();
    if filler.len() != dl {
        return Err(MembershipError::MalformedLeaf);
    }
    let mut i: usize = 0;
    while i < n
        invariant
            n == orig.len(),
            leaf_hashes@ == orig,
            i <= n,
            dl == h.digest_len(),
            forall|k: int| 0 <= k < i ==> (#[trigger] orig[k])@.len() == dl,
        decreases n - i,
    {
        if leaf_hashes[i].len() != dl {
            return Err(MembershipError::MalformedLeaf);
        }
        i += 1;
    }
    let target = if n == 1 {
        2
    } else {
        next_pow2(n)
    };
    proof {
        lemma_padded_count(n as nat);
        assert(target == spec_padded_count(n as nat));
    }
    let mut leaves = leaf_hashes;
    while leaves.len() < target
        invariant
            n == orig.len(),
            n <= leaves@.len() <= target,
            target == spec_padded_count(n as nat),
            dl == h.digest_len(),
            filler@.len() == dl,
            forall|k: int| 0 <= k < n ==> (#[trigger] leaves@[k]) == orig[k],
            forall|k: int| n <= k < leaves@.len() ==> (#[trigger] leaves@[k])@ == filler@,
            forall|k: int| 0 <= k < leaves@.len() ==> (#[trigger] leaves@[k])@.len() == dl,
        decreases target - leaves@.len(),
    {
        leaves.push(filler.clone());
    }
    proof {
        lemma_padded_count(n as nat);
        assert(is_pow2(leaves@.len() as nat));
    }
    let ghost padded = digests_view(leaves@);
    let mut levels: Vec<Vec<Vec<u8>>> = Vec::new();
    levels.push(leaves);
    while levels[levels.len() - 1].len() > 1
        invariant
            levels@.len() >= 1,
            dl == h.digest_len(),
            digests_view(levels@[0]@) == padded,
            is_pow2(digests_view(levels@[levels@.len() - 1]@).len() as nat),
            forall|k: int|
                0 <= k < levels@.len() - 1 ==> (#[trigger] digests_view(levels@[k]@)).len() == 2
                    * digests_view(levels@[k + 1]@).len(),
            forall|k: int, j: int|
                0 <= k < levels@.len() - 1 && 0 <= j < digests_view(levels@[k + 1]@).len() ==> (
                #[trigger] digests_view(levels@[k + 1]@)[j]) == h.compress_spec(
                    digests_view(levels@[k]@)[2 * j],
                    digests_view(levels@[k]@)[2 * j + 1],
                ),
            forall|k: int, j: int|
                0 <= k < levels@.len() && 0 <= j < digests_view(levels@[k]@).len() ==> (
                #[trigger] digests_view(levels@[k]@)[j]).len() == dl,
        decreases levels@[levels@.len() - 1]@.len(),
    {
        let li = levels.len() - 1;
        let prev_len = levels[li].len();
        proof {
            assert(is_pow2(prev_len as nat));
            assert(prev_len % 2 == 0) by {
                if prev_len % 2 == 1 {
                    lemma_pow2_odd(prev_len as nat);
                }
            }
        }
        proof {
            assert forall|jj: int|
                0 <= jj < levels@[li as int]@.len() implies (#[trigger] levels@[li as int]@[jj])@.len()
                == dl by {
                assert(digests_view(levels@[li as int]@)[jj] == levels@[li as int]@[jj]@);
            }
        }
        let mut next: Vec<Vec<u8>> = Vec::new();
        let mut j: usize = 0;
        while j < prev_len / 2
            invariant
                li == levels@.len() - 1,
                li < levels@.len(),
                prev_len == levels@[li as int]@.len(),
                prev_len % 2 == 0,
                j <= prev_len / 2,
                dl == h.digest_len(),
                next@.len() == j,
                forall|jj: int|
                    0 <= jj < levels@[li as int]@.len() ==> (#[trigger] levels@[li as int]@[jj])@.len()
                        == dl,
                forall|jj: int|
                    0 <= jj < j ==> (#[trigger] next@[jj])@ == h.compress_spec(
                        levels@[li as int]@[2 * jj]@,
                        levels@[li as int]@[2 * jj + 1]@,
                    ),
                forall|jj: int| 0 <= jj < j ==> (#[trigger] next@[jj])@.len() == dl,
            decreases prev_len / 2 - j,
        {
            let left = &levels[li][2 * j];
            let right = &levels[li][2 * j + 1];
            let parent = h.compress(left.as_slice(), right.as_slice());
            next.push(parent);
            j += 1;
        }
        proof {
            assert(is_pow2((prev_len / 2) as nat));
        }
        levels.push(next);
    }
    let t = MembershipTree { levels };
    proof {
        assert(t.wf_shape());
        assert(t.wf_hash(h));
        assert(t.leaves() =~= padded);
        assert forall|i2: int| 0 <= i2 < orig.len() implies t.leaves()[i2] == orig[i2]@ by {
            assert(padded[i2] == orig[i2]@);
        }
    }
    Ok(t)
}

/// The authentication-path prefix up to level `k` recomputes leaf `i`'s
/// ancestor at level `k`.
proof fn lemma_eval_prefix<H: HashProvider>(h: &H, t: &MembershipTree, i: int, k: int)
    requires
        t.well_formed(h),
        0 <= i < t.spec_leaf_count(),
        0 <= k <= t.spec_depth(),
    ensures
        0 <= spec_idx_at(i, k as nat) < t.spec_level(k).len(),
        spec_path_eval(h, t.spec_siblings(i).take(k), t.spec_dirs(i).take(k), t.leaves()[i])
            == t.spec_level(k)[spec_idx_at(i, k as nat)],
    decreases k,
{
    let sibs = t.spec_siblings(i);
    let dirs = t.spec_dirs(i);
    if k == 0 {
        assert(sibs.take(0) =~= Seq::<Seq<u8>>::empty());
        assert(dirs.take(0) =~= Seq::<bool>::empty());
    } else {
        lemma_eval_prefix(h, t, i, k - 1);
        let m = spec_idx_at(i, (k - 1) as nat);
        assert(t.spec_level(k - 1).len() == 2 * t.spec_level(k).len());
        assert(sibs.take(k).drop_last() =~= sibs.take(k - 1));
        assert(dirs.take(k).drop_last() =~= dirs.take(k - 1));
        assert(sibs.take(k).last() == t.spec_sibling_at(i, k - 1));
        assert(dirs.take(k)[k - 1] == t.spec_dir_at(i, k - 1));
        assert(spec_idx_at(i, k as nat) == m / 2);
        if m % 2 == 0 {
            assert(m + 1 < t.spec_level(k - 1).len()) by {
                if m + 1 == t.spec_level(k - 1).len() {
                    assert(t.spec_level(k - 1).len() % 2 == 1);
                }
            }
            assert(2 * (m / 2) == m);
            assert(t.spec_level(k)[m / 2] == h.compress_spec(
                t.spec_level(k - 1)[m],
                t.spec_level(k - 1)[m + 1],
            ));
        } else {
            assert(2 * (m / 2) == m - 1);
            assert(t.spec_level(k)[m / 2] == h.compress_spec(
                t.spec_level(k - 1)[m - 1],
                t.spec_level(k - 1)[m],
            ));
        }
    }
}

/// Law (path correctness): in a well-formed tree, the authentication
/// path generated for any leaf index recomputes the tree's root from
/// that leaf's digest, and is structurally sound — so `verify_path`
/// accepts exactly this triple of path, root and leaf digest.
pub proof fn lemma_generated_path_verifies<H: HashProvider>(h: &H, t: &MembershipTree, i: int)
    requires
        t.well_formed(h),
        0 <= i < t.spec_leaf_count(),
    ensures
        spec_path_wf(h, t.spec_siblings(i), t.spec_dirs(i), t.leaves()[i]),
        spec_path_eval(h, t.spec_siblings(i), t.spec_dirs(i), t.leaves()[i]) == t.spec_root(),
{
    let d = t.spec_depth() as int;
    lemma_eval_prefix(h, t, i, d);
    assert(t.spec_siblings(i).take(d) =~= t.spec_siblings(i));
    assert(t.spec_dirs(i).take(d) =~= t.spec_dirs(i));
    assert(spec_idx_at(i, t.spec_depth()) == 0);
    assert forall|k: int| 0 <= k < d implies (#[trigger] t.spec_siblings(i)[k]).len()
        == h.digest_len() by {
        lemma_eval_prefix(h, t, i, k);
        let m = spec_idx_at(i, k as nat);
        assert(t.spec_level(k).len() == 2 * t.spec_level(k + 1).len());
        if m % 2 == 0 {
            assert(m + 1 < t.spec_level(k).len()) by {
                if m + 1 == t.spec_level(k).len() {
                    assert(t.spec_level(k).len() % 2 == 1);
                }
            }
        }
    }
}

/// Law (tamper soundness): a path generated against one tree's root
/// fails verification against another root whenever the two roots
/// differ. Trees over different member sets have differing roots
/// except under a hash collision, which a collision-resistant provider
/// rules out computationally but no proof over an arbitrary provider
/// can exclude.
pub proof fn lemma_tampered_root_rejected<H: HashProvider>(
    h: &H,
    t1: &MembershipTree,
    t2: &MembershipTree,
    i: int,
)
    requires
        t1.well_formed(h),
        t2.well_formed(h),
        0 <= i < t1.spec_leaf_count(),
        t1.spec_root() != t2.spec_root(),
    ensures
        spec_path_eval(h, t1.spec_siblings(i), t1.spec_dirs(i), t1.leaves()[i])
            != t2.spec_root(),
{
    lemma_generated_path_verifies(h, t1, i);
}

/// Each level is as wide as two to the number of levels above it.
proof fn lemma_level_len(t: &MembershipTree, k: int)
    requires
        t.wf_shape(),
        0 <= k <= t.spec_depth(),
    ensures
        t.spec_level(k).len() == pow2((t.spec_depth() - k) as nat),
    decreases t.spec_depth() - k,
{
    if k == t.spec_depth() {
        lemma2_to64();
    } else {
        lemma_level_len(t, k + 1);
        lemma_pow2_unfold((t.spec_depth() - k) as nat);
    }
}

/// Levels of two well-formed trees over equal leaves are pointwise
/// equal up to level `k`.
proof fn lemma_levels_determined<H: HashProvider>(
    h: &H,
    t1: &MembershipTree,
    t2: &MembershipTree,
    k: int,
)
    requires
        t1.well_formed(h),
        t2.well_formed(h),
        t1.leaves() == t2.leaves(),
        t1.spec_depth() == t2.spec_depth(),
        0 <= k <= t1.spec_depth(),
    ensures
        t1.spec_level(k) == t2.spec_level(k),
    decreases k,
{
    if k == 0 {
    } else {
        lemma_levels_determined(h, t1, t2, k - 1);
        assert(t1.spec_level(k - 1).len() == 2 * t1.spec_level(k).len());
        assert(t2.spec_level(k - 1).len() == 2 * t2.spec_level(k).len());
        assert forall|j: int| 0 <= j < t1.spec_level(k).len() implies t1.spec_level(k)[j]
            == t2.spec_level(k)[j] by {
            assert(t1.spec_level(k)[j] == h.compress_spec(
                t1.spec_level(k - 1)[2 * j],
                t1.spec_level(k - 1)[2 * j + 1],
            ));
            assert(t2.spec_level(k)[j] == h.compress_spec(
                t2.spec_level(k - 1)[2 * j],
                t2.spec_level(k - 1)[2 * j + 1],
            ));
        }
        assert(t1.spec_level(k) =~= t2.spec_level(k));
    }
}

/// Two to any exponent is a power of two.
proof fn lemma_pow2_is_pow2(e: nat)
    ensures
        is_pow2(pow2(e)),
    decreases e,
{
    lemma2_to64();
    if e > 0 {
        lemma_pow2_is_pow2((e - 1) as nat);
        lemma_pow2_unfold(e);
    }
}

/// Law (padded shape): a tree's leaf count is exactly two to its depth,
/// so it is always a power of two.
pub proof fn lemma_leaf_count_pow2(t: &MembershipTree)
    requires
        t.wf_shape(),
    ensures
        t.spec_leaf_count() == pow2(t.spec_depth()),
        is_pow2(t.spec_leaf_count()),
{
    lemma_level_len(t, 0);
    lemma_pow2_is_pow2(t.spec_depth());
}

/// Each node is the halving reduction of the leaf range below it.
#[verifier::rlimit(50)]
proof fn lemma_level_is_merkle_root<H: HashProvider>(h: &H, t: &MembershipTree, k: int, j: int)
    requires
        t.well_formed(h),
        0 <= k <= t.spec_depth(),
        0 <= j < t.spec_level(k).len(),
    ensures
        (j + 1) * pow2(k as nat) <= t.spec_leaf_count(),
        t.spec_level(k)[j] == spec_merkle_root(
            h,
            t.leaves().subrange(j * pow2(k as nat), (j + 1) * pow2(k as nat)),
        ),
    decreases k,
{
    let p = pow2(k as nat) as int;
    lemma_pow2_pos(k as nat);
    lemma_level_len(t, k);
    lemma_level_len(t, 0);
    assert(t.spec_leaf_count() == pow2(t.spec_depth()));
    assert((j + 1) * p <= t.spec_leaf_count()) by {
        lemma_mul_inequality(j + 1, pow2((t.spec_depth() - k) as nat) as int, p);
        vstd::arithmetic::power2::lemma_pow2_adds((t.spec_depth() - k) as nat, k as nat);
    }
    assert(0 <= j * p) by {
        vstd::arithmetic::mul::lemma_mul_nonnegative(j, p);
    }
    assert(j * p < (j + 1) * p) by {
        vstd::arithmetic::mul::lemma_mul_strict_inequality(j, j + 1, p);
    }
    assert((j + 1) * p == j * p + p) by (nonlinear_arith);
    let range = t.leaves().subrange(j * p, (j + 1) * p);
    assert(range.len() == p);
    if k == 0 {
        lemma2_to64();
        assert(range =~= seq![t.leaves()[j]]);
    } else {
        lemma_pow2_unfold(k as nat);
        let half = pow2((k - 1) as nat) as int;
        assert(p == 2 * half);
        assert(half >= 1) by {
            lemma_pow2_pos((k - 1) as nat);
        }
        lemma_level_is_merkle_root(h, t, k - 1, 2 * j);
        lemma_level_is_merkle_root(h, t, k - 1, 2 * j + 1);
        assert(t.spec_level(k)[j] == h.compress_spec(
            t.spec_level(k - 1)[2 * j],
            t.spec_level(k - 1)[2 * j + 1],
        ));
        assert(j * p == (2 * j) * half && j * p + half == (2 * j + 1) * half && (j + 1) * p == (
        2 * j + 2) * half) by (nonlinear_arith)
            requires
                p == 2 * half,
        ;
        assert(range.take(range.len() as int / 2) =~= t.leaves().subrange(
            (2 * j) * half,
            (2 * j + 1) * half,
        ));
        assert(range.skip(range.len() as int / 2) =~= t.leaves().subrange(
            (2 * j + 1) * half,
            (2 * j + 2) * half,
        ));
        assert(range.len() > 1);
    }
}

/// Law (reduction): the root of a well-formed tree is the fixed
/// deterministic halving reduction of its ordered leaf digests — pair
/// adjacent digests level by level under the compression hash until one
/// value remains.
pub proof fn lemma_root_is_merkle_root<H: HashProvider>(h: &H, t: &MembershipTree)
    requires
        t.well_formed(h),
    ensures
        t.spec_root() == spec_merkle_root(h, t.leaves()),
{
    let d = t.spec_depth() as int;
    lemma_level_is_merkle_root(h, t, d, 0);
    lemma_level_len(t, 0);
    assert(t.leaves().subrange(0, pow2(t.spec_depth()) as int) =~= t.leaves());
}

/// Law (determinism): a tree's internal structure, its depth and its
/// root are fully determined by the ordered leaf-digest sequence — two
/// well-formed trees over equal leaves agree on all of them.
pub proof fn lemma_root_determined<H: HashProvider>(
    h: &H,
    t1: &MembershipTree,
    t2: &MembershipTree,
)
    requires
        t1.well_formed(h),
        t2.well_formed(h),
        t1.leaves() == t2.leaves(),
    ensures
        t1.spec_depth() == t2.spec_depth(),
        t1.spec_root() == t2.spec_root(),
{
    lemma_level_len(t1, 0);
    lemma_level_len(t2, 0);
    if t1.spec_depth() < t2.spec_depth() {
        lemma_pow2_strictly_increases(t1.spec_depth(), t2.spec_depth());
    } else if t2.spec_depth() < t1.spec_depth() {
        lemma_pow2_strictly_increases(t2.spec_depth(), t1.spec_depth());
    }
    lemma_levels_determined(h, t1, t2, t1.spec_depth() as int);
}

} // verus!
