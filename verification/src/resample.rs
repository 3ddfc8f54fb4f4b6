//! Resampling support: random permutations for the permutation test,
//! bootstrap index draws, the split of permutation trials across workers,
//! and the per-locus tally of bootstrap winners.
//!
//! Randomness comes from the process-wide generator of the `rand` crate,
//! reached through one trusted wrapper; everything proved here holds for
//! every value that wrapper can return.

use vstd::prelude::*;

verus! {

/// Default number of bootstrap replicates.
pub const BOOTSTRAP_TESTSIZE: usize = 1000;

/// Hard upper bound on resampling trials.
pub const MAXPERMUTATION: usize = 1000000;

/// Relies on rand::random_range over `lo..hi`: a draw from the thread-local
/// generator that lies in the half-open range; the range must be non-empty
/// or the call panics.
#[verifier::external_body]
fn random_index_in(lo: usize, hi: usize) -> (r: usize)
    requires
        lo < hi,
    ensures
        lo <= r < hi,
{
    rand::random_range(lo..hi)
}

/// `v` is a permutation of `0 .. n`: every entry is in range and no entry
/// repeats.
pub open spec fn is_permutation(v: Seq<usize>, n: int) -> bool {
    &&& v.len() == n
    &&& forall|i: int| 0 <= i < n ==> (#[trigger] v[i]) < n
    &&& forall|i: int, j: int| 0 <= i < j < n ==> v[i] != v[j]
}

/// A uniformly random permutation of the indices `0 .. n`, drawn by a
/// Fisher-Yates shuffle with one fresh draw per position. A caller applies
/// it to its own vectors; each worker of the permutation test owns its
/// draws, so no generator state is shared.
pub fn random_permutation(n: usize) -> (v: Vec<usize>)
    ensures
        is_permutation(v@, n as int),
{
    let mut v: Vec<usize> = Vec::new();
    let mut i: usize = 0;
    while i < n
        invariant
            i <= n,
            v@.len() == i,
            forall|q: int| 0 <= q < i ==> (#[trigger] v@[q]) == q,
        decreases n - i,
    {
        v.push(i);
        i = i + 1;
    }
    let mut k: usize = 0;
    while k < n
        invariant
            k <= n,
            v@.len() == n,
            forall|q: int| 0 <= q < n ==> (#[trigger] v@[q]) < n,
            forall|q: int, r: int| 0 <= q < r < n ==> v@[q] != v@[r],
        decreases n - k,
    {
        let j = random_index_in(k, n);
        let a = v[k];
        let b = v[j];
        v[k] = b;
        v[j] = a;
        proof {
            assert forall|q: int, r: int| 0 <= q < r < n implies v@[q] != v@[r] by {}
        }
        k = k + 1;
    }
    v
}

/// `n` strain indices drawn uniformly with replacement from `0 .. n`: the
/// case-resampling draw one bootstrap replicate reuses for the trait vector
/// and every locus.
pub fn bootstrap_indices(n: usize) -> (v: Vec<usize>)
    requires
        n > 0,
    ensures
        v@.len() == n,
        forall|i: int| 0 <= i < n ==> (#[trigger] v@[i]) < n,
{
    let mut v: Vec<usize> = Vec::new();
    let mut i: usize = 0;
    while i < n
        invariant
            i <= n,
            n > 0,
            v@.len() == i,
            forall|q: int| 0 <= q < i ==> (#[trigger] v@[q]) < n,
        decreases n - i,
    {
        v.push(random_index_in(0, n));
        i = i + 1;
    }
    v
}

/// Sum of a sequence of counts.
pub open spec fn seq_sum(s: Seq<usize>) -> int
    decreases s.len(),
{
    if s.len() == 0 {
        0
    } else {
        s.first() + seq_sum(s.drop_first())
    }
}

proof fn lemma_seq_sum_push(s: Seq<usize>, x: usize)
    ensures
        seq_sum(s.push(x)) == seq_sum(s) + x,
    decreases s.len(),
{
    if s.len() == 0 {
        assert(s.push(x).drop_first() =~= Seq::<usize>::empty());
        assert(s.push(x).first() == x);
        assert(seq_sum(s.push(x)) == x + seq_sum(Seq::<usize>::empty()));
        assert(seq_sum(Seq::<usize>::empty()) == 0);
        assert(seq_sum(s) == 0);
    } else {
        assert(s.push(x).drop_first() =~= s.drop_first().push(x));
        assert(s.push(x).first() == s.first());
        lemma_seq_sum_push(s.drop_first(), x);
        assert(seq_sum(s.push(x)) == s.first() + seq_sum(s.drop_first().push(x)));
        assert(seq_sum(s) == s.first() + seq_sum(s.drop_first()));
    }
}

proof fn lemma_seq_sum_update(s: Seq<usize>, i: int, x: usize)
    requires
        0 <= i < s.len(),
    ensures
        seq_sum(s.update(i, x)) == seq_sum(s) - s[i] + x,
    decreases s.len(),
{
    if i == 0 {
        assert(s.update(0, x).drop_first() =~= s.drop_first());
        assert(s.update(0, x).first() == x);
    } else {
        assert(s.update(i, x).first() == s.first());
        assert(s.update(i, x).drop_first() =~= s.drop_first().update(i - 1, x));
        lemma_seq_sum_update(s.drop_first(), i - 1, x);
    }
}

/// How many trials each of `workers` parallel workers runs: the first
/// `n_perms % workers` workers run one more than the rest, so the shares
/// sum to exactly `n_perms`. A worker count of zero is treated as one.
pub fn shard_counts(n_perms: usize, workers: usize) -> (shares: Vec<usize>)
    ensures
        shares@.len() == (if workers == 0 {
            1int
        } else {
            workers as int
        }),
        seq_sum(shares@) == n_perms,
        forall|i: int|
            0 <= i < shares@.len() ==> (#[trigger] shares@[i]) == n_perms as int / (
            if workers == 0 {
                1int
            } else {
                workers as int
            }) + (if i < n_perms as int % (if workers == 0 {
                1int
            } else {
                workers as int
            }) {
                1int
            } else {
                0int
            }),
{
    let w: usize = if workers == 0 {
        1
    } else {
        workers
    };
    let q = n_perms / w;
    let rem = n_perms % w;
    proof {
        vstd::arithmetic::div_mod::lemma_fundamental_div_mod(n_perms as int, w as int);
    }
    let mut shares: Vec<usize> = Vec::new();
    let mut i: usize = 0;
    while i < w
        invariant
            i <= w,
            w >= 1,
            q == n_perms as int / w as int,
            rem == n_perms as int % w as int,
            rem < w,
            q * w + rem == n_perms,
            shares@.len() == i,
            forall|j: int|
                0 <= j < i ==> (#[trigger] shares@[j]) == q + (if j < rem {
                    1int
                } else {
                    0int
                }),
            seq_sum(shares@) == i * q + (if i <= rem {
                i as int
            } else {
                rem as int
            }),
        decreases w - i,
    {
        let ghost old_shares = shares@;
        let share: usize = if i < rem {
            proof {
                assert(q + 1 <= usize::MAX) by (nonlinear_arith)
                    requires
                        q * w + rem == n_perms,
                        w >= 2,
                        q >= 0,
                        rem >= 0,
                        n_perms <= usize::MAX,
                ;
            }
            q + 1
        } else {
            q
        };
        shares.push(share);
        proof {
            lemma_seq_sum_push(old_shares, share);
            assert((i + 1) * q == i * q + q) by (nonlinear_arith);
        }
        i = i + 1;
    }
    proof {
        assert(seq_sum(shares@) == w * q + rem);
        assert(w * q == q * w) by (nonlinear_arith);
    }
    shares
}

/// Tallies the winning locus of each bootstrap replicate into a per-locus
/// count vector; the counts sum to the number of replicates.
pub fn locus_tally(winners: &Vec<usize>, n_loci: usize) -> (counts: Vec<usize>)
    requires
        forall|i: int| 0 <= i < winners@.len() ==> (#[trigger] winners@[i]) < n_loci,
    ensures
        counts@.len() == n_loci,
        forall|l: int|
            0 <= l < n_loci ==> (#[trigger] counts@[l]) == winners@.to_multiset().count(
                l as usize,
            ),
        seq_sum(counts@) == winners@.len(),
{
    let mut counts: Vec<usize> = Vec::new();
    let mut l: usize = 0;
    while l < n_loci
        invariant
            l <= n_loci,
            counts@.len() == l,
            forall|q: int| 0 <= q < l ==> (#[trigger] counts@[q]) == 0,
            seq_sum(counts@) == 0,
        decreases n_loci - l,
    {
        let ghost old_counts = counts@;
        counts.push(0);
        proof {
            lemma_seq_sum_push(old_counts, 0);
        }
        l = l + 1;
    }
    proof {
        let empty = winners@.take(0);
        empty.to_multiset_ensures();
        assert(winners@.take(0) =~= Seq::empty());
        assert forall|q: int| 0 <= q < n_loci implies #[trigger] winners@.take(
            0,
        ).to_multiset().count(q as usize) == 0 by {
            assert(!winners@.take(0).contains(q as usize));
        }
    }
    let mut i: usize = 0;
    while i < winners.len()
        invariant
            i <= winners@.len(),
            counts@.len() == n_loci,
            forall|q: int| 0 <= q < winners@.len() ==> (#[trigger] winners@[q]) < n_loci,
            forall|q: int|
                0 <= q < n_loci ==> (#[trigger] counts@[q]) == winners@.take(
                    i as int,
                ).to_multiset().count(q as usize),
            seq_sum(counts@) == i,
            forall|q: int| 0 <= q < n_loci ==> (#[trigger] counts@[q]) <= i,
        decreases winners@.len() - i,
    {
        let w = winners[i];
        let c = counts[w];
        let ghost old_counts = counts@;
        counts[w] = c + 1;
        proof {
            let prefix = winners@.take(i as int);
            let prefix1 = winners@.take(i + 1);
            assert(prefix.push(winners@[i as int]) =~= prefix1);
            prefix.to_multiset_ensures();
            assert(prefix1.to_multiset() == prefix.to_multiset().insert(winners@[i as int]));
            lemma_seq_sum_update(old_counts, w as int, (c + 1) as usize);
            assert forall|q: int| 0 <= q < n_loci implies (#[trigger] counts@[q])
                == prefix1.to_multiset().count(q as usize) by {
                if q == w {
                    assert(counts@[q] == old_counts[q] + 1);
                } else {
                    assert(counts@[q] == old_counts[q]);
                    assert(prefix1.to_multiset().count(q as usize) == prefix.to_multiset().count(
                        q as usize,
                    ));
                }
            }
        }
        i = i + 1;
    }
    proof {
        assert(winners@.take(winners@.len() as int) =~= winners@);
    }
    counts
}

/// The number of bootstrap replicates actually run for a requested count:
/// at least the default test size, at most the hard maximum.
pub fn bootstrap_test_size(n_boot: usize) -> (n: usize)
    ensures
        n == (if n_boot < BOOTSTRAP_TESTSIZE {
            BOOTSTRAP_TESTSIZE as int
        } else if n_boot > MAXPERMUTATION {
            MAXPERMUTATION as int
        } else {
            n_boot as int
        }),
{
    if n_boot < BOOTSTRAP_TESTSIZE {
        BOOTSTRAP_TESTSIZE
    } else if n_boot > MAXPERMUTATION {
        MAXPERMUTATION
    } else {
        n_boot
    }
}

} // verus!
