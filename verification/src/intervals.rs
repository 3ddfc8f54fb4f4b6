//! Missing-run detection: per strain, the maximal contiguous spans of
//! unknown genotypes along a chromosome, found by a single pure scan over
//! locus indices.
//!
//! The scan keeps, per strain, the start of the run currently open and the
//! `[start, end)` ranges already closed; a range closes when a known
//! genotype follows it, so a run still open at the end of the chromosome is
//! not reported. After the boundary pass of imputation the last locus is
//! known for every strain, and every unknown entry then falls inside a
//! closed run.

use vstd::prelude::*;

use crate::genome::Locus;
use crate::genotype::Genotype;

verus! {

/// Per-strain scan state: the start of the currently open run and the
/// ranges already closed, for each strain.
pub struct ScanState {
    pub open: Vec<Option<usize>>,
    pub closed: Vec<Vec<(usize, usize)>>,
}

/// The genotype column of strain `s` across a chromosome's loci.
pub open spec fn column(loci: Seq<Locus>, s: int) -> Seq<Genotype> {
    Seq::new(loci.len(), |l: int| loci[l].genotype@[s])
}

/// Every locus carries a genotype for exactly `n` strains.
pub open spec fn uniform_strains(loci: Seq<Locus>, n: int) -> bool {
    forall|l: int| 0 <= l < loci.len() ==> (#[trigger] loci[l].genotype@).len() == n
}

/// Start of the unknown run still open after scanning the first `ix`
/// entries of a column.
pub open spec fn open_run(col: Seq<Genotype>, ix: int) -> Option<usize>
    decreases ix,
{
    if ix <= 0 {
        None
    } else if col[ix - 1] is Unk {
        match open_run(col, ix - 1) {
            Some(a) => Some(a),
            None => Some((ix - 1) as usize),
        }
    } else {
        None
    }
}

/// The `[start, end)` runs already closed after scanning the first `ix`
/// entries of a column: maximal unknown spans followed by a known entry.
pub open spec fn closed_runs(col: Seq<Genotype>, ix: int) -> Seq<(usize, usize)>
    decreases ix,
{
    if ix <= 0 {
        Seq::empty()
    } else if !(col[ix - 1] is Unk) && open_run(col, ix - 1) is Some {
        closed_runs(col, ix - 1).push((open_run(col, ix - 1)->0, (ix - 1) as usize))
    } else {
        closed_runs(col, ix - 1)
    }
}

/// `[a, b)` is a maximal unknown span of `col` closed by a known entry.
pub open spec fn is_closed_run(col: Seq<Genotype>, a: int, b: int) -> bool {
    &&& 0 <= a < b < col.len()
    &&& forall|m: int| a <= m < b ==> (#[trigger] col[m]) is Unk
    &&& !(col[b] is Unk)
    &&& a == 0 || !(col[a - 1] is Unk)
}

/// What the scan state means: every open run is a trailing unknown span and
/// every closed range is a maximal unknown span closed before `ix`.
pub proof fn lemma_scan_props(col: Seq<Genotype>, ix: int)
    requires
        0 <= ix <= col.len(),
        col.len() <= usize::MAX,
    ensures
        match open_run(col, ix) {
            Some(a) => a < ix && (forall|m: int| a <= m < ix ==> (#[trigger] col[m]) is Unk) && (
            a == 0 || !(col[a - 1] is Unk)),
            None => ix == 0 || !(col[ix - 1] is Unk),
        },
        forall|k: int|
            0 <= k < closed_runs(col, ix).len() ==> {
                let p = #[trigger] closed_runs(col, ix)[k];
                is_closed_run(col, p.0 as int, p.1 as int) && p.1 < ix
            },
        forall|k1: int, k2: int|
            #![trigger closed_runs(col, ix)[k1], closed_runs(col, ix)[k2]]
            0 <= k1 < k2 < closed_runs(col, ix).len() ==> closed_runs(col, ix)[k1].1 < closed_runs(
                col,
                ix,
            )[k2].0,
    decreases ix,
{
    if ix > 0 {
        lemma_scan_props(col, ix - 1);
        let prev = closed_runs(col, ix - 1);
        let cur = closed_runs(col, ix);
        if col[ix - 1] is Unk {
            assert(cur == prev);
            match open_run(col, ix - 1) {
                Some(a) => {
                    assert(open_run(col, ix) == Some(a));
                    assert forall|m: int| a <= m < ix implies (#[trigger] col[m]) is Unk by {
                        if m < ix - 1 {
                        } else {
                            assert(col[ix - 1] is Unk);
                        }
                    }
                },
                None => {
                    assert(open_run(col, ix) == Some((ix - 1) as usize));
                },
            }
        } else {
            assert(open_run(col, ix) is None);
            match open_run(col, ix - 1) {
                Some(a) => {
                    assert(is_closed_run(col, a as int, ix - 1));
                    assert(cur == prev.push((a, (ix - 1) as usize)));
                    assert forall|k: int| 0 <= k < cur.len() implies {
                        let p = #[trigger] cur[k];
                        is_closed_run(col, p.0 as int, p.1 as int) && p.1 < ix
                    } by {
                        if k < prev.len() {
                            assert(cur[k] == prev[k]);
                        } else {
                            assert(cur[k] == ((a, (ix - 1) as usize)));
                        }
                    }
                },
                None => {
                    assert(cur == prev);
                },
            }
        }
        if !(col[ix - 1] is Unk) && open_run(col, ix - 1) is Some {
            let a = open_run(col, ix - 1)->0;
            assert forall|k1: int, k2: int|
                #![trigger cur[k1], cur[k2]]
                0 <= k1 < k2 < cur.len() implies cur[k1].1 < cur[k2].0 by {
                if k2 < prev.len() {
                    assert(cur[k1] == prev[k1]);
                    assert(cur[k2] == prev[k2]);
                } else {
                    assert(cur[k2] == ((a, (ix - 1) as usize)));
                    assert(cur[k1] == prev[k1]);
                    let p = prev[k1];
                    assert(is_closed_run(col, p.0 as int, p.1 as int) && p.1 < ix - 1);
                    if p.1 >= a {
                        assert(col[p.1 as int] is Unk);
                    }
                }
            }
        }
    }
}

/// Every unknown entry of a scanned prefix lies in a closed range or in the
/// still-open run.
pub proof fn lemma_scan_covers(col: Seq<Genotype>, ix: int, l: int)
    requires
        0 <= l < ix <= col.len(),
        col.len() <= usize::MAX,
        col[l] is Unk,
    ensures
        (exists|k: int|
            0 <= k < closed_runs(col, ix).len() && ({
                let p = #[trigger] closed_runs(col, ix)[k];
                p.0 <= l < p.1
            })) || (open_run(col, ix) is Some && open_run(col, ix)->0 <= l),
    decreases ix,
{
    let prev = closed_runs(col, ix - 1);
    let cur = closed_runs(col, ix);
    if l == ix - 1 {
        assert(col[ix - 1] is Unk);
        match open_run(col, ix - 1) {
            Some(a) => {
                lemma_scan_props(col, ix - 1);
                assert(open_run(col, ix) == Some(a));
                assert(a <= l);
            },
            None => {
                assert(open_run(col, ix) == Some((ix - 1) as usize));
            },
        }
    } else {
        lemma_scan_covers(col, ix - 1, l);
        if exists|k: int|
            0 <= k < prev.len() && ({
                let p = #[trigger] prev[k];
                p.0 <= l < p.1
            }) {
            let k = choose|k: int|
                0 <= k < prev.len() && ({
                    let p = #[trigger] prev[k];
                    p.0 <= l < p.1
                });
            if !(col[ix - 1] is Unk) && open_run(col, ix - 1) is Some {
                let a = open_run(col, ix - 1)->0;
                assert(cur == prev.push((a, (ix - 1) as usize)));
                assert(cur[k] == prev[k]);
                assert(0 <= k < cur.len() && cur[k].0 <= l < cur[k].1);
            } else {
                assert(cur == prev);
                assert(0 <= k < cur.len() && cur[k].0 <= l < cur[k].1);
            }
        } else {
            assert(open_run(col, ix - 1) is Some && open_run(col, ix - 1)->0 <= l);
            let a = open_run(col, ix - 1)->0;
            if col[ix - 1] is Unk {
                assert(open_run(col, ix) == Some(a));
            } else {
                assert(cur == prev.push((a, (ix - 1) as usize)));
                let n = cur.len();
                assert(cur[n - 1] == ((a, (ix - 1) as usize)));
                lemma_scan_props(col, ix - 1);
                assert(cur[n - 1].0 <= l < cur[n - 1].1);
            }
        }
    }
}

/// A maximal unknown span open at `b` has been tracked since `a`: the scan
/// cannot miss it.
proof fn lemma_open_run_of_span(col: Seq<Genotype>, a: int, b: int)
    requires
        0 <= a < b <= col.len(),
        col.len() <= usize::MAX,
        forall|m: int| a <= m < b ==> (#[trigger] col[m]) is Unk,
        a == 0 || !(col[a - 1] is Unk),
    ensures
        open_run(col, b) == Some(a as usize),
    decreases b - a,
{
    if b == a + 1 {
        assert(col[a] is Unk);
    } else {
        lemma_open_run_of_span(col, a, b - 1);
        assert(col[b - 1] is Unk);
    }
}

/// Detection is complete: every maximal unknown span closed by a known
/// genotype appears among the closed runs of the full scan.
pub proof fn lemma_scan_complete(col: Seq<Genotype>, a: int, b: int, ix: int)
    requires
        col.len() <= usize::MAX,
        is_closed_run(col, a, b),
        b < ix <= col.len(),
    ensures
        closed_runs(col, ix).contains(((a as usize, b as usize))),
    decreases ix,
{
    if ix == b + 1 {
        lemma_open_run_of_span(col, a, b);
        assert(!(col[ix - 1] is Unk));
        assert(closed_runs(col, ix) == closed_runs(col, b).push((a as usize, b as usize)));
        assert(closed_runs(col, ix).last() == ((a as usize, b as usize)));
    } else {
        lemma_scan_complete(col, a, b, ix - 1);
        let prev = closed_runs(col, ix - 1);
        let cur = closed_runs(col, ix);
        let j = choose|j: int| 0 <= j < prev.len() && prev[j] == ((a as usize, b as usize));
        if !(col[ix - 1] is Unk) && open_run(col, ix - 1) is Some {
            assert(cur[j] == prev[j]);
        } else {
            assert(cur == prev);
        }
        assert(cur.contains(((a as usize, b as usize))));
    }
}

/// One step of the scan: the open-run start after reading genotype `g` at
/// index `ix`.
pub open spec fn step_open(open: Option<usize>, g: Genotype, ix: usize) -> Option<usize> {
    if g is Unk {
        match open {
            Some(a) => Some(a),
            None => Some(ix),
        }
    } else {
        None
    }
}

/// One step of the scan: the closed ranges after reading genotype `g` at
/// index `ix`.
pub open spec fn step_closed(
    open: Option<usize>,
    closed: Seq<(usize, usize)>,
    g: Genotype,
    ix: usize,
) -> Seq<(usize, usize)> {
    if !(g is Unk) && open is Some {
        closed.push((open->0, ix))
    } else {
        closed
    }
}

/// The per-strain ranges of unknown genotypes found by a scan.
pub struct UnknownIntervals(pub Vec<Vec<(usize, usize)>>);

impl Locus {
    /// Feeds the genotypes of one locus index into the scan state, strain by
    /// strain: an unknown opens or extends a run, a known genotype closes
    /// any open run at `[start, ix)`.
    pub fn step_many_unknown_intervals_mut(state: &mut ScanState, ix: usize, genos: &Vec<Genotype>)
        requires
            old(state).open@.len() == genos@.len(),
            old(state).closed@.len() == genos@.len(),
        ensures
            final(state).open@.len() == genos@.len(),
            final(state).closed@.len() == genos@.len(),
            forall|s: int|
                0 <= s < genos@.len() ==> #[trigger] final(state).open@[s] == step_open(
                    old(state).open@[s],
                    genos@[s],
                    ix,
                ),
            forall|s: int|
                0 <= s < genos@.len() ==> (#[trigger] final(state).closed@[s])@ == step_closed(
                    old(state).open@[s],
                    old(state).closed@[s]@,
                    genos@[s],
                    ix,
                ),
    {
        let mut s: usize = 0;
        while s < genos.len()
            invariant
                s <= genos@.len(),
                state.open@.len() == genos@.len(),
                state.closed@.len() == genos@.len(),
                forall|q: int|
                    0 <= q < s ==> #[trigger] state.open@[q] == step_open(
                        old(state).open@[q],
                        genos@[q],
                        ix,
                    ),
                forall|q: int|
                    0 <= q < s ==> (#[trigger] state.closed@[q])@ == step_closed(
                        old(state).open@[q],
                        old(state).closed@[q]@,
                        genos@[q],
                        ix,
                    ),
                forall|q: int|
                    s <= q < genos@.len() ==> #[trigger] state.open@[q] == old(state).open@[q],
                forall|q: int|
                    s <= q < genos@.len() ==> #[trigger] state.closed@[q] == old(
                        state,
                    ).closed@[q],
            decreases genos@.len() - s,
        {
            if genos[s].is_unknown() {
                match state.open[s] {
                    Some(_) => {},
                    None => {
                        state.open[s] = Some(ix);
                    },
                }
            } else {
                match state.open[s] {
                    Some(start) => {
                        let mut inner = state.closed.remove(s);
                        inner.push((start, ix));
                        state.closed.insert(s, inner);
                        state.open[s] = None;
                        proof {
                            assert(state.closed@[s as int]@ == old(
                                state,
                            ).closed@[s as int]@.push((start, ix)));
                        }
                    },
                    None => {},
                }
            }
            s = s + 1;
        }
    }

    /// Scans a chromosome's loci in order and returns, per strain, the
    /// closed ranges of unknown genotypes, in ascending order.
    pub fn find_unknown_intervals(loci: &Vec<Locus>) -> (r: UnknownIntervals)
        requires
            loci@.len() > 0,
            uniform_strains(loci@, loci@[0].genotype@.len() as int),
        ensures
            r.0@.len() == loci@[0].genotype@.len(),
            forall|s: int|
                0 <= s < r.0@.len() ==> (#[trigger] r.0@[s])@ == closed_runs(
                    column(loci@, s),
                    loci@.len() as int,
                ),
    {
        let n_strains = loci[0].genotype.len();
        let mut open: Vec<Option<usize>> = Vec::new();
        let mut closed: Vec<Vec<(usize, usize)>> = Vec::new();
        let mut s: usize = 0;
        while s < n_strains
            invariant
                s <= n_strains,
                open@.len() == s,
                closed@.len() == s,
                forall|q: int| 0 <= q < s ==> (#[trigger] open@[q]) is None,
                forall|q: int| 0 <= q < s ==> (#[trigger] closed@[q])@ == Seq::<(
                    usize,
                    usize,
                )>::empty(),
            decreases n_strains - s,
        {
            open.push(None);
            closed.push(Vec::new());
            s = s + 1;
        }
        let mut state = ScanState { open, closed };
        let mut ix: usize = 0;
        while ix < loci.len()
            invariant
                ix <= loci@.len(),
                loci@.len() > 0,
                n_strains == loci@[0].genotype@.len(),
                uniform_strains(loci@, n_strains as int),
                state.open@.len() == n_strains,
                state.closed@.len() == n_strains,
                forall|q: int|
                    0 <= q < n_strains ==> #[trigger] state.open@[q] == open_run(
                        column(loci@, q),
                        ix as int,
                    ),
                forall|q: int|
                    0 <= q < n_strains ==> (#[trigger] state.closed@[q])@ == closed_runs(
                        column(loci@, q),
                        ix as int,
                    ),
            decreases loci@.len() - ix,
        {
            Locus::step_many_unknown_intervals_mut(&mut state, ix, &loci[ix].genotype);
            proof {
                assert forall|q: int| 0 <= q < n_strains implies #[trigger] state.open@[q]
                    == open_run(column(loci@, q), ix + 1) && state.closed@[q]@ == closed_runs(
                    column(loci@, q),
                    ix + 1,
                ) by {
                    let col = column(loci@, q);
                    assert(col[ix as int] == loci@[ix as int].genotype@[q]);
                }
            }
            ix = ix + 1;
        }
        UnknownIntervals(state.closed)
    }
}

} // verus!
