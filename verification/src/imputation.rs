//! Imputation planning: the boundary pass that turns unknowns at a
//! chromosome's first and last locus into heterozygous calls, and the step
//! plan that pairs every remaining unknown entry with its flanking known
//! genotypes.
//!
//! The numeric estimation itself — recombination fractions from map
//! distance via the Haldane function and the expected dosage table — is
//! floating-point work that the caller performs, one step at a time; a step
//! tells it which strain and locus to fill and which flanking loci and
//! genotypes determine the estimate. The plan proves that the flanks of a
//! step are never unknown and that every unknown entry left after the
//! boundary pass is covered by exactly this plan.

use vstd::prelude::*;

use crate::dataset::Dataset;
use crate::genome::{Chromosome, Locus};
use crate::genotype::Genotype;
use crate::intervals::{
    closed_runs, column, is_closed_run, lemma_scan_covers, lemma_scan_props, open_run,
    uniform_strains,
};

verus! {

/// The boundary pass on one genotype: an unknown becomes heterozygous,
/// anything else is kept.
pub open spec fn fix_entry(g: Genotype) -> Genotype {
    if g is Unk {
        Genotype::Het
    } else {
        g
    }
}

/// The boundary pass on one locus row.
pub open spec fn spec_fix_row(row: Seq<Genotype>) -> Seq<Genotype> {
    row.map_values(|g: Genotype| fix_entry(g))
}

/// The boundary pass on a whole tag grid (locus-major rows).
pub open spec fn grid_fix(g: Seq<Seq<Genotype>>) -> Seq<Seq<Genotype>> {
    Seq::new(
        g.len(),
        |l: int|
            if l == 0 || l == g.len() - 1 {
                spec_fix_row(g[l])
            } else {
                g[l]
            },
    )
}

/// No strain is unknown at the first or last locus.
pub open spec fn boundary_clean(loci: Seq<Locus>, n: int) -> bool {
    forall|s: int|
        0 <= s < n ==> !((#[trigger] loci[0].genotype@[s]) is Unk) && !(loci[loci.len()
            - 1].genotype@[s] is Unk)
}

/// One imputation step: fill the entry of `strain` at `locus` from the
/// flanking known genotypes at `prev` and `next` and their map distances.
#[derive(Debug, PartialEq, Eq, Structural, Clone, Copy)]
pub struct ImputeStep {
    pub strain: usize,
    pub locus: usize,
    pub prev: usize,
    pub next: usize,
    pub prev_geno: Genotype,
    pub next_geno: Genotype,
}

/// A step is well-formed for a chromosome: it points strictly inside the
/// chromosome, its flanks are known, and the whole span between the flanks
/// is unknown for its strain.
pub open spec fn valid_step(loci: Seq<Locus>, n: int, st: ImputeStep) -> bool {
    &&& st.strain < n
    &&& st.prev < st.locus
    &&& st.locus < st.next
    &&& st.next < loci.len()
    &&& !(loci[st.prev as int].genotype@[st.strain as int] is Unk)
    &&& !(loci[st.next as int].genotype@[st.strain as int] is Unk)
    &&& forall|m: int|
        st.prev < m < st.next ==> (#[trigger] loci[m].genotype@)[st.strain as int] is Unk
    &&& st.prev_geno == loci[st.prev as int].genotype@[st.strain as int]
    &&& st.next_geno == loci[st.next as int].genotype@[st.strain as int]
}

/// The steps are strictly ordered by strain, then locus: no entry is
/// planned twice.
pub open spec fn steps_lex_ordered(steps: Seq<ImputeStep>) -> bool {
    forall|k1: int, k2: int|
        #![trigger steps[k1], steps[k2]]
        0 <= k1 < k2 < steps.len() ==> (steps[k1].strain < steps[k2].strain || (steps[k1].strain
            == steps[k2].strain && steps[k1].locus < steps[k2].locus))
}

/// The plan holds a step for the entry of strain `s` at locus `l`.
pub open spec fn has_step(steps: Seq<ImputeStep>, s: int, l: int) -> bool {
    exists|k: int|
        0 <= k < steps.len() && (#[trigger] steps[k]).strain == s && steps[k].locus == l
}

proof fn lemma_has_step_push(steps: Seq<ImputeStep>, x: ImputeStep, s: int, l: int)
    requires
        has_step(steps, s, l),
    ensures
        has_step(steps.push(x), s, l),
{
    let k = choose|k: int|
        0 <= k < steps.len() && (#[trigger] steps[k]).strain == s && steps[k].locus == l;
    assert(steps.push(x)[k] == steps[k]);
}

/// What one imputation pass does to a chromosome: the boundary pass applied
/// to the tags, markers untouched, and a plan whose steps are well-formed
/// and cover every unknown entry that remains.
pub open spec fn chromosome_imputed(
    oldc: Chromosome,
    newc: Chromosome,
    n: int,
    steps: Seq<ImputeStep>,
) -> bool {
    &&& newc.name == oldc.name
    &&& newc.loci@.len() == oldc.loci@.len()
    &&& forall|l: int|
        0 <= l < newc.loci@.len() ==> (#[trigger] newc.loci@[l]).marker == oldc.loci@[l].marker
    &&& forall|l: int|
        0 <= l < newc.loci@.len() ==> (#[trigger] newc.loci@[l]).genotype@.len()
            == oldc.loci@[l].genotype@.len()
    &&& forall|l: int, s: int|
        0 <= l < newc.loci@.len() && 0 <= s < oldc.loci@[l].genotype@.len()
            ==> (#[trigger] newc.loci@[l].genotype@[s]) == (if l == 0 || l == newc.loci@.len()
            - 1 {
            fix_entry(oldc.loci@[l].genotype@[s])
        } else {
            oldc.loci@[l].genotype@[s]
        })
    &&& forall|k: int| 0 <= k < steps.len() ==> valid_step(newc.loci@, n, #[trigger] steps[k])
    &&& steps_lex_ordered(steps)
    &&& forall|l: int, s: int|
        0 <= l < newc.loci@.len() && 0 <= s < n && (#[trigger] newc.loci@[l].genotype@[s]) is Unk
            ==> has_step(steps, s, l)
}

/// Replaces every unknown in a row by heterozygous.
fn fix_row(row: &mut Vec<Genotype>)
    ensures
        final(row)@ == spec_fix_row(old(row)@),
{
    let mut s: usize = 0;
    while s < row.len()
        invariant
            s <= row@.len(),
            row@.len() == old(row)@.len(),
            forall|q: int| 0 <= q < s ==> row@[q] == fix_entry(#[trigger] old(row)@[q]),
            forall|q: int| s <= q < row@.len() ==> row@[q] == #[trigger] old(row)@[q],
        decreases row@.len() - s,
    {
        if row[s].is_unknown() {
            row[s] = Genotype::Het;
        }
        s = s + 1;
    }
    proof {
        assert(row@ =~= spec_fix_row(old(row)@));
    }
}

/// Builds the imputation steps for a chromosome whose boundary loci are
/// already known for every strain: one step per unknown entry, flanked by
/// the nearest known genotypes of its strain.
fn imputation_steps(loci: &Vec<Locus>, n_strains: usize) -> (steps: Vec<ImputeStep>)
    requires
        loci@.len() > 0,
        loci@[0].genotype@.len() == n_strains,
        uniform_strains(loci@, n_strains as int),
        boundary_clean(loci@, n_strains as int),
    ensures
        forall|k: int|
            0 <= k < steps@.len() ==> valid_step(loci@, n_strains as int, #[trigger] steps@[k]),
        steps_lex_ordered(steps@),
        forall|l: int, s: int|
            0 <= l < loci@.len() && 0 <= s < n_strains && (#[trigger] loci@[l].genotype@[s]) is Unk
                ==> has_step(steps@, s, l),
{
    let runs = Locus::find_unknown_intervals(loci);
    let mut steps: Vec<ImputeStep> = Vec::new();
    let n_loci = loci.len();
    let mut s: usize = 0;
    while s < n_strains
        invariant
            s <= n_strains,
            loci@.len() == n_loci,
            n_loci > 0,
            loci@[0].genotype@.len() == n_strains,
            uniform_strains(loci@, n_strains as int),
            boundary_clean(loci@, n_strains as int),
            runs.0@.len() == n_strains,
            forall|q: int|
                0 <= q < n_strains ==> (#[trigger] runs.0@[q])@ == closed_runs(
                    column(loci@, q),
                    loci@.len() as int,
                ),
            forall|k: int|
                0 <= k < steps@.len() ==> valid_step(loci@, n_strains as int, #[trigger] steps@[k]),
            forall|l: int, q: int|
                0 <= l < loci@.len() && 0 <= q < s && (#[trigger] loci@[l].genotype@[q]) is Unk
                    ==> has_step(steps@, q, l),
            steps_lex_ordered(steps@),
            forall|k: int| 0 <= k < steps@.len() ==> (#[trigger] steps@[k]).strain < s,
        decreases n_strains - s,
    {
        let ghost col = column(loci@, s as int);
        proof {
            lemma_scan_props(col, loci@.len() as int);
        }
        let n_runs = runs.0[s].len();
        let mut r: usize = 0;
        while r < n_runs
            invariant
                r <= n_runs,
                s < n_strains,
                loci@.len() == n_loci,
                n_loci > 0,
                loci@[0].genotype@.len() == n_strains,
                uniform_strains(loci@, n_strains as int),
                boundary_clean(loci@, n_strains as int),
                runs.0@.len() == n_strains,
                col == column(loci@, s as int),
                forall|q: int|
                    0 <= q < n_strains ==> (#[trigger] runs.0@[q])@ == closed_runs(
                        column(loci@, q),
                        loci@.len() as int,
                    ),
                n_runs == runs.0@[s as int]@.len(),
                forall|k: int|
                    0 <= k < steps@.len() ==> valid_step(
                        loci@,
                        n_strains as int,
                        #[trigger] steps@[k],
                    ),
                forall|l: int, q: int|
                    0 <= l < loci@.len() && 0 <= q < s && (#[trigger] loci@[l].genotype@[q]) is Unk
                        ==> has_step(steps@, q, l),
                forall|k: int, l: int|
                    #![trigger runs.0@[s as int]@[k], has_step(steps@, s as int, l)]
                    0 <= k < r && ({
                        let p = runs.0@[s as int]@[k];
                        p.0 <= l < p.1
                    }) ==> has_step(steps@, s as int, l),
                steps_lex_ordered(steps@),
                forall|k: int|
                    0 <= k < steps@.len() ==> (#[trigger] steps@[k]).strain < s || (steps@[k].strain
                        == s && r > 0 && steps@[k].locus < runs.0@[s as int]@[r - 1].1),
            decreases n_runs - r,
        {
            proof {
                lemma_scan_props(col, loci@.len() as int);
            }
            let pr = runs.0[s][r];
            let a = pr.0;
            let b = pr.1;
            proof {
                assert(runs.0@[s as int]@[r as int] == pr);
                assert(is_closed_run(col, a as int, b as int));
                assert(col[a as int] is Unk);
                assert(col[0] == loci@[0].genotype@[s as int]);
                assert(a > 0);
            }
            proof {
                if r > 0 {
                    assert(runs.0@[s as int]@[r - 1 as int].1 < runs.0@[s as int]@[r as int].0);
                }
            }
            let mut l: usize = a;
            while l < b
                invariant
                    a <= l <= b,
                    s < n_strains,
                    0 < a < b < loci@.len(),
                    loci@.len() == n_loci,
                    loci@[0].genotype@.len() == n_strains,
                    uniform_strains(loci@, n_strains as int),
                    col == column(loci@, s as int),
                    is_closed_run(col, a as int, b as int),
                    forall|k: int|
                        0 <= k < steps@.len() ==> valid_step(
                            loci@,
                            n_strains as int,
                            #[trigger] steps@[k],
                        ),
                    forall|ll: int, q: int|
                        0 <= ll < loci@.len() && 0 <= q < s && (
                        #[trigger] loci@[ll].genotype@[q]) is Unk ==> has_step(steps@, q, ll),
                    forall|k: int, ll: int|
                        #![trigger runs.0@[s as int]@[k], has_step(steps@, s as int, ll)]
                        0 <= k < r && ({
                            let p = runs.0@[s as int]@[k];
                            p.0 <= ll < p.1
                        }) ==> has_step(steps@, s as int, ll),
                    forall|ll: int| a <= ll < l ==> has_step(steps@, s as int, ll),
                    steps_lex_ordered(steps@),
                    forall|k: int|
                        0 <= k < steps@.len() ==> (#[trigger] steps@[k]).strain < s || (
                        steps@[k].strain == s && steps@[k].locus < l),
                decreases b - l,
            {
                let prev_geno = loci[a - 1].genotype[s];
                let next_geno = loci[b].genotype[s];
                let st = ImputeStep { strain: s, locus: l, prev: a - 1, next: b, prev_geno, next_geno };
                proof {
                    let ghost old_steps = steps@;
                    assert(col[a - 1] == loci@[a - 1].genotype@[s as int]);
                    assert(col[b as int] == loci@[b as int].genotype@[s as int]);
                    assert forall|m: int| a - 1 < m < b implies (#[trigger] loci@[m].genotype@)[s as int] is Unk by {
                        assert(col[m] == loci@[m].genotype@[s as int]);
                    }
                    assert(valid_step(loci@, n_strains as int, st));
                }
                let ghost old_steps = steps@;
                steps.push(st);
                proof {
                    assert(steps@ == old_steps.push(st));
                    assert(steps@[old_steps.len() as int] == st);
                    assert forall|ll: int, q: int|
                        0 <= ll < loci@.len() && 0 <= q < s && (
                        #[trigger] loci@[ll].genotype@[q]) is Unk implies has_step(
                        steps@,
                        q,
                        ll,
                    ) by {
                        lemma_has_step_push(old_steps, st, q, ll);
                    }
                    assert forall|k: int, ll: int|
                        #![trigger runs.0@[s as int]@[k], has_step(steps@, s as int, ll)]
                        0 <= k < r && ({
                            let p = runs.0@[s as int]@[k];
                            p.0 <= ll < p.1
                        }) implies has_step(steps@, s as int, ll) by {
                        lemma_has_step_push(old_steps, st, s as int, ll);
                    }
                    assert forall|ll: int| a <= ll < l + 1 implies has_step(
                        steps@,
                        s as int,
                        ll,
                    ) by {
                        if ll < l {
                            lemma_has_step_push(old_steps, st, s as int, ll);
                        } else {
                            assert(steps@[old_steps.len() as int].strain == s as int
                                && steps@[old_steps.len() as int].locus == ll);
                        }
                    }
                }
                l = l + 1;
            }
            r = r + 1;
        }
        proof {
            assert forall|l: int|
                0 <= l < loci@.len() && (#[trigger] loci@[l].genotype@[s as int]) is Unk implies
            has_step(steps@, s as int, l) by {
                assert(col[l] == loci@[l].genotype@[s as int]);
                assert(col[0] == loci@[0].genotype@[s as int]);
                assert(col[col.len() - 1] == loci@[loci@.len() - 1].genotype@[s as int]);
                assert(!(col[col.len() - 1] is Unk));
                lemma_scan_covers(col, loci@.len() as int, l);
                assert(open_run(col, loci@.len() as int) is None);
                let k = choose|k: int|
                    0 <= k < closed_runs(col, loci@.len() as int).len() && ({
                        let p = #[trigger] closed_runs(col, loci@.len() as int)[k];
                        p.0 <= l < p.1
                    });
                assert(runs.0@[s as int]@[k] == closed_runs(col, loci@.len() as int)[k]);
            }
        }
        s = s + 1;
    }
    steps
}

/// Runs one imputation pass over a chromosome: boundary pass on the tags,
/// then the step plan for every remaining unknown entry.
fn impute_chromosome(chr: &mut Chromosome, n_strains: usize) -> (steps: Vec<ImputeStep>)
    requires
        old(chr).loci@.len() > 0,
        uniform_strains(old(chr).loci@, n_strains as int),
    ensures
        chromosome_imputed(*old(chr), *final(chr), n_strains as int, steps@),
{
    let n_loci = chr.loci.len();
    let mut first = chr.loci.remove(0);
    fix_row(&mut first.genotype);
    chr.loci.insert(0, first);
    if n_loci > 1 {
        let mut last = match chr.loci.pop() {
            Some(l) => l,
            None => {
                proof {
                    assert(false);
                }
                return Vec::new();
            },
        };
        fix_row(&mut last.genotype);
        chr.loci.push(last);
    }
    proof {
        assert forall|l: int, s: int|
            0 <= l < chr.loci@.len() && 0 <= s < old(chr).loci@[l].genotype@.len() implies (
        #[trigger] chr.loci@[l].genotype@[s]) == (if l == 0 || l == chr.loci@.len() - 1 {
            fix_entry(old(chr).loci@[l].genotype@[s])
        } else {
            old(chr).loci@[l].genotype@[s]
        }) by {
            assert(spec_fix_row(old(chr).loci@[l].genotype@).len() == old(
                chr,
            ).loci@[l].genotype@.len());
        }
        assert(boundary_clean(chr.loci@, n_strains as int));
    }
    let steps = imputation_steps(&chr.loci, n_strains);
    steps
}

impl Dataset {
    /// One imputation pass over the whole genome: the boundary pass is
    /// applied to every chromosome's tags, and the returned plan holds, per
    /// chromosome, one step for every unknown entry that remains. Chromosomes
    /// are independent: no step reaches across a chromosome.
    pub fn estimate_unknown(&mut self) -> (plans: Vec<Vec<ImputeStep>>)
        requires
            forall|ci: int|
                0 <= ci < old(self).genome.chromosomes@.len() ==> (#[trigger] old(
                    self,
                ).genome.chromosomes@[ci]).loci@.len() > 0,
            forall|ci: int|
                0 <= ci < old(self).genome.chromosomes@.len() ==> uniform_strains(
                    (#[trigger] old(self).genome.chromosomes@[ci]).loci@,
                    old(self).strains@.len() as int,
                ),
        ensures
            final(self).metadata == old(self).metadata,
            final(self).has_mb == old(self).has_mb,
            final(self).strains@ == old(self).strains@,
            final(self).dominance == old(self).dominance,
            final(self).genome.chromosomes@.len() == old(self).genome.chromosomes@.len(),
            plans@.len() == old(self).genome.chromosomes@.len(),
            forall|ci: int|
                0 <= ci < plans@.len() ==> chromosome_imputed(
                    old(self).genome.chromosomes@[ci],
                    final(self).genome.chromosomes@[ci],
                    old(self).strains@.len() as int,
                    (#[trigger] plans@[ci])@,
                ),
    {
        let n_strains = self.strains.len();
        let mut plans: Vec<Vec<ImputeStep>> = Vec::new();
        let n_chr = self.genome.chromosomes.len();
        let mut ci: usize = 0;
        while ci < n_chr
            invariant
                ci <= n_chr,
                n_strains == old(self).strains@.len(),
                self.metadata == old(self).metadata,
                self.has_mb == old(self).has_mb,
                self.strains@ == old(self).strains@,
                self.dominance == old(self).dominance,
                n_chr == old(self).genome.chromosomes@.len(),
                self.genome.chromosomes@.len() == n_chr,
                forall|j: int|
                    0 <= j < n_chr ==> (#[trigger] old(self).genome.chromosomes@[j]).loci@.len()
                        > 0,
                forall|j: int|
                    0 <= j < n_chr ==> uniform_strains(
                        (#[trigger] old(self).genome.chromosomes@[j]).loci@,
                        n_strains as int,
                    ),
                plans@.len() == ci,
                forall|j: int|
                    ci <= j < n_chr ==> #[trigger] self.genome.chromosomes@[j] == old(
                        self,
                    ).genome.chromosomes@[j],
                forall|j: int|
                    0 <= j < ci ==> chromosome_imputed(
                        old(self).genome.chromosomes@[j],
                        self.genome.chromosomes@[j],
                        n_strains as int,
                        (#[trigger] plans@[j])@,
                    ),
            decreases n_chr - ci,
        {
            let mut c = self.genome.chromosomes.remove(ci);
            proof {
                assert(c == old(self).genome.chromosomes@[ci as int]);
                assert(old(self).genome.chromosomes@[ci as int].loci@.len() > 0);
                assert(uniform_strains(
                    old(self).genome.chromosomes@[ci as int].loci@,
                    n_strains as int,
                ));
            }
            let steps = impute_chromosome(&mut c, n_strains);
            self.genome.chromosomes.insert(ci, c);
            plans.push(steps);
            proof {
                assert(self.genome.chromosomes@ =~= self.genome.chromosomes@);
            }
            ci = ci + 1;
        }
        plans
    }
}

/// Running a pass over a chromosome whose boundary loci are already known
/// changes no genotype tag: together with the boundary pass making the
/// boundary known, re-running imputation on an already-imputed chromosome
/// is a no-op on the tags, and the estimation steps, a function of the tags
/// and map positions alone, repeat identically.
pub proof fn lemma_imputation_pass_stable(
    oldc: Chromosome,
    newc: Chromosome,
    n: int,
    steps: Seq<ImputeStep>,
)
    requires
        chromosome_imputed(oldc, newc, n, steps),
        oldc.loci@.len() > 0,
        uniform_strains(oldc.loci@, n),
        boundary_clean(oldc.loci@, n),
    ensures
        forall|l: int, s: int|
            0 <= l < newc.loci@.len() && 0 <= s < n ==> (#[trigger] newc.loci@[l].genotype@[s])
                == oldc.loci@[l].genotype@[s],
{
    assert forall|l: int, s: int|
        0 <= l < newc.loci@.len() && 0 <= s < n implies (#[trigger] newc.loci@[l].genotype@[s])
        == oldc.loci@[l].genotype@[s] by {
        assert(oldc.loci@[l].genotype@.len() == n);
        assert(newc.loci@[l].genotype@.len() == oldc.loci@[l].genotype@.len());
        if l == 0 || l == newc.loci@.len() - 1 {
            assert(!(oldc.loci@[0].genotype@[s] is Unk));
            assert(!(oldc.loci@[oldc.loci@.len() - 1].genotype@[s] is Unk));
        }
    }
}

/// Re-running the boundary pass changes nothing: it is idempotent, and a
/// grid it has already cleaned detects the same runs, so a second
/// imputation pass produces the same plan. This is the tag-level heart of
/// the idempotence of imputation; the numeric estimates are a function of
/// the tags and map positions alone, so they repeat identically as well.
pub proof fn lemma_boundary_fix_idempotent(g: Seq<Seq<Genotype>>)
    ensures
        grid_fix(grid_fix(g)) == grid_fix(g),
{
    let g1 = grid_fix(g);
    let g2 = grid_fix(g1);
    assert forall|l: int| 0 <= l < g.len() implies g2[l] == g1[l] by {
        if l == 0 || l == g.len() - 1 {
            assert(g2[l] =~= g1[l]);
        }
    }
    assert(g2 =~= g1);
}

/// After the boundary pass, every entry still tagged unknown lies strictly
/// inside the chromosome, inside a maximal unknown run whose two flanking
/// genotypes are known: the estimation step for it is always well-defined.
pub proof fn lemma_unknown_entry_has_flanked_run(col: Seq<Genotype>, l: int)
    requires
        col.len() >= 1,
        col.len() <= usize::MAX,
        !(col[0] is Unk),
        !(col[col.len() - 1] is Unk),
        0 <= l < col.len(),
        col[l] is Unk,
    ensures
        exists|k: int|
            0 <= k < closed_runs(col, col.len() as int).len() && ({
                let p = #[trigger] closed_runs(col, col.len() as int)[k];
                &&& p.0 <= l < p.1
                &&& p.0 >= 1
                &&& !(col[p.0 - 1] is Unk)
                &&& !(col[p.1 as int] is Unk)
            }),
{
    lemma_scan_covers(col, col.len() as int, l);
    lemma_scan_props(col, col.len() as int);
    assert(open_run(col, col.len() as int) is None);
    let k = choose|k: int|
        0 <= k < closed_runs(col, col.len() as int).len() && ({
            let p = #[trigger] closed_runs(col, col.len() as int)[k];
            p.0 <= l < p.1
        });
    let p = closed_runs(col, col.len() as int)[k];
    assert(is_closed_run(col, p.0 as int, p.1 as int));
    assert(col[p.0 as int] is Unk);
    assert(p.0 >= 1);
}

} // verus!
