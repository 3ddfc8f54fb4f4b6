//! The structural side of a dataset: markers, loci, chromosomes in
//! first-seen order, strain bookkeeping, and the line formats that carry
//! them.
//!
//! Map positions are kept as the text the input supplied; turning them into
//! numbers, and every computation on those numbers, belongs to the numeric
//! boundary around this library. The genotype matrix held here is the tag
//! matrix; the per-strain dosage values that regression reads are kept by the
//! caller, aligned with these loci.

use vstd::prelude::*;

use crate::genotype::Genotype;
use crate::metadata::{spec_parse_genotype, Metadata};
use crate::strutil::{spec_split_terminator, split_terminator_char, str_eq};

verus! {

/// Failures of the dataset layer.
#[derive(Debug, PartialEq, Eq, Structural, Clone, Copy)]
pub enum DatasetError {
    /// The header line holds fewer than four tab-separated words.
    HeaderTooShort,
    /// A genotype line is too short to hold its fixed columns.
    LocusLineTooShort,
    /// A genotype symbol matched none of the configured symbols.
    UnrecognizedGenotype,
    /// A locus does not carry one genotype per strain.
    LengthMismatch,
    /// A queried strain name is not in the dataset's strain list.
    UnknownStrain,
    /// The requested control marker is not in the genome.
    ControlNotFound,
}

/// One genomic marker, positions kept as the input text.
#[derive(Debug, PartialEq, Eq, Clone)]
pub struct Marker {
    pub name: String,
    /// Map position in centiMorgans, as written in the input.
    pub centi_morgan: String,
    /// Physical position in megabasepairs, as written in the input.
    pub mega_basepair: Option<String>,
    pub chromosome: String,
}

/// One marker with the genotype tag of every strain at it, in strain order.
#[derive(Debug, PartialEq, Eq, Clone)]
pub struct Locus {
    pub marker: Marker,
    pub genotype: Vec<Genotype>,
}

/// One chromosome: its identifier and its loci in input order.
#[derive(Debug, PartialEq, Eq, Clone)]
pub struct Chromosome {
    pub name: String,
    pub loci: Vec<Locus>,
}

/// An ordered collection of chromosomes, in first-seen insertion order.
#[derive(Debug, PartialEq, Eq, Clone)]
pub struct Genome {
    pub chromosomes: Vec<Chromosome>,
}

/// The genome is well formed: chromosome names are pairwise distinct and
/// every chromosome holds at least one locus.
pub open spec fn genome_wf(chrs: Seq<Chromosome>) -> bool {
    &&& forall|i: int, j: int|
        #![trigger chrs[i].name@, chrs[j].name@]
        0 <= i < j < chrs.len() ==> chrs[i].name@ != chrs[j].name@
    &&& forall|i: int| 0 <= i < chrs.len() ==> (#[trigger] chrs[i]).loci@.len() > 0
}

/// Index of the first chromosome with the given name.
pub open spec fn spec_find_chromosome(chrs: Seq<Chromosome>, name: Seq<char>) -> Option<int>
    decreases chrs.len(),
{
    if chrs.len() == 0 {
        None
    } else if chrs.first().name@ == name {
        Some(0)
    } else {
        match spec_find_chromosome(chrs.drop_first(), name) {
            Some(i) => Some(i + 1),
            None => None,
        }
    }
}

/// Total number of loci across all chromosomes.
pub open spec fn spec_n_loci(chrs: Seq<Chromosome>) -> int
    decreases chrs.len(),
{
    if chrs.len() == 0 {
        0
    } else {
        chrs.first().loci@.len() + spec_n_loci(chrs.drop_first())
    }
}

proof fn lemma_n_loci_nonneg(chrs: Seq<Chromosome>)
    ensures
        spec_n_loci(chrs) >= 0,
    decreases chrs.len(),
{
    if chrs.len() > 0 {
        lemma_n_loci_nonneg(chrs.drop_first());
    }
}

proof fn lemma_n_loci_skip(chrs: Seq<Chromosome>, i: int)
    requires
        0 <= i < chrs.len(),
    ensures
        spec_n_loci(chrs.skip(i)) == chrs[i].loci@.len() + spec_n_loci(chrs.skip(i + 1)),
    decreases chrs.len() - i,
{
    assert(chrs.skip(i).len() > 0);
    assert(chrs.skip(i).first() == chrs[i]);
    assert(chrs.skip(i).drop_first() =~= chrs.skip(i + 1));
}

/// The first match at `i` is what the search spec returns.
proof fn lemma_find_chromosome_first(chrs: Seq<Chromosome>, name: Seq<char>, i: int)
    requires
        0 <= i < chrs.len(),
        chrs[i].name@ == name,
        forall|j: int| 0 <= j < i ==> chrs[j].name@ != name,
    ensures
        spec_find_chromosome(chrs, name) == Some(i),
    decreases chrs.len(),
{
    if i == 0 {
    } else {
        assert(chrs.first().name@ != name);
        lemma_find_chromosome_first(chrs.drop_first(), name, i - 1);
    }
}

/// With no match anywhere the search spec returns nothing.
proof fn lemma_find_chromosome_none(chrs: Seq<Chromosome>, name: Seq<char>)
    requires
        forall|j: int| 0 <= j < chrs.len() ==> chrs[j].name@ != name,
    ensures
        spec_find_chromosome(chrs, name) is None,
    decreases chrs.len(),
{
    if chrs.len() > 0 {
        lemma_find_chromosome_none(chrs.drop_first(), name);
    }
}

/// Whatever the search spec returns is in range, matches, and is first.
pub proof fn lemma_find_chromosome_props(chrs: Seq<Chromosome>, name: Seq<char>)
    ensures
        match spec_find_chromosome(chrs, name) {
            Some(i) => 0 <= i < chrs.len() && chrs[i].name@ == name && forall|j: int|
                0 <= j < i ==> chrs[j].name@ != name,
            None => forall|j: int| 0 <= j < chrs.len() ==> chrs[j].name@ != name,
        },
    decreases chrs.len(),
{
    if chrs.len() > 0 && chrs.first().name@ != name {
        lemma_find_chromosome_props(chrs.drop_first(), name);
        match spec_find_chromosome(chrs.drop_first(), name) {
            Some(i) => {
                assert forall|j: int| 0 <= j < i + 1 implies chrs[j].name@ != name by {
                    if j > 0 {
                        assert(chrs.drop_first()[j - 1].name@ != name);
                    }
                }
            },
            None => {
                assert forall|j: int| 0 <= j < chrs.len() implies chrs[j].name@ != name by {
                    if j > 0 {
                        assert(chrs.drop_first()[j - 1].name@ != name);
                    }
                }
            },
        }
    }
}

/// Some genotype word after the fixed columns names no configured symbol.
pub open spec fn some_genotype_word_fails(m: Metadata, words: Seq<Seq<char>>, skip: int) -> bool {
    exists|k: int|
        0 <= k < words.len() - skip && #[trigger] spec_parse_genotype(m, words[skip + k]) is None
}

/// Translates the genotype words of a locus line, the words after the fixed
/// columns, into tags.
fn parse_genotype_words(metadata: &Metadata, words: &Vec<String>, skip: usize) -> (r: Result<
    Vec<Genotype>,
    DatasetError,
>)
    requires
        skip <= words@.len(),
    ensures
        match r {
            Ok(g) => {
                &&& g@.len() == words@.len() - skip
                &&& forall|k: int|
                    0 <= k < g@.len() ==> #[trigger] spec_parse_genotype(
                        *metadata,
                        words.deep_view()[skip + k],
                    ) is Some
                &&& forall|k: int|
                    0 <= k < g@.len() ==> #[trigger] g@[k] == spec_parse_genotype(
                        *metadata,
                        words.deep_view()[skip + k],
                    )->0
            },
            Err(e) => e == DatasetError::UnrecognizedGenotype && exists|k: int|
                0 <= k < words@.len() - skip && #[trigger] spec_parse_genotype(
                    *metadata,
                    words.deep_view()[skip + k],
                ) is None,
        },
{
    let mut genotype: Vec<Genotype> = Vec::new();
    let mut k: usize = 0;
    let n_genos = words.len() - skip;
    while k < n_genos
        invariant
            k <= n_genos,
            n_genos == words@.len() - skip,
            skip <= words@.len(),
            skip + n_genos <= usize::MAX,
            genotype@.len() == k,
            forall|j: int|
                0 <= j < k ==> #[trigger] spec_parse_genotype(
                    *metadata,
                    words.deep_view()[skip + j],
                ) is Some,
            forall|j: int|
                0 <= j < k ==> #[trigger] genotype@[j] == spec_parse_genotype(
                    *metadata,
                    words.deep_view()[skip + j],
                )->0,
        decreases n_genos - k,
    {
        proof {
            assert(words.deep_view()[skip + k as int] == words@[skip + k as int]@);
        }
        match metadata.parse_genotype(words[skip + k].as_str()) {
            Ok(p) => {
                genotype.push(p.0);
            },
            Err(_) => {
                return Err(DatasetError::UnrecognizedGenotype);
            },
        }
        k = k + 1;
    }
    Ok(genotype)
}

impl Locus {
    /// Reads one genotype line: chromosome, marker name, positions, and one
    /// genotype symbol per strain, tab-separated.
    #[verifier::rlimit(60)]
    #[verifier::spinoff_prover]
    pub fn parse_line(metadata: &Metadata, has_mb: bool, line: &str) -> (r: Result<
        (String, Locus),
        DatasetError,
    >)
        ensures
            r is Ok ==> ({
                let words = spec_split_terminator(line@, '\t');
                let skip: int = if has_mb {
                    4
                } else {
                    3
                };
                let p = r->Ok_0;
                &&& words.len() >= skip
                &&& forall|k: int|
                    0 <= k < words.len() - skip ==> #[trigger] spec_parse_genotype(
                        *metadata,
                        words[skip + k],
                    ) is Some
                &&& p.0@ == words[0]
                &&& p.1.marker.chromosome@ == words[0]
                &&& p.1.marker.name@ == words[1]
                &&& p.1.marker.centi_morgan@ == words[2]
                &&& (p.1.marker.mega_basepair is Some) <==> has_mb
                &&& has_mb ==> p.1.marker.mega_basepair->0@ == words[3]
                &&& p.1.genotype@.len() == words.len() - skip
                &&& forall|k: int|
                    0 <= k < words.len() - skip ==> #[trigger] p.1.genotype@[k]
                        == spec_parse_genotype(*metadata, words[skip + k])->0
            }),
            r is Err ==> ({
                let words = spec_split_terminator(line@, '\t');
                let skip: int = if has_mb {
                    4
                } else {
                    3
                };
                let e = r->Err_0;
                &&& (e is LocusLineTooShort || e is UnrecognizedGenotype)
                &&& (e is LocusLineTooShort ==> words.len() < skip)
                &&& (e is UnrecognizedGenotype ==> words.len() >= skip
                    && some_genotype_word_fails(*metadata, words, skip))
            }),
    {
        let words = split_terminator_char(line, '\t');
        let skip: usize = if has_mb {
            4
        } else {
            3
        };
        if words.len() < skip {
            proof {
                assert(spec_split_terminator(line@, '\t').len() == words@.len());
            }
            return Err(DatasetError::LocusLineTooShort);
        }
        let chromosome = words[0].clone();
        let name = words[1].clone();
        let centi_morgan = words[2].clone();
        let mega_basepair = if has_mb {
            Some(words[3].clone())
        } else {
            None
        };
        let genotype = match parse_genotype_words(metadata, &words, skip) {
            Ok(g) => g,
            Err(e) => {
                proof {
                    let wv = spec_split_terminator(line@, '\t');
                    assert(wv.len() == words@.len());
                    let k = choose|k: int|
                        0 <= k < words@.len() - skip && #[trigger] spec_parse_genotype(
                            *metadata,
                            words.deep_view()[skip + k],
                        ) is None;
                    assert(spec_parse_genotype(*metadata, wv[skip + k]) is None);
                    assert(some_genotype_word_fails(*metadata, wv, skip as int));
                }
                return Err(e);
            },
        };
        proof {
            let wv = spec_split_terminator(line@, '\t');
            assert(wv.len() == words@.len());
            assert forall|k: int| 0 <= k < wv.len() - skip implies #[trigger] spec_parse_genotype(
                *metadata,
                wv[skip + k],
            ) is Some by {
                assert(spec_parse_genotype(*metadata, words.deep_view()[skip + k]) is Some);
            }
            assert forall|k: int| 0 <= k < wv.len() - skip implies #[trigger] genotype@[k]
                == spec_parse_genotype(*metadata, wv[skip + k])->0 by {
                assert(genotype@[k] == spec_parse_genotype(*metadata, words.deep_view()[skip + k])->0);
            }
        }
        let marker = Marker { name, centi_morgan, mega_basepair, chromosome: chromosome.clone() };
        Ok((chromosome, Locus { marker, genotype }))
    }

    /// The marker's map position in centiMorgans, as written in the input;
    /// the numeric boundary parses it when it computes with it.
    pub fn cm(&self) -> (r: &String)
        ensures
            r@ == self.marker.centi_morgan@,
    {
        &self.marker.centi_morgan
    }

    /// The genotype tags of the listed strains, in the listed order.
    pub fn genotypes_subset(&self, strain_ixs: &Vec<usize>) -> (r: Vec<Genotype>)
        requires
            forall|i: int| 0 <= i < strain_ixs@.len() ==> strain_ixs@[i] < self.genotype@.len(),
        ensures
            r@.len() == strain_ixs@.len(),
            forall|i: int| 0 <= i < r@.len() ==> r@[i] == self.genotype@[strain_ixs@[i] as int],
    {
        let mut r: Vec<Genotype> = Vec::new();
        let mut i: usize = 0;
        while i < strain_ixs.len()
            invariant
                i <= strain_ixs@.len(),
                forall|j: int| 0 <= j < strain_ixs@.len() ==> strain_ixs@[j] < self.genotype@.len(),
                r@.len() == i,
                forall|j: int| 0 <= j < i ==> r@[j] == self.genotype@[strain_ixs@[j] as int],
            decreases strain_ixs@.len() - i,
        {
            r.push(self.genotype[strain_ixs[i]]);
            i = i + 1;
        }
        r
    }
}

impl Genome {
    /// An empty genome.
    pub fn new() -> (g: Genome)
        ensures
            g.chromosomes@.len() == 0,
    {
        Genome { chromosomes: Vec::new() }
    }

    /// Index of the first chromosome with the given name, scanning in
    /// insertion order.
    pub fn find_chromosome(&self, name: &str) -> (r: Option<usize>)
        ensures
            match r {
                Some(i) => spec_find_chromosome(self.chromosomes@, name@) == Some(i as int),
                None => spec_find_chromosome(self.chromosomes@, name@) is None,
            },
    {
        let mut i: usize = 0;
        while i < self.chromosomes.len()
            invariant
                i <= self.chromosomes@.len(),
                forall|j: int| 0 <= j < i ==> self.chromosomes@[j].name@ != name@,
            decreases self.chromosomes@.len() - i,
        {
            if str_eq(self.chromosomes[i].name.as_str(), name) {
                proof {
                    lemma_find_chromosome_first(self.chromosomes@, name@, i as int);
                }
                return Some(i);
            }
            i = i + 1;
        }
        proof {
            lemma_find_chromosome_none(self.chromosomes@, name@);
        }
        None
    }

    /// Appends a locus to the named chromosome, creating the chromosome at
    /// the end of the order when it is new.
    pub fn push_locus(&mut self, chr: String, locus: Locus)
        ensures
            genome_wf(old(self).chromosomes@) ==> genome_wf(final(self).chromosomes@),
            match spec_find_chromosome(old(self).chromosomes@, chr@) {
                Some(i) => {
                    &&& final(self).chromosomes@.len() == old(self).chromosomes@.len()
                    &&& forall|j: int|
                        0 <= j < old(self).chromosomes@.len() && j != i
                            ==> final(self).chromosomes@[j] == old(self).chromosomes@[j]
                    &&& final(self).chromosomes@[i].name == old(self).chromosomes@[i].name
                    &&& final(self).chromosomes@[i].loci@ == old(self).chromosomes@[i].loci@.push(
                        locus,
                    )
                },
                None => {
                    &&& final(self).chromosomes@.len() == old(self).chromosomes@.len() + 1
                    &&& forall|j: int|
                        0 <= j < old(self).chromosomes@.len()
                            ==> final(self).chromosomes@[j] == old(self).chromosomes@[j]
                    &&& final(self).chromosomes@.last().name == chr
                    &&& final(self).chromosomes@.last().loci@ =~= seq![locus]
                },
            },
    {
        proof {
            lemma_find_chromosome_props(self.chromosomes@, chr@);
        }
        match self.find_chromosome(chr.as_str()) {
            Some(i) => {
                let mut c = self.chromosomes.remove(i);
                c.loci.push(locus);
                self.chromosomes.insert(i, c);
                proof {
                    let oldc = old(self).chromosomes@;
                    assert(final(self).chromosomes@[i as int].loci@ == oldc[i as int].loci@.push(
                        locus,
                    ));
                }
            },
            None => {
                let mut loci: Vec<Locus> = Vec::new();
                loci.push(locus);
                self.chromosomes.push(Chromosome { name: chr, loci });
            },
        }
    }

    /// Total number of loci across the genome.
    pub fn n_loci(&self) -> (n: usize)
        requires
            spec_n_loci(self.chromosomes@) <= usize::MAX,
        ensures
            n == spec_n_loci(self.chromosomes@),
    {
        let mut n: usize = 0;
        let mut i: usize = 0;
        proof {
            assert(self.chromosomes@.skip(0) =~= self.chromosomes@);
        }
        while i < self.chromosomes.len()
            invariant
                i <= self.chromosomes@.len(),
                spec_n_loci(self.chromosomes@) <= usize::MAX,
                n == spec_n_loci(self.chromosomes@) - spec_n_loci(self.chromosomes@.skip(i as int)),
            decreases self.chromosomes@.len() - i,
        {
            proof {
                lemma_n_loci_skip(self.chromosomes@, i as int);
                lemma_n_loci_nonneg(self.chromosomes@.skip(i + 1 as int));
                lemma_n_loci_nonneg(self.chromosomes@);
            }
            n = n + self.chromosomes[i].loci.len();
            i = i + 1;
        }
        proof {
            assert(self.chromosomes@.skip(self.chromosomes@.len() as int) =~= Seq::empty());
        }
        n
    }
}

} // verus!
