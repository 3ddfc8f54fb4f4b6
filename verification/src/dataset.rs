//! The dataset: cross-type flag, strain list, and the genome, with the
//! header line that introduces the strain columns.
//!
//! The strain list defines the index space every trait vector and genotype
//! row is aligned to. The dominance flag records whether the cross design is
//! an intercross, the one design that models a dominance effect.

use vstd::prelude::*;

use crate::genome::{DatasetError, Genome, Locus, spec_find_chromosome, spec_n_loci};
use crate::metadata::Metadata;
use crate::strutil::{spec_split_terminator, split_terminator_char, str_eq};

verus! {

/// A dataset: metadata, column layout, strain names, and the genome.
pub struct Dataset {
    pub metadata: Metadata,
    pub has_mb: bool,
    pub genome: Genome,
    pub strains: Vec<String>,
    /// True when the dataset type is `"intercross"`.
    pub dominance: bool,
}

impl Dataset {
    /// Builds an empty dataset; the dominance flag is read off the metadata's
    /// dataset type.
    pub fn new(metadata: Metadata, has_mb: bool, strains: Vec<String>) -> (d: Dataset)
        ensures
            d.metadata == metadata,
            d.has_mb == has_mb,
            d.strains@ == strains@,
            d.genome.chromosomes@.len() == 0,
            d.dominance == (metadata.dataset_type@ == "intercross"@),
    {
        let dominance = metadata.is_intercross();
        Dataset { metadata, has_mb, genome: Genome::new(), strains, dominance }
    }

    /// The strain names, in column order.
    pub fn strains(&self) -> (r: &Vec<String>)
        ensures
            r@ == self.strains@,
    {
        &self.strains
    }

    /// The number of strains.
    pub fn n_strains(&self) -> (n: usize)
        ensures
            n == self.strains@.len(),
    {
        self.strains.len()
    }

    /// Maps each queried strain name to its first position in this dataset's
    /// strain list; an unknown name is an error.
    pub fn strain_indices(&self, names: &Vec<String>) -> (r: Result<Vec<usize>, DatasetError>)
        ensures
            match r {
                Ok(v) => {
                    &&& v@.len() == names@.len()
                    &&& forall|i: int|
                        0 <= i < v@.len() ==> #[trigger] v@[i] < self.strains@.len()
                            && self.strains@[v@[i] as int]@ == names@[i]@ && forall|j: int|
                            0 <= j < v@[i] ==> self.strains@[j]@ != names@[i]@
                },
                Err(e) => e == DatasetError::UnknownStrain && exists|i: int|
                    0 <= i < names@.len() && forall|j: int|
                        0 <= j < self.strains@.len() ==> self.strains@[j]@ != #[trigger] names@[i]@,
            },
    {
        let mut v: Vec<usize> = Vec::new();
        let mut i: usize = 0;
        while i < names.len()
            invariant
                i <= names@.len(),
                v@.len() == i,
                forall|q: int|
                    0 <= q < i ==> #[trigger] v@[q] < self.strains@.len()
                        && self.strains@[v@[q] as int]@ == names@[q]@ && forall|j: int|
                        0 <= j < v@[q] ==> self.strains@[j]@ != names@[q]@,
            decreases names@.len() - i,
        {
            match first_name_index(&self.strains, names[i].as_str()) {
                Some(j) => {
                    v.push(j);
                },
                None => {
                    return Err(DatasetError::UnknownStrain);
                },
            }
            i = i + 1;
        }
        Ok(v)
    }

    /// Total number of loci across the genome.
    pub fn n_loci(&self) -> (n: usize)
        requires
            spec_n_loci(self.genome.chromosomes@) <= usize::MAX,
        ensures
            n == spec_n_loci(self.genome.chromosomes@),
    {
        self.genome.n_loci()
    }

    /// Appends a locus to the named chromosome after checking that it
    /// carries one genotype per strain.
    pub fn push_locus(&mut self, chr: String, locus: Locus) -> (r: Result<(), DatasetError>)
        ensures
            final(self).metadata == old(self).metadata,
            final(self).has_mb == old(self).has_mb,
            final(self).strains@ == old(self).strains@,
            final(self).dominance == old(self).dominance,
            match r {
                Ok(()) => locus.genotype@.len() == old(self).strains@.len() && match
                    spec_find_chromosome(old(self).genome.chromosomes@, chr@) {
                    Some(i) => {
                        &&& final(self).genome.chromosomes@.len()
                            == old(self).genome.chromosomes@.len()
                        &&& forall|j: int|
                            0 <= j < old(self).genome.chromosomes@.len() && j != i
                                ==> final(self).genome.chromosomes@[j] == old(
                                self,
                            ).genome.chromosomes@[j]
                        &&& final(self).genome.chromosomes@[i].name == old(
                            self,
                        ).genome.chromosomes@[i].name
                        &&& final(self).genome.chromosomes@[i].loci@ == old(
                            self,
                        ).genome.chromosomes@[i].loci@.push(locus)
                    },
                    None => {
                        &&& final(self).genome.chromosomes@.len() == old(
                            self,
                        ).genome.chromosomes@.len() + 1
                        &&& forall|j: int|
                            0 <= j < old(self).genome.chromosomes@.len()
                                ==> final(self).genome.chromosomes@[j] == old(
                                self,
                            ).genome.chromosomes@[j]
                        &&& final(self).genome.chromosomes@.last().name == chr
                        &&& final(self).genome.chromosomes@.last().loci@ =~= seq![locus]
                    },
                },
                Err(e) => e == DatasetError::LengthMismatch && locus.genotype@.len() != old(
                    self,
                ).strains@.len() && final(self).genome == old(self).genome,
            },
    {
        if locus.genotype.len() != self.strains.len() {
            return Err(DatasetError::LengthMismatch);
        }
        self.genome.push_locus(chr, locus);
        Ok(())
    }

    /// Position of the first locus named `name`, in genome order, as a
    /// (chromosome index, locus index) pair.
    pub fn find_locus(&self, name: &str) -> (r: Option<(usize, usize)>)
        ensures
            match r {
                Some(p) => {
                    &&& p.0 < self.genome.chromosomes@.len()
                    &&& p.1 < self.genome.chromosomes@[p.0 as int].loci@.len()
                    &&& self.genome.chromosomes@[p.0 as int].loci@[p.1 as int].marker.name@
                        == name@
                    &&& forall|cj: int, lj: int|
                        0 <= cj < p.0 && 0 <= lj < self.genome.chromosomes@[cj].loci@.len()
                            ==> #[trigger] self.genome.chromosomes@[cj].loci@[lj].marker.name@
                            != name@
                    &&& forall|lj: int|
                        0 <= lj < p.1
                            ==> #[trigger] self.genome.chromosomes@[p.0 as int].loci@[lj].marker.name@
                            != name@
                },
                None => forall|cj: int, lj: int|
                    0 <= cj < self.genome.chromosomes@.len() && 0 <= lj
                        < self.genome.chromosomes@[cj].loci@.len()
                        ==> #[trigger] self.genome.chromosomes@[cj].loci@[lj].marker.name@
                        != name@,
            },
    {
        let mut ci: usize = 0;
        while ci < self.genome.chromosomes.len()
            invariant
                ci <= self.genome.chromosomes@.len(),
                forall|cj: int, lj: int|
                    0 <= cj < ci && 0 <= lj < self.genome.chromosomes@[cj].loci@.len()
                        ==> #[trigger] self.genome.chromosomes@[cj].loci@[lj].marker.name@
                        != name@,
            decreases self.genome.chromosomes@.len() - ci,
        {
            let n_loci = self.genome.chromosomes[ci].loci.len();
            let mut li: usize = 0;
            while li < n_loci
                invariant
                    li <= n_loci,
                    ci < self.genome.chromosomes@.len(),
                    n_loci == self.genome.chromosomes@[ci as int].loci@.len(),
                    forall|cj: int, lj: int|
                        0 <= cj < ci && 0 <= lj < self.genome.chromosomes@[cj].loci@.len()
                            ==> #[trigger] self.genome.chromosomes@[cj].loci@[lj].marker.name@
                            != name@,
                    forall|lj: int|
                        0 <= lj < li
                            ==> #[trigger] self.genome.chromosomes@[ci as int].loci@[lj].marker.name@
                            != name@,
                decreases n_loci - li,
            {
                if str_eq(
                    self.genome.chromosomes[ci].loci[li].marker.name.as_str(),
                    name,
                ) {
                    return Some((ci, li));
                }
                li = li + 1;
            }
            ci = ci + 1;
        }
        None
    }

    /// Recognizes the dataset header line, the line that begins the
    /// genotype table: it starts with the three fixed column titles.
    pub fn is_dataset_header(line: &str) -> (r: bool)
        ensures
            r == ("Chr\tLocus\tcM"@.len() <= line@.len() && line@.subrange(
                0,
                "Chr\tLocus\tcM"@.len() as int,
            ) == "Chr\tLocus\tcM"@),
    {
        crate::strutil::str_starts_with(line, "Chr\tLocus\tcM")
    }

    /// Reads the dataset header line: four fixed columns, an optional `Mb`
    /// column, then one column per strain.
    pub fn parse_dataset_header(line: &str) -> (r: Result<(bool, Vec<String>), DatasetError>)
        ensures
            ({
                let words = spec_split_terminator(line@, '\t');
                match r {
                    Ok(p) => {
                        &&& words.len() >= 4
                        &&& p.0 == (words[3] == "Mb"@)
                        &&& p.1.deep_view() == words.skip(
                            if p.0 {
                                4int
                            } else {
                                3int
                            },
                        )
                    },
                    Err(e) => e == DatasetError::HeaderTooShort && words.len() < 4,
                }
            }),
    {
        let words = split_terminator_char(line, '\t');
        if words.len() < 4 {
            proof {
                assert(spec_split_terminator(line@, '\t').len() == words@.len());
            }
            return Err(DatasetError::HeaderTooShort);
        }
        let has_mb = str_eq(words[3].as_str(), "Mb");
        let skip: usize = if has_mb {
            4
        } else {
            3
        };
        let mut strains: Vec<String> = Vec::new();
        let mut i: usize = skip;
        while i < words.len()
            invariant
                skip <= i <= words@.len(),
                strains@.len() == i - skip,
                forall|q: int|
                    0 <= q < i - skip ==> #[trigger] strains@[q]@ == words@[skip + q]@,
            decreases words@.len() - i,
        {
            strains.push(words[i].clone());
            i = i + 1;
        }
        proof {
            let wv = spec_split_terminator(line@, '\t');
            assert(wv.len() == words@.len());
            assert(words.deep_view()[3] == words@[3]@);
            assert forall|q: int|
                0 <= q < strains@.len() implies strains.deep_view()[q] == wv.skip(skip as int)[q] by {
                assert(strains.deep_view()[q] == strains@[q]@);
                assert(wv[skip + q] == words.deep_view()[skip + q]);
                assert(words.deep_view()[skip + q] == words@[skip + q]@);
            }
            assert(strains.deep_view() =~= wv.skip(skip as int));
        }
        Ok((has_mb, strains))
    }
}

/// Index of the first string in `names` whose view equals `name`.
fn first_name_index(names: &Vec<String>, name: &str) -> (r: Option<usize>)
    ensures
        match r {
            Some(j) => j < names@.len() && names@[j as int]@ == name@ && forall|q: int|
                0 <= q < j ==> names@[q]@ != name@,
            None => forall|q: int| 0 <= q < names@.len() ==> names@[q]@ != name@,
        },
{
    let mut j: usize = 0;
    while j < names.len()
        invariant
            j <= names@.len(),
            forall|q: int| 0 <= q < j ==> names@[q]@ != name@,
        decreases names@.len() - j,
    {
        if str_eq(names[j].as_str(), name) {
            return Some(j);
        }
        j = j + 1;
    }
    None
}

} // verus!
