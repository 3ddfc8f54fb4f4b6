//! The four-symbol genotype alphabet and its numeric encoding.
//!
//! A genotype is the allele pair a strain carries at one marker. Regression
//! works on a numeric dosage for each genotype; the `Unk` tag carries a
//! sentinel dosage that must never survive imputation. The numeric work
//! downstream is done in floating point by the caller; the integer codes
//! here are the exact values the encoding rules assign.

use vstd::prelude::*;

verus! {

/// One genotype call: maternal allele, paternal allele, heterozygous, or
/// missing.
#[derive(Debug, PartialEq, Eq, Structural, PartialOrd, Clone, Copy)]
pub enum Genotype {
    Mat,
    Pat,
    Het,
    Unk,
}

/// Sentinel dosage code carried by an `Unk` entry until imputation assigns a
/// real value.
pub const UNKNOWN_SENTINEL: i64 = 99;

impl Genotype {
    /// The regression dosage assigned to this genotype: maternal `-1`,
    /// paternal `+1`, heterozygous `0`, and the sentinel `99` for unknown.
    pub open spec fn spec_dosage_code(self) -> i64 {
        match self {
            Genotype::Mat => -1i64,
            Genotype::Pat => 1i64,
            Genotype::Het => 0i64,
            Genotype::Unk => UNKNOWN_SENTINEL,
        }
    }

    /// The dominance coefficient assigned to this genotype: `0` for either
    /// homozygote, `1` for heterozygous or unknown.
    pub open spec fn spec_dominance_code(self) -> i64 {
        match self {
            Genotype::Mat => 0i64,
            Genotype::Pat => 0i64,
            Genotype::Het => 1i64,
            Genotype::Unk => 1i64,
        }
    }

    /// Numeric dosage used as the regression predictor.
    pub fn dosage_code(self) -> (code: i64)
        ensures
            code == self.spec_dosage_code(),
    {
        match self {
            Genotype::Mat => -1,
            Genotype::Pat => 1,
            Genotype::Het => 0,
            Genotype::Unk => UNKNOWN_SENTINEL,
        }
    }

    /// Dominance coding of this genotype.
    pub fn dominance_code(self) -> (code: i64)
        ensures
            code == self.spec_dominance_code(),
    {
        match self {
            Genotype::Mat => 0,
            Genotype::Pat => 0,
            Genotype::Het => 1,
            Genotype::Unk => 1,
        }
    }

    /// True exactly on the `Unk` tag.
    pub fn is_unknown(self) -> (b: bool)
        ensures
            b == (self is Unk),
    {
        match self {
            Genotype::Unk => true,
            _ => false,
        }
    }
}

} // verus!
