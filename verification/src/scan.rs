//! The call policy of the per-locus scan: which regression kernel runs for
//! a dataset, and the one combination that is rejected outright.
//!
//! The kernels themselves are closed-form floating-point least squares and
//! live with the caller; this module fixes, before any per-locus work
//! begins, which of them is invoked and with which baseline, so that a
//! request that must fail does so before any partial result is produced.

use vstd::prelude::*;

verus! {

/// Which regression the scan runs at each locus.
#[derive(Debug, PartialEq, Eq, Structural, Clone, Copy)]
pub enum RegressionModel {
    /// Trait against genotype dosage alone.
    SingleLocus,
    /// Trait against genotype dosage and the locus's own dominance
    /// coefficient, against the plain total-sum-of-squares baseline.
    DominanceJoint,
    /// Trait against genotype dosage and a control marker's dosage, against
    /// the baseline of the trait regressed on the control alone.
    ControlAdjusted,
}

/// Failures of the scan layer.
#[derive(Debug, PartialEq, Eq, Structural, Clone, Copy)]
pub enum ScanError {
    /// Covariate regression with an external control on an intercross
    /// dataset is unsupported and refused, never approximated.
    CompositeIntercross,
}

impl RegressionModel {
    /// True for the model whose baseline is the trait regressed on the
    /// covariate alone rather than the plain total sum of squares.
    pub fn diff_baseline(self) -> (r: bool)
        ensures
            r == (self is ControlAdjusted),
    {
        match self {
            RegressionModel::ControlAdjusted => true,
            _ => false,
        }
    }
}

/// Decides the kernel for one scan from the dataset's dominance flag and
/// whether a control marker was supplied: an intercross with an external
/// control is refused before any locus is visited.
pub fn regression_mode(dominance: bool, has_control: bool) -> (r: Result<
    RegressionModel,
    ScanError,
>)
    ensures
        r == (if dominance && has_control {
            Err::<RegressionModel, ScanError>(ScanError::CompositeIntercross)
        } else if has_control {
            Ok::<RegressionModel, ScanError>(RegressionModel::ControlAdjusted)
        } else if dominance {
            Ok::<RegressionModel, ScanError>(RegressionModel::DominanceJoint)
        } else {
            Ok::<RegressionModel, ScanError>(RegressionModel::SingleLocus)
        }),
{
    if dominance && has_control {
        Err(ScanError::CompositeIntercross)
    } else if has_control {
        Ok(RegressionModel::ControlAdjusted)
    } else if dominance {
        Ok(RegressionModel::DominanceJoint)
    } else {
        Ok(RegressionModel::SingleLocus)
    }
}

} // verus!
