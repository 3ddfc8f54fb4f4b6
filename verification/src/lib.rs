mod dataset;
mod genome;
mod genotype;
mod imputation;
mod intervals;
mod metadata;
mod resample;
mod scan;
mod strutil;

pub use strutil::str_starts_with;

pub use dataset::Dataset;
pub use genome::{Chromosome, DatasetError, Genome, Locus, Marker};
pub use genotype::Genotype;
pub use genotype::UNKNOWN_SENTINEL;
pub use imputation::ImputeStep;
pub use intervals::{ScanState, UnknownIntervals};
pub use metadata::{Metadata, MetadataError};
pub use scan::{regression_mode, RegressionModel, ScanError};
pub use resample::{
    bootstrap_indices, bootstrap_test_size, locus_tally, random_permutation, shard_counts,
    BOOTSTRAP_TESTSIZE, MAXPERMUTATION,
};
