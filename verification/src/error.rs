//! Error types of the library.
use crate::text::IntErrorKind;
use vstd::prelude::*;

verus! {

/// The error that the `csv` crate reports.
#[verifier::external_type_specification]
#[verifier::external_body]
pub struct ExCsvError(csv::Error);

/// Errors of the analyzer.
#[derive(Debug)]
pub enum KbOptError {
    /// The CSV reader failed on a record.
    Csv(csv::Error),
    /// The header row of a frequency file is not `Key,Count`.
    CsvHeader(String),
    /// A record has fewer than two columns.
    CsvRow { row: usize, got: usize },
    /// A record names an unknown key (strict parsing only).
    UnknownKey { row: usize, label: String },
    /// The count of a record is no unsigned 64-bit number.
    CountParse { row: usize, value: String, source: IntErrorKind },
    /// The optimization solver failed.
    SolverError(String),
    /// The optimization model could not be built.
    ModelError { message: String },
    /// The geometry is invalid.
    GeometryError { message: String },
    /// A key could not be placed.
    PlacementError { message: String },
    /// The configuration is invalid.
    ConfigError(String),
    /// Reading or writing failed.
    IoError(String),
    /// Any other failure.
    Other(String),
}

/// Errors of the key logger.
#[derive(Debug, Clone, PartialEq, Eq)]
pub enum KeyLoggerError {
    /// The configuration is invalid.
    InvalidConfiguration(String),
    /// The statistics could not be locked.
    StatisticsLockError,
    /// The platform is not supported.
    PlatformNotSupported,
}

} // verus!
