//! Settings of the optimizer that hold no real numbers, the conversion of
//! the advanced settings into block and row settings, and the timing of a
//! solver run.
use crate::geometry::{finger_name, spec_finger_from_string, Finger};
use crate::keys::ClusterConfig;
use crate::error::KbOptError;
use crate::text::{concat3, str_eq};
use vstd::prelude::*;

verus! {

/// The monotonic clock of std.
#[verifier::external_type_specification]
#[verifier::external_body]
pub struct ExInstant(std::time::Instant);

/// Settings of the digit block.
#[derive(Debug, Clone)]
pub struct DigitClusterConfig {
    pub enable: bool,
    pub enforce_sequence: bool,
    pub allowed_rows: Vec<usize>,
    pub enforce_horizontal: bool,
}

/// Settings of where rows may move (as written in a settings file).
#[derive(Debug, Clone, Copy, PartialEq, Eq, Structural)]
pub struct RowFlexibilityConfigFile {
    pub enable_free_positioning: bool,
    pub fixed_alphabet_rows: bool,
    pub optimizable_symbols: bool,
    pub min_rows_from_home: usize,
    pub max_rows_from_home: usize,
}

/// Whether the width of a key depends on the direction of the move.
#[derive(Debug, Clone, Copy, PartialEq, Eq, Structural)]
pub struct DirectionalWidthConfig {
    pub enable: bool,
}

/// Settings of the comparison of two solver versions.
#[derive(Debug, Clone)]
pub struct ComparisonConfig {
    pub enable_parallel: bool,
    pub save_report: bool,
    /// `"html"`, `"json"` or `"csv"`.
    pub report_format: String,
}

/// The finger named `s` (`"LThumb"`, `"RPinky"`, ...), if any.
pub fn finger_from_string(s: &str) -> (r: Option<Finger>)
    ensures
        r == spec_finger_from_string(s@),
{
    crate::geometry::finger_from_string(s)
}

/// The name of `finger`.
pub fn finger_to_string(finger: Finger) -> (r: &'static str)
    ensures
        r@ == finger_name(finger),
{
    crate::geometry::finger_to_string(&finger)
}

/// The block settings of the advanced settings: the arrows always as a
/// block, the digits as the digit settings say; the default block settings
/// when there are no digit settings.
pub fn advanced_cluster_config(digit_cluster: &Option<DigitClusterConfig>) -> (r: ClusterConfig)
    ensures
        match digit_cluster {
            Some(d) => {
                &&& r.enable_arrows
                &&& r.enable_digits == d.enable
                &&& r.enforce_digit_sequence == d.enforce_sequence
                &&& r.allowed_rows@ == d.allowed_rows@
                &&& r.enforce_horizontal == d.enforce_horizontal
                &&& !r.align_left_edge
                &&& !r.align_right_edge
            },
            None => {
                &&& r.enable_arrows
                &&& r.enable_digits
                &&& r.enforce_digit_sequence
                &&& r.allowed_rows@ == seq![0usize, 1usize]
                &&& !r.enforce_horizontal
                &&& !r.align_left_edge
                &&& !r.align_right_edge
            },
        },
{
    match digit_cluster {
        Some(d) => {
            let mut rows: Vec<usize> = Vec::new();
            let mut i: usize = 0;
            while i < d.allowed_rows.len()
                invariant
                    i <= d.allowed_rows@.len(),
                    rows@ == d.allowed_rows@.take(i as int),
                decreases d.allowed_rows@.len() - i,
            {
                rows.push(d.allowed_rows[i]);
                i = i + 1;
                assert(rows@ =~= d.allowed_rows@.take(i as int));
            }
            assert(d.allowed_rows@.take(i as int) =~= d.allowed_rows@);
            ClusterConfig {
                enable_arrows: true,
                enable_digits: d.enable,
                enforce_digit_sequence: d.enforce_sequence,
                allowed_rows: rows,
                enforce_horizontal: d.enforce_horizontal,
                align_left_edge: false,
                align_right_edge: false,
            }
        },
        None => ClusterConfig::default(),
    }
}

/// The row settings of the advanced settings, or, when there are none,
/// rows fixed for the letters, symbols optimized, one to two rows from the
/// home row.
pub fn advanced_row_flexibility(row_flexibility: &Option<RowFlexibilityConfigFile>) -> (r: RowFlexibilityConfigFile)
    ensures
        match row_flexibility {
            Some(c) => r == *c,
            None => r == RowFlexibilityConfigFile {
                enable_free_positioning: false,
                fixed_alphabet_rows: true,
                optimizable_symbols: true,
                min_rows_from_home: 1,
                max_rows_from_home: 2,
            },
        },
{
    match row_flexibility {
        Some(c) => *c,
        None => RowFlexibilityConfigFile {
            enable_free_positioning: false,
            fixed_alphabet_rows: true,
            optimizable_symbols: true,
            min_rows_from_home: 1,
            max_rows_from_home: 2,
        },
    }
}

/// `std::time::Instant::now`: the clock now. Nothing is claimed of the
/// result, which depends on the time.
#[verifier::external_body]
fn instant_now() -> std::time::Instant {
    std::time::Instant::now()
}

/// `std::time::Instant::elapsed`: the time since `start`. Nothing is
/// claimed of the result, which depends on the time.
#[verifier::external_body]
fn instant_elapsed(start: &std::time::Instant) -> core::time::Duration {
    start.elapsed()
}

/// `std::time::Duration::as_millis`: a duration in whole milliseconds.
/// Nothing is claimed of the result, since the duration it reads is opaque
/// here.
#[verifier::external_body]
fn duration_as_millis(d: &core::time::Duration) -> u128 {
    d.as_millis()
}

/// The result of a run with the time it took.
pub struct TimedExecution<T> {
    pub result: T,
    pub duration_ms: u64,
}

impl<T> TimedExecution<T> {
    /// Runs `f` and measures how long it takes, in milliseconds (cut to
    /// 64 bits).
    pub fn time<F>(f: F) -> (r: TimedExecution<T>) where F: FnOnce() -> T
        requires
            f.requires(()),
        ensures
            f.ensures((), r.result),
    {
        let start = instant_now();
        let result = f();
        let elapsed = instant_elapsed(&start);
        let ms = duration_as_millis(&elapsed);
        let duration_ms = ms as u64;
        TimedExecution { result, duration_ms }
    }
}

/// The problem of the solver version and geometry names, if any.
pub open spec fn names_problem(version: Seq<char>, geometry: Seq<char>) -> Option<Seq<char>> {
    if !(version == "v1"@ || version == "v1_advanced"@ || version == "v2"@) {
        Some("Invalid solver version: "@ + version + ". Must be 'v1', 'v1_advanced', or 'v2'"@)
    } else if !(geometry == "row-stagger"@ || geometry == "ortho"@ || geometry == "column-stagger"@) {
        Some("Invalid geometry: "@ + geometry + ". Must be 'row-stagger', 'ortho', or 'column-stagger'"@)
    } else {
        None
    }
}

/// Checks the solver version (`v1`, `v1_advanced` or `v2`) and the geometry
/// name (`row-stagger`, `ortho` or `column-stagger`) of the optimizer
/// settings.
pub fn validate_names(version: &str, geometry: &str) -> (r: Result<(), KbOptError>)
    ensures
        match names_problem(version@, geometry@) {
            None => r is Ok,
            Some(m) => r matches Err(KbOptError::ConfigError(s)) && s@ == m,
        },
{
    if !(str_eq(version, "v1") || str_eq(version, "v1_advanced") || str_eq(version, "v2")) {
        return Err(
            KbOptError::ConfigError(concat3("Invalid solver version: ", version, ". Must be 'v1', 'v1_advanced', or 'v2'")),
        );
    }
    if !(str_eq(geometry, "row-stagger") || str_eq(geometry, "ortho") || str_eq(geometry, "column-stagger")) {
        return Err(
            KbOptError::ConfigError(
                concat3("Invalid geometry: ", geometry, ". Must be 'row-stagger', 'ortho', or 'column-stagger'"),
            ),
        );
    }
    Ok(())
}

/// The problem of the bigram settings, if any: an enabled bigram model
/// needs a known approach.
pub open spec fn bigrams_problem(enable: bool, approach: Seq<char>) -> Option<Seq<char>> {
    if enable && !(approach == "DirectionalBucket"@ || approach == "TopMLinearization"@) {
        Some(
            "Invalid bigrams approach: "@ + approach
                + ". Must be 'DirectionalBucket' or 'TopMLinearization'"@,
        )
    } else {
        None
    }
}

/// Checks the approach of enabled bigram settings.
pub fn validate_bigrams_config(enable: bool, approach: &str) -> (r: Result<(), KbOptError>)
    ensures
        match bigrams_problem(enable, approach@) {
            None => r is Ok,
            Some(m) => r matches Err(KbOptError::ConfigError(s)) && s@ == m,
        },
{
    if enable && !(str_eq(approach, "DirectionalBucket") || str_eq(approach, "TopMLinearization")) {
        return Err(
            KbOptError::ConfigError(
                concat3("Invalid bigrams approach: ", approach, ". Must be 'DirectionalBucket' or 'TopMLinearization'"),
            ),
        );
    }
    Ok(())
}

/// The kinds of comparison report.
#[derive(Debug, Clone, Copy, PartialEq, Eq, Structural)]
pub enum ReportFormat {
    Html,
    Json,
    Csv,
}

/// The report kind that a format name names.
pub open spec fn spec_report_format(format: Seq<char>) -> Option<ReportFormat> {
    if format == "html"@ {
        Some(ReportFormat::Html)
    } else if format == "json"@ {
        Some(ReportFormat::Json)
    } else if format == "csv"@ {
        Some(ReportFormat::Csv)
    } else {
        None
    }
}

/// The report kind of `format` (`html`, `json` or `csv`); any other name
/// is refused.
pub fn report_format(format: &str) -> (r: Result<ReportFormat, KbOptError>)
    ensures
        match spec_report_format(format@) {
            Some(f) => r == Ok::<ReportFormat, KbOptError>(f),
            None => r matches Err(KbOptError::ConfigError(s)) && s@ == "Unknown report format: "@ + format@,
        },
{
    if str_eq(format, "html") {
        Ok(ReportFormat::Html)
    } else if str_eq(format, "json") {
        Ok(ReportFormat::Json)
    } else if str_eq(format, "csv") {
        Ok(ReportFormat::Csv)
    } else {
        proof {
            reveal_strlit("");
        }
        Err(KbOptError::ConfigError(concat3("Unknown report format: ", format, "")))
    }
}

/// The solver versions that can run.
#[derive(Debug, Clone, Copy, PartialEq, Eq, Structural)]
pub enum SolverVersion {
    V1,
}

/// The solver of a validated version: the first one runs, the second and
/// third are refused as not implemented yet.
pub fn solver_for_version(version: &str) -> (r: Result<SolverVersion, KbOptError>)
    requires
        version@ == "v1"@ || version@ == "v2"@ || version@ == "v3"@,
    ensures
        version@ == "v1"@ ==> r == Ok::<SolverVersion, KbOptError>(SolverVersion::V1),
        version@ == "v2"@ ==> (r matches Err(KbOptError::ConfigError(s)) && s@ == "v2 is not implemented yet"@),
        version@ == "v3"@ ==> (r matches Err(KbOptError::ConfigError(s)) && s@ == "v3 is not implemented yet"@),
{
    proof {
        reveal_strlit("v1");
        reveal_strlit("v2");
        reveal_strlit("v3");
        reveal_strlit("");
        assert("v1"@[1] != "v2"@[1]);
        assert("v1"@[1] != "v3"@[1]);
        assert("v2"@[1] != "v3"@[1]);
    }
    if str_eq(version, "v1") {
        Ok(SolverVersion::V1)
    } else if str_eq(version, "v2") {
        Err(KbOptError::ConfigError(concat3("v2 is not implemented yet", "", "")))
    } else {
        Err(KbOptError::ConfigError(concat3("v3 is not implemented yet", "", "")))
    }
}

} // verus!
