//! Settings of the analyzer and their validation.
use crate::constants::{COLUMN_STAGGER, MAX_ROW, MIN_ROW, ORTHO, ROW_STAGGER};
use crate::error::KbOptError;
use crate::text::{concat3, decimal_chars, decimal_string, str_eq};
use vstd::prelude::*;

verus! {

/// Settings of the analyzer.
#[derive(Debug, Clone)]
pub struct Config {
    pub solver: SolverConfig,
    pub v1: Option<V1Config>,
    pub v2: Option<V2Config>,
    pub v3: Option<V3Config>,
}

/// Settings of the solver that every version shares.
#[derive(Debug, Clone)]
pub struct SolverConfig {
    /// `"v1"`, `"v2"` or `"v3"`.
    pub version: String,
    /// Directory of the figures.
    pub output_dir: String,
    /// `"row-stagger"`, `"ortho"` or `"column-stagger"`.
    pub geometry: String,
    /// Directory of the key frequency files.
    pub csv_dir: String,
    /// Place the function keys too.
    pub include_fkeys: bool,
    /// Place the digit keys too (else they stay in the number row).
    pub include_digits: bool,
    /// Number of key rows of the geometry.
    pub max_rows: usize,
    /// Align the left edges of all rows.
    pub align_left_edge: bool,
    /// Align the right edges of all rows.
    pub align_right_edge: bool,
}

/// Settings of version 1 of the solver.
#[derive(Debug, Clone)]
pub struct V1Config {
    /// Settings of the digit block.
    pub digit_cluster: DigitClusterConfig,
}

/// Settings of the digit block.
#[derive(Debug, Clone)]
pub struct DigitClusterConfig {
    pub enforce_sequence: bool,
    pub enforce_horizontal: bool,
    pub allowed_rows: Vec<usize>,
}

impl Default for DigitClusterConfig {
    /// The digits in order and in one row, in the fourth row from the bottom.
    fn default() -> (r: Self)
        ensures
            r.enforce_sequence,
            r.enforce_horizontal,
            r.allowed_rows@ == seq![4usize],
    {
        let mut rows: Vec<usize> = Vec::new();
        rows.push(4);
        assert(rows@ =~= seq![4usize]);
        DigitClusterConfig { enforce_sequence: true, enforce_horizontal: true, allowed_rows: rows }
    }
}

/// Settings of version 2 of the solver.
#[derive(Debug, Clone)]
pub struct V2Config {
    pub max_layers: usize,
}

impl Default for V2Config {
    fn default() -> (r: Self)
        ensures
            r.max_layers == 1,
    {
        V2Config { max_layers: 1 }
    }
}

/// Settings of version 3 of the solver.
#[derive(Debug, Clone)]
pub struct V3Config {
    pub max_layers: usize,
}

impl Default for V3Config {
    fn default() -> (r: Self)
        ensures
            r.max_layers == 1,
    {
        V3Config { max_layers: 1 }
    }
}

impl Default for Config {
    /// Empty names, six rows, nothing extra placed, no version settings.
    fn default() -> (r: Self)
        ensures
            r.solver.version@.len() == 0,
            r.solver.output_dir@.len() == 0,
            r.solver.geometry@.len() == 0,
            r.solver.csv_dir@.len() == 0,
            !r.solver.include_fkeys,
            !r.solver.include_digits,
            r.solver.max_rows == 6,
            !r.solver.align_left_edge,
            !r.solver.align_right_edge,
            r.v1 is None,
            r.v2 is None,
            r.v3 is None,
    {
        Config {
            solver: SolverConfig {
                version: String::new(),
                output_dir: String::new(),
                geometry: String::new(),
                csv_dir: String::new(),
                include_fkeys: false,
                include_digits: false,
                max_rows: 6,
                align_left_edge: false,
                align_right_edge: false,
            },
            v1: None,
            v2: None,
            v3: None,
        }
    }
}

/// The problem that version 1 settings have, if any.
pub open spec fn v1_problem(c: Config) -> Option<Seq<char>> {
    if c.solver.include_fkeys && c.solver.max_rows < MIN_ROW + 2 {
        Some("include_fkeys is true, but max_rows < "@ + decimal_chars((MIN_ROW + 2) as nat))
    } else if c.v1 is Some && c.solver.include_digits && c.v1->0.digit_cluster.allowed_rows@.len()
        == 0 {
        Some("digit_cluster.allowed_rows cannot be empty when include_digits is true"@)
    } else {
        None
    }
}

/// Whether `g` names a geometry.
pub open spec fn is_geometry_name(g: Seq<char>) -> bool {
    g == ROW_STAGGER@ || g == ORTHO@ || g == COLUMN_STAGGER@
}

/// The message of the first problem of the settings, if any: the row
/// count, then the solver version and its settings, then the geometry.
pub open spec fn config_problem(c: Config) -> Option<Seq<char>> {
    let s = c.solver;
    if s.max_rows < MIN_ROW || s.max_rows > MAX_ROW {
        Some(
            "max_rows must be between "@ + decimal_chars(MIN_ROW as nat) + " and "@
                + decimal_chars(MAX_ROW as nat) + " (currently), got "@ + decimal_chars(
                s.max_rows as nat,
            ),
        )
    } else if s.version@ == "v1"@ && v1_problem(c) is Some {
        v1_problem(c)
    } else if s.version@ == "v2"@ {
        Some("v2 is under development"@)
    } else if s.version@ == "v3"@ {
        Some("v3 is under development"@)
    } else if s.version@ != "v1"@ {
        Some("Invalid solver version: "@ + s.version@ + ". Must be 'v1', 'v2', or 'v3'"@)
    } else if !is_geometry_name(s.geometry@) {
        Some(
            "Invalid geometry: "@ + s.geometry@
                + ". Must be 'row-stagger', 'ortho', or 'column-stagger'"@,
        )
    } else {
        None
    }
}

impl Config {
    /// Checks the settings: the row count, the solver version (only
    /// version 1 is available) and the geometry name.
    pub fn validate(&self) -> (r: Result<(), KbOptError>)
        ensures
            match config_problem(*self) {
                None => r is Ok,
                Some(m) => r matches Err(KbOptError::ConfigError(s)) && s@ == m,
            },
    {
        let max_rows = self.solver.max_rows;
        if max_rows < MIN_ROW || max_rows > MAX_ROW {
            let a = concat3(
                "max_rows must be between ",
                decimal_string(MIN_ROW as u64).as_str(),
                " and ",
            );
            let b = concat3(
                a.as_str(),
                decimal_string(MAX_ROW as u64).as_str(),
                " (currently), got ",
            );
            let m = concat3(b.as_str(), decimal_string(max_rows as u64).as_str(), "");
            proof {
                reveal_strlit("");
            }
            assert(m@ =~= "max_rows must be between "@ + decimal_chars(MIN_ROW as nat) + " and "@
                + decimal_chars(MAX_ROW as nat) + " (currently), got "@ + decimal_chars(
                max_rows as nat,
            ));
            return Err(KbOptError::ConfigError(m));
        }
        let version = self.solver.version.as_str();
        proof {
            reveal_strlit("v1");
            reveal_strlit("v2");
            reveal_strlit("v3");
            assert("v1"@[1] != "v2"@[1]);
            assert("v1"@[1] != "v3"@[1]);
            assert("v2"@[1] != "v3"@[1]);
        }
        if str_eq(version, "v1") {
            match self.validate_v1_config() {
                Ok(()) => {},
                Err(e) => {
                    return Err(e);
                },
            }
        } else if str_eq(version, "v2") {
            return self.validate_v2_config();
        } else if str_eq(version, "v3") {
            return self.validate_v3_config();
        } else {
            let m = concat3(
                "Invalid solver version: ",
                version,
                ". Must be 'v1', 'v2', or 'v3'",
            );
            return Err(KbOptError::ConfigError(m));
        }
        let geometry = self.solver.geometry.as_str();
        if str_eq(geometry, ROW_STAGGER) || str_eq(geometry, ORTHO) || str_eq(
            geometry,
            COLUMN_STAGGER,
        ) {
            Ok(())
        } else {
            let m = concat3(
                "Invalid geometry: ",
                geometry,
                ". Must be 'row-stagger', 'ortho', or 'column-stagger'",
            );
            Err(KbOptError::ConfigError(m))
        }
    }

    /// Version 1 has one layer: the function keys need two rows more than
    /// the letters, and the digit block needs a row when digits are placed.
    fn validate_v1_config(&self) -> (r: Result<(), KbOptError>)
        ensures
            match v1_problem(*self) {
                None => r is Ok,
                Some(m) => r matches Err(KbOptError::ConfigError(s)) && s@ == m,
            },
    {
        if self.solver.include_fkeys && self.solver.max_rows < MIN_ROW + 2 {
            let m = concat3(
                "include_fkeys is true, but max_rows < ",
                decimal_string((MIN_ROW + 2) as u64).as_str(),
                "",
            );
            proof {
                reveal_strlit("");
            }
            assert(m@ =~= "include_fkeys is true, but max_rows < "@ + decimal_chars(
                (MIN_ROW + 2) as nat,
            ));
            return Err(KbOptError::ConfigError(m));
        }
        match &self.v1 {
            Some(v1config) => {
                if self.solver.include_digits && v1config.digit_cluster.allowed_rows.len() == 0 {
                    return Err(
                        KbOptError::ConfigError(
                            String::from_str(
                                "digit_cluster.allowed_rows cannot be empty when include_digits is true",
                            ),
                        ),
                    );
                }
            },
            None => {},
        }
        Ok(())
    }

    /// Version 2 is not available yet.
    fn validate_v2_config(&self) -> (r: Result<(), KbOptError>)
        ensures
            r matches Err(KbOptError::ConfigError(s)) && s@ == "v2 is under development"@,
    {
        Err(KbOptError::ConfigError(String::from_str("v2 is under development")))
    }

    /// Version 3 is not available yet.
    fn validate_v3_config(&self) -> (r: Result<(), KbOptError>)
        ensures
            r matches Err(KbOptError::ConfigError(s)) && s@ == "v3 is under development"@,
    {
        Err(KbOptError::ConfigError(String::from_str("v3 is under development")))
    }
}

} // verus!
