//! Keyboard statistics logging and keyboard layout analysis.
//!
//! The crate holds the verified core of two programs: a key logger that
//! counts key presses and exports the counts, and an analyzer that reads
//! those counts and searches for a keyboard layout that minimises the
//! expected typing time.
pub mod text;
pub mod constants;
pub mod keys;
pub mod error;
pub mod config;
pub mod counts;
pub mod csv_reader;
pub mod stats;
pub mod geometry;
pub mod arrows;
pub mod model;
pub mod keylogger;
pub mod colors;
pub mod vis;
pub mod opt_config;
pub mod v2;
pub mod layer_constraints;
pub mod baseline;
