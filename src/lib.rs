//! Heuristic extraction of a login/password pair from lines of scraped text.
//!
//! The scan itself is verified in [`scan`]; the token patterns are matched by
//! `fancy_regex` behind the trusted wrapper in [`pattern`]; [`laws`] states
//! what holds of every input.

pub mod extractor;
pub mod laws;
pub mod pattern;
pub mod scan;

pub use extractor::extract;
pub use scan::select_credentials;
