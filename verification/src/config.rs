//! Configuration shared by generation and checking.

use vstd::prelude::*;

verus! {

/// Configuration for generating and checking test files.
#[derive(Debug, Clone)]
pub struct Config {
    /// The tree files being processed.
    pub files: Vec<String>,
    /// Skip generation and checking of helper functions for conditions.
    pub skip_helpers: bool,
    /// Capitalize and punctuate descriptions.
    pub format_descriptions: bool,
}

impl Config {
    /// A configuration with default values.
    pub fn new() -> (r: Self)
        ensures
            r.files@.len() == 0,
            !r.skip_helpers,
            !r.format_descriptions,
    {
        Config { files: Vec::new(), skip_helpers: false, format_descriptions: false }
    }
}

impl Default for Config {
    /// The default configuration: no files, nothing skipped, no
    /// formatting.
    fn default() -> (r: Self)
        ensures
            r.files@.len() == 0,
            !r.skip_helpers,
            !r.format_descriptions,
    {
        Config::new()
    }
}

} // verus!
