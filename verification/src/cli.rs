//! The command-line surface, as plain values.
//!
//! Argument parsing, file globbing and terminal output live outside the
//! library; these types carry what was asked for, and turn it into the
//! pipeline's configuration.

use vstd::prelude::*;

use crate::config::Config;
use crate::translator::clone_strings;

verus! {

/// The target language.
#[derive(Debug, Clone, Copy, PartialEq, Eq, Structural)]
pub enum Backend {
    /// The Solidity backend.
    Solidity,
    /// The Rust backend.
    Rust,
    /// The Noir backend.
    Noir,
}

impl Default for Backend {
    /// The default target language.
    fn default() -> (r: Self)
        ensures
            r == Backend::Solidity,
    {
        Backend::Solidity
    }
}

/// What a generation run was asked to do.
#[derive(Debug, Clone)]
pub struct Scaffold {
    /// The tree files to use as specification.
    pub files: Vec<String>,
    /// The pragma of emitted Solidity sources.
    pub solidity_version: Option<String>,
    /// Whether emitted Solidity tests skip under the test runner.
    pub with_vm_skip: bool,
    /// Whether to skip helpers for conditions.
    pub skip_modifiers: bool,
    /// Whether to capitalize and punctuate descriptions.
    pub format_descriptions: bool,
    /// The target language.
    pub backend: Backend,
}

impl Default for Scaffold {
    /// A generation run over nothing, with every switch off.
    fn default() -> (r: Self)
        ensures
            r.files@.len() == 0,
            r.solidity_version is None,
            !r.with_vm_skip,
            !r.skip_modifiers,
            !r.format_descriptions,
            r.backend == Backend::Solidity,
    {
        Scaffold {
            files: Vec::new(),
            solidity_version: None,
            with_vm_skip: false,
            skip_modifiers: false,
            format_descriptions: false,
            backend: Backend::Solidity,
        }
    }
}

impl Scaffold {
    /// The pipeline configuration this run asks for.
    pub fn config(&self) -> (r: Config)
        ensures
            r.files@ == self.files@,
            r.skip_helpers == self.skip_modifiers,
            r.format_descriptions == self.format_descriptions,
    {
        Config {
            files: clone_strings(&self.files),
            skip_helpers: self.skip_modifiers,
            format_descriptions: self.format_descriptions,
        }
    }
}

/// What a checking run was asked to do.
#[derive(Debug, Clone)]
pub struct Check {
    /// The tree files to use as specification; test file names are
    /// inferred from them.
    pub files: Vec<String>,
    /// Whether to repair what can be repaired.
    pub fix: bool,
    /// Whether repaired output goes to standard output instead of the
    /// files.
    pub stdout: bool,
    /// Whether to skip helpers for conditions.
    pub skip_modifiers: bool,
    /// Whether to capitalize and punctuate descriptions.
    pub format_descriptions: bool,
    /// The target language.
    pub backend: Backend,
}

impl Default for Check {
    /// A checking run over nothing, with every switch off.
    fn default() -> (r: Self)
        ensures
            r.files@.len() == 0,
            !r.fix,
            !r.stdout,
            !r.skip_modifiers,
            !r.format_descriptions,
            r.backend == Backend::Solidity,
    {
        Check {
            files: Vec::new(),
            fix: false,
            stdout: false,
            skip_modifiers: false,
            format_descriptions: false,
            backend: Backend::Solidity,
        }
    }
}

impl Check {
    /// The pipeline configuration this run asks for.
    pub fn config(&self) -> (r: Config)
        ensures
            r.files@ == self.files@,
            r.skip_helpers == self.skip_modifiers,
            r.format_descriptions == self.format_descriptions,
    {
        Config {
            files: clone_strings(&self.files),
            skip_helpers: self.skip_modifiers,
            format_descriptions: self.format_descriptions,
        }
    }
}

/// The commands the tool offers.
#[derive(Debug, Clone)]
pub enum Commands {
    /// Generate test files from specifications.
    Scaffold(Scaffold),
    /// Check test files against specifications.
    Check(Check),
}

impl Default for Commands {
    /// The default command: generation over nothing.
    fn default() -> (r: Self)
        ensures
            r matches Commands::Scaffold(s) && s.files@.len() == 0,
    {
        Commands::Scaffold(Scaffold::default())
    }
}

/// The whole invocation.
#[derive(Debug, Clone)]
pub struct Cli {
    /// The command asked for.
    pub command: Commands,
}

impl Default for Cli {
    /// The default invocation: generation over nothing.
    fn default() -> (r: Self)
        ensures
            r.command matches Commands::Scaffold(s) && s.files@.len() == 0,
    {
        Cli { command: Commands::default() }
    }
}

} // verus!
