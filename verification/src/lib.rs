//! Scaffolds and checks test files derived from branching-tree
//! specifications.
//!
//! A specification tree of conditions ("when/given ...") and actions
//! ("it ...") is translated into a high-level representation of a test
//! file, from which source text is emitted.  Independently, an existing
//! test file can be checked against the same specification: the
//! expected structure is derived from the tree, the actual structure is
//! extracted from the file, and the differences are reported as typed
//! violations, most of which can be repaired automatically.
//!
//! The pieces, in pipeline order: [`tree`] holds the specification as
//! plain values; [`slug`] names things; [`translator`] derives the
//! [`hir`] representation whose shape [`model`] pins down; [`emitter`]
//! turns it into text; [`extractor`] reduces a real file to the
//! structural [`facts`]; [`checker`] compares and reports
//! [`violation`]s; [`fixer`] repairs; [`laws`] ties generation and
//! checking together.  [`scaffold`] and [`check`] are the entry points,
//! configured through [`config`] and [`cli`].

pub mod chars;
pub mod check;
pub mod checker;
pub mod cli;
pub mod comment;
pub mod config;
pub mod emitter;
pub mod extractor;
pub mod facts;
pub mod fixer;
pub mod hir;
pub mod laws;
pub mod model;
pub mod scaffold;
pub mod slug;
pub mod translator;
pub mod tree;
pub mod violation;
