//! The specification tree consumed by the pipeline.
//!
//! A tree is produced by an external parser; here it is held as plain
//! values: a root, branch nodes (conditions), leaf nodes (actions) and
//! free-text descriptions attached to actions.

use vstd::prelude::*;

verus! {

/// The position of a node in the tree file, as character offsets.
#[derive(Debug, Clone, Copy, PartialEq, Eq, Structural)]
pub struct Span {
    /// The offset of the first character of the node.
    pub start: usize,
    /// The offset one past the last character of the node.
    pub end: usize,
}

impl Span {
    /// Make a span from its two offsets.
    pub fn new(start: usize, end: usize) -> (r: Span)
        ensures
            r.start == start,
            r.end == end,
    {
        Span { start, end }
    }
}

/// A node of the specification tree.
#[derive(Debug)]
pub enum SpecNode {
    /// The root of a tree; there is exactly one per specification.
    Root {
        /// The nodes under the root.
        children: Vec<SpecNode>,
    },
    /// A branch: a condition under which its children hold.
    Condition {
        /// The condition's title, e.g. "when the amount is zero".
        title: String,
        /// Where the condition stands in the tree file.
        span: Span,
        /// The nodes under the condition.
        children: Vec<SpecNode>,
    },
    /// A leaf: an expected behaviour.
    Action {
        /// The action's title, e.g. "it should revert".
        title: String,
        /// Where the action stands in the tree file.
        span: Span,
        /// Further description nodes of this action.
        children: Vec<SpecNode>,
    },
    /// Free text describing the enclosing action further.
    ActionDescription {
        /// The description text.
        text: String,
        /// Where the description stands in the tree file.
        span: Span,
    },
}

impl SpecNode {
    /// Whether this node is the root.
    pub fn is_root(&self) -> (r: bool)
        ensures
            r == (self is Root),
    {
        match self {
            SpecNode::Root { .. } => true,
            _ => false,
        }
    }
}

} // verus!
