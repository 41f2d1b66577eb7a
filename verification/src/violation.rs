//! The typed violations a check can find.

use vstd::prelude::*;

use crate::chars::{chars_to_string, dec_chars, str_to_chars, usize_to_chars};

verus! {

/// The kind of a violation.
#[derive(Debug, Clone)]
pub enum ViolationKind {
    /// The checked test file does not exist.
    RustFileMissing,
    /// The checked test file could not be parsed; the payload is the
    /// parser's message.
    RustFileInvalid(String),
    /// The canonical test container is missing.
    TestModuleMissing,
    /// A test function named by the specification is missing.
    TestFunctionMissing(String),
    /// A helper function named by the specification is missing.
    HelperFunctionMissing(String),
    /// A test function carries the wrong markers.
    TestAttributeIncorrect {
        /// The function's name.
        function: String,
        /// The marker the specification calls for.
        expected: String,
        /// The marker found.
        found: String,
    },
    /// The test functions do not follow the specification's order.
    TestOrderIncorrect,
}

/// The spec-level value of a violation kind.
pub ghost enum ViolationKindV {
    /// The checked test file does not exist.
    RustFileMissing,
    /// The checked test file could not be parsed.
    RustFileInvalid(Seq<char>),
    /// The canonical test container is missing.
    TestModuleMissing,
    /// A test function named by the specification is missing.
    TestFunctionMissing(Seq<char>),
    /// A helper function named by the specification is missing.
    HelperFunctionMissing(Seq<char>),
    /// A test function carries the wrong markers.
    TestAttributeIncorrect {
        /// The function's name.
        function: Seq<char>,
        /// The marker the specification calls for.
        expected: Seq<char>,
        /// The marker found.
        found: Seq<char>,
    },
    /// The test functions do not follow the specification's order.
    TestOrderIncorrect,
}

impl View for ViolationKind {
    type V = ViolationKindV;

    open spec fn view(&self) -> ViolationKindV {
        match self {
            ViolationKind::RustFileMissing => ViolationKindV::RustFileMissing,
            ViolationKind::RustFileInvalid(e) => ViolationKindV::RustFileInvalid(e@),
            ViolationKind::TestModuleMissing => ViolationKindV::TestModuleMissing,
            ViolationKind::TestFunctionMissing(n) => ViolationKindV::TestFunctionMissing(n@),
            ViolationKind::HelperFunctionMissing(n) => ViolationKindV::HelperFunctionMissing(n@),
            ViolationKind::TestAttributeIncorrect { function, expected, found } => {
                ViolationKindV::TestAttributeIncorrect {
                    function: function@,
                    expected: expected@,
                    found: found@,
                }
            },
            ViolationKind::TestOrderIncorrect => ViolationKindV::TestOrderIncorrect,
        }
    }
}

/// Whether a violation of this kind can be repaired by the fixer.
/// Only a missing or unreadable file cannot.
pub open spec fn fixable(k: ViolationKindV) -> bool {
    match k {
        ViolationKindV::RustFileMissing => false,
        ViolationKindV::RustFileInvalid(_) => false,
        _ => true,
    }
}

/// What a violation kind reads as.
pub open spec fn kind_text(k: ViolationKindV) -> Seq<char> {
    match k {
        ViolationKindV::RustFileMissing => "Rust test file is missing"@,
        ViolationKindV::RustFileInvalid(e) => "Rust file could not be parsed: "@ + e,
        ViolationKindV::TestModuleMissing => "Test module (#[cfg(test)] mod tests) is missing"@,
        ViolationKindV::TestFunctionMissing(n) => "Test function '"@ + n + "' is missing"@,
        ViolationKindV::HelperFunctionMissing(n) => "Helper function '"@ + n + "' is missing"@,
        ViolationKindV::TestAttributeIncorrect { function, expected, found } => "Test function '"@
            + function + "' has incorrect attributes: expected "@ + expected + ", found "@ + found,
        ViolationKindV::TestOrderIncorrect => "Test function order does not match spec order"@,
    }
}

impl ViolationKind {
    /// Whether this violation can be repaired by the fixer.
    pub fn is_fixable(&self) -> (r: bool)
        ensures
            r == fixable(self@),
    {
        match self {
            ViolationKind::RustFileMissing => false,
            ViolationKind::RustFileInvalid(_) => false,
            _ => true,
        }
    }

    /// The violation, in words.
    pub fn describe(&self) -> (r: String)
        ensures
            r@ == kind_text(self@),
    {
        match self {
            ViolationKind::RustFileMissing => String::from_str("Rust test file is missing"),
            ViolationKind::RustFileInvalid(e) => {
                let mut s = String::from_str("Rust file could not be parsed: ");
                s.append(e.as_str());
                s
            },
            ViolationKind::TestModuleMissing => String::from_str(
                "Test module (#[cfg(test)] mod tests) is missing",
            ),
            ViolationKind::TestFunctionMissing(n) => {
                let mut s = String::from_str("Test function '");
                s.append(n.as_str());
                s.append("' is missing");
                s
            },
            ViolationKind::HelperFunctionMissing(n) => {
                let mut s = String::from_str("Helper function '");
                s.append(n.as_str());
                s.append("' is missing");
                s
            },
            ViolationKind::TestAttributeIncorrect { function, expected, found } => {
                let mut s = String::from_str("Test function '");
                s.append(function.as_str());
                s.append("' has incorrect attributes: expected ");
                s.append(expected.as_str());
                s.append(", found ");
                s.append(found.as_str());
                s
            },
            ViolationKind::TestOrderIncorrect => String::from_str(
                "Test function order does not match spec order",
            ),
        }
    }
}

/// How many of these violation kinds can be repaired.
pub open spec fn spec_count_fixable(ks: Seq<ViolationKindV>) -> nat
    decreases ks.len(),
{
    if ks.len() == 0 {
        0
    } else {
        spec_count_fixable(ks.drop_last()) + (if fixable(ks.last()) {
            1nat
        } else {
            0nat
        })
    }
}

/// Count the violations the fixer can repair.
pub fn count_fixable(vs: &Vec<Violation>) -> (r: usize)
    ensures
        r == spec_count_fixable(kinds_of(vs@)),
{
    let mut n: usize = 0;
    let mut i: usize = 0;
    proof {
        assert(kinds_of(vs@.take(0)) =~= Seq::<ViolationKindV>::empty());
    }
    while i < vs.len()
        invariant
            0 <= i <= vs@.len(),
            n <= i,
            n == spec_count_fixable(kinds_of(vs@.take(i as int))),
        decreases vs@.len() - i,
    {
        proof {
            assert(vs@.take(i + 1 as int) =~= vs@.take(i as int).push(vs@[i as int]));
            let k1 = kinds_of(vs@.take(i + 1 as int));
            assert(k1 =~= kinds_of(vs@.take(i as int)).push(vs@[i as int].kind@));
            assert(k1.drop_last() =~= kinds_of(vs@.take(i as int)));
            assert(k1.last() == vs@[i as int].kind@);
        }
        if vs[i].kind.is_fixable() {
            n = n + 1;
        }
        i = i + 1;
    }
    proof {
        assert(vs@.take(vs@.len() as int) =~= vs@);
    }
    n
}

/// A violation found while checking one file.
#[derive(Debug, Clone)]
pub struct Violation {
    /// The kind of violation.
    pub kind: ViolationKind,
    /// The file it was found in.
    pub file_path: String,
    /// The line it was found at, where known.
    pub line: Option<usize>,
}

/// The spec-level value of a violation.
pub ghost struct ViolationV {
    /// The kind of violation.
    pub kind: ViolationKindV,
    /// The file it was found in.
    pub file_path: Seq<char>,
    /// The line it was found at, where known.
    pub line: Option<usize>,
}

impl View for Violation {
    type V = ViolationV;

    open spec fn view(&self) -> ViolationV {
        ViolationV { kind: self.kind@, file_path: self.file_path@, line: self.line }
    }
}

/// The spec-level kinds of a list of violations.
pub open spec fn kinds_of(vs: Seq<Violation>) -> Seq<ViolationKindV> {
    vs.map_values(|v: Violation| v.kind@)
}

/// What a violation reads as: the file, the line where known, and the
/// kind.
pub open spec fn violation_text(v: ViolationV) -> Seq<char> {
    match v.line {
        Some(l) => v.file_path + ":"@ + dec_chars(l as nat) + ": "@ + kind_text(v.kind),
        None => v.file_path + ": "@ + kind_text(v.kind),
    }
}

impl Violation {
    /// Make a violation without a line.
    pub fn new(kind: ViolationKind, file_path: String) -> (r: Self)
        ensures
            r.kind == kind,
            r.file_path == file_path,
            r.line is None,
    {
        Violation { kind, file_path, line: None }
    }

    /// Make a violation at a line.
    pub fn with_line(kind: ViolationKind, file_path: String, line: usize) -> (r: Self)
        ensures
            r.kind == kind,
            r.file_path == file_path,
            r.line == Some(line),
    {
        Violation { kind, file_path, line: Some(line) }
    }

    /// The violation, in words, with its file context.
    pub fn describe(&self) -> (r: String)
        ensures
            r@ == violation_text(self@),
    {
        let mut s = self.file_path.clone();
        match &self.line {
            Some(l) => {
                s.append(":");
                let digits = usize_to_chars(*l);
                let rendered = chars_to_string(&digits);
                s.append(rendered.as_str());
                s.append(": ");
            },
            None => {
                s.append(": ");
            },
        }
        let k = self.kind.describe();
        s.append(k.as_str());
        s
    }
}

} // verus!
