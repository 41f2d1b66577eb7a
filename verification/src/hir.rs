//! The high-level representation of a generated test file.
//!
//! A translated specification always has the same shape: one context
//! struct, one helper function per first-seen condition identifier
//! (unless helpers are skipped), and one test module holding one test
//! function per action, in pre-order.

use vstd::prelude::*;

use crate::model::{expected_helpers, expected_tests, HelperModel, TestModel};
use crate::tree::{Span, SpecNode};

verus! {

/// The views of a list of strings.
pub open spec fn str_views(ss: Seq<String>) -> Seq<Seq<char>> {
    ss.map_values(|s: String| s@)
}

/// The texts of a list of comments.
pub open spec fn comment_views(cs: Seq<Comment>) -> Seq<Seq<char>> {
    cs.map_values(|c: Comment| c.text@)
}

/// The model a helper function realizes; an absent doc or span reads
/// as an empty title and a zero span.
pub open spec fn hf_model(h: HelperFunction) -> HelperModel {
    HelperModel {
        name: h.name@,
        title: match h.doc {
            Some(d) => d@,
            None => Seq::empty(),
        },
        span: match h.span {
            Some(s) => s,
            None => Span { start: 0, end: 0 },
        },
    }
}

/// The models of a list of helper functions.
pub open spec fn hf_models(hs: Seq<HelperFunction>) -> Seq<HelperModel> {
    hs.map_values(|h: HelperFunction| hf_model(h))
}

/// Whether one test function realizes one test model: same name, the
/// expected markers, the enclosing helper names, one comment per model
/// comment with the given formatting flag, and the action's span.
pub open spec fn test_matches(t: TestFunction, m: TestModel, fmt: bool) -> bool {
    &&& t.name@ == m.name
    &&& t.attributes@ == (if m.should_panic {
        seq![Attribute::Test, Attribute::ShouldPanic]
    } else {
        seq![Attribute::Test]
    })
    &&& str_views(t.helpers@) == m.helpers
    &&& t.comments@.len() == m.comments.len()
    &&& (forall|j: int|
        0 <= j < m.comments.len() ==> (#[trigger] t.comments@[j]).text@ == m.comments[j]
            && t.comments@[j].format == fmt)
    &&& t.span == Some(m.span)
}

/// Whether a list of test functions realizes a list of test models,
/// one to one and in order.
pub open spec fn tests_match(ts: Seq<TestFunction>, ms: Seq<TestModel>, fmt: bool) -> bool {
    &&& ts.len() == ms.len()
    &&& forall|i: int| 0 <= i < ms.len() ==> test_matches(#[trigger] ts[i], ms[i], fmt)
}

/// Whether a translated root realizes exactly what the tree calls for:
/// the conventional context struct, the deduplicated helpers (none when
/// skipped), and the tests in pre-order under the conventional module
/// name.
pub open spec fn root_matches(root: Root, tree: SpecNode, skip_helpers: bool, fmt: bool) -> bool {
    &&& root.context.name@ == "TestContext"@
    &&& root.context.doc matches Some(d) && d@ == "Context for test conditions"@
    &&& hf_models(root.helpers@) == (if skip_helpers {
        Seq::<HelperModel>::empty()
    } else {
        expected_helpers(tree)
    })
    &&& (forall|i: int|
        0 <= i < root.helpers@.len() ==> (#[trigger] root.helpers@[i]).doc is Some
            && root.helpers@[i].span is Some)
    &&& root.module.name@ == "tests"@
    &&& tests_match(root.module.tests@, expected_tests(tree), fmt)
}

/// A node of the high-level representation.
#[derive(Debug)]
pub enum Hir {
    /// The whole file.
    Root(Root),
    /// The shared test-state holder.
    Context(ContextStruct),
    /// A helper function set up by a condition.
    Helper(HelperFunction),
    /// The module holding the test functions.
    TestModule(TestModule),
    /// A single test function.
    TestFunction(TestFunction),
    /// A comment inside a test function.
    Comment(Comment),
}

impl Hir {
    /// Whether this node is a root.
    pub fn is_root(&self) -> (r: bool)
        ensures
            r == (self is Root),
    {
        match self {
            Hir::Root(_) => true,
            _ => false,
        }
    }

    /// Whether this node is a test module.
    pub fn is_test_module(&self) -> (r: bool)
        ensures
            r == (self is TestModule),
    {
        match self {
            Hir::TestModule(_) => true,
            _ => false,
        }
    }

    /// Whether this node is a test function.
    pub fn is_test_function(&self) -> (r: bool)
        ensures
            r == (self is TestFunction),
    {
        match self {
            Hir::TestFunction(_) => true,
            _ => false,
        }
    }

    /// Whether this node is a helper function.
    pub fn is_helper(&self) -> (r: bool)
        ensures
            r == (self is Helper),
    {
        match self {
            Hir::Helper(_) => true,
            _ => false,
        }
    }
}

/// The root of the representation: the file's fixed structure.
#[derive(Debug, Clone, PartialEq, Eq)]
pub struct Root {
    /// The context struct, always emitted first.
    pub context: ContextStruct,
    /// The helper functions, one per first-seen condition identifier.
    pub helpers: Vec<HelperFunction>,
    /// The single test module.
    pub module: TestModule,
}

impl Default for Root {
    /// A root with the conventional context struct, no helpers and an
    /// empty test module.
    fn default() -> (r: Self)
        ensures
            r.context.name@ == "TestContext"@,
            r.helpers@.len() == 0,
            r.module.name@ == "tests"@,
            r.module.tests@.len() == 0,
    {
        Root { context: ContextStruct::default(), helpers: Vec::new(), module: TestModule::default() }
    }
}

impl Default for Hir {
    /// The default node: an empty root.
    fn default() -> (r: Self)
        ensures
            r is Root,
    {
        Hir::Root(Root::default())
    }
}

/// The struct passing shared state between helpers and tests.
#[derive(Debug, Clone, PartialEq, Eq)]
pub struct ContextStruct {
    /// The struct's name.
    pub name: String,
    /// An optional documentation comment.
    pub doc: Option<String>,
}

impl Default for ContextStruct {
    /// The conventional context struct.
    fn default() -> (r: Self)
        ensures
            r.name@ == "TestContext"@,
            r.doc matches Some(d) && d@ == "Context for test conditions"@,
    {
        ContextStruct {
            name: String::from_str("TestContext"),
            doc: Some(String::from_str("Context for test conditions")),
        }
    }
}

/// A helper function corresponding to one condition identifier.
#[derive(Debug, Clone, PartialEq, Eq)]
pub struct HelperFunction {
    /// The function's name: the condition's identifier.
    pub name: String,
    /// The title of the condition it came from.
    pub doc: Option<String>,
    /// Where that condition stands in the tree file.
    pub span: Option<Span>,
}

/// The module holding the test functions.
#[derive(Debug, Clone, PartialEq, Eq)]
pub struct TestModule {
    /// The module's name.
    pub name: String,
    /// The test functions, in specification order.
    pub tests: Vec<TestFunction>,
}

impl Default for TestModule {
    /// The conventional, empty test module.
    fn default() -> (r: Self)
        ensures
            r.name@ == "tests"@,
            r.tests@.len() == 0,
    {
        TestModule { name: String::from_str("tests"), tests: Vec::new() }
    }
}

/// A marker on a test function.
#[derive(Debug, Clone, Copy, PartialEq, Eq, Structural)]
pub enum Attribute {
    /// The marker that makes a function a test.
    Test,
    /// The marker that a test is expected to fail.
    ShouldPanic,
}

/// A single test function.
#[derive(Debug, Clone, PartialEq, Eq)]
pub struct TestFunction {
    /// The function's name.
    pub name: String,
    /// Its markers, in emission order.
    pub attributes: Vec<Attribute>,
    /// The identifiers of the conditions enclosing its action.
    pub helpers: Vec<String>,
    /// The comments in its body.
    pub comments: Vec<Comment>,
    /// Where its action stands in the tree file.
    pub span: Option<Span>,
}

/// A comment in a test function's body.
#[derive(Debug, Clone, PartialEq, Eq)]
pub struct Comment {
    /// The comment's text.
    pub text: String,
    /// Whether the text is capitalized and punctuated when emitted.
    pub format: bool,
}

/// A visitor over the high-level representation: one method per node
/// kind, dispatched by exhaustive matching.
pub trait Visitor: Sized {
    /// The result type of visiting a node.
    type Output;

    /// Visit a node, dispatching on its kind.
    fn visit(&mut self, hir: &Hir) -> Self::Output {
        match hir {
            Hir::Root(root) => self.visit_root(root),
            Hir::Context(context) => self.visit_context(context),
            Hir::Helper(helper) => self.visit_helper(helper),
            Hir::TestModule(module) => self.visit_test_module(module),
            Hir::TestFunction(func) => self.visit_test_function(func),
            Hir::Comment(comment) => self.visit_comment(comment),
        }
    }

    /// Visit a root node.
    fn visit_root(&mut self, root: &Root) -> Self::Output;

    /// Visit a context struct.
    fn visit_context(&mut self, context: &ContextStruct) -> Self::Output;

    /// Visit a helper function.
    fn visit_helper(&mut self, helper: &HelperFunction) -> Self::Output;

    /// Visit a test module.
    fn visit_test_module(&mut self, module: &TestModule) -> Self::Output;

    /// Visit a test function.
    fn visit_test_function(&mut self, func: &TestFunction) -> Self::Output;

    /// Visit a comment.
    fn visit_comment(&mut self, comment: &Comment) -> Self::Output;
}

} // verus!
