//! The structural facts of a real test file.
//!
//! A checked file is reduced to a structural document: whether the
//! canonical container is present, the declarations above it, and the
//! declarations inside it, in file order.  Checking and repair work on
//! these plain values; how they are extracted from source text is the
//! extractor's business.

use vstd::prelude::*;

use crate::hir::str_views;

verus! {

/// What kind of declaration a document entry is.
#[derive(Debug, Clone, Copy, PartialEq, Eq, Structural)]
pub enum DeclKind {
    /// A function carrying the test marker.
    Test,
    /// A function without the test marker.
    Helper,
    /// The shared test-state holder.
    Context,
    /// Anything else.
    Other,
}

/// One declaration of a document.
#[derive(Debug, Clone)]
pub struct Decl {
    /// What kind of declaration this is.
    pub kind: DeclKind,
    /// Its name.
    pub name: String,
    /// Whether it carries the expected-failure marker.
    pub should_panic: bool,
    /// The comment texts of its body, where known.
    pub comments: Vec<String>,
}

/// The spec-level value of one declaration.
#[verifier::ext_equal]
pub ghost struct DeclV {
    /// What kind of declaration this is.
    pub kind: DeclKind,
    /// Its name.
    pub name: Seq<char>,
    /// Whether it carries the expected-failure marker.
    pub should_panic: bool,
    /// The comment texts of its body.
    pub comments: Seq<Seq<char>>,
}

impl View for Decl {
    type V = DeclV;

    open spec fn view(&self) -> DeclV {
        DeclV {
            kind: self.kind,
            name: self.name@,
            should_panic: self.should_panic,
            comments: str_views(self.comments@),
        }
    }
}

/// The spec-level values of a list of declarations.
pub open spec fn decl_views(ds: Seq<Decl>) -> Seq<DeclV> {
    ds.map_values(|d: Decl| d.view())
}

/// A test file as a structural document.
#[derive(Debug, Clone)]
pub struct Document {
    /// Whether the canonical container is present.
    pub container_present: bool,
    /// The declarations above the container, in file order.
    pub top: Vec<Decl>,
    /// The declarations inside the container, in file order.
    pub decls: Vec<Decl>,
}

/// The spec-level value of a document.
#[verifier::ext_equal]
pub ghost struct DocumentV {
    /// Whether the canonical container is present.
    pub container_present: bool,
    /// The declarations above the container.
    pub top: Seq<DeclV>,
    /// The declarations inside the container.
    pub decls: Seq<DeclV>,
}

impl View for Document {
    type V = DocumentV;

    open spec fn view(&self) -> DocumentV {
        DocumentV {
            container_present: self.container_present,
            top: decl_views(self.top@),
            decls: decl_views(self.decls@),
        }
    }
}

/// The names of the helper-like declarations: functions above the
/// container that carry no test marker.
pub open spec fn helper_names(ds: Seq<DeclV>) -> Seq<Seq<char>>
    decreases ds.len(),
{
    if ds.len() == 0 {
        Seq::empty()
    } else {
        (if ds[0].kind is Helper {
            seq![ds[0].name]
        } else {
            Seq::<Seq<char>>::empty()
        }) + helper_names(ds.drop_first())
    }
}

/// The test-like declarations, as pairs of name and expected-failure
/// marker, in file order.
pub open spec fn test_infos(ds: Seq<DeclV>) -> Seq<(Seq<char>, bool)>
    decreases ds.len(),
{
    if ds.len() == 0 {
        Seq::empty()
    } else {
        (if ds[0].kind is Test {
            seq![(ds[0].name, ds[0].should_panic)]
        } else {
            Seq::<(Seq<char>, bool)>::empty()
        }) + test_infos(ds.drop_first())
    }
}

/// The names of a list of declarations, in order.
pub open spec fn decl_names(ds: Seq<DeclV>) -> Seq<Seq<char>> {
    ds.map_values(|d: DeclV| d.name)
}

/// The names of a list of test infos.
pub open spec fn info_names(infos: Seq<(Seq<char>, bool)>) -> Seq<Seq<char>> {
    infos.map_values(|p: (Seq<char>, bool)| p.0)
}

/// Whether the first test info with the given name carries the
/// expected-failure marker; false when none has the name.
pub open spec fn first_marked(infos: Seq<(Seq<char>, bool)>, name: Seq<char>) -> bool
    decreases infos.len(),
{
    if infos.len() == 0 {
        false
    } else if infos[0].0 == name {
        infos[0].1
    } else {
        first_marked(infos.drop_first(), name)
    }
}

/// Collecting helper names over a list grows declaration by
/// declaration.
pub proof fn lemma_helper_names_push(ds: Seq<DeclV>, d: DeclV)
    ensures
        helper_names(ds.push(d)) == helper_names(ds) + (if d.kind is Helper {
            seq![d.name]
        } else {
            Seq::<Seq<char>>::empty()
        }),
    decreases ds.len(),
{
    if ds.len() == 0 {
        reveal_with_fuel(helper_names, 3);
        assert(ds.push(d)[0] == d);
        assert(ds.push(d).drop_first() =~= Seq::<DeclV>::empty());
        assert(helpers_push_goal(ds, d));
    } else {
        assert(ds.push(d)[0] == ds[0]);
        assert(ds.push(d).drop_first() =~= ds.drop_first().push(d));
        lemma_helper_names_push(ds.drop_first(), d);
        assert(helpers_push_goal(ds, d));
    }
}

/// The statement of [`lemma_helper_names_push`], as one predicate.
spec fn helpers_push_goal(ds: Seq<DeclV>, d: DeclV) -> bool {
    helper_names(ds.push(d)) =~= helper_names(ds) + (if d.kind is Helper {
        seq![d.name]
    } else {
        Seq::<Seq<char>>::empty()
    })
}

/// Collecting test infos over a list grows declaration by declaration.
pub proof fn lemma_test_infos_push(ds: Seq<DeclV>, d: DeclV)
    ensures
        test_infos(ds.push(d)) == test_infos(ds) + (if d.kind is Test {
            seq![(d.name, d.should_panic)]
        } else {
            Seq::<(Seq<char>, bool)>::empty()
        }),
    decreases ds.len(),
{
    if ds.len() == 0 {
        reveal_with_fuel(test_infos, 3);
        assert(ds.push(d)[0] == d);
        assert(ds.push(d).drop_first() =~= Seq::<DeclV>::empty());
        assert(infos_push_goal(ds, d));
    } else {
        assert(ds.push(d)[0] == ds[0]);
        assert(ds.push(d).drop_first() =~= ds.drop_first().push(d));
        lemma_test_infos_push(ds.drop_first(), d);
        assert(infos_push_goal(ds, d));
    }
}

/// The statement of [`lemma_test_infos_push`], as one predicate.
spec fn infos_push_goal(ds: Seq<DeclV>, d: DeclV) -> bool {
    test_infos(ds.push(d)) =~= test_infos(ds) + (if d.kind is Test {
        seq![(d.name, d.should_panic)]
    } else {
        Seq::<(Seq<char>, bool)>::empty()
    })
}

} // verus!
