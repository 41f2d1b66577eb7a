//! The conformance checker: expected structure against extracted facts.
//!
//! Checking proceeds in the order the violations are reported: a
//! missing container ends the check; otherwise missing helpers, then
//! missing tests and wrong markers, then at most one order violation.

use vstd::prelude::*;

use crate::facts::{
    decl_views, first_marked, helper_names, info_names, lemma_helper_names_push,
    lemma_test_infos_push, test_infos, Decl, DeclKind, Document, DocumentV,
};
use crate::hir::{str_views, Attribute, Root, TestFunction};
use crate::violation::{kinds_of, Violation, ViolationKind, ViolationKindV};

verus! {

/// Whether `a` is an order-preserving subsequence of `b`: the members
/// of `a` occur in `b`, in order, with gaps allowed.
pub open spec fn is_subsequence(a: Seq<Seq<char>>, b: Seq<Seq<char>>) -> bool
    decreases b.len(),
{
    if a.len() == 0 {
        true
    } else if b.len() == 0 {
        false
    } else {
        (a[0] == b[0] && is_subsequence(a.drop_first(), b.drop_first())) || is_subsequence(
            a,
            b.drop_first(),
        )
    }
}

/// Dropping the head of the shorter sequence preserves being a
/// subsequence.
pub proof fn lemma_subseq_drop_a(a: Seq<Seq<char>>, b: Seq<Seq<char>>)
    requires
        is_subsequence(a, b),
        a.len() > 0,
    ensures
        is_subsequence(a.drop_first(), b),
    decreases b.len(),
{
    if a.len() > 0 && b.len() > 0 {
        if a[0] == b[0] && is_subsequence(a.drop_first(), b.drop_first()) {
            if a.drop_first().len() > 0 {
                assert(is_subsequence(a.drop_first(), b));
            }
        } else {
            lemma_subseq_drop_a(a, b.drop_first());
        }
    }
}

/// The greedy step is safe: when the heads agree, a subsequence
/// embedding exists that consumes both heads.
pub proof fn lemma_subseq_greedy(a: Seq<Seq<char>>, b: Seq<Seq<char>>)
    requires
        is_subsequence(a, b),
        a.len() > 0,
        b.len() > 0,
        a[0] == b[0],
    ensures
        is_subsequence(a.drop_first(), b.drop_first()),
{
    if !(a[0] == b[0] && is_subsequence(a.drop_first(), b.drop_first())) {
        lemma_subseq_drop_a(a, b.drop_first());
    }
}

/// Every sequence is a subsequence of itself.
pub proof fn lemma_subseq_refl(a: Seq<Seq<char>>)
    ensures
        is_subsequence(a, a),
    decreases a.len(),
{
    if a.len() > 0 {
        lemma_subseq_refl(a.drop_first());
    }
}

/// A lone member is a subsequence of anything it was appended to.
pub proof fn lemma_subseq_single_last(b: Seq<Seq<char>>, x: Seq<char>)
    ensures
        is_subsequence(seq![x], b.push(x)),
    decreases b.len(),
{
    if b.len() == 0 {
        reveal_with_fuel(is_subsequence, 3);
        assert(b.push(x)[0] == x);
        assert(seq![x].drop_first() =~= Seq::<Seq<char>>::empty());
        assert(b.push(x).drop_first() =~= Seq::<Seq<char>>::empty());
        assert(is_subsequence(seq![x], b.push(x)));
    } else {
        lemma_subseq_single_last(b.drop_first(), x);
        assert(b.push(x).drop_first() =~= b.drop_first().push(x));
        assert(is_subsequence(seq![x], b.push(x)));
    }
}

/// Appending to the longer sequence preserves being a subsequence.
pub proof fn lemma_subseq_push_right(a: Seq<Seq<char>>, b: Seq<Seq<char>>, x: Seq<char>)
    requires
        is_subsequence(a, b),
    ensures
        is_subsequence(a, b.push(x)),
    decreases b.len(),
{
    if a.len() == 0 {
    } else {
        assert(b.len() > 0);
        assert(b.push(x)[0] == b[0]);
        assert(b.push(x).drop_first() =~= b.drop_first().push(x));
        if a[0] == b[0] && is_subsequence(a.drop_first(), b.drop_first()) {
            lemma_subseq_push_right(a.drop_first(), b.drop_first(), x);
        } else {
            lemma_subseq_push_right(a, b.drop_first(), x);
        }
        assert(is_subsequence(a, b.push(x)));
    }
}

/// Appending the same member to both sequences preserves being a
/// subsequence.
pub proof fn lemma_subseq_push_both(a: Seq<Seq<char>>, b: Seq<Seq<char>>, x: Seq<char>)
    requires
        is_subsequence(a, b),
    ensures
        is_subsequence(a.push(x), b.push(x)),
    decreases b.len(),
{
    if a.len() == 0 {
        assert(a.push(x) =~= seq![x]);
        lemma_subseq_single_last(b, x);
    } else {
        assert(b.len() > 0);
        assert(a.push(x)[0] == a[0]);
        assert(b.push(x)[0] == b[0]);
        assert(a.push(x).drop_first() =~= a.drop_first().push(x));
        assert(b.push(x).drop_first() =~= b.drop_first().push(x));
        if a[0] == b[0] && is_subsequence(a.drop_first(), b.drop_first()) {
            lemma_subseq_push_both(a.drop_first(), b.drop_first(), x);
        } else {
            lemma_subseq_push_both(a, b.drop_first(), x);
        }
        assert(is_subsequence(a.push(x), b.push(x)));
    }
}

/// A sequence is a subsequence of itself followed by anything.
pub proof fn lemma_subseq_prefix(a: Seq<Seq<char>>, b: Seq<Seq<char>>)
    ensures
        is_subsequence(a, a + b),
    decreases a.len(),
{
    if a.len() == 0 {
        assert(is_subsequence(a, a + b));
    } else {
        lemma_subseq_prefix(a.drop_first(), b);
        assert((a + b)[0] == a[0]);
        assert((a + b).drop_first() =~= a.drop_first() + b);
        assert(is_subsequence(a, a + b));
    }
}

/// Whether the first sequence of names occurs in order within the
/// second, by the greedy scan: each time the current candidate equals
/// the current target the target advances; non-matching candidates are
/// skipped.
pub fn subsequence_matches(exp: &Vec<String>, act: &Vec<String>) -> (r: bool)
    ensures
        r == is_subsequence(str_views(exp@), str_views(act@)),
{
    let ghost e = str_views(exp@);
    let ghost a = str_views(act@);
    proof {
        assert(e.skip(0) =~= e);
        assert(a.skip(0) =~= a);
    }
    let mut ei: usize = 0;
    let mut ai: usize = 0;
    while ai < act.len() && ei < exp.len()
        invariant
            0 <= ei <= exp@.len(),
            0 <= ai <= act@.len(),
            e == str_views(exp@),
            a == str_views(act@),
            is_subsequence(e.skip(ei as int), a.skip(ai as int)) == is_subsequence(e, a),
        decreases act@.len() - ai,
    {
        let ghost er = e.skip(ei as int);
        let ghost ar = a.skip(ai as int);
        proof {
            assert(er[0] == e[ei as int] && er.len() == e.len() - ei);
            assert(ar[0] == a[ai as int] && ar.len() == a.len() - ai);
            assert(er.drop_first() =~= e.skip(ei + 1 as int));
            assert(ar.drop_first() =~= a.skip(ai + 1 as int));
        }
        if exp[ei] == act[ai] {
            proof {
                if is_subsequence(er, ar) {
                    lemma_subseq_greedy(er, ar);
                }
                assert(is_subsequence(er.drop_first(), ar.drop_first()) ==> is_subsequence(
                    er,
                    ar,
                ));
            }
            ei = ei + 1;
        } else {
            proof {
                if is_subsequence(er, ar) {
                    assert(is_subsequence(er, ar.drop_first()));
                }
            }
        }
        ai = ai + 1;
    }
    proof {
        if ei == exp@.len() {
            assert(e.skip(ei as int) =~= Seq::<Seq<char>>::empty());
            assert(is_subsequence(e.skip(ei as int), a.skip(ai as int)));
        } else {
            assert(ai == act@.len());
            assert(a.skip(ai as int) =~= Seq::<Seq<char>>::empty());
            assert(e.skip(ei as int).len() > 0);
            assert(!is_subsequence(e.skip(ei as int), a.skip(ai as int)));
        }
    }
    ei == exp.len()
}

/// The names of the helpers a translated root calls for.
pub open spec fn hir_helper_names(root: Root) -> Seq<Seq<char>> {
    root.helpers@.map_values(|h: crate::hir::HelperFunction| h.name@)
}

/// Whether a test function carries the expected-failure marker.
pub open spec fn hir_should_panic(t: TestFunction) -> bool {
    t.attributes@.contains(Attribute::ShouldPanic)
}

/// The name and expected-failure marker of each test a translated root
/// calls for, in order.
pub open spec fn hir_test_infos(root: Root) -> Seq<(Seq<char>, bool)> {
    root.module.tests@.map_values(|t: TestFunction| (t.name@, hir_should_panic(t)))
}

/// The violations for expected helpers absent from the actual helper
/// names, in expected order.
pub open spec fn missing_helper_kinds(exp: Seq<Seq<char>>, act: Seq<Seq<char>>) -> Seq<
    ViolationKindV,
>
    decreases exp.len(),
{
    if exp.len() == 0 {
        Seq::empty()
    } else {
        missing_helper_kinds(exp.drop_last(), act) + (if act.contains(exp.last()) {
            Seq::<ViolationKindV>::empty()
        } else {
            seq![ViolationKindV::HelperFunctionMissing(exp.last())]
        })
    }
}

/// The violation one expected test contributes: missing if its name is
/// absent; a marker mismatch if it must fail but the first actual unit
/// of its name carries no failure marker.  An actual unit carrying an
/// unexpected failure marker is never flagged.
pub open spec fn test_viol_kind(exp: (Seq<char>, bool), act: Seq<(Seq<char>, bool)>) -> Seq<
    ViolationKindV,
> {
    if !info_names(act).contains(exp.0) {
        seq![ViolationKindV::TestFunctionMissing(exp.0)]
    } else if exp.1 && !first_marked(act, exp.0) {
        seq![
            ViolationKindV::TestAttributeIncorrect {
                function: exp.0,
                expected: "#[should_panic]"@,
                found: "none"@,
            },
        ]
    } else {
        Seq::empty()
    }
}

/// The violations of all expected tests, in expected order.
pub open spec fn test_viol_kinds(exp: Seq<(Seq<char>, bool)>, act: Seq<(Seq<char>, bool)>) -> Seq<
    ViolationKindV,
>
    decreases exp.len(),
{
    if exp.len() == 0 {
        Seq::empty()
    } else {
        test_viol_kinds(exp.drop_last(), act) + test_viol_kind(exp.last(), act)
    }
}

/// The at most one order violation: reported exactly when the expected
/// test names are not an order-preserving subsequence of the actual
/// test names.
pub open spec fn order_kinds(exp: Seq<Seq<char>>, act: Seq<Seq<char>>) -> Seq<ViolationKindV> {
    if is_subsequence(exp, act) {
        Seq::empty()
    } else {
        seq![ViolationKindV::TestOrderIncorrect]
    }
}

/// Every violation of a check of `root` against `doc`: nothing but a
/// missing container when the container is absent; otherwise the
/// missing helpers (unless skipped), the per-test violations, and the
/// order violation if any.
pub open spec fn violation_kinds_spec(root: Root, doc: DocumentV, skip_helpers: bool) -> Seq<
    ViolationKindV,
> {
    if !doc.container_present {
        seq![ViolationKindV::TestModuleMissing]
    } else {
        (if skip_helpers {
            Seq::<ViolationKindV>::empty()
        } else {
            missing_helper_kinds(hir_helper_names(root), helper_names(doc.top))
        }) + test_viol_kinds(hir_test_infos(root), test_infos(doc.decls)) + order_kinds(
            info_names(hir_test_infos(root)),
            info_names(test_infos(doc.decls)),
        )
    }
}

/// Whether a list of strings holds one with this view.
pub fn contains_str(v: &Vec<String>, s: &String) -> (r: bool)
    ensures
        r == str_views(v@).contains(s@),
{
    let mut i: usize = 0;
    while i < v.len()
        invariant
            0 <= i <= v@.len(),
            forall|j: int| 0 <= j < i ==> str_views(v@)[j] != s@,
        decreases v@.len() - i,
    {
        if v[i] == *s {
            proof {
                assert(str_views(v@)[i as int] == s@);
            }
            return true;
        }
        i = i + 1;
    }
    proof {
        if str_views(v@).contains(s@) {
            let j = choose|j: int| 0 <= j < str_views(v@).len() && str_views(v@)[j] == s@;
            assert(str_views(v@)[j] != s@);
        }
    }
    false
}

/// The spec-level values of a list of name/marker pairs.
pub open spec fn info_views(ps: Seq<(String, bool)>) -> Seq<(Seq<char>, bool)> {
    ps.map_values(|p: (String, bool)| (p.0@, p.1))
}

/// Whether an actual test of this name exists.
pub fn infos_contain_name(infos: &Vec<(String, bool)>, name: &String) -> (r: bool)
    ensures
        r == info_names(info_views(infos@)).contains(name@),
{
    let mut i: usize = 0;
    while i < infos.len()
        invariant
            0 <= i <= infos@.len(),
            forall|j: int| 0 <= j < i ==> info_names(info_views(infos@))[j] != name@,
        decreases infos@.len() - i,
    {
        if infos[i].0 == *name {
            proof {
                assert(info_names(info_views(infos@))[i as int] == name@);
            }
            return true;
        }
        i = i + 1;
    }
    proof {
        if info_names(info_views(infos@)).contains(name@) {
            let j = choose|j: int|
                0 <= j < info_names(info_views(infos@)).len() && info_names(info_views(infos@))[j]
                    == name@;
            assert(info_names(info_views(infos@))[j] != name@);
        }
    }
    false
}

/// Whether the first actual test of this name carries the failure
/// marker.
pub fn infos_first_marked(infos: &Vec<(String, bool)>, name: &String) -> (r: bool)
    ensures
        r == first_marked(info_views(infos@), name@),
{
    let ghost full = info_views(infos@);
    proof {
        assert(full.skip(0) =~= full);
    }
    let mut i: usize = 0;
    while i < infos.len()
        invariant
            0 <= i <= infos@.len(),
            full == info_views(infos@),
            first_marked(full, name@) == first_marked(full.skip(i as int), name@),
        decreases infos@.len() - i,
    {
        proof {
            assert(full.skip(i as int)[0] == full[i as int]);
            assert(full.skip(i as int).drop_first() =~= full.skip(i + 1 as int));
        }
        if infos[i].0 == *name {
            return infos[i].1;
        }
        i = i + 1;
    }
    proof {
        assert(full.skip(full.len() as int) =~= Seq::<(Seq<char>, bool)>::empty());
    }
    false
}

/// Whether a test function carries the expected-failure marker.
pub fn has_should_panic_attr(t: &TestFunction) -> (r: bool)
    ensures
        r == hir_should_panic(*t),
{
    let mut i: usize = 0;
    while i < t.attributes.len()
        invariant
            0 <= i <= t.attributes@.len(),
            forall|j: int| 0 <= j < i ==> t.attributes@[j] != Attribute::ShouldPanic,
        decreases t.attributes@.len() - i,
    {
        if t.attributes[i] == Attribute::ShouldPanic {
            return true;
        }
        i = i + 1;
    }
    proof {
        if t.attributes@.contains(Attribute::ShouldPanic) {
            let j = choose|j: int|
                0 <= j < t.attributes@.len() && t.attributes@[j] == Attribute::ShouldPanic;
            assert(t.attributes@[j] != Attribute::ShouldPanic);
        }
    }
    false
}

/// The names of the helper-like declarations of a document's top.
pub fn collect_helper_names(ds: &Vec<Decl>) -> (r: Vec<String>)
    ensures
        str_views(r@) == helper_names(decl_views(ds@)),
{
    let mut out: Vec<String> = Vec::new();
    let mut i: usize = 0;
    proof {
        assert(decl_views(ds@.take(0)) =~= Seq::<crate::facts::DeclV>::empty());
        assert(str_views(out@) =~= helper_names(decl_views(ds@.take(0))));
    }
    while i < ds.len()
        invariant
            0 <= i <= ds@.len(),
            str_views(out@) == helper_names(decl_views(ds@.take(i as int))),
        decreases ds@.len() - i,
    {
        proof {
            assert(ds@.take(i + 1 as int) =~= ds@.take(i as int).push(ds@[i as int]));
            assert(decl_views(ds@.take(i + 1 as int)) =~= decl_views(ds@.take(i as int)).push(
                ds@[i as int]@,
            ));
            lemma_helper_names_push(decl_views(ds@.take(i as int)), ds@[i as int]@);
        }
        match ds[i].kind {
            DeclKind::Helper => {
                out.push(ds[i].name.clone());
                proof {
                    assert(str_views(out@) =~= helper_names(decl_views(ds@.take(i + 1 as int))));
                }
            },
            _ => {
                proof {
                    assert(str_views(out@) =~= helper_names(decl_views(ds@.take(i + 1 as int))));
                }
            },
        }
        i = i + 1;
    }
    proof {
        assert(ds@.take(ds@.len() as int) =~= ds@);
    }
    out
}

/// The name/marker pairs of the test-like declarations of a document's
/// container.
pub fn collect_test_infos(ds: &Vec<Decl>) -> (r: Vec<(String, bool)>)
    ensures
        info_views(r@) == test_infos(decl_views(ds@)),
{
    let mut out: Vec<(String, bool)> = Vec::new();
    let mut i: usize = 0;
    proof {
        assert(decl_views(ds@.take(0)) =~= Seq::<crate::facts::DeclV>::empty());
        assert(info_views(out@) =~= test_infos(decl_views(ds@.take(0))));
    }
    while i < ds.len()
        invariant
            0 <= i <= ds@.len(),
            info_views(out@) == test_infos(decl_views(ds@.take(i as int))),
        decreases ds@.len() - i,
    {
        proof {
            assert(ds@.take(i + 1 as int) =~= ds@.take(i as int).push(ds@[i as int]));
            assert(decl_views(ds@.take(i + 1 as int)) =~= decl_views(ds@.take(i as int)).push(
                ds@[i as int]@,
            ));
            lemma_test_infos_push(decl_views(ds@.take(i as int)), ds@[i as int]@);
        }
        match ds[i].kind {
            DeclKind::Test => {
                out.push((ds[i].name.clone(), ds[i].should_panic));
                proof {
                    assert(info_views(out@) =~= test_infos(decl_views(ds@.take(i + 1 as int))));
                }
            },
            _ => {
                proof {
                    assert(info_views(out@) =~= test_infos(decl_views(ds@.take(i + 1 as int))));
                }
            },
        }
        i = i + 1;
    }
    proof {
        assert(ds@.take(ds@.len() as int) =~= ds@);
    }
    out
}

/// The names of a list of name/marker pairs.
pub fn info_name_strings(infos: &Vec<(String, bool)>) -> (r: Vec<String>)
    ensures
        str_views(r@) == info_names(info_views(infos@)),
{
    let mut out: Vec<String> = Vec::new();
    let mut i: usize = 0;
    while i < infos.len()
        invariant
            0 <= i <= infos@.len(),
            out@.len() == i,
            forall|j: int| 0 <= j < i ==> (#[trigger] out@[j])@ == infos@[j].0@,
        decreases infos@.len() - i,
    {
        out.push(infos[i].0.clone());
        i = i + 1;
    }
    proof {
        assert(str_views(out@) =~= info_names(info_views(infos@)));
    }
    out
}

/// Check that a document structurally matches a translated root.
///
/// The result holds, in order: a missing-container violation alone when
/// the container is absent; otherwise one violation per missing helper
/// (unless helpers are skipped), one per missing test or wrong marker,
/// and at most one order violation, as [`violation_kinds_spec`] says.
/// Every violation names the checked file and no line.
pub fn check_structural_match(
    root: &Root,
    doc: &Document,
    file_path: &str,
    skip_helpers: bool,
) -> (r: Vec<Violation>)
    ensures
        kinds_of(r@) == violation_kinds_spec(*root, doc@, skip_helpers),
        forall|i: int|
            0 <= i < r@.len() ==> (#[trigger] r@[i]).file_path@ == file_path@ && r@[i].line
                is None,
{
    let mut out: Vec<Violation> = Vec::new();
    if !doc.container_present {
        out.push(
            Violation::new(ViolationKind::TestModuleMissing, String::from_str(file_path)),
        );
        proof {
            assert(kinds_of(out@) =~= violation_kinds_spec(*root, doc@, skip_helpers));
        }
        return out;
    }
    let ghost helper_part = if skip_helpers {
        Seq::<ViolationKindV>::empty()
    } else {
        missing_helper_kinds(hir_helper_names(*root), helper_names(doc@.top))
    };
    if !skip_helpers {
        let actual_helpers = collect_helper_names(&doc.top);
        let mut i: usize = 0;
        proof {
            assert(hir_helper_names(*root).take(0) =~= Seq::<Seq<char>>::empty());
            assert(kinds_of(out@) =~= missing_helper_kinds(
                hir_helper_names(*root).take(0),
                helper_names(doc@.top),
            ));
        }
        while i < root.helpers.len()
            invariant
                0 <= i <= root.helpers@.len(),
                doc@.container_present,
                str_views(actual_helpers@) == helper_names(doc@.top),
                kinds_of(out@) == missing_helper_kinds(
                    hir_helper_names(*root).take(i as int),
                    helper_names(doc@.top),
                ),
                forall|j: int|
                    0 <= j < out@.len() ==> (#[trigger] out@[j]).file_path@ == file_path@
                        && out@[j].line is None,
            decreases root.helpers@.len() - i,
        {
            let ghost exp = hir_helper_names(*root);
            proof {
                assert(exp.take(i + 1 as int).drop_last() =~= exp.take(i as int));
                assert(exp.take(i + 1 as int).last() == exp[i as int]);
                assert(exp[i as int] == root.helpers@[i as int].name@);
            }
            if !contains_str(&actual_helpers, &root.helpers[i].name) {
                out.push(
                    Violation::new(
                        ViolationKind::HelperFunctionMissing(root.helpers[i].name.clone()),
                        String::from_str(file_path),
                    ),
                );
            }
            proof {
                assert(kinds_of(out@) =~= missing_helper_kinds(
                    exp.take(i + 1 as int),
                    helper_names(doc@.top),
                ));
            }
            i = i + 1;
        }
        proof {
            assert(hir_helper_names(*root).take(root.helpers@.len() as int) =~= hir_helper_names(
                *root,
            ));
            assert(kinds_of(out@) == helper_part);
        }
    }
    // Tests: missing names and wrong markers.
    let actual_infos = collect_test_infos(&doc.decls);
    let ghost act = test_infos(doc@.decls);
    let mut i: usize = 0;
    proof {
        assert(hir_test_infos(*root).take(0) =~= Seq::<(Seq<char>, bool)>::empty());
        assert(kinds_of(out@) =~= helper_part + test_viol_kinds(
            hir_test_infos(*root).take(0),
            act,
        ));
    }
    while i < root.module.tests.len()
        invariant
            0 <= i <= root.module.tests@.len(),
            doc@.container_present,
            info_views(actual_infos@) == test_infos(doc@.decls),
            act == test_infos(doc@.decls),
            helper_part == (if skip_helpers {
                Seq::<ViolationKindV>::empty()
            } else {
                missing_helper_kinds(hir_helper_names(*root), helper_names(doc@.top))
            }),
            kinds_of(out@) == helper_part + test_viol_kinds(
                hir_test_infos(*root).take(i as int),
                act,
            ),
            forall|j: int|
                0 <= j < out@.len() ==> (#[trigger] out@[j]).file_path@ == file_path@
                    && out@[j].line is None,
        decreases root.module.tests@.len() - i,
    {
        let ghost exp = hir_test_infos(*root);
        proof {
            assert(exp.take(i + 1 as int).drop_last() =~= exp.take(i as int));
            assert(exp.take(i + 1 as int).last() == exp[i as int]);
            assert(exp[i as int] == (root.module.tests@[i as int].name@, hir_should_panic(
                root.module.tests@[i as int],
            )));
        }
        let t = &root.module.tests[i];
        if !infos_contain_name(&actual_infos, &t.name) {
            out.push(
                Violation::new(
                    ViolationKind::TestFunctionMissing(t.name.clone()),
                    String::from_str(file_path),
                ),
            );
        } else if has_should_panic_attr(t) && !infos_first_marked(&actual_infos, &t.name) {
            out.push(
                Violation::new(
                    ViolationKind::TestAttributeIncorrect {
                        function: t.name.clone(),
                        expected: String::from_str("#[should_panic]"),
                        found: String::from_str("none"),
                    },
                    String::from_str(file_path),
                ),
            );
        }
        proof {
            let tv1 = test_viol_kinds(exp.take(i + 1 as int), act);
            let tv0 = test_viol_kinds(exp.take(i as int), act);
            assert(tv1 == tv0 + test_viol_kind(exp[i as int], act));
            assert(kinds_of(out@) =~= (helper_part + tv0) + test_viol_kind(exp[i as int], act));
            assert(kinds_of(out@) =~= helper_part + tv1);
        }
        i = i + 1;
    }
    proof {
        assert(hir_test_infos(*root).take(root.module.tests@.len() as int) =~= hir_test_infos(
            *root,
        ));
    }
    // Order: one violation for the whole file, if any.
    let mut expected_names: Vec<String> = Vec::new();
    let mut j: usize = 0;
    while j < root.module.tests.len()
        invariant
            0 <= j <= root.module.tests@.len(),
            expected_names@.len() == j,
            forall|k: int|
                0 <= k < j ==> (#[trigger] expected_names@[k])@ == root.module.tests@[k].name@,
        decreases root.module.tests@.len() - j,
    {
        expected_names.push(root.module.tests[j].name.clone());
        j = j + 1;
    }
    proof {
        assert(str_views(expected_names@) =~= info_names(hir_test_infos(*root)));
    }
    let actual_names = info_name_strings(&actual_infos);
    if !subsequence_matches(&expected_names, &actual_names) {
        out.push(
            Violation::new(ViolationKind::TestOrderIncorrect, String::from_str(file_path)),
        );
    }
    proof {
        assert(kinds_of(out@) =~= violation_kinds_spec(*root, doc@, skip_helpers));
    }
    out
}

} // verus!
