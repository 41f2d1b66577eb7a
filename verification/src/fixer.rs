//! The two-pass repair of a checked document.
//!
//! Content fixes come first: a missing container has the whole document
//! regenerated; missing helpers and tests are inserted at the end of
//! their containers; a wrong marker is corrected in place.  Only then
//! is the order repaired, because reordering presupposes that every
//! expected unit exists: the expected tests are placed first, in
//! expected order, and the remaining declarations keep their relative
//! order.  The passes may not be swapped.

use vstd::prelude::*;

use crate::checker::{
    collect_helper_names, collect_test_infos, contains_str, has_should_panic_attr,
    hir_should_panic, hir_test_infos, info_name_strings, infos_contain_name, infos_first_marked,
    is_subsequence, subsequence_matches, test_viol_kind, violation_kinds_spec, hir_helper_names,
};
use crate::facts::{
    decl_names, decl_views, first_marked, helper_names, info_names, lemma_helper_names_push,
    lemma_test_infos_push, test_infos, Decl, DeclKind, DeclV, Document, DocumentV,
};
use crate::hir::{comment_views, str_views, Comment, ContextStruct, HelperFunction, Root, TestFunction};
use crate::translator::clone_strings;

verus! {

/// Whether all members of a sequence of names differ.
pub open spec fn distinct_seqs(s: Seq<Seq<char>>) -> bool {
    forall|i: int, j: int| 0 <= i < j < s.len() ==> s[i] != s[j]
}

/// The declaration a generated file carries for its context struct.
pub open spec fn context_decl(c: ContextStruct) -> DeclV {
    DeclV {
        kind: DeclKind::Context,
        name: c.name@,
        should_panic: false,
        comments: match c.doc {
            Some(d) => seq![d@],
            None => Seq::empty(),
        },
    }
}

/// The declaration a generated file carries for one helper.
pub open spec fn decl_of_helper(h: HelperFunction) -> DeclV {
    DeclV {
        kind: DeclKind::Helper,
        name: h.name@,
        should_panic: false,
        comments: match h.doc {
            Some(d) => seq![d@],
            None => Seq::empty(),
        },
    }
}

/// The declaration a generated file carries for one test.
pub open spec fn decl_of_test(t: TestFunction) -> DeclV {
    DeclV {
        kind: DeclKind::Test,
        name: t.name@,
        should_panic: hir_should_panic(t),
        comments: comment_views(t.comments@),
    }
}

/// The declarations a generated file carries for its helpers.
pub open spec fn helper_decls(hs: Seq<HelperFunction>) -> Seq<DeclV> {
    hs.map_values(|h: HelperFunction| decl_of_helper(h))
}

/// The declarations a generated file carries for its tests.
pub open spec fn test_decls(ts: Seq<TestFunction>) -> Seq<DeclV> {
    ts.map_values(|t: TestFunction| decl_of_test(t))
}

/// The structural document a generated file carries: the container is
/// present, the context struct and the helpers stand above it, and the
/// tests stand inside it, in order.
pub open spec fn spec_doc_of_root(root: Root) -> DocumentV {
    DocumentV {
        container_present: true,
        top: seq![context_decl(root.context)] + helper_decls(root.helpers@),
        decls: test_decls(root.module.tests@),
    }
}

/// The comment texts of a test function.
fn comment_texts(t: &TestFunction) -> (r: Vec<String>)
    ensures
        str_views(r@) == comment_views(t.comments@),
{
    let mut out: Vec<String> = Vec::new();
    let mut i: usize = 0;
    while i < t.comments.len()
        invariant
            0 <= i <= t.comments@.len(),
            out@.len() == i,
            forall|j: int| 0 <= j < i ==> (#[trigger] out@[j])@ == t.comments@[j].text@,
        decreases t.comments@.len() - i,
    {
        out.push(t.comments[i].text.clone());
        i = i + 1;
    }
    proof {
        assert(str_views(out@) =~= comment_views(t.comments@));
    }
    out
}

/// The test declaration of one expected test, as inserted on repair.
fn decl_for_test(t: &TestFunction, should_panic: bool) -> (r: Decl)
    ensures
        r@.kind is Test,
        r@.name == t.name@,
        r@.should_panic == should_panic,
        r@.comments == comment_views(t.comments@),
{
    Decl {
        kind: DeclKind::Test,
        name: t.name.clone(),
        should_panic,
        comments: comment_texts(t),
    }
}

/// Derive the structural document of a translated file, as generation
/// would lay it out.
pub fn document_from_root(root: &Root) -> (r: Document)
    ensures
        r@ == spec_doc_of_root(*root),
{
    let mut top: Vec<Decl> = Vec::new();
    let ctx_comments: Vec<String> = match &root.context.doc {
        Some(d) => vec![d.clone()],
        None => Vec::new(),
    };
    top.push(
        Decl {
            kind: DeclKind::Context,
            name: root.context.name.clone(),
            should_panic: false,
            comments: ctx_comments,
        },
    );
    proof {
        assert(decl_views(top@) =~~= seq![context_decl(root.context)]);
    }
    let mut i: usize = 0;
    while i < root.helpers.len()
        invariant
            0 <= i <= root.helpers@.len(),
            decl_views(top@) == seq![context_decl(root.context)] + helper_decls(
                root.helpers@.take(i as int),
            ),
        decreases root.helpers@.len() - i,
    {
        let h = &root.helpers[i];
        let h_comments: Vec<String> = match &h.doc {
            Some(d) => vec![d.clone()],
            None => Vec::new(),
        };
        let ghost before = decl_views(top@);
        top.push(
            Decl {
                kind: DeclKind::Helper,
                name: h.name.clone(),
                should_panic: false,
                comments: h_comments,
            },
        );
        proof {
            assert(root.helpers@.take(i + 1 as int) =~= root.helpers@.take(i as int).push(
                root.helpers@[i as int],
            ));
            assert(top@.last()@ =~~= decl_of_helper(root.helpers@[i as int]));
            assert(decl_views(top@) =~= before.push(decl_of_helper(root.helpers@[i as int])));
            assert(helper_decls(root.helpers@.take(i + 1 as int)) =~= helper_decls(
                root.helpers@.take(i as int),
            ).push(decl_of_helper(root.helpers@[i as int])));
            assert(decl_views(top@) =~= seq![context_decl(root.context)] + helper_decls(
                root.helpers@.take(i + 1 as int),
            ));
        }
        i = i + 1;
    }
    proof {
        assert(root.helpers@.take(root.helpers@.len() as int) =~= root.helpers@);
    }
    let mut decls: Vec<Decl> = Vec::new();
    proof {
        assert(decl_views(decls@) =~~= test_decls(root.module.tests@.take(0)));
    }
    let mut j: usize = 0;
    while j < root.module.tests.len()
        invariant
            0 <= j <= root.module.tests@.len(),
            decl_views(decls@) == test_decls(root.module.tests@.take(j as int)),
        decreases root.module.tests@.len() - j,
    {
        let t = &root.module.tests[j];
        let sp = has_should_panic_attr(t);
        let ghost before = decl_views(decls@);
        decls.push(decl_for_test(t, sp));
        proof {
            assert(root.module.tests@.take(j + 1 as int) =~= root.module.tests@.take(
                j as int,
            ).push(root.module.tests@[j as int]));
            assert(decls@.last()@ =~~= decl_of_test(root.module.tests@[j as int]));
            assert(decl_views(decls@) =~= before.push(decl_of_test(root.module.tests@[j as int])));
            assert(test_decls(root.module.tests@.take(j + 1 as int)) =~= test_decls(
                root.module.tests@.take(j as int),
            ).push(decl_of_test(root.module.tests@[j as int])));
            assert(decl_views(decls@) =~= test_decls(root.module.tests@.take(j + 1 as int)));
        }
        j = j + 1;
    }
    proof {
        assert(root.module.tests@.take(root.module.tests@.len() as int) =~= root.module.tests@);
    }
    let r = Document { container_present: true, top, decls };
    proof {
        assert(r@.top =~~= spec_doc_of_root(*root).top);
        assert(r@.decls =~~= spec_doc_of_root(*root).decls);
        assert(r@ =~~= spec_doc_of_root(*root));
    }
    r
}

/// The helper names of the declarations a generated file carries above
/// the container are exactly the translated helpers' names.
pub proof fn lemma_helper_names_mapped(hs: Seq<HelperFunction>)
    ensures
        helper_names(helper_decls(hs)) == crate::hir::str_views(hs.map_values(
            |h: HelperFunction| h.name,
        )),
    decreases hs.len(),
{
    let mapped = helper_decls(hs);
    let names = crate::hir::str_views(hs.map_values(|h: HelperFunction| h.name));
    if hs.len() == 0 {
        assert(helper_names(mapped) =~= names);
    } else {
        lemma_helper_names_mapped(hs.drop_first());
        assert(mapped.drop_first() =~= helper_decls(hs.drop_first()));
        assert(crate::hir::str_views(hs.drop_first().map_values(|h: HelperFunction| h.name))
            =~= names.drop_first());
        assert(helper_names(mapped) =~= names);
    }
}

/// The test infos of the declarations a generated file carries in the
/// container are exactly the translated tests' names and markers.
pub proof fn lemma_test_infos_mapped(ts: Seq<TestFunction>)
    ensures
        test_infos(test_decls(ts)) == test_infos_of_tests(ts),
    decreases ts.len(),
{
    let mapped = test_decls(ts);
    if ts.len() == 0 {
        assert(test_infos(mapped) =~= test_infos_of_tests(ts));
    } else {
        lemma_test_infos_mapped(ts.drop_first());
        assert(mapped.drop_first() =~= test_decls(ts.drop_first()));
        assert(test_infos_of_tests(ts.drop_first()) =~= test_infos_of_tests(ts).drop_first());
        assert(test_infos(mapped) =~= test_infos_of_tests(ts));
    }
}

/// The name and marker of each test function, in order.
pub open spec fn test_infos_of_tests(ts: Seq<TestFunction>) -> Seq<(Seq<char>, bool)> {
    ts.map_values(|t: TestFunction| (t.name@, hir_should_panic(t)))
}

/// No helper is reported missing when every expected name occurs among
/// the actual ones.
pub proof fn lemma_missing_none(exp: Seq<Seq<char>>, act: Seq<Seq<char>>)
    requires
        forall|i: int| 0 <= i < exp.len() ==> act.contains(#[trigger] exp[i]),
    ensures
        crate::checker::missing_helper_kinds(exp, act) =~= Seq::empty(),
    decreases exp.len(),
{
    if exp.len() > 0 {
        assert(act.contains(exp[exp.len() - 1]));
        assert(forall|i: int|
            0 <= i < exp.drop_last().len() ==> act.contains(#[trigger] exp.drop_last()[i]));
        lemma_missing_none(exp.drop_last(), act);
    }
}

/// The first marker found for the name at a position before which the
/// name does not occur is that position's own marker.
pub proof fn lemma_first_marked_at(infos: Seq<(Seq<char>, bool)>, i: int)
    requires
        0 <= i < infos.len(),
        forall|j: int| 0 <= j < i ==> (#[trigger] infos[j]).0 != infos[i].0,
    ensures
        first_marked(infos, infos[i].0) == infos[i].1,
    decreases i,
{
    if i > 0 {
        assert(infos.drop_first()[i - 1] == infos[i]);
        assert(forall|j: int|
            0 <= j < i - 1 ==> (#[trigger] infos.drop_first()[j]).0 != infos.drop_first()[i
                - 1].0);
        lemma_first_marked_at(infos.drop_first(), i - 1);
    }
}

/// No test is reported missing or mismarked when every expected test
/// contributes nothing.
pub proof fn lemma_test_viols_none(exp: Seq<(Seq<char>, bool)>, act: Seq<(Seq<char>, bool)>)
    requires
        forall|i: int|
            0 <= i < exp.len() ==> test_viol_kind(#[trigger] exp[i], act)
                == Seq::<crate::violation::ViolationKindV>::empty(),
    ensures
        crate::checker::test_viol_kinds(exp, act) =~= Seq::empty(),
    decreases exp.len(),
{
    if exp.len() > 0 {
        assert(test_viol_kind(exp[exp.len() - 1], act) == Seq::<
            crate::violation::ViolationKindV,
        >::empty());
        assert(forall|i: int|
            0 <= i < exp.drop_last().len() ==> test_viol_kind(#[trigger] exp.drop_last()[i], act)
                == Seq::<crate::violation::ViolationKindV>::empty());
        lemma_test_viols_none(exp.drop_last(), act);
    }
}

/// Test infos distribute over concatenation.
pub proof fn lemma_test_infos_concat(a: Seq<DeclV>, b: Seq<DeclV>)
    ensures
        test_infos(a + b) == test_infos(a) + test_infos(b),
    decreases a.len(),
{
    if a.len() == 0 {
        assert(a + b =~= b);
        assert(test_infos(a) + test_infos(b) =~= test_infos(b));
    } else {
        assert((a + b)[0] == a[0]);
        assert((a + b).drop_first() =~= a.drop_first() + b);
        lemma_test_infos_concat(a.drop_first(), b);
        assert(test_infos(a + b) =~= test_infos(a) + test_infos(b));
    }
}

/// The first marker over a concatenation is found on the left when the
/// name occurs there, on the right otherwise.
pub proof fn lemma_first_marked_concat(
    a: Seq<(Seq<char>, bool)>,
    b: Seq<(Seq<char>, bool)>,
    m: Seq<char>,
)
    ensures
        first_marked(a + b, m) == (if info_names(a).contains(m) {
            first_marked(a, m)
        } else {
            first_marked(b, m)
        }),
    decreases a.len(),
{
    if a.len() == 0 {
        assert(a + b =~= b);
        if info_names(a).contains(m) {
            let k = choose|k: int| 0 <= k < info_names(a).len() && info_names(a)[k] == m;
        }
    } else {
        assert((a + b)[0] == a[0]);
        assert((a + b).drop_first() =~= a.drop_first() + b);
        lemma_first_marked_concat(a.drop_first(), b, m);
        if a[0].0 == m {
            assert(info_names(a)[0] == m);
        } else {
            if info_names(a).contains(m) {
                let k = choose|k: int| 0 <= k < info_names(a).len() && info_names(a)[k] == m;
                assert(info_names(a.drop_first())[k - 1] == m);
            }
            if info_names(a.drop_first()).contains(m) {
                let k = choose|k: int|
                    0 <= k < info_names(a.drop_first()).len() && info_names(a.drop_first())[k]
                        == m;
                assert(info_names(a)[k + 1] == m);
            }
        }
    }
}

/// The infos of declarations that are all test-like are their names and
/// markers, one to one.
pub proof fn lemma_test_infos_all_tests(ds: Seq<DeclV>)
    requires
        forall|i: int| 0 <= i < ds.len() ==> (#[trigger] ds[i]).kind is Test,
    ensures
        test_infos(ds) == ds.map_values(|d: DeclV| (d.name, d.should_panic)),
    decreases ds.len(),
{
    if ds.len() > 0 {
        lemma_test_infos_all_tests(ds.drop_first());
        assert(ds.drop_first().map_values(|d: DeclV| (d.name, d.should_panic)) =~= ds.map_values(
            |d: DeclV| (d.name, d.should_panic),
        ).drop_first());
        assert(test_infos(ds) =~= ds.map_values(|d: DeclV| (d.name, d.should_panic)));
    }
}

/// Set the expected-failure marker on the first test-like declaration
/// of this name, if any.  Names, their order, and every other
/// declaration's marker are untouched.
fn mark_first_test(decls: &mut Vec<Decl>, name: &String)
    ensures
        decl_names(decl_views(final(decls)@)) == decl_names(decl_views(old(decls)@)),
        info_names(test_infos(decl_views(final(decls)@))) == info_names(
            test_infos(decl_views(old(decls)@)),
        ),
        info_names(test_infos(decl_views(old(decls)@))).contains(name@) ==> first_marked(
            test_infos(decl_views(final(decls)@)),
            name@,
        ),
        forall|m: Seq<char>|
            m != name@ ==> first_marked(test_infos(decl_views(final(decls)@)), m) == first_marked(
                test_infos(decl_views(old(decls)@)),
                m,
            ),
{
    let ghost ds0 = decl_views(old(decls)@);
    let mut j: usize = 0;
    while j < decls.len()
        invariant
            0 <= j <= decls@.len(),
            decls@ == old(decls)@,
            ds0 == decl_views(old(decls)@),
            !info_names(test_infos(decl_views(decls@.take(j as int)))).contains(name@),
        decreases decls@.len() - j,
    {
        let ghost pre = decl_views(decls@.take(j as int));
        let is_test = match decls[j].kind {
            DeclKind::Test => true,
            _ => false,
        };
        if is_test && decls[j].name == *name {
            let nd = Decl {
                kind: DeclKind::Test,
                name: decls[j].name.clone(),
                should_panic: true,
                comments: clone_strings(&decls[j].comments),
            };
            decls[j] = nd;
            proof {
                let suffix = ds0.skip(j + 1 as int);
                let old_mid = seq![ds0[j as int]];
                let new_mid = seq![decl_views(decls@)[j as int]];
                assert(pre =~= decl_views(old(decls)@.take(j as int)));
                assert(pre =~= ds0.take(j as int));
                assert(ds0 =~= pre + (old_mid + suffix));
                assert(decl_views(decls@) =~= pre + (new_mid + suffix));
                lemma_test_infos_concat(pre, old_mid + suffix);
                lemma_test_infos_concat(pre, new_mid + suffix);
                lemma_test_infos_concat(old_mid, suffix);
                lemma_test_infos_concat(new_mid, suffix);
                assert(old_mid.drop_first() =~= Seq::<DeclV>::empty());
                assert(new_mid.drop_first() =~= Seq::<DeclV>::empty());
                assert(ds0[j as int].kind is Test && ds0[j as int].name == name@);
                assert(decl_views(decls@)[j as int].kind is Test && decl_views(decls@)[j as int].name == name@
                    && decl_views(decls@)[j as int].should_panic);
                assert(test_infos(Seq::<DeclV>::empty()) =~= Seq::<(Seq<char>, bool)>::empty());
                assert(test_infos(old_mid) =~= seq![(name@, ds0[j as int].should_panic)]);
                assert(test_infos(new_mid) =~= seq![(name@, true)]);
                let pi = test_infos(pre);
                let si = test_infos(suffix);
                let oi = pi + (seq![(name@, ds0[j as int].should_panic)] + si);
                let ni = pi + (seq![(name@, true)] + si);
                assert(test_infos(ds0) == oi);
                assert(test_infos(decl_views(decls@)) == ni);
                assert(info_names(ni) =~= info_names(oi));
                lemma_first_marked_concat(pi, seq![(name@, true)] + si, name@);
                assert((seq![(name@, true)] + si)[0] == (name@, true));
                assert(first_marked(ni, name@));
                assert forall|m: Seq<char>| m != name@ implies first_marked(ni, m) == first_marked(
                    oi,
                    m,
                ) by {
                    lemma_first_marked_concat(pi, seq![(name@, true)] + si, m);
                    lemma_first_marked_concat(
                        pi,
                        seq![(name@, ds0[j as int].should_panic)] + si,
                        m,
                    );
                    assert((seq![(name@, true)] + si).drop_first() =~= si);
                    assert((seq![(name@, ds0[j as int].should_panic)] + si).drop_first() =~= si);
                }
                assert(decl_names(decl_views(decls@)) =~= decl_names(ds0));
            }
            return;
        }
        proof {
            assert(decls@.take(j + 1 as int) =~= decls@.take(j as int).push(decls@[j as int]));
            assert(decl_views(decls@.take(j + 1 as int)) =~= pre.push(decls@[j as int]@));
            lemma_test_infos_push(pre, decls@[j as int]@);
            let t0 = test_infos(pre);
            let t1 = test_infos(decl_views(decls@.take(j + 1 as int)));
            assert(!info_names(t1).contains(name@)) by {
                if decls@[j as int]@.kind is Test {
                    assert(t1 =~= t0.push(
                        (decls@[j as int]@.name, decls@[j as int]@.should_panic),
                    ));
                    assert(decls@[j as int]@.name != name@);
                    assert forall|k: int| 0 <= k < t1.len() implies info_names(t1)[k] != name@ by {
                        if k < t0.len() {
                            assert(info_names(t0)[k] != name@);
                        }
                    }
                    if info_names(t1).contains(name@) {
                        let k = choose|k: int|
                            0 <= k < info_names(t1).len() && info_names(t1)[k] == name@;
                    }
                } else {
                    assert(t1 =~= t0);
                }
            }
        }
        j = j + 1;
    }
    proof {
        assert(decls@.take(decls@.len() as int) =~= decls@);
    }
}

/// Rewrite the container's declarations to the repaired order: the
/// expected tests first, in expected order, each taken from the first
/// matching declaration (or inserted if absent), followed by the
/// remaining declarations in their original relative order.
fn reorder_container(root: &Root, decls: &Vec<Decl>) -> (r: Vec<Decl>)
    ensures
        r@.len() >= root.module.tests@.len(),
        forall|i: int|
            0 <= i < root.module.tests@.len() ==> {
                let d = (#[trigger] r@[i])@;
                &&& d.kind is Test
                &&& d.name == root.module.tests@[i].name@
                &&& (hir_should_panic(root.module.tests@[i]) ==> d.should_panic)
            },
        forall|m: Seq<char>|
            #[trigger] decl_names(decl_views(decls@)).contains(m) ==> decl_names(
                decl_views(r@),
            ).contains(m),
        is_subsequence(
            decl_names(decl_views(r@)).skip(root.module.tests@.len() as int),
            decl_names(decl_views(decls@)),
        ),
{
    let n = decls.len();
    let mut used: Vec<bool> = Vec::new();
    let mut k: usize = 0;
    while k < n
        invariant
            used@.len() == k,
            0 <= k <= n,
            forall|t: int| 0 <= t < k ==> !(#[trigger] used@[t]),
        decreases n - k,
    {
        used.push(false);
        k = k + 1;
    }
    let mut out: Vec<Decl> = Vec::new();
    let mut i: usize = 0;
    while i < root.module.tests.len()
        invariant
            0 <= i <= root.module.tests@.len(),
            n == decls@.len(),
            used@.len() == n,
            out@.len() == i,
            forall|t: int|
                0 <= t < i ==> {
                    let d = (#[trigger] out@[t])@;
                    &&& d.kind is Test
                    &&& d.name == root.module.tests@[t].name@
                    &&& (hir_should_panic(root.module.tests@[t]) ==> d.should_panic)
                },
            forall|jj: int|
                0 <= jj < n && #[trigger] used@[jj] ==> exists|t: int|
                    0 <= t < out@.len() && (#[trigger] out@[t])@.name == decls@[jj]@.name,
        decreases root.module.tests@.len() - i,
    {
        let t = &root.module.tests[i];
        let sp = has_should_panic_attr(t);
        let mut found: bool = false;
        let mut j: usize = 0;
        while j < n && !found
            invariant
                0 <= j <= n,
                n == decls@.len(),
                used@.len() == n,
                sp == hir_should_panic(root.module.tests@[i as int]),
                i < root.module.tests@.len(),
                t == &root.module.tests@[i as int],
                out@.len() == (if found {
                    i + 1
                } else {
                    i as int
                }),
                found ==> {
                    let d = out@[i as int]@;
                    &&& d.kind is Test
                    &&& d.name == root.module.tests@[i as int].name@
                    &&& (hir_should_panic(root.module.tests@[i as int]) ==> d.should_panic)
                },
                forall|t2: int|
                    0 <= t2 < i ==> {
                        let d = (#[trigger] out@[t2])@;
                        &&& d.kind is Test
                        &&& d.name == root.module.tests@[t2].name@
                        &&& (hir_should_panic(root.module.tests@[t2]) ==> d.should_panic)
                    },
                forall|jj: int|
                    0 <= jj < n && #[trigger] used@[jj] ==> exists|t2: int|
                        0 <= t2 < out@.len() && (#[trigger] out@[t2])@.name == decls@[jj]@.name,
            decreases n - j,
        {
            let is_test = match decls[j].kind {
                DeclKind::Test => true,
                _ => false,
            };
            if !used[j] && is_test && decls[j].name == t.name {
                let nd = Decl {
                    kind: DeclKind::Test,
                    name: decls[j].name.clone(),
                    should_panic: decls[j].should_panic || sp,
                    comments: clone_strings(&decls[j].comments),
                };
                let ghost out0 = out@;
                let ghost used0 = used@;
                out.push(nd);
                used[j] = true;
                found = true;
                proof {
                    assert forall|jj: int|
                        0 <= jj < n && #[trigger] used@[jj] implies exists|t2: int|
                        0 <= t2 < out@.len() && (#[trigger] out@[t2])@.name
                            == decls@[jj]@.name by {
                        if jj == j {
                            assert(out@[out@.len() - 1]@.name == decls@[j as int]@.name);
                        } else {
                            assert(used0[jj]);
                            let t2 = choose|t2: int|
                                0 <= t2 < out0.len() && (#[trigger] out0[t2])@.name
                                    == decls@[jj]@.name;
                            assert(out@[t2]@.name == decls@[jj]@.name);
                        }
                    }
                }
            }
            j = j + 1;
        }
        if !found {
            let ghost out0 = out@;
            out.push(decl_for_test(t, sp));
            proof {
                assert forall|jj: int|
                    0 <= jj < n && #[trigger] used@[jj] implies exists|t2: int|
                    0 <= t2 < out@.len() && (#[trigger] out@[t2])@.name == decls@[jj]@.name by {
                    let t2 = choose|t2: int|
                        0 <= t2 < out0.len() && (#[trigger] out0[t2])@.name == decls@[jj]@.name;
                    assert(out@[t2]@.name == decls@[jj]@.name);
                }
            }
        }
        i = i + 1;
    }
    let ghost expected_part = out@;
    let ghost nt = root.module.tests@.len() as int;
    proof {
        assert(decl_names(decl_views(out@)).skip(nt) =~= Seq::<Seq<char>>::empty());
        assert(decl_names(decl_views(decls@.take(0))) =~= Seq::<Seq<char>>::empty());
        assert(is_subsequence(
            decl_names(decl_views(out@)).skip(nt),
            decl_names(decl_views(decls@.take(0))),
        ));
    }
    let mut j: usize = 0;
    while j < n
        invariant
            0 <= j <= n,
            n == decls@.len(),
            used@.len() == n,
            nt == root.module.tests@.len() as int,
            out@.len() >= expected_part.len(),
            forall|t: int| 0 <= t < expected_part.len() ==> out@[t] == #[trigger] expected_part[t],
            expected_part.len() == root.module.tests@.len(),
            forall|t: int|
                0 <= t < expected_part.len() ==> {
                    let d = (#[trigger] expected_part[t])@;
                    &&& d.kind is Test
                    &&& d.name == root.module.tests@[t].name@
                    &&& (hir_should_panic(root.module.tests@[t]) ==> d.should_panic)
                },
            forall|jj: int|
                0 <= jj < n && #[trigger] used@[jj] ==> exists|t: int|
                    0 <= t < out@.len() && (#[trigger] out@[t])@.name == decls@[jj]@.name,
            forall|jj: int|
                0 <= jj < j && !(#[trigger] used@[jj]) ==> exists|t: int|
                    0 <= t < out@.len() && (#[trigger] out@[t])@.name == decls@[jj]@.name,
            is_subsequence(
                decl_names(decl_views(out@)).skip(nt),
                decl_names(decl_views(decls@.take(j as int))),
            ),
        decreases n - j,
    {
        let ghost out0 = out@;
        proof {
            assert(decls@.take(j + 1 as int) =~= decls@.take(j as int).push(decls@[j as int]));
            assert(decl_names(decl_views(decls@.take(j + 1 as int))) =~= decl_names(
                decl_views(decls@.take(j as int)),
            ).push(decls@[j as int]@.name));
        }
        if !used[j] {
            let nd = Decl {
                kind: decls[j].kind,
                name: decls[j].name.clone(),
                should_panic: decls[j].should_panic,
                comments: clone_strings(&decls[j].comments),
            };
            out.push(nd);
            proof {
                assert(out@[out@.len() - 1]@.name == decls@[j as int]@.name);
                assert(decl_names(decl_views(out@)).skip(nt) =~= decl_names(
                    decl_views(out0),
                ).skip(nt).push(decls@[j as int]@.name));
                crate::checker::lemma_subseq_push_both(
                    decl_names(decl_views(out0)).skip(nt),
                    decl_names(decl_views(decls@.take(j as int))),
                    decls@[j as int]@.name,
                );
                assert forall|jj: int|
                    0 <= jj < n && #[trigger] used@[jj] implies exists|t: int|
                    0 <= t < out@.len() && (#[trigger] out@[t])@.name == decls@[jj]@.name by {
                    let t = choose|t: int|
                        0 <= t < out0.len() && (#[trigger] out0[t])@.name == decls@[jj]@.name;
                    assert(out@[t]@.name == decls@[jj]@.name);
                }
                assert forall|jj: int|
                    0 <= jj < j + 1 && !(#[trigger] used@[jj]) implies exists|t: int|
                    0 <= t < out@.len() && (#[trigger] out@[t])@.name == decls@[jj]@.name by {
                    if jj == j {
                        assert(out@[out@.len() - 1]@.name == decls@[j as int]@.name);
                    } else {
                        let t = choose|t: int|
                            0 <= t < out0.len() && (#[trigger] out0[t])@.name == decls@[jj]@.name;
                        assert(out@[t]@.name == decls@[jj]@.name);
                    }
                }
            }
        } else {
            proof {
                crate::checker::lemma_subseq_push_right(
                    decl_names(decl_views(out@)).skip(nt),
                    decl_names(decl_views(decls@.take(j as int))),
                    decls@[j as int]@.name,
                );
            }
        }
        j = j + 1;
    }
    proof {
        assert(decls@.take(n as int) =~= decls@);
        assert forall|m: Seq<char>|
            #[trigger] decl_names(decl_views(decls@)).contains(m) implies decl_names(
            decl_views(out@),
        ).contains(m) by {
            let jj = choose|jj: int|
                0 <= jj < decl_names(decl_views(decls@)).len() && decl_names(
                    decl_views(decls@),
                )[jj] == m;
            assert(decls@[jj]@.name == m);
            if used@[jj] {
                let t = choose|t: int|
                    0 <= t < out@.len() && (#[trigger] out@[t])@.name == decls@[jj]@.name;
                assert(decl_names(decl_views(out@))[t] == m);
            } else {
                let t = choose|t: int|
                    0 <= t < out@.len() && (#[trigger] out@[t])@.name == decls@[jj]@.name;
                assert(decl_names(decl_views(out@))[t] == m);
            }
        }
    }
    proof {
        assert forall|i2: int| 0 <= i2 < root.module.tests@.len() implies {
            let d = (#[trigger] out@[i2])@;
            &&& d.kind is Test
            &&& d.name == root.module.tests@[i2].name@
            &&& (hir_should_panic(root.module.tests@[i2]) ==> d.should_panic)
        } by {
            assert(out@[i2] == expected_part[i2]);
        }
    }
    out
}

/// Repair a document against a translated root: content fixes first,
/// then the order.
///
/// A missing container has the whole document regenerated.  Otherwise
/// every missing helper and test is inserted at the end of its
/// container, every test that must fail but lacks the marker gets it,
/// and, if the expected test order is then still not kept, the
/// container is rewritten to the repaired order.  When the expected
/// test names are distinct, a check of the repaired document finds
/// nothing: repair converges in one round.
pub fn fix(root: &Root, doc: Document, skip_helpers: bool) -> (r: Document)
    ensures
        r@.container_present,
        distinct_seqs(info_names(hir_test_infos(*root))) ==> violation_kinds_spec(
            *root,
            r@,
            skip_helpers,
        ) =~= Seq::empty(),
        doc@.container_present ==> {
            &&& r@.top.len() >= doc@.top.len()
            &&& r@.top.take(doc@.top.len() as int) == doc@.top
            &&& (forall|j: int|
                doc@.top.len() <= j < r@.top.len() ==> (#[trigger] r@.top[j]).kind is Helper)
            &&& (forall|m: Seq<char>|
                #[trigger] decl_names(doc@.decls).contains(m) ==> decl_names(r@.decls).contains(
                    m,
                ))
        },
{
    let ghost exp = hir_test_infos(*root);
    let ghost top0 = doc@.top;
    let ghost dn0 = decl_names(doc@.decls);
    if !doc.container_present {
        let r = document_from_root(root);
        proof {
            if distinct_seqs(info_names(exp)) {
                crate::laws::lemma_check_after_scaffold_finds_nothing(*root, skip_helpers);
            }
        }
        return r;
    }
    let Document { container_present: _, mut top, mut decls } = doc;

    // Pass one, helpers: insert what is missing at the end of the file
    // top.
    if !skip_helpers {
        let mut i: usize = 0;
        while i < root.helpers.len()
            invariant
                0 <= i <= root.helpers@.len(),
                top0 == doc@.top,
                decl_views(top@).len() >= top0.len(),
                decl_views(top@).take(top0.len() as int) == top0,
                forall|jj: int|
                    top0.len() <= jj < decl_views(top@).len() ==> (#[trigger] decl_views(
                        top@,
                    )[jj]).kind is Helper,
                forall|j: int|
                    0 <= j < i ==> helper_names(decl_views(top@)).contains(
                        #[trigger] root.helpers@[j].name@,
                    ),
            decreases root.helpers@.len() - i,
        {
            let h = &root.helpers[i];
            let names_now = collect_helper_names(&top);
            let ghost before = decl_views(top@);
            if !contains_str(&names_now, &h.name) {
                let h_comments: Vec<String> = match &h.doc {
                    Some(d) => vec![d.clone()],
                    None => Vec::new(),
                };
                top.push(
                    Decl {
                        kind: DeclKind::Helper,
                        name: h.name.clone(),
                        should_panic: false,
                        comments: h_comments,
                    },
                );
                proof {
                    assert(decl_views(top@) =~= before.push(decl_views(top@).last()));
                    lemma_helper_names_push(before, decl_views(top@).last());
                    let hn = helper_names(decl_views(top@));
                    assert(hn =~= helper_names(before).push(h.name@));
                    assert(hn[hn.len() - 1] == h.name@);
                    assert forall|j: int|
                        0 <= j < i implies hn.contains(#[trigger] root.helpers@[j].name@) by {
                        let k = choose|k: int|
                            0 <= k < helper_names(before).len() && helper_names(before)[k]
                                == root.helpers@[j].name@;
                        assert(hn[k] == root.helpers@[j].name@);
                    }
                    assert(decl_views(top@).take(top0.len() as int) =~= before.take(
                        top0.len() as int,
                    ));
                    assert(decl_views(top@).last().kind is Helper);
                }
            }
            i = i + 1;
        }
    }

    proof {
        if skip_helpers {
            assert(decl_views(top@) == top0);
            assert(decl_views(top@).take(top0.len() as int) =~= top0);
        }
    }

    // Pass one, tests: insert what is missing at the end of the
    // container, set missing failure markers in place.
    let mut i: usize = 0;
    while i < root.module.tests.len()
        invariant
            0 <= i <= root.module.tests@.len(),
            exp == hir_test_infos(*root),
            dn0 == decl_names(doc@.decls),
            forall|m: Seq<char>|
                #[trigger] dn0.contains(m) ==> decl_names(decl_views(decls@)).contains(m),
            forall|j: int|
                0 <= j < i ==> {
                    let inf = test_infos(decl_views(decls@));
                    &&& info_names(inf).contains((#[trigger] exp[j]).0)
                    &&& (exp[j].1 ==> first_marked(inf, exp[j].0))
                },
            !skip_helpers ==> forall|j: int|
                0 <= j < root.helpers@.len() ==> helper_names(decl_views(top@)).contains(
                    #[trigger] root.helpers@[j].name@,
                ),
        decreases root.module.tests@.len() - i,
    {
        let t = &root.module.tests[i];
        let sp = has_should_panic_attr(t);
        let infos = collect_test_infos(&decls);
        let ghost inf0 = test_infos(decl_views(decls@));
        proof {
            assert(exp[i as int] == (t.name@, hir_should_panic(*t)));
        }
        if !infos_contain_name(&infos, &t.name) {
            let ghost before = decl_views(decls@);
            decls.push(decl_for_test(t, sp));
            proof {
                assert forall|m: Seq<char>|
                    #[trigger] dn0.contains(m) implies decl_names(decl_views(decls@)).contains(
                    m,
                ) by {
                    let k = choose|k: int|
                        0 <= k < decl_names(before).len() && decl_names(before)[k] == m;
                    assert(decl_names(decl_views(decls@))[k] == m);
                }
                assert(decl_views(decls@) =~= before.push(decl_views(decls@).last()));
                lemma_test_infos_push(before, decl_views(decls@).last());
                let inf1 = test_infos(decl_views(decls@));
                assert(inf1 =~= inf0 + seq![(t.name@, sp)]);
                assert(info_names(inf1)[inf1.len() - 1] == t.name@);
                lemma_first_marked_concat(inf0, seq![(t.name@, sp)], t.name@);
                assert(first_marked(seq![(t.name@, sp)], t.name@) == sp);
                assert forall|j: int|
                    0 <= j < i implies info_names(inf1).contains((#[trigger] exp[j]).0) && (
                exp[j].1 ==> first_marked(inf1, exp[j].0)) by {
                    let k = choose|k: int|
                        0 <= k < info_names(inf0).len() && info_names(inf0)[k] == exp[j].0;
                    assert(info_names(inf1)[k] == exp[j].0);
                    lemma_first_marked_concat(inf0, seq![(t.name@, sp)], exp[j].0);
                }
            }
        } else if sp && !infos_first_marked(&infos, &t.name) {
            mark_first_test(&mut decls, &t.name);
            proof {
                let inf1 = test_infos(decl_views(decls@));
                assert forall|j: int|
                    0 <= j < i implies info_names(inf1).contains((#[trigger] exp[j]).0) && (
                exp[j].1 ==> first_marked(inf1, exp[j].0)) by {
                    if exp[j].0 != t.name@ {
                        assert(first_marked(inf1, exp[j].0) == first_marked(inf0, exp[j].0));
                    }
                }
            }
        }
        i = i + 1;
    }

    // Pass two: repair the order, if it is still broken.
    let infos = collect_test_infos(&decls);
    let mut expected_names: Vec<String> = Vec::new();
    let mut j: usize = 0;
    while j < root.module.tests.len()
        invariant
            0 <= j <= root.module.tests@.len(),
            expected_names@.len() == j,
            forall|k: int|
                0 <= k < j ==> (#[trigger] expected_names@[k])@ == root.module.tests@[k].name@,
        decreases root.module.tests@.len() - j,
    {
        expected_names.push(root.module.tests[j].name.clone());
        j = j + 1;
    }
    proof {
        assert(str_views(expected_names@) =~= info_names(hir_test_infos(*root)));
    }
    let actual_names = info_name_strings(&infos);
    let ghost content_ok_decls = decl_views(decls@);
    let ordered = subsequence_matches(&expected_names, &actual_names);
    if !ordered {
        let before_reorder = decls;
        decls = reorder_container(root, &before_reorder);
        proof {
            assert forall|m: Seq<char>| #[trigger] dn0.contains(m) implies decl_names(
                decl_views(decls@),
            ).contains(m) by {
                assert(decl_names(decl_views(before_reorder@)).contains(m));
            }
        }
    }
    let r = Document { container_present: true, top, decls };
    proof {
        assert(r@.top.take(top0.len() as int) == top0);
        assert forall|m: Seq<char>| #[trigger] decl_names(doc@.decls).contains(
            m,
        ) implies decl_names(r@.decls).contains(m) by {
            assert(dn0.contains(m));
        }
    }
    proof {
        if distinct_seqs(info_names(exp)) {
            let docv = r@;
            let nt = root.module.tests@.len() as int;
            // Helpers: every expected one is present.
            if !skip_helpers {
                assert forall|k: int|
                    0 <= k < hir_helper_names(*root).len() implies helper_names(
                    docv.top,
                ).contains(#[trigger] hir_helper_names(*root)[k]) by {
                    assert(hir_helper_names(*root)[k] == root.helpers@[k].name@);
                }
                lemma_missing_none(hir_helper_names(*root), helper_names(docv.top));
            }
            if ordered {
                // The content fixes already hold and the order was kept.
                let inf = test_infos(docv.decls);
                assert(inf == test_infos(content_ok_decls));
                assert(str_views(expected_names@) == info_names(exp));
                assert(is_subsequence(str_views(expected_names@), str_views(actual_names@)));
                assert(str_views(actual_names@) == info_names(inf));
                assert forall|k: int|
                    0 <= k < exp.len() implies test_viol_kind(#[trigger] exp[k], inf) == Seq::<
                    crate::violation::ViolationKindV,
                >::empty() by {
                    assert(info_names(inf).contains(exp[k].0));
                    assert(test_viol_kind(exp[k], inf) =~= Seq::<
                        crate::violation::ViolationKindV,
                    >::empty());
                }
                lemma_test_viols_none(exp, inf);
                assert(is_subsequence_names(exp, inf));
            } else {
                // The container was rewritten: expected tests first.
                let dv = docv.decls;
                let head = dv.take(nt);
                let tail = dv.skip(nt);
                assert(dv =~= head + tail);
                assert forall|k: int| 0 <= k < head.len() implies (#[trigger] head[k]).kind
                    is Test by {
                    assert(head[k] == decl_views(decls@)[k]);
                }
                lemma_test_infos_concat(head, tail);
                lemma_test_infos_all_tests(head);
                let hi = head.map_values(|d: DeclV| (d.name, d.should_panic));
                let inf = test_infos(dv);
                assert(inf == hi + test_infos(tail));
                assert forall|k: int|
                    0 <= k < exp.len() implies test_viol_kind(#[trigger] exp[k], inf) == Seq::<
                    crate::violation::ViolationKindV,
                >::empty() by {
                    assert(head[k] == decl_views(decls@)[k]);
                    assert(hi[k].0 == exp[k].0 && (exp[k].1 ==> hi[k].1));
                    assert(info_names(inf)[k] == exp[k].0);
                    if exp[k].1 {
                        assert forall|j2: int| 0 <= j2 < k implies (#[trigger] hi[j2]).0
                            != hi[k].0 by {
                            assert(hi[j2].0 == exp[j2].0);
                            assert(info_names(exp)[j2] == exp[j2].0);
                            assert(info_names(exp)[k] == exp[k].0);
                        }
                        lemma_first_marked_at(hi, k);
                        lemma_first_marked_concat(hi, test_infos(tail), exp[k].0);
                        assert(info_names(hi)[k] == exp[k].0);
                        assert(first_marked(inf, exp[k].0));
                    }
                    assert(test_viol_kind(exp[k], inf) =~= Seq::<
                        crate::violation::ViolationKindV,
                    >::empty());
                }
                lemma_test_viols_none(exp, inf);
                // Order: the expected names lead, the extras follow.
                assert(info_names(inf) =~= info_names(exp) + info_names(test_infos(tail)));
                crate::checker::lemma_subseq_prefix(
                    info_names(exp),
                    info_names(test_infos(tail)),
                );
                assert(is_subsequence_names(exp, inf));
            }
            assert(violation_kinds_spec(*root, docv, skip_helpers) =~= Seq::empty());
        }
    }
    r
}

/// Whether the expected test names stand, in order, among the actual
/// ones.
spec fn is_subsequence_names(exp: Seq<(Seq<char>, bool)>, act: Seq<(Seq<char>, bool)>) -> bool {
    crate::checker::is_subsequence(info_names(exp), info_names(act))
}

} // verus!
