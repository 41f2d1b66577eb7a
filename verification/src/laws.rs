//! Laws that tie the pipeline's components together.

use vstd::prelude::*;

use crate::checker::{
    hir_test_infos, hir_helper_names, is_subsequence, lemma_subseq_refl, missing_helper_kinds,
    order_kinds, test_viol_kind, test_viol_kinds, violation_kinds_spec,
};
use crate::facts::{first_marked, helper_names, info_names, test_infos, DocumentV};
use crate::model::{expected_helpers, expected_tests, HelperModel, TestModel};
use crate::tree::SpecNode;
use crate::violation::ViolationKindV;
use crate::fixer::{
    distinct_seqs, lemma_first_marked_at, lemma_helper_names_mapped, lemma_missing_none,
    lemma_test_infos_mapped, lemma_test_viols_none, spec_doc_of_root, decl_of_helper,
    decl_of_test, context_decl,
};
use crate::hir::{HelperFunction, Root, TestFunction};

verus! {

/// Checking a freshly generated file finds nothing: the structural
/// document that generation lays out satisfies its own expectation, for
/// any tree and configuration, as long as no two expected tests share a
/// name.
pub proof fn lemma_check_after_scaffold_finds_nothing(root: Root, skip_helpers: bool)
    requires
        distinct_seqs(info_names(hir_test_infos(root))),
    ensures
        violation_kinds_spec(root, spec_doc_of_root(root), skip_helpers) =~= Seq::empty(),
{
    let doc = spec_doc_of_root(root);
    let exp = hir_test_infos(root);

    // Helpers: the generated top carries exactly the expected names.
    let mapped_helpers = root.helpers@.map_values(|h: HelperFunction| decl_of_helper(h));
    assert(doc.top =~= seq![context_decl(root.context)] + mapped_helpers);
    assert(doc.top[0] == context_decl(root.context));
    assert(doc.top.drop_first() =~= mapped_helpers);
    lemma_helper_names_mapped(root.helpers@);
    assert(helper_names(doc.top) =~= hir_helper_names(root));
    assert forall|i: int|
        0 <= i < hir_helper_names(root).len() implies helper_names(doc.top).contains(
        #[trigger] hir_helper_names(root)[i],
    ) by {
        assert(helper_names(doc.top)[i] == hir_helper_names(root)[i]);
    }
    lemma_missing_none(hir_helper_names(root), helper_names(doc.top));

    // Tests: the generated container carries exactly the expected
    // names and markers, so nothing is missing or mismarked.
    lemma_test_infos_mapped(root.module.tests@);
    let act = test_infos(doc.decls);
    assert(act =~= exp);
    assert forall|i: int|
        0 <= i < exp.len() implies test_viol_kind(#[trigger] exp[i], act) == Seq::<
        crate::violation::ViolationKindV,
    >::empty() by {
        assert(info_names(act)[i] == exp[i].0);
        if exp[i].1 {
            assert forall|j: int| 0 <= j < i implies (#[trigger] act[j]).0 != act[i].0 by {
                assert(info_names(exp)[j] == exp[j].0);
                assert(info_names(exp)[i] == exp[i].0);
            }
            lemma_first_marked_at(act, i);
            assert(first_marked(act, exp[i].0));
        }
        assert(test_viol_kind(exp[i], act) =~= Seq::<crate::violation::ViolationKindV>::empty());
    }
    lemma_test_viols_none(exp, act);

    // Order: the generated order is the expected order itself.
    assert(info_names(act) =~= info_names(exp));
    lemma_subseq_refl(info_names(exp));

    assert(violation_kinds_spec(root, doc, skip_helpers) =~= Seq::empty());
}

/// The helper names a tree calls for, in order, first occurrences
/// only.
pub open spec fn tree_helper_names(tree: SpecNode) -> Seq<Seq<char>> {
    expected_helpers(tree).map_values(|m: HelperModel| m.name)
}

/// The test names and markers a tree calls for, in order.
pub open spec fn tree_test_infos(tree: SpecNode) -> Seq<(Seq<char>, bool)> {
    expected_tests(tree).map_values(|m: TestModel| (m.name, m.should_panic))
}

/// A translated root carries exactly the helper names and test infos
/// its tree calls for.
pub proof fn lemma_root_pins_checker_inputs(root: Root, tree: SpecNode, skip: bool, fmt: bool)
    requires
        crate::hir::root_matches(root, tree, skip, fmt),
    ensures
        hir_helper_names(root) == (if skip {
            Seq::<Seq<char>>::empty()
        } else {
            tree_helper_names(tree)
        }),
        hir_test_infos(root) == tree_test_infos(tree),
{
    if skip {
        assert(crate::hir::hf_models(root.helpers@).len() == 0);
        assert(hir_helper_names(root) =~= Seq::<Seq<char>>::empty());
    } else {
        assert forall|i: int|
            0 <= i < root.helpers@.len() implies #[trigger] hir_helper_names(root)[i]
            == tree_helper_names(tree)[i] by {
            assert(crate::hir::hf_models(root.helpers@)[i] == expected_helpers(tree)[i]);
        }
        assert(hir_helper_names(root) =~= tree_helper_names(tree));
    }
    assert forall|i: int|
        0 <= i < root.module.tests@.len() implies #[trigger] hir_test_infos(root)[i]
        == tree_test_infos(tree)[i] by {
        let t = root.module.tests@[i];
        let m = expected_tests(tree)[i];
        assert(crate::hir::test_matches(t, m, fmt));
        if m.should_panic {
            assert(t.attributes@[1] == crate::hir::Attribute::ShouldPanic);
            assert(crate::checker::hir_should_panic(t));
        } else {
            if crate::checker::hir_should_panic(t) {
                let k = choose|k: int|
                    0 <= k < t.attributes@.len() && t.attributes@[k]
                        == crate::hir::Attribute::ShouldPanic;
                assert(t.attributes@[k] == crate::hir::Attribute::Test);
            }
        }
    }
    assert(hir_test_infos(root) =~= tree_test_infos(tree));
}

/// The checker's verdict, spoken of the tree itself: what checking any
/// faithful translation of `tree` against `doc` finds.
pub open spec fn tree_violation_kinds(tree: SpecNode, doc: DocumentV, skip: bool) -> Seq<
    ViolationKindV,
> {
    if !doc.container_present {
        seq![ViolationKindV::TestModuleMissing]
    } else {
        (if skip {
            Seq::<ViolationKindV>::empty()
        } else {
            missing_helper_kinds(tree_helper_names(tree), helper_names(doc.top))
        }) + test_viol_kinds(tree_test_infos(tree), test_infos(doc.decls)) + order_kinds(
            info_names(tree_test_infos(tree)),
            info_names(test_infos(doc.decls)),
        )
    }
}

/// Checking a faithful translation of a tree finds exactly what the
/// tree-level verdict says.
pub proof fn lemma_checker_verdict_of_tree(
    root: Root,
    tree: SpecNode,
    doc: DocumentV,
    skip: bool,
    fmt: bool,
)
    requires
        crate::hir::root_matches(root, tree, skip, fmt),
    ensures
        violation_kinds_spec(root, doc, skip) == tree_violation_kinds(tree, doc, skip),
{
    lemma_root_pins_checker_inputs(root, tree, skip, fmt);
    if doc.container_present {
        if skip {
            assert(violation_kinds_spec(root, doc, skip) =~= tree_violation_kinds(
                tree,
                doc,
                skip,
            ));
        } else {
            assert(violation_kinds_spec(root, doc, skip) =~= tree_violation_kinds(
                tree,
                doc,
                skip,
            ));
        }
    }
}

/// Helper violations are only ever about missing helpers.
proof fn lemma_missing_kinds_shape(exp: Seq<Seq<char>>, act: Seq<Seq<char>>)
    ensures
        forall|i: int|
            0 <= i < missing_helper_kinds(exp, act).len() ==> (#[trigger] missing_helper_kinds(
                exp,
                act,
            )[i]) is HelperFunctionMissing,
    decreases exp.len(),
{
    if exp.len() > 0 {
        lemma_missing_kinds_shape(exp.drop_last(), act);
    }
}

/// Per-test violations are only ever about missing tests or wrong
/// markers.
proof fn lemma_test_kinds_shape(exp: Seq<(Seq<char>, bool)>, act: Seq<(Seq<char>, bool)>)
    ensures
        forall|i: int|
            0 <= i < test_viol_kinds(exp, act).len() ==> (#[trigger] test_viol_kinds(exp, act)[i])
                is TestFunctionMissing || test_viol_kinds(exp, act)[i] is TestAttributeIncorrect,
    decreases exp.len(),
{
    if exp.len() > 0 {
        lemma_test_kinds_shape(exp.drop_last(), act);
    }
}

/// The subsequence law: when the container is present, an order
/// violation is reported exactly when the expected test names are not
/// an order-preserving subsequence of the actual ones; gaps in the
/// actual names are allowed.
pub proof fn lemma_order_violation_iff_not_subsequence(root: Root, doc: DocumentV, skip: bool)
    requires
        doc.container_present,
    ensures
        violation_kinds_spec(root, doc, skip).contains(ViolationKindV::TestOrderIncorrect)
            <==> !is_subsequence(
            crate::facts::info_names(hir_test_infos(root)),
            crate::facts::info_names(crate::facts::test_infos(doc.decls)),
        ),
{
    let exp = hir_test_infos(root);
    let act = crate::facts::test_infos(doc.decls);
    let helper_part = if skip {
        Seq::<ViolationKindV>::empty()
    } else {
        missing_helper_kinds(hir_helper_names(root), crate::facts::helper_names(doc.top))
    };
    let test_part = test_viol_kinds(exp, act);
    let order_part = crate::checker::order_kinds(
        crate::facts::info_names(exp),
        crate::facts::info_names(act),
    );
    let all = violation_kinds_spec(root, doc, skip);
    assert(all == helper_part + test_part + order_part);
    if !skip {
        lemma_missing_kinds_shape(hir_helper_names(root), crate::facts::helper_names(doc.top));
    }
    lemma_test_kinds_shape(exp, act);
    if is_subsequence(crate::facts::info_names(exp), crate::facts::info_names(act)) {
        if all.contains(ViolationKindV::TestOrderIncorrect) {
            let i = choose|i: int|
                0 <= i < all.len() && all[i] == ViolationKindV::TestOrderIncorrect;
            if i < helper_part.len() {
                assert(helper_part[i] is HelperFunctionMissing);
            } else {
                assert(test_part[i - helper_part.len()] is TestFunctionMissing || test_part[i
                    - helper_part.len()] is TestAttributeIncorrect);
            }
        }
    } else {
        assert(all[all.len() - 1] == ViolationKindV::TestOrderIncorrect);
    }
}

} // verus!
