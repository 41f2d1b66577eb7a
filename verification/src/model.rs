//! The expected structure derived from a specification tree.
//!
//! These spec-level models say what translation must produce: one
//! helper per first-seen condition identifier, in pre-order, and one
//! test per action, in pre-order, named after its own identifier and
//! the innermost enclosing condition's.

use vstd::prelude::*;

pub use crate::chars::contains_sub;
use crate::chars::lower_seq;
use crate::slug::slug;
use crate::tree::{Span, SpecNode};

verus! {

/// What one helper function must look like.
pub ghost struct HelperModel {
    /// The helper's name: the condition's identifier.
    pub name: Seq<char>,
    /// The title of the condition it came from.
    pub title: Seq<char>,
    /// Where that condition stands in the tree file.
    pub span: Span,
}

/// What one test function must look like.
pub ghost struct TestModel {
    /// The test's name.
    pub name: Seq<char>,
    /// Whether the test is expected to fail.
    pub should_panic: bool,
    /// The comment texts in its body: the action's title, then its
    /// descriptions, in document order.
    pub comments: Seq<Seq<char>>,
    /// The identifiers of the enclosing conditions, outermost first.
    pub helpers: Seq<Seq<char>>,
    /// Where the action stands in the tree file.
    pub span: Span,
}

/// The keywords whose presence in a title, case-folded, marks a test as
/// expected to fail.
pub open spec fn panic_keywords() -> Seq<Seq<char>> {
    seq![
        seq!['p', 'a', 'n', 'i', 'c'],
        seq!['p', 'a', 'n', 'i', 'c', 's'],
        seq!['r', 'e', 'v', 'e', 'r', 't'],
        seq!['r', 'e', 'v', 'e', 'r', 't', 's'],
        seq!['e', 'r', 'r', 'o', 'r'],
        seq!['e', 'r', 'r', 'o', 'r', 's'],
        seq!['f', 'a', 'i', 'l'],
        seq!['f', 'a', 'i', 'l', 's'],
    ]
}

/// Whether a title marks its test as expected to fail: its case-folded
/// text contains one of the fixed keywords as a substring.
pub open spec fn should_panic_spec(title: Seq<char>) -> bool {
    exists|k: int|
        0 <= k < panic_keywords().len() && contains_sub(lower_seq(title), panic_keywords()[k])
}

/// The name of a test: its action's identifier, prefixed with the
/// innermost enclosing condition's identifier if there is one.
pub open spec fn test_name_spec(action_slug: Seq<char>, stack: Seq<Seq<char>>) -> Seq<char> {
    if stack.len() == 0 {
        "test_"@ + action_slug
    } else {
        "test_"@ + stack.last() + "_"@ + action_slug
    }
}

/// All conditions of one node, in pre-order, helpers not yet
/// deduplicated.
pub open spec fn helpers_node(n: SpecNode) -> Seq<HelperModel>
    decreases n,
{
    match n {
        SpecNode::Condition { title, span, children } => seq![
            HelperModel { name: slug(title@), title: title@, span },
        ] + helpers_list(children@),
        _ => Seq::empty(),
    }
}

/// All conditions of a list of nodes, in pre-order.
pub open spec fn helpers_list(ns: Seq<SpecNode>) -> Seq<HelperModel>
    decreases ns,
{
    if ns.len() == 0 {
        Seq::empty()
    } else {
        helpers_node(ns[0]) + helpers_list(ns.drop_first())
    }
}

/// The names of a list of helper models, as a set.
pub open spec fn names_of(ms: Seq<HelperModel>) -> Set<Seq<char>> {
    Set::new(|n: Seq<char>| exists|i: int| 0 <= i < ms.len() && ms[i].name == n)
}

/// First-seen deduplication: keep each helper whose name has not been
/// seen yet, in order.
pub open spec fn dedup_from(ms: Seq<HelperModel>, seen: Set<Seq<char>>) -> Seq<HelperModel>
    decreases ms.len(),
{
    if ms.len() == 0 {
        Seq::empty()
    } else if seen.contains(ms[0].name) {
        dedup_from(ms.drop_first(), seen)
    } else {
        seq![ms[0]] + dedup_from(ms.drop_first(), seen.insert(ms[0].name))
    }
}

/// The helpers expected of a tree: its conditions in pre-order, first
/// occurrence of each identifier only.
pub open spec fn expected_helpers(tree: SpecNode) -> Seq<HelperModel> {
    match tree {
        SpecNode::Root { children } => dedup_from(helpers_list(children@), Set::empty()),
        _ => Seq::empty(),
    }
}

/// The description texts among a list of nodes, in document order.
pub open spec fn descs_list(ns: Seq<SpecNode>) -> Seq<Seq<char>>
    decreases ns,
{
    if ns.len() == 0 {
        Seq::empty()
    } else {
        (match ns[0] {
            SpecNode::ActionDescription { text, .. } => seq![text@],
            _ => Seq::empty(),
        }) + descs_list(ns.drop_first())
    }
}

/// The tests arising from one node, given the identifiers of the
/// enclosing conditions.
pub open spec fn tests_node(n: SpecNode, stack: Seq<Seq<char>>) -> Seq<TestModel>
    decreases n,
{
    match n {
        SpecNode::Condition { title, children, .. } => tests_list(
            children@,
            stack.push(slug(title@)),
        ),
        SpecNode::Action { title, span, children } => seq![
            TestModel {
                name: test_name_spec(slug(title@), stack),
                should_panic: should_panic_spec(title@),
                comments: seq![title@] + descs_list(children@),
                helpers: stack,
                span,
            },
        ],
        _ => Seq::empty(),
    }
}

/// The tests arising from a list of nodes, in pre-order.
pub open spec fn tests_list(ns: Seq<SpecNode>, stack: Seq<Seq<char>>) -> Seq<TestModel>
    decreases ns,
{
    if ns.len() == 0 {
        Seq::empty()
    } else {
        tests_node(ns[0], stack) + tests_list(ns.drop_first(), stack)
    }
}

/// The tests expected of a tree, in pre-order.
pub open spec fn expected_tests(tree: SpecNode) -> Seq<TestModel> {
    match tree {
        SpecNode::Root { children } => tests_list(children@, Seq::empty()),
        _ => Seq::empty(),
    }
}

// Appending a node to a list extends its collected models at the back.

/// Collecting helpers over a list grows node by node.
pub proof fn lemma_helpers_list_push(ns: Seq<SpecNode>, n: SpecNode)
    ensures
        helpers_list(ns.push(n)) == helpers_list(ns) + helpers_node(n),
    decreases ns.len(),
{
    if ns.len() == 0 {
        reveal_with_fuel(helpers_list, 3);
        assert(ns.push(n)[0] == n);
        assert(ns.push(n).drop_first() =~= Seq::<SpecNode>::empty());
        assert(helpers_list(ns.push(n)) =~= helpers_list(ns) + helpers_node(n));
    } else {
        assert(ns.push(n)[0] == ns[0]);
        assert(ns.push(n).drop_first() =~= ns.drop_first().push(n));
        lemma_helpers_list_push(ns.drop_first(), n);
        assert(helpers_list(ns.push(n)) == helpers_node(ns[0]) + helpers_list(
            ns.drop_first().push(n),
        ));
        assert(helpers_list(ns) == helpers_node(ns[0]) + helpers_list(ns.drop_first()));
        assert(helpers_list(ns.push(n)) =~= helpers_list(ns) + helpers_node(n));
    }
}

/// Collecting tests over a list grows node by node.
pub proof fn lemma_tests_list_push(ns: Seq<SpecNode>, n: SpecNode, stack: Seq<Seq<char>>)
    ensures
        tests_list(ns.push(n), stack) == tests_list(ns, stack) + tests_node(n, stack),
    decreases ns.len(),
{
    if ns.len() == 0 {
        reveal_with_fuel(tests_list, 3);
        assert(ns.push(n)[0] == n);
        assert(ns.push(n).drop_first() =~= Seq::<SpecNode>::empty());
        assert(tests_list(ns.push(n), stack) =~= tests_list(ns, stack) + tests_node(n, stack));
    } else {
        assert(ns.push(n)[0] == ns[0]);
        assert(ns.push(n).drop_first() =~= ns.drop_first().push(n));
        lemma_tests_list_push(ns.drop_first(), n, stack);
        assert(tests_list(ns.push(n), stack) == tests_node(ns[0], stack) + tests_list(
            ns.drop_first().push(n),
            stack,
        ));
        assert(tests_list(ns, stack) == tests_node(ns[0], stack) + tests_list(
            ns.drop_first(),
            stack,
        ));
        assert(tests_list(ns.push(n), stack) =~= tests_list(ns, stack) + tests_node(n, stack));
    }
}

/// Collecting descriptions over a list grows node by node.
pub proof fn lemma_descs_list_push(ns: Seq<SpecNode>, n: SpecNode)
    ensures
        descs_list(ns.push(n)) == descs_list(ns) + (match n {
            SpecNode::ActionDescription { text, .. } => seq![text@],
            _ => Seq::<Seq<char>>::empty(),
        }),
    decreases ns.len(),
{
    if ns.len() == 0 {
        reveal_with_fuel(descs_list, 3);
        assert(ns.push(n)[0] == n);
        assert(ns.push(n).drop_first() =~= Seq::<SpecNode>::empty());
        assert(descs_list(ns.push(n)) =~= descs_list(ns) + (match n {
            SpecNode::ActionDescription { text, .. } => seq![text@],
            _ => Seq::<Seq<char>>::empty(),
        }));
    } else {
        assert(ns.push(n)[0] == ns[0]);
        assert(ns.push(n).drop_first() =~= ns.drop_first().push(n));
        lemma_descs_list_push(ns.drop_first(), n);
        assert(descs_list(ns.push(n)) == (match ns[0] {
            SpecNode::ActionDescription { text, .. } => seq![text@],
            _ => Seq::<Seq<char>>::empty(),
        }) + descs_list(ns.drop_first().push(n)));
        assert(descs_list(ns) == (match ns[0] {
            SpecNode::ActionDescription { text, .. } => seq![text@],
            _ => Seq::<Seq<char>>::empty(),
        }) + descs_list(ns.drop_first()));
        assert(descs_list(ns.push(n)) =~= descs_list(ns) + (match n {
            SpecNode::ActionDescription { text, .. } => seq![text@],
            _ => Seq::<Seq<char>>::empty(),
        }));
    }
}

/// The names of a non-empty list are its head's name and the rest's.
pub proof fn lemma_names_of_cons(ms: Seq<HelperModel>)
    requires
        ms.len() > 0,
    ensures
        names_of(ms) =~= names_of(ms.drop_first()).insert(ms[0].name),
{
    assert forall|x: Seq<char>| names_of(ms).contains(x) implies names_of(
        ms.drop_first(),
    ).insert(ms[0].name).contains(x) by {
        let i = choose|i: int| 0 <= i < ms.len() && ms[i].name == x;
        if i > 0 {
            assert(ms.drop_first()[i - 1].name == x);
        }
    }
    assert forall|x: Seq<char>| names_of(ms.drop_first()).insert(ms[0].name).contains(
        x,
    ) implies names_of(ms).contains(x) by {
        if x == ms[0].name {
            assert(ms[0].name == x);
        } else {
            let j = choose|j: int|
                0 <= j < ms.drop_first().len() && ms.drop_first()[j].name == x;
            assert(ms[j + 1].name == x);
        }
    }
}

/// Deduplication splits over concatenation: the right part is
/// deduplicated with the left part's names already seen.
pub proof fn lemma_dedup_concat(a: Seq<HelperModel>, b: Seq<HelperModel>, seen: Set<Seq<char>>)
    ensures
        dedup_from(a + b, seen) == dedup_from(a, seen) + dedup_from(b, seen.union(names_of(a))),
    decreases a.len(),
{
    if a.len() == 0 {
        assert(a + b =~= b);
        assert(names_of(a) =~= Set::<Seq<char>>::empty());
        assert(seen.union(names_of(a)) =~= seen);
        assert(dedup_from(a, seen) + dedup_from(b, seen) =~= dedup_from(b, seen));
    } else {
        assert((a + b)[0] == a[0]);
        assert((a + b).drop_first() =~= a.drop_first() + b);
        lemma_names_of_cons(a);
        if seen.contains(a[0].name) {
            lemma_dedup_concat(a.drop_first(), b, seen);
            assert(seen.union(names_of(a.drop_first())) =~= seen.union(names_of(a)));
        } else {
            lemma_dedup_concat(a.drop_first(), b, seen.insert(a[0].name));
            assert(seen.insert(a[0].name).union(names_of(a.drop_first())) =~= seen.union(
                names_of(a),
            ));
            assert(dedup_from(a + b, seen) =~= dedup_from(a, seen) + dedup_from(
                b,
                seen.union(names_of(a)),
            ));
        }
    }
}

/// The names kept by deduplication are exactly the names given, less
/// those already seen.
pub proof fn lemma_names_of_dedup(ms: Seq<HelperModel>, seen: Set<Seq<char>>)
    ensures
        names_of(dedup_from(ms, seen)) =~= names_of(ms).difference(seen),
    decreases ms.len(),
{
    if ms.len() == 0 {
        assert(names_of(ms) =~= Set::<Seq<char>>::empty());
        assert(names_of(dedup_from(ms, seen)) =~= Set::<Seq<char>>::empty());
    } else {
        lemma_names_of_cons(ms);
        if seen.contains(ms[0].name) {
            lemma_names_of_dedup(ms.drop_first(), seen);
        } else {
            lemma_names_of_dedup(ms.drop_first(), seen.insert(ms[0].name));
            let d = dedup_from(ms, seen);
            let drest = dedup_from(ms.drop_first(), seen.insert(ms[0].name));
            assert(d == seq![ms[0]] + drest);
            assert(d.drop_first() =~= drest);
            assert(d.len() > 0 && d[0] == ms[0]);
            lemma_names_of_cons(d);
        }
    }
}

} // verus!
