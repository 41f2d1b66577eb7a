//! Translation of a specification tree into the high-level
//! representation of a test file.

use vstd::prelude::*;

use crate::chars::{contains_chars, contains_sub, str_to_chars, to_lower_chars};
use crate::hir::{
    hf_models, str_views, test_matches, tests_match, Attribute, Comment, ContextStruct,
    HelperFunction, Hir, Root, TestFunction, TestModule,
};
use crate::model::{
    descs_list, expected_helpers, expected_tests, helpers_list, helpers_node,
    lemma_dedup_concat, lemma_descs_list_push, lemma_helpers_list_push, lemma_names_of_cons,
    lemma_names_of_dedup, lemma_tests_list_push, dedup_from, names_of, panic_keywords,
    should_panic_spec, test_name_spec, tests_list, tests_node, HelperModel, TestModel,
};
use crate::slug::slug;
use crate::tree::{Span, SpecNode};

verus! {

/// The error of translating a malformed tree.
#[derive(Debug, Clone, Copy, PartialEq, Eq, Structural)]
pub enum StructureError {
    /// The input was not a root node.
    NotRoot,
}

impl StructureError {
    /// The error, in words.
    pub fn describe(&self) -> (r: String)
        ensures
            r@ == "Expected Root node"@,
    {
        String::from_str("Expected Root node")
    }
}

/// Copy a list of strings.
pub fn clone_strings(v: &Vec<String>) -> (r: Vec<String>)
    ensures
        r@ == v@,
{
    let mut out: Vec<String> = Vec::new();
    let mut i: usize = 0;
    while i < v.len()
        invariant
            0 <= i <= v@.len(),
            out@ == v@.take(i as int),
        decreases v@.len() - i,
    {
        out.push(v[i].clone());
        proof {
            assert(v@.take(i + 1 as int) =~= v@.take(i as int).push(v@[i as int]));
        }
        i = i + 1;
    }
    proof {
        assert(v@.take(v@.len() as int) =~= v@);
    }
    out
}

/// Whether a helper with this name was already collected.
fn contains_helper_name(hs: &Vec<HelperFunction>, name: &String) -> (r: bool)
    ensures
        r == names_of(hf_models(hs@)).contains(name@),
{
    let mut i: usize = 0;
    while i < hs.len()
        invariant
            0 <= i <= hs@.len(),
            forall|j: int| 0 <= j < i ==> hf_models(hs@)[j].name != name@,
        decreases hs@.len() - i,
    {
        if hs[i].name == *name {
            proof {
                assert(hf_models(hs@)[i as int].name == name@);
            }
            return true;
        }
        i = i + 1;
    }
    proof {
        if names_of(hf_models(hs@)).contains(name@) {
            let j = choose|j: int|
                0 <= j < hf_models(hs@).len() && hf_models(hs@)[j].name == name@;
            assert(hf_models(hs@)[j].name != name@);
        }
    }
    false
}

/// Translates a specification tree into the representation of a test
/// file.
#[derive(Debug, Clone)]
pub struct Translator {
    /// Whether descriptions are capitalized and punctuated.
    format_descriptions: bool,
    /// Whether helper functions are skipped.
    skip_helpers: bool,
}

impl Translator {
    /// Create a translator.
    pub fn new(format_descriptions: bool, skip_helpers: bool) -> (r: Self)
        ensures
            r.spec_format_descriptions() == format_descriptions,
            r.spec_skip_helpers() == skip_helpers,
    {
        Translator { format_descriptions, skip_helpers }
    }

    /// Whether descriptions are capitalized and punctuated.
    pub closed spec fn spec_format_descriptions(&self) -> bool {
        self.format_descriptions
    }

    /// Whether helper functions are skipped.
    pub closed spec fn spec_skip_helpers(&self) -> bool {
        self.skip_helpers
    }

    /// The canonical identifier of a title.
    pub fn to_snake_case(&self, s: &str) -> (r: String)
        ensures
            r@ == slug(s@),
    {
        crate::slug::to_snake_case(s)
    }

    /// Whether a title marks its test as expected to fail: its
    /// case-folded text contains one of the fixed keywords as a
    /// substring.
    pub fn should_panic(&self, title: &str) -> (r: bool)
        ensures
            r == should_panic_spec(title@),
    {
        let cs = str_to_chars(title);
        let low = to_lower_chars(&cs);
        let kws: Vec<Vec<char>> = vec![
            vec!['p', 'a', 'n', 'i', 'c'],
            vec!['p', 'a', 'n', 'i', 'c', 's'],
            vec!['r', 'e', 'v', 'e', 'r', 't'],
            vec!['r', 'e', 'v', 'e', 'r', 't', 's'],
            vec!['e', 'r', 'r', 'o', 'r'],
            vec!['e', 'r', 'r', 'o', 'r', 's'],
            vec!['f', 'a', 'i', 'l'],
            vec!['f', 'a', 'i', 'l', 's'],
        ];
        proof {
            assert(kws@.len() == panic_keywords().len());
            assert(kws@[0]@ =~= panic_keywords()[0]);
            assert(kws@[1]@ =~= panic_keywords()[1]);
            assert(kws@[2]@ =~= panic_keywords()[2]);
            assert(kws@[3]@ =~= panic_keywords()[3]);
            assert(kws@[4]@ =~= panic_keywords()[4]);
            assert(kws@[5]@ =~= panic_keywords()[5]);
            assert(kws@[6]@ =~= panic_keywords()[6]);
            assert(kws@[7]@ =~= panic_keywords()[7]);
        }
        let mut i: usize = 0;
        while i < kws.len()
            invariant
                0 <= i <= kws@.len(),
                kws@.len() == panic_keywords().len(),
                low@ == crate::chars::lower_seq(title@),
                forall|k: int| 0 <= k < kws@.len() ==> (#[trigger] kws@[k])@ == panic_keywords()[k],
                forall|k: int|
                    0 <= k < i ==> !contains_sub(
                        crate::chars::lower_seq(title@),
                        #[trigger] panic_keywords()[k],
                    ),
            decreases kws@.len() - i,
        {
            if contains_chars(&low, &kws[i]) {
                return true;
            }
            i = i + 1;
        }
        false
    }

    /// Collect the helper functions of a list of nodes: one per
    /// first-seen condition identifier, in pre-order.
    fn collect_helpers(&self, ns: &Vec<SpecNode>) -> (r: Vec<HelperFunction>)
        ensures
            hf_models(r@) == dedup_from(helpers_list(ns@), Set::empty()),
            forall|i: int|
                0 <= i < r@.len() ==> (#[trigger] r@[i]).doc is Some && r@[i].span is Some,
    {
        let mut out: Vec<HelperFunction> = Vec::new();
        proof {
            assert(hf_models(out@) =~= Seq::<HelperModel>::empty());
            assert(names_of(hf_models(out@)) =~= Set::<Seq<char>>::empty());
        }
        self.collect_helpers_recursive(ns, &mut out);
        out
    }

    /// Walk a list of nodes, collecting a helper for each condition
    /// whose identifier has not been collected yet.
    fn collect_helpers_recursive(&self, ns: &Vec<SpecNode>, out: &mut Vec<HelperFunction>)
        ensures
            hf_models(final(out)@) == hf_models(old(out)@) + dedup_from(
                helpers_list(ns@),
                names_of(hf_models(old(out)@)),
            ),
            forall|i: int|
                0 <= i < old(out)@.len() ==> final(out)@[i] == #[trigger] old(out)@[i],
            forall|i: int|
                old(out)@.len() <= i < final(out)@.len() ==> (#[trigger] final(out)@[i]).doc
                    is Some && final(out)@[i].span is Some,
        decreases ns@,
    {
        let ghost m0 = hf_models(out@);
        let ghost seen0 = names_of(hf_models(out@));
        let mut i: usize = 0;
        proof {
            assert(ns@.take(0) =~= Seq::<SpecNode>::empty());
            assert(helpers_list(ns@.take(0)) =~= Seq::<HelperModel>::empty());
            assert(dedup_from(helpers_list(ns@.take(0)), seen0) =~= Seq::<HelperModel>::empty());
            assert(hf_models(out@) =~= m0 + dedup_from(helpers_list(ns@.take(0)), seen0));
        }
        while i < ns.len()
            invariant
                0 <= i <= ns@.len(),
                m0 == hf_models(old(out)@),
                seen0 == names_of(hf_models(old(out)@)),
                hf_models(out@) == m0 + dedup_from(helpers_list(ns@.take(i as int)), seen0),
                forall|j: int| 0 <= j < old(out)@.len() ==> out@[j] == #[trigger] old(out)@[j],
                out@.len() >= old(out)@.len(),
                forall|j: int|
                    old(out)@.len() <= j < out@.len() ==> (#[trigger] out@[j]).doc is Some
                        && out@[j].span is Some,
            decreases ns@.len() - i,
        {
            let ghost processed = helpers_list(ns@.take(i as int));
            proof {
                assert(ns@.take(i + 1 as int) =~= ns@.take(i as int).push(ns@[i as int]));
                lemma_helpers_list_push(ns@.take(i as int), ns@[i as int]);
            }
            match &ns[i] {
                SpecNode::Condition { title, span, children } => {
                    proof {
                        assert(decreases_to!(ns@ => ns@[i as int]));
                    }
                    let ghost node_models = helpers_node(ns@[i as int]);
                    let ghost mc = HelperModel {
                        name: slug(title@),
                        title: title@,
                        span: *span,
                    };
                    let ghost seen_i = seen0.union(names_of(processed));
                    proof {
                        assert(node_models == seq![mc] + helpers_list(children@));
                        assert(node_models[0] == mc);
                        assert(node_models.drop_first() =~= helpers_list(children@));
                        assert(seq![mc].drop_first() =~= Seq::<HelperModel>::empty());
                        lemma_names_of_cons(seq![mc]);
                        assert(names_of(Seq::<HelperModel>::empty()) =~= Set::<Seq<char>>::empty());
                        assert(names_of(seq![mc]) =~= Set::<Seq<char>>::empty().insert(mc.name));
                        lemma_names_of_concat(m0, dedup_from(processed, seen0));
                        lemma_names_of_dedup(processed, seen0);
                        assert(names_of(hf_models(out@)) =~= seen_i);
                    }
                    let name = self.to_snake_case(title.as_str());
                    let ghost pre = hf_models(out@);
                    let ghost pre_vec = out@;
                    if !contains_helper_name(out, &name) {
                        out.push(
                            HelperFunction {
                                name,
                                doc: Some(title.clone()),
                                span: Some(Span { start: span.start, end: span.end }),
                            },
                        );
                        proof {
                            assert(hf_models(out@) =~= pre + seq![mc]);
                            lemma_names_of_concat(pre, seq![mc]);
                            assert(dedup_from(seq![mc], seen_i) == seq![mc] + dedup_from(
                                Seq::<HelperModel>::empty(),
                                seen_i.insert(mc.name),
                            ));
                            assert(dedup_from(seq![mc], seen_i) =~= seq![mc]);
                        }
                    } else {
                        proof {
                            assert(dedup_from(seq![mc], seen_i) == dedup_from(
                                Seq::<HelperModel>::empty(),
                                seen_i,
                            ));
                            assert(dedup_from(seq![mc], seen_i) =~= Seq::<HelperModel>::empty());
                            assert(hf_models(out@) =~= pre + dedup_from(seq![mc], seen_i));
                        }
                    }
                    let ghost mid_vec = out@;
                    proof {
                        assert(hf_models(out@) =~= pre + dedup_from(seq![mc], seen_i));
                        assert(names_of(hf_models(out@)) =~= seen_i.union(names_of(seq![mc])));
                    }
                    self.collect_helpers_recursive(children, out);
                    proof {
                        lemma_dedup_concat(seq![mc], helpers_list(children@), seen_i);
                        lemma_dedup_concat(processed, node_models, seen0);
                        assert(helpers_list(ns@.take(i + 1 as int)) == processed + node_models);
                        assert(hf_models(out@) =~= m0 + dedup_from(
                            helpers_list(ns@.take(i + 1 as int)),
                            seen0,
                        ));
                        assert forall|j: int| 0 <= j < old(out)@.len() implies out@[j]
                            == #[trigger] old(out)@[j] by {
                            assert(out@[j] == mid_vec[j]);
                            assert(mid_vec[j] == pre_vec[j]);
                        }
                        assert forall|j: int|
                            old(out)@.len() <= j < out@.len() implies (#[trigger] out@[j]).doc
                            is Some && out@[j].span is Some by {
                            if j < mid_vec.len() {
                                assert(out@[j] == mid_vec[j]);
                                if j < pre_vec.len() {
                                    assert(mid_vec[j] == pre_vec[j]);
                                }
                            }
                        }
                    }
                },
                _ => {
                    proof {
                        assert(helpers_node(ns@[i as int]) =~= Seq::<HelperModel>::empty());
                        assert(helpers_list(ns@.take(i + 1 as int)) =~= processed);
                    }
                },
            }
            i = i + 1;
        }
        proof {
            assert(ns@.take(ns@.len() as int) =~= ns@);
        }
    }

    /// Translate one action into a test function.
    fn translate_action(
        &self,
        title: &String,
        span: &Span,
        children: &Vec<SpecNode>,
        helpers: &Vec<String>,
    ) -> (r: TestFunction)
        ensures
            test_matches(
                r,
                TestModel {
                    name: test_name_spec(slug(title@), str_views(helpers@)),
                    should_panic: should_panic_spec(title@),
                    comments: seq![title@] + descs_list(children@),
                    helpers: str_views(helpers@),
                    span: *span,
                },
                self.spec_format_descriptions(),
            ),
    {
        let action_part = self.to_snake_case(title.as_str());
        let mut name = String::from_str("test_");
        if helpers.len() > 0 {
            let last = &helpers[helpers.len() - 1];
            name.append(last.as_str());
            name.append("_");
            proof {
                assert(str_views(helpers@).last() == helpers@.last()@);
            }
        }
        name.append(action_part.as_str());

        let sp = self.should_panic(title.as_str());
        let mut attributes: Vec<Attribute> = Vec::new();
        attributes.push(Attribute::Test);
        if sp {
            attributes.push(Attribute::ShouldPanic);
            proof {
                assert(attributes@ =~= seq![Attribute::Test, Attribute::ShouldPanic]);
            }
        } else {
            proof {
                assert(attributes@ =~= seq![Attribute::Test]);
            }
        }

        let mut comments: Vec<Comment> = Vec::new();
        comments.push(Comment { text: title.clone(), format: self.format_descriptions });
        let ghost dl = descs_list(children@);
        let mut i: usize = 0;
        proof {
            assert(children@.take(0) =~= Seq::<SpecNode>::empty());
            assert(descs_list(children@.take(0)) =~= Seq::<Seq<char>>::empty());
        }
        while i < children.len()
            invariant
                0 <= i <= children@.len(),
                comments@.len() == 1 + descs_list(children@.take(i as int)).len(),
                comments@[0].text@ == title@,
                comments@[0].format == self.format_descriptions,
                forall|j: int|
                    0 <= j < descs_list(children@.take(i as int)).len() ==> (#[trigger] comments@[
                        j + 1
                    ]).text@ == descs_list(children@.take(i as int))[j] && comments@[j + 1].format
                        == self.format_descriptions,
            decreases children@.len() - i,
        {
            proof {
                assert(children@.take(i + 1 as int) =~= children@.take(i as int).push(
                    children@[i as int],
                ));
                lemma_descs_list_push(children@.take(i as int), children@[i as int]);
            }
            match &children[i] {
                SpecNode::ActionDescription { text, .. } => {
                    comments.push(Comment { text: text.clone(), format: self.format_descriptions });
                    proof {
                        assert(descs_list(children@.take(i + 1 as int)) =~= descs_list(
                            children@.take(i as int),
                        ).push(children@[i as int]->ActionDescription_text@));
                    }
                },
                _ => {
                    proof {
                        assert(descs_list(children@.take(i + 1 as int)) =~= descs_list(
                            children@.take(i as int),
                        ));
                    }
                },
            }
            i = i + 1;
        }
        proof {
            assert(children@.take(children@.len() as int) =~= children@);
        }

        let r = TestFunction {
            name,
            attributes,
            helpers: clone_strings(helpers),
            comments,
            span: Some(Span { start: span.start, end: span.end }),
        };
        proof {
            let m = TestModel {
                name: test_name_spec(slug(title@), str_views(helpers@)),
                should_panic: should_panic_spec(title@),
                comments: seq![title@] + descs_list(children@),
                helpers: str_views(helpers@),
                span: *span,
            };
            assert(r.comments@.len() == m.comments.len());
            assert forall|j: int| 0 <= j < m.comments.len() implies (#[trigger] r.comments@[
                j
            ]).text@ == m.comments[j] && r.comments@[j].format
                == self.spec_format_descriptions() by {
                if j > 0 {
                    assert(r.comments@[(j - 1) + 1].text@ == descs_list(children@)[j - 1]
                        && r.comments@[(j - 1) + 1].format == self.spec_format_descriptions());
                    assert(m.comments[j] == descs_list(children@)[j - 1]);
                }
            }
        }
        r
    }

    /// Walk a list of nodes, producing one test function per action, in
    /// pre-order, with the stack of enclosing condition identifiers.
    fn process_children(
        &self,
        ns: &Vec<SpecNode>,
        stack: &Vec<String>,
        out: &mut Vec<TestFunction>,
    )
        ensures
            final(out)@.len() == old(out)@.len() + tests_list(ns@, str_views(stack@)).len(),
            forall|j: int| 0 <= j < old(out)@.len() ==> final(out)@[j] == #[trigger] old(out)@[j],
            forall|j: int|
                0 <= j < tests_list(ns@, str_views(stack@)).len() ==> test_matches(
                    #[trigger] final(out)@[old(out)@.len() + j],
                    tests_list(ns@, str_views(stack@))[j],
                    self.spec_format_descriptions(),
                ),
        decreases ns@,
    {
        let ghost l0 = out@.len() as int;
        let ghost sv = str_views(stack@);
        let mut i: usize = 0;
        proof {
            assert(ns@.take(0) =~= Seq::<SpecNode>::empty());
            assert(tests_list(ns@.take(0), sv) =~= Seq::<TestModel>::empty());
        }
        while i < ns.len()
            invariant
                0 <= i <= ns@.len(),
                l0 == old(out)@.len(),
                sv == str_views(stack@),
                out@.len() == l0 + tests_list(ns@.take(i as int), sv).len(),
                forall|j: int| 0 <= j < l0 ==> out@[j] == #[trigger] old(out)@[j],
                forall|j: int|
                    0 <= j < tests_list(ns@.take(i as int), sv).len() ==> test_matches(
                        #[trigger] out@[l0 + j],
                        tests_list(ns@.take(i as int), sv)[j],
                        self.spec_format_descriptions(),
                    ),
            decreases ns@.len() - i,
        {
            let ghost processed = tests_list(ns@.take(i as int), sv);
            let ghost pre = out@;
            let ghost node_models = tests_node(ns@[i as int], sv);
            proof {
                assert(ns@.take(i + 1 as int) =~= ns@.take(i as int).push(ns@[i as int]));
                lemma_tests_list_push(ns@.take(i as int), ns@[i as int], sv);
                assert(tests_list(ns@.take(i + 1 as int), sv) == processed + node_models);
            }
            match &ns[i] {
                SpecNode::Condition { title, children, .. } => {
                    proof {
                        assert(decreases_to!(ns@ => ns@[i as int]));
                    }
                    let helper_name = self.to_snake_case(title.as_str());
                    let mut new_stack = clone_strings(stack);
                    new_stack.push(helper_name);
                    proof {
                        assert(str_views(new_stack@) =~= sv.push(slug(title@)));
                        assert(node_models == tests_list(children@, str_views(new_stack@)));
                    }
                    self.process_children(children, &new_stack, out);
                },
                SpecNode::Action { title, span, children } => {
                    let tf = self.translate_action(title, span, children, stack);
                    out.push(tf);
                    proof {
                        assert(node_models =~= seq![
                            TestModel {
                                name: test_name_spec(slug(title@), sv),
                                should_panic: should_panic_spec(title@),
                                comments: seq![title@] + descs_list(children@),
                                helpers: sv,
                                span: *span,
                            },
                        ]);
                        assert(out@[pre.len() as int] == tf);
                    }
                },
                _ => {
                    proof {
                        assert(node_models =~= Seq::<TestModel>::empty());
                    }
                },
            }
            proof {
                let combined = tests_list(ns@.take(i + 1 as int), sv);
                assert(out@.len() == l0 + combined.len());
                assert forall|j: int| 0 <= j < combined.len() implies test_matches(
                    #[trigger] out@[l0 + j],
                    combined[j],
                    self.spec_format_descriptions(),
                ) by {
                    if j < processed.len() {
                        assert(out@[l0 + j] == pre[l0 + j]);
                        assert(combined[j] == processed[j]);
                    } else {
                        assert(out@[pre.len() + (j - processed.len())] == out@[l0 + j]);
                        assert(combined[j] == node_models[j - processed.len()]);
                    }
                }
            }
            i = i + 1;
        }
        proof {
            assert(ns@.take(ns@.len() as int) =~= ns@);
        }
    }

    /// Translate a tree into the representation of its test file.
    ///
    /// Fails exactly when the input is not a root node.  On success the
    /// result is a root holding the conventional context struct, one
    /// helper per first-seen condition identifier (none when helpers
    /// are skipped), and one test per action, in pre-order.
    pub fn translate(&self, tree: &SpecNode) -> (r: Result<Hir, StructureError>)
        ensures
            r is Ok <==> (*tree) is Root,
            r matches Err(e) ==> e == StructureError::NotRoot,
            r matches Ok(hir) ==> hir matches Hir::Root(root) && crate::hir::root_matches(
                root,
                *tree,
                self.spec_skip_helpers(),
                self.spec_format_descriptions(),
            ),
    {
        match tree {
            SpecNode::Root { children } => {
                let helpers: Vec<HelperFunction> = if self.skip_helpers {
                    Vec::new()
                } else {
                    self.collect_helpers(children)
                };
                let empty_stack: Vec<String> = Vec::new();
                proof {
                    assert(str_views(empty_stack@) =~= Seq::<Seq<char>>::empty());
                    if self.skip_helpers {
                        assert(hf_models(Seq::<HelperFunction>::empty())
                            =~= Seq::<HelperModel>::empty());
                    }
                }
                let mut tests: Vec<TestFunction> = Vec::new();
                self.process_children(children, &empty_stack, &mut tests);
                proof {
                    let ms = tests_list(children@, Seq::empty());
                    assert(ms == expected_tests(*tree));
                    assert(tests@.len() == ms.len());
                    assert forall|j: int| 0 <= j < ms.len() implies test_matches(
                        #[trigger] tests@[j],
                        ms[j],
                        self.spec_format_descriptions(),
                    ) by {
                        assert(tests@[0 + j] == tests@[j]);
                    }
                    assert(tests_match(tests@, expected_tests(*tree), self.spec_format_descriptions()));
                }
                let module = TestModule { name: String::from_str("tests"), tests };
                Ok(Hir::Root(Root { context: ContextStruct::default(), helpers, module }))
            },
            _ => Err(StructureError::NotRoot),
        }
    }
}

/// The names of a concatenation are the union of the parts' names.
proof fn lemma_names_of_concat(a: Seq<HelperModel>, b: Seq<HelperModel>)
    ensures
        names_of(a + b) =~= names_of(a).union(names_of(b)),
{
    assert forall|x: Seq<char>| names_of(a + b).contains(x) implies names_of(a).union(
        names_of(b),
    ).contains(x) by {
        let i = choose|i: int| 0 <= i < (a + b).len() && (a + b)[i].name == x;
        if i < a.len() {
            assert(a[i].name == x);
        } else {
            assert(b[i - a.len()].name == x);
        }
    }
    assert forall|x: Seq<char>| names_of(a).union(names_of(b)).contains(x) implies names_of(
        a + b,
    ).contains(x) by {
        if names_of(a).contains(x) {
            let i = choose|i: int| 0 <= i < a.len() && a[i].name == x;
            assert((a + b)[i].name == x);
        } else {
            let i = choose|i: int| 0 <= i < b.len() && b[i].name == x;
            assert((a + b)[a.len() + i].name == x);
        }
    }
}

} // verus!
