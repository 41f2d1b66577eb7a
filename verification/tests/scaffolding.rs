use bulloak::config::Config;
use bulloak::hir::{Attribute, Hir};
use bulloak::scaffold::scaffold;
use bulloak::translator::Translator;
use bulloak::tree::{Span, SpecNode};

fn root(children: Vec<SpecNode>) -> SpecNode {
    SpecNode::Root { children }
}

fn cond(title: &str, children: Vec<SpecNode>) -> SpecNode {
    SpecNode::Condition { title: title.to_string(), span: Span::new(0, 0), children }
}

fn action(title: &str, children: Vec<SpecNode>) -> SpecNode {
    SpecNode::Action { title: title.to_string(), span: Span::new(0, 0), children }
}

fn desc(text: &str) -> SpecNode {
    SpecNode::ActionDescription { text: text.to_string(), span: Span::new(0, 0) }
}

fn cfg() -> Config {
    Config { files: Vec::new(), skip_helpers: false, format_descriptions: false }
}

#[test]
fn scaffolds_helper_and_test_for_condition_and_action() {
    let tree = root(vec![cond("When x", vec![action("It does y.", vec![])])]);
    let out = scaffold(&tree, &cfg()).unwrap();

    assert!(out.contains("struct TestContext"));
    assert!(out.contains("fn x()"));
    assert!(out.contains("#[cfg(test)]"));
    assert!(out.contains("mod tests"));
    assert!(out.contains("fn test_x_does_y()"));
    let helper_at = out.find("fn x()").unwrap();
    let test_at = out.find("fn test_x_does_y()").unwrap();
    assert!(helper_at < test_at);
}

#[test]
fn scaffolds_one_helper_for_colliding_condition_titles() {
    let tree = root(vec![
        cond("When x", vec![action("It does a.", vec![])]),
        cond("when X", vec![action("It does b.", vec![])]),
    ]);
    let out = scaffold(&tree, &cfg()).unwrap();

    assert_eq!(out.matches("fn x()").count(), 1);
    assert!(out.contains("fn test_x_does_a()"));
    assert!(out.contains("fn test_x_does_b()"));
}

#[test]
fn scaffolds_without_helpers_when_asked() {
    let tree = root(vec![cond("When ready", vec![action("It runs.", vec![])])]);
    let mut c = cfg();
    c.skip_helpers = true;
    let out = scaffold(&tree, &c).unwrap();

    assert!(!out.contains("fn ready()"));
    assert!(out.contains("struct TestContext"));
    assert!(out.contains("fn test_ready_runs()"));
}

#[test]
fn scaffolds_should_panic_marker_for_failing_actions() {
    let tree = root(vec![cond("When paused", vec![action("It should revert", vec![])])]);
    let out = scaffold(&tree, &cfg()).unwrap();

    let marker_at = out.find("#[should_panic]").unwrap();
    let test_at = out.find("fn test_paused_should_revert()").unwrap();
    assert!(marker_at < test_at);
}

#[test]
fn scaffolds_descriptions_as_comments_in_order() {
    let tree = root(vec![cond(
        "When called",
        vec![action("It returns the sum", vec![desc("first detail"), desc("second detail")])],
    )]);
    let out = scaffold(&tree, &cfg()).unwrap();

    let title_at = out.find("// It returns the sum").unwrap();
    let first_at = out.find("// first detail").unwrap();
    let second_at = out.find("// second detail").unwrap();
    assert!(title_at < first_at && first_at < second_at);
}

#[test]
fn scaffolds_formatted_descriptions_when_asked() {
    let tree = root(vec![cond(
        "When hashed",
        vec![
            action("It should match the result of hash(a, b)", vec![]),
            action("It should match the result of hash(b, a)", vec![]),
        ],
    )]);
    let mut c = cfg();
    c.format_descriptions = true;
    let out = scaffold(&tree, &c).unwrap();

    assert!(out.contains("// It should match the result of hash(a, b)."));
    assert!(out.contains("// It should match the result of hash(b, a)."));
}

#[test]
fn scaffold_rejects_a_non_root() {
    let tree = action("It stands alone", vec![]);
    let r = scaffold(&tree, &cfg());
    assert!(r.is_err());
    assert_eq!(r.unwrap_err().describe(), "Expected Root node");
}

#[test]
fn scaffolds_nested_conditions_with_innermost_helper_in_name() {
    let tree = root(vec![cond(
        "When outer",
        vec![cond("When inner", vec![action("It acts", vec![])])],
    )]);
    let out = scaffold(&tree, &cfg()).unwrap();

    assert!(out.contains("fn outer()"));
    assert!(out.contains("fn inner()"));
    assert!(out.contains("fn test_inner_acts()"));
    assert!(!out.contains("fn test_outer_inner_acts()"));
}

#[test]
fn translate_builds_the_expected_representation() {
    let tree = root(vec![
        cond("When x", vec![action("It does a.", vec![])]),
        cond("when X", vec![action("It should fail", vec![])]),
    ]);
    let hir = Translator::new(false, false).translate(&tree).unwrap();
    assert!(hir.is_root());
    assert!(!hir.is_helper());
    match hir {
        Hir::Root(root) => {
            assert_eq!(root.context.name, "TestContext");
            assert_eq!(root.helpers.len(), 1);
            assert_eq!(root.helpers[0].name, "x");
            assert_eq!(root.helpers[0].doc.as_deref(), Some("When x"));
            assert_eq!(root.module.name, "tests");
            assert_eq!(root.module.tests.len(), 2);
            assert_eq!(root.module.tests[0].name, "test_x_does_a");
            assert_eq!(root.module.tests[0].attributes, vec![Attribute::Test]);
            assert_eq!(root.module.tests[1].name, "test_x_should_fail");
            assert_eq!(
                root.module.tests[1].attributes,
                vec![Attribute::Test, Attribute::ShouldPanic]
            );
        }
        _ => unreachable!(),
    }
}
