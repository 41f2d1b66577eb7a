use bulloak::check::{check, check_and_fix, derived_test_path};
use bulloak::extractor::ParsedRustFile;
use bulloak::config::Config;
use bulloak::scaffold::scaffold;
use bulloak::tree::{Span, SpecNode};
use bulloak::violation::{count_fixable, Violation, ViolationKind};

fn root(children: Vec<SpecNode>) -> SpecNode {
    SpecNode::Root { children }
}

fn cond(title: &str, children: Vec<SpecNode>) -> SpecNode {
    SpecNode::Condition { title: title.to_string(), span: Span::new(0, 0), children }
}

fn action(title: &str, children: Vec<SpecNode>) -> SpecNode {
    SpecNode::Action { title: title.to_string(), span: Span::new(0, 0), children }
}

fn desc(text: &str) -> SpecNode {
    SpecNode::ActionDescription { text: text.to_string(), span: Span::new(0, 0) }
}

fn cfg() -> Config {
    Config { files: Vec::new(), skip_helpers: false, format_descriptions: false }
}

fn sample_tree() -> SpecNode {
    root(vec![
        cond(
            "When the amount is zero",
            vec![action("It should revert", vec![]), action("It emits nothing", vec![])],
        ),
        cond("When the amount is positive", vec![action("It transfers", vec![])]),
    ])
}

#[test]
fn check_after_scaffold_finds_nothing() {
    let tree = sample_tree();
    let generated = scaffold(&tree, &cfg()).unwrap();
    let vs = check(&tree, Some(generated.as_str()), "sample_test.rs", &cfg()).unwrap();
    assert!(vs.is_empty());
}

#[test]
fn check_reports_a_missing_file() {
    let tree = sample_tree();
    let vs = check(&tree, None, "sample_test.rs", &cfg()).unwrap();
    assert_eq!(vs.len(), 1);
    assert!(matches!(vs[0].kind, ViolationKind::RustFileMissing));
    assert!(!vs[0].kind.is_fixable());
    assert_eq!(vs[0].describe(), "sample_test.rs: Rust test file is missing");
}

#[test]
fn check_reports_an_unparseable_file() {
    let tree = sample_tree();
    let vs = check(&tree, Some("fn broken( {"), "bad_test.rs", &cfg()).unwrap();
    assert_eq!(vs.len(), 1);
    assert!(matches!(vs[0].kind, ViolationKind::RustFileInvalid(_)));
    assert!(!vs[0].kind.is_fixable());
}

#[test]
fn check_reports_a_missing_test_module() {
    let tree = sample_tree();
    let src = "struct TestContext {}\nfn the_amount_is_zero() {}\n";
    let vs = check(&tree, Some(src), "no_module_test.rs", &cfg()).unwrap();
    assert_eq!(vs.len(), 1);
    assert!(matches!(vs[0].kind, ViolationKind::TestModuleMissing));
    assert!(vs[0].kind.is_fixable());
    assert_eq!(
        vs[0].describe(),
        "no_module_test.rs: Test module (#[cfg(test)] mod tests) is missing"
    );
}

#[test]
fn check_reports_missing_helpers_and_tests() {
    let tree = sample_tree();
    let src = r#"
struct TestContext {}

fn the_amount_is_zero() {}

#[cfg(test)]
mod tests {
    #[test]
    #[should_panic]
    fn test_the_amount_is_zero_should_revert() {}

    #[test]
    fn test_the_amount_is_zero_emits_nothing() {}
}
"#;
    let vs = check(&tree, Some(src), "partial_test.rs", &cfg()).unwrap();
    let missing_helpers: Vec<&Violation> = vs
        .iter()
        .filter(|v| matches!(v.kind, ViolationKind::HelperFunctionMissing(_)))
        .collect();
    let missing_tests: Vec<&Violation> = vs
        .iter()
        .filter(|v| matches!(v.kind, ViolationKind::TestFunctionMissing(_)))
        .collect();
    assert_eq!(missing_helpers.len(), 1);
    assert_eq!(missing_tests.len(), 1);
    match &missing_helpers[0].kind {
        ViolationKind::HelperFunctionMissing(name) => {
            assert_eq!(name, "the_amount_is_positive");
        }
        _ => unreachable!(),
    }
    match &missing_tests[0].kind {
        ViolationKind::TestFunctionMissing(name) => {
            assert_eq!(name, "test_the_amount_is_positive_transfers");
        }
        _ => unreachable!(),
    }
}

#[test]
fn check_reports_a_missing_failure_marker() {
    let tree = root(vec![action("It should revert when paused", vec![])]);
    let src = r#"
struct TestContext {}

#[cfg(test)]
mod tests {
    #[test]
    fn test_should_revert_when_paused() {}
}
"#;
    let vs = check(&tree, Some(src), "marker_test.rs", &cfg()).unwrap();
    assert_eq!(vs.len(), 1);
    match &vs[0].kind {
        ViolationKind::TestAttributeIncorrect { function, expected, found } => {
            assert_eq!(function, "test_should_revert_when_paused");
            assert_eq!(expected, "#[should_panic]");
            assert_eq!(found, "none");
        }
        _ => unreachable!(),
    }
    assert_eq!(
        vs[0].describe(),
        "marker_test.rs: Test function 'test_should_revert_when_paused' has incorrect attributes: expected #[should_panic], found none"
    );
}

#[test]
fn check_never_flags_an_unexpected_failure_marker() {
    let tree = root(vec![action("It counts", vec![])]);
    let src = r#"
#[cfg(test)]
mod tests {
    #[test]
    #[should_panic]
    fn test_counts() {}
}
"#;
    let vs = check(&tree, Some(src), "extra_marker_test.rs", &cfg()).unwrap();
    assert!(vs.is_empty());
}

#[test]
fn check_reports_one_order_violation_for_the_whole_file() {
    let tree = root(vec![
        action("It a", vec![]),
        action("It b", vec![]),
        action("It c", vec![]),
    ]);
    let src = r#"
#[cfg(test)]
mod tests {
    #[test]
    fn setup() {}

    #[test]
    fn test_a() {}

    #[test]
    fn test_c() {}

    #[test]
    fn test_b() {}
}
"#;
    let vs = check(&tree, Some(src), "order_test.rs", &cfg()).unwrap();
    assert_eq!(vs.len(), 1);
    assert!(matches!(vs[0].kind, ViolationKind::TestOrderIncorrect));
    assert_eq!(vs[0].describe(), "order_test.rs: Test function order does not match spec order");
}

#[test]
fn check_allows_gaps_between_expected_tests() {
    let tree = root(vec![action("It a", vec![]), action("It b", vec![])]);
    let src = r#"
#[cfg(test)]
mod tests {
    #[test]
    fn test_a() {}

    #[test]
    fn extra_between() {}

    #[test]
    fn test_b() {}
}
"#;
    let vs = check(&tree, Some(src), "gaps_test.rs", &cfg()).unwrap();
    assert!(vs.is_empty());
}

#[test]
fn fix_reorders_expected_tests_first_and_keeps_extras() {
    let tree = root(vec![
        action("It a", vec![]),
        action("It b", vec![]),
        action("It c", vec![]),
    ]);
    let src = r#"
#[cfg(test)]
mod tests {
    #[test]
    fn setup() {}

    #[test]
    fn test_a() {}

    #[test]
    fn test_c() {}

    #[test]
    fn test_b() {}
}
"#;
    let outcome = check_and_fix(&tree, Some(src), "order_test.rs", &cfg()).unwrap();
    assert_eq!(outcome.fixed, 1);
    let fixed = outcome.output.unwrap();
    let a = fixed.find("fn test_a()").unwrap();
    let b = fixed.find("fn test_b()").unwrap();
    let c = fixed.find("fn test_c()").unwrap();
    let setup = fixed.find("fn setup()").unwrap();
    assert!(a < b && b < c && c < setup);

    let vs = check(&tree, Some(fixed.as_str()), "order_test.rs", &cfg()).unwrap();
    assert!(vs.is_empty());
}

#[test]
fn fix_then_check_leaves_no_fixable_violations() {
    let tree = sample_tree();
    let src = r#"
struct TestContext {}

#[cfg(test)]
mod tests {
    #[test]
    fn test_the_amount_is_zero_should_revert() {}
}
"#;
    let outcome = check_and_fix(&tree, Some(src), "broken_test.rs", &cfg()).unwrap();
    assert!(outcome.fixed > 0);
    assert_eq!(outcome.fixed, outcome.violations.len());
    let fixed = outcome.output.unwrap();
    let vs = check(&tree, Some(fixed.as_str()), "broken_test.rs", &cfg()).unwrap();
    assert!(vs.is_empty());
}

#[test]
fn fix_regenerates_a_file_without_a_container() {
    let tree = sample_tree();
    let src = "struct Unrelated {}\n";
    let outcome = check_and_fix(&tree, Some(src), "empty_test.rs", &cfg()).unwrap();
    assert_eq!(outcome.violations.len(), 1);
    assert!(matches!(outcome.violations[0].kind, ViolationKind::TestModuleMissing));
    let fixed = outcome.output.unwrap();
    let vs = check(&tree, Some(fixed.as_str()), "empty_test.rs", &cfg()).unwrap();
    assert!(vs.is_empty());
}

#[test]
fn fix_cannot_repair_a_missing_file() {
    let tree = sample_tree();
    let outcome = check_and_fix(&tree, None, "gone_test.rs", &cfg()).unwrap();
    assert_eq!(outcome.fixed, 0);
    assert!(outcome.output.is_none());
    assert_eq!(outcome.violations.len(), 1);
    assert!(!outcome.violations[0].kind.is_fixable());
}

#[test]
fn check_skips_helpers_when_asked() {
    let tree = sample_tree();
    let mut c = cfg();
    c.skip_helpers = true;
    let src = r#"
#[cfg(test)]
mod tests {
    #[test]
    #[should_panic]
    fn test_the_amount_is_zero_should_revert() {}

    #[test]
    fn test_the_amount_is_zero_emits_nothing() {}

    #[test]
    fn test_the_amount_is_positive_transfers() {}
}
"#;
    let vs = check(&tree, Some(src), "skip_test.rs", &cfg().clone()).unwrap();
    assert!(!vs.is_empty());
    let vs_skipped = check(&tree, Some(src), "skip_test.rs", &c).unwrap();
    assert!(vs_skipped.is_empty());
}

#[test]
fn violation_lines_render_in_reports() {
    let v = Violation::with_line(
        ViolationKind::TestOrderIncorrect,
        "dir/file_test.rs".to_string(),
        127,
    );
    assert_eq!(
        v.describe(),
        "dir/file_test.rs:127: Test function order does not match spec order"
    );
}

#[test]
fn extraction_sees_through_the_grammar() {
    let source = r#"
        fn helper_function() {}

        #[cfg(test)]
        mod tests {
            #[test]
            fn test_something() {}

            #[test]
            #[should_panic]
            fn test_panics() {}
        }
    "#;
    let parsed = ParsedRustFile::parse(source).unwrap();
    assert!(parsed.find_test_module().is_some());

    let test_fns = parsed.find_test_functions();
    assert_eq!(test_fns.len(), 2);
    assert_eq!(test_fns[0].sig.ident.to_string(), "test_something");
    assert!(!ParsedRustFile::has_should_panic(&test_fns[0]));
    assert!(ParsedRustFile::has_should_panic(&test_fns[1]));

    let helpers = parsed.find_helper_functions();
    assert_eq!(helpers.len(), 1);
    assert_eq!(helpers[0].sig.ident.to_string(), "helper_function");
}

#[test]
fn test_parse_simple_file() {
    let source = r#"
        #[cfg(test)]
        mod tests {
            #[test]
            fn test_something() {}
        }
    "#;

    let parsed = ParsedRustFile::parse(source).unwrap();
    assert!(parsed.find_test_module().is_some());

    let test_fns = parsed.find_test_functions();
    assert_eq!(test_fns.len(), 1);
    assert_eq!(test_fns[0].sig.ident.to_string(), "test_something");
}

#[test]
fn test_find_helper_functions() {
    let source = r#"
        fn helper_function() {}

        #[cfg(test)]
        mod tests {
            use super::*;

            #[test]
            fn test_something() {}
        }
    "#;

    let parsed = ParsedRustFile::parse(source).unwrap();
    let helpers = parsed.find_helper_functions();
    assert_eq!(helpers.len(), 1);
    assert_eq!(helpers[0].sig.ident.to_string(), "helper_function");
}

#[test]
fn test_has_should_panic() {
    let source = r#"
        #[cfg(test)]
        mod tests {
            #[test]
            #[should_panic]
            fn test_panics() {}

            #[test]
            fn test_normal() {}
        }
    "#;

    let parsed = ParsedRustFile::parse(source).unwrap();
    let test_fns = parsed.find_test_functions();

    assert_eq!(test_fns.len(), 2);
    assert!(ParsedRustFile::has_should_panic(&test_fns[0]));
    assert!(!ParsedRustFile::has_should_panic(&test_fns[1]));
}

#[test]
fn context_struct_is_found_by_name() {
    let source = r#"
        struct TestContext {}

        #[cfg(test)]
        mod tests {}
    "#;
    let parsed = ParsedRustFile::parse(source).unwrap();
    let ctx = parsed.find_context_struct();
    assert!(ctx.is_some());
    assert_eq!(ctx.unwrap().ident.to_string(), "TestContext");
}

#[test]
fn check_after_scaffold_finds_nothing_with_skipped_helpers() {
    let tree = sample_tree();
    let mut c = cfg();
    c.skip_helpers = true;
    let generated = scaffold(&tree, &c).unwrap();
    let vs = check(&tree, Some(generated.as_str()), "sample_test.rs", &c).unwrap();
    assert!(vs.is_empty());
}

#[test]
fn check_after_scaffold_finds_nothing_with_formatted_descriptions() {
    let tree = sample_tree();
    let mut c = cfg();
    c.format_descriptions = true;
    let generated = scaffold(&tree, &c).unwrap();
    let vs = check(&tree, Some(generated.as_str()), "sample_test.rs", &c).unwrap();
    assert!(vs.is_empty());
}

#[test]
fn check_of_an_empty_specification_needs_only_the_container() {
    let tree = root(vec![]);
    let generated = scaffold(&tree, &cfg()).unwrap();
    let vs = check(&tree, Some(generated.as_str()), "empty_test.rs", &cfg()).unwrap();
    assert!(vs.is_empty());

    let bare = "#[cfg(test)]\nmod tests {}\n";
    let vs = check(&tree, Some(bare), "empty_test.rs", &cfg()).unwrap();
    assert!(vs.is_empty());
}

#[test]
fn count_fixable_counts_only_what_repair_addresses() {
    let vs = vec![
        Violation::new(ViolationKind::RustFileMissing, "a_test.rs".to_string()),
        Violation::new(ViolationKind::TestOrderIncorrect, "a_test.rs".to_string()),
        Violation::new(
            ViolationKind::HelperFunctionMissing("x".to_string()),
            "a_test.rs".to_string(),
        ),
    ];
    assert_eq!(count_fixable(&vs), 2);
}

#[test]
fn fix_inserts_missing_declarations_with_their_comments() {
    let tree = root(vec![cond(
        "When empty",
        vec![action("It should revert", vec![desc("the balance stays put")])],
    )]);
    let src = "#[cfg(test)]\nmod tests {}\n";
    let outcome = check_and_fix(&tree, Some(src), "insert_test.rs", &cfg()).unwrap();
    let fixed = outcome.output.unwrap();

    assert!(fixed.contains("/// When empty"));
    assert!(fixed.contains("fn empty()"));
    assert!(fixed.contains("#[should_panic]"));
    assert!(fixed.contains("fn test_empty_should_revert()"));
    assert!(fixed.contains("// It should revert"));
    assert!(fixed.contains("// the balance stays put"));

    let vs = check(&tree, Some(fixed.as_str()), "insert_test.rs", &cfg()).unwrap();
    assert!(vs.is_empty());
}

#[test]
fn derived_test_path_follows_the_stem_rule() {
    assert_eq!(derived_test_path("basic.tree"), "basic_test.rs");
    assert_eq!(derived_test_path("dir/sub/basic.tree"), "dir/sub/basic_test.rs");
    assert_eq!(derived_test_path("dir.with.dots/plain"), "dir.with.dots/plain_test.rs");
    assert_eq!(derived_test_path("a.b.tree"), "a.b_test.rs");
    assert_eq!(derived_test_path(".tree"), ".tree_test.rs");
}

#[test]
fn container_detection_reads_cfg_arguments() {
    let tree = root(vec![action("It a", vec![])]);
    let guarded = r#"
#[cfg(any(test, doc))]
mod tests {
    #[test]
    fn test_a() {}
}
"#;
    let vs = check(&tree, Some(guarded), "guarded_test.rs", &cfg()).unwrap();
    assert!(vs.is_empty());

    let unrelated = r#"
#[cfg(feature = "extra")]
mod helpers {
    #[test]
    fn test_a() {}
}
"#;
    let vs = check(&tree, Some(unrelated), "unrelated_test.rs", &cfg()).unwrap();
    assert_eq!(vs.len(), 1);
    assert!(matches!(vs[0].kind, ViolationKind::TestModuleMissing));
}
