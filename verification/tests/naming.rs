use bulloak::comment::format_comment;
use bulloak::slug::to_snake_case;
use bulloak::translator::Translator;

#[test]
fn utils_test_to_snake_case() {
    assert_eq!(to_snake_case("when first arg is smaller"), "first_arg_is_smaller");
    assert_eq!(to_snake_case("It should return the sum"), "should_return_the_sum");
    assert_eq!(to_snake_case("given a valid input"), "a_valid_input");
}

#[test]
fn noir_utils_test_to_snake_case() {
    assert_eq!(to_snake_case("When user is logged in"), "user_is_logged_in");
    assert_eq!(to_snake_case("It should return true"), "should_return_true");
    assert_eq!(to_snake_case("given amount is zero"), "amount_is_zero");
    assert_eq!(
        to_snake_case("When first arg is bigger than second arg"),
        "first_arg_is_bigger_than_second_arg"
    );
}

#[test]
fn test_to_snake_case_with_special_chars() {
    assert_eq!(to_snake_case("It's working!"), "its_working");
    assert_eq!(to_snake_case("value > 100"), "value_100");
}

#[test]
fn translator_test_to_snake_case() {
    let translator = Translator::new(false, false);

    assert_eq!(translator.to_snake_case("when first arg is smaller"), "first_arg_is_smaller");
    assert_eq!(translator.to_snake_case("It should return the sum"), "should_return_the_sum");
    assert_eq!(translator.to_snake_case("Given a valid input"), "a_valid_input");
}

#[test]
fn test_should_panic() {
    let translator = Translator::new(false, false);

    assert!(translator.should_panic("It should panic"));
    assert!(translator.should_panic("It should revert"));
    assert!(translator.should_panic("It should fail with error"));
    assert!(!translator.should_panic("It should return a value"));
}

#[test]
fn test_format_comment() {
    assert_eq!(format_comment("should return sum"), "Should return sum.");
    assert_eq!(format_comment("Should return sum."), "Should return sum.");
    assert_eq!(format_comment("should panic!"), "Should panic!");
    assert_eq!(format_comment(""), "");
}

#[test]
fn slug_strips_at_most_one_keyword_in_any_casing() {
    assert_eq!(to_snake_case("wHeN the stars align"), "the_stars_align");
    assert_eq!(to_snake_case("GIVEN time"), "time");
    assert_eq!(to_snake_case("when given input"), "given_input");
    assert_eq!(to_snake_case("  it trims first  "), "trims_first");
}

#[test]
fn slug_collapses_case_folded_titles() {
    assert_eq!(to_snake_case("When x"), to_snake_case("when X"));
    assert_eq!(to_snake_case("When FOO happens"), to_snake_case("when foo HAPPENS"));
}

#[test]
fn should_panic_matches_substrings() {
    let translator = Translator::new(false, false);

    assert!(translator.should_panic("It is a failure"));
    assert!(translator.should_panic("It should revert when paused"));
    assert!(!translator.should_panic("It terrifies nobody"));
}
