use leptos_unique_ids::pascal_case::{to_pascal_case, NON_ASCII_INPUT};

#[test]
fn basic() {
    assert_eq!(to_pascal_case("foo"), Ok("Foo".to_string()));
}

#[test]
fn empty() {
    assert_eq!(to_pascal_case(""), Ok("".to_string()));
}

#[test]
fn hyphen() {
    assert_eq!(to_pascal_case("foo-bar-baz"), Ok("FooBarBaz".to_string()));
}

#[test]
fn underscore() {
    assert_eq!(to_pascal_case("foo_bar_baz"), Ok("FooBarBaz".to_string()));
}

#[test]
fn special_non_ascii_characters() {
    let result = to_pascal_case("foo-b√°r");
    let err_message = b"Input contains non-ASCII characters." as &[u8];
    assert_eq!(result.map_err(str::as_bytes), Err(err_message));
}

#[test]
fn lower_followed_by_upper() {
    assert_eq!(to_pascal_case("fooBar"), Ok("FooBar".to_string()));
}

#[test]
fn digit_followed_by_upper() {
    assert_eq!(to_pascal_case("foo5Bar"), Ok("Foo5Bar".to_string()));
}

#[test]
fn upper_followed_by_digit() {
    assert_eq!(to_pascal_case("FoO5bar"), Ok("FoO5Bar".to_string()));
}

#[test]
fn digit_followed_by_lower() {
    assert_eq!(to_pascal_case("foo5bar"), Ok("Foo5Bar".to_string()));
}

#[test]
fn uppercase_word_is_kept() {
    assert_eq!(to_pascal_case("FOO"), Ok("FOO".to_string()));
}

#[test]
fn leading_and_repeated_separators_are_dropped() {
    assert_eq!(to_pascal_case("--a__b  c"), Ok("ABC".to_string()));
}

#[test]
fn every_digit_ends_a_word() {
    assert_eq!(to_pascal_case("a1b22c"), Ok("A1B22C".to_string()));
    assert_eq!(to_pascal_case("a55b"), Ok("A55B".to_string()));
    assert_eq!(to_pascal_case("a-5b"), Ok("A5B".to_string()));
    assert_eq!(to_pascal_case("5a"), Ok("5A".to_string()));
}

#[test]
fn converting_again_changes_nothing() {
    for input in ["a-5b", "foo_bar-baz", "FoO5bar", "x9y--z", "", "--"] {
        let once = to_pascal_case(input).unwrap();
        assert_eq!(to_pascal_case(&once), Ok(once.clone()));
    }
}

#[test]
fn non_ascii_message() {
    assert_eq!(to_pascal_case("é"), Err(NON_ASCII_INPUT));
    assert_eq!(NON_ASCII_INPUT, "Input contains non-ASCII characters.");
}
