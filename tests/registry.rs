use leptos_unique_ids::registry::{
    check_ids_declaration, leptos_unique_ids, parse_ids_attribute, value_from_literal_str,
    IdsVariant, RegistryError, RegistryToken, NOT_A_STRING_LITERAL,
};
use leptos_unique_ids::tokens::Delimiter;

fn ident(s: &str) -> RegistryToken {
    RegistryToken::Ident(s.to_string())
}

fn lit(s: &str) -> RegistryToken {
    RegistryToken::Literal(s.to_string())
}

fn comma() -> RegistryToken {
    RegistryToken::Punct(',')
}

fn ids_enum() -> Vec<RegistryToken> {
    vec![ident("pub"), ident("enum"), ident("Ids"), RegistryToken::Group(Delimiter::Brace, true)]
}

fn variant(name: &str, value: &str) -> IdsVariant {
    IdsVariant { name: name.to_string(), value: value.to_string() }
}

#[test]
fn literal_values_by_prefix() {
    assert_eq!(value_from_literal_str("\"abc\""), Ok("abc"));
    assert_eq!(value_from_literal_str("\"\""), Ok(""));
    assert_eq!(value_from_literal_str("c\"abc\""), Ok("abc"));
    assert_eq!(value_from_literal_str("r#\"abc\"#"), Ok("abc"));
    assert_eq!(value_from_literal_str("cr#\"abc\"#"), Ok("abc"));
    assert_eq!(value_from_literal_str("r\"abc\""), Ok("abc"));
    assert_eq!(value_from_literal_str("r##\"a\"#b\"##"), Ok("a\"#b"));
    assert_eq!(value_from_literal_str("cr\"\""), Ok(""));
    assert_eq!(value_from_literal_str("\"é-ü\""), Ok("é-ü"));
}

#[test]
fn non_string_literals_rejected() {
    assert_eq!(value_from_literal_str("42"), Err(NOT_A_STRING_LITERAL));
    assert_eq!(value_from_literal_str("'a'"), Err(NOT_A_STRING_LITERAL));
    assert_eq!(value_from_literal_str("b\"abc\""), Err(NOT_A_STRING_LITERAL));
    assert_eq!(value_from_literal_str("\""), Err(NOT_A_STRING_LITERAL));
    assert_eq!(value_from_literal_str("r#"), Err(NOT_A_STRING_LITERAL));
    assert_eq!(value_from_literal_str("r#\"abc\""), Err(NOT_A_STRING_LITERAL));
    assert_eq!(value_from_literal_str("r#\"#"), Err(NOT_A_STRING_LITERAL));
    assert_eq!(value_from_literal_str(""), Err(NOT_A_STRING_LITERAL));
    assert_eq!(NOT_A_STRING_LITERAL, "Literal must be a string literal");
}

#[test]
fn list_gives_variants_in_order() {
    let attr = vec![
        lit("\"language-selector\""),
        comma(),
        lit("\"preview-download-svg-button\""),
        comma(),
        lit("\"preview-upload-svg-button\""),
        comma(),
    ];
    let generated = leptos_unique_ids(&attr, &ids_enum()).unwrap();
    assert_eq!(generated.visibility, vec![0]);
    assert_eq!(
        generated.variants,
        vec![
            variant("LanguageSelector", "language-selector"),
            variant("PreviewDownloadSvgButton", "preview-download-svg-button"),
            variant("PreviewUploadSvgButton", "preview-upload-svg-button"),
        ]
    );
    assert_eq!(leptos_unique_ids(&attr, &ids_enum()), Ok(generated));
}

#[test]
fn empty_list_gives_empty_enum() {
    let generated = leptos_unique_ids(&vec![], &ids_enum()).unwrap();
    assert!(generated.variants.is_empty());
}

#[test]
fn duplicate_rejected() {
    let attr = vec![lit("\"a\""), comma(), lit("\"b\""), comma(), lit("\"a\"")];
    assert_eq!(parse_ids_attribute(&attr), Err(RegistryError::DuplicatedLiteral { at: 4 }));
    let attr = vec![lit("\"a\""), comma(), lit("c\"a\"")];
    assert_eq!(parse_ids_attribute(&attr), Err(RegistryError::DuplicatedLiteral { at: 2 }));
    let attr = vec![lit("\"abc\""), comma(), lit("r#\"abc\"#")];
    assert_eq!(parse_ids_attribute(&attr), Err(RegistryError::DuplicatedLiteral { at: 2 }));
}

#[test]
fn empty_literal_rejected() {
    let attr = vec![lit("\"a\""), comma(), lit("\"\"")];
    assert_eq!(parse_ids_attribute(&attr), Err(RegistryError::EmptyLiteral { at: 2 }));
}

#[test]
fn non_ascii_literal_rejected() {
    let attr = vec![lit("\"b\u{e1}r\"")];
    assert_eq!(parse_ids_attribute(&attr), Err(RegistryError::NonAsciiLiteral { at: 0 }));
}

#[test]
fn non_string_literal_rejected() {
    let attr = vec![lit("\"a\""), comma(), lit("5")];
    assert_eq!(parse_ids_attribute(&attr), Err(RegistryError::NotAStringLiteral { at: 2 }));
}

#[test]
fn separator_must_be_comma() {
    let attr = vec![lit("\"a\""), RegistryToken::Punct(';'), lit("\"b\"")];
    assert_eq!(parse_ids_attribute(&attr), Err(RegistryError::ExpectedComma { at: 1 }));
}

#[test]
fn stray_tokens_rejected() {
    let attr = vec![lit("\"a\""), comma(), ident("b")];
    assert_eq!(parse_ids_attribute(&attr), Err(RegistryError::UnexpectedToken { at: 2 }));
    let attr = vec![RegistryToken::Group(Delimiter::Bracket, false)];
    assert_eq!(parse_ids_attribute(&attr), Err(RegistryError::UnexpectedToken { at: 0 }));
}

#[test]
fn first_error_wins() {
    let attr = vec![lit("\"\""), RegistryToken::Punct(';'), lit("\"\"")];
    assert_eq!(parse_ids_attribute(&attr), Err(RegistryError::EmptyLiteral { at: 0 }));
}

#[test]
fn declaration_visibility() {
    assert_eq!(check_ids_declaration(&ids_enum()), Ok(vec![0]));
    let private = vec![ident("enum"), ident("Ids"), RegistryToken::Group(Delimiter::Brace, true)];
    assert_eq!(check_ids_declaration(&private), Ok(vec![]));
    let restricted = vec![
        ident("pub"),
        RegistryToken::Group(Delimiter::Parenthesis, false),
        ident("enum"),
        ident("Ids"),
        RegistryToken::Group(Delimiter::Brace, true),
    ];
    assert_eq!(check_ids_declaration(&restricted), Ok(vec![0, 1]));
}

#[test]
fn malformed_declaration_rejected() {
    let named_otherwise =
        vec![ident("pub"), ident("enum"), ident("Other"), RegistryToken::Group(Delimiter::Brace, true)];
    assert_eq!(
        check_ids_declaration(&named_otherwise),
        Err(RegistryError::MalformedDeclaration { at: Some(1) })
    );
    let with_semicolon = vec![
        ident("enum"),
        ident("Ids"),
        RegistryToken::Group(Delimiter::Brace, true),
        RegistryToken::Punct(';'),
    ];
    assert_eq!(
        check_ids_declaration(&with_semicolon),
        Err(RegistryError::MalformedDeclaration { at: Some(0) })
    );
    let no_enum =
        vec![RegistryToken::Group(Delimiter::Parenthesis, false), ident("struct"), ident("Ids")];
    assert_eq!(
        check_ids_declaration(&no_enum),
        Err(RegistryError::MalformedDeclaration { at: Some(0) })
    );
    let a_struct =
        vec![ident("pub"), ident("struct"), ident("Foo"), RegistryToken::Group(Delimiter::Brace, true)];
    assert_eq!(
        check_ids_declaration(&a_struct),
        Err(RegistryError::MalformedDeclaration { at: Some(0) })
    );
    assert_eq!(
        check_ids_declaration(&vec![]),
        Err(RegistryError::MalformedDeclaration { at: None })
    );
    let with_variants =
        vec![ident("pub"), ident("enum"), ident("Ids"), RegistryToken::Group(Delimiter::Brace, false)];
    assert_eq!(
        check_ids_declaration(&with_variants),
        Err(RegistryError::MalformedDeclaration { at: Some(1) })
    );
    let without_body = vec![ident("enum"), ident("Ids")];
    assert_eq!(
        check_ids_declaration(&without_body),
        Err(RegistryError::MalformedDeclaration { at: Some(0) })
    );
    let two_bodies = vec![
        ident("enum"),
        ident("Ids"),
        RegistryToken::Group(Delimiter::Brace, true),
        RegistryToken::Group(Delimiter::Brace, true),
    ];
    assert_eq!(
        check_ids_declaration(&two_bodies),
        Err(RegistryError::MalformedDeclaration { at: Some(0) })
    );
}

#[test]
fn declaration_checked_before_list() {
    let attr = vec![lit("\"a\""), comma(), lit("\"a\"")];
    let item = vec![ident("enum"), ident("Other"), RegistryToken::Group(Delimiter::Brace, true)];
    assert_eq!(
        leptos_unique_ids(&attr, &item),
        Err(RegistryError::MalformedDeclaration { at: Some(0) })
    );
    assert_eq!(
        leptos_unique_ids(&attr, &ids_enum()),
        Err(RegistryError::DuplicatedLiteral { at: 2 })
    );
}

#[test]
fn error_messages() {
    assert_eq!(
        RegistryError::MalformedDeclaration { at: None }.message(),
        "Expected an enum formed with the token tree `enum Ids {{}}`."
    );
    assert_eq!(RegistryError::NotAStringLiteral { at: 0 }.message(), NOT_A_STRING_LITERAL);
    assert_eq!(
        RegistryError::EmptyLiteral { at: 0 }.message(),
        "String literals in the attribute cannot be empty."
    );
    assert_eq!(
        RegistryError::DuplicatedLiteral { at: 0 }.message(),
        "Duplicated string literal found."
    );
    assert_eq!(
        RegistryError::NonAsciiLiteral { at: 0 }.message(),
        "Input contains non-ASCII characters."
    );
    assert_eq!(
        RegistryError::ExpectedComma { at: 0 }.message(),
        "Expected a comma between string literals in the attribute."
    );
    assert_eq!(
        RegistryError::UnexpectedToken { at: 0 }.message(),
        "Expected only string literals and commas in the attribute."
    );
    assert_eq!(RegistryError::EmptyLiteral { at: 3 }.position(), Some(3));
    assert_eq!(RegistryError::MalformedDeclaration { at: None }.position(), None);
}
