use std::str::FromStr;

use proc_macro2::TokenStream;
use utility_macros::attributes::{
    parse_container_attribute, parse_container_attributes, AttrPath, Attribute,
    ContainerAttribute, ContainerAttributes as _, Meta, PathSegment,
};
use utility_macros::attributes::container::parse_container_attribute_checked;
use utility_macros::case::CaseKind;
use utility_macros::tokens::{Delimiter, Literal, Token, TokenCursor};

fn ident(s: &str) -> Token {
    Token::Ident(s.to_string())
}

fn punct(c: char) -> Token {
    Token::Punct(c)
}

fn string(s: &str) -> Token {
    Token::Literal(Literal::new(proc_macro2::Literal::string(s).to_string()))
}

fn path(name: &str) -> AttrPath {
    AttrPath {
        leading_colon: false,
        segments: vec![PathSegment { ident: name.to_string(), has_arguments: false }],
    }
}

fn tokens_text(s: &str) -> String {
    TokenStream::from_str(s).unwrap().to_string()
}

#[test]
fn test_parse_container_attribute() {
    // name = "Foo", case_all = "snake", derive = "Debug", where = "T: Debug", pizza = "yes please!"
    let tokens = vec![
        ident("name"), punct('='), string("Foo"), punct(','),
        ident("case_all"), punct('='), string("snake"), punct(','),
        ident("derive"), punct('='), string("Debug"), punct(','),
        ident("where"), punct('='), string("T: Debug"), punct(','),
        ident("pizza"), punct('='), string("yes please!"),
    ];
    let mut tokens = TokenCursor::new(&tokens);

    let attr = parse_container_attribute(&mut tokens).unwrap();
    assert_eq!(attr, ContainerAttribute::Name("Foo".to_string()));
    tokens.advance();

    let attr = parse_container_attribute(&mut tokens).unwrap();
    assert_eq!(attr, ContainerAttribute::CaseAll(CaseKind::Snake));
    tokens.advance();

    let attr = parse_container_attribute(&mut tokens).unwrap();
    assert_eq!(attr, ContainerAttribute::Derive("Debug".to_string()));
    tokens.advance();

    let attr = parse_container_attribute(&mut tokens).unwrap();
    assert_eq!(attr, ContainerAttribute::Where("T: Debug".to_string()));
    tokens.advance();

    let attr = parse_container_attribute(&mut tokens);
    assert!(attr.is_err());
}

#[test]
fn test_ident() {
    let ident = "Foo";

    let attrs1 = Vec::<ContainerAttribute>::new();
    let attrs2 = vec![ContainerAttribute::Name("Bar".to_string())];

    assert_eq!(attrs1.ident(ident), "Foo");
    assert_eq!(attrs2.ident(ident), "Bar");
}

#[test]
fn test_field_ident() {
    let ident = "foo";

    let attrs1 = Vec::<ContainerAttribute>::new();
    let attrs2 = vec![ContainerAttribute::CaseAll(CaseKind::Upper)];

    assert_eq!(attrs1.field_ident(ident), "foo");
    assert_eq!(attrs2.field_ident(ident), "FOO");
}

#[test]
fn test_derive_statement() {
    let attrs1 = Vec::<ContainerAttribute>::new();
    let attrs2 = vec![ContainerAttribute::Derive("Debug".to_string())];
    let attrs_err = vec![ContainerAttribute::Derive("A\"B".to_string())];

    assert_eq!(
        tokens_text(&attrs1.derive_statement("A, B, C").unwrap()),
        tokens_text("#[derive(A, B, C)]")
    );
    assert_eq!(
        tokens_text(&attrs2.derive_statement("A, B, C").unwrap()),
        tokens_text("#[derive(Debug)]")
    );
    assert!(attrs_err.derive_statement("A, B, C").is_err());
}

#[test]
fn test_where_statement() {
    let attrs1 = Vec::<ContainerAttribute>::new();
    let attrs2 = vec![ContainerAttribute::Where("T: Debug".to_string())];
    let attrs_err = vec![ContainerAttribute::Where("A\"B".to_string())];

    assert_eq!(tokens_text(&attrs1.where_statement().unwrap()), tokens_text(""));
    assert_eq!(
        tokens_text(&attrs2.where_statement().unwrap()),
        tokens_text("where T: Debug")
    );
    assert!(attrs_err.where_statement().is_err());
}

#[test]
fn test_no_name() {
    let attrs = vec![ContainerAttribute::CaseAll(CaseKind::Upper)];
    assert_eq!(attrs.name(), None);
}

#[test]
fn test_no_case_all() {
    let attrs = vec![ContainerAttribute::Name("Foo".to_string())];
    assert_eq!(attrs.case_all(), None);
}

#[test]
fn test_no_derive() {
    let attrs = vec![ContainerAttribute::Name("Foo".to_string())];
    assert_eq!(attrs.derive(), None);
}

#[test]
fn test_no_where_clause() {
    let attrs = vec![ContainerAttribute::Name("Foo".to_string())];
    assert_eq!(attrs.where_clause(), None);
}

#[test]
fn test_parse_container_attributes() {
    let attrs: Vec<Attribute> = vec![
        // #[utility_macros(name = "Foo", case_all = "snake", derive = "Debug", where = "T: Debug")]
        Attribute {
            meta: Meta::List(
                path("utility_macros"),
                vec![
                    ident("name"), punct('='), string("Foo"), punct(','),
                    ident("case_all"), punct('='), string("snake"), punct(','),
                    ident("derive"), punct('='), string("Debug"), punct(','),
                    ident("where"), punct('='), string("T: Debug"),
                ],
            ),
        },
        // #[foo(bar)]
        Attribute { meta: Meta::List(path("foo"), vec![ident("bar")]) },
        // #[baz]
        Attribute { meta: Meta::Path(path("baz")) },
    ];

    let attrs = parse_container_attributes(attrs);
    assert!(attrs.is_ok());

    // #[utility_macros(foo = "bar")]
    let attrs_err = vec![Attribute {
        meta: Meta::List(path("utility_macros"), vec![ident("foo"), punct('='), string("bar")]),
    }];
    let attrs_err = parse_container_attributes(attrs_err);
    assert!(attrs_err.is_err());
}

#[test]
fn one_item_per_attribute_and_first_wins() {
    let attrs: Vec<Attribute> = vec![
        Attribute {
            meta: Meta::List(
                path("utility_macros"),
                vec![ident("name"), punct('='), string("First"), punct(','), ident("derive"), punct('='), string("Debug")],
            ),
        },
        Attribute {
            meta: Meta::List(path("utility_macros"), vec![ident("name"), punct('='), string("Second")]),
        },
        Attribute {
            meta: Meta::List(path("utility_macros"), vec![ident("case_all"), punct('='), string("UPPER_SNAKE")]),
        },
    ];
    let items = parse_container_attributes(attrs).unwrap();
    assert_eq!(
        items,
        vec![
            ContainerAttribute::Name("First".to_string()),
            ContainerAttribute::Name("Second".to_string()),
            ContainerAttribute::CaseAll(CaseKind::UpperSnake),
        ]
    );
    assert_eq!(items.name(), Some("First"));
    assert_eq!(items.derive(), None);
    assert_eq!(items.field_ident("my_field"), "MY_FIELD");
}

#[test]
fn unknown_key_reads_only_the_key() {
    let tokens = vec![ident("pizza"), punct('='), string("yes")];
    let mut cursor = TokenCursor::new(&tokens);
    match parse_container_attribute(&mut cursor) {
        Err(utility_macros::error::Error::InvalidAttributeItem(k)) => assert_eq!(k, "pizza"),
        other => panic!("unexpected {:?}", other),
    }
    assert!(cursor.peek_punct('='));
}

#[test]
fn malformed_item_is_reported_by_the_checked_parser() {
    let tokens = vec![ident("name"), punct('='), ident("Foo")];
    let mut cursor = TokenCursor::new(&tokens);
    assert!(parse_container_attribute_checked(&mut cursor).is_none());
    let tokens = vec![ident("case_all"), punct('='), string("sideways")];
    let mut cursor = TokenCursor::new(&tokens);
    assert!(parse_container_attribute_checked(&mut cursor).is_none());
    let tokens = vec![Token::Group(Delimiter::Parenthesis, vec![])];
    let mut cursor = TokenCursor::new(&tokens);
    assert!(parse_container_attribute_checked(&mut cursor).is_none());
}

#[test]
fn statements_follow_the_lexing_answer() {
    let derives = vec![ContainerAttribute::Derive("Debug".to_string())];
    assert_eq!(derives.derive_statement_lexed("A", true).unwrap(), "#[derive(Debug)]");
    assert!(matches!(
        derives.derive_statement_lexed("A", false),
        Err(utility_macros::error::Error::InvalidDeriveStatement(s)) if s == "Debug"
    ));
    let clause = vec![ContainerAttribute::Where("T: Debug".to_string())];
    assert_eq!(clause.where_statement_lexed(true).unwrap(), "where T: Debug");
    assert!(matches!(
        clause.where_statement_lexed(false),
        Err(utility_macros::error::Error::InvalidAttributeItem(s)) if s == "T: Debug"
    ));
    assert_eq!(Vec::<ContainerAttribute>::new().where_statement_lexed(false).unwrap(), "");
}

#[test]
fn one_item_per_list_and_other_attributes_pass_over() {
    let um = |toks: Vec<Token>| Attribute { meta: Meta::List(path("utility_macros"), toks) };
    let attrs = vec![
        um(vec![ident("name"), punct('='), string("Foo"), punct(','), ident("derive"), punct('='), string("X")]),
        Attribute { meta: Meta::Path(path("baz")) },
        um(vec![ident("where"), punct('='), string("T: Debug")]),
    ];
    let items = parse_container_attributes(attrs).unwrap();
    assert_eq!(items, vec![ContainerAttribute::Name("Foo".to_string()), ContainerAttribute::Where("T: Debug".to_string())]);

    let attrs_err = vec![
        Attribute { meta: Meta::List(path("other"), vec![ident("pizza")]) },
        um(vec![ident("pizza"), punct('='), string("yes")]),
    ];
    match parse_container_attributes(attrs_err) {
        Err(utility_macros::error::Error::InvalidAttributeItem(s)) => assert_eq!(s, "pizza"),
        _ => panic!("expected an invalid item"),
    }
}

#[test]
fn the_first_unknown_key_is_reported() {
    let um = |toks: Vec<Token>| Attribute { meta: Meta::List(path("utility_macros"), toks) };
    let attrs = vec![
        um(vec![ident("name"), punct('='), string("Foo")]),
        um(vec![ident("first"), punct('='), string("x")]),
        um(vec![ident("second"), punct('='), string("y")]),
    ];
    match parse_container_attributes(attrs) {
        Err(utility_macros::error::Error::InvalidAttributeItem(s)) => assert_eq!(s, "first"),
        _ => panic!("expected an invalid item"),
    }
}
