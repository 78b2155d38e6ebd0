use utility_macros::attributes::field_variant::parse_field_variant_attribute;
use utility_macros::attributes::with_keys::{
    parse_container_attributes_with_keys, parse_container_attributes_with_keys_tokens,
};
use utility_macros::partial::first_missing;
use utility_macros::attributes::{
    parse_field_variant_attributes, AttrPath, Attribute, FieldVariantAttribute,
    FieldVariantAttributes as _, Meta, PathSegment,
};
use utility_macros::case::CaseKind;
use utility_macros::error::Error;
use utility_macros::tokens::{Literal, Token, TokenCursor};

fn ident(s: &str) -> Token {
    Token::Ident(s.to_string())
}

fn punct(c: char) -> Token {
    Token::Punct(c)
}

fn string(s: &str) -> Token {
    Token::Literal(Literal::new(proc_macro2::Literal::string(s).to_string()))
}

fn um(tokens: Vec<Token>) -> Attribute {
    Attribute {
        meta: Meta::List(
            AttrPath {
                leading_colon: false,
                segments: vec![PathSegment { ident: "utility_macros".to_string(), has_arguments: false }],
            },
            tokens,
        ),
    }
}

#[test]
fn error_messages() {
    assert_eq!(Error::MissingField("a").message(), "Required field `a` is missing");
    assert_eq!(Error::DuplicateKey("K::A").message(), "Duplicate key `K::A`");
    assert_eq!(Error::MissingKey("K::B").message(), "Missing key `K::B`");
    assert_eq!(Error::InvalidVariant("x".to_string()).message(), "Invalid variant `x`");
    assert_eq!(Error::InvalidAttributeItem("p".to_string()).message(), "Invalid attribute item`p`");
    assert_eq!(Error::InvalidCase("c".to_string()).message(), "Invalid case `c`");
    assert_eq!(Error::InvalidDeriveStatement("d".to_string()).message(), "Invalid derive statement `d`");
}

#[test]
fn field_variant_items() {
    let toks = vec![ident("skip")];
    let mut c = TokenCursor::new(&toks);
    assert_eq!(parse_field_variant_attribute(&mut c).unwrap(), FieldVariantAttribute::Skip);
    assert!(c.is_empty());

    let toks = vec![ident("case"), punct('='), string("kebab")];
    let mut c = TokenCursor::new(&toks);
    assert_eq!(parse_field_variant_attribute(&mut c).unwrap(), FieldVariantAttribute::Case(CaseKind::Kebab));

    let toks = vec![ident("rename"), punct('='), string("x")];
    let mut c = TokenCursor::new(&toks);
    assert!(matches!(parse_field_variant_attribute(&mut c), Err(Error::InvalidAttributeItem(k)) if k == "rename"));
}

#[test]
fn field_variant_queries() {
    let attrs = vec![
        um(vec![ident("case"), punct('='), string("UPPER")]),
        um(vec![ident("name"), punct('='), string("renamed")]),
    ];
    let items = parse_field_variant_attributes(&attrs).unwrap();
    assert_eq!(items.name(), Some("renamed"));
    assert_eq!(items.case(), Some(CaseKind::Upper));
    assert_eq!(items.ident("field"), "renamed");
    assert!(!items.skip());

    let cased = vec![FieldVariantAttribute::Case(CaseKind::Upper)];
    assert_eq!(cased.ident("field"), "FIELD");
    let none: Vec<FieldVariantAttribute> = vec![];
    assert_eq!(none.ident("field"), "field");
    assert!(vec![FieldVariantAttribute::Skip].skip());
}

#[test]
fn keyed_attributes() {
    let attrs = vec![um(vec![
        string("Contact"), punct('='), punct('>'), string("email"), punct('|'), string("phone"), punct(','),
        ident("case_all"), punct('='), string("UPPER"), ident("derive"), punct('='), string("Debug"),
    ])];
    let keyed = parse_container_attributes_with_keys(&attrs);
    assert_eq!(keyed.len(), 1);
    assert_eq!(keyed[0].name(), "Contact");
    assert_eq!(keyed[0].keys(), &vec!["email".to_string(), "phone".to_string()]);
    assert_eq!(keyed[0].key_idents(), vec!["email".to_string(), "phone".to_string()]);
    assert!(keyed[0].has_key("phone"));
    assert!(!keyed[0].has_key("name"));
    assert_eq!(keyed[0].case_all(), Some(CaseKind::Upper));
    assert_eq!(keyed[0].field_variant_ident("email"), "EMAIL");
    assert_eq!(keyed[0].derive(), Some("Debug"));
    assert_eq!(keyed[0].where_clause(), Some("Debug"));
}

#[test]
fn keyed_tokens_are_read_to_the_end() {
    let toks = vec![string("Contact"), punct('='), punct('>'), string("email"), punct('|'), string("phone_number")];
    let mut cursor = TokenCursor::new(&toks);
    let keyed = parse_container_attributes_with_keys_tokens(&mut cursor);
    assert_eq!(keyed.name(), "Contact");
    assert_eq!(keyed.keys(), &vec!["email".to_string(), "phone_number".to_string()]);
    assert_eq!(keyed.derive(), None);
    assert!(cursor.is_empty());

    let mut toks = toks;
    toks.extend(vec![punct(','), ident("derive"), punct('='), string("Debug")]);
    let mut cursor = TokenCursor::new(&toks);
    let keyed = parse_container_attributes_with_keys_tokens(&mut cursor);
    assert_eq!(keyed.derive(), Some("Debug"));
    assert!(cursor.is_empty());
}

#[test]
fn first_missing_field() {
    assert_eq!(first_missing(&vec![true, false, true, false]), Some(1));
    assert_eq!(first_missing(&vec![true, true]), None);
    assert_eq!(first_missing(&vec![]), None);
}
