use utility_macros::case::{convert_case, CaseExt, CaseKind};

#[test]
pub fn test_from_string() {
    assert_eq!(CaseKind::from_string("upper".to_string()).unwrap(), CaseKind::Upper);
    assert!(CaseKind::from_string("invalid".to_string()).is_err());
}

#[test]
pub fn test_from_str() {
    assert_eq!(CaseKind::from_str("upper").unwrap(), CaseKind::Upper);
    assert_eq!(CaseKind::from_str("UPPER").unwrap(), CaseKind::Upper);
    assert_eq!(CaseKind::from_str("lower").unwrap(), CaseKind::Lower);
    assert_eq!(CaseKind::from_str("title").unwrap(), CaseKind::Title);
    assert_eq!(CaseKind::from_str("Title").unwrap(), CaseKind::Title);
    assert_eq!(CaseKind::from_str("toggle").unwrap(), CaseKind::Toggle);
    assert_eq!(CaseKind::from_str("ToGgLe").unwrap(), CaseKind::Toggle);
    assert_eq!(CaseKind::from_str("camel").unwrap(), CaseKind::Camel);
    assert_eq!(CaseKind::from_str("pascal").unwrap(), CaseKind::Pascal);
    assert_eq!(CaseKind::from_str("Pascal").unwrap(), CaseKind::Pascal);
    assert_eq!(CaseKind::from_str("snake").unwrap(), CaseKind::Snake);
    assert_eq!(CaseKind::from_str("upper_snake").unwrap(), CaseKind::UpperSnake);
    assert_eq!(CaseKind::from_str("UPPER_SNAKE").unwrap(), CaseKind::UpperSnake);
    assert_eq!(
        CaseKind::from_str("screaming_snake").unwrap(),
        CaseKind::ScreamingSnake
    );
    assert_eq!(
        CaseKind::from_str("SCREAMING_SNAKE").unwrap(),
        CaseKind::ScreamingSnake
    );
    assert_eq!(CaseKind::from_str("kebab").unwrap(), CaseKind::Kebab);
    assert_eq!(CaseKind::from_str("cobol").unwrap(), CaseKind::Cobol);
    assert_eq!(CaseKind::from_str("train").unwrap(), CaseKind::Train);
    assert_eq!(CaseKind::from_str("Train").unwrap(), CaseKind::Train);
    assert_eq!(CaseKind::from_str("flat").unwrap(), CaseKind::Flat);
    assert_eq!(CaseKind::from_str("upper_flat").unwrap(), CaseKind::UpperFlat);
    assert_eq!(CaseKind::from_str("UPPER_FLAT").unwrap(), CaseKind::UpperFlat);
    assert_eq!(CaseKind::from_str("alternating").unwrap(), CaseKind::Alternating);
    assert_eq!(CaseKind::from_str("aLtErNaTiNg").unwrap(), CaseKind::Alternating);
    assert!(CaseKind::from_str("invalid").is_err());
}

#[test]
fn invalid_case_keeps_the_name() {
    match CaseKind::from_str("Snake") {
        Err(utility_macros::error::Error::InvalidCase(s)) => assert_eq!(s, "Snake"),
        other => panic!("unexpected {:?}", other),
    }
}

#[test]
fn convert_case_uses_convert_case() {
    assert_eq!(convert_case("my_field", CaseKind::Pascal), "MyField");
    assert_eq!(convert_case("MyVariant", CaseKind::Snake), "my_variant");
    assert_eq!(convert_case("foo", CaseKind::Upper), "FOO");
    assert_eq!(convert_case("my field", CaseKind::Kebab), "my-field");
    assert_eq!(CaseKind::Alternating.position(), 16);
}
