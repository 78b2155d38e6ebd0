use utility_macros::literal::LiteralExt as _;
use utility_macros::tokens::Literal;

fn string_literal(s: &str) -> Literal {
    Literal::new(proc_macro2::Literal::string(s).to_string())
}

#[test]
pub fn test_is_str() {
    let s = string_literal("hello");
    let n = Literal::new(proc_macro2::Literal::u32_unsuffixed(5).to_string());

    assert!(s.is_str());
    assert!(!n.is_str());
}

#[test]
pub fn test_as_string() {
    let s = string_literal("hello");
    let n = Literal::new(proc_macro2::Literal::u32_unsuffixed(5).to_string());

    assert_eq!(s.as_string().unwrap(), "hello");
    assert!(n.as_string().is_none());
}

#[test]
fn as_string_keeps_escapes() {
    let s = string_literal("A\"B");
    assert_eq!(s.as_string().unwrap(), "A\\\"B");
    let empty = string_literal("");
    assert_eq!(empty.as_string().unwrap(), "");
}
