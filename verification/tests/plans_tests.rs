use utility_macros::attributes::{AttrPath, Attribute, Meta, PathSegment};
use utility_macros::derive::fields::{
    plan_simple_partial, plan_struct_derive, plan_struct_derive_checked, plan_struct_derive_lexed,
    FieldModel,
    FieldPlanKind, StructDerive,
};
use utility_macros::error::Error;
use utility_macros::tokens::{Literal, Token};
use utility_macros::types::{GenericArgument, PathArguments, TypeModel, TypePath, TypeSegment};

fn ident(s: &str) -> Token {
    Token::Ident(s.to_string())
}

fn punct(c: char) -> Token {
    Token::Punct(c)
}

fn string(s: &str) -> Token {
    Token::Literal(Literal::new(proc_macro2::Literal::string(s).to_string()))
}

fn path(name: &str) -> AttrPath {
    AttrPath {
        leading_colon: false,
        segments: vec![PathSegment { ident: name.to_string(), has_arguments: false }],
    }
}

fn um(tokens: Vec<Token>) -> Attribute {
    Attribute { meta: Meta::List(path("utility_macros"), tokens) }
}

fn path_type(name: &str) -> TypeModel {
    TypeModel::Path(TypePath {
        qualified: None,
        leading_colon: false,
        segments: vec![TypeSegment { ident: name.to_string(), arguments: PathArguments::Empty }],
    })
}

fn option_type(inner: TypeModel) -> TypeModel {
    TypeModel::Path(TypePath {
        qualified: None,
        leading_colon: false,
        segments: vec![TypeSegment {
            ident: "Option".to_string(),
            arguments: PathArguments::AngleBracketed(vec![GenericArgument::Type(inner)]),
        }],
    })
}

fn field(name: &str, ty: TypeModel, attrs: Vec<Attribute>) -> FieldModel {
    FieldModel { ident: Some(name.to_string()), ty, attrs, vis: "pub".to_string() }
}

/// The struct `X` of the partial example.
fn example_x() -> (Vec<Attribute>, Vec<FieldModel>) {
    let attrs = vec![
        um(vec![ident("name"), punct('='), string("Y")]),
        um(vec![ident("derive"), punct('='), string("Partial, PartialEq, Clone, Debug")]),
    ];
    let fields = vec![
        field("a", path_type("String"), vec![um(vec![ident("name"), punct('='), string("aa")])]),
        field("b", option_type(path_type("String")), vec![]),
        field("c", path_type("String"), vec![]),
        field("d", option_type(path_type("String")), vec![]),
        field("z", option_type(path_type("String")), vec![um(vec![ident("skip")])]),
    ];
    (attrs, fields)
}

#[test]
fn partial_plan_of_the_example() {
    let (attrs, fields) = example_x();
    let plan = plan_struct_derive(StructDerive::Partial, "X", attrs, fields).unwrap();
    assert_eq!(plan.ident, "Y");
    assert!(plan.fields.iter().all(|f| f.vis == "pub"));
    assert_eq!(plan.derive_statement, "#[derive(Partial, PartialEq, Clone, Debug)]");
    assert!(plan.impl_partial_eq);
    let names: Vec<&str> = plan.fields.iter().map(|f| f.generated_ident.as_str()).collect();
    assert_eq!(names, vec!["aa", "b", "c", "d", "z"]);
    assert!(matches!(&plan.fields[0].kind, FieldPlanKind::Kept(t) if *t == option_type(path_type("String"))));
    assert!(!plan.fields[0].was_option);
    assert!(matches!(&plan.fields[1].kind, FieldPlanKind::Kept(t) if *t == option_type(path_type("String"))));
    assert!(plan.fields[1].was_option);
    assert!(matches!(plan.fields[4].kind, FieldPlanKind::SkippedOption));
    assert_eq!(plan.fields[4].index, 4);
}

#[test]
fn partial_default_name_and_derives() {
    let plan = plan_struct_derive(StructDerive::Partial, "X", vec![], vec![field("a", path_type("u8"), vec![])]).unwrap();
    assert_eq!(plan.ident, "PartialX");
    assert_eq!(plan.derive_statement, "#[derive(PartialEq, Clone, Debug, Default)]");
}

#[test]
fn required_plan_unwraps_options_and_cases_names() {
    let attrs = vec![um(vec![ident("case_all"), punct('='), string("UPPER_SNAKE")])];
    let fields = vec![
        field("id", path_type("u32"), vec![]),
        field("first_name", option_type(path_type("String")), vec![]),
        field("age", option_type(path_type("u8")), vec![um(vec![ident("case"), punct('='), string("pascal")])]),
        field("password", option_type(path_type("String")), vec![um(vec![ident("skip")])]),
    ];
    let plan = plan_struct_derive(StructDerive::Required, "Details", attrs, fields).unwrap();
    assert_eq!(plan.ident, "RequiredDetails");
    assert_eq!(plan.derive_statement, "#[derive(PartialEq, Clone, Debug)]");
    let names: Vec<&str> = plan.fields.iter().map(|f| f.generated_ident.as_str()).collect();
    assert_eq!(names, vec!["ID", "FIRST_NAME", "Age", "PASSWORD"]);
    assert!(matches!(&plan.fields[0].kind, FieldPlanKind::Kept(t) if *t == path_type("u32")));
    assert!(matches!(&plan.fields[1].kind, FieldPlanKind::Kept(t) if *t == path_type("String")));
    assert!(matches!(plan.fields[3].kind, FieldPlanKind::SkippedOption));
}

#[test]
fn readonly_plan_keeps_types_and_skipped_defaults() {
    let fields = vec![
        field("x", path_type("i32"), vec![]),
        field("y", TypeModel::Other("&'static str".to_string()), vec![]),
        field("z", path_type("i32"), vec![um(vec![ident("skip")])]),
    ];
    let plan = plan_struct_derive(StructDerive::Readonly, "A", vec![], fields).unwrap();
    assert_eq!(plan.ident, "ReadonlyA");
    assert!(plan.fields.iter().all(|f| f.vis.is_empty()));
    assert_eq!(plan.derive_statement, "#[derive(Clone, Debug, PartialEq)]");
    assert!(!plan.impl_partial_eq);
    assert!(matches!(&plan.fields[1].kind, FieldPlanKind::Kept(TypeModel::Other(s)) if s == "&'static str"));
    assert!(matches!(plan.fields[2].kind, FieldPlanKind::SkippedDefault));
}

#[test]
fn struct_derives_refuse_what_the_macros_panic_on() {
    let unnamed = vec![FieldModel { ident: None, ty: path_type("u8"), attrs: vec![], vis: String::new() }];
    assert!(plan_struct_derive_checked(StructDerive::Partial, "T", vec![], unnamed).is_none());

    let reference = vec![field("r", TypeModel::Other("&str".to_string()), vec![])];
    assert!(plan_struct_derive_checked(StructDerive::Partial, "T", vec![], reference).is_none());

    let bad_item = vec![um(vec![ident("rename"), punct('='), string("X")])];
    assert!(plan_struct_derive_checked(StructDerive::Partial, "T", bad_item, vec![]).is_none());

    let bad_derive = vec![um(vec![ident("derive"), punct('='), string("A\"B")])];
    assert!(plan_struct_derive_checked(StructDerive::Readonly, "T", bad_derive, vec![]).is_none());

    let bad_option = TypeModel::Path(TypePath {
        qualified: None,
        leading_colon: false,
        segments: vec![TypeSegment { ident: "Option".to_string(), arguments: PathArguments::Empty }],
    });
    let fields = vec![field("o", bad_option, vec![])];
    assert!(plan_struct_derive_checked(StructDerive::Required, "T", vec![], fields).is_none());
}

#[test]
fn simple_partial_keeps_option_paths() {
    let std_option = TypeModel::Path(TypePath {
        qualified: None,
        leading_colon: false,
        segments: vec![
            TypeSegment { ident: "Option".to_string(), arguments: PathArguments::Empty },
            TypeSegment { ident: "X".to_string(), arguments: PathArguments::Empty },
        ],
    });
    let types = vec![path_type("u8"), option_type(path_type("u8")), std_option, TypeModel::Other("[u8; 4]".to_string())];
    let plan = plan_simple_partial("Point", &types);
    assert_eq!(plan.ident, "PointPartial");
    assert_eq!(plan.derive_statement, "#[derive(Clone, Debug, PartialEq)]");
    assert_eq!(plan.already_optional, vec![false, true, true, false]);
}

#[test]
fn struct_derive_reports_derives_that_do_not_lex() {
    let bad_derive = vec![um(vec![ident("derive"), punct('='), string("A\"B")])];
    match plan_struct_derive(StructDerive::Partial, "T", bad_derive, vec![]) {
        // The text between the quotes keeps its escape.
        Err(Error::InvalidDeriveStatement(s)) => assert_eq!(s, "A\\\"B"),
        other => panic!("unexpected {:?}", other.map(|p| p.ident)),
    }
}

#[test]
fn lexed_plan_follows_the_lexing_answer() {
    let fields = || vec![field("a", path_type("u8"), vec![])];
    let plan = plan_struct_derive_lexed(StructDerive::Required, "S", vec![], fields(), true).unwrap();
    assert_eq!(plan.ident, "RequiredS");
    assert_eq!(plan.derive_statement, "#[derive(PartialEq, Clone, Debug)]");
    assert!(plan_struct_derive_lexed(StructDerive::Required, "S", vec![], fields(), false).is_none());
    let unnamed = vec![FieldModel { ident: None, ty: path_type("u8"), attrs: vec![], vis: String::new() }];
    assert!(plan_struct_derive_lexed(StructDerive::Required, "S", vec![], unnamed, true).is_none());
}
