use utility_macros::attributes::{AttrPath, Attribute, Meta, PathSegment};
use utility_macros::derive::pick::{plan_helper_picks, plan_helper_picks_checked, plan_pick, plan_pick_checked, PickSource};
use utility_macros::derive::record::{plan_record, plan_record_checked, RecordDerive};
use utility_macros::record::{try_fill, FillError};
use utility_macros::derive::union::{plan_string_union, plan_unions, plan_unions_checked, variant_ident, UnionKind};
use utility_macros::helper_attributes::{container_attributes, field_attributes};
use utility_macros::tokens::{Delimiter, Literal, Token};

fn ident(s: &str) -> Token {
    Token::Ident(s.to_string())
}

fn punct(c: char) -> Token {
    Token::Punct(c)
}

fn string(s: &str) -> Token {
    Token::Literal(Literal::new(proc_macro2::Literal::string(s).to_string()))
}

fn path(name: &str) -> AttrPath {
    AttrPath {
        leading_colon: false,
        segments: vec![PathSegment { ident: name.to_string(), has_arguments: false }],
    }
}

fn list(name: &str, tokens: Vec<Token>) -> Attribute {
    Attribute { meta: Meta::List(path(name), tokens) }
}

fn source(name: &str, attrs: Vec<Attribute>) -> PickSource {
    PickSource { ident: name.to_string(), attrs }
}

#[test]
fn pick_struct_example() {
    let attrs = vec![list(
        "utility_macros",
        vec![string("Contact"), punct('='), punct('>'), string("email"), punct('|'), string("phone_number")],
    )];
    let srcs = vec![source("name", vec![]), source("age", vec![]), source("email", vec![]), source("phone_number", vec![])];
    let plans = plan_pick(&attrs, true, &srcs);
    assert_eq!(plans.len(), 1);
    assert_eq!(plans[0].ident, "Contact");
    let taken: Vec<(usize, &str, &str)> = plans[0]
        .entries
        .iter()
        .map(|e| (e.index, e.type_ident.as_str(), e.pick_ident.as_str()))
        .collect();
    assert_eq!(taken, vec![(2, "email", "email"), (3, "phone_number", "phone_number")]);
}

#[test]
fn pick_enum_example_with_cases() {
    let attrs = vec![list(
        "utility_macros",
        vec![
            string("CFamily"), punct('='), punct('>'), string("C"), punct('|'), string("Cpp"), punct('|'),
            string("ObjectiveC"), punct(','), ident("case_all"), punct('='), string("snake"),
        ],
    )];
    let srcs = vec![
        source("C", vec![]),
        source("Cpp", vec![list("utility_macros", vec![ident("name"), punct('='), string("CPlusPlus")])]),
        source("ObjectiveC", vec![]),
        source("JavaScript", vec![]),
        source("Python", vec![]),
        source("Rust", vec![]),
    ];
    let plans = plan_pick(&attrs, false, &srcs);
    let taken: Vec<&str> = plans[0].entries.iter().map(|e| e.pick_ident.as_str()).collect();
    assert_eq!(taken, vec!["c", "CPlusPlus", "objective_c"]);
}

#[test]
fn pick_struct_missing_key_is_refused() {
    let attrs = vec![list("utility_macros", vec![string("P"), punct('='), punct('>'), string("nope")])];
    let srcs = vec![source("a", vec![])];
    assert!(plan_pick_checked(&attrs, true, &srcs).is_none());
    let plans = plan_pick_checked(&attrs, false, &srcs).unwrap();
    assert!(plans[0].entries.is_empty());
}

#[test]
fn pick_without_attributes_reads_no_field_attribute() {
    let srcs = vec![source("a", vec![list("utility_macros", vec![ident("bogus")])])];
    assert_eq!(plan_pick_checked(&vec![], true, &srcs).unwrap().len(), 0);
}

#[test]
fn record_example() {
    let attrs = vec![list("record", vec![ident("FruitId"), punct('='), punct('>'), ident("u32")])];
    let variants: Vec<String> = ["Apple", "Banana", "Kiwi", "Strawberry", "DragonFruit"].iter().map(|s| s.to_string()).collect();
    let plans = plan_record(&attrs, &variants);
    assert_eq!(plans.records.len(), 1);
    assert_eq!(plans.records[0].ident, "FruitId");
    assert_eq!(plans.records[0].attr_index, 0);
    assert_eq!(plans.records[0].type_position, 3);
    assert!(matches!(&plans.records[0].derive, RecordDerive::Default(t) if t == "Clone, Debug, PartialEq"));
    assert_eq!(plans.field_idents, vec!["apple", "banana", "kiwi", "strawberry", "dragon_fruit"]);
}

#[test]
fn record_with_derive_and_malformed() {
    let attrs = vec![list(
        "record",
        vec![
            ident("Prices"), punct('='), punct('>'), ident("f64"), punct(','), ident("derive"),
            Token::Group(Delimiter::Parenthesis, vec![ident("Debug")]),
        ],
    )];
    let mut attrs = attrs;
    attrs.insert(0, list("other", vec![]));
    let plans = plan_record(&attrs, &vec![]);
    assert_eq!(plans.records[0].attr_index, 1);
    assert!(matches!(plans.records[0].derive, RecordDerive::Group(6)));
    let bad = vec![list("record", vec![ident("Prices"), punct('='), punct('>'), string("f64")])];
    assert!(plan_record_checked(&bad, &vec![]).is_none());
}

#[test]
fn variant_names_of_strings() {
    assert_eq!(variant_ident("\"top\""), "Top");
    assert_eq!(variant_ident("\"hello world\""), "HelloWorld");
    assert_eq!(variant_ident("\"my-value\""), "MyValue");
}

#[test]
fn union_example() {
    // union! { type Side = "top" | "bottom"; #[derive(Clone)] type Axis = "x" | "y"; }
    let toks = vec![
        ident("type"), ident("Side"), punct('='), string("top"), punct('|'), string("bottom"), punct(';'),
        punct('#'), Token::Group(Delimiter::Bracket, vec![ident("derive"), Token::Group(Delimiter::Parenthesis, vec![ident("Clone")])]),
        ident("type"), ident("Axis"), punct('='), string("x"), punct('|'), string("y"), punct(';'),
    ];
    let plans = plan_unions(&toks);
    assert_eq!(plans.len(), 2);
    assert_eq!(plans[0].ident, "Side");
    assert!(plans[0].attr_positions.is_empty());
    match &plans[0].kind {
        UnionKind::StaticStr(vs) => {
            let v: Vec<(usize, &str)> = vs.iter().map(|v| (v.position, v.variant.as_str())).collect();
            assert_eq!(v, vec![(3, "Top"), (5, "Bottom")]);
        },
        other => panic!("unexpected {:?}", other),
    }
    assert_eq!(plans[1].ident, "Axis");
    assert_eq!(plans[1].attr_positions, vec![8]);
}

#[test]
fn union_of_types_and_mixed() {
    let toks = vec![ident("type"), ident("MyUnion"), punct('='), ident("A"), punct('|'), ident("B"), punct('|'), ident("C"), punct(';')];
    let plans = plan_unions(&toks);
    match &plans[0].kind {
        UnionKind::Types(ts) => assert_eq!(ts, &vec!["A".to_string(), "B".to_string(), "C".to_string()]),
        other => panic!("unexpected {:?}", other),
    }
    let mixed = vec![ident("type"), ident("M"), punct('='), ident("A"), punct('|'), string("b"), punct(';')];
    assert!(plan_unions_checked(&mixed).is_none());
    let unterminated = vec![ident("type"), ident("M"), punct('='), ident("A")];
    assert!(plan_unions_checked(&unterminated).is_none());
}

#[test]
fn string_union_example() {
    let toks = vec![
        ident("type"), ident("MyStringUnion"), punct('='), string("foo"), punct('|'), string("bar"), punct('|'), string("baz"), punct(';'),
    ];
    let plan = plan_string_union(&toks);
    assert_eq!(plan.ident, "MyStringUnion");
    let v: Vec<&str> = plan.variants.iter().map(|v| v.variant.as_str()).collect();
    assert_eq!(v, vec!["Foo", "Bar", "Baz"]);
}

#[test]
fn helper_attributes_of_the_required_example() {
    // #[required(name = AllDetails, derive(PartialEq, Debug))]
    let attrs = vec![list(
        "required",
        vec![
            ident("name"), punct('='), ident("AllDetails"), punct(','), ident("derive"),
            Token::Group(Delimiter::Parenthesis, vec![ident("PartialEq"), punct(','), ident("Debug")]),
        ],
    )];
    let data = container_attributes("required", &attrs, "RequiredDetails".to_string());
    assert_eq!(data.ident, "AllDetails");
    assert_eq!(data.derives, vec!["PartialEq".to_string(), "Debug".to_string()]);

    let field_attrs = vec![list("required", vec![ident("name"), punct('='), ident("details_id")])];
    let f = field_attributes("required", "id".to_string(), &field_attrs);
    assert_eq!(f.ident, "details_id");
    assert!(!f.skip);
    let skip = vec![list("required", vec![ident("skip")])];
    assert!(field_attributes("required", "password".to_string(), &skip).skip);
}

#[test]
fn helper_picks() {
    let attrs = vec![list(
        "pick",
        vec![
            ident("Contact"), punct('='), punct('>'), ident("email"), punct('|'), ident("phone"), punct(','), ident("derive"),
            Token::Group(Delimiter::Parenthesis, vec![ident("Debug"), punct(','), ident("Clone")]),
        ],
    )];
    let names = vec![Some("name".to_string()), Some("email".to_string()), Some("phone".to_string())];
    let picks = plan_helper_picks(&attrs, &names);
    assert_eq!(picks[0].ident, "Contact");
    let f: Vec<(&str, usize)> = picks[0].fields.iter().map(|f| (f.name.as_str(), f.index)).collect();
    assert_eq!(f, vec![("email", 1), ("phone", 2)]);
    assert_eq!(picks[0].derives, vec!["Debug".to_string(), "Clone".to_string()]);

    let plain = vec![list("pick", vec![ident("Only"), punct('='), punct('>'), ident("name")])];
    let picks = plan_helper_picks(&plain, &names);
    assert_eq!(picks[0].derives, vec!["PartialEq".to_string(), "Clone".to_string(), "Debug".to_string()]);

    let missing = vec![list("pick", vec![ident("Bad"), punct('='), punct('>'), ident("age")])];
    assert!(plan_helper_picks_checked(&missing, &names).is_none());
}

#[test]
fn fill_gives_values_slot_by_slot() {
    let filled = try_fill(3, vec![(2, "c"), (0, "a"), (1, "b")]).unwrap();
    assert_eq!(filled, vec!["a", "b", "c"]);
}

#[test]
fn fill_reports_the_first_repeated_key() {
    assert_eq!(try_fill(3, vec![(1, 10), (0, 20), (2, 30), (0, 40), (1, 50)]), Err(FillError::Duplicate(0)));
}

#[test]
fn fill_reports_the_first_missing_key() {
    assert_eq!(try_fill(4, vec![(3, 'x'), (1, 'y')]), Err(FillError::Missing(0)));
    assert_eq!(try_fill(2, vec![(0, 'x')]), Err(FillError::Missing(1)));
    assert_eq!(try_fill::<u8>(0, vec![]), Ok(vec![]));
}
