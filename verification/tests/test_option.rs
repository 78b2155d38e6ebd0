use utility_macros::types::{as_option, as_required, is_option, GenericArgument, PathArguments, TypeModel, TypePath, TypeSegment};

fn path_type(name: &str) -> TypeModel {
    TypeModel::Path(TypePath {
        qualified: None,
        leading_colon: false,
        segments: vec![TypeSegment { ident: name.to_string(), arguments: PathArguments::Empty }],
    })
}

fn option_type(inner: TypeModel) -> TypeModel {
    TypeModel::Path(TypePath {
        qualified: None,
        leading_colon: false,
        segments: vec![TypeSegment {
            ident: "Option".to_string(),
            arguments: PathArguments::AngleBracketed(vec![GenericArgument::Type(inner)]),
        }],
    })
}

#[test]
fn test_is_option() {
    assert!(is_option(&option_type(path_type("i32"))));
    assert!(!is_option(&path_type("i32")));
}

#[test]
fn test_option_test_as_option() {
    let ty = path_type("i32");
    let opt = option_type(path_type("i32"));

    assert_eq!(as_option(ty), option_type(path_type("i32")));
    assert_eq!(as_option(opt), option_type(path_type("i32")));
}

#[test]
fn test_option_test_as_required() {
    let ty = path_type("i32");
    let opt = option_type(path_type("i32"));

    assert_eq!(as_required(ty), path_type("i32"));
    assert_eq!(as_required(opt), path_type("i32"));
}

#[test]
fn other_types_are_not_options() {
    let r = TypeModel::Other("&str".to_string());
    assert!(!is_option(&r));
    assert_eq!(as_option(TypeModel::Other("&str".to_string())), option_type(TypeModel::Other("&str".to_string())));
    assert_eq!(as_required(TypeModel::Other("&str".to_string())), TypeModel::Other("&str".to_string()));
}

#[test]
fn qualified_option_paths_are_not_options() {
    let std_option = TypeModel::Path(TypePath {
        qualified: None,
        leading_colon: false,
        segments: vec![
            TypeSegment { ident: "std".to_string(), arguments: PathArguments::Empty },
            TypeSegment { ident: "option".to_string(), arguments: PathArguments::Empty },
            TypeSegment {
                ident: "Option".to_string(),
                arguments: PathArguments::AngleBracketed(vec![GenericArgument::Type(path_type("u8"))]),
            },
        ],
    });
    assert!(!is_option(&std_option));
}

#[test]
fn required_of_optional_restores_the_type() {
    let t = path_type("String");
    assert_eq!(as_required(as_option(t)), path_type("String"));
    let nested = option_type(option_type(path_type("u8")));
    assert_eq!(as_required(nested), option_type(path_type("u8")));
}
