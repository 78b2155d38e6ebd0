use utility_macros::types::{GenericArgument, PathArguments, TypeExt as _, TypeModel, TypePath, TypeSegment};

fn path_type(name: &str) -> TypeModel {
    TypeModel::Path(TypePath {
        qualified: None,
        leading_colon: false,
        segments: vec![TypeSegment { ident: name.to_string(), arguments: PathArguments::Empty }],
    })
}

fn option_type(inner: TypeModel) -> TypeModel {
    TypeModel::Path(TypePath {
        qualified: None,
        leading_colon: false,
        segments: vec![TypeSegment {
            ident: "Option".to_string(),
            arguments: PathArguments::AngleBracketed(vec![GenericArgument::Type(inner)]),
        }],
    })
}

#[test]
pub fn test_is_required() {
    let ty = path_type("i32");
    let opt = option_type(path_type("i32"));
    assert!(ty.is_required());
    assert!(!opt.is_required());
}

#[test]
pub fn type_ext_tests_test_as_option() {
    let ty = path_type("i32");
    let ty_as_opt = ty.as_option();
    let opt = option_type(path_type("i32"));

    assert_eq!(ty_as_opt, opt);

    let opt = option_type(path_type("i32"));
    let opt2 = option_type(path_type("i32"));
    let opt_as_opt = opt.as_option();
    assert_eq!(opt_as_opt, opt2);
}

#[test]
pub fn type_ext_tests_test_as_required() {
    let ty = path_type("i32");
    let ty2 = path_type("i32");
    let ty_as_req = ty.as_required();
    assert_eq!(ty_as_req, ty2);

    let opt = option_type(path_type("i32"));
    let req = opt.as_required();
    let req2 = path_type("i32");
    assert_eq!(req, req2);
}
