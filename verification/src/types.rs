//! Types of fields, as the derives read them, and their optional and required forms.

use vstd::prelude::*;

use crate::text::str_eq;

verus! {

/// A type as written in a field.
#[derive(Debug, PartialEq)]
pub enum TypeModel {
    /// A path type such as `i32`, `Option<String>` or `std::vec::Vec<u8>`.
    Path(TypePath),
    /// Any other type (a reference, a tuple, an array, ..), by its source text.
    Other(String),
}

/// A path type.
#[derive(Debug, PartialEq)]
pub struct TypePath {
    /// For a qualified path such as `<T as Trait>::Assoc`, the source text of the
    /// whole type.
    pub qualified: Option<String>,
    /// Whether the path starts with `::`.
    pub leading_colon: bool,
    /// The segments of the path.
    pub segments: Vec<TypeSegment>,
}

/// One segment of a path type.
#[derive(Debug, PartialEq)]
pub struct TypeSegment {
    /// The segment's identifier.
    pub ident: String,
    /// The segment's arguments.
    pub arguments: PathArguments,
}

/// The arguments of a path segment.
#[derive(Debug, PartialEq)]
pub enum PathArguments {
    /// No arguments.
    Empty,
    /// `<A, B>`
    AngleBracketed(Vec<GenericArgument>),
    /// `(A, B) -> C`, by its source text.
    Parenthesized(String),
}

/// One generic argument.
#[derive(Debug, PartialEq)]
pub enum GenericArgument {
    /// A type argument.
    Type(TypeModel),
    /// A lifetime, a constant or a binding, by its source text.
    Other(String),
}

/// The type is a path type.
pub open spec fn is_path(t: TypeModel) -> bool {
    t is Path
}

/// The type is an option: a path of the single segment `Option`.
pub open spec fn spec_is_option(t: TypeModel) -> bool {
    t matches TypeModel::Path(p) && p.segments@.len() == 1 && p.segments@[0].ident@ == "Option"@
}

/// `r` is the type `Option<t>`, written as the single segment `Option` with the
/// single argument `t`.
pub open spec fn is_option_of(r: TypeModel, t: TypeModel) -> bool {
    &&& r matches TypeModel::Path(p)
    &&& p.qualified is None
    &&& !p.leading_colon
    &&& p.segments@.len() == 1
    &&& p.segments@[0].ident@ == "Option"@
    &&& p.segments@[0].arguments matches PathArguments::AngleBracketed(args)
    &&& args@ == seq![GenericArgument::Type(t)]
}

/// The option of `t`: `t` itself where it already is an option.
pub open spec fn is_as_option(r: TypeModel, t: TypeModel) -> bool {
    if spec_is_option(t) {
        r == t
    } else {
        is_option_of(r, t)
    }
}

/// An option type can be unwrapped: its segment is angle bracketed and its first
/// argument is a type.
pub open spec fn option_unwraps(t: TypeModel) -> bool {
    &&& t matches TypeModel::Path(p)
    &&& p.segments@.len() >= 1
    &&& p.segments@[0].arguments matches PathArguments::AngleBracketed(args)
    &&& args@.len() >= 1
    &&& args@[0] is Type
}

/// The type that an option holds: its first argument.
pub open spec fn option_inner(t: TypeModel) -> TypeModel {
    match t {
        TypeModel::Path(p) => match p.segments@[0].arguments {
            PathArguments::AngleBracketed(args) => match args@[0] {
                GenericArgument::Type(inner) => inner,
                _ => t,
            },
            _ => t,
        },
        _ => t,
    }
}

/// The required form of `t`: the type that an option holds, or `t` itself.
pub open spec fn spec_as_required(t: TypeModel) -> TypeModel {
    if spec_is_option(t) {
        option_inner(t)
    } else {
        t
    }
}

/// Whether `ty` is an option: a path of the single segment `Option`.
pub fn is_option(ty: &TypeModel) -> (r: bool)
    ensures
        r == spec_is_option(*ty),
{
    match ty {
        TypeModel::Path(p) => p.segments.len() == 1 && str_eq(p.segments[0].ident.as_str(), "Option"),
        _ => false,
    }
}

/// Builds `Option<ty>`.
fn option_of(ty: TypeModel) -> (r: TypeModel)
    ensures
        is_option_of(r, ty),
{
    let mut args: Vec<GenericArgument> = Vec::new();
    args.push(GenericArgument::Type(ty));
    let mut segments: Vec<TypeSegment> = Vec::new();
    segments.push(TypeSegment {
        ident: String::from_str("Option"),
        arguments: PathArguments::AngleBracketed(args),
    });
    TypeModel::Path(TypePath { qualified: None, leading_colon: false, segments })
}

/// The option of `ty`: `ty` itself where it already is an option, else `Option<ty>`.
pub fn as_option(ty: TypeModel) -> (r: TypeModel)
    ensures
        is_as_option(r, ty),
{
    if is_option(&ty) {
        ty
    } else {
        option_of(ty)
    }
}

/// The type that an option holds.
fn unwrap_option(ty: TypeModel) -> (r: TypeModel)
    requires
        option_unwraps(ty),
    ensures
        r == option_inner(ty),
{
    match ty {
        TypeModel::Path(p) => {
            let mut segments = p.segments;
            let first = segments.remove(0);
            match first.arguments {
                PathArguments::AngleBracketed(args) => {
                    let mut args = args;
                    match args.remove(0) {
                        GenericArgument::Type(inner) => inner,
                        GenericArgument::Other(s) => TypeModel::Other(s),
                    }
                },
                PathArguments::Empty => TypeModel::Other(String::new()),
                PathArguments::Parenthesized(s) => TypeModel::Other(s),
            }
        },
        TypeModel::Other(s) => TypeModel::Other(s),
    }
}

/// The required form of `ty`: the type that an option holds, or `ty` itself where
/// it is not an option.
pub fn as_required(ty: TypeModel) -> (r: TypeModel)
    requires
        spec_is_option(ty) ==> option_unwraps(ty),
    ensures
        r == spec_as_required(ty),
{
    if is_option(&ty) {
        unwrap_option(ty)
    } else {
        ty
    }
}

/// The optional and required forms of a field's type.
pub trait TypeExt: Sized {
    /// Whether the type is an option.
    spec fn spec_is_option_type(&self) -> bool;

    /// The type accepts the queries: it is a path type.
    spec fn spec_is_path_type(&self) -> bool;

    /// The type accepts `as_required`.
    spec fn spec_unwraps(&self) -> bool;

    /// `r` is the optional form of `self`.
    spec fn spec_optional_form(&self, r: Self) -> bool;

    /// The required form of `self`.
    spec fn spec_required_form(&self) -> Self;

    /// Whether the type is an option.
    fn is_option(&self) -> (r: bool)
        requires
            self.spec_is_path_type(),
        ensures
            r == self.spec_is_option_type(),
    ;

    /// The optional form of the type: the type itself where it is an option.
    fn as_option(self) -> (r: Self)
        requires
            self.spec_is_path_type(),
        ensures
            self.spec_optional_form(r),
    ;

    /// Whether the type is not an option.
    fn is_required(&self) -> (r: bool)
        requires
            self.spec_is_path_type(),
        ensures
            r == !self.spec_is_option_type(),
    {
        !self.is_option()
    }

    /// The required form of the type: the type an option holds, else the type itself.
    fn as_required(self) -> (r: Self)
        requires
            self.spec_unwraps(),
        ensures
            r == self.spec_required_form(),
    ;
}

impl TypeExt for TypeModel {
    open spec fn spec_is_option_type(&self) -> bool {
        spec_is_option(*self)
    }

    open spec fn spec_is_path_type(&self) -> bool {
        is_path(*self)
    }

    open spec fn spec_unwraps(&self) -> bool {
        spec_is_option(*self) ==> option_unwraps(*self)
    }

    open spec fn spec_optional_form(&self, r: TypeModel) -> bool {
        is_as_option(r, *self)
    }

    open spec fn spec_required_form(&self) -> TypeModel {
        spec_as_required(*self)
    }

    fn is_option(&self) -> (r: bool) {
        is_option(self)
    }

    fn as_option(self) -> (r: TypeModel) {
        as_option(self)
    }

    fn as_required(self) -> (r: TypeModel) {
        as_required(self)
    }
}

/// The required form of the optional form of a type that is not an option is the
/// type itself.
pub proof fn law_required_of_optional(t: TypeModel, o: TypeModel)
    requires
        !spec_is_option(t),
        is_as_option(o, t),
    ensures
        spec_is_option(o),
        option_unwraps(o),
        spec_as_required(o) == t,
{
}

/// The optional form is an option, and taking it twice changes nothing.
pub proof fn law_optional_form_idempotent(t: TypeModel, o: TypeModel, oo: TypeModel)
    requires
        is_as_option(o, t),
        is_as_option(oo, o),
    ensures
        spec_is_option(o),
        oo == o,
{
}

/// The optional form of the required form of `Option<x>` is `Option<x>` itself,
/// where `x` is not an option.
pub proof fn law_optional_of_required(x: TypeModel, t: TypeModel, o: TypeModel)
    requires
        !spec_is_option(x),
        is_option_of(t, x),
        is_as_option(o, spec_as_required(t)),
    ensures
        spec_as_required(t) == x,
        is_option_of(o, x),
{
}

} // verus!
