//! Attributes of items, fields and variants, and the parsers of this library's own
//! attribute items.

use vstd::prelude::*;

use crate::text::str_eq;
use crate::tokens::Token;

pub mod container;
pub mod field_variant;
pub mod with_keys;

pub use container::{
    parse_container_attribute, parse_container_attributes, ContainerAttribute,
    ContainerAttributes,
};
pub use field_variant::{
    parse_field_variant_attributes, FieldVariantAttribute, FieldVariantAttributes,
};


verus! {

/// One segment of an attribute's path.
#[derive(Debug, Clone)]
pub struct PathSegment {
    /// The segment's identifier.
    pub ident: String,
    /// Whether the segment carries generic arguments.
    pub has_arguments: bool,
}

/// The path that names an attribute, such as `utility_macros` or `a::b`.
#[derive(Debug, Clone)]
pub struct AttrPath {
    /// Whether the path starts with `::`.
    pub leading_colon: bool,
    /// The segments of the path.
    pub segments: Vec<PathSegment>,
}

/// The contents of an attribute.
#[derive(Debug)]
pub enum Meta {
    /// `#[path]`
    Path(AttrPath),
    /// `#[path(tokens)]`
    List(AttrPath, Vec<Token>),
    /// `#[path = value]`
    NameValue(AttrPath),
}

/// An attribute such as `#[utility_macros(name = "Foo")]`.
#[derive(Debug)]
pub struct Attribute {
    pub meta: Meta,
}

/// The path is the single identifier `name`: no leading `::`, one segment and no
/// generic arguments.
pub open spec fn path_is_ident(p: AttrPath, name: Seq<char>) -> bool {
    &&& !p.leading_colon
    &&& p.segments@.len() == 1
    &&& !p.segments@[0].has_arguments
    &&& p.segments@[0].ident@ == name
}

/// The path's first segment is `name`.
pub open spec fn path_starts_with(p: AttrPath, name: Seq<char>) -> bool {
    p.segments@.len() >= 1 && p.segments@[0].ident@ == name
}

/// The tokens of an attribute of the form `#[name(tokens)]`, where the path is
/// the single identifier `name`.
pub open spec fn list_tokens_named(a: Attribute, name: Seq<char>) -> Option<Seq<Token>> {
    match a.meta {
        Meta::List(p, toks) => if path_is_ident(p, name) { Some(toks@) } else { None },
        _ => None,
    }
}

/// The tokens of an attribute of the form `#[name..(tokens)]`, where the path's
/// first segment is `name`.
pub open spec fn list_tokens_prefixed(a: Attribute, name: Seq<char>) -> Option<Seq<Token>> {
    match a.meta {
        Meta::List(p, toks) => if path_starts_with(p, name) { Some(toks@) } else { None },
        _ => None,
    }
}

impl AttrPath {
    /// Whether the path is the single identifier `name`.
    pub fn is_ident(&self, name: &str) -> (r: bool)
        ensures
            r == path_is_ident(*self, name@),
    {
        !self.leading_colon && self.segments.len() == 1 && !self.segments[0].has_arguments
            && str_eq(self.segments[0].ident.as_str(), name)
    }

    /// Whether the path's first segment is `name`.
    pub fn starts_with(&self, name: &str) -> (r: bool)
        ensures
            r == path_starts_with(*self, name@),
    {
        self.segments.len() >= 1 && str_eq(self.segments[0].ident.as_str(), name)
    }
}

/// The tokens of `a` when it has the form `#[name(tokens)]`.
pub fn list_tokens<'a>(a: &'a Attribute, name: &str) -> (r: Option<&'a Vec<Token>>)
    ensures
        r is None <==> list_tokens_named(*a, name@) is None,
        r matches Some(t) ==> list_tokens_named(*a, name@) == Some(t@),
{
    match &a.meta {
        Meta::List(p, toks) => if p.is_ident(name) { Some(toks) } else { None },
        _ => None,
    }
}

/// The tokens of `a` when it has the form `#[name..(tokens)]`.
pub fn list_tokens_with_prefix<'a>(a: &'a Attribute, name: &str) -> (r: Option<&'a Vec<Token>>)
    ensures
        r is None <==> list_tokens_prefixed(*a, name@) is None,
        r matches Some(t) ==> list_tokens_prefixed(*a, name@) == Some(t@),
{
    match &a.meta {
        Meta::List(p, toks) => if p.starts_with(name) { Some(toks) } else { None },
        _ => None,
    }
}

} // verus!
