//! Attributes named after a derive's helper, such as
//! `#[required(name = AllDetails, derive(PartialEq, Debug))]` on a type and
//! `#[required(name = details_id)]` or `#[required(skip)]` on a field.  The name is
//! an identifier, and the derives a group of identifiers.

use vstd::prelude::*;

use crate::attributes::{list_tokens_prefixed, list_tokens_with_prefix, Attribute};
use crate::search::string_views;
use crate::text::str_eq;
use crate::tokens::{is_ident_named, Token};

verus! {

/// What the helper attributes of a type give.
#[derive(Debug)]
pub struct ContainerAttributesData {
    /// The name of the generated type.
    pub ident: String,
    /// The derives of the generated type.
    pub derives: Vec<String>,
}

/// What the helper attributes of a field give.
#[derive(Debug)]
pub struct FieldAttributesData {
    /// The name of the generated field.
    pub ident: String,
    /// Whether the field is left out.
    pub skip: bool,
}

/// What reading the identifiers of a derive group from `pos` gives: each identifier
/// may be followed by one punctuation character; `None` where a token is not an
/// identifier (a panic).
pub open spec fn derive_list(toks: Seq<Token>, pos: int) -> Option<Seq<Seq<char>>>
    decreases toks.len() - pos,
{
    if pos < 0 || pos >= toks.len() {
        Some(seq![])
    } else if !(toks[pos] is Ident) {
        None
    } else {
        let next = if pos + 1 < toks.len() && toks[pos + 1] is Punct {
            pos + 2
        } else {
            pos + 1
        };
        match derive_list(toks, next) {
            Some(ds) => Some(seq![toks[pos]->Ident_0@] + ds),
            None => None,
        }
    }
}

/// Where a derive group stands after the key `derive` at `pos`: right after it, or
/// after an `=`; `None` where another punctuation follows the key (a panic).
pub open spec fn derive_group_pos(toks: Seq<Token>, pos: int) -> Option<int> {
    if pos + 1 < toks.len() && toks[pos + 1] is Punct {
        if toks[pos + 1] == Token::Punct('=') {
            Some(pos + 2)
        } else {
            None
        }
    } else {
        Some(pos + 1)
    }
}

/// What scanning the tokens of a type's helper attribute from `pos` gives, starting
/// from the name `ident` and the derives `derives`: `name = Ident` sets the name,
/// `derive(A, B)` or `derive = (A, B)` adds derives, and other tokens are passed
/// over; `None` where the tokens are malformed (a panic).
pub open spec fn container_scan(
    toks: Seq<Token>,
    pos: int,
    ident: Seq<char>,
    derives: Seq<Seq<char>>,
) -> Option<(Seq<char>, Seq<Seq<char>>)>
    decreases toks.len() - pos,
{
    if pos < 0 || pos >= toks.len() {
        Some((ident, derives))
    } else if !(toks[pos] is Ident) {
        container_scan(toks, pos + 1, ident, derives)
    } else if is_ident_named(toks[pos], "name"@) {
        if pos + 2 < toks.len() && toks[pos + 1] == Token::Punct('=') && toks[pos + 2] is Ident {
            container_scan(toks, pos + 3, toks[pos + 2]->Ident_0@, derives)
        } else {
            None
        }
    } else if is_ident_named(toks[pos], "derive"@) {
        match derive_group_pos(toks, pos) {
            Some(q) => if q < toks.len() && toks[q] is Group {
                match derive_list(toks[q]->Group_1@, 0) {
                    Some(ds) => container_scan(toks, q + 1, ident, derives + ds),
                    None => None,
                }
            } else {
                None
            },
            None => None,
        }
    } else {
        container_scan(toks, pos + 1, ident, derives)
    }
}

/// No token from `pos` on is the identifier `name`.
pub open spec fn no_name_key_from(toks: Seq<Token>, pos: int) -> bool {
    forall|j: int| pos <= j < toks.len() ==> !is_ident_named(#[trigger] toks[j], "name"@)
}

/// Scanning a helper attribute only adds derives after those it starts with, and
/// keeps the name it starts with where no `name` key follows.
pub proof fn law_container_scan_extends(toks: Seq<Token>, pos: int, ident: Seq<char>, derives: Seq<Seq<char>>)
    requires
        container_scan(toks, pos, ident, derives) is Some,
    ensures
        ({
            let (i, ds) = container_scan(toks, pos, ident, derives)->Some_0;
            &&& ds.len() >= derives.len()
            &&& ds.subrange(0, derives.len() as int) == derives
            &&& (0 <= pos && no_name_key_from(toks, pos)) ==> i == ident
        }),
    decreases toks.len() - pos,
{
    if pos < 0 || pos >= toks.len() {
        assert(derives.subrange(0, derives.len() as int) =~= derives);
    } else if !(toks[pos] is Ident) {
        law_container_scan_extends(toks, pos + 1, ident, derives);
    } else if is_ident_named(toks[pos], "name"@) {
        law_container_scan_extends(toks, pos + 3, toks[pos + 2]->Ident_0@, derives);
    } else if is_ident_named(toks[pos], "derive"@) {
        let q = derive_group_pos(toks, pos)->Some_0;
        let ds = derive_list(toks[q]->Group_1@, 0)->Some_0;
        law_container_scan_extends(toks, q + 1, ident, derives + ds);
        let (_, out) = container_scan(toks, pos, ident, derives)->Some_0;
        assert(out.subrange(0, derives.len() as int) =~= out.subrange(0, (derives + ds).len() as int).subrange(
            0,
            derives.len() as int,
        ));
        assert((derives + ds).subrange(0, derives.len() as int) =~= derives);
    } else {
        law_container_scan_extends(toks, pos + 1, ident, derives);
    }
}

/// What the helper attributes of a type give, from the name `ident` and the
/// derives `derives`: the attributes whose path starts with `helper` are scanned in
/// order; `None` where one is malformed (a panic).
pub open spec fn container_attributes_scan(
    attrs: Seq<Attribute>,
    helper: Seq<char>,
    ident: Seq<char>,
    derives: Seq<Seq<char>>,
) -> Option<(Seq<char>, Seq<Seq<char>>)>
    decreases attrs.len(),
{
    if attrs.len() == 0 {
        Some((ident, derives))
    } else {
        match list_tokens_prefixed(attrs[0], helper) {
            None => container_attributes_scan(attrs.drop_first(), helper, ident, derives),
            Some(toks) => match container_scan(toks, 0, ident, derives) {
                Some((i, ds)) => container_attributes_scan(attrs.drop_first(), helper, i, ds),
                None => None,
            },
        }
    }
}

fn read_derive_list(toks: &Vec<Token>, pos: usize, out: &mut Vec<String>) -> (ok: bool)
    ensures
        derive_list(toks@, pos as int) is None ==> !ok,
        derive_list(toks@, pos as int) matches Some(ds) ==> (ok && string_views(final(out)@)
            == string_views(old(out)@) + ds),
    decreases toks@.len() - pos,
{
    if pos >= toks.len() {
        assert(string_views(out@) + Seq::<Seq<char>>::empty() =~= string_views(out@));
        return true;
    }
    let d = match &toks[pos] {
        Token::Ident(s) => String::from_str(s.as_str()),
        _ => {
            return false;
        },
    };
    let next = if toks.len() - pos >= 2 && matches!(toks[pos + 1], Token::Punct(_)) {
        pos + 2
    } else {
        pos + 1
    };
    let ghost before = out@;
    out.push(d);
    let ok = read_derive_list(toks, next, out);
    proof {
        if let Some(ds) = derive_list(toks@, next as int) {
            assert(string_views(out@) =~= string_views(before) + (seq![d@] + ds));
        }
    }
    ok
}

fn scan_container(toks: &Vec<Token>, pos: usize, ident: &mut String, derives: &mut Vec<String>) -> (ok: bool)
    ensures
        container_scan(toks@, pos as int, old(ident)@, string_views(old(derives)@)) is None ==> !ok,
        container_scan(toks@, pos as int, old(ident)@, string_views(old(derives)@)) matches Some((i, ds))
            ==> (ok && final(ident)@ == i && string_views(final(derives)@) == ds),
    decreases toks@.len() - pos,
{
    if pos >= toks.len() {
        return true;
    }
    let key = match &toks[pos] {
        Token::Ident(s) => s.as_str(),
        _ => {
            return scan_container(toks, pos + 1, ident, derives);
        },
    };
    if str_eq(key, "name") {
        if toks.len() - pos < 3 {
            return false;
        }
        let is_eq = match &toks[pos + 1] {
            Token::Punct(c) => *c == '=',
            _ => false,
        };
        if !is_eq {
            return false;
        }
        match &toks[pos + 2] {
            Token::Ident(s) => {
                *ident = String::from_str(s.as_str());
            },
            _ => {
                return false;
            },
        }
        scan_container(toks, pos + 3, ident, derives)
    } else if str_eq(key, "derive") {
        let q = if toks.len() - pos >= 2 && matches!(toks[pos + 1], Token::Punct(_)) {
            let is_eq = match &toks[pos + 1] {
                Token::Punct(c) => *c == '=',
                _ => false,
            };
            if !is_eq {
                return false;
            }
            pos + 2
        } else {
            pos + 1
        };
        if q >= toks.len() {
            return false;
        }
        let ok = match &toks[q] {
            Token::Group(_, inner) => {
                let ghost before = string_views(derives@);
                let ok = read_derive_list(inner, 0, derives);
                ok
            },
            _ => false,
        };
        if !ok {
            return false;
        }
        scan_container(toks, q + 1, ident, derives)
    } else {
        scan_container(toks, pos + 1, ident, derives)
    }
}

/// What the helper attributes of a type give, where they are well formed.
pub open spec fn container_attributes_spec(attrs: Seq<Attribute>, helper: Seq<char>, or_ident: Seq<char>) -> Option<(Seq<char>, Seq<Seq<char>>)> {
    container_attributes_scan(attrs, helper, or_ident, seq![])
}

/// Reads the helper attributes of a type; `None` where one of them is malformed.
pub fn container_attributes_checked(helper: &str, attributes: &Vec<Attribute>, or_ident: String) -> (r: Option<ContainerAttributesData>)
    ensures
        container_attributes_spec(attributes@, helper@, or_ident@) is None ==> r is None,
        container_attributes_spec(attributes@, helper@, or_ident@) matches Some((i, ds)) ==> (r matches Some(d)
            && d.ident@ == i && string_views(d.derives@) == ds),
{
    let mut ident = or_ident;
    let mut derives: Vec<String> = Vec::new();
    let mut k: usize = 0;
    proof {
        assert(attributes@.skip(0) =~= attributes@);
        assert(string_views(derives@) =~= Seq::<Seq<char>>::empty());
    }
    while k < attributes.len()
        invariant
            0 <= k <= attributes@.len(),
            container_attributes_spec(attributes@, helper@, or_ident@)
                == container_attributes_scan(attributes@.skip(k as int), helper@, ident@, string_views(derives@)),
        decreases attributes@.len() - k,
    {
        let ghost rest = attributes@.skip(k as int);
        proof {
            assert(rest.drop_first() =~= attributes@.skip(k + 1));
            assert(rest[0] == attributes@[k as int]);
        }
        match list_tokens_with_prefix(&attributes[k], helper) {
            None => {},
            Some(toks) => {
                if !scan_container(toks, 0, &mut ident, &mut derives) {
                    return None;
                }
            },
        }
        k = k + 1;
    }
    proof {
        assert(attributes@.skip(k as int) =~= Seq::<Attribute>::empty());
    }
    Some(ContainerAttributesData { ident, derives })
}

/// Reads the helper attributes of a type: the name of the generated type
/// (`or_ident` unless `name = Ident` gives one; the last one wins) and its derives
/// (those of every `derive(..)` group, in order).
pub fn container_attributes(helper: &str, attributes: &Vec<Attribute>, or_ident: String) -> (r: ContainerAttributesData)
    requires
        container_attributes_spec(attributes@, helper@, or_ident@) is Some,
    ensures
        r.ident@ == container_attributes_spec(attributes@, helper@, or_ident@)->Some_0.0,
        string_views(r.derives@) == container_attributes_spec(attributes@, helper@, or_ident@)->Some_0.1,
{
    container_attributes_checked(helper, attributes, or_ident).unwrap()
}

/// What scanning the tokens of a field's helper attribute from `pos` gives, from
/// the name `ident` and the flag `skip`: `name = Ident` sets the name, `skip` sets
/// the flag, and other tokens are passed over; `None` where the tokens are
/// malformed (a panic).
pub open spec fn field_scan(toks: Seq<Token>, pos: int, ident: Seq<char>, skip: bool) -> Option<(Seq<char>, bool)>
    decreases toks.len() - pos,
{
    if pos < 0 || pos >= toks.len() {
        Some((ident, skip))
    } else if is_ident_named(toks[pos], "name"@) {
        if pos + 2 < toks.len() && toks[pos + 1] == Token::Punct('=') && toks[pos + 2] is Ident {
            field_scan(toks, pos + 3, toks[pos + 2]->Ident_0@, skip)
        } else {
            None
        }
    } else if is_ident_named(toks[pos], "skip"@) {
        field_scan(toks, pos + 1, ident, true)
    } else {
        field_scan(toks, pos + 1, ident, skip)
    }
}

/// What the helper attributes of a field give, from the name `ident` and the flag
/// `skip`; `None` where one is malformed (a panic).
pub open spec fn field_attributes_scan(attrs: Seq<Attribute>, helper: Seq<char>, ident: Seq<char>, skip: bool) -> Option<(Seq<char>, bool)>
    decreases attrs.len(),
{
    if attrs.len() == 0 {
        Some((ident, skip))
    } else {
        match list_tokens_prefixed(attrs[0], helper) {
            None => field_attributes_scan(attrs.drop_first(), helper, ident, skip),
            Some(toks) => match field_scan(toks, 0, ident, skip) {
                Some((i, s)) => field_attributes_scan(attrs.drop_first(), helper, i, s),
                None => None,
            },
        }
    }
}

fn scan_field(toks: &Vec<Token>, pos: usize, ident: &mut String, skip: &mut bool) -> (ok: bool)
    ensures
        field_scan(toks@, pos as int, old(ident)@, *old(skip)) is None ==> !ok,
        field_scan(toks@, pos as int, old(ident)@, *old(skip)) matches Some((i, s)) ==> (ok && final(ident)@ == i
            && *final(skip) == s),
    decreases toks@.len() - pos,
{
    if pos >= toks.len() {
        return true;
    }
    let (is_name, is_skip) = match &toks[pos] {
        Token::Ident(s) => (str_eq(s.as_str(), "name"), str_eq(s.as_str(), "skip")),
        _ => (false, false),
    };
    if is_name {
        if toks.len() - pos < 3 {
            return false;
        }
        let is_eq = match &toks[pos + 1] {
            Token::Punct(c) => *c == '=',
            _ => false,
        };
        if !is_eq {
            return false;
        }
        match &toks[pos + 2] {
            Token::Ident(s) => {
                *ident = String::from_str(s.as_str());
            },
            _ => {
                return false;
            },
        }
        scan_field(toks, pos + 3, ident, skip)
    } else if is_skip {
        *skip = true;
        scan_field(toks, pos + 1, ident, skip)
    } else {
        scan_field(toks, pos + 1, ident, skip)
    }
}

/// What the helper attributes of the field named `field_ident` give, where they
/// are well formed.
pub open spec fn field_attributes_spec(attrs: Seq<Attribute>, helper: Seq<char>, field_ident: Seq<char>) -> Option<(Seq<char>, bool)> {
    field_attributes_scan(attrs, helper, field_ident, false)
}

/// Reads the helper attributes of the field named `field_ident`; `None` where one
/// of them is malformed.
pub fn field_attributes_checked(helper: &str, field_ident: String, attrs: &Vec<Attribute>) -> (r: Option<FieldAttributesData>)
    ensures
        field_attributes_spec(attrs@, helper@, field_ident@) is None ==> r is None,
        field_attributes_spec(attrs@, helper@, field_ident@) matches Some((i, s)) ==> (r matches Some(d)
            && d.ident@ == i && d.skip == s),
{
    let mut ident = field_ident;
    let mut skip = false;
    let mut k: usize = 0;
    proof {
        assert(attrs@.skip(0) =~= attrs@);
    }
    while k < attrs.len()
        invariant
            0 <= k <= attrs@.len(),
            field_attributes_spec(attrs@, helper@, field_ident@)
                == field_attributes_scan(attrs@.skip(k as int), helper@, ident@, skip),
        decreases attrs@.len() - k,
    {
        let ghost rest = attrs@.skip(k as int);
        proof {
            assert(rest.drop_first() =~= attrs@.skip(k + 1));
            assert(rest[0] == attrs@[k as int]);
        }
        match list_tokens_with_prefix(&attrs[k], helper) {
            None => {},
            Some(toks) => {
                if !scan_field(toks, 0, &mut ident, &mut skip) {
                    return None;
                }
            },
        }
        k = k + 1;
    }
    proof {
        assert(attrs@.skip(k as int) =~= Seq::<Attribute>::empty());
    }
    Some(FieldAttributesData { ident, skip })
}

/// Reads the helper attributes of the field named `field_ident`: its name in the
/// generated type (`field_ident` unless `name = Ident` gives one; the last one
/// wins) and whether `skip` leaves it out.
pub fn field_attributes(helper: &str, field_ident: String, attrs: &Vec<Attribute>) -> (r: FieldAttributesData)
    requires
        field_attributes_spec(attrs@, helper@, field_ident@) is Some,
    ensures
        r.ident@ == field_attributes_spec(attrs@, helper@, field_ident@)->Some_0.0,
        r.skip == field_attributes_spec(attrs@, helper@, field_ident@)->Some_0.1,
{
    field_attributes_checked(helper, field_ident, attrs).unwrap()
}

} // verus!
