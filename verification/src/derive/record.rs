//! The derive `Record` on enums: for each attribute `#[record(Name => Type)]` or
//! `#[record(Name => Type, derive(..))]`, a struct with one field of that type for
//! each variant, named by the variant in snake case, and with the given derives or
//! else `Clone, Debug, PartialEq`.

use vstd::prelude::*;

use crate::attributes::{list_tokens_prefixed, list_tokens_with_prefix, Attribute};
use crate::case::{case_converted, convert_case, CaseKind};
use crate::search::string_views;
use crate::text::str_eq;
use crate::tokens::{is_ident_named, Token};

verus! {

/// The derives of a record struct.
#[derive(Debug)]
pub enum RecordDerive {
    /// The attribute's `derive(..)` group, by its position among the attribute's
    /// tokens.
    Group(usize),
    /// No group is given: the text between the brackets of the default
    /// `#[derive(..)]`.
    Default(String),
}

/// One record struct.
#[derive(Debug)]
pub struct RecordPlan {
    /// The position of its attribute among the enum's attributes.
    pub attr_index: usize,
    /// The name of the record struct.
    pub ident: String,
    /// The position, among the attribute's tokens, of the token that is the type
    /// of every field.
    pub type_position: usize,
    /// Its derives.
    pub derive: RecordDerive,
}

/// What the derive generates: the record structs, and the name of the field that
/// each variant gets.
#[derive(Debug)]
pub struct RecordPlans {
    /// One record struct for each attribute `#[record(..)]`, in order.
    pub records: Vec<RecordPlan>,
    /// For each variant, in order, its name in snake case.
    pub field_idents: Vec<String>,
}

/// The derives of a record struct seen through their text.
pub enum RecordDeriveView {
    Group(int),
    Default(Seq<char>),
}

/// A record attribute seen through its texts and positions.
pub struct RecordAttrView {
    pub attr_index: int,
    pub ident: Seq<char>,
    pub type_position: int,
    pub derive: RecordDeriveView,
}

/// The derives a record struct gets when its attribute gives none.
pub open spec fn default_record_derive() -> Seq<char> {
    "Clone, Debug, PartialEq"@
}

/// What reading `Name => Type` or `Name => Type, derive(..)` from `toks`, the
/// tokens of the attribute at `index`, gives: the name, the type as the token at
/// position 3, and the derive group at position 6 or else the default derives;
/// `None` where the tokens are malformed (a panic).  Tokens after these are not
/// read.
pub open spec fn record_attr(toks: Seq<Token>, index: int) -> Option<RecordAttrView> {
    if toks.len() < 4 || !(toks[0] is Ident) || toks[1] != Token::Punct('=') || toks[2]
        != Token::Punct('>') || toks[3] is Literal || toks[3] is Punct {
        None
    } else if toks.len() > 4 && toks[4] == Token::Punct(',') {
        if toks.len() < 7 || !is_ident_named(toks[5], "derive"@) || !(toks[6] is Group) {
            None
        } else {
            Some(RecordAttrView {
                attr_index: index,
                ident: toks[0]->Ident_0@,
                type_position: 3,
                derive: RecordDeriveView::Group(6),
            })
        }
    } else {
        Some(RecordAttrView {
            attr_index: index,
            ident: toks[0]->Ident_0@,
            type_position: 3,
            derive: RecordDeriveView::Default(default_record_derive()),
        })
    }
}

/// What the record attributes among `attrs` from position `i` on give: one for
/// each attribute whose path starts with `record`, in order; `None` where one is
/// malformed (a panic).
pub open spec fn record_attrs_from(attrs: Seq<Attribute>, i: int) -> Option<Seq<RecordAttrView>>
    decreases attrs.len() - i,
{
    if i < 0 || i >= attrs.len() {
        Some(seq![])
    } else {
        let rest = record_attrs_from(attrs, i + 1);
        match list_tokens_prefixed(attrs[i], "record"@) {
            None => rest,
            Some(toks) => match (record_attr(toks, i), rest) {
                (Some(a), Some(xs)) => Some(seq![a] + xs),
                _ => None,
            },
        }
    }
}

/// What the record attributes among `attrs` give.
pub open spec fn record_attributes_of(attrs: Seq<Attribute>) -> Option<Seq<RecordAttrView>> {
    record_attrs_from(attrs, 0)
}

/// A record plan seen through its texts and positions.
pub open spec fn record_view(p: RecordPlan) -> RecordAttrView {
    RecordAttrView {
        attr_index: p.attr_index as int,
        ident: p.ident@,
        type_position: p.type_position as int,
        derive: match p.derive {
            RecordDerive::Group(k) => RecordDeriveView::Group(k as int),
            RecordDerive::Default(t) => RecordDeriveView::Default(t@),
        },
    }
}

/// The views of a sequence of record plans.
pub open spec fn record_views(s: Seq<RecordPlan>) -> Seq<RecordAttrView> {
    s.map_values(|p: RecordPlan| record_view(p))
}

/// The snake case names of the variants.
pub open spec fn snake_idents(variants: Seq<Seq<char>>) -> Seq<Seq<char>> {
    variants.map_values(|v: Seq<char>| case_converted(v, CaseKind::Snake.spec_position()))
}

fn read_record_attr(toks: &Vec<Token>, index: usize) -> (r: Option<RecordPlan>)
    ensures
        record_attr(toks@, index as int) is None ==> r is None,
        record_attr(toks@, index as int) matches Some(v) ==> (r matches Some(p) && record_view(p) == v),
{
    if toks.len() < 4 {
        return None;
    }
    let ident = match &toks[0] {
        Token::Ident(s) => String::from_str(s.as_str()),
        _ => {
            return None;
        },
    };
    match &toks[1] {
        Token::Punct(c) => if *c != '=' {
            return None;
        },
        _ => {
            return None;
        },
    }
    match &toks[2] {
        Token::Punct(c) => if *c != '>' {
            return None;
        },
        _ => {
            return None;
        },
    }
    match &toks[3] {
        Token::Literal(_) | Token::Punct(_) => {
            return None;
        },
        _ => {},
    }
    let comma = toks.len() > 4 && match &toks[4] {
        Token::Punct(c) => *c == ',',
        _ => false,
    };
    if comma {
        if toks.len() < 7 {
            return None;
        }
        let is_derive = match &toks[5] {
            Token::Ident(s) => str_eq(s.as_str(), "derive"),
            _ => false,
        };
        let is_group = match &toks[6] {
            Token::Group(_, _) => true,
            _ => false,
        };
        if !is_derive || !is_group {
            return None;
        }
        Some(RecordPlan { attr_index: index, ident, type_position: 3, derive: RecordDerive::Group(6) })
    } else {
        Some(RecordPlan {
            attr_index: index,
            ident,
            type_position: 3,
            derive: RecordDerive::Default(String::from_str("Clone, Debug, PartialEq")),
        })
    }
}

/// Plans the record structs for an enum with these attributes and variants; `None`
/// where the derive panics on a malformed record attribute.
pub fn plan_record_checked(attrs: &Vec<Attribute>, variants: &Vec<String>) -> (r: Option<RecordPlans>)
    ensures
        record_attributes_of(attrs@) is None ==> r is None,
        record_attributes_of(attrs@) matches Some(xs) ==> (r matches Some(p) && record_views(p.records@) == xs
            && string_views(p.field_idents@) == snake_idents(string_views(variants@))),
{
    let mut records: Vec<RecordPlan> = Vec::new();
    let mut i: usize = 0;
    proof {
        if let Some(xs) = record_attributes_of(attrs@) {
            assert(record_views(records@) + xs =~= xs);
        }
    }
    while i < attrs.len()
        invariant
            0 <= i <= attrs@.len(),
            record_attributes_of(attrs@) == match record_attrs_from(attrs@, i as int) {
                Some(xs) => Some(record_views(records@) + xs),
                None => None,
            },
        decreases attrs@.len() - i,
    {
        match list_tokens_with_prefix(&attrs[i], "record") {
            None => {},
            Some(toks) => match read_record_attr(toks, i) {
                None => {
                    return None;
                },
                Some(p) => {
                    let ghost before = records@;
                    let ghost pv = record_view(p);
                    records.push(p);
                    proof {
                        assert(record_views(records@) =~= record_views(before).push(pv));
                        if let Some(xs) = record_attrs_from(attrs@, i + 1) {
                            assert(record_views(before) + (seq![pv] + xs) =~= record_views(records@) + xs);
                        }
                    }
                },
            },
        }
        i = i + 1;
    }
    proof {
        assert(record_views(records@) + Seq::<RecordAttrView>::empty() =~= record_views(records@));
    }
    let mut field_idents: Vec<String> = Vec::new();
    let mut j: usize = 0;
    while j < variants.len()
        invariant
            0 <= j <= variants@.len(),
            string_views(field_idents@) =~= snake_idents(string_views(variants@.take(j as int))),
        decreases variants@.len() - j,
    {
        let s = convert_case(variants[j].as_str(), CaseKind::Snake);
        let ghost before = field_idents@;
        field_idents.push(s);
        proof {
            assert(string_views(field_idents@) =~= string_views(before).push(s@));
            assert(string_views(variants@.take(j + 1)) =~= string_views(variants@.take(j as int)).push(variants@[j as int]@));
        }
        j = j + 1;
    }
    proof {
        assert(variants@.take(j as int) =~= variants@);
    }
    Some(RecordPlans { records, field_idents })
}

/// Plans the record structs for an enum with these attributes and variants: one
/// for each attribute whose path starts with `record`, in order (its position, its
/// name, the position of its type token, and its derive group or else the derives
/// `Clone, Debug, PartialEq`), and for each variant the name of its field, in
/// snake case.
pub fn plan_record(attrs: &Vec<Attribute>, variants: &Vec<String>) -> (r: RecordPlans)
    requires
        record_attributes_of(attrs@) is Some,
    ensures
        record_views(r.records@) == record_attributes_of(attrs@)->Some_0,
        string_views(r.field_idents@) == snake_idents(string_views(variants@)),
{
    plan_record_checked(attrs, variants).unwrap()
}

/// A record attribute gives the name written first, the type token at position 3
/// (neither a literal nor a punctuation), and the `derive(..)` group at position 6
/// where `, derive(..)` follows the type, else the derives `Clone, Debug,
/// PartialEq`.
pub proof fn law_record_attr(toks: Seq<Token>, index: int)
    requires
        record_attr(toks, index) is Some,
    ensures
        ({
            let v = record_attr(toks, index)->Some_0;
            &&& v.attr_index == index
            &&& toks.len() >= 4 && toks[0] is Ident && v.ident == toks[0]->Ident_0@
            &&& toks[1] == Token::Punct('=') && toks[2] == Token::Punct('>')
            &&& v.type_position == 3 && !(toks[3] is Literal) && !(toks[3] is Punct)
            &&& (toks.len() > 4 && toks[4] == Token::Punct(',')) ==> (v.derive == RecordDeriveView::Group(6)
                && toks.len() >= 7 && is_ident_named(toks[5], "derive"@) && toks[6] is Group)
            &&& !(toks.len() > 4 && toks[4] == Token::Punct(',')) ==> v.derive == RecordDeriveView::Default(
                "Clone, Debug, PartialEq"@,
            )
        }),
{
}

/// The record structs come from the attributes whose path starts with `record`,
/// one each and in order: every such attribute from `start` on gives one, and
/// each one names such an attribute.
pub proof fn law_record_attrs_from(attrs: Seq<Attribute>, start: int)
    requires
        0 <= start,
        record_attrs_from(attrs, start) is Some,
    ensures
        ({
            let xs = record_attrs_from(attrs, start)->Some_0;
            &&& forall|k: int| 0 <= k < xs.len() ==> start <= #[trigger] xs[k].attr_index < attrs.len()
                && list_tokens_prefixed(attrs[xs[k].attr_index], "record"@) is Some
            &&& forall|k: int, l: int| 0 <= k < l < xs.len() ==> #[trigger] xs[k].attr_index < #[trigger] xs[l].attr_index
            &&& forall|j: int| start <= j < attrs.len() && #[trigger] list_tokens_prefixed(attrs[j], "record"@) is Some
                ==> exists|k: int| 0 <= k < xs.len() && xs[k].attr_index == j
        }),
    decreases attrs.len() - start,
{
    if start < attrs.len() {
        law_record_attrs_from(attrs, start + 1);
        let xs = record_attrs_from(attrs, start)->Some_0;
        let ys = record_attrs_from(attrs, start + 1)->Some_0;
        match list_tokens_prefixed(attrs[start], "record"@) {
            None => {
                assert(xs == ys);
            },
            Some(toks) => {
                let a = record_attr(toks, start)->Some_0;
                assert(xs == seq![a] + ys);
                assert(xs[0].attr_index == start);
                assert forall|k: int| 0 <= k < xs.len() implies start <= #[trigger] xs[k].attr_index < attrs.len()
                    && list_tokens_prefixed(attrs[xs[k].attr_index], "record"@) is Some by {
                    if k > 0 {
                        assert(xs[k] == ys[k - 1]);
                    }
                }
                assert forall|k: int, l: int| 0 <= k < l < xs.len() implies #[trigger] xs[k].attr_index < #[trigger] xs[l].attr_index by {
                    assert(xs[l] == ys[l - 1]);
                    if k > 0 {
                        assert(xs[k] == ys[k - 1]);
                    }
                }
                assert forall|j: int| start <= j < attrs.len() && #[trigger] list_tokens_prefixed(attrs[j], "record"@) is Some
                    implies exists|k: int| 0 <= k < xs.len() && xs[k].attr_index == j by {
                    if j > start {
                        let k = choose|k: int| 0 <= k < ys.len() && ys[k].attr_index == j;
                        assert(xs[k + 1] == ys[k]);
                    } else {
                        assert(xs[0].attr_index == j);
                    }
                }
            },
        }
    }
}

/// Each variant gets the field named by its own name in snake case, in order.
pub proof fn law_record_field_idents(variants: Seq<Seq<char>>)
    ensures
        snake_idents(variants).len() == variants.len(),
        forall|i: int| 0 <= i < variants.len() ==> #[trigger] snake_idents(variants)[i] == case_converted(
            variants[i],
            CaseKind::Snake.spec_position(),
        ),
{
}

} // verus!
