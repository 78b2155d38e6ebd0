//! Field and variant attributes: `#[utility_macros(name = "Name")]`,
//! `#[utility_macros(case = "UPPER_SNAKE")]` and `#[utility_macros(skip)]`.

use vstd::prelude::*;

use crate::attributes::container::{after_items, opt_str_view};
use crate::attributes::{list_tokens, list_tokens_named, Attribute};
use crate::case::{case_converted, case_from_name, convert_case, CaseExt, CaseKind};
use crate::error::{view_result, Error, ErrorKind, ErrorView, Result};
use crate::search::{first_some, lemma_first_some_ends, lemma_first_some_step};
use crate::text::str_eq;
use crate::tokens::{is_string_token, string_token_contents, token_is_string, Token, TokenCursor};

verus! {

/// One item of a field or variant attribute.
#[derive(Debug, Clone, PartialEq)]
pub enum FieldVariantAttribute {
    /// `name = "name"`: the name of the generated field or variant.
    Name(String),
    /// `case = "snake"`: the case of the generated field or variant.
    Case(CaseKind),
    /// `skip`: the field or variant is left out.
    Skip,
}

/// A field or variant attribute item seen through the characters of its text.
pub enum FieldVariantAttributeView {
    Name(Seq<char>),
    Case(CaseKind),
    Skip,
}

impl View for FieldVariantAttribute {
    type V = FieldVariantAttributeView;

    open spec fn view(&self) -> FieldVariantAttributeView {
        match self {
            FieldVariantAttribute::Name(s) => FieldVariantAttributeView::Name(s@),
            FieldVariantAttribute::Case(c) => FieldVariantAttributeView::Case(*c),
            FieldVariantAttribute::Skip => FieldVariantAttributeView::Skip,
        }
    }
}

/// What reading one field or variant attribute item from the front of `toks`
/// gives: `None` where the tokens are malformed (a panic), else the item or the
/// error for an unknown key, and how many tokens were read.
pub open spec fn field_variant_item(toks: Seq<Token>) -> Option<(core::result::Result<FieldVariantAttributeView, ErrorView>, nat)> {
    if toks.len() == 0 || !(toks[0] is Ident) {
        None
    } else {
        let key = toks[0]->Ident_0@;
        if key == "name"@ || key == "case"@ {
            if toks.len() < 3 || toks[1] != Token::Punct('=') || !is_string_token(toks[2]) {
                None
            } else {
                let value = string_token_contents(toks[2]);
                if key == "name"@ {
                    Some((Ok(FieldVariantAttributeView::Name(value)), 3))
                } else {
                    match case_from_name(value) {
                        Some(c) => Some((Ok(FieldVariantAttributeView::Case(c)), 3)),
                        None => None,
                    }
                }
            }
        } else if key == "skip"@ {
            Some((Ok(FieldVariantAttributeView::Skip), 1))
        } else {
            Some((Err((ErrorKind::InvalidAttributeItem, key)), 1))
        }
    }
}

/// One field or variant item is read from the key written first: `skip` reads
/// only the key; `name` and `case` read `key = "value"` and give the text between
/// the quotes (for `case`, the case it names); any other key reads only the key
/// and gives `InvalidAttributeItem` with it.
pub proof fn law_field_variant_item(toks: Seq<Token>)
    requires
        field_variant_item(toks) is Some,
    ensures
        ({
            let (r, n) = field_variant_item(toks)->Some_0;
            let key = toks[0]->Ident_0@;
            let value = string_token_contents(toks[2]);
            &&& toks.len() >= 1 && toks[0] is Ident
            &&& key == "skip"@ ==> r == Ok::<FieldVariantAttributeView, ErrorView>(FieldVariantAttributeView::Skip) && n == 1
            &&& (key != "skip"@ && key != "name"@ && key != "case"@) ==> (n == 1
                && r == Err::<FieldVariantAttributeView, ErrorView>((ErrorKind::InvalidAttributeItem, key)))
            &&& (key == "name"@ || key == "case"@) ==> (n == 3 && toks.len() >= 3 && toks[1] == Token::Punct('=')
                && is_string_token(toks[2]))
            &&& key == "name"@ ==> r == Ok::<FieldVariantAttributeView, ErrorView>(FieldVariantAttributeView::Name(value))
            &&& key == "case"@ ==> (case_from_name(value) is Some && r == Ok::<FieldVariantAttributeView, ErrorView>(
                FieldVariantAttributeView::Case(case_from_name(value)->Some_0),
            ))
        }),
{
    reveal_strlit("name");
    reveal_strlit("case");
    reveal_strlit("skip");
    assert("skip"@[0] != "name"@[0] && "skip"@[0] != "case"@[0] && "case"@[0] != "name"@[0]);
    assert("skip"@ != "name"@ && "skip"@ != "case"@ && "case"@ != "name"@);
}

/// Reads `= "value"` after a key: `None` where the tokens are not of that form.
fn read_value(tokens: &mut TokenCursor) -> (r: Option<String>)
    ensures
        r is Some <==> (old(tokens).remaining().len() >= 2 && old(tokens).remaining()[0]
            == Token::Punct('=') && is_string_token(old(tokens).remaining()[1])),
        r matches Some(v) ==> v@ == string_token_contents(old(tokens).remaining()[1])
            && final(tokens).remaining() == old(tokens).remaining().skip(2),
{
    if !tokens.peek_punct('=') {
        return None;
    }
    tokens.advance();
    let is_str = match tokens.peek() {
        Some(t) => token_is_string(t),
        None => false,
    };
    if !is_str {
        return None;
    }
    let v = tokens.expect_string();
    assert(old(tokens).remaining().drop_first().drop_first() =~= old(tokens).remaining().skip(2));
    Some(v)
}

/// Reads one field or variant attribute item; `None` where the item is malformed.
pub fn parse_field_variant_attribute_checked(tokens: &mut TokenCursor) -> (r: Option<Result<FieldVariantAttribute>>)
    ensures
        field_variant_item(old(tokens).remaining()) is None ==> r is None,
        field_variant_item(old(tokens).remaining()) matches Some((o, n)) ==> {
            &&& r matches Some(res)
            &&& view_result(res) == o
            &&& final(tokens).remaining() == old(tokens).remaining().skip(n as int)
        },
{
    let is_ident = match tokens.peek() {
        Some(Token::Ident(_)) => true,
        _ => false,
    };
    if !is_ident {
        return None;
    }
    let key = tokens.expect_ident();
    proof {
        assert(old(tokens).remaining().drop_first() =~= old(tokens).remaining().skip(1));
    }
    let k = key.as_str();
    if str_eq(k, "name") {
        match read_value(tokens) {
            Some(v) => Some(Ok(FieldVariantAttribute::Name(v))),
            None => None,
        }
    } else if str_eq(k, "case") {
        match read_value(tokens) {
            Some(v) => match CaseKind::from_str(v.as_str()) {
                Ok(c) => Some(Ok(FieldVariantAttribute::Case(c))),
                Err(_) => None,
            },
            None => None,
        }
    } else if str_eq(k, "skip") {
        Some(Ok(FieldVariantAttribute::Skip))
    } else {
        Some(Err(Error::InvalidAttributeItem(key)))
    }
}

/// Reads one field or variant attribute item: `name = "name"`, `case = "case"` or
/// `skip`.  Any other key gives `InvalidAttributeItem` with the key, after reading
/// the key alone.
pub fn parse_field_variant_attribute(tokens: &mut TokenCursor) -> (r: Result<FieldVariantAttribute>)
    requires
        field_variant_item(old(tokens).remaining()) is Some,
    ensures
        view_result(r) == field_variant_item(old(tokens).remaining())->Some_0.0,
        final(tokens).remaining() == old(tokens).remaining().skip(
            field_variant_item(old(tokens).remaining())->Some_0.1 as int,
        ),
{
    parse_field_variant_attribute_checked(tokens).unwrap()
}

/// The views of a sequence of field or variant attribute items.
pub open spec fn field_variant_views(s: Seq<FieldVariantAttribute>) -> Seq<FieldVariantAttributeView> {
    s.map_values(|a: FieldVariantAttribute| a@)
}

/// What parsing the field or variant attributes among `attrs` gives: the
/// attributes `#[utility_macros(..)]` are read in order, one item each, and the
/// others are passed over.  The first error ends the parse; `None` where a
/// malformed item is reached first (a panic).
pub open spec fn field_variant_attributes_of(attrs: Seq<Attribute>) -> Option<core::result::Result<Seq<FieldVariantAttributeView>, ErrorView>>
    decreases attrs.len(),
{
    if attrs.len() == 0 {
        Some(Ok(seq![]))
    } else {
        let rest = field_variant_attributes_of(attrs.drop_first());
        match list_tokens_named(attrs[0], "utility_macros"@) {
            None => rest,
            Some(toks) => match field_variant_item(toks) {
                None => None,
                Some((Err(e), _)) => Some(Err(e)),
                Some((Ok(a), _)) => after_items(seq![a], rest),
            },
        }
    }
}

/// A parsed list of field or variant attribute items seen through their views.
pub open spec fn view_field_items(r: Result<Vec<FieldVariantAttribute>>) -> core::result::Result<Seq<FieldVariantAttributeView>, ErrorView> {
    match r {
        Ok(v) => Ok(field_variant_views(v@)),
        Err(e) => Err(e@),
    }
}

proof fn lemma_after_items_append<A>(p: Seq<A>, a: A, r: Option<core::result::Result<Seq<A>, ErrorView>>)
    ensures
        after_items(p, after_items(seq![a], r)) == after_items(p.push(a), r),
{
    match r {
        Some(Ok(xs)) => {
            assert(p + (seq![a] + xs) =~= p.push(a) + xs);
        },
        _ => {},
    }
}

/// Parses the field or variant attributes among `type_attrs`; `None` where a
/// malformed item is reached before any error.
pub fn parse_field_variant_attributes_checked(type_attrs: &Vec<Attribute>) -> (r: Option<Result<Vec<FieldVariantAttribute>>>)
    ensures
        field_variant_attributes_of(type_attrs@) is None ==> r is None,
        field_variant_attributes_of(type_attrs@) matches Some(o) ==> (r matches Some(res) && view_field_items(res) == o),
{
    let mut out: Vec<FieldVariantAttribute> = Vec::new();
    let mut i: usize = 0;
    proof {
        assert(type_attrs@.skip(0) =~= type_attrs@);
        assert(field_variant_views(out@) =~= Seq::<FieldVariantAttributeView>::empty());
        assert(after_items(Seq::<FieldVariantAttributeView>::empty(), field_variant_attributes_of(type_attrs@))
            == field_variant_attributes_of(type_attrs@)) by {
            match field_variant_attributes_of(type_attrs@) {
                Some(Ok(xs)) => { assert(Seq::<FieldVariantAttributeView>::empty() + xs =~= xs); },
                _ => {},
            }
        }
    }
    while i < type_attrs.len()
        invariant
            0 <= i <= type_attrs@.len(),
            field_variant_attributes_of(type_attrs@) == after_items(
                field_variant_views(out@),
                field_variant_attributes_of(type_attrs@.skip(i as int)),
            ),
        decreases type_attrs@.len() - i,
    {
        let ghost rest = type_attrs@.skip(i as int);
        proof {
            assert(rest.drop_first() =~= type_attrs@.skip(i + 1));
            assert(rest[0] == type_attrs@[i as int]);
        }
        match list_tokens(&type_attrs[i], "utility_macros") {
            None => {},
            Some(toks) => {
                let mut cursor = TokenCursor::new(toks);
                match parse_field_variant_attribute_checked(&mut cursor) {
                    None => {
                        return None;
                    },
                    Some(Err(e)) => {
                        return Some(Err(e));
                    },
                    Some(Ok(a)) => {
                        let ghost before = out@;
                        out.push(a);
                        proof {
                            lemma_after_items_append(
                                field_variant_views(before),
                                a@,
                                field_variant_attributes_of(type_attrs@.skip(i + 1)),
                            );
                            assert(field_variant_views(out@) =~= field_variant_views(before).push(a@));
                        }
                    },
                }
            },
        }
        i = i + 1;
    }
    proof {
        assert(type_attrs@.skip(i as int) =~= Seq::<Attribute>::empty());
        assert(field_variant_views(out@) + Seq::<FieldVariantAttributeView>::empty() =~= field_variant_views(out@));
    }
    Some(Ok(out))
}

/// Parses the field or variant attributes among `type_attrs`: each attribute
/// `#[utility_macros(..)]` gives one item, in order; other attributes are passed
/// over.  The first unknown key gives its `InvalidAttributeItem` error.
pub fn parse_field_variant_attributes(type_attrs: &Vec<Attribute>) -> (r: Result<Vec<FieldVariantAttribute>>)
    requires
        field_variant_attributes_of(type_attrs@) is Some,
    ensures
        view_field_items(r) == field_variant_attributes_of(type_attrs@)->Some_0,
{
    parse_field_variant_attributes_checked(type_attrs).unwrap()
}

/// The name that an item gives, if it is a `name` item.
pub open spec fn field_name_of(a: FieldVariantAttributeView) -> Option<Seq<char>> {
    match a {
        FieldVariantAttributeView::Name(n) => Some(n),
        _ => None,
    }
}

/// The case that an item gives, if it is a `case` item.
pub open spec fn field_case_of(a: FieldVariantAttributeView) -> Option<CaseKind> {
    match a {
        FieldVariantAttributeView::Case(c) => Some(c),
        _ => None,
    }
}

pub open spec fn pick_field_name() -> spec_fn(FieldVariantAttributeView) -> Option<Seq<char>> {
    |a: FieldVariantAttributeView| field_name_of(a)
}

pub open spec fn pick_field_case() -> spec_fn(FieldVariantAttributeView) -> Option<CaseKind> {
    |a: FieldVariantAttributeView| field_case_of(a)
}

/// The identifier that a field or variant gets from its items: the given name, or
/// else `ident` in the given case, or else `ident` itself.
pub open spec fn renamed_ident(name: Option<Seq<char>>, case: Option<CaseKind>, ident: Seq<char>) -> Seq<char> {
    match name {
        Some(n) => n,
        None => match case {
            Some(c) => case_converted(ident, c.spec_position()),
            None => ident,
        },
    }
}

/// The queries on a list of field or variant attribute items.  The first item of
/// each kind wins.
pub trait FieldVariantAttributes {
    /// The name that the items give.
    spec fn spec_name(&self) -> Option<Seq<char>>;

    /// The case that the items give.
    spec fn spec_case(&self) -> Option<CaseKind>;

    /// Whether the items hold `skip`.
    spec fn spec_skip(&self) -> bool;

    /// The name of the generated field or variant, if one is given.
    fn name(&self) -> (r: Option<&str>)
        ensures
            opt_str_view(r) == self.spec_name(),
    ;

    /// The case of the generated field or variant, if one is given.
    fn case(&self) -> (r: Option<CaseKind>)
        ensures
            r == self.spec_case(),
    ;

    /// The identifier of the generated field or variant: the given name, or else
    /// `ident` in the given case, or else `ident`.
    fn ident(&self, ident: &str) -> (r: String)
        ensures
            r@ == renamed_ident(self.spec_name(), self.spec_case(), ident@),
    {
        if let Some(name) = self.name() {
            String::from_str(name)
        } else if let Some(case) = self.case() {
            convert_case(ident, case)
        } else {
            String::from_str(ident)
        }
    }

    /// Whether the field or variant is left out.
    fn skip(&self) -> (r: bool)
        ensures
            r == self.spec_skip(),
    ;
}

impl FieldVariantAttributes for Vec<FieldVariantAttribute> {
    open spec fn spec_name(&self) -> Option<Seq<char>> {
        first_some(field_variant_views(self@), pick_field_name())
    }

    open spec fn spec_case(&self) -> Option<CaseKind> {
        first_some(field_variant_views(self@), pick_field_case())
    }

    open spec fn spec_skip(&self) -> bool {
        exists|i: int| 0 <= i < self@.len() && self@[i] is Skip
    }

    fn name(&self) -> (r: Option<&str>) {
        let ghost vs = field_variant_views(self@);
        let mut i: usize = 0;
        proof { lemma_first_some_ends(vs, pick_field_name()); }
        while i < self.len()
            invariant
                0 <= i <= self@.len(),
                vs == field_variant_views(self@),
                first_some(vs, pick_field_name()) == first_some(vs.skip(i as int), pick_field_name()),
            decreases self@.len() - i,
        {
            proof { lemma_first_some_step(vs, pick_field_name(), i as int); }
            if let FieldVariantAttribute::Name(n) = &self[i] {
                return Some(n.as_str());
            }
            i = i + 1;
        }
        proof { lemma_first_some_ends(vs, pick_field_name()); }
        None
    }

    fn case(&self) -> (r: Option<CaseKind>) {
        let ghost vs = field_variant_views(self@);
        let mut i: usize = 0;
        proof { lemma_first_some_ends(vs, pick_field_case()); }
        while i < self.len()
            invariant
                0 <= i <= self@.len(),
                vs == field_variant_views(self@),
                first_some(vs, pick_field_case()) == first_some(vs.skip(i as int), pick_field_case()),
            decreases self@.len() - i,
        {
            proof { lemma_first_some_step(vs, pick_field_case(), i as int); }
            if let FieldVariantAttribute::Case(c) = &self[i] {
                return Some(*c);
            }
            i = i + 1;
        }
        proof { lemma_first_some_ends(vs, pick_field_case()); }
        None
    }

    fn skip(&self) -> (r: bool) {
        let mut i: usize = 0;
        while i < self.len()
            invariant
                0 <= i <= self@.len(),
                forall|j: int| 0 <= j < i ==> !(self@[j] is Skip),
            decreases self@.len() - i,
        {
            if let FieldVariantAttribute::Skip = &self[i] {
                return true;
            }
            i = i + 1;
        }
        false
    }
}

} // verus!
