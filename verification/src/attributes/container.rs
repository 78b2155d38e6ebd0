//! Container attributes: `#[utility_macros(name = "Name")]`,
//! `#[utility_macros(case_all = "UPPER_SNAKE")]`, `#[utility_macros(derive = "Debug, Clone")]`
//! and `#[utility_macros(where = "T: Debug + Clone")]`.

use vstd::prelude::*;

use crate::attributes::{list_tokens, list_tokens_named, Attribute};
use crate::case::{case_converted, case_from_name, convert_case, CaseExt, CaseKind};
use crate::error::{view_result, Error, ErrorKind, ErrorView, Result};
use crate::lexing::text_lexes;
use crate::search::{first_some, lemma_first_some_ends, lemma_first_some_step};
use crate::text::str_eq;
use crate::tokens::{is_string_token, string_token_contents, Token, TokenCursor};

verus! {

/// One item of a container attribute.
#[derive(Debug, Clone, PartialEq)]
pub enum ContainerAttribute {
    /// `name = "Name"`: the name of the generated type.
    Name(String),
    /// `case_all = "snake"`: the case of the generated fields or variants.
    CaseAll(CaseKind),
    /// `derive = "Debug, Clone"`: the derives of the generated type.
    Derive(String),
    /// `where = "T: Debug"`: the where clause of the generated type.
    Where(String),
}

/// A container attribute item seen through the characters of its text.
pub enum ContainerAttributeView {
    Name(Seq<char>),
    CaseAll(CaseKind),
    Derive(Seq<char>),
    Where(Seq<char>),
}

impl View for ContainerAttribute {
    type V = ContainerAttributeView;

    open spec fn view(&self) -> ContainerAttributeView {
        match self {
            ContainerAttribute::Name(s) => ContainerAttributeView::Name(s@),
            ContainerAttribute::CaseAll(c) => ContainerAttributeView::CaseAll(*c),
            ContainerAttribute::Derive(s) => ContainerAttributeView::Derive(s@),
            ContainerAttribute::Where(s) => ContainerAttributeView::Where(s@),
        }
    }
}

/// The keys of container attribute items that take a `= "value"`.
pub open spec fn is_valued_container_key(k: Seq<char>) -> bool {
    k == "name"@ || k == "case_all"@ || k == "derive"@ || k == "where"@
}

/// What reading one container attribute item from the front of `toks` gives:
/// `None` where the tokens are malformed (a panic), else the item or the error for
/// an unknown key, and how many tokens were read.
pub open spec fn container_item(toks: Seq<Token>) -> Option<(core::result::Result<ContainerAttributeView, ErrorView>, nat)> {
    if toks.len() == 0 || !(toks[0] is Ident) {
        None
    } else {
        let key = toks[0]->Ident_0@;
        if !is_valued_container_key(key) {
            Some((Err((ErrorKind::InvalidAttributeItem, key)), 1))
        } else if toks.len() < 3 || toks[1] != Token::Punct('=') || !is_string_token(toks[2]) {
            None
        } else {
            let value = string_token_contents(toks[2]);
            if key == "name"@ {
                Some((Ok(ContainerAttributeView::Name(value)), 3))
            } else if key == "case_all"@ {
                match case_from_name(value) {
                    Some(c) => Some((Ok(ContainerAttributeView::CaseAll(c)), 3)),
                    None => None,
                }
            } else if key == "derive"@ {
                Some((Ok(ContainerAttributeView::Derive(value)), 3))
            } else {
                Some((Ok(ContainerAttributeView::Where(value)), 3))
            }
        }
    }
}

/// Reads `= "value"` after a key: `None` where the tokens are not of that form.
fn read_value(tokens: &mut TokenCursor) -> (r: Option<String>)
    ensures
        r is Some <==> (old(tokens).remaining().len() >= 2 && old(tokens).remaining()[0]
            == Token::Punct('=') && is_string_token(old(tokens).remaining()[1])),
        r matches Some(v) ==> v@ == string_token_contents(old(tokens).remaining()[1])
            && final(tokens).remaining() == old(tokens).remaining().skip(2),
{
    if !tokens.peek_punct('=') {
        return None;
    }
    tokens.advance();
    let is_str = match tokens.peek() {
        Some(t) => crate::tokens::token_is_string(t),
        None => false,
    };
    if !is_str {
        return None;
    }
    let v = tokens.expect_string();
    assert(old(tokens).remaining().drop_first().drop_first() =~= old(tokens).remaining().skip(2));
    Some(v)
}

/// Reads one container attribute item; `None` where the item is malformed: no
/// key first, no `= "value"` after a known key, or an unknown case name.
pub fn parse_container_attribute_checked(tokens: &mut TokenCursor) -> (r: Option<Result<ContainerAttribute>>)
    ensures
        container_item(old(tokens).remaining()) is None ==> r is None,
        container_item(old(tokens).remaining()) matches Some((o, n)) ==> {
            &&& r matches Some(res)
            &&& view_result(res) == o
            &&& final(tokens).remaining() == old(tokens).remaining().skip(n as int)
        },
{
    let is_ident = match tokens.peek() {
        Some(Token::Ident(_)) => true,
        _ => false,
    };
    if !is_ident {
        return None;
    }
    let key = tokens.expect_ident();
    proof {
        assert(old(tokens).remaining().drop_first() =~= old(tokens).remaining().skip(1));
    }
    let k = key.as_str();
    if str_eq(k, "name") {
        match read_value(tokens) {
            Some(v) => Some(Ok(ContainerAttribute::Name(v))),
            None => None,
        }
    } else if str_eq(k, "case_all") {
        match read_value(tokens) {
            Some(v) => match CaseKind::from_str(v.as_str()) {
                Ok(c) => Some(Ok(ContainerAttribute::CaseAll(c))),
                Err(_) => None,
            },
            None => None,
        }
    } else if str_eq(k, "derive") {
        match read_value(tokens) {
            Some(v) => Some(Ok(ContainerAttribute::Derive(v))),
            None => None,
        }
    } else if str_eq(k, "where") {
        match read_value(tokens) {
            Some(v) => Some(Ok(ContainerAttribute::Where(v))),
            None => None,
        }
    } else {
        Some(Err(Error::InvalidAttributeItem(key)))
    }
}

/// Reads one container attribute item: `name = "Name"`, `case_all = "case"`,
/// `derive = "Derives"` or `where = "Clause"`.  Any other key gives
/// `InvalidAttributeItem` with the key, after reading the key alone.
pub fn parse_container_attribute(tokens: &mut TokenCursor) -> (r: Result<ContainerAttribute>)
    requires
        container_item(old(tokens).remaining()) is Some,
    ensures
        view_result(r) == container_item(old(tokens).remaining())->Some_0.0,
        final(tokens).remaining() == old(tokens).remaining().skip(
            container_item(old(tokens).remaining())->Some_0.1 as int,
        ),
{
    parse_container_attribute_checked(tokens).unwrap()
}


/// The views of a sequence of container attribute items.
pub open spec fn container_views(s: Seq<ContainerAttribute>) -> Seq<ContainerAttributeView> {
    s.map_values(|a: ContainerAttribute| a@)
}

/// A parsed list put after the items `p` already parsed.
pub open spec fn after_items<A>(
    p: Seq<A>,
    r: Option<core::result::Result<Seq<A>, ErrorView>>,
) -> Option<core::result::Result<Seq<A>, ErrorView>> {
    match r {
        Some(Ok(xs)) => Some(Ok(p + xs)),
        other => other,
    }
}

/// What parsing the container attributes among `attrs` gives: the attributes
/// `#[utility_macros(..)]` are read in order, one item each, and the others are
/// passed over.  The first error ends the parse; `None` where a malformed item is
/// reached first (a panic).
pub open spec fn container_attributes_of(attrs: Seq<Attribute>) -> Option<core::result::Result<Seq<ContainerAttributeView>, ErrorView>>
    decreases attrs.len(),
{
    if attrs.len() == 0 {
        Some(Ok(seq![]))
    } else {
        let rest = container_attributes_of(attrs.drop_first());
        match list_tokens_named(attrs[0], "utility_macros"@) {
            None => rest,
            Some(toks) => match container_item(toks) {
                None => None,
                Some((Err(e), _)) => Some(Err(e)),
                Some((Ok(a), _)) => after_items(seq![a], rest),
            },
        }
    }
}

/// A parsed list of container attribute items seen through their views.
pub open spec fn view_items(r: Result<Vec<ContainerAttribute>>) -> core::result::Result<Seq<ContainerAttributeView>, ErrorView> {
    match r {
        Ok(v) => Ok(container_views(v@)),
        Err(e) => Err(e@),
    }
}

proof fn lemma_after_items_append<A>(p: Seq<A>, a: A, r: Option<core::result::Result<Seq<A>, ErrorView>>)
    ensures
        after_items(p, after_items(seq![a], r)) == after_items(p.push(a), r),
{
    match r {
        Some(Ok(xs)) => {
            assert(p + (seq![a] + xs) =~= p.push(a) + xs);
        },
        _ => {},
    }
}

/// Parses the container attributes among `type_attrs`; `None` where a malformed
/// item is reached before any error.
pub fn parse_container_attributes_checked(type_attrs: Vec<Attribute>) -> (r: Option<Result<Vec<ContainerAttribute>>>)
    ensures
        container_attributes_of(type_attrs@) is None ==> r is None,
        container_attributes_of(type_attrs@) matches Some(o) ==> (r matches Some(res) && view_items(res) == o),
{
    let mut out: Vec<ContainerAttribute> = Vec::new();
    let mut i: usize = 0;
    proof {
        assert(type_attrs@.skip(0) =~= type_attrs@);
        assert(container_views(out@) =~= Seq::<ContainerAttributeView>::empty());
        assert(after_items(Seq::<ContainerAttributeView>::empty(), container_attributes_of(type_attrs@))
            == container_attributes_of(type_attrs@)) by {
            match container_attributes_of(type_attrs@) {
                Some(Ok(xs)) => { assert(Seq::<ContainerAttributeView>::empty() + xs =~= xs); },
                _ => {},
            }
        }
    }
    while i < type_attrs.len()
        invariant
            0 <= i <= type_attrs@.len(),
            container_attributes_of(type_attrs@) == after_items(
                container_views(out@),
                container_attributes_of(type_attrs@.skip(i as int)),
            ),
        decreases type_attrs@.len() - i,
    {
        let ghost rest = type_attrs@.skip(i as int);
        proof {
            assert(rest.drop_first() =~= type_attrs@.skip(i + 1));
            assert(rest[0] == type_attrs@[i as int]);
        }
        match list_tokens(&type_attrs[i], "utility_macros") {
            None => {},
            Some(toks) => {
                let mut cursor = TokenCursor::new(toks);
                match parse_container_attribute_checked(&mut cursor) {
                    None => {
                        return None;
                    },
                    Some(Err(e)) => {
                        return Some(Err(e));
                    },
                    Some(Ok(a)) => {
                        let ghost before = out@;
                        out.push(a);
                        proof {
                            lemma_after_items_append(
                                container_views(before),
                                a@,
                                container_attributes_of(type_attrs@.skip(i + 1)),
                            );
                            assert(container_views(out@) =~= container_views(before).push(a@));
                        }
                    },
                }
            },
        }
        i = i + 1;
    }
    proof {
        assert(type_attrs@.skip(i as int) =~= Seq::<Attribute>::empty());
        assert(container_views(out@) + Seq::<ContainerAttributeView>::empty() =~= container_views(out@));
    }
    Some(Ok(out))
}

/// Parses the container attributes among `type_attrs`: each attribute
/// `#[utility_macros(..)]` gives one item, in order; other attributes are passed over.
/// The first unknown key gives its `InvalidAttributeItem` error.
pub fn parse_container_attributes(type_attrs: Vec<Attribute>) -> (r: Result<Vec<ContainerAttribute>>)
    requires
        container_attributes_of(type_attrs@) is Some,
    ensures
        view_items(r) == container_attributes_of(type_attrs@)->Some_0,
{
    parse_container_attributes_checked(type_attrs).unwrap()
}


/// One container item is read from the key written first: an unknown key reads
/// only the key and gives `InvalidAttributeItem` with it; a known key reads
/// `key = "value"` and gives the item of that key holding the text between the
/// quotes (for `case_all`, the case that text names).
pub proof fn law_container_item(toks: Seq<Token>)
    requires
        container_item(toks) is Some,
    ensures
        ({
            let (r, n) = container_item(toks)->Some_0;
            let key = toks[0]->Ident_0@;
            let value = string_token_contents(toks[2]);
            &&& toks.len() >= 1 && toks[0] is Ident
            &&& r is Err <==> !is_valued_container_key(key)
            &&& r is Err ==> n == 1 && r->Err_0 == (ErrorKind::InvalidAttributeItem, key)
            &&& r is Ok ==> n == 3 && toks.len() >= 3 && toks[1] == Token::Punct('=') && is_string_token(toks[2])
            &&& (r is Ok && key == "name"@) ==> r->Ok_0 == ContainerAttributeView::Name(value)
            &&& (r is Ok && key == "derive"@) ==> r->Ok_0 == ContainerAttributeView::Derive(value)
            &&& (r is Ok && key == "where"@) ==> r->Ok_0 == ContainerAttributeView::Where(value)
            &&& (r is Ok && key == "case_all"@) ==> (case_from_name(value) is Some
                && r->Ok_0 == ContainerAttributeView::CaseAll(case_from_name(value)->Some_0))
        }),
{
    reveal_strlit("name");
    reveal_strlit("case_all");
    reveal_strlit("derive");
    reveal_strlit("where");
    assert("name"@.len() == 4 && "case_all"@.len() == 8 && "derive"@.len() == 6 && "where"@.len() == 5);
}

/// The number of attributes among `attrs` that are lists `#[utility_macros(..)]`.
pub open spec fn container_list_count(attrs: Seq<Attribute>) -> nat
    decreases attrs.len(),
{
    if attrs.len() == 0 {
        0
    } else {
        container_list_count(attrs.drop_first()) + if list_tokens_named(attrs[0], "utility_macros"@) is Some {
            1nat
        } else {
            0nat
        }
    }
}

/// The attribute is a list `#[utility_macros(..)]` whose first token is the
/// identifier `key`.
pub open spec fn list_starts_with_key(a: Attribute, key: Seq<char>) -> bool {
    match list_tokens_named(a, "utility_macros"@) {
        Some(toks) => toks.len() > 0 && toks[0] is Ident && toks[0]->Ident_0@ == key,
        None => false,
    }
}

/// Parsing the container attributes gives one item for each list
/// `#[utility_macros(..)]`; an error is always `InvalidAttributeItem` with the key
/// that starts one of those lists, a key that is not `name`, `case_all`, `derive`
/// or `where`.
pub proof fn law_container_attributes_shape(attrs: Seq<Attribute>)
    ensures
        container_attributes_of(attrs) matches Some(Ok(v)) ==> v.len() == container_list_count(attrs),
        container_attributes_of(attrs) matches Some(Err(e)) ==> e.0 == ErrorKind::InvalidAttributeItem
            && !is_valued_container_key(e.1) && exists|i: int| 0 <= i < attrs.len() && #[trigger] list_starts_with_key(attrs[i], e.1),
    decreases attrs.len(),
{
    if attrs.len() > 0 {
        let rest = attrs.drop_first();
        law_container_attributes_shape(rest);
        if let Some(Err(e)) = container_attributes_of(attrs) {
            match list_tokens_named(attrs[0], "utility_macros"@) {
                None => {
                    let i = choose|i: int| 0 <= i < rest.len() && #[trigger] list_starts_with_key(rest[i], e.1);
                    assert(attrs[i + 1] == rest[i]);
                },
                Some(toks) => {
                    match container_item(toks) {
                        Some((Err(_), _)) => {
                            assert(list_starts_with_key(attrs[0], e.1));
                        },
                        _ => {
                            let i = choose|i: int| 0 <= i < rest.len() && #[trigger] list_starts_with_key(rest[i], e.1);
                            assert(attrs[i + 1] == rest[i]);
                        },
                    }
                },
            }
        }
    }
}

/// The attribute is not a malformed list `#[utility_macros(..)]`: it is no such
/// list, or its first item reads.
pub open spec fn list_readable(a: Attribute) -> bool {
    match list_tokens_named(a, "utility_macros"@) {
        Some(toks) => container_item(toks) is Some,
        None => true,
    }
}

/// The attribute is a list `#[utility_macros(..)]` whose first item has an
/// unknown key.
pub open spec fn list_has_unknown_key(a: Attribute) -> bool {
    match list_tokens_named(a, "utility_macros"@) {
        Some(toks) => match container_item(toks) {
            Some((Err(_), _)) => true,
            _ => false,
        },
        None => false,
    }
}

/// Where no list `#[utility_macros(..)]` is malformed, parsing the container
/// attributes fails exactly when some list starts with an unknown key, and the
/// error is `InvalidAttributeItem` with the key of the first such list.
pub proof fn law_container_attributes_error(attrs: Seq<Attribute>)
    requires
        forall|i: int| 0 <= i < attrs.len() ==> #[trigger] list_readable(attrs[i]),
    ensures
        container_attributes_of(attrs) is Some,
        (container_attributes_of(attrs) matches Some(Err(_))) <==> exists|i: int|
            0 <= i < attrs.len() && #[trigger] list_has_unknown_key(attrs[i]),
        container_attributes_of(attrs) matches Some(Err(e)) ==> e.0 == ErrorKind::InvalidAttributeItem
            && !is_valued_container_key(e.1) && exists|i: int| 0 <= i < attrs.len()
                && #[trigger] list_starts_with_key(attrs[i], e.1) && list_has_unknown_key(attrs[i])
                && forall|j: int| 0 <= j < i ==> !#[trigger] list_has_unknown_key(attrs[j]),
    decreases attrs.len(),
{
    if attrs.len() > 0 {
        let rest = attrs.drop_first();
        assert forall|i: int| 0 <= i < rest.len() implies #[trigger] list_readable(rest[i]) by {
            assert(rest[i] == attrs[i + 1]);
            assert(list_readable(attrs[i + 1]));
        }
        law_container_attributes_error(rest);
        assert(list_readable(attrs[0]));
        if list_has_unknown_key(attrs[0]) {
            assert(list_starts_with_key(attrs[0], container_attributes_of(attrs)->Some_0->Err_0.1));
        } else {
            if exists|i: int| 0 <= i < rest.len() && #[trigger] list_has_unknown_key(rest[i]) {
                let i = choose|i: int| 0 <= i < rest.len() && #[trigger] list_has_unknown_key(rest[i]);
                assert(attrs[i + 1] == rest[i]);
                assert(list_has_unknown_key(attrs[i + 1]));
            }
            if exists|i: int| 0 <= i < attrs.len() && #[trigger] list_has_unknown_key(attrs[i]) {
                let i = choose|i: int| 0 <= i < attrs.len() && #[trigger] list_has_unknown_key(attrs[i]);
                assert(i > 0);
                assert(rest[i - 1] == attrs[i]);
                assert(list_has_unknown_key(rest[i - 1]));
            }
            if let Some(Err(e)) = container_attributes_of(attrs) {
                let i = choose|i: int| 0 <= i < rest.len()
                    && #[trigger] list_starts_with_key(rest[i], e.1) && list_has_unknown_key(rest[i])
                    && forall|j: int| 0 <= j < i ==> !#[trigger] list_has_unknown_key(rest[j]);
                assert(attrs[i + 1] == rest[i]);
                assert forall|j: int| 0 <= j < i + 1 implies !#[trigger] list_has_unknown_key(attrs[j]) by {
                    if j > 0 {
                        assert(attrs[j] == rest[j - 1]);
                    }
                }
            }
        }
    }
}

/// An attribute that is not a list `#[utility_macros(..)]` does not change what
/// parsing the container attributes gives.
pub proof fn law_other_attributes_pass_over(a: Attribute, attrs: Seq<Attribute>)
    requires
        list_tokens_named(a, "utility_macros"@) is None,
    ensures
        container_attributes_of(seq![a] + attrs) == container_attributes_of(attrs),
{
    assert((seq![a] + attrs).drop_first() =~= attrs);
}

/// The name that an item gives, if it is a `name` item.
pub open spec fn name_of(a: ContainerAttributeView) -> Option<Seq<char>> {
    match a {
        ContainerAttributeView::Name(n) => Some(n),
        _ => None,
    }
}

/// The case that an item gives, if it is a `case_all` item.
pub open spec fn case_all_of(a: ContainerAttributeView) -> Option<CaseKind> {
    match a {
        ContainerAttributeView::CaseAll(c) => Some(c),
        _ => None,
    }
}

/// The derives that an item gives, if it is a `derive` item.
pub open spec fn derive_of(a: ContainerAttributeView) -> Option<Seq<char>> {
    match a {
        ContainerAttributeView::Derive(d) => Some(d),
        _ => None,
    }
}

/// The where clause that an item gives, if it is a `where` item.
pub open spec fn where_of(a: ContainerAttributeView) -> Option<Seq<char>> {
    match a {
        ContainerAttributeView::Where(w) => Some(w),
        _ => None,
    }
}

pub open spec fn pick_name() -> spec_fn(ContainerAttributeView) -> Option<Seq<char>> {
    |a: ContainerAttributeView| name_of(a)
}

pub open spec fn pick_case_all() -> spec_fn(ContainerAttributeView) -> Option<CaseKind> {
    |a: ContainerAttributeView| case_all_of(a)
}

pub open spec fn pick_derive() -> spec_fn(ContainerAttributeView) -> Option<Seq<char>> {
    |a: ContainerAttributeView| derive_of(a)
}

pub open spec fn pick_where() -> spec_fn(ContainerAttributeView) -> Option<Seq<char>> {
    |a: ContainerAttributeView| where_of(a)
}

/// An optional string seen through its characters.
pub open spec fn opt_str_view(r: Option<&str>) -> Option<Seq<char>> {
    match r {
        Some(s) => Some(s@),
        None => None,
    }
}

/// The given text, or else the default.
pub open spec fn or_default(d: Option<Seq<char>>, default: Seq<char>) -> Seq<char> {
    match d {
        Some(t) => t,
        None => default,
    }
}

/// The queries on a list of container attribute items.  The first item of each
/// kind wins.
pub trait ContainerAttributes {
    /// The name of the generated type that the items give.
    spec fn spec_name(&self) -> Option<Seq<char>>;

    /// The case of generated fields and variants that the items give.
    spec fn spec_case_all(&self) -> Option<CaseKind>;

    /// The derives that the items give.
    spec fn spec_derive(&self) -> Option<Seq<char>>;

    /// The where clause that the items give.
    spec fn spec_where_clause(&self) -> Option<Seq<char>>;

    /// The name of the generated type, if one is given.
    fn name(&self) -> (r: Option<&str>)
        ensures
            opt_str_view(r) == self.spec_name(),
    ;

    /// The identifier of the generated type: the given name, or else `default`.
    fn ident(&self, default: &str) -> (r: String)
        ensures
            r@ == or_default(self.spec_name(), default@),
    {
        match self.name() {
            Some(n) => String::from_str(n),
            None => String::from_str(default),
        }
    }

    /// The case of generated fields and variants, if one is given.
    fn case_all(&self) -> (r: Option<CaseKind>)
        ensures
            r == self.spec_case_all(),
    ;

    /// The identifier of a generated field: `ident` in the given case, or `ident`
    /// itself when no case is given.
    fn field_ident(&self, ident: &str) -> (r: String)
        ensures
            r@ == match self.spec_case_all() {
                Some(c) => case_converted(ident@, c.spec_position()),
                None => ident@,
            },
    {
        match self.case_all() {
            Some(c) => convert_case(ident, c),
            None => String::from_str(ident),
        }
    }

    /// The derives of the generated type, if given.
    fn derive(&self) -> (r: Option<&str>)
        ensures
            opt_str_view(r) == self.spec_derive(),
    ;

    /// The statement `#[derive(..)]` of the generated type, holding the given
    /// derives or else `default`, once it is known whether that text splits into
    /// Rust tokens (`lexes`): the statement where it does, else
    /// `InvalidDeriveStatement` with the text.
    fn derive_statement_lexed(&self, default: &str, lexes: bool) -> (r: Result<String>)
        ensures
            ({
                let inner = or_default(self.spec_derive(), default@);
                &&& lexes ==> (r matches Ok(s) && s@ == "#[derive("@ + inner + ")]"@)
                &&& !lexes ==> view_result(r) == Err::<Seq<char>, ErrorView>(
                    (ErrorKind::InvalidDeriveStatement, inner),
                )
            }),
    {
        let inner = match self.derive() {
            Some(d) => d,
            None => default,
        };
        if lexes {
            let mut s = String::from_str("#[derive(");
            s.append(inner);
            s.append(")]");
            Ok(s)
        } else {
            Err(Error::InvalidDeriveStatement(String::from_str(inner)))
        }
    }

    /// The statement `#[derive(..)]` of the generated type, holding the given
    /// derives or else `default`; `InvalidDeriveStatement` with that text where
    /// `proc_macro2` does not split it into Rust tokens.  Which of the two comes
    /// back is up to the lexer.
    fn derive_statement(&self, default: &str) -> (r: Result<String>)
        ensures
            ({
                let inner = or_default(self.spec_derive(), default@);
                &&& r matches Ok(s) ==> s@ == "#[derive("@ + inner + ")]"@
                &&& r is Err ==> view_result(r) == Err::<Seq<char>, ErrorView>(
                    (ErrorKind::InvalidDeriveStatement, inner),
                )
            }),
    {
        let inner = match self.derive() {
            Some(d) => d,
            None => default,
        };
        let lexes = text_lexes(inner);
        self.derive_statement_lexed(default, lexes)
    }

    /// The where clause of the generated type, if given.
    fn where_clause(&self) -> (r: Option<&str>)
        ensures
            opt_str_view(r) == self.spec_where_clause(),
    ;

    /// The statement `where ..` of the generated type, once it is known whether the
    /// given clause splits into Rust tokens (`lexes`): empty when no clause is
    /// given; `where` and the clause where it splits; else `InvalidAttributeItem`
    /// with the clause.
    fn where_statement_lexed(&self, lexes: bool) -> (r: Result<String>)
        ensures
            match self.spec_where_clause() {
                None => r matches Ok(s) && s@.len() == 0,
                Some(w) => {
                    &&& lexes ==> (r matches Ok(s) && s@ == "where "@ + w)
                    &&& !lexes ==> view_result(r) == Err::<Seq<char>, ErrorView>(
                        (ErrorKind::InvalidAttributeItem, w),
                    )
                },
            },
    {
        match self.where_clause() {
            None => Ok(String::new()),
            Some(w) => {
                if lexes {
                    let mut s = String::from_str("where ");
                    s.append(w);
                    Ok(s)
                } else {
                    Err(Error::InvalidAttributeItem(String::from_str(w)))
                }
            },
        }
    }

    /// The statement `where ..` of the generated type: empty when no clause is
    /// given; `where` and the clause, or `InvalidAttributeItem` with the clause
    /// where `proc_macro2` does not split it into Rust tokens.  Which of the two
    /// comes back is up to the lexer.
    fn where_statement(&self) -> (r: Result<String>)
        ensures
            match self.spec_where_clause() {
                None => r matches Ok(s) && s@.len() == 0,
                Some(w) => {
                    &&& r matches Ok(s) ==> s@ == "where "@ + w
                    &&& r is Err ==> view_result(r) == Err::<Seq<char>, ErrorView>(
                        (ErrorKind::InvalidAttributeItem, w),
                    )
                },
            },
    {
        let lexes = match self.where_clause() {
            None => true,
            Some(w) => text_lexes(w),
        };
        self.where_statement_lexed(lexes)
    }
}

impl ContainerAttributes for Vec<ContainerAttribute> {
    open spec fn spec_name(&self) -> Option<Seq<char>> {
        first_some(container_views(self@), pick_name())
    }

    open spec fn spec_case_all(&self) -> Option<CaseKind> {
        first_some(container_views(self@), pick_case_all())
    }

    open spec fn spec_derive(&self) -> Option<Seq<char>> {
        first_some(container_views(self@), pick_derive())
    }

    open spec fn spec_where_clause(&self) -> Option<Seq<char>> {
        first_some(container_views(self@), pick_where())
    }

    fn name(&self) -> (r: Option<&str>) {
        let ghost vs = container_views(self@);
        let mut i: usize = 0;
        proof { lemma_first_some_ends(vs, pick_name()); }
        while i < self.len()
            invariant
                0 <= i <= self@.len(),
                vs == container_views(self@),
                first_some(vs, pick_name()) == first_some(vs.skip(i as int), pick_name()),
            decreases self@.len() - i,
        {
            proof { lemma_first_some_step(vs, pick_name(), i as int); }
            if let ContainerAttribute::Name(n) = &self[i] {
                return Some(n.as_str());
            }
            i = i + 1;
        }
        proof { lemma_first_some_ends(vs, pick_name()); }
        None
    }

    fn case_all(&self) -> (r: Option<CaseKind>) {
        let ghost vs = container_views(self@);
        let mut i: usize = 0;
        proof { lemma_first_some_ends(vs, pick_case_all()); }
        while i < self.len()
            invariant
                0 <= i <= self@.len(),
                vs == container_views(self@),
                first_some(vs, pick_case_all()) == first_some(vs.skip(i as int), pick_case_all()),
            decreases self@.len() - i,
        {
            proof { lemma_first_some_step(vs, pick_case_all(), i as int); }
            if let ContainerAttribute::CaseAll(c) = &self[i] {
                return Some(*c);
            }
            i = i + 1;
        }
        proof { lemma_first_some_ends(vs, pick_case_all()); }
        None
    }

    fn derive(&self) -> (r: Option<&str>) {
        let ghost vs = container_views(self@);
        let mut i: usize = 0;
        proof { lemma_first_some_ends(vs, pick_derive()); }
        while i < self.len()
            invariant
                0 <= i <= self@.len(),
                vs == container_views(self@),
                first_some(vs, pick_derive()) == first_some(vs.skip(i as int), pick_derive()),
            decreases self@.len() - i,
        {
            proof { lemma_first_some_step(vs, pick_derive(), i as int); }
            if let ContainerAttribute::Derive(d) = &self[i] {
                return Some(d.as_str());
            }
            i = i + 1;
        }
        proof { lemma_first_some_ends(vs, pick_derive()); }
        None
    }

    fn where_clause(&self) -> (r: Option<&str>) {
        let ghost vs = container_views(self@);
        let mut i: usize = 0;
        proof { lemma_first_some_ends(vs, pick_where()); }
        while i < self.len()
            invariant
                0 <= i <= self@.len(),
                vs == container_views(self@),
                first_some(vs, pick_where()) == first_some(vs.skip(i as int), pick_where()),
            decreases self@.len() - i,
        {
            proof { lemma_first_some_step(vs, pick_where(), i as int); }
            if let ContainerAttribute::Where(w) = &self[i] {
                return Some(w.as_str());
            }
            i = i + 1;
        }
        proof { lemma_first_some_ends(vs, pick_where()); }
        None
    }
}

} // verus!
