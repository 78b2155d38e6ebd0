//! Container attributes that name a generated type and the keys (fields or
//! variants) it takes: `#[utility_macros("Contact" => "email" | "phone", name = "x")]`.

use vstd::prelude::*;

use crate::attributes::container::{
    container_item, container_views, opt_str_view, parse_container_attribute_checked,
    pick_case_all, pick_derive, ContainerAttribute, ContainerAttributeView, ContainerAttributes,
};
use crate::search::first_some;
use crate::attributes::{list_tokens, list_tokens_named, Attribute};
use crate::case::{case_converted, CaseKind};
use crate::search::string_views;
use crate::tokens::{is_string_token, string_token_contents, token_is_string, Token, TokenCursor};

verus! {

/// A generated type's name, the keys it takes and its container attribute items.
pub struct ContainerAttributesWithKeys {
    name: String,
    keys: Vec<String>,
    attributes: Vec<ContainerAttribute>,
}

/// A keyed container attribute seen through the characters of its texts.
pub struct KeyedAttributeView {
    pub name: Seq<char>,
    pub keys: Seq<Seq<char>>,
    pub attributes: Seq<ContainerAttributeView>,
}

impl View for ContainerAttributesWithKeys {
    type V = KeyedAttributeView;

    closed spec fn view(&self) -> KeyedAttributeView {
        KeyedAttributeView {
            name: self.name@,
            keys: string_views(self.keys@),
            attributes: container_views(self.attributes@),
        }
    }
}

/// What reading the keys `"a" | "b" | ..` from the front of `toks` gives: the keys
/// and how many tokens were read, up to the end or through a `,`; `None` where the
/// tokens are malformed (a panic).
pub open spec fn keys_list(toks: Seq<Token>) -> Option<(Seq<Seq<char>>, nat)>
    decreases toks.len(),
{
    if toks.len() == 0 || !is_string_token(toks[0]) {
        None
    } else {
        let k = string_token_contents(toks[0]);
        if toks.len() == 1 {
            Some((seq![k], 1))
        } else if toks[1] == Token::Punct(',') {
            Some((seq![k], 2))
        } else if toks[1] != Token::Punct('|') {
            None
        } else {
            match keys_list(toks.skip(2)) {
                Some((ks, n)) => Some((seq![k] + ks, n + 2)),
                None => None,
            }
        }
    }
}

/// What reading container attribute items up to the end of `toks` gives; `None`
/// where an item is malformed or has an unknown key (a panic).
pub open spec fn attribute_items(toks: Seq<Token>) -> Option<Seq<ContainerAttributeView>>
    decreases toks.len(),
{
    if toks.len() == 0 {
        Some(seq![])
    } else {
        match container_item(toks) {
            Some((Ok(a), n)) => if 1 <= n <= toks.len() {
                match attribute_items(toks.skip(n as int)) {
                    Some(rest) => Some(seq![a] + rest),
                    None => None,
                }
            } else {
                None
            },
            _ => None,
        }
    }
}

/// What reading `"Name" => "a" | "b", items..` from `toks` gives; `None` where the
/// tokens are malformed (a panic).
pub open spec fn keyed_attribute(toks: Seq<Token>) -> Option<KeyedAttributeView> {
    if toks.len() < 3 || !is_string_token(toks[0]) || toks[1] != Token::Punct('=')
        || toks[2] != Token::Punct('>') {
        None
    } else {
        match keys_list(toks.skip(3)) {
            None => None,
            Some((ks, n)) => match attribute_items(toks.skip(3 + n as int)) {
                None => None,
                Some(attrs) => Some(
                    KeyedAttributeView { name: string_token_contents(toks[0]), keys: ks, attributes: attrs },
                ),
            },
        }
    }
}

proof fn lemma_keys_list_len(toks: Seq<Token>)
    ensures
        keys_list(toks) matches Some((ks, n)) ==> 1 <= n <= toks.len(),
    decreases toks.len(),
{
    if toks.len() >= 2 && is_string_token(toks[0]) && toks[1] == Token::Punct('|') {
        lemma_keys_list_len(toks.skip(2));
    }
}

fn parse_keys(tokens: &mut TokenCursor, keys: &mut Vec<String>) -> (ok: bool)
    ensures
        keys_list(old(tokens).remaining()) is None ==> !ok,
        keys_list(old(tokens).remaining()) matches Some((ks, n)) ==> {
            &&& ok
            &&& string_views(final(keys)@) == string_views(old(keys)@) + ks
            &&& final(tokens).remaining() == old(tokens).remaining().skip(n as int)
        },
    decreases old(tokens).remaining().len(),
{
    let ghost toks = tokens.remaining();
    let is_str = match tokens.peek() {
        Some(t) => token_is_string(t),
        None => false,
    };
    if !is_str {
        return false;
    }
    let key = tokens.expect_string();
    let ghost before = keys@;
    keys.push(key);
    proof {
        assert(string_views(keys@) =~= string_views(before) + seq![string_token_contents(toks[0])]);
        assert(toks.drop_first() =~= toks.skip(1));
    }
    if tokens.is_empty() {
        return true;
    }
    if tokens.peek_punct(',') {
        tokens.advance();
        proof { assert(toks.skip(1).drop_first() =~= toks.skip(2)); }
        return true;
    }
    if !tokens.peek_punct('|') {
        return false;
    }
    tokens.advance();
    proof { assert(toks.skip(1).drop_first() =~= toks.skip(2)); }
    let ghost mid = keys@;
    let ok = parse_keys(tokens, keys);
    proof {
        lemma_keys_list_len(toks.skip(2));
        if let Some((ks, n)) = keys_list(toks.skip(2)) {
            assert(string_views(keys@) =~= string_views(before) + (seq![string_token_contents(toks[0])] + ks));
            assert(toks.skip(2).skip(n as int) =~= toks.skip(n as int + 2));
        }
    }
    ok
}

fn parse_items(tokens: &mut TokenCursor, out: &mut Vec<ContainerAttribute>) -> (ok: bool)
    ensures
        attribute_items(old(tokens).remaining()) is None ==> !ok,
        attribute_items(old(tokens).remaining()) matches Some(xs) ==> {
            &&& ok
            &&& container_views(final(out)@) == container_views(old(out)@) + xs
            &&& final(tokens).remaining().len() == 0
        },
    decreases old(tokens).remaining().len(),
{
    let ghost toks = tokens.remaining();
    if tokens.is_empty() {
        assert(container_views(out@) + Seq::<ContainerAttributeView>::empty() =~= container_views(out@));
        return true;
    }
    match parse_container_attribute_checked(tokens) {
        Some(Ok(a)) => {
            let ghost before = out@;
            out.push(a);
            let ok = parse_items(tokens, out);
            proof {
                if let Some(rest) = attribute_items(tokens_after(toks)) {
                    assert(container_views(out@) =~= container_views(before) + (seq![a@] + rest));
                }
            }
            ok
        },
        _ => false,
    }
}

/// The tokens left after the first container attribute item of `toks`.
spec fn tokens_after(toks: Seq<Token>) -> Seq<Token> {
    toks.skip(container_item(toks)->Some_0.1 as int)
}

/// Reads `"Name" => "a" | "b", items..`; `None` where the tokens are malformed.
pub fn parse_container_attributes_with_keys_tokens_checked(tokens: &mut TokenCursor) -> (r: Option<ContainerAttributesWithKeys>)
    ensures
        keyed_attribute(old(tokens).remaining()) is None ==> r is None,
        keyed_attribute(old(tokens).remaining()) matches Some(v) ==> (r matches Some(a) && a@ == v
            && final(tokens).remaining().len() == 0),
{
    let ghost toks = tokens.remaining();
    let is_str = match tokens.peek() {
        Some(t) => token_is_string(t),
        None => false,
    };
    if !is_str {
        return None;
    }
    let name = tokens.expect_string();
    if !tokens.peek_punct('=') {
        return None;
    }
    tokens.advance();
    if !tokens.peek_punct('>') {
        return None;
    }
    tokens.advance();
    proof { assert(toks.drop_first().drop_first().drop_first() =~= toks.skip(3)); }
    let mut keys: Vec<String> = Vec::new();
    if !parse_keys(tokens, &mut keys) {
        return None;
    }
    proof {
        lemma_keys_list_len(toks.skip(3));
        let n = keys_list(toks.skip(3))->Some_0.1;
        assert(toks.skip(3).skip(n as int) =~= toks.skip(3 + n as int));
        assert(string_views(Seq::<String>::empty()) + keys_list(toks.skip(3))->Some_0.0
            =~= keys_list(toks.skip(3))->Some_0.0);
    }
    let mut attributes: Vec<ContainerAttribute> = Vec::new();
    if !parse_items(tokens, &mut attributes) {
        return None;
    }
    proof {
        let n = keys_list(toks.skip(3))->Some_0.1;
        let xs = attribute_items(toks.skip(3 + n as int))->Some_0;
        assert(container_views(Seq::<ContainerAttribute>::empty()) + xs =~= xs);
    }
    Some(ContainerAttributesWithKeys { name, keys, attributes })
}

/// Reads `"Name" => "a" | "b"`, then container attribute items up to the end: the
/// keys end at the end of the tokens or at a `,`.  Every token is read.
pub fn parse_container_attributes_with_keys_tokens(tokens: &mut TokenCursor) -> (r: ContainerAttributesWithKeys)
    requires
        keyed_attribute(old(tokens).remaining()) is Some,
    ensures
        r@ == keyed_attribute(old(tokens).remaining())->Some_0,
        final(tokens).remaining().len() == 0,
{
    parse_container_attributes_with_keys_tokens_checked(tokens).unwrap()
}

/// What parsing the keyed attributes among `attrs` gives: one for each attribute
/// `#[utility_macros(..)]`, in order; `None` where one is malformed (a panic).
pub open spec fn keyed_attributes_of(attrs: Seq<Attribute>) -> Option<Seq<KeyedAttributeView>>
    decreases attrs.len(),
{
    if attrs.len() == 0 {
        Some(seq![])
    } else {
        let rest = keyed_attributes_of(attrs.drop_first());
        match list_tokens_named(attrs[0], "utility_macros"@) {
            None => rest,
            Some(toks) => match (keyed_attribute(toks), rest) {
                (Some(a), Some(xs)) => Some(seq![a] + xs),
                _ => None,
            },
        }
    }
}

/// The token at `j` is a string literal whose text between the quotes is `k`.
pub open spec fn key_at(toks: Seq<Token>, j: int, k: Seq<char>) -> bool {
    0 <= j < toks.len() && is_string_token(toks[j]) && k == string_token_contents(toks[j])
}

/// The keys read from the front of `toks` are the string literals at every second
/// position, in order and without their quotes, separated by `|`; the reading
/// stops at the end of the tokens or just after a `,`.
pub proof fn law_keys_list(toks: Seq<Token>)
    requires
        keys_list(toks) is Some,
    ensures
        ({
            let (ks, n) = keys_list(toks)->Some_0;
            &&& ks.len() >= 1
            &&& forall|i: int| 0 <= i < ks.len() ==> key_at(toks, 2 * i, #[trigger] ks[i])
            &&& forall|i: int| 0 <= i < ks.len() - 1 ==> #[trigger] toks[2 * i + 1] == Token::Punct('|')
            &&& n <= toks.len()
            &&& (n == 2 * ks.len() - 1 && n == toks.len())
                || (n == 2 * ks.len() && toks[n - 1] == Token::Punct(','))
        }),
    decreases toks.len(),
{
    if toks.len() >= 2 && toks[1] == Token::Punct('|') {
        let rest = toks.skip(2);
        law_keys_list(rest);
        let (ks, n) = keys_list(toks)->Some_0;
        let (ls, m) = keys_list(rest)->Some_0;
        assert(n == m + 2);
        assert(ks.len() == ls.len() + 1);
        assert(ks == seq![string_token_contents(toks[0])] + ls);
        assert forall|i: int| 0 <= i < ks.len() implies key_at(toks, 2 * i, #[trigger] ks[i]) by {
            if i > 0 {
                assert(ks[i] == ls[i - 1]);
                assert(key_at(rest, 2 * (i - 1), ls[i - 1]));
                assert(rest[2 * (i - 1)] == toks[2 * i]);
            }
        }
        assert forall|i: int| 0 <= i < ks.len() - 1 implies #[trigger] toks[2 * i + 1] == Token::Punct('|') by {
            if i > 0 {
                assert(rest[2 * (i - 1) + 1] == toks[2 * i + 1]);
            }
        }
        assert(rest.len() == toks.len() - 2);
        if m == 2 * ls.len() {
            assert(rest[m - 1] == toks[n - 1]);
        } else {
            assert(m == rest.len());
        }
    }
}

/// A keyed attribute is named by the string literal written first, and takes the
/// keys listed after `=>`.
pub proof fn law_keyed_attribute(toks: Seq<Token>)
    requires
        keyed_attribute(toks) is Some,
    ensures
        ({
            let v = keyed_attribute(toks)->Some_0;
            &&& is_string_token(toks[0]) && v.name == string_token_contents(toks[0])
            &&& toks[1] == Token::Punct('=') && toks[2] == Token::Punct('>')
            &&& v.keys == keys_list(toks.skip(3))->Some_0.0
        }),
{
    law_keys_list(toks.skip(3));
}

/// The views of a sequence of keyed attributes.
pub open spec fn keyed_views(s: Seq<ContainerAttributesWithKeys>) -> Seq<KeyedAttributeView> {
    s.map_values(|a: ContainerAttributesWithKeys| a@)
}

/// Parses the keyed attributes among `attributes`; `None` where one of them is
/// malformed.
pub fn parse_container_attributes_with_keys_checked(attributes: &Vec<Attribute>) -> (r: Option<Vec<ContainerAttributesWithKeys>>)
    ensures
        keyed_attributes_of(attributes@) is None ==> r is None,
        keyed_attributes_of(attributes@) matches Some(xs) ==> (r matches Some(v) && keyed_views(v@) == xs),
{
    let mut out: Vec<ContainerAttributesWithKeys> = Vec::new();
    let mut i: usize = 0;
    proof {
        assert(attributes@.skip(0) =~= attributes@);
        if let Some(xs) = keyed_attributes_of(attributes@) {
            assert(keyed_views(out@) + xs =~= xs);
        }
    }
    while i < attributes.len()
        invariant
            0 <= i <= attributes@.len(),
            keyed_attributes_of(attributes@) == match keyed_attributes_of(attributes@.skip(i as int)) {
                Some(xs) => Some(keyed_views(out@) + xs),
                None => None,
            },
        decreases attributes@.len() - i,
    {
        let ghost rest = attributes@.skip(i as int);
        proof {
            assert(rest.drop_first() =~= attributes@.skip(i + 1));
            assert(rest[0] == attributes@[i as int]);
        }
        match list_tokens(&attributes[i], "utility_macros") {
            None => {},
            Some(toks) => {
                let mut cursor = TokenCursor::new(toks);
                match parse_container_attributes_with_keys_tokens_checked(&mut cursor) {
                    None => {
                        return None;
                    },
                    Some(a) => {
                        let ghost before = out@;
                        out.push(a);
                        proof {
                            assert(keyed_views(out@) =~= keyed_views(before).push(a@));
                            if let Some(xs) = keyed_attributes_of(attributes@.skip(i + 1)) {
                                assert(keyed_views(before) + (seq![a@] + xs) =~= keyed_views(out@) + xs);
                            }
                        }
                    },
                }
            },
        }
        i = i + 1;
    }
    proof {
        assert(attributes@.skip(i as int) =~= Seq::<Attribute>::empty());
        assert(keyed_views(out@) + Seq::<KeyedAttributeView>::empty() =~= keyed_views(out@));
    }
    Some(out)
}

/// Parses the keyed attributes among `attributes`: one for each attribute
/// `#[utility_macros(..)]`, in order; other attributes are passed over.
pub fn parse_container_attributes_with_keys(attributes: &Vec<Attribute>) -> (r: Vec<ContainerAttributesWithKeys>)
    requires
        keyed_attributes_of(attributes@) is Some,
    ensures
        keyed_views(r@) == keyed_attributes_of(attributes@)->Some_0,
{
    parse_container_attributes_with_keys_checked(attributes).unwrap()
}

impl ContainerAttributesWithKeys {
    /// The name of the generated type.
    pub fn name(&self) -> (r: &str)
        ensures
            r@ == self@.name,
    {
        self.name.as_str()
    }

    /// The identifier of the generated type: its name.
    pub fn ident(&self) -> (r: String)
        ensures
            r@ == self@.name,
    {
        String::from_str(self.name.as_str())
    }

    /// The keys that the generated type takes.
    pub fn keys(&self) -> (r: &Vec<String>)
        ensures
            string_views(r@) == self@.keys,
    {
        &self.keys
    }

    /// The identifiers of the keys, in order.
    pub fn key_idents(&self) -> (r: Vec<String>)
        ensures
            string_views(r@) == self@.keys,
    {
        let mut out: Vec<String> = Vec::new();
        let mut i: usize = 0;
        while i < self.keys.len()
            invariant
                0 <= i <= self.keys@.len(),
                string_views(out@) =~= string_views(self.keys@.take(i as int)),
            decreases self.keys@.len() - i,
        {
            let k = String::from_str(self.keys[i].as_str());
            let ghost before = out@;
            out.push(k);
            assert(string_views(out@) =~= string_views(before).push(self.keys@[i as int]@));
            assert(self.keys@.take(i + 1) =~= self.keys@.take(i as int).push(self.keys@[i as int]));
            i = i + 1;
        }
        assert(self.keys@.take(i as int) =~= self.keys@);
        out
    }

    /// Whether `key` is one of the keys.
    pub fn has_key(&self, key: &str) -> (r: bool)
        ensures
            r == self@.keys.contains(key@),
    {
        let mut i: usize = 0;
        while i < self.keys.len()
            invariant
                0 <= i <= self.keys@.len(),
                forall|j: int| 0 <= j < i ==> self@.keys[j] != key@,
            decreases self.keys@.len() - i,
        {
            if crate::text::str_eq(self.keys[i].as_str(), key) {
                assert(self@.keys[i as int] == key@);
                return true;
            }
            i = i + 1;
        }
        false
    }

    /// The case of generated fields and variants, if given.
    pub fn case_all(&self) -> (r: Option<CaseKind>)
        ensures
            r == first_some(self@.attributes, pick_case_all()),
    {
        self.attributes.case_all()
    }

    /// The identifier of a generated field or variant: `ident` in the given case,
    /// or `ident` itself when no case is given.
    pub fn field_variant_ident(&self, ident: &str) -> (r: String)
        ensures
            r@ == match first_some(self@.attributes, pick_case_all()) {
                Some(c) => case_converted(ident@, c.spec_position()),
                None => ident@,
            },
    {
        self.attributes.field_ident(ident)
    }

    /// The derives of the generated type, if given.
    pub fn derive(&self) -> (r: Option<&str>)
        ensures
            opt_str_view(r) == first_some(self@.attributes, pick_derive()),
    {
        self.attributes.derive()
    }

    /// What this method gives is the `derive` item, as for `derive()`: the where
    /// clause item is not consulted.
    pub fn where_clause(&self) -> (r: Option<&str>)
        ensures
            opt_str_view(r) == first_some(self@.attributes, pick_derive()),
    {
        self.attributes.derive()
    }
}

} // verus!
