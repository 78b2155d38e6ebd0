//! The derive `Pick`: for each attribute `#[utility_macros("Name" => "a" | "b")]`, a
//! type made of the fields (of a struct) or variants (of an enum) named by the keys.

use vstd::prelude::*;

use crate::attributes::field_variant::{
    field_variant_attributes_of, field_variant_views, parse_field_variant_attributes_checked,
    pick_field_case, pick_field_name, renamed_ident, FieldVariantAttributeView,
    FieldVariantAttributes,
};
use crate::attributes::with_keys::{
    keyed_attributes_of, keyed_views, parse_container_attributes_with_keys_checked,
    ContainerAttributesWithKeys, KeyedAttributeView,
};
use crate::attributes::Attribute;
use crate::derive::fields::base_ident;
use crate::attributes::{list_tokens_prefixed, list_tokens_with_prefix};
use crate::search::{
    first_some, law_first_some_is_first, lemma_first_some_ends, lemma_first_some_found,
    lemma_first_some_none, lemma_first_some_step, string_views,
};
use crate::attributes::container::{pick_case_all, ContainerAttributeView};
use crate::case::{case_converted, CaseKind};
use crate::derive::union::ident_at;
use crate::text::str_eq;
use crate::tokens::{is_ident_named, Delimiter, Token};

verus! {

/// A field of a struct, or a variant of an enum, that a pick may take.
#[derive(Debug)]
pub struct PickSource {
    /// The name of the field or variant.
    pub ident: String,
    /// Its attributes.
    pub attrs: Vec<Attribute>,
}

/// One field or variant that a pick takes.
#[derive(Debug)]
pub struct PickEntry {
    /// Its position among the fields or variants.
    pub index: usize,
    /// Its name in the type it picks from.
    pub type_ident: String,
    /// Its name in the pick.
    pub pick_ident: String,
}

/// A pick entry seen through the characters of its names.
pub struct PickEntryView {
    pub index: int,
    pub type_ident: Seq<char>,
    pub pick_ident: Seq<char>,
}

impl View for PickEntry {
    type V = PickEntryView;

    open spec fn view(&self) -> PickEntryView {
        PickEntryView { index: self.index as int, type_ident: self.type_ident@, pick_ident: self.pick_ident@ }
    }
}

/// One generated pick type.
#[derive(Debug)]
pub struct PickPlan {
    /// The name of the pick type.
    pub ident: String,
    /// The fields or variants it takes, in their order in the type it picks from.
    pub entries: Vec<PickEntry>,
}

/// The views of a sequence of pick entries.
pub open spec fn entry_views(s: Seq<PickEntry>) -> Seq<PickEntryView> {
    s.map_values(|e: PickEntry| e@)
}

/// The items of the attributes of a field or variant, where they parse.
pub open spec fn source_items(s: PickSource) -> Seq<FieldVariantAttributeView> {
    field_variant_attributes_of(s.attrs@)->Some_0->Ok_0
}

/// The name of a field or variant in the pick: its `name`, else its name in the
/// pick's `case_all`, cased by its own `case`.
pub open spec fn pick_ident_of(k: KeyedAttributeView, s: PickSource) -> Seq<char> {
    let fs = source_items(s);
    renamed_ident(first_some(fs, pick_field_name()), first_some(fs, pick_field_case()), base_ident(k.attributes, s.ident@))
}

/// The entries of the pick `k` among `srcs`: the fields or variants whose names are
/// among its keys, in order.
pub open spec fn pick_entries(k: KeyedAttributeView, srcs: Seq<PickSource>) -> Seq<PickEntryView>
    decreases srcs.len(),
{
    if srcs.len() == 0 {
        seq![]
    } else {
        let i = srcs.len() - 1;
        let prev = pick_entries(k, srcs.drop_last());
        if k.keys.contains(srcs[i].ident@) {
            prev.push(PickEntryView { index: i, type_ident: srcs[i].ident@, pick_ident: pick_ident_of(k, srcs[i]) })
        } else {
            prev
        }
    }
}

/// The attributes of every field or variant parse.
pub open spec fn sources_parse(srcs: Seq<PickSource>) -> bool {
    forall|i: int| 0 <= i < srcs.len() ==> (field_variant_attributes_of(#[trigger] srcs[i].attrs@) matches Some(Ok(_)))
}

/// The derive takes the attributes and the fields or variants without a panic: the
/// keyed attributes parse; where there is one, the attributes of every field or
/// variant parse; and on a struct every key names a field.
pub open spec fn pick_accepted(attrs: Seq<Attribute>, is_struct: bool, srcs: Seq<PickSource>) -> bool {
    &&& keyed_attributes_of(attrs) matches Some(ks)
    &&& ks.len() > 0 ==> sources_parse(srcs)
    &&& is_struct ==> forall|j: int| 0 <= j < ks.len() ==> pick_entries(#[trigger] ks[j], srcs).len() == ks[j].keys.len()
}

/// `p` is the pick that `k` gives.
pub open spec fn pick_plan_matches(k: KeyedAttributeView, srcs: Seq<PickSource>, p: PickPlan) -> bool {
    &&& p.ident@ == k.name
    &&& entry_views(p.entries@) == pick_entries(k, srcs)
}

/// The entries of one pick; `None` where the attributes of a field or variant do
/// not parse.
fn plan_entries(k: &ContainerAttributesWithKeys, srcs: &Vec<PickSource>) -> (r: Option<Vec<PickEntry>>)
    ensures
        sources_parse(srcs@) ==> (r matches Some(es) && entry_views(es@) == pick_entries(k@, srcs@)),
        !sources_parse(srcs@) ==> r is None,
{
    let mut out: Vec<PickEntry> = Vec::new();
    let mut i: usize = 0;
    proof {
        assert(srcs@.take(0) =~= Seq::<PickSource>::empty());
        assert(entry_views(out@) =~= Seq::<PickEntryView>::empty());
    }
    while i < srcs.len()
        invariant
            0 <= i <= srcs@.len(),
            entry_views(out@) == pick_entries(k@, srcs@.take(i as int)),
            forall|j: int| 0 <= j < i ==> (field_variant_attributes_of(#[trigger] srcs@[j].attrs@) matches Some(Ok(_))),
        decreases srcs@.len() - i,
    {
        let ghost taken = srcs@.take(i + 1);
        proof {
            assert(taken.drop_last() =~= srcs@.take(i as int));
            assert(taken[i as int] == srcs@[i as int]);
        }
        let src = &srcs[i];
        let items = match parse_field_variant_attributes_checked(&src.attrs) {
            Some(Ok(v)) => v,
            _ => {
                return None;
            },
        };
        proof {
            assert(field_variant_views(items@) == source_items(*src));
        }
        if k.has_key(src.ident.as_str()) {
            let base = k.field_variant_ident(src.ident.as_str());
            let pick_ident = items.ident(base.as_str());
            let e = PickEntry { index: i, type_ident: String::from_str(src.ident.as_str()), pick_ident };
            let ghost before = out@;
            out.push(e);
            proof {
                assert(entry_views(out@) =~= entry_views(before).push(e@));
            }
        }
        i = i + 1;
    }
    proof {
        assert(srcs@.take(i as int) =~= srcs@);
    }
    Some(out)
}

/// Plans the picks that the attributes give for a struct (`is_struct`) or an enum
/// with these fields or variants; `None` where the derive panics: on a malformed
/// keyed attribute, on field or variant attributes that do not parse (where there
/// is a pick), or, on a struct, on a key that names no field.
pub fn plan_pick_checked(attrs: &Vec<Attribute>, is_struct: bool, srcs: &Vec<PickSource>) -> (r: Option<Vec<PickPlan>>)
    ensures
        pick_accepted(attrs@, is_struct, srcs@) ==> (r matches Some(ps) && ps@.len() == keyed_attributes_of(attrs@)->Some_0.len()
            && forall|j: int| 0 <= j < ps@.len() ==> pick_plan_matches(
                keyed_attributes_of(attrs@)->Some_0[j],
                srcs@,
                #[trigger] ps@[j],
            )),
        !pick_accepted(attrs@, is_struct, srcs@) ==> r is None,
{
    let keyed = match parse_container_attributes_with_keys_checked(attrs) {
        Some(v) => v,
        None => {
            return None;
        },
    };
    let ghost ks = keyed_attributes_of(attrs@)->Some_0;
    let mut out: Vec<PickPlan> = Vec::new();
    let mut j: usize = 0;
    while j < keyed.len()
        invariant
            0 <= j <= keyed@.len(),
            keyed_views(keyed@) == ks,
            ks == keyed_attributes_of(attrs@)->Some_0,
            keyed_attributes_of(attrs@) is Some,
            out@.len() == j,
            j > 0 ==> sources_parse(srcs@),
            forall|m: int| 0 <= m < j ==> pick_plan_matches(ks[m], srcs@, #[trigger] out@[m]),
            is_struct ==> forall|m: int| 0 <= m < j ==> pick_entries(#[trigger] ks[m], srcs@).len() == ks[m].keys.len(),
        decreases keyed@.len() - j,
    {
        let k = &keyed[j];
        proof {
            assert(ks[j as int] == k@);
        }
        let entries = match plan_entries(k, srcs) {
            Some(es) => es,
            None => {
                return None;
            },
        };
        let keys = k.keys();
        proof {
            assert(entry_views(entries@).len() == entries@.len());
            assert(crate::search::string_views(keys@).len() == keys@.len());
        }
        if is_struct && entries.len() != keys.len() {
            return None;
        }
        out.push(PickPlan { ident: k.ident(), entries });
        j = j + 1;
    }
    Some(out)
}

/// Plans the picks that the attributes give, one for each keyed attribute, in
/// order: the pick's name, and the fields or variants whose names are among its
/// keys, each with its name in the pick.
pub fn plan_pick(attrs: &Vec<Attribute>, is_struct: bool, srcs: &Vec<PickSource>) -> (r: Vec<PickPlan>)
    requires
        pick_accepted(attrs@, is_struct, srcs@),
    ensures
        r@.len() == keyed_attributes_of(attrs@)->Some_0.len(),
        forall|j: int| 0 <= j < r@.len() ==> pick_plan_matches(
            keyed_attributes_of(attrs@)->Some_0[j],
            srcs@,
            #[trigger] r@[j],
        ),
{
    plan_pick_checked(attrs, is_struct, srcs).unwrap()
}


/// A pick takes exactly the fields or variants whose names are among its keys, in
/// their order in the type it picks from, each under its name in the pick.
pub proof fn law_pick_entries(k: KeyedAttributeView, srcs: Seq<PickSource>)
    ensures
        forall|i: int| 0 <= i < pick_entries(k, srcs).len() ==> {
            let e = #[trigger] pick_entries(k, srcs)[i];
            &&& 0 <= e.index < srcs.len()
            &&& e.type_ident == srcs[e.index].ident@
            &&& k.keys.contains(e.type_ident)
            &&& e.pick_ident == pick_ident_of(k, srcs[e.index])
        },
        forall|i: int, j: int| 0 <= i < j < pick_entries(k, srcs).len()
            ==> #[trigger] pick_entries(k, srcs)[i].index < #[trigger] pick_entries(k, srcs)[j].index,
        forall|m: int| 0 <= m < srcs.len() && k.keys.contains(#[trigger] srcs[m].ident@)
            ==> exists|i: int| 0 <= i < pick_entries(k, srcs).len() && #[trigger] pick_entries(k, srcs)[i].index == m,
    decreases srcs.len(),
{
    if srcs.len() > 0 {
        let p = srcs.drop_last();
        law_pick_entries(k, p);
        let prev = pick_entries(k, p);
        let es = pick_entries(k, srcs);
        let last = srcs.len() - 1;
        assert forall|i: int| 0 <= i < prev.len() implies prev[i].index < last && srcs[prev[i].index] == p[prev[i].index] by {
        }
        assert forall|m: int| 0 <= m < srcs.len() && k.keys.contains(#[trigger] srcs[m].ident@)
            implies exists|i: int| 0 <= i < es.len() && #[trigger] es[i].index == m by {
            if m < last {
                assert(p[m] == srcs[m]);
                let i = choose|i: int| 0 <= i < prev.len() && #[trigger] prev[i].index == m;
                assert(es[i] == prev[i]);
            } else {
                assert(es[es.len() - 1].index == m);
            }
        }
    }
}

/// The picker of the first field named `f`, for a scan over field positions.
pub open spec fn field_named(names: Seq<Option<String>>, f: Seq<char>) -> spec_fn(int) -> Option<int> {
    |j: int| if 0 <= j < names.len() && (names[j] matches Some(n) && n@ == f) { Some(j) } else { None }
}

/// The positions of the fields.
pub open spec fn field_positions(n: nat) -> Seq<int> {
    Seq::new(n, |j: int| j)
}

/// The position of the first field named `f`.
pub open spec fn find_field(names: Seq<Option<String>>, f: Seq<char>) -> Option<int> {
    first_some(field_positions(names.len()), field_named(names, f))
}

/// What reading the derives `A, B, ..` of a `derive(..)` group from `pos` gives;
/// `None` where a derive is not an identifier or a separator is not `,` (a panic).
pub open spec fn helper_derives(g: Seq<Token>, pos: int) -> Option<Seq<Seq<char>>>
    decreases g.len() - pos,
{
    if !(0 <= pos < g.len() && g[pos] is Ident) {
        None
    } else {
        let d = g[pos]->Ident_0@;
        if pos + 1 >= g.len() {
            Some(seq![d])
        } else if g[pos + 1] == Token::Punct(',') {
            match helper_derives(g, pos + 2) {
                Some(ds) => Some(seq![d] + ds),
                None => None,
            }
        } else {
            None
        }
    }
}

/// A field that a helper pick takes, seen through its name.
pub struct PickedFieldView {
    pub name: Seq<char>,
    pub index: int,
}

/// What reading the fields `a | b | ..` of a helper pick from `pos` gives, with
/// the derives of a closing `, derive(..)`; `None` where the tokens are malformed
/// or a field is not found (a panic).
pub open spec fn helper_pick_fields(toks: Seq<Token>, pos: int, names: Seq<Option<String>>) -> Option<(Seq<PickedFieldView>, Seq<Seq<char>>)>
    decreases toks.len() - pos,
{
    if !(0 <= pos < toks.len() && toks[pos] is Ident) {
        None
    } else {
        let f = toks[pos]->Ident_0@;
        match find_field(names, f) {
            None => None,
            Some(j) => {
                let e = PickedFieldView { name: f, index: j };
                if pos + 1 < toks.len() && toks[pos + 1] == Token::Punct(',') {
                    if pos + 3 < toks.len() && is_ident_named(toks[pos + 2], "derive"@) {
                        match toks[pos + 3] {
                            Token::Group(Delimiter::Parenthesis, g) => match helper_derives(g@, 0) {
                                Some(ds) => Some((seq![e], ds)),
                                None => None,
                            },
                            _ => None,
                        }
                    } else {
                        None
                    }
                } else if pos + 1 >= toks.len() {
                    Some((seq![e], seq![]))
                } else if toks[pos + 1] == Token::Punct('|') {
                    match helper_pick_fields(toks, pos + 2, names) {
                        Some((es, ds)) => Some((seq![e] + es, ds)),
                        None => None,
                    }
                } else {
                    None
                }
            },
        }
    }
}

/// A helper pick seen through its names.
pub struct HelperPickView {
    pub ident: Seq<char>,
    pub fields: Seq<PickedFieldView>,
    pub derives: Seq<Seq<char>>,
}

/// The derives of a helper pick: the given ones, or `PartialEq, Clone, Debug`.
pub open spec fn effective_derives(ds: Seq<Seq<char>>) -> Seq<Seq<char>> {
    if ds.len() == 0 {
        seq!["PartialEq"@, "Clone"@, "Debug"@]
    } else {
        ds
    }
}

/// What reading `Name => a | b, derive(..)` from `toks` gives; `None` where the
/// tokens are malformed or a field is not found (a panic).
pub open spec fn helper_pick_attr(toks: Seq<Token>, names: Seq<Option<String>>) -> Option<HelperPickView> {
    if toks.len() >= 3 && toks[0] is Ident && toks[1] == Token::Punct('=') && toks[2] == Token::Punct('>') {
        match helper_pick_fields(toks, 3, names) {
            Some((es, ds)) => Some(HelperPickView { ident: toks[0]->Ident_0@, fields: es, derives: effective_derives(ds) }),
            None => None,
        }
    } else {
        None
    }
}

/// What the helper picks among `attrs` give: one for each attribute whose path
/// starts with `pick`, in order; `None` where one is malformed (a panic).
pub open spec fn helper_picks_of(attrs: Seq<Attribute>, names: Seq<Option<String>>) -> Option<Seq<HelperPickView>>
    decreases attrs.len(),
{
    if attrs.len() == 0 {
        Some(seq![])
    } else {
        let rest = helper_picks_of(attrs.drop_first(), names);
        match list_tokens_prefixed(attrs[0], "pick"@) {
            None => rest,
            Some(toks) => match (helper_pick_attr(toks, names), rest) {
                (Some(p), Some(ps)) => Some(seq![p] + ps),
                _ => None,
            },
        }
    }
}

/// A field that a helper pick takes.
#[derive(Debug)]
pub struct PickedField {
    /// The field's name.
    pub name: String,
    /// The field's position in the struct.
    pub index: usize,
}

/// A pick that a `#[pick(Name => a | b, derive(..))]` attribute gives.
#[derive(Debug)]
pub struct HelperPickPlan {
    /// The name of the pick type.
    pub ident: String,
    /// Its fields, in the order the attribute names them.
    pub fields: Vec<PickedField>,
    /// Its derives.
    pub derives: Vec<String>,
}

/// The views of picked fields.
pub open spec fn picked_views(s: Seq<PickedField>) -> Seq<PickedFieldView> {
    s.map_values(|f: PickedField| PickedFieldView { name: f.name@, index: f.index as int })
}

/// A helper pick seen through its names.
pub open spec fn helper_pick_view(p: HelperPickPlan) -> HelperPickView {
    HelperPickView { ident: p.ident@, fields: picked_views(p.fields@), derives: string_views(p.derives@) }
}

/// The views of helper picks.
pub open spec fn helper_pick_views(s: Seq<HelperPickPlan>) -> Seq<HelperPickView> {
    s.map_values(|p: HelperPickPlan| helper_pick_view(p))
}

fn find_field_exec(names: &Vec<Option<String>>, f: &str) -> (r: Option<usize>)
    ensures
        r is None ==> find_field(names@, f@) is None,
        r matches Some(i) ==> find_field(names@, f@) == Some(i as int) && i < names@.len(),
{
    let ghost idx = field_positions(names@.len());
    let ghost p = field_named(names@, f@);
    proof {
        lemma_first_some_ends(idx, p);
    }
    let mut i: usize = 0;
    while i < names.len()
        invariant
            0 <= i <= names@.len(),
            idx == field_positions(names@.len()),
            p == field_named(names@, f@),
            first_some(idx, p) == first_some(idx.skip(i as int), p),
        decreases names@.len() - i,
    {
        proof {
            lemma_first_some_step(idx, p, i as int);
            assert(idx[i as int] == i);
        }
        let hit = match &names[i] {
            Some(n) => str_eq(n.as_str(), f),
            None => false,
        };
        if hit {
            return Some(i);
        }
        i = i + 1;
    }
    proof {
        lemma_first_some_ends(idx, p);
    }
    None
}

fn read_helper_derives(g: &Vec<Token>, pos: usize, out: &mut Vec<String>) -> (ok: bool)
    requires
        pos <= g@.len(),
    ensures
        helper_derives(g@, pos as int) is None ==> !ok,
        helper_derives(g@, pos as int) matches Some(ds) ==> (ok && string_views(final(out)@) == string_views(old(out)@) + ds),
    decreases g@.len() - pos,
{
    if pos >= g.len() {
        return false;
    }
    let d = match &g[pos] {
        Token::Ident(s) => String::from_str(s.as_str()),
        _ => {
            return false;
        },
    };
    let ghost before = out@;
    out.push(d);
    if g.len() - pos < 2 {
        assert(string_views(out@) =~= string_views(before) + seq![d@]);
        return true;
    }
    let comma = match &g[pos + 1] {
        Token::Punct(c) => *c == ',',
        _ => false,
    };
    if !comma {
        return false;
    }
    let ok = read_helper_derives(g, pos + 2, out);
    proof {
        if let Some(ds) = helper_derives(g@, pos + 2) {
            assert(string_views(out@) =~= string_views(before) + (seq![d@] + ds));
        }
    }
    ok
}

fn read_helper_fields(
    toks: &Vec<Token>,
    pos: usize,
    names: &Vec<Option<String>>,
    fields: &mut Vec<PickedField>,
    derives: &mut Vec<String>,
) -> (ok: bool)
    requires
        pos <= toks@.len(),
        old(derives)@.len() == 0,
    ensures
        helper_pick_fields(toks@, pos as int, names@) is None ==> !ok,
        helper_pick_fields(toks@, pos as int, names@) matches Some((es, ds)) ==> (ok
            && picked_views(final(fields)@) == picked_views(old(fields)@) + es
            && string_views(final(derives)@) == ds),
    decreases toks@.len() - pos,
{
    if pos >= toks.len() {
        return false;
    }
    let name = match &toks[pos] {
        Token::Ident(s) => s.as_str(),
        _ => {
            return false;
        },
    };
    let j = match find_field_exec(names, name) {
        Some(j) => j,
        None => {
            return false;
        },
    };
    let e = PickedField { name: String::from_str(name), index: j };
    let ghost ev = PickedFieldView { name: name@, index: j as int };
    proof {
        assert(find_field(names@, name@) == Some(j as int));
        assert(name@ == toks@[pos as int]->Ident_0@);
    }
    let ghost before = fields@;
    fields.push(e);
    proof {
        assert(picked_views(fields@) =~= picked_views(before).push(ev));
        assert(picked_views(before).push(ev) =~= picked_views(before) + seq![ev]);
    }
    if toks.len() - pos < 2 {
        assert(string_views(derives@) =~= Seq::<Seq<char>>::empty());
        return true;
    }
    let (comma, bar) = match &toks[pos + 1] {
        Token::Punct(c) => (*c == ',', *c == '|'),
        _ => (false, false),
    };
    if comma {
        if toks.len() - pos < 4 {
            return false;
        }
        let is_derive = match &toks[pos + 2] {
            Token::Ident(s) => str_eq(s.as_str(), "derive"),
            _ => false,
        };
        if !is_derive {
            return false;
        }
        match &toks[pos + 3] {
            Token::Group(Delimiter::Parenthesis, g) => {
                let ok = read_helper_derives(g, 0, derives);
                proof {
                    if let Some(ds) = helper_derives(g@, 0) {
                        assert(Seq::<Seq<char>>::empty() + ds =~= ds);
                    }
                }
                ok
            },
            _ => false,
        }
    } else if bar {
        let ok = read_helper_fields(toks, pos + 2, names, fields, derives);
        proof {
            if let Some((es, ds)) = helper_pick_fields(toks@, pos + 2, names@) {
                assert(picked_views(before).push(ev) + es =~= picked_views(before) + (seq![ev] + es));
            }
        }
        ok
    } else {
        false
    }
}

fn read_helper_pick(toks: &Vec<Token>, names: &Vec<Option<String>>) -> (r: Option<HelperPickPlan>)
    ensures
        helper_pick_attr(toks@, names@) is None ==> r is None,
        helper_pick_attr(toks@, names@) matches Some(v) ==> (r matches Some(p) && helper_pick_view(p) == v),
{
    if toks.len() < 3 {
        return None;
    }
    let ident = match &toks[0] {
        Token::Ident(s) => String::from_str(s.as_str()),
        _ => {
            return None;
        },
    };
    let arrow = match (&toks[1], &toks[2]) {
        (Token::Punct(a), Token::Punct(b)) => *a == '=' && *b == '>',
        _ => false,
    };
    if !arrow {
        return None;
    }
    let mut fields: Vec<PickedField> = Vec::new();
    let mut derives: Vec<String> = Vec::new();
    if !read_helper_fields(toks, 3, names, &mut fields, &mut derives) {
        return None;
    }
    proof {
        let es = helper_pick_fields(toks@, 3, names@)->Some_0.0;
        assert(picked_views(Seq::<PickedField>::empty()) + es =~= es);
    }
    let derives = if derives.len() == 0 {
        let mut d: Vec<String> = Vec::new();
        d.push(String::from_str("PartialEq"));
        d.push(String::from_str("Clone"));
        d.push(String::from_str("Debug"));
        assert(string_views(d@) =~= seq!["PartialEq"@, "Clone"@, "Debug"@]);
        d
    } else {
        derives
    };
    Some(HelperPickPlan { ident, fields, derives })
}

/// Plans the picks that `#[pick(Name => a | b, derive(..))]` attributes give for a
/// struct whose fields have these names; `None` where the derive panics on a
/// malformed attribute or a field that is not found.
pub fn plan_helper_picks_checked(attrs: &Vec<Attribute>, names: &Vec<Option<String>>) -> (r: Option<Vec<HelperPickPlan>>)
    ensures
        helper_picks_of(attrs@, names@) is None ==> r is None,
        helper_picks_of(attrs@, names@) matches Some(ps) ==> (r matches Some(v) && helper_pick_views(v@) == ps),
{
    let mut out: Vec<HelperPickPlan> = Vec::new();
    let mut i: usize = 0;
    proof {
        assert(attrs@.skip(0) =~= attrs@);
        if let Some(ps) = helper_picks_of(attrs@, names@) {
            assert(helper_pick_views(out@) + ps =~= ps);
        }
    }
    while i < attrs.len()
        invariant
            0 <= i <= attrs@.len(),
            helper_picks_of(attrs@, names@) == match helper_picks_of(attrs@.skip(i as int), names@) {
                Some(ps) => Some(helper_pick_views(out@) + ps),
                None => None,
            },
        decreases attrs@.len() - i,
    {
        let ghost rest = attrs@.skip(i as int);
        proof {
            assert(rest.drop_first() =~= attrs@.skip(i + 1));
            assert(rest[0] == attrs@[i as int]);
        }
        match list_tokens_with_prefix(&attrs[i], "pick") {
            None => {},
            Some(toks) => match read_helper_pick(toks, names) {
                None => {
                    return None;
                },
                Some(p) => {
                    let ghost before = out@;
                    let ghost pv = helper_pick_view(p);
                    out.push(p);
                    proof {
                        assert(helper_pick_views(out@) =~= helper_pick_views(before).push(pv));
                        if let Some(ps) = helper_picks_of(attrs@.skip(i + 1), names@) {
                            assert(helper_pick_views(before) + (seq![pv] + ps) =~= helper_pick_views(out@) + ps);
                        }
                    }
                },
            },
        }
        i = i + 1;
    }
    proof {
        assert(attrs@.skip(i as int) =~= Seq::<Attribute>::empty());
        assert(helper_pick_views(out@) + Seq::<HelperPickView>::empty() =~= helper_pick_views(out@));
    }
    Some(out)
}

/// Plans the picks that `#[pick(Name => a | b, derive(..))]` attributes give for a
/// struct whose fields have these names: for each, its name, the fields it names
/// (each with the position of the first field of that name), and its derives
/// (`PartialEq, Clone, Debug` where none are given).
pub fn plan_helper_picks(attrs: &Vec<Attribute>, names: &Vec<Option<String>>) -> (r: Vec<HelperPickPlan>)
    requires
        helper_picks_of(attrs@, names@) is Some,
    ensures
        helper_pick_views(r@) == helper_picks_of(attrs@, names@)->Some_0,
{
    plan_helper_picks_checked(attrs, names).unwrap()
}

/// The entry at `j` of `names` is a field named `f`.
pub open spec fn names_field(names: Seq<Option<String>>, j: int, f: Seq<char>) -> bool {
    0 <= j < names.len() && match names[j] {
        Some(n) => n@ == f,
        None => false,
    }
}

/// The position found for a field name is that of a field with that name.
proof fn lemma_find_field(names: Seq<Option<String>>, f: Seq<char>)
    ensures
        find_field(names, f) matches Some(j) ==> names_field(names, j, f),
{
    let s = field_positions(names.len());
    let g = field_named(names, f);
    law_first_some_is_first(s, g);
    if let Some(j) = find_field(names, f) {
        let i = choose|i: int| 0 <= i < s.len() && g(s[i]) == Some(j)
            && forall|k: int| 0 <= k < i ==> #[trigger] g(s[k]) is None;
        assert(s[i] == i);
    }
}

/// A helper pick takes every field listed between `=>` and the end or the
/// `, derive(..)` clause, in the order written, each at the position of a field of
/// that name; the derives are empty when the list runs to the end.
pub proof fn law_helper_pick_fields_listed(toks: Seq<Token>, pos: int, names: Seq<Option<String>>)
    requires
        0 <= pos,
        helper_pick_fields(toks, pos, names) is Some,
    ensures
        ({
            let (es, ds) = helper_pick_fields(toks, pos, names)->Some_0;
            let after = pos + 2 * es.len() - 1;
            &&& es.len() >= 1
            &&& forall|i: int| 0 <= i < es.len() ==> ident_at(toks, pos + 2 * i) == Some(#[trigger] es[i].name)
                && names_field(names, es[i].index, es[i].name)
            &&& forall|i: int| 0 <= i < es.len() - 1 ==> #[trigger] toks[pos + 2 * i + 1] == Token::Punct('|')
            &&& after >= toks.len() || toks[after] == Token::Punct(',')
            &&& after >= toks.len() ==> ds.len() == 0
        }),
    decreases toks.len() - pos,
{
    let f = toks[pos]->Ident_0@;
    lemma_find_field(names, f);
    if pos + 1 < toks.len() && toks[pos + 1] == Token::Punct('|') {
        law_helper_pick_fields_listed(toks, pos + 2, names);
        let (es, ds) = helper_pick_fields(toks, pos, names)->Some_0;
        let (fs, _) = helper_pick_fields(toks, pos + 2, names)->Some_0;
        assert forall|i: int| 0 <= i < es.len() implies ident_at(toks, pos + 2 * i) == Some(#[trigger] es[i].name)
            && names_field(names, es[i].index, es[i].name) by {
            if i > 0 {
                assert(es[i] == fs[i - 1]);
                assert(ident_at(toks, (pos + 2) + 2 * (i - 1)) == Some(fs[i - 1].name));
            }
        }
        assert forall|i: int| 0 <= i < es.len() - 1 implies #[trigger] toks[pos + 2 * i + 1] == Token::Punct('|') by {
            if i > 0 {
                assert(toks[(pos + 2) + 2 * (i - 1) + 1] == Token::Punct('|'));
            }
        }
    }
}

/// No item is a `name` item.
pub open spec fn no_name_item(fs: Seq<FieldVariantAttributeView>) -> bool {
    forall|j: int| 0 <= j < fs.len() ==> !(#[trigger] fs[j] is Name)
}

/// The first `name` item gives `n`.
pub open spec fn first_name_item(fs: Seq<FieldVariantAttributeView>, n: Seq<char>) -> bool {
    exists|i: int| 0 <= i < fs.len() && fs[i] == FieldVariantAttributeView::Name(n)
        && forall|j: int| 0 <= j < i ==> !(#[trigger] fs[j] is Name)
}

/// No item is a `case` item.
pub open spec fn no_case_item(fs: Seq<FieldVariantAttributeView>) -> bool {
    forall|j: int| 0 <= j < fs.len() ==> !(#[trigger] fs[j] is Case)
}

/// The first `case` item gives `c`.
pub open spec fn first_case_item(fs: Seq<FieldVariantAttributeView>, c: CaseKind) -> bool {
    exists|i: int| 0 <= i < fs.len() && fs[i] == FieldVariantAttributeView::Case(c)
        && forall|j: int| 0 <= j < i ==> !(#[trigger] fs[j] is Case)
}

/// No container item is a `case_all` item.
pub open spec fn no_case_all_item(cs: Seq<ContainerAttributeView>) -> bool {
    forall|j: int| 0 <= j < cs.len() ==> !(#[trigger] cs[j] is CaseAll)
}

/// The first `case_all` item gives `c`.
pub open spec fn first_case_all_item(cs: Seq<ContainerAttributeView>, c: CaseKind) -> bool {
    exists|i: int| 0 <= i < cs.len() && cs[i] == ContainerAttributeView::CaseAll(c)
        && forall|j: int| 0 <= j < i ==> !(#[trigger] cs[j] is CaseAll)
}

pub(crate) proof fn lemma_field_name_scan(fs: Seq<FieldVariantAttributeView>)
    ensures
        no_name_item(fs) ==> first_some(fs, pick_field_name()) is None,
        forall|n: Seq<char>| #[trigger] first_name_item(fs, n) ==> first_some(fs, pick_field_name()) == Some(n),
{
    if no_name_item(fs) {
        lemma_first_some_none(fs, pick_field_name());
    }
    assert forall|n: Seq<char>| #[trigger] first_name_item(fs, n) implies first_some(fs, pick_field_name()) == Some(n) by {
        let i = choose|i: int| 0 <= i < fs.len() && fs[i] == FieldVariantAttributeView::Name(n)
            && forall|j: int| 0 <= j < i ==> !(#[trigger] fs[j] is Name);
        assert forall|j: int| 0 <= j < i implies #[trigger] pick_field_name()(fs[j]) is None by {
            assert(!(fs[j] is Name));
        }
        lemma_first_some_found(fs, pick_field_name(), i, n);
    }
}

pub(crate) proof fn lemma_field_case_scan(fs: Seq<FieldVariantAttributeView>)
    ensures
        no_case_item(fs) ==> first_some(fs, pick_field_case()) is None,
        forall|c: CaseKind| #[trigger] first_case_item(fs, c) ==> first_some(fs, pick_field_case()) == Some(c),
{
    if no_case_item(fs) {
        lemma_first_some_none(fs, pick_field_case());
    }
    assert forall|c: CaseKind| #[trigger] first_case_item(fs, c) implies first_some(fs, pick_field_case()) == Some(c) by {
        let i = choose|i: int| 0 <= i < fs.len() && fs[i] == FieldVariantAttributeView::Case(c)
            && forall|j: int| 0 <= j < i ==> !(#[trigger] fs[j] is Case);
        assert forall|j: int| 0 <= j < i implies #[trigger] pick_field_case()(fs[j]) is None by {
            assert(!(fs[j] is Case));
        }
        lemma_first_some_found(fs, pick_field_case(), i, c);
    }
}

pub(crate) proof fn lemma_case_all_scan(cs: Seq<ContainerAttributeView>)
    ensures
        no_case_all_item(cs) ==> first_some(cs, pick_case_all()) is None,
        forall|c: CaseKind| #[trigger] first_case_all_item(cs, c) ==> first_some(cs, pick_case_all()) == Some(c),
{
    if no_case_all_item(cs) {
        lemma_first_some_none(cs, pick_case_all());
    }
    assert forall|c: CaseKind| #[trigger] first_case_all_item(cs, c) implies first_some(cs, pick_case_all()) == Some(c) by {
        let i = choose|i: int| 0 <= i < cs.len() && cs[i] == ContainerAttributeView::CaseAll(c)
            && forall|j: int| 0 <= j < i ==> !(#[trigger] cs[j] is CaseAll);
        assert forall|j: int| 0 <= j < i implies #[trigger] pick_case_all()(cs[j]) is None by {
            assert(!(cs[j] is CaseAll));
        }
        lemma_first_some_found(cs, pick_case_all(), i, c);
    }
}

/// The name of a field or variant in a pick: the first `name` item of its own
/// attributes where there is one; else its name, converted to the pick's first
/// `case_all` where there is one, then to its own first `case` where there is one.
pub proof fn law_pick_entry_ident(k: KeyedAttributeView, srcs: Seq<PickSource>, i: int)
    requires
        0 <= i < pick_entries(k, srcs).len(),
    ensures
        ({
            let e = pick_entries(k, srcs)[i];
            let s = srcs[e.index];
            let fs = source_items(s);
            let cs = k.attributes;
            &&& 0 <= e.index < srcs.len()
            &&& forall|n: Seq<char>| #[trigger] first_name_item(fs, n) ==> e.pick_ident == n
            &&& (no_name_item(fs) && no_case_item(fs) && no_case_all_item(cs)) ==> e.pick_ident == s.ident@
            &&& forall|cc: CaseKind| (no_name_item(fs) && no_case_item(fs) && #[trigger] first_case_all_item(cs, cc))
                ==> e.pick_ident == case_converted(s.ident@, cc.spec_position())
            &&& forall|c: CaseKind| (no_name_item(fs) && #[trigger] first_case_item(fs, c) && no_case_all_item(cs))
                ==> e.pick_ident == case_converted(s.ident@, c.spec_position())
            &&& forall|c: CaseKind, cc: CaseKind| (no_name_item(fs) && #[trigger] first_case_item(fs, c)
                && #[trigger] first_case_all_item(cs, cc)) ==> e.pick_ident == case_converted(
                    case_converted(s.ident@, cc.spec_position()),
                    c.spec_position(),
                )
        }),
{
    law_pick_entries(k, srcs);
    let e = pick_entries(k, srcs)[i];
    let s = srcs[e.index];
    let fs = source_items(s);
    lemma_field_name_scan(fs);
    lemma_field_case_scan(fs);
    lemma_case_all_scan(k.attributes);
    assert(e.pick_ident == pick_ident_of(k, s));
}

/// The derives of a `derive(..)` group read from `pos` are its identifiers at
/// every second position, in order, separated by `,`, up to the group's end.
pub proof fn law_helper_derives(g: Seq<Token>, pos: int)
    requires
        0 <= pos,
        helper_derives(g, pos) is Some,
    ensures
        ({
            let ds = helper_derives(g, pos)->Some_0;
            &&& ds.len() >= 1
            &&& pos + 2 * ds.len() - 1 == g.len()
            &&& forall|i: int| 0 <= i < ds.len() ==> ident_at(g, pos + 2 * i) == Some(#[trigger] ds[i])
            &&& forall|i: int| 0 <= i < ds.len() - 1 ==> #[trigger] g[pos + 2 * i + 1] == Token::Punct(',')
        }),
    decreases g.len() - pos,
{
    if pos + 1 < g.len() {
        law_helper_derives(g, pos + 2);
        let ds = helper_derives(g, pos)->Some_0;
        let es = helper_derives(g, pos + 2)->Some_0;
        assert forall|i: int| 0 <= i < ds.len() implies ident_at(g, pos + 2 * i) == Some(#[trigger] ds[i]) by {
            if i > 0 {
                assert(ds[i] == es[i - 1]);
                assert(ident_at(g, (pos + 2) + 2 * (i - 1)) == Some(es[i - 1]));
            }
        }
        assert forall|i: int| 0 <= i < ds.len() - 1 implies #[trigger] g[pos + 2 * i + 1] == Token::Punct(',') by {
            if i > 0 {
                assert(g[(pos + 2) + 2 * (i - 1) + 1] == Token::Punct(','));
            }
        }
    }
}

/// A helper pick without derives gets `PartialEq, Clone, Debug`; given derives are
/// kept as they are.
pub proof fn law_effective_derives(ds: Seq<Seq<char>>)
    ensures
        ds.len() == 0 ==> effective_derives(ds) == seq!["PartialEq"@, "Clone"@, "Debug"@],
        ds.len() > 0 ==> effective_derives(ds) == ds,
{
}

} // verus!
