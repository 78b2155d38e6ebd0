//! The macros `union!` and `string_union!`: enums made from a list of string
//! literals (one unit variant each) or of type names (one variant holding each).

use vstd::prelude::*;

use crate::case::{case_converted, convert_case, CaseKind};
use crate::text::{quoted, remove_char, remove_chars, str_eq, trim_quote_chars, trim_quotes, is_quoted};
use crate::tokens::{is_ident_named, Delimiter, Token};

verus! {

/// The name of the variant for a string literal with this source text: the text
/// without its quotes, in Pascal case, without spaces.
pub open spec fn variant_name(literal_text: Seq<char>) -> Seq<char> {
    remove_char(case_converted(trim_quotes(literal_text), CaseKind::Pascal.spec_position()), ' ')
}

/// The name of the variant for a string literal with this source text.
pub fn variant_ident(literal_text: &str) -> (r: String)
    ensures
        r@ == variant_name(literal_text@),
{
    let trimmed = trim_quote_chars(literal_text);
    let cased = convert_case(trimmed.as_str(), CaseKind::Pascal);
    remove_chars(cased.as_str(), ' ')
}

/// A string variant: the position of its literal among the tokens, and its name.
#[derive(Debug)]
pub struct StringVariant {
    pub position: usize,
    pub variant: String,
}

/// The kind of a union.
#[derive(Debug)]
pub enum UnionKind {
    /// All members are string literals: one unit variant for each.
    StaticStr(Vec<StringVariant>),
    /// All members are type names: one variant holding each, named by it.
    Types(Vec<String>),
}

/// One union that `union!` defines.
#[derive(Debug)]
pub struct UnionPlan {
    /// The positions of the attribute groups `[..]` written before it.
    pub attr_positions: Vec<usize>,
    /// The name of the union.
    pub ident: String,
    /// Its variants.
    pub kind: UnionKind,
}

/// A member of a union seen through its text.
pub enum MemberView {
    Str(int, Seq<char>),
    Type(Seq<char>),
}

/// A union seen through its texts.
pub enum UnionKindView {
    StaticStr(Seq<(int, Seq<char>)>),
    Types(Seq<Seq<char>>),
}

pub struct UnionView {
    pub attr_positions: Seq<int>,
    pub ident: Seq<char>,
    pub kind: UnionKindView,
}

/// What reading the attributes `# [..]` from position `pos` gives: the positions of
/// their groups and where they end; `None` where a `#` is not followed by a bracket
/// group (a panic).
pub open spec fn union_attrs(toks: Seq<Token>, pos: int) -> Option<(Seq<int>, int)>
    decreases toks.len() - pos,
{
    if 0 <= pos < toks.len() && toks[pos] == Token::Punct('#') {
        if pos + 1 < toks.len() && toks[pos + 1] matches Token::Group(Delimiter::Bracket, _) {
            match union_attrs(toks, pos + 2) {
                Some((ps, e)) => Some((seq![pos + 1] + ps, e)),
                None => None,
            }
        } else {
            None
        }
    } else {
        Some((seq![], pos))
    }
}

/// The member of a union at `pos`: a string literal or a type name.
pub open spec fn union_member(toks: Seq<Token>, pos: int) -> Option<MemberView> {
    if 0 <= pos < toks.len() {
        match toks[pos] {
            Token::Literal(l) => if is_quoted(l.text@) {
                Some(MemberView::Str(pos, l.text@))
            } else {
                None
            },
            Token::Ident(s) => Some(MemberView::Type(s@)),
            _ => None,
        }
    } else {
        None
    }
}

/// What reading `m1 | m2 | .. ;` from `pos` gives: the members and the position
/// after the `;`; `None` where the tokens are malformed (a panic).
pub open spec fn union_members(toks: Seq<Token>, pos: int) -> Option<(Seq<MemberView>, int)>
    decreases toks.len() - pos,
{
    match union_member(toks, pos) {
        None => None,
        Some(m) => if pos + 1 < toks.len() && toks[pos + 1] == Token::Punct('|') {
            match union_members(toks, pos + 2) {
                Some((ms, e)) => Some((seq![m] + ms, e)),
                None => None,
            }
        } else if pos + 1 < toks.len() && toks[pos + 1] == Token::Punct(';') {
            Some((seq![m], pos + 2))
        } else {
            None
        },
    }
}

/// The members are all string literals.
pub open spec fn all_strings(ms: Seq<MemberView>) -> bool {
    forall|i: int| 0 <= i < ms.len() ==> ms[i] is Str
}

/// The members are all type names.
pub open spec fn all_types(ms: Seq<MemberView>) -> bool {
    forall|i: int| 0 <= i < ms.len() ==> ms[i] is Type
}

/// The variants of a union of strings.
pub open spec fn string_variants(ms: Seq<MemberView>) -> Seq<(int, Seq<char>)> {
    ms.map_values(|m: MemberView| match m {
        MemberView::Str(p, t) => (p, variant_name(t)),
        MemberView::Type(_) => (0, seq![]),
    })
}

/// The variants of a union of types.
pub open spec fn type_variants(ms: Seq<MemberView>) -> Seq<Seq<char>> {
    ms.map_values(|m: MemberView| match m {
        MemberView::Type(t) => t,
        MemberView::Str(_, _) => seq![],
    })
}

/// What reading one union `#[..] type Name = m1 | m2 ;` from `pos` gives, and where
/// it ends; `None` where it is malformed or mixes strings and types (a panic).
pub open spec fn union_item(toks: Seq<Token>, pos: int) -> Option<(UnionView, int)> {
    match union_attrs(toks, pos) {
        None => None,
        Some((ps, p)) => {
            if p + 3 <= toks.len() && is_ident_named(toks[p], "type"@) && toks[p + 1] is Ident
                && toks[p + 2] == Token::Punct('=') {
                match union_members(toks, p + 3) {
                    None => None,
                    Some((ms, e)) => {
                        let ident = toks[p + 1]->Ident_0@;
                        if all_strings(ms) {
                            Some((UnionView { attr_positions: ps, ident, kind: UnionKindView::StaticStr(string_variants(ms)) }, e))
                        } else if all_types(ms) {
                            Some((UnionView { attr_positions: ps, ident, kind: UnionKindView::Types(type_variants(ms)) }, e))
                        } else {
                            None
                        }
                    },
                }
            } else {
                None
            }
        },
    }
}

/// What reading unions from `pos` to the end gives; `None` where one is malformed.
pub open spec fn union_items(toks: Seq<Token>, pos: int) -> Option<Seq<UnionView>>
    decreases toks.len() - pos,
{
    if pos < 0 || pos >= toks.len() {
        Some(seq![])
    } else {
        match union_item(toks, pos) {
            Some((u, e)) => if pos < e <= toks.len() {
                match union_items(toks, e) {
                    Some(us) => Some(seq![u] + us),
                    None => None,
                }
            } else {
                None
            },
            None => None,
        }
    }
}


/// Positions seen as integers.
pub open spec fn positions(s: Seq<usize>) -> Seq<int> {
    s.map_values(|x: usize| x as int)
}

/// A union seen through its texts.
pub open spec fn union_view(u: UnionPlan) -> UnionView {
    UnionView {
        attr_positions: positions(u.attr_positions@),
        ident: u.ident@,
        kind: match u.kind {
            UnionKind::StaticStr(vs) => UnionKindView::StaticStr(string_variant_views(vs@)),
            UnionKind::Types(ts) => UnionKindView::Types(crate::search::string_views(ts@)),
        },
    }
}

/// String variants seen as positions and names.
pub open spec fn string_variant_views(vs: Seq<StringVariant>) -> Seq<(int, Seq<char>)> {
    vs.map_values(|v: StringVariant| (v.position as int, v.variant@))
}

/// The views of a sequence of unions.
pub open spec fn union_views(s: Seq<UnionPlan>) -> Seq<UnionView> {
    s.map_values(|u: UnionPlan| union_view(u))
}

enum Member {
    Str(usize, String),
    Type(String),
}

spec fn member_view(m: Member) -> MemberView {
    match m {
        Member::Str(p, t) => MemberView::Str(p as int, t@),
        Member::Type(t) => MemberView::Type(t@),
    }
}

spec fn member_views(s: Seq<Member>) -> Seq<MemberView> {
    s.map_values(|m: Member| member_view(m))
}

fn is_punct(toks: &Vec<Token>, pos: usize, c: char) -> (r: bool)
    ensures
        r == (pos < toks@.len() && toks@[pos as int] == Token::Punct(c)),
{
    pos < toks.len() && match &toks[pos] {
        Token::Punct(p) => *p == c,
        _ => false,
    }
}

fn read_union_attrs(toks: &Vec<Token>, pos: usize, out: &mut Vec<usize>) -> (r: Option<usize>)
    requires
        pos <= toks@.len(),
    ensures
        union_attrs(toks@, pos as int) is None ==> r is None,
        union_attrs(toks@, pos as int) matches Some((ps, e)) ==> (r == Some(e as usize) && pos <= e <= toks@.len()
            && positions(final(out)@) == positions(old(out)@) + ps),
    decreases toks@.len() - pos,
{
    if !is_punct(toks, pos, '#') {
        assert(positions(out@) + Seq::<int>::empty() =~= positions(out@));
        return Some(pos);
    }
    if toks.len() - pos < 2 {
        return None;
    }
    let is_bracket = match &toks[pos + 1] {
        Token::Group(Delimiter::Bracket, _) => true,
        _ => false,
    };
    if !is_bracket {
        return None;
    }
    let ghost before = out@;
    out.push(pos + 1);
    let r = read_union_attrs(toks, pos + 2, out);
    proof {
        if let Some((ps, e)) = union_attrs(toks@, pos + 2) {
            assert(positions(out@) =~= positions(before) + (seq![pos + 1] + ps));
        }
    }
    r
}

fn read_member(toks: &Vec<Token>, pos: usize) -> (r: Option<Member>)
    ensures
        union_member(toks@, pos as int) is None ==> r is None,
        union_member(toks@, pos as int) matches Some(m) ==> (r matches Some(x) && member_view(x) == m),
{
    if pos >= toks.len() {
        return None;
    }
    match &toks[pos] {
        Token::Literal(l) => if quoted(l.text.as_str()) {
            Some(Member::Str(pos, String::from_str(l.text.as_str())))
        } else {
            None
        },
        Token::Ident(s) => Some(Member::Type(String::from_str(s.as_str()))),
        _ => None,
    }
}

fn read_members(toks: &Vec<Token>, pos: usize, out: &mut Vec<Member>) -> (r: Option<usize>)
    requires
        pos <= toks@.len(),
    ensures
        union_members(toks@, pos as int) is None ==> r is None,
        union_members(toks@, pos as int) matches Some((ms, e)) ==> (r == Some(e as usize) && pos <= e <= toks@.len()
            && member_views(final(out)@) == member_views(old(out)@) + ms),
    decreases toks@.len() - pos,
{
    let m = match read_member(toks, pos) {
        Some(m) => m,
        None => {
            return None;
        },
    };
    assert(pos < toks@.len());
    let ghost mv = member_view(m);
    let ghost before = out@;
    out.push(m);
    proof {
        assert(member_views(out@) =~= member_views(before).push(mv));
    }
    if toks.len() - pos < 2 {
        return None;
    }
    if is_punct(toks, pos + 1, '|') {
        let r = read_members(toks, pos + 2, out);
        proof {
            if let Some((ms, e)) = union_members(toks@, pos + 2) {
                assert(member_views(before).push(mv) + ms =~= member_views(before) + (seq![mv] + ms));
            }
        }
        r
    } else if is_punct(toks, pos + 1, ';') {
        Some(pos + 2)
    } else {
        None
    }
}

fn read_union(toks: &Vec<Token>, pos: usize) -> (r: Option<(UnionPlan, usize)>)
    requires
        pos <= toks@.len(),
    ensures
        union_item(toks@, pos as int) is None ==> r is None,
        union_item(toks@, pos as int) matches Some((u, e)) ==> (r matches Some((x, e2)) && union_view(x) == u
            && e2 == e && pos <= e <= toks@.len()),
{
    let mut attr_positions: Vec<usize> = Vec::new();
    let p = match read_union_attrs(toks, pos, &mut attr_positions) {
        Some(p) => p,
        None => {
            return None;
        },
    };
    proof {
        assert(positions(Seq::<usize>::empty()) + union_attrs(toks@, pos as int)->Some_0.0
            =~= union_attrs(toks@, pos as int)->Some_0.0);
    }
    if p >= toks.len() || toks.len() - p < 3 {
        return None;
    }
    let is_type = match &toks[p] {
        Token::Ident(s) => str_eq(s.as_str(), "type"),
        _ => false,
    };
    if !is_type {
        return None;
    }
    let ident = match &toks[p + 1] {
        Token::Ident(s) => String::from_str(s.as_str()),
        _ => {
            return None;
        },
    };
    if !is_punct(toks, p + 2, '=') {
        return None;
    }
    let mut members: Vec<Member> = Vec::new();
    let e = match read_members(toks, p + 3, &mut members) {
        Some(e) => e,
        None => {
            return None;
        },
    };
    let ghost ms = union_members(toks@, p + 3)->Some_0.0;
    proof {
        assert(member_views(Seq::<Member>::empty()) + ms =~= ms);
        assert(member_views(members@) == ms);
    }
    let mut n_str: usize = 0;
    let mut k: usize = 0;
    while k < members.len()
        invariant
            0 <= k <= members@.len(),
            n_str <= k,
            member_views(members@) == ms,
            (n_str == 0) == (forall|j: int| 0 <= j < k ==> ms[j] is Type),
            (n_str == k) == (forall|j: int| 0 <= j < k ==> ms[j] is Str),
        decreases members@.len() - k,
    {
        if let Member::Str(_, _) = &members[k] {
            n_str = n_str + 1;
            assert(ms[k as int] is Str);
        } else {
            assert(ms[k as int] is Type);
        }
        k = k + 1;
    }
    let kind = if n_str == members.len() {
        let mut vs: Vec<StringVariant> = Vec::new();
        let mut k: usize = 0;
        while k < members.len()
            invariant
                0 <= k <= members@.len(),
                member_views(members@) == ms,
                all_strings(ms),
                string_variant_views(vs@) =~= string_variants(ms.take(k as int)),
            decreases members@.len() - k,
        {
            if let Member::Str(p, t) = &members[k] {
                let v = StringVariant { position: *p, variant: variant_ident(t.as_str()) };
                let ghost before = vs@;
                vs.push(v);
                assert(string_variant_views(vs@) =~= string_variant_views(before).push((v.position as int, v.variant@)));
                assert(ms.take(k + 1) =~= ms.take(k as int).push(ms[k as int]));
            } else {
                assert(ms[k as int] is Str);
            }
            k = k + 1;
        }
        assert(ms.take(k as int) =~= ms);
        UnionKind::StaticStr(vs)
    } else if n_str == 0 {
        let mut ts: Vec<String> = Vec::new();
        let mut k: usize = 0;
        while k < members.len()
            invariant
                0 <= k <= members@.len(),
                member_views(members@) == ms,
                all_types(ms),
                crate::search::string_views(ts@) =~= type_variants(ms.take(k as int)),
            decreases members@.len() - k,
        {
            if let Member::Type(t) = &members[k] {
                let ghost before = ts@;
                ts.push(String::from_str(t.as_str()));
                assert(crate::search::string_views(ts@) =~= crate::search::string_views(before).push(t@));
                assert(ms.take(k + 1) =~= ms.take(k as int).push(ms[k as int]));
            } else {
                assert(ms[k as int] is Type);
            }
            k = k + 1;
        }
        assert(ms.take(k as int) =~= ms);
        UnionKind::Types(ts)
    } else {
        proof {
            assert(!all_strings(ms));
            assert(!all_types(ms));
        }
        return None;
    };
    Some((UnionPlan { attr_positions, ident, kind }, e))
}

/// Plans the unions that the tokens of `union!` define; `None` where the macro
/// panics: on malformed tokens, or on a union that mixes strings and types.
pub fn plan_unions_checked(toks: &Vec<Token>) -> (r: Option<Vec<UnionPlan>>)
    ensures
        union_items(toks@, 0) is None ==> r is None,
        union_items(toks@, 0) matches Some(us) ==> (r matches Some(v) && union_views(v@) == us),
{
    let mut out: Vec<UnionPlan> = Vec::new();
    let mut pos: usize = 0;
    proof {
        if let Some(us) = union_items(toks@, 0) {
            assert(union_views(out@) + us =~= us);
        }
    }
    while pos < toks.len()
        invariant
            0 <= pos <= toks@.len(),
            union_items(toks@, 0) == match union_items(toks@, pos as int) {
                Some(us) => Some(union_views(out@) + us),
                None => None,
            },
        decreases toks@.len() - pos,
    {
        match read_union(toks, pos) {
            None => {
                return None;
            },
            Some((u, e)) => {
                if e <= pos {
                    return None;
                }
                let ghost uv = union_view(u);
                let ghost before = out@;
                out.push(u);
                proof {
                    assert(union_views(out@) =~= union_views(before).push(uv));
                    if let Some(us) = union_items(toks@, e as int) {
                        assert(union_views(before) + (seq![uv] + us) =~= union_views(out@) + us);
                    }
                }
                pos = e;
            },
        }
    }
    proof {
        assert(union_views(out@) + Seq::<UnionView>::empty() =~= union_views(out@));
    }
    Some(out)
}

/// Plans the unions that the tokens of `union!` define, in order: for each, the
/// positions of its attribute groups, its name, and its variants: for strings,
/// each literal's position and the variant's name; for types, the type names.
pub fn plan_unions(toks: &Vec<Token>) -> (r: Vec<UnionPlan>)
    requires
        union_items(toks@, 0) is Some,
    ensures
        union_views(r@) == union_items(toks@, 0)->Some_0,
{
    plan_unions_checked(toks).unwrap()
}


/// The enum that `string_union!` defines.
#[derive(Debug)]
pub struct StringUnionPlan {
    /// The name of the enum.
    pub ident: String,
    /// Its variants: each literal's position and the variant's name.
    pub variants: Vec<StringVariant>,
}

/// What reading `"a" | "b" | .. ;` from `pos` gives: each literal's position and
/// variant name; `None` where the tokens are malformed (a panic).  Any literal is
/// taken, and tokens after the `;` are not read.
pub open spec fn string_union_members(toks: Seq<Token>, pos: int) -> Option<Seq<(int, Seq<char>)>>
    decreases toks.len() - pos,
{
    if 0 <= pos < toks.len() && toks[pos] is Literal {
        let m = (pos, variant_name(toks[pos]->Literal_0.text@));
        if pos + 1 < toks.len() && toks[pos + 1] == Token::Punct('|') {
            match string_union_members(toks, pos + 2) {
                Some(ms) => Some(seq![m] + ms),
                None => None,
            }
        } else if pos + 1 < toks.len() && toks[pos + 1] == Token::Punct(';') {
            Some(seq![m])
        } else {
            None
        }
    } else {
        None
    }
}

/// What reading `type Name = "a" | "b" ;` gives: the name and the variants; `None`
/// where the tokens are malformed (a panic).
pub open spec fn string_union_of(toks: Seq<Token>) -> Option<(Seq<char>, Seq<(int, Seq<char>)>)> {
    if toks.len() >= 3 && is_ident_named(toks[0], "type"@) && toks[1] is Ident && toks[2] == Token::Punct('=') {
        match string_union_members(toks, 3) {
            Some(ms) => Some((toks[1]->Ident_0@, ms)),
            None => None,
        }
    } else {
        None
    }
}

fn read_string_members(toks: &Vec<Token>, pos: usize, out: &mut Vec<StringVariant>) -> (ok: bool)
    requires
        pos <= toks@.len(),
    ensures
        string_union_members(toks@, pos as int) is None ==> !ok,
        string_union_members(toks@, pos as int) matches Some(ms) ==> (ok
            && string_variant_views(final(out)@) == string_variant_views(old(out)@) + ms),
    decreases toks@.len() - pos,
{
    if pos >= toks.len() {
        return false;
    }
    let variant = match &toks[pos] {
        Token::Literal(l) => variant_ident(l.text.as_str()),
        _ => {
            return false;
        },
    };
    let v = StringVariant { position: pos, variant };
    let ghost vv = (pos as int, v.variant@);
    let ghost before = out@;
    out.push(v);
    proof {
        assert(string_variant_views(out@) =~= string_variant_views(before).push(vv));
    }
    if toks.len() - pos < 2 {
        return false;
    }
    if is_punct(toks, pos + 1, '|') {
        let ok = read_string_members(toks, pos + 2, out);
        proof {
            if let Some(ms) = string_union_members(toks@, pos + 2) {
                assert(string_variant_views(before).push(vv) + ms =~= string_variant_views(before) + (seq![vv] + ms));
            }
        }
        ok
    } else if is_punct(toks, pos + 1, ';') {
        proof {
            assert(string_variant_views(before).push(vv) =~= string_variant_views(before) + seq![vv]);
        }
        true
    } else {
        false
    }
}

/// Plans the enum that the tokens of `string_union!` define; `None` where the
/// macro panics on malformed tokens.
pub fn plan_string_union_checked(toks: &Vec<Token>) -> (r: Option<StringUnionPlan>)
    ensures
        string_union_of(toks@) is None ==> r is None,
        string_union_of(toks@) matches Some((name, ms)) ==> (r matches Some(p) && p.ident@ == name
            && string_variant_views(p.variants@) == ms),
{
    if toks.len() < 3 {
        return None;
    }
    let is_type = match &toks[0] {
        Token::Ident(s) => str_eq(s.as_str(), "type"),
        _ => false,
    };
    if !is_type {
        return None;
    }
    let ident = match &toks[1] {
        Token::Ident(s) => String::from_str(s.as_str()),
        _ => {
            return None;
        },
    };
    if !is_punct(toks, 2, '=') {
        return None;
    }
    let mut variants: Vec<StringVariant> = Vec::new();
    if !read_string_members(toks, 3, &mut variants) {
        return None;
    }
    proof {
        let ms = string_union_members(toks@, 3)->Some_0;
        assert(string_variant_views(Seq::<StringVariant>::empty()) + ms =~= ms);
    }
    Some(StringUnionPlan { ident, variants })
}

/// Plans the enum that the tokens of `string_union!` define: its name, and for each
/// literal its position and the variant's name.
pub fn plan_string_union(toks: &Vec<Token>) -> (r: StringUnionPlan)
    requires
        string_union_of(toks@) is Some,
    ensures
        r.ident@ == string_union_of(toks@)->Some_0.0,
        string_variant_views(r.variants@) == string_union_of(toks@)->Some_0.1,
{
    plan_string_union_checked(toks).unwrap()
}

/// The token at `i` is `#` and the one after it a bracket group `[..]`.
pub open spec fn is_attr_pair(toks: Seq<Token>, i: int) -> bool {
    &&& 0 <= i
    &&& i + 1 < toks.len()
    &&& toks[i] == Token::Punct('#')
    &&& toks[i + 1] is Group
    &&& toks[i + 1]->Group_0 == Delimiter::Bracket
}

/// The text of the identifier at `k`, where the token there is one.
pub open spec fn ident_at(toks: Seq<Token>, k: int) -> Option<Seq<char>> {
    if 0 <= k < toks.len() && toks[k] is Ident {
        Some(toks[k]->Ident_0@)
    } else {
        None
    }
}

/// The attributes read from `pos` are every `#` `[..]` pair in a row from there:
/// the position of each bracket group, in order, and the reading stops at the
/// first token after them that is not `#`.
pub proof fn law_union_attrs_pairs(toks: Seq<Token>, pos: int)
    requires
        0 <= pos <= toks.len(),
        union_attrs(toks, pos) is Some,
    ensures
        ({
            let (ps, e) = union_attrs(toks, pos)->Some_0;
            &&& e == pos + 2 * ps.len()
            &&& e <= toks.len()
            &&& forall|i: int| 0 <= i < ps.len() ==> #[trigger] ps[i] == pos + 2 * i + 1
                && is_attr_pair(toks, pos + 2 * i)
            &&& !(e < toks.len() && toks[e] == Token::Punct('#'))
        }),
    decreases toks.len() - pos,
{
    if pos < toks.len() && toks[pos] == Token::Punct('#') {
        law_union_attrs_pairs(toks, pos + 2);
        let (ps, e) = union_attrs(toks, pos)->Some_0;
        let (qs, _) = union_attrs(toks, pos + 2)->Some_0;
        assert forall|i: int| 0 <= i < ps.len() implies #[trigger] ps[i] == pos + 2 * i + 1
            && is_attr_pair(toks, pos + 2 * i) by {
            if i > 0 {
                assert(ps[i] == qs[i - 1]);
                assert(qs[i - 1] == (pos + 2) + 2 * (i - 1) + 1);
                assert(is_attr_pair(toks, (pos + 2) + 2 * (i - 1)));
            }
        }
    }
}

/// The members read from `pos` are the tokens at every second position from
/// there, separated by `|` and closed by `;`: a quoted literal is a string member
/// at its own position with its own text, an identifier a type member with its
/// name; the reading ends just after the `;`.
pub proof fn law_union_members_tokens(toks: Seq<Token>, pos: int)
    requires
        0 <= pos,
        union_members(toks, pos) is Some,
    ensures
        ({
            let (ms, e) = union_members(toks, pos)->Some_0;
            &&& ms.len() >= 1
            &&& e == pos + 2 * ms.len()
            &&& e <= toks.len()
            &&& toks[e - 1] == Token::Punct(';')
            &&& forall|i: int| 0 <= i < ms.len() - 1 ==> #[trigger] toks[pos + 2 * i + 1] == Token::Punct('|')
            &&& forall|i: int| 0 <= i < ms.len() ==> (#[trigger] ms[i] is Str ==> (
                toks[pos + 2 * i] is Literal && ms[i] == MemberView::Str(pos + 2 * i, toks[pos + 2 * i]->Literal_0.text@)))
            &&& forall|i: int| 0 <= i < ms.len() ==> (#[trigger] ms[i] is Type ==> (
                toks[pos + 2 * i] is Ident && ms[i] == MemberView::Type(toks[pos + 2 * i]->Ident_0@)))
        }),
    decreases toks.len() - pos,
{
    if pos + 1 < toks.len() && toks[pos + 1] == Token::Punct('|') {
        law_union_members_tokens(toks, pos + 2);
        let (ms, e) = union_members(toks, pos)->Some_0;
        let (ns, _) = union_members(toks, pos + 2)->Some_0;
        assert forall|i: int| 0 <= i < ms.len() - 1 implies #[trigger] toks[pos + 2 * i + 1] == Token::Punct('|') by {
            if i > 0 {
                assert(toks[(pos + 2) + 2 * (i - 1) + 1] == Token::Punct('|'));
            }
        }
        assert forall|i: int| 0 <= i < ms.len() implies (#[trigger] ms[i] is Str ==> (
            toks[pos + 2 * i] is Literal && ms[i] == MemberView::Str(pos + 2 * i, toks[pos + 2 * i]->Literal_0.text@))) by {
            if i > 0 {
                assert(ms[i] == ns[i - 1]);
            }
        }
        assert forall|i: int| 0 <= i < ms.len() implies (#[trigger] ms[i] is Type ==> (
            toks[pos + 2 * i] is Ident && ms[i] == MemberView::Type(toks[pos + 2 * i]->Ident_0@))) by {
            if i > 0 {
                assert(ms[i] == ns[i - 1]);
            }
        }
    }
}

/// A union read from `pos` keeps the positions of all its attribute groups, is
/// named by the identifier after `type`, and has one variant per member, in order:
/// for strings, the literal's own position and the variant name of its own text;
/// for types, the type's name.  It ends just after its `;`.
pub proof fn law_union_item(toks: Seq<Token>, pos: int)
    requires
        0 <= pos <= toks.len(),
        union_item(toks, pos) is Some,
    ensures
        ({
            let (u, e) = union_item(toks, pos)->Some_0;
            let n = u.attr_positions.len();
            let first = pos + 2 * n + 3;
            &&& forall|i: int| 0 <= i < n ==> #[trigger] u.attr_positions[i] == pos + 2 * i + 1
                && is_attr_pair(toks, pos + 2 * i)
            &&& is_ident_named(toks[pos + 2 * n], "type"@)
            &&& u.ident == toks[pos + 2 * n + 1]->Ident_0@
            &&& (u.kind matches UnionKindView::StaticStr(vs) ==> {
                &&& vs.len() >= 1
                &&& e == first + 2 * vs.len()
                &&& forall|i: int| 0 <= i < vs.len() ==> #[trigger] vs[i].0 == first + 2 * i
                    && toks[first + 2 * i] is Literal
                    && vs[i].1 == variant_name(toks[first + 2 * i]->Literal_0.text@)
            })
            &&& (u.kind matches UnionKindView::Types(ts) ==> {
                &&& ts.len() >= 1
                &&& e == first + 2 * ts.len()
                &&& forall|i: int| 0 <= i < ts.len() ==> ident_at(toks, first + 2 * i) == Some(#[trigger] ts[i])
            })
        }),
{
    law_union_attrs_pairs(toks, pos);
    let (ps, p) = union_attrs(toks, pos)->Some_0;
    law_union_members_tokens(toks, p + 3);
    let (ms, e) = union_members(toks, p + 3)->Some_0;
    let (u, e2) = union_item(toks, pos)->Some_0;
    assert(u.attr_positions == ps);
    assert(e2 == e);
    assert(p == pos + 2 * ps.len());
    if all_strings(ms) {
        let vs = string_variants(ms);
        assert(u.kind == UnionKindView::StaticStr(vs));
        assert(vs.len() == ms.len());
        assert forall|i: int| 0 <= i < vs.len() implies #[trigger] vs[i].0 == p + 3 + 2 * i
            && toks[p + 3 + 2 * i] is Literal
            && vs[i].1 == variant_name(toks[p + 3 + 2 * i]->Literal_0.text@) by {
            assert(ms[i] is Str);
        }
    } else {
        assert(all_types(ms));
        let ts = type_variants(ms);
        assert(u.kind == UnionKindView::Types(ts));
        assert(ts.len() == ms.len());
        assert forall|i: int| 0 <= i < ts.len() implies ident_at(toks, p + 3 + 2 * i) == Some(#[trigger] ts[i]) by {
            assert(ms[i] is Type);
            assert(ts[i] == ms[i]->Type_0);
        }
        assert(ts.len() >= 1);
        assert(e == p + 3 + 2 * ts.len());
    }
}

/// The variants of `string_union!` are its literals, one per member in order: each
/// variant holds its own literal's position, and its name is the variant name of
/// that literal's text; the literals are separated by `|` and closed by `;`.
pub proof fn law_string_union_members(toks: Seq<Token>, pos: int)
    requires
        0 <= pos,
        string_union_members(toks, pos) is Some,
    ensures
        ({
            let ms = string_union_members(toks, pos)->Some_0;
            &&& ms.len() >= 1
            &&& pos + 2 * ms.len() <= toks.len()
            &&& toks[pos + 2 * ms.len() - 1] == Token::Punct(';')
            &&& forall|i: int| 0 <= i < ms.len() - 1 ==> #[trigger] toks[pos + 2 * i + 1] == Token::Punct('|')
            &&& forall|i: int| 0 <= i < ms.len() ==> #[trigger] ms[i].0 == pos + 2 * i
                && toks[pos + 2 * i] is Literal
                && ms[i].1 == variant_name(toks[pos + 2 * i]->Literal_0.text@)
        }),
    decreases toks.len() - pos,
{
    if pos + 1 < toks.len() && toks[pos + 1] == Token::Punct('|') {
        law_string_union_members(toks, pos + 2);
        let ms = string_union_members(toks, pos)->Some_0;
        let ns = string_union_members(toks, pos + 2)->Some_0;
        assert forall|i: int| 0 <= i < ms.len() - 1 implies #[trigger] toks[pos + 2 * i + 1] == Token::Punct('|') by {
            if i > 0 {
                assert(toks[(pos + 2) + 2 * (i - 1) + 1] == Token::Punct('|'));
            }
        }
        assert forall|i: int| 0 <= i < ms.len() implies #[trigger] ms[i].0 == pos + 2 * i
            && toks[pos + 2 * i] is Literal
            && ms[i].1 == variant_name(toks[pos + 2 * i]->Literal_0.text@) by {
            if i > 0 {
                assert(ms[i] == ns[i - 1]);
            }
        }
    }
}

/// `string_union!` names the enum by the identifier after `type`, and its variants
/// follow the literals after `=`, each at its own position.
pub proof fn law_string_union_of(toks: Seq<Token>)
    requires
        string_union_of(toks) is Some,
    ensures
        ({
            let (name, ms) = string_union_of(toks)->Some_0;
            &&& is_ident_named(toks[0], "type"@)
            &&& name == toks[1]->Ident_0@
            &&& forall|i: int| 0 <= i < ms.len() ==> #[trigger] ms[i].0 == 3 + 2 * i
                && toks[3 + 2 * i] is Literal
                && ms[i].1 == variant_name(toks[3 + 2 * i]->Literal_0.text@)
            &&& forall|i: int, j: int| 0 <= i < j < ms.len() ==> #[trigger] ms[i].0 < #[trigger] ms[j].0
        }),
{
    law_string_union_members(toks, 3);
}

} // verus!