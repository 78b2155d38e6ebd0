//! The derives `Partial`, `Required` and `Readonly` on structs: one generated
//! field for each field of the struct that is not skipped.

use vstd::prelude::*;

use crate::attributes::container::{
    container_attributes_of, parse_container_attributes_checked, pick_case_all, pick_derive,
    pick_name, or_default, ContainerAttributeView, ContainerAttributes,
};
use crate::attributes::field_variant::{
    field_variant_attributes_of, field_variant_views, parse_field_variant_attributes_checked,
    pick_field_case, pick_field_name, renamed_ident, FieldVariantAttributeView,
    FieldVariantAttributes,
};
use crate::attributes::Attribute;
use crate::case::{case_converted, CaseKind};
use crate::derive::pick::{
    first_case_all_item, first_case_item, first_name_item, lemma_case_all_scan, lemma_field_case_scan,
    lemma_field_name_scan, no_case_all_item, no_case_item, no_name_item,
};
use crate::error::{ErrorKind, Result};
use crate::lexing::text_lexes;
use crate::search::first_some;
use crate::types::{
    as_option, as_required, is_as_option, is_option, is_path, option_unwraps, spec_as_required,
    spec_is_option, TypeModel,
};

verus! {

/// A field of a struct.
#[derive(Debug)]
pub struct FieldModel {
    /// The field's name; `None` for a field of a tuple struct.
    pub ident: Option<String>,
    /// The field's type.
    pub ty: TypeModel,
    /// The field's attributes.
    pub attrs: Vec<Attribute>,
    /// The field's visibility as written: empty, `pub`, `pub(crate)`, ...
    pub vis: String,
}

/// The struct derives that generate a type field by field.
#[derive(Debug, Clone, Copy, PartialEq, Eq, Structural)]
pub enum StructDerive {
    /// Every field optional.
    Partial,
    /// Every optional field required.
    Required,
    /// Every field read through a getter.
    Readonly,
}

/// What the generated code does with one field of the struct.
#[derive(Debug)]
pub enum FieldPlanKind {
    /// The field is skipped and optional: the struct gets `None` for it.
    SkippedOption,
    /// The field is skipped and not optional: the struct gets its default.
    SkippedDefault,
    /// The field is kept, with this type in the generated type.
    Kept(TypeModel),
}

/// The plan for one field.
#[derive(Debug)]
pub struct FieldPlan {
    /// The field's position in the struct.
    pub index: usize,
    /// The field's name in the struct.
    pub type_ident: String,
    /// The field's name in the generated type.
    pub generated_ident: String,
    /// Whether the field's type is an option.
    pub was_option: bool,
    /// The visibility of the generated field: the field's own for `Partial` and
    /// `Required`, none for `Readonly`, whose fields are read through getters.
    pub vis: String,
    /// What the generated code does with the field.
    pub kind: FieldPlanKind,
}

/// The plan for a generated type.
#[derive(Debug)]
pub struct DerivePlan {
    /// The name of the generated type.
    pub ident: String,
    /// The statement `#[derive(..)]` of the generated type.
    pub derive_statement: String,
    /// One plan for each field of the struct, in order.
    pub fields: Vec<FieldPlan>,
    /// Whether a field-by-field equality between the struct and the generated type
    /// is generated: not when a skipped field is not optional.
    pub impl_partial_eq: bool,
}

/// The items of a field's attributes, where they parse.
pub open spec fn field_items(f: FieldModel) -> Seq<FieldVariantAttributeView> {
    field_variant_attributes_of(f.attrs@)->Some_0->Ok_0
}

/// The items hold `skip`.
pub open spec fn items_skip(fs: Seq<FieldVariantAttributeView>) -> bool {
    exists|i: int| 0 <= i < fs.len() && fs[i] is Skip
}

/// The name of a field in the given container case, or its own name.
pub open spec fn base_ident(cs: Seq<ContainerAttributeView>, ident: Seq<char>) -> Seq<char> {
    match first_some(cs, pick_case_all()) {
        Some(c) => case_converted(ident, c.spec_position()),
        None => ident,
    }
}

/// The name of a field in the generated type: the field's `name`, else its
/// container-cased name in the field's `case`, else its container-cased name.
pub open spec fn generated_ident(
    cs: Seq<ContainerAttributeView>,
    ident: Seq<char>,
    fs: Seq<FieldVariantAttributeView>,
) -> Seq<char> {
    renamed_ident(first_some(fs, pick_field_name()), first_some(fs, pick_field_case()), base_ident(cs, ident))
}

/// The field is one that the derive takes without a panic.
pub open spec fn field_accepted(kind: StructDerive, f: FieldModel) -> bool {
    &&& f.ident is Some
    &&& field_variant_attributes_of(f.attrs@) matches Some(Ok(_))
    &&& (kind != StructDerive::Readonly || items_skip(field_items(f))) ==> is_path(f.ty)
    &&& (kind == StructDerive::Required && !items_skip(field_items(f)) && spec_is_option(f.ty))
        ==> option_unwraps(f.ty)
}

/// The type of a kept field in the generated type.
pub open spec fn field_type_matches(kind: StructDerive, t: TypeModel, r: TypeModel) -> bool {
    match kind {
        StructDerive::Partial => is_as_option(r, t),
        StructDerive::Required => r == spec_as_required(t),
        StructDerive::Readonly => r == t,
    }
}

/// `p` is the plan for the field `f` at position `index`.
pub open spec fn field_plan_matches(
    kind: StructDerive,
    cs: Seq<ContainerAttributeView>,
    index: int,
    f: FieldModel,
    p: FieldPlan,
) -> bool {
    let fs = field_items(f);
    &&& p.index == index
    &&& p.type_ident@ == f.ident->Some_0@
    &&& p.generated_ident@ == generated_ident(cs, f.ident->Some_0@, fs)
    &&& p.was_option == spec_is_option(f.ty)
    &&& p.vis@ == (if kind == StructDerive::Readonly { Seq::<char>::empty() } else { f.vis@ })
    &&& if items_skip(fs) {
        if spec_is_option(f.ty) {
            p.kind is SkippedOption
        } else {
            p.kind is SkippedDefault
        }
    } else {
        p.kind matches FieldPlanKind::Kept(t) && field_type_matches(kind, f.ty, t)
    }
}

/// The field is skipped and not optional, so the struct needs its default.
pub open spec fn needs_default(f: FieldModel) -> bool {
    items_skip(field_items(f)) && !spec_is_option(f.ty)
}

/// Every field is one that the derive takes without a panic.
pub open spec fn fields_accepted(kind: StructDerive, fields: Seq<FieldModel>) -> bool {
    forall|i: int| 0 <= i < fields.len() ==> field_accepted(kind, #[trigger] fields[i])
}

/// The derive takes the container attributes and fields without a panic, up to
/// the check of the derives' text.
pub open spec fn derive_accepted(kind: StructDerive, attrs: Seq<Attribute>, fields: Seq<FieldModel>) -> bool {
    &&& container_attributes_of(attrs) matches Some(Ok(_))
    &&& fields_accepted(kind, fields)
}

/// The text between the brackets of the generated type's `#[derive(..)]`: the
/// `derive` item, else the defaults of `kind`.
pub open spec fn derive_text(kind: StructDerive, attrs: Seq<Attribute>) -> Seq<char> {
    or_default(first_some(container_attributes_of(attrs)->Some_0->Ok_0, pick_derive()), default_derive(kind))
}

/// `r` is the plan for the struct with these container items and fields.
pub open spec fn plan_matches_items(
    kind: StructDerive,
    cs: Seq<ContainerAttributeView>,
    fields: Seq<FieldModel>,
    default_name: Seq<char>,
    default_derive: Seq<char>,
    r: DerivePlan,
) -> bool {
    &&& r.ident@ == or_default(first_some(cs, pick_name()), default_name)
    &&& r.derive_statement@ == "#[derive("@ + or_default(first_some(cs, pick_derive()), default_derive)
        + ")]"@
    &&& r.fields@.len() == fields.len()
    &&& forall|i: int| 0 <= i < fields.len() ==> field_plan_matches(kind, cs, i, fields[i], #[trigger] r.fields@[i])
    &&& r.impl_partial_eq == forall|i: int| 0 <= i < fields.len() ==> !needs_default(#[trigger] fields[i])
}

/// `r` is the plan for the struct with these attributes and fields.
pub open spec fn plan_matches(
    kind: StructDerive,
    attrs: Seq<Attribute>,
    fields: Seq<FieldModel>,
    default_name: Seq<char>,
    default_derive: Seq<char>,
    r: DerivePlan,
) -> bool {
    plan_matches_items(kind, container_attributes_of(attrs)->Some_0->Ok_0, fields, default_name, default_derive, r)
}

/// Plans one field; `None` where the derive panics on it.
fn plan_field(
    kind: StructDerive,
    cs: &Vec<crate::attributes::ContainerAttribute>,
    index: usize,
    f: FieldModel,
) -> (r: Option<FieldPlan>)
    ensures
        field_accepted(kind, f) ==> (r matches Some(p) && field_plan_matches(
            kind,
            crate::attributes::container::container_views(cs@),
            index as int,
            f,
            p,
        )),
        !field_accepted(kind, f) ==> r is None,
{
    let type_ident = match &f.ident {
        Some(id) => String::from_str(id.as_str()),
        None => {
            return None;
        },
    };
    let base = cs.field_ident(type_ident.as_str());
    let field_attrs = match parse_field_variant_attributes_checked(&f.attrs) {
        Some(Ok(v)) => v,
        _ => {
            return None;
        },
    };
    let ghost fs = field_items(f);
    proof {
        assert(field_variant_views(field_attrs@) == fs);
    }
    let generated = field_attrs.ident(base.as_str());
    let skip = field_attrs.skip();
    proof {
        if skip {
            let j = choose|j: int| 0 <= j < field_attrs@.len() && field_attrs@[j] is Skip;
            assert(fs[j] is Skip);
        }
        if items_skip(fs) {
            let j = choose|j: int| 0 <= j < fs.len() && fs[j] is Skip;
            assert(field_attrs@[j] is Skip);
        }
    }
    let was_option = is_option(&f.ty);
    let ghost fv = f;
    if skip || kind != StructDerive::Readonly {
        if !matches!(f.ty, TypeModel::Path(_)) {
            return None;
        }
    }
    let kind_plan = if skip {
        if was_option {
            FieldPlanKind::SkippedOption
        } else {
            FieldPlanKind::SkippedDefault
        }
    } else {
        match kind {
            StructDerive::Partial => FieldPlanKind::Kept(as_option(f.ty)),
            StructDerive::Required => {
                if was_option && !option_unwraps_exec(&f.ty) {
                    return None;
                }
                FieldPlanKind::Kept(as_required(f.ty))
            },
            StructDerive::Readonly => FieldPlanKind::Kept(f.ty),
        }
    };
    let vis = if kind == StructDerive::Readonly {
        String::new()
    } else {
        f.vis
    };
    Some(FieldPlan { index, type_ident, generated_ident: generated, was_option, vis, kind: kind_plan })
}

/// Whether an option type can be unwrapped.
fn option_unwraps_exec(t: &TypeModel) -> (r: bool)
    ensures
        r == option_unwraps(*t),
{
    match t {
        TypeModel::Path(p) => {
            if p.segments.len() == 0 {
                return false;
            }
            match &p.segments[0].arguments {
                crate::types::PathArguments::AngleBracketed(args) => {
                    args.len() >= 1 && matches!(args[0], crate::types::GenericArgument::Type(_))
                },
                _ => false,
            }
        },
        _ => false,
    }
}


/// Plans the generated type from the container items `cs`, once it is known
/// whether the derives' text splits into Rust tokens (`lexes`): `None` where a
/// field is one the derive panics on, else the plan, or `InvalidDeriveStatement`
/// with the derives' text where it does not split.
#[verifier::loop_isolation(false)]
fn plan_struct(
    kind: StructDerive,
    default_name: String,
    default_derive: &str,
    cs: Vec<crate::attributes::ContainerAttribute>,
    fields: Vec<FieldModel>,
    lexes: bool,
) -> (r: Option<Result<DerivePlan>>)
    ensures
        ({
            let csv = crate::attributes::container::container_views(cs@);
            &&& !fields_accepted(kind, fields@) ==> r is None
            &&& (fields_accepted(kind, fields@) && lexes) ==> (r matches Some(Ok(p))
                && plan_matches_items(kind, csv, fields@, default_name@, default_derive@, p))
            &&& (fields_accepted(kind, fields@) && !lexes) ==> (r matches Some(Err(e)) && e@ == (
                ErrorKind::InvalidDeriveStatement,
                or_default(first_some(csv, pick_derive()), default_derive@),
            ))
        }),
{
    let ghost fields_v = fields@;
    let ghost csv = crate::attributes::container::container_views(cs@);
    let n = fields.len();
    let mut rest = fields;
    let mut plans: Vec<FieldPlan> = Vec::new();
    let mut impl_eq = true;
    let mut i: usize = 0;
    proof {
        assert(fields_v.skip(0) =~= fields_v);
    }
    while i < n
        invariant
            n == fields_v.len(),
            0 <= i <= n,
            rest@ == fields_v.skip(i as int),
            plans@.len() == i,
            csv == crate::attributes::container::container_views(cs@),
            forall|j: int| 0 <= j < i ==> field_accepted(kind, #[trigger] fields_v[j]),
            forall|j: int| 0 <= j < i ==> field_plan_matches(kind, csv, j, fields_v[j], #[trigger] plans@[j]),
            impl_eq == forall|j: int| 0 <= j < i ==> !needs_default(#[trigger] fields_v[j]),
        decreases n - i,
    {
        let f = rest.remove(0);
        let ghost fv = f;
        proof {
            assert(fields_v.skip(i as int)[0] == fields_v[i as int]);
            assert(fields_v.skip(i as int).remove(0) =~= fields_v.skip(i + 1));
        }
        match plan_field(kind, &cs, i, f) {
            Some(p) => {
                let ghost before = impl_eq;
                if let FieldPlanKind::SkippedDefault = p.kind {
                    impl_eq = false;
                }
                proof {
                    assert(needs_default(fields_v[i as int]) == (p.kind is SkippedDefault));
                    if impl_eq {
                        assert forall|j: int| 0 <= j < i + 1 implies !needs_default(#[trigger] fields_v[j]) by {
                            if j < i {
                                assert(before);
                            }
                        }
                    }
                }
                plans.push(p);
            },
            None => {
                proof {
                    assert(fv == fields_v[i as int]);
                    assert(!field_accepted(kind, fields_v[i as int]));
                    assert(!fields_accepted(kind, fields_v));
                }
                return None;
            },
        }
        i = i + 1;
    }
    let ident = cs.ident(default_name.as_str());
    match cs.derive_statement_lexed(default_derive, lexes) {
        Ok(derive_statement) => Some(Ok(DerivePlan { ident, derive_statement, fields: plans, impl_partial_eq: impl_eq })),
        Err(e) => Some(Err(e)),
    }
}

/// The name and the derives that a generated type gets when no attribute gives them.
pub open spec fn default_name(kind: StructDerive, type_ident: Seq<char>) -> Seq<char> {
    match kind {
        StructDerive::Partial => "Partial"@ + type_ident,
        StructDerive::Required => "Required"@ + type_ident,
        StructDerive::Readonly => "Readonly"@ + type_ident,
    }
}

/// The derives that a generated type gets when no attribute gives them.
pub open spec fn default_derive(kind: StructDerive) -> Seq<char> {
    match kind {
        StructDerive::Partial => "PartialEq, Clone, Debug, Default"@,
        StructDerive::Required => "PartialEq, Clone, Debug"@,
        StructDerive::Readonly => "Clone, Debug, PartialEq"@,
    }
}

/// The default name and derives of `kind` for the struct `type_ident`.
fn defaults(kind: StructDerive, type_ident: &str) -> (r: (String, &'static str))
    ensures
        r.0@ == default_name(kind, type_ident@),
        r.1@ == default_derive(kind),
{
    match kind {
        StructDerive::Partial => {
            let mut n = String::from_str("Partial");
            n.append(type_ident);
            (n, "PartialEq, Clone, Debug, Default")
        },
        StructDerive::Required => {
            let mut n = String::from_str("Required");
            n.append(type_ident);
            (n, "PartialEq, Clone, Debug")
        },
        StructDerive::Readonly => {
            let mut n = String::from_str("Readonly");
            n.append(type_ident);
            (n, "Clone, Debug, PartialEq")
        },
    }
}

/// Plans the type that `kind` generates for the struct `type_ident` with these
/// attributes and fields, given whether the derives' text splits into Rust tokens
/// (`derive_lexes`).  `None` exactly where the derive panics: on a malformed or
/// unknown attribute item, an unnamed field, a field type that is not a path where
/// the derive asks whether it is an option, an option without a type argument
/// where `Required` unwraps it, or derives that do not split.
pub fn plan_struct_derive_lexed(
    kind: StructDerive,
    type_ident: &str,
    attrs: Vec<Attribute>,
    fields: Vec<FieldModel>,
    derive_lexes: bool,
) -> (r: Option<DerivePlan>)
    ensures
        r is Some <==> (derive_accepted(kind, attrs@, fields@) && derive_lexes),
        r matches Some(p) ==> plan_matches(kind, attrs@, fields@, default_name(kind, type_ident@), default_derive(kind), p),
{
    let ghost attrs_v = attrs@;
    let (name, derive) = defaults(kind, type_ident);
    let cs = match parse_container_attributes_checked(attrs) {
        Some(Ok(cs)) => cs,
        _ => {
            return None;
        },
    };
    match plan_struct(kind, name, derive, cs, fields, derive_lexes) {
        Some(Ok(p)) => Some(p),
        _ => None,
    }
}

/// Plans the type that `kind` generates for the struct `type_ident` with these
/// attributes and fields, asking `proc_macro2` whether the derives' text splits
/// into Rust tokens.  `None` where the derive panics on the attributes or fields,
/// or where the lexer rejects the derives; a plan that comes back is the plan.
pub fn plan_struct_derive_checked(
    kind: StructDerive,
    type_ident: &str,
    attrs: Vec<Attribute>,
    fields: Vec<FieldModel>,
) -> (r: Option<DerivePlan>)
    ensures
        !derive_accepted(kind, attrs@, fields@) ==> r is None,
        r matches Some(p) ==> plan_matches(kind, attrs@, fields@, default_name(kind, type_ident@), default_derive(kind), p),
{
    let (name, derive) = defaults(kind, type_ident);
    let cs = match parse_container_attributes_checked(attrs) {
        Some(Ok(cs)) => cs,
        _ => {
            return None;
        },
    };
    let lexes = match cs.derive() {
        Some(d) => text_lexes(d),
        None => text_lexes(derive),
    };
    match plan_struct(kind, name, derive, cs, fields, lexes) {
        Some(Ok(p)) => Some(p),
        _ => None,
    }
}

/// Plans the type that `kind` generates for the struct `type_ident`: its name (the
/// `name` item, else the default of `kind`), its derive statement (the `derive`
/// item, else the defaults of `kind`), and one plan for each field;
/// `InvalidDeriveStatement` with the derives' text where `proc_macro2` does not
/// split it into Rust tokens.
pub fn plan_struct_derive(
    kind: StructDerive,
    type_ident: &str,
    attrs: Vec<Attribute>,
    fields: Vec<FieldModel>,
) -> (r: Result<DerivePlan>)
    requires
        derive_accepted(kind, attrs@, fields@),
    ensures
        r matches Ok(p) ==> plan_matches(kind, attrs@, fields@, default_name(kind, type_ident@), default_derive(kind), p),
        r matches Err(e) ==> e@ == (ErrorKind::InvalidDeriveStatement, derive_text(kind, attrs@)),
{
    let (name, derive) = defaults(kind, type_ident);
    let cs = parse_container_attributes_checked(attrs).unwrap().unwrap();
    let lexes = match cs.derive() {
        Some(d) => text_lexes(d),
        None => text_lexes(derive),
    };
    plan_struct(kind, name, derive, cs, fields, lexes).unwrap()
}


/// The type is a path whose first segment is `Option`.
pub open spec fn starts_with_option(t: TypeModel) -> bool {
    t matches TypeModel::Path(p) && p.segments@.len() >= 1 && p.segments@[0].ident@ == "Option"@
}

/// The plan of the simple `Partial` derive, which takes no attributes.
#[derive(Debug)]
pub struct SimplePartialPlan {
    /// The name of the generated type: the struct's name followed by `Partial`.
    pub ident: String,
    /// The statement `#[derive(..)]` of the generated type.
    pub derive_statement: String,
    /// For each field, in order, whether it is kept as it is (its type is a path
    /// starting with `Option`) rather than wrapped in `Option`.
    pub already_optional: Vec<bool>,
}

/// Plans the simple `Partial` derive for the struct `type_ident` with fields of
/// these types: the generated type's name and derives, and for each field whether
/// it keeps its type or gets `Option` of it.
pub fn plan_simple_partial(type_ident: &str, field_types: &Vec<TypeModel>) -> (r: SimplePartialPlan)
    ensures
        r.ident@ == type_ident@ + "Partial"@,
        r.derive_statement@ == "#[derive(Clone, Debug, PartialEq)]"@,
        r.already_optional@.len() == field_types@.len(),
        forall|i: int| 0 <= i < field_types@.len() ==> #[trigger] r.already_optional@[i] == starts_with_option(field_types@[i]),
{
    let mut ident = String::from_str(type_ident);
    ident.append("Partial");
    let mut flags: Vec<bool> = Vec::new();
    let mut i: usize = 0;
    while i < field_types.len()
        invariant
            0 <= i <= field_types@.len(),
            flags@.len() == i,
            forall|j: int| 0 <= j < i ==> #[trigger] flags@[j] == starts_with_option(field_types@[j]),
        decreases field_types@.len() - i,
    {
        let b = match &field_types[i] {
            TypeModel::Path(p) => p.segments.len() >= 1 && crate::text::str_eq(p.segments[0].ident.as_str(), "Option"),
            _ => false,
        };
        flags.push(b);
        i = i + 1;
    }
    SimplePartialPlan {
        ident,
        derive_statement: String::from_str("#[derive(Clone, Debug, PartialEq)]"),
        already_optional: flags,
    }
}


/// Every field that `Partial` keeps has an optional type.
pub proof fn law_partial_fields_optional(
    attrs: Seq<Attribute>,
    fields: Seq<FieldModel>,
    name: Seq<char>,
    derive: Seq<char>,
    p: DerivePlan,
    i: int,
)
    requires
        plan_matches(StructDerive::Partial, attrs, fields, name, derive, p),
        0 <= i < p.fields@.len(),
        p.fields@[i].kind is Kept,
    ensures
        spec_is_option(p.fields@[i].kind->Kept_0),
{
    assert(field_plan_matches(StructDerive::Partial, container_attributes_of(attrs)->Some_0->Ok_0, i, fields[i], p.fields@[i]));
}

/// `Required` undoes `Partial`: where a field's type is not an option, the
/// required form of the type that `Partial` gives it is the field's type.
pub proof fn law_required_undoes_partial(
    attrs: Seq<Attribute>,
    fields: Seq<FieldModel>,
    name: Seq<char>,
    derive: Seq<char>,
    p: DerivePlan,
    i: int,
)
    requires
        plan_matches(StructDerive::Partial, attrs, fields, name, derive, p),
        0 <= i < p.fields@.len(),
        p.fields@[i].kind is Kept,
        !spec_is_option(fields[i].ty),
    ensures
        option_unwraps(p.fields@[i].kind->Kept_0),
        field_type_matches(StructDerive::Required, p.fields@[i].kind->Kept_0, fields[i].ty),
{
    assert(field_plan_matches(StructDerive::Partial, container_attributes_of(attrs)->Some_0->Ok_0, i, fields[i], p.fields@[i]));
    crate::types::law_required_of_optional(fields[i].ty, p.fields@[i].kind->Kept_0);
}

/// A field gets the same name in every derive, and is kept or skipped alike.
pub proof fn law_field_names_agree(
    k1: StructDerive,
    k2: StructDerive,
    attrs: Seq<Attribute>,
    fields: Seq<FieldModel>,
    n1: Seq<char>,
    d1: Seq<char>,
    n2: Seq<char>,
    d2: Seq<char>,
    p1: DerivePlan,
    p2: DerivePlan,
    i: int,
)
    requires
        plan_matches(k1, attrs, fields, n1, d1, p1),
        plan_matches(k2, attrs, fields, n2, d2, p2),
        0 <= i < fields.len(),
    ensures
        p1.fields@[i].generated_ident@ == p2.fields@[i].generated_ident@,
        p1.fields@[i].type_ident@ == p2.fields@[i].type_ident@,
        (p1.fields@[i].kind is Kept) == (p2.fields@[i].kind is Kept),
{
    let cs = container_attributes_of(attrs)->Some_0->Ok_0;
    assert(field_plan_matches(k1, cs, i, fields[i], p1.fields@[i]));
    assert(field_plan_matches(k2, cs, i, fields[i], p2.fields@[i]));
}

/// A field's `name` item names it in the generated type, whatever the cases.
pub proof fn law_field_name_wins(
    cs: Seq<ContainerAttributeView>,
    ident: Seq<char>,
    fs: Seq<FieldVariantAttributeView>,
    n: Seq<char>,
)
    requires
        first_some(fs, pick_field_name()) == Some(n),
    ensures
        generated_ident(cs, ident, fs) == n,
{
}

/// A skipped field is not kept, and the field-by-field equality is generated
/// exactly when every skipped field is optional.
pub proof fn law_skipped_fields(
    kind: StructDerive,
    attrs: Seq<Attribute>,
    fields: Seq<FieldModel>,
    name: Seq<char>,
    derive: Seq<char>,
    p: DerivePlan,
)
    requires
        plan_matches(kind, attrs, fields, name, derive, p),
    ensures
        forall|i: int| 0 <= i < fields.len() && items_skip(field_items(fields[i])) ==> !(#[trigger] p.fields@[i].kind is Kept),
        p.impl_partial_eq <==> forall|i: int| 0 <= i < fields.len() && items_skip(field_items(fields[i]))
            ==> spec_is_option(#[trigger] fields[i].ty),
{
    let cs = container_attributes_of(attrs)->Some_0->Ok_0;
    assert forall|i: int| 0 <= i < fields.len() && items_skip(field_items(fields[i])) implies !(#[trigger] p.fields@[i].kind is Kept) by {
        assert(field_plan_matches(kind, cs, i, fields[i], p.fields@[i]));
    }
    if p.impl_partial_eq {
        assert forall|i: int| 0 <= i < fields.len() && items_skip(field_items(fields[i])) implies spec_is_option(#[trigger] fields[i].ty) by {
            assert(!needs_default(fields[i]));
        }
    } else {
        let i = choose|i: int| 0 <= i < fields.len() && needs_default(#[trigger] fields[i]);
        assert(items_skip(field_items(fields[i])) && !spec_is_option(fields[i].ty));
    }
}

/// `t` holds `x` as its first type argument: `t` is written `Seg<x, ..>`.
pub open spec fn holds_first_argument(t: TypeModel, x: TypeModel) -> bool {
    &&& t is Path
    &&& t->Path_0.segments@.len() >= 1
    &&& t->Path_0.segments@[0].arguments is AngleBracketed
    &&& t->Path_0.segments@[0].arguments->AngleBracketed_0@.len() >= 1
    &&& t->Path_0.segments@[0].arguments->AngleBracketed_0@[0] == crate::types::GenericArgument::Type(x)
}

/// The type that a kept field gets: `Readonly` keeps the field's own type;
/// `Partial` keeps an option and wraps any other type `T` as `Option<T>`;
/// `Required` keeps a type that is not an option and unwraps an option to the
/// type it holds.
pub proof fn law_kept_field_types(
    kind: StructDerive,
    attrs: Seq<Attribute>,
    fields: Seq<FieldModel>,
    name: Seq<char>,
    derive: Seq<char>,
    p: DerivePlan,
    i: int,
)
    requires
        plan_matches(kind, attrs, fields, name, derive, p),
        0 <= i < fields.len(),
        p.fields@[i].kind is Kept,
    ensures
        kind == StructDerive::Readonly ==> p.fields@[i].kind->Kept_0 == fields[i].ty,
        (kind == StructDerive::Partial && spec_is_option(fields[i].ty)) ==> p.fields@[i].kind->Kept_0 == fields[i].ty,
        (kind == StructDerive::Partial && !spec_is_option(fields[i].ty)) ==> crate::types::is_option_of(
            p.fields@[i].kind->Kept_0,
            fields[i].ty,
        ),
        (kind == StructDerive::Required && !spec_is_option(fields[i].ty)) ==> p.fields@[i].kind->Kept_0 == fields[i].ty,
        (kind == StructDerive::Required && spec_is_option(fields[i].ty) && option_unwraps(fields[i].ty))
            ==> holds_first_argument(fields[i].ty, p.fields@[i].kind->Kept_0),
{
    let cs = container_attributes_of(attrs)->Some_0->Ok_0;
    assert(field_plan_matches(kind, cs, i, fields[i], p.fields@[i]));
}

/// The name of a field in the generated type: the first `name` item of its own
/// attributes where there is one; else its name, converted to the first
/// `case_all` of the container where there is one, then to its own first `case`
/// where there is one.  The field keeps its own name in the struct.
pub proof fn law_generated_field_ident(
    kind: StructDerive,
    attrs: Seq<Attribute>,
    fields: Seq<FieldModel>,
    name: Seq<char>,
    derive: Seq<char>,
    p: DerivePlan,
    i: int,
)
    requires
        plan_matches(kind, attrs, fields, name, derive, p),
        0 <= i < fields.len(),
    ensures
        ({
            let g = p.fields@[i].generated_ident@;
            let id = fields[i].ident->Some_0@;
            let fs = field_items(fields[i]);
            let cs = container_attributes_of(attrs)->Some_0->Ok_0;
            &&& p.fields@[i].type_ident@ == id
            &&& p.fields@[i].index == i
            &&& forall|n: Seq<char>| #[trigger] first_name_item(fs, n) ==> g == n
            &&& (no_name_item(fs) && no_case_item(fs) && no_case_all_item(cs)) ==> g == id
            &&& forall|cc: CaseKind| (no_name_item(fs) && no_case_item(fs) && #[trigger] first_case_all_item(cs, cc))
                ==> g == case_converted(id, cc.spec_position())
            &&& forall|c: CaseKind| (no_name_item(fs) && #[trigger] first_case_item(fs, c) && no_case_all_item(cs))
                ==> g == case_converted(id, c.spec_position())
            &&& forall|c: CaseKind, cc: CaseKind| (no_name_item(fs) && #[trigger] first_case_item(fs, c)
                && #[trigger] first_case_all_item(cs, cc)) ==> g == case_converted(
                    case_converted(id, cc.spec_position()),
                    c.spec_position(),
                )
        }),
{
    let cs = container_attributes_of(attrs)->Some_0->Ok_0;
    let fs = field_items(fields[i]);
    assert(field_plan_matches(kind, cs, i, fields[i], p.fields@[i]));
    lemma_field_name_scan(fs);
    lemma_field_case_scan(fs);
    lemma_case_all_scan(cs);
}

} // verus!
