//! What the `ToSchema` derive generates for a type: for each field, variant
//! and generic parameter, the decision of how it shows in the schema.

use vstd::prelude::*;
use crate::attr::Attr;
use crate::default_expr::{default_expr_spec, default_expr_view, generate_default_expr, DefaultExpr, DefaultExprError};
use crate::docs::{description_of, extract_description};
use crate::serde_attr::{flag_text, opt_text, serde_attrs, FlagOrValue, SerdeAttr};
use crate::shape::{SchemaFields, SchemaProperties};

verus! {

/// What `#[schema(...)]` says of a field or variant, as parsed from its
/// attributes: a new name, whether to flatten it, and its default.
pub struct SchemaAttr<E> {
    pub rename: Option<String>,
    pub flatten: bool,
    pub default: FlagOrValue<E>,
}

/// A named field of a struct or variant: its name, attributes, what
/// `#[schema(...)]` says of it, and its type as the caller carries it.
pub struct SchemaField<T, E> {
    pub ident: Option<String>,
    pub attrs: Vec<Attr>,
    pub schema: SchemaAttr<E>,
    pub ty: T,
}

/// How a field that is not flattened becomes a property.
pub struct PropertyPlan<T, E> {
    /// The property's name.
    pub name: String,
    /// The field's type.
    pub ty: T,
    /// The description taken from the field's doc comments, if it has any.
    pub description: Option<String>,
    /// The default written into the property's schema, if any.
    pub default: Option<DefaultExpr<String, E>>,
    /// Whether the property's schema is written out in place (to carry a
    /// description or a default) rather than referred to.
    pub inline: bool,
    /// Whether the property is listed as required when its type is.
    pub required_if_type_requires: bool,
}

/// How a field shows in the schema of the object that holds it.
pub enum FieldPlan<T, E> {
    /// The properties of the field's own schema are merged in.
    Flatten(T),
    /// The field is one property.
    Property(PropertyPlan<T, E>),
}

/// The first name present among a `#[schema(rename)]`, a
/// `#[serde(rename)]` and the item's own name.
pub open spec fn chosen_name(schema_rename: Option<String>, serde_rename: Option<Seq<char>>, ident: Seq<char>) -> Seq<char> {
    match schema_rename {
        Some(s) => s@,
        None => match serde_rename {
            Some(s) => s,
            None => ident,
        },
    }
}

/// A `#[schema(rename)]` wins over a `#[serde(rename)]`, which wins over
/// the item's own name.
pub proof fn lemma_name_priority(schema_rename: Option<String>, serde_rename: Option<Seq<char>>, ident: Seq<char>)
    ensures
        schema_rename matches Some(n) ==> chosen_name(schema_rename, serde_rename, ident) == n@,
        schema_rename is None ==> (serde_rename matches Some(n) ==> chosen_name(schema_rename, serde_rename, ident) == n),
        schema_rename is None && serde_rename is None ==> chosen_name(schema_rename, serde_rename, ident) == ident,
{
}

/// A description that is present when it is not empty.
pub open spec fn described(d: Seq<char>) -> Option<Seq<char>> {
    if d.len() == 0 {
        None
    } else {
        Some(d)
    }
}

/// The name of a field, when it has one.
pub open spec fn ident_text(ident: Option<String>) -> Seq<char> {
    match ident {
        Some(i) => i@,
        None => Seq::empty(),
    }
}

/// Whether a field is flattened, by `serde` or by `schema`.
pub open spec fn flattened<T, E>(f: SchemaField<T, E>) -> bool {
    serde_attrs(f.attrs@).1 || f.schema.flatten
}

/// The default of a field that is not flattened.
pub open spec fn field_default<T, E>(f: SchemaField<T, E>) -> Result<Option<DefaultExpr<Seq<char>, E>>, DefaultExprError> {
    default_expr_spec(serde_attrs(f.attrs@).2, f.schema.default)
}

/// Whether planning a field fails: it is not flattened and its
/// `#[serde(default = "...")]` names no path.
pub open spec fn field_fails<T, E>(f: SchemaField<T, E>) -> bool {
    !flattened(f) && field_default(f) is Err
}

/// The plan of a field: flattened fields are merged; any other field is a
/// property under its chosen name, written out in place when it has a
/// description or a default, and required (when its type is) only when it
/// has no default.
pub open spec fn field_plan_ok<T, E>(f: SchemaField<T, E>, r: Result<FieldPlan<T, E>, DefaultExprError>) -> bool {
    if flattened(f) {
        r == Ok::<FieldPlan<T, E>, DefaultExprError>(FieldPlan::Flatten(f.ty))
    } else {
        match field_default(f) {
            Err(e) => r == Err::<FieldPlan<T, E>, DefaultExprError>(e),
            Ok(d) => r matches Ok(FieldPlan::Property(p)) && {
                let desc = description_of(f.attrs@);
                &&& p.name@ == chosen_name(f.schema.rename, serde_attrs(f.attrs@).0, ident_text(f.ident))
                &&& p.ty == f.ty
                &&& opt_text(p.description) == described(desc)
                &&& default_expr_view(Ok(p.default)) == Ok::<Option<DefaultExpr<Seq<char>, E>>, DefaultExprError>(d)
                &&& p.inline == (desc.len() > 0 || d is Some)
                &&& p.required_if_type_requires == (d is None)
            },
        }
    }
}

/// Plans how one named field of a struct or variant shows in its schema.
pub fn plan_field<T, E>(field: SchemaField<T, E>) -> (r: Result<FieldPlan<T, E>, DefaultExprError>)
    requires
        field.ident is Some,
    ensures
        field_plan_ok(field, r),
        field.schema.flatten ==> r == Ok::<FieldPlan<T, E>, DefaultExprError>(FieldPlan::Flatten(field.ty)),
        r matches Ok(FieldPlan::Property(p)) ==> {
            &&& p.ty == field.ty
            &&& p.required_if_type_requires == (p.default is None)
            &&& p.inline == (p.description is Some || p.default is Some)
            &&& p.description matches Some(d) ==> d@.len() > 0
            &&& field.schema.rename matches Some(n) ==> p.name == n
            &&& field.schema.rename is None && serde_attrs(field.attrs@).0 is None ==> p.name@ == field.ident->0@
        },
{
    let ghost f = field;
    let SchemaField { ident, attrs, schema, ty } = field;
    let serde = SerdeAttr::new(&attrs);
    let SchemaAttr { rename: schema_rename, flatten: schema_flatten, default: schema_default } = schema;
    if serde.flatten || schema_flatten {
        return Ok(FieldPlan::Flatten(ty));
    }
    let SerdeAttr { rename: serde_rename, flatten: _, default: serde_default } = serde;
    let default = match generate_default_expr(serde_default, schema_default) {
        Ok(d) => d,
        Err(e) => {
            return Err(e);
        },
    };
    let name = match schema_rename {
        Some(s) => s,
        None => match serde_rename {
            Some(s) => s,
            None => match ident {
                Some(i) => i,
                None => String::new(),
            },
        },
    };
    let d = extract_description(&attrs);
    let has_description = d.unicode_len() != 0;
    let description = if has_description {
        Some(d)
    } else {
        None
    };
    let inline = has_description || default.is_some();
    let required_if_type_requires = default.is_none();
    proof {
        assert(flag_text(serde_default) == serde_attrs(f.attrs@).2);
    }
    Ok(FieldPlan::Property(PropertyPlan { name, ty, description, default, inline, required_if_type_requires }))
}

/// The positions, in order, of the first `n` fields whose plan fails.
pub open spec fn field_errors<T, E>(fs: Seq<SchemaField<T, E>>, n: int) -> Seq<usize>
    decreases n,
{
    if n <= 0 {
        Seq::empty()
    } else {
        let before = field_errors(fs, n - 1);
        if field_fails(fs[n - 1]) {
            before.push((n - 1) as usize)
        } else {
            before
        }
    }
}

/// Whether every field has a name.
pub open spec fn all_named<T, E>(fs: Seq<SchemaField<T, E>>) -> bool {
    forall|i: int| 0 <= i < fs.len() ==> (#[trigger] fs[i]).ident is Some
}

/// The plans of a list of fields: every field's plan when none fails, else
/// the positions of all that fail.
pub open spec fn fields_plan_ok<T, E>(fs: Seq<SchemaField<T, E>>, r: Result<Vec<FieldPlan<T, E>>, Vec<usize>>) -> bool {
    let errors = field_errors(fs, fs.len() as int);
    if errors.len() > 0 {
        r matches Err(es) && es@ == errors
    } else {
        r matches Ok(ps) && ps@.len() == fs.len()
            && forall|i: int| 0 <= i < fs.len() ==> field_plan_ok(fs[i], Ok(#[trigger] ps@[i]))
    }
}

proof fn lemma_field_plan_result<T, E>(f: SchemaField<T, E>, r: Result<FieldPlan<T, E>, DefaultExprError>)
    requires
        field_plan_ok(f, r),
    ensures
        r is Err <==> field_fails(f),
{
}

/// Plans the named fields of a struct or variant, reporting every field
/// whose default names no path.
pub fn plan_fields<T, E>(fields: Vec<SchemaField<T, E>>) -> (r: Result<Vec<FieldPlan<T, E>>, Vec<usize>>)
    requires
        all_named(fields@),
    ensures
        fields_plan_ok(fields@, r),
{
    let ghost orig = fields@;
    let n = fields.len();
    let mut rest = fields;
    let mut errors: Vec<usize> = Vec::new();
    let mut plans: Vec<FieldPlan<T, E>> = Vec::new();
    let mut i: usize = 0;
    while i < n
        invariant
            n == orig.len(),
            i <= n,
            all_named(orig),
            rest@ == orig.skip(i as int),
            errors@ == field_errors(orig, i as int),
            errors@.len() == 0 ==> {
                &&& plans@.len() == i
                &&& forall|k: int| 0 <= k < i ==> field_plan_ok(orig[k], Ok(#[trigger] plans@[k]))
            },
        decreases n - i,
    {
        let f = rest.remove(0);
        assert(f == orig[i as int]);
        let r = plan_field(f);
        proof {
            lemma_field_plan_result(orig[i as int], r);
        }
        match r {
            Ok(p) => {
                plans.push(p);
            },
            Err(_) => {
                errors.push(i);
            },
        }
        i = i + 1;
        assert(rest@ =~= orig.skip(i as int));
    }
    if errors.len() > 0 {
        Err(errors)
    } else {
        Ok(plans)
    }
}

/// What the derive keeps of a variant besides its attributes and fields:
/// its name and what `#[schema(...)]` says of it.
pub struct VariantInfo<E> {
    pub ident: String,
    pub schema: SchemaAttr<E>,
}

/// The name a variant shows under.
pub open spec fn variant_name<E>(info: VariantInfo<E>, attrs: Seq<Attr>) -> Seq<char> {
    chosen_name(info.schema.rename, serde_attrs(attrs).0, info.ident@)
}

/// The name a variant shows under.
pub fn name_of_variant<E>(info: VariantInfo<E>, attrs: &Vec<Attr>) -> (name: String)
    ensures
        name@ == variant_name(info, attrs@),
{
    let serde = SerdeAttr::new(attrs);
    match info.schema.rename {
        Some(s) => s,
        None => match serde.rename {
            Some(s) => s,
            None => info.ident,
        },
    }
}

/// The description of an item, present when its doc comments say anything.
pub fn description_if_any(attrs: &Vec<Attr>) -> (d: Option<String>)
    ensures
        opt_text(d) == described(description_of(attrs@)),
{
    let d = extract_description(attrs);
    if d.unicode_len() != 0 {
        Some(d)
    } else {
        None
    }
}

/// How a variant of an enum that is not all bare unit variants shows: as
/// one of the enum's alternatives.
pub enum VariantPlan<T, E> {
    /// A string with the variant's name as its only value.
    Unit { name: String, description: Option<String> },
    /// An object whose one required property, under the variant's name,
    /// refers to the field's type.
    Unnamed { name: String, description: Option<String>, ty: T },
    /// An object whose one required property, under the variant's name, is
    /// an object of the variant's fields.
    Named { name: String, description: Option<String>, fields: Vec<FieldPlan<T, E>> },
}

/// A variant as the shape checks hand it on.
pub type SchemaVariant<T, E> = (VariantInfo<E>, Vec<Attr>, SchemaFields<SchemaField<T, E>>);

/// The fields of a variant all have names.
pub open spec fn variant_fields_named<T, E>(v: SchemaVariant<T, E>) -> bool {
    v.2 matches SchemaFields::Named(fs) ==> all_named(fs@)
}

/// The plan of a variant, or the positions of its fields whose plan fails.
pub open spec fn variant_plan_ok<T, E>(v: SchemaVariant<T, E>, r: Result<VariantPlan<T, E>, Vec<usize>>) -> bool {
    let name = variant_name(v.0, v.1@);
    let desc = described(description_of(v.1@));
    match v.2 {
        SchemaFields::Unit => r matches Ok(VariantPlan::Unit { name: n, description: d })
            && n@ == name && opt_text(d) == desc,
        SchemaFields::Unnamed(f) => r matches Ok(VariantPlan::Unnamed { name: n, description: d, ty })
            && n@ == name && opt_text(d) == desc && ty == f.ty,
        SchemaFields::Named(fs) => {
            let errors = field_errors(fs@, fs@.len() as int);
            if errors.len() > 0 {
                r matches Err(es) && es@ == errors
            } else {
                r matches Ok(VariantPlan::Named { name: n, description: d, fields })
                    && n@ == name && opt_text(d) == desc && fields_plan_ok(fs@, Ok(fields))
            }
        },
    }
}

/// Plans one variant of an enum described as one of its variants.
pub fn plan_variant<T, E>(v: SchemaVariant<T, E>) -> (r: Result<VariantPlan<T, E>, Vec<usize>>)
    requires
        variant_fields_named(v),
    ensures
        variant_plan_ok(v, r),
{
    let (info, attrs, fields) = v;
    match fields {
        SchemaFields::Unit => {
            let name = name_of_variant(info, &attrs);
            let description = description_if_any(&attrs);
            Ok(VariantPlan::Unit { name, description })
        },
        SchemaFields::Unnamed(f) => {
            let name = name_of_variant(info, &attrs);
            let description = description_if_any(&attrs);
            Ok(VariantPlan::Unnamed { name, description, ty: f.ty })
        },
        SchemaFields::Named(fs) => {
            let planned = plan_fields(fs);
            match planned {
                Err(es) => Err(es),
                Ok(fields) => {
                    let name = name_of_variant(info, &attrs);
                    let description = description_if_any(&attrs);
                    Ok(VariantPlan::Named { name, description, fields })
                },
            }
        },
    }
}

/// A generic parameter of the type a derive is applied to; types and
/// constants are carried as the caller gives them.
pub enum GenericParam<T, C> {
    Lifetime,
    Type(T),
    Const(C),
}

/// A slot in the title of a generic type: the title of a type parameter, or
/// the value of a constant parameter.
#[derive(Debug)]
pub enum TitleSlot<T, C> {
    TypeTitle(T),
    ConstValue(C),
}

/// The slots of the title, one per type or constant parameter, in order;
/// lifetimes do not show.
pub open spec fn title_slots<T, C>(ps: Seq<GenericParam<T, C>>) -> Seq<TitleSlot<T, C>>
    decreases ps.len(),
{
    if ps.len() == 0 {
        Seq::empty()
    } else {
        let before = title_slots(ps.drop_last());
        match ps.last() {
            GenericParam::Lifetime => before,
            GenericParam::Type(t) => before.push(TitleSlot::TypeTitle(t)),
            GenericParam::Const(c) => before.push(TitleSlot::ConstValue(c)),
        }
    }
}

/// The slots of the title of a type with these generic parameters.
pub fn plan_title<T, C>(params: Vec<GenericParam<T, C>>) -> (slots: Vec<TitleSlot<T, C>>)
    ensures
        slots@ == title_slots(params@),
{
    let ghost orig = params@;
    let n = params.len();
    let mut rest = params;
    let mut slots: Vec<TitleSlot<T, C>> = Vec::new();
    let mut i: usize = 0;
    while i < n
        invariant
            n == orig.len(),
            i <= n,
            rest@ == orig.skip(i as int),
            slots@ == title_slots(orig.take(i as int)),
        decreases n - i,
    {
        let p = rest.remove(0);
        assert(orig.take(i + 1).drop_last() =~= orig.take(i as int));
        assert(orig.take(i + 1).last() == orig[i as int]);
        match p {
            GenericParam::Lifetime => {},
            GenericParam::Type(t) => {
                slots.push(TitleSlot::TypeTitle(t));
            },
            GenericParam::Const(c) => {
                slots.push(TitleSlot::ConstValue(c));
            },
        }
        i = i + 1;
        assert(rest@ =~= orig.skip(i as int));
    }
    assert(orig.take(n as int) =~= orig);
    slots
}

/// The parts of a title joined by a comma and a space.
pub open spec fn joined(parts: Seq<Seq<char>>) -> Seq<char>
    decreases parts.len(),
{
    if parts.len() == 0 {
        Seq::empty()
    } else if parts.len() == 1 {
        parts[0]
    } else {
        joined(parts.drop_last()) + ", "@ + parts.last()
    }
}

/// The title of a type: its name, followed, when it has type or constant
/// parameters, by their titles between angle brackets.
pub open spec fn title_text(name: Seq<char>, parts: Seq<Seq<char>>) -> Seq<char> {
    if parts.len() == 0 {
        name
    } else {
        name + "<"@ + joined(parts) + ">"@
    }
}

/// A title starts with the type's name; a type without parameters is titled
/// by its name alone, and one with parameters adds their titles between
/// `<` and `>`, one parameter standing alone between them.
pub proof fn lemma_title_shape(name: Seq<char>, parts: Seq<Seq<char>>)
    ensures
        title_text(name, parts).len() >= name.len(),
        title_text(name, parts).subrange(0, name.len() as int) == name,
        parts.len() == 0 ==> title_text(name, parts) == name,
        parts.len() == 1 ==> title_text(name, parts) == name + seq!['<'] + parts[0] + seq!['>'],
        parts.len() > 0 ==> title_text(name, parts)[name.len() as int] == '<' && title_text(name, parts).last() == '>',
{
    reveal_strlit("<");
    reveal_strlit(">");
    let t = title_text(name, parts);
    if parts.len() == 0 {
        assert(t.subrange(0, name.len() as int) =~= name);
    } else {
        assert(t == name + "<"@ + joined(parts) + ">"@);
        assert(t.subrange(0, name.len() as int) =~= name);
        if parts.len() == 1 {
            assert(joined(parts) == parts[0]);
            assert(t =~= name + seq!['<'] + parts[0] + seq!['>']);
        }
    }
}

/// The title of a type from its name and the titles of its parameters, as
/// `Name<A, B>`.
pub fn compose_title(name: &str, parts: &Vec<String>) -> (title: String)
    ensures
        title@ == title_text(name@, parts@.map_values(|p: String| p@)),
        title@.len() >= name@.len() && title@.subrange(0, name@.len() as int) == name@,
        parts@.len() == 0 ==> title@ == name@,
        parts@.len() == 1 ==> title@ == name@ + seq!['<'] + parts@[0]@ + seq!['>'],
        parts@.len() > 0 ==> title@[name@.len() as int] == '<' && title@.last() == '>',
{
    proof {
        lemma_title_shape(name@, parts@.map_values(|p: String| p@));
    }
    let ghost views = parts@.map_values(|p: String| p@);
    let mut title = String::new();
    crate::text::push_str(&mut title, name);
    if parts.len() == 0 {
        return title;
    }
    crate::text::push_char(&mut title, '<');
    proof {
        reveal_strlit("<");
        reveal_strlit(">");
        assert(title@ =~= name@ + "<"@ + joined(views.take(0)));
    }
    let mut i: usize = 0;
    while i < parts.len()
        invariant
            i <= parts.len(),
            parts.len() > 0,
            views == parts@.map_values(|p: String| p@),
            title@ == name@ + "<"@ + joined(views.take(i as int)),
        decreases parts.len() - i,
    {
        assert(views.take(i + 1).drop_last() =~= views.take(i as int));
        assert(views.take(i + 1).last() == parts@[i as int]@);
        if i > 0 {
            crate::text::push_str(&mut title, ", ");
        }
        crate::text::push_str(&mut title, parts[i].as_str());
        proof {
            if i == 0 {
                assert(title@ =~= name@ + "<"@ + joined(views.take(1)));
            } else {
                assert(title@ =~= name@ + "<"@ + joined(views.take(i + 1)));
            }
        }
        i = i + 1;
    }
    crate::text::push_char(&mut title, '>');
    proof {
        reveal_strlit(">");
        assert(views.take(parts.len() as int) =~= views);
        assert(title@ =~= name@ + "<"@ + joined(views) + ">"@);
    }
    title
}

/// The format template of a title with `n` slots: the name, followed, when
/// there are slots, by `{}` for each between angle brackets.
pub open spec fn title_template_text(name: Seq<char>, n: nat) -> Seq<char> {
    title_text(name, Seq::new(n, |i: int| "{}"@))
}

/// The format template of the title of a type with `n` type or constant
/// parameters, as `Name<{}, {}>`.
pub fn title_template(name: &str, n: usize) -> (t: String)
    ensures
        t@ == title_template_text(name@, n as nat),
{
    let ghost slots = Seq::new(n as nat, |i: int| "{}"@);
    let mut t = String::new();
    crate::text::push_str(&mut t, name);
    if n == 0 {
        return t;
    }
    crate::text::push_char(&mut t, '<');
    proof {
        reveal_strlit("<");
        assert(t@ =~= name@ + "<"@ + joined(slots.take(0)));
    }
    let mut i: usize = 0;
    while i < n
        invariant
            i <= n,
            n > 0,
            slots == Seq::new(n as nat, |i: int| "{}"@),
            t@ == name@ + "<"@ + joined(slots.take(i as int)),
        decreases n - i,
    {
        assert(slots.take(i + 1).drop_last() =~= slots.take(i as int));
        assert(slots.take(i + 1).last() == "{}"@);
        if i > 0 {
            crate::text::push_str(&mut t, ", ");
        }
        crate::text::push_str(&mut t, "{}");
        proof {
            if i == 0 {
                assert(t@ =~= name@ + "<"@ + joined(slots.take(1)));
            } else {
                assert(t@ =~= name@ + "<"@ + joined(slots.take(i + 1)));
            }
        }
        i = i + 1;
    }
    crate::text::push_char(&mut t, '>');
    proof {
        reveal_strlit(">");
        assert(slots.take(n as int) =~= slots);
        assert(t@ =~= name@ + "<"@ + joined(slots) + ">"@);
    }
    t
}

/// Why the `ToSchema` derive cannot describe a type: a field whose
/// `#[serde(default = "...")]` names no path.
#[derive(Clone, Copy, Debug, PartialEq, Eq, Structural)]
pub enum SchemaPlanError {
    /// The struct's field at this position.
    FieldDefault(usize),
    /// The field at the second position of the variant at the first.
    VariantFieldDefault(usize, usize),
}

/// The title of a type with generic parameters: its name and slots.
pub struct TitlePlan<T, C> {
    pub name: String,
    pub slots: Vec<TitleSlot<T, C>>,
}

/// What the `ToSchema` derive generates for a type.
pub enum SchemaPlan<T, E, C> {
    /// An object with a property per field.
    Object { title: TitlePlan<T, C>, description: Option<String>, properties: Vec<FieldPlan<T, E>> },
    /// A string whose values are the variants' names; its title is the
    /// type's bare name.
    StringEnum { title: String, description: Option<String>, enumeration: Vec<String> },
    /// One of the schemas of the variants.
    OneOf { title: TitlePlan<T, C>, description: Option<String>, variants: Vec<VariantPlan<T, E>> },
}

/// The errors of the first `n` variants of an enum, in order.
pub open spec fn variant_plan_errors<T, E>(vs: Seq<SchemaVariant<T, E>>, n: int) -> Seq<SchemaPlanError>
    decreases n,
{
    if n <= 0 {
        Seq::empty()
    } else {
        let before = variant_plan_errors(vs, n - 1);
        match vs[n - 1].2 {
            SchemaFields::Named(fs) => before + field_errors(fs@, fs@.len() as int).map_values(
                |f: usize| SchemaPlanError::VariantFieldDefault((n - 1) as usize, f),
            ),
            _ => before,
        }
    }
}

/// Whether every named field of the type has a name.
pub open spec fn properties_named<T, E>(props: SchemaProperties<VariantInfo<E>, SchemaField<T, E>>) -> bool {
    match props {
        SchemaProperties::NamedStruct(fs) => all_named(fs@),
        SchemaProperties::OnlyUnitEnum(_) => true,
        SchemaProperties::NormalEnum(vs) => forall|i: int| 0 <= i < vs@.len() ==> variant_fields_named(#[trigger] vs@[i]),
    }
}

/// Whether a title plan is that of the type named `ident` with these
/// generic parameters.
pub open spec fn title_plan_ok<T, C>(t: TitlePlan<T, C>, ident: Seq<char>, params: Seq<GenericParam<T, C>>) -> bool {
    t.name@ == ident && t.slots@ == title_slots(params)
}

/// What the `ToSchema` derive generates for a type, or every field whose
/// default names no path.
pub open spec fn schema_plan_ok<T, E, C>(
    ident: Seq<char>,
    attrs: Seq<Attr>,
    params: Seq<GenericParam<T, C>>,
    props: SchemaProperties<VariantInfo<E>, SchemaField<T, E>>,
    r: Result<SchemaPlan<T, E, C>, Vec<SchemaPlanError>>,
) -> bool {
    let desc = described(description_of(attrs));
    match props {
        SchemaProperties::NamedStruct(fs) => {
            let errors = field_errors(fs@, fs@.len() as int);
            if errors.len() > 0 {
                r matches Err(es) && es@ == errors.map_values(|f: usize| SchemaPlanError::FieldDefault(f))
            } else {
                r matches Ok(SchemaPlan::Object { title, description, properties })
                    && title_plan_ok(title, ident, params) && opt_text(description) == desc
                    && fields_plan_ok(fs@, Ok(properties))
            }
        },
        SchemaProperties::OnlyUnitEnum(us) => r matches Ok(SchemaPlan::StringEnum { title, description, enumeration })
            && title@ == ident && opt_text(description) == desc && enumeration@.len() == us@.len()
            && forall|i: int| 0 <= i < us@.len() ==> (#[trigger] enumeration@[i])@ == variant_name(us@[i].0, us@[i].1@),
        SchemaProperties::NormalEnum(vs) => {
            let errors = variant_plan_errors(vs@, vs@.len() as int);
            if errors.len() > 0 {
                r matches Err(es) && es@ == errors
            } else {
                r matches Ok(SchemaPlan::OneOf { title, description, variants })
                    && title_plan_ok(title, ident, params) && opt_text(description) == desc
                    && variants@.len() == vs@.len()
                    && forall|i: int| 0 <= i < vs@.len() ==> variant_plan_ok(vs@[i], Ok(#[trigger] variants@[i]))
            }
        },
    }
}

fn struct_errors(es: Vec<usize>) -> (r: Vec<SchemaPlanError>)
    ensures
        r@ == es@.map_values(|f: usize| SchemaPlanError::FieldDefault(f)),
{
    let mut r: Vec<SchemaPlanError> = Vec::new();
    let mut j: usize = 0;
    while j < es.len()
        invariant
            j <= es.len(),
            r@ == es@.take(j as int).map_values(|f: usize| SchemaPlanError::FieldDefault(f)),
        decreases es.len() - j,
    {
        r.push(SchemaPlanError::FieldDefault(es[j]));
        j = j + 1;
        assert(r@ =~= es@.take(j as int).map_values(|f: usize| SchemaPlanError::FieldDefault(f)));
    }
    assert(es@.take(es.len() as int) =~= es@);
    r
}

fn append_variant_errors(errors: &mut Vec<SchemaPlanError>, v: usize, es: &Vec<usize>)
    ensures
        final(errors)@ == old(errors)@ + es@.map_values(|f: usize| SchemaPlanError::VariantFieldDefault(v, f)),
{
    let ghost start = errors@;
    let mut j: usize = 0;
    while j < es.len()
        invariant
            j <= es.len(),
            errors@ == start + es@.take(j as int).map_values(|f: usize| SchemaPlanError::VariantFieldDefault(v, f)),
        decreases es.len() - j,
    {
        errors.push(SchemaPlanError::VariantFieldDefault(v, es[j]));
        j = j + 1;
        assert(errors@ =~= start + es@.take(j as int).map_values(|f: usize| SchemaPlanError::VariantFieldDefault(v, f)));
    }
    assert(es@.take(es.len() as int) =~= es@);
}

proof fn lemma_variant_plan_errors<T, E>(v: SchemaVariant<T, E>, r: Result<VariantPlan<T, E>, Vec<usize>>)
    requires
        variant_plan_ok(v, r),
    ensures
        match v.2 {
            SchemaFields::Named(fs) => match r {
                Err(es) => es@ == field_errors(fs@, fs@.len() as int) && es@.len() > 0,
                Ok(_) => field_errors(fs@, fs@.len() as int).len() == 0,
            },
            _ => r is Ok,
        },
{
}

fn plan_variants<T, E>(vs: Vec<SchemaVariant<T, E>>) -> (r: Result<Vec<VariantPlan<T, E>>, Vec<SchemaPlanError>>)
    requires
        forall|i: int| 0 <= i < vs@.len() ==> variant_fields_named(#[trigger] vs@[i]),
    ensures
        ({
            let errors = variant_plan_errors(vs@, vs@.len() as int);
            if errors.len() > 0 {
                r matches Err(es) && es@ == errors
            } else {
                r matches Ok(ps) && ps@.len() == vs@.len()
                    && forall|i: int| 0 <= i < vs@.len() ==> variant_plan_ok(vs@[i], Ok(#[trigger] ps@[i]))
            }
        }),
{
    let ghost orig = vs@;
    let n = vs.len();
    let mut rest = vs;
    let mut errors: Vec<SchemaPlanError> = Vec::new();
    let mut plans: Vec<VariantPlan<T, E>> = Vec::new();
    let mut i: usize = 0;
    while i < n
        invariant
            n == orig.len(),
            i <= n,
            forall|k: int| 0 <= k < orig.len() ==> variant_fields_named(#[trigger] orig[k]),
            rest@ == orig.skip(i as int),
            errors@ == variant_plan_errors(orig, i as int),
            errors@.len() == 0 ==> {
                &&& plans@.len() == i
                &&& forall|k: int| 0 <= k < i ==> variant_plan_ok(orig[k], Ok(#[trigger] plans@[k]))
            },
        decreases n - i,
    {
        let v = rest.remove(0);
        assert(v == orig[i as int]);
        assert(variant_fields_named(orig[i as int]));
        let r = plan_variant(v);
        proof {
            lemma_variant_plan_errors(orig[i as int], r);
        }
        match r {
            Ok(p) => {
                plans.push(p);
            },
            Err(es) => {
                append_variant_errors(&mut errors, i, &es);
            },
        }
        proof {
            match orig[i as int].2 {
                SchemaFields::Named(fs) => {
                    if r is Ok {
                        assert(field_errors(fs@, fs@.len() as int).map_values(
                            |f: usize| SchemaPlanError::VariantFieldDefault(i, f),
                        ) =~= Seq::<SchemaPlanError>::empty());
                        assert(errors@ =~= variant_plan_errors(orig, i + 1));
                    }
                },
                _ => {},
            }
        }
        i = i + 1;
        assert(rest@ =~= orig.skip(i as int));
    }
    if errors.len() > 0 {
        Err(errors)
    } else {
        Ok(plans)
    }
}

/// Decides what the `ToSchema` derive generates for a type named `ident`,
/// with doc attributes among `attrs`, these generic parameters, and the
/// shape that the shape checks found: an object of its fields, a string
/// enumeration of its variants' names, or one of its variants' schemas.
/// Every field whose default names no path is reported.
pub fn plan_schema<T, E, C>(
    ident: String,
    attrs: &Vec<Attr>,
    params: Vec<GenericParam<T, C>>,
    props: SchemaProperties<VariantInfo<E>, SchemaField<T, E>>,
) -> (r: Result<SchemaPlan<T, E, C>, Vec<SchemaPlanError>>)
    requires
        properties_named(props),
    ensures
        schema_plan_ok(ident@, attrs@, params@, props, r),
{
    let description = description_if_any(attrs);
    match props {
        SchemaProperties::NamedStruct(fs) => {
            match plan_fields(fs) {
                Err(es) => Err(struct_errors(es)),
                Ok(properties) => {
                    let slots = plan_title(params);
                    Ok(SchemaPlan::Object { title: TitlePlan { name: ident, slots }, description, properties })
                },
            }
        },
        SchemaProperties::OnlyUnitEnum(us) => {
            let ghost orig = us@;
            let n = us.len();
            let mut rest = us;
            let mut enumeration: Vec<String> = Vec::new();
            let mut i: usize = 0;
            while i < n
                invariant
                    n == orig.len(),
                    i <= n,
                    rest@ == orig.skip(i as int),
                    enumeration@.len() == i,
                    forall|k: int| 0 <= k < i ==> (#[trigger] enumeration@[k])@ == variant_name(orig[k].0, orig[k].1@),
                decreases n - i,
            {
                let (info, vattrs) = rest.remove(0);
                let name = name_of_variant(info, &vattrs);
                enumeration.push(name);
                i = i + 1;
                assert(rest@ =~= orig.skip(i as int));
            }
            Ok(SchemaPlan::StringEnum { title: ident, description, enumeration })
        },
        SchemaProperties::NormalEnum(vs) => {
            match plan_variants(vs) {
                Err(es) => Err(es),
                Ok(variants) => {
                    let slots = plan_title(params);
                    Ok(SchemaPlan::OneOf { title: TitlePlan { name: ident, slots }, description, variants })
                },
            }
        },
    }
}

/// How a field of a struct deriving `ToParameters` that is not flattened
/// becomes a parameter; it is required exactly when its type is.
pub struct ParameterPlan<T, E> {
    pub name: String,
    pub ty: T,
    pub description: Option<String>,
    pub default: Option<DefaultExpr<String, E>>,
    /// Whether the parameter's schema is written out in place, to carry the
    /// default, rather than referred to.
    pub inline: bool,
}

/// How a field shows among the parameters of the struct that holds it.
pub enum ParameterFieldPlan<T, E> {
    /// The parameters of the field's own type are added.
    Flatten(T),
    /// The field is one parameter.
    Parameter(ParameterPlan<T, E>),
}

/// The plan of a field as a parameter: flattened fields add their type's
/// parameters; any other field is a parameter under its chosen name, whose
/// schema is written out in place exactly when it has a default.
pub open spec fn parameter_plan_ok<T, E>(f: SchemaField<T, E>, r: Result<ParameterFieldPlan<T, E>, DefaultExprError>) -> bool {
    if flattened(f) {
        r == Ok::<ParameterFieldPlan<T, E>, DefaultExprError>(ParameterFieldPlan::Flatten(f.ty))
    } else {
        match field_default(f) {
            Err(e) => r == Err::<ParameterFieldPlan<T, E>, DefaultExprError>(e),
            Ok(d) => r matches Ok(ParameterFieldPlan::Parameter(p)) && {
                &&& p.name@ == chosen_name(f.schema.rename, serde_attrs(f.attrs@).0, ident_text(f.ident))
                &&& p.ty == f.ty
                &&& opt_text(p.description) == described(description_of(f.attrs@))
                &&& default_expr_view(Ok(p.default)) == Ok::<Option<DefaultExpr<Seq<char>, E>>, DefaultExprError>(d)
                &&& p.inline == (d is Some)
            },
        }
    }
}

/// Plans how one named field of a struct deriving `ToParameters` shows.
pub fn plan_parameter<T, E>(field: SchemaField<T, E>) -> (r: Result<ParameterFieldPlan<T, E>, DefaultExprError>)
    requires
        field.ident is Some,
    ensures
        parameter_plan_ok(field, r),
{
    let ghost f = field;
    let SchemaField { ident, attrs, schema, ty } = field;
    let serde = SerdeAttr::new(&attrs);
    let SchemaAttr { rename: schema_rename, flatten: schema_flatten, default: schema_default } = schema;
    if serde.flatten || schema_flatten {
        return Ok(ParameterFieldPlan::Flatten(ty));
    }
    let SerdeAttr { rename: serde_rename, flatten: _, default: serde_default } = serde;
    let name = match schema_rename {
        Some(s) => s,
        None => match serde_rename {
            Some(s) => s,
            None => match ident {
                Some(i) => i,
                None => String::new(),
            },
        },
    };
    let default = match generate_default_expr(serde_default, schema_default) {
        Ok(d) => d,
        Err(e) => {
            return Err(e);
        },
    };
    let description = description_if_any(&attrs);
    let inline = default.is_some();
    proof {
        assert(flag_text(serde_default) == serde_attrs(f.attrs@).2);
    }
    Ok(ParameterFieldPlan::Parameter(ParameterPlan { name, ty, description, default, inline }))
}

/// The parameters of a struct deriving `ToParameters`: every field's plan
/// when none fails, else the positions of all that fail.
pub open spec fn parameters_plan_ok<T, E>(fs: Seq<SchemaField<T, E>>, r: Result<Vec<ParameterFieldPlan<T, E>>, Vec<usize>>) -> bool {
    let errors = field_errors(fs, fs.len() as int);
    if errors.len() > 0 {
        r matches Err(es) && es@ == errors
    } else {
        r matches Ok(ps) && ps@.len() == fs.len()
            && forall|i: int| 0 <= i < fs.len() ==> parameter_plan_ok(fs[i], Ok(#[trigger] ps@[i]))
    }
}

/// Plans the parameters of a struct deriving `ToParameters` from its named
/// fields, reporting every field whose default names no path.
pub fn plan_parameters<T, E>(fields: Vec<SchemaField<T, E>>) -> (r: Result<Vec<ParameterFieldPlan<T, E>>, Vec<usize>>)
    requires
        all_named(fields@),
    ensures
        parameters_plan_ok(fields@, r),
{
    let ghost orig = fields@;
    let n = fields.len();
    let mut rest = fields;
    let mut errors: Vec<usize> = Vec::new();
    let mut plans: Vec<ParameterFieldPlan<T, E>> = Vec::new();
    let mut i: usize = 0;
    while i < n
        invariant
            n == orig.len(),
            i <= n,
            all_named(orig),
            rest@ == orig.skip(i as int),
            errors@ == field_errors(orig, i as int),
            errors@.len() == 0 ==> {
                &&& plans@.len() == i
                &&& forall|k: int| 0 <= k < i ==> parameter_plan_ok(orig[k], Ok(#[trigger] plans@[k]))
            },
        decreases n - i,
    {
        let f = rest.remove(0);
        assert(f == orig[i as int]);
        let r = plan_parameter(f);
        match r {
            Ok(p) => {
                plans.push(p);
            },
            Err(_) => {
                errors.push(i);
            },
        }
        i = i + 1;
        assert(rest@ =~= orig.skip(i as int));
    }
    if errors.len() > 0 {
        Err(errors)
    } else {
        Ok(plans)
    }
}

} // verus!
