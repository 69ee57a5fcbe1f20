//! The shape of the type a derive macro is applied to, and the checks the
//! derives make on it before they generate anything.

use vstd::prelude::*;
use crate::attr::Attr;
use crate::docs::{description_of, extract_description};

verus! {

/// The fields of a struct or of an enum variant; each field is carried as
/// the caller gave it.
pub enum Fields<F> {
    Named(Vec<F>),
    Unnamed(Vec<F>),
    Unit,
}

/// An enum variant: what the caller keeps of it, its attributes, its fields.
pub struct Variant<V, F> {
    pub info: V,
    pub attrs: Vec<Attr>,
    pub fields: Fields<F>,
}

/// The type a derive is applied to.
pub enum Data<V, F> {
    Struct(Fields<F>),
    Enum(Vec<Variant<V, F>>),
    Union,
}

/// Why a derive refuses the shape of a type.
#[derive(Clone, Copy, Debug, PartialEq, Eq, Structural)]
pub enum ShapeError {
    /// The derive is for enums only.
    NotEnum,
    /// The enum has no variant.
    NoVariants,
    /// The derive is for structs only.
    NotStruct,
    /// The derive is for structs with named fields only.
    NotNamedStruct,
    /// The struct has no field.
    NoFields,
    /// The variant has no field; it must have one.
    MissingField,
    /// The variant has this many fields beyond the one it may have.
    ExtraFields(usize),
    /// Only a variant with unnamed fields is supported.
    NotUnnamed,
}

/// The variants of an enum that a derive requires to be a non-empty enum.
pub open spec fn variants_spec<V, F>(data: Data<V, F>) -> Result<Seq<Variant<V, F>>, ShapeError> {
    match data {
        Data::Enum(vs) => if vs@.len() == 0 {
            Err(ShapeError::NoVariants)
        } else {
            Ok(vs@)
        },
        _ => Err(ShapeError::NotEnum),
    }
}

/// The variants of an enum; structs and unions are refused, and so is an
/// enum without variants.
pub fn extract_variants<V, F>(data: Data<V, F>) -> (r: Result<Vec<Variant<V, F>>, ShapeError>)
    ensures
        match r {
            Ok(vs) => variants_spec(data) == Ok::<Seq<Variant<V, F>>, ShapeError>(vs@),
            Err(e) => variants_spec(data) == Err::<Seq<Variant<V, F>>, ShapeError>(e),
        },
{
    match data {
        Data::Enum(vs) => if vs.len() == 0 {
            Err(ShapeError::NoVariants)
        } else {
            Ok(vs)
        },
        _ => Err(ShapeError::NotEnum),
    }
}

/// The fields of a struct with named fields that a derive requires.
pub open spec fn named_fields_spec<V, F>(data: Data<V, F>) -> Result<Seq<F>, ShapeError> {
    match data {
        Data::Struct(Fields::Named(fs)) => if fs@.len() == 0 {
            Err(ShapeError::NoFields)
        } else {
            Ok(fs@)
        },
        Data::Struct(_) => Err(ShapeError::NotNamedStruct),
        _ => Err(ShapeError::NotStruct),
    }
}

/// The named fields of a struct; enums, unions, tuple and unit structs are
/// refused, and so is a struct without fields.
pub fn extract_named_struct_fields<V, F>(data: Data<V, F>) -> (r: Result<Vec<F>, ShapeError>)
    ensures
        match r {
            Ok(fs) => named_fields_spec(data) == Ok::<Seq<F>, ShapeError>(fs@),
            Err(e) => named_fields_spec(data) == Err::<Seq<F>, ShapeError>(e),
        },
{
    match data {
        Data::Struct(Fields::Named(fs)) => if fs.len() == 0 {
            Err(ShapeError::NoFields)
        } else {
            Ok(fs)
        },
        Data::Struct(_) => Err(ShapeError::NotNamedStruct),
        _ => Err(ShapeError::NotStruct),
    }
}

/// The single unnamed field of a variant that a derive requires.
pub open spec fn single_unnamed_spec<F>(fields: Fields<F>) -> Result<F, ShapeError> {
    match fields {
        Fields::Unnamed(fs) => if fs@.len() == 0 {
            Err(ShapeError::MissingField)
        } else if fs@.len() > 1 {
            Err(ShapeError::ExtraFields((fs@.len() - 1) as usize))
        } else {
            Ok(fs@[0])
        },
        _ => Err(ShapeError::NotUnnamed),
    }
}

/// The one field of a variant written `Variant(Type)`.
pub fn extract_single_unnamed_field<F>(fields: Fields<F>) -> (r: Result<F, ShapeError>)
    ensures
        r == single_unnamed_spec(fields),
{
    match fields {
        Fields::Unnamed(fs) => {
            let mut fs = fs;
            if fs.len() == 0 {
                Err(ShapeError::MissingField)
            } else if fs.len() > 1 {
                Err(ShapeError::ExtraFields(fs.len() - 1))
            } else {
                Ok(fs.remove(0))
            }
        },
        _ => Err(ShapeError::NotUnnamed),
    }
}

/// The fields of a variant of an enum described by a schema.
pub enum SchemaFields<F> {
    Unit,
    Unnamed(F),
    Named(Vec<F>),
}

/// How a type is described by a schema.
pub enum SchemaProperties<V, F> {
    /// A struct with named fields: an object.
    NamedStruct(Vec<F>),
    /// An enum of undocumented unit variants: a string enumeration.
    OnlyUnitEnum(Vec<(V, Vec<Attr>)>),
    /// Any other enum: one of the variants' schemas.
    NormalEnum(Vec<(V, Vec<Attr>, SchemaFields<F>)>),
}

/// Why the `ToSchema` derive refuses a type.
#[derive(Clone, Copy, Debug, PartialEq, Eq, Structural)]
pub enum SchemaShapeError {
    /// A struct with unnamed fields.
    UnnamedStruct,
    /// A unit struct.
    UnitStruct,
    /// A struct without fields.
    NoFields,
    /// An enum without variants.
    NoVariants,
    /// A union.
    Union,
    /// The variant at this position has named fields, but none.
    EmptyNamedVariant(usize),
    /// The variant at this position has unnamed fields, but not exactly one.
    UnnamedVariantNotOne(usize),
}

/// Whether a variant is a unit variant without documentation.
pub open spec fn bare_unit<V, F>(v: Variant<V, F>) -> bool {
    &&& description_of(v.attrs@).len() == 0
    &&& v.fields is Unit
}

/// The error of a variant of an enum that is not all bare unit variants.
pub open spec fn variant_error<V, F>(v: Variant<V, F>, i: usize) -> Option<SchemaShapeError> {
    match v.fields {
        Fields::Named(fs) => if fs@.len() == 0 { Some(SchemaShapeError::EmptyNamedVariant(i)) } else { None },
        Fields::Unnamed(fs) => if fs@.len() != 1 { Some(SchemaShapeError::UnnamedVariantNotOne(i)) } else { None },
        Fields::Unit => None,
    }
}

/// The errors of the first `n` variants, in order.
pub open spec fn variant_errors<V, F>(vs: Seq<Variant<V, F>>, n: int) -> Seq<SchemaShapeError>
    decreases n,
{
    if n <= 0 {
        Seq::empty()
    } else {
        let before = variant_errors(vs, n - 1);
        match variant_error(vs[n - 1], (n - 1) as usize) {
            Some(e) => before.push(e),
            None => before,
        }
    }
}

/// The schema fields of a variant that passed the checks.
pub open spec fn schema_fields_of<V, F>(v: Variant<V, F>, s: SchemaFields<F>) -> bool {
    match (v.fields, s) {
        (Fields::Unit, SchemaFields::Unit) => true,
        (Fields::Unnamed(fs), SchemaFields::Unnamed(f)) => fs@.len() == 1 && f == fs@[0],
        (Fields::Named(fs), SchemaFields::Named(gs)) => fs@ == gs@,
        _ => false,
    }
}

/// The classification of a type for its schema: which kind of schema it
/// gets, or the errors that refuse it.
pub open spec fn schema_properties_ok<V, F>(data: Data<V, F>, r: Result<SchemaProperties<V, F>, Vec<SchemaShapeError>>) -> bool {
    match data {
        Data::Struct(Fields::Named(fs)) => if fs@.len() == 0 {
            r matches Err(es) && es@ == seq![SchemaShapeError::NoFields]
        } else {
            r matches Ok(SchemaProperties::NamedStruct(gs)) && gs@ == fs@
        },
        Data::Struct(Fields::Unnamed(_)) => r matches Err(es) && es@ == seq![SchemaShapeError::UnnamedStruct],
        Data::Struct(Fields::Unit) => r matches Err(es) && es@ == seq![SchemaShapeError::UnitStruct],
        Data::Union => r matches Err(es) && es@ == seq![SchemaShapeError::Union],
        Data::Enum(vs) => if vs@.len() == 0 {
            r matches Err(es) && es@ == seq![SchemaShapeError::NoVariants]
        } else if forall|i: int| 0 <= i < vs@.len() ==> bare_unit(#[trigger] vs@[i]) {
            r matches Ok(SchemaProperties::OnlyUnitEnum(us)) && us@.len() == vs@.len()
                && forall|i: int| 0 <= i < vs@.len() ==> (#[trigger] us@[i]).0 == vs@[i].info && us@[i].1 == vs@[i].attrs
        } else if variant_errors(vs@, vs@.len() as int).len() > 0 {
            r matches Err(es) && es@ == variant_errors(vs@, vs@.len() as int)
        } else {
            r matches Ok(SchemaProperties::NormalEnum(ns)) && ns@.len() == vs@.len()
                && forall|i: int| 0 <= i < vs@.len() ==> {
                    &&& (#[trigger] ns@[i]).0 == vs@[i].info
                    &&& ns@[i].1 == vs@[i].attrs
                    &&& schema_fields_of(vs@[i], ns@[i].2)
                }
        },
    }
}

fn one_error(e: SchemaShapeError) -> (v: Vec<SchemaShapeError>)
    ensures
        v@ == seq![e],
{
    let mut v = Vec::new();
    v.push(e);
    assert(v@ =~= seq![e]);
    v
}

/// Whether every variant is a unit variant without documentation.
fn all_bare_units<V, F>(vs: &Vec<Variant<V, F>>) -> (b: bool)
    ensures
        b == forall|i: int| 0 <= i < vs@.len() ==> bare_unit(#[trigger] vs@[i]),
{
    let mut i: usize = 0;
    while i < vs.len()
        invariant
            i <= vs.len(),
            forall|k: int| 0 <= k < i ==> bare_unit(#[trigger] vs@[k]),
        decreases vs.len() - i,
    {
        let v = &vs[i];
        let d = extract_description(&v.attrs);
        if d.unicode_len() != 0 {
            assert(!bare_unit(vs@[i as int]));
            return false;
        }
        match &v.fields {
            Fields::Unit => {},
            _ => {
                assert(!bare_unit(vs@[i as int]));
                return false;
            },
        }
        i = i + 1;
    }
    true
}

/// Decides how the `ToSchema` derive describes a type: an object for a
/// struct with named fields, a string enumeration for an enum of bare unit
/// variants, one-of for other enums; every other shape is refused, and for
/// an enum every bad variant is reported.
pub fn extract_schema_properties<V, F>(data: Data<V, F>) -> (r: Result<SchemaProperties<V, F>, Vec<SchemaShapeError>>)
    requires
        data matches Data::Enum(vs) ==> vs@.len() < usize::MAX,
    ensures
        schema_properties_ok(data, r),
{
    let ghost d = data;
    match data {
        Data::Struct(Fields::Named(fs)) => {
            if fs.len() == 0 {
                Err(one_error(SchemaShapeError::NoFields))
            } else {
                Ok(SchemaProperties::NamedStruct(fs))
            }
        },
        Data::Struct(Fields::Unnamed(_)) => Err(one_error(SchemaShapeError::UnnamedStruct)),
        Data::Struct(Fields::Unit) => Err(one_error(SchemaShapeError::UnitStruct)),
        Data::Union => Err(one_error(SchemaShapeError::Union)),
        Data::Enum(vs) => {
            if vs.len() == 0 {
                return Err(one_error(SchemaShapeError::NoVariants));
            }
            let ghost orig = vs@;
            let n = vs.len();
            if all_bare_units(&vs) {
                let mut us: Vec<(V, Vec<Attr>)> = Vec::new();
                let mut rest = vs;
                let mut i: usize = 0;
                while i < n
                    invariant
                        n == orig.len(),
                        i <= n,
                        rest@ == orig.skip(i as int),
                        us@.len() == i,
                        forall|k: int| 0 <= k < i ==> (#[trigger] us@[k]).0 == orig[k].info && us@[k].1 == orig[k].attrs,
                    decreases n - i,
                {
                    let v = rest.remove(0);
                    us.push((v.info, v.attrs));
                    i = i + 1;
                    assert(rest@ =~= orig.skip(i as int));
                }
                return Ok(SchemaProperties::OnlyUnitEnum(us));
            }
            let mut errors: Vec<SchemaShapeError> = Vec::new();
            let mut ns: Vec<(V, Vec<Attr>, SchemaFields<F>)> = Vec::new();
            let mut rest = vs;
            let mut i: usize = 0;
            while i < n
                invariant
                    n == orig.len(),
                    n < usize::MAX,
                    i <= n,
                    rest@ == orig.skip(i as int),
                    errors@ == variant_errors(orig, i as int),
                    errors@.len() == 0 ==> {
                        &&& ns@.len() == i
                        &&& forall|k: int| 0 <= k < i ==> {
                            &&& (#[trigger] ns@[k]).0 == orig[k].info
                            &&& ns@[k].1 == orig[k].attrs
                            &&& schema_fields_of(orig[k], ns@[k].2)
                        }
                    },
                decreases n - i,
            {
                let v = rest.remove(0);
                assert(v == orig[i as int]);
                let Variant { info, attrs, fields } = v;
                match fields {
                    Fields::Named(fs) => {
                        if fs.len() == 0 {
                            errors.push(SchemaShapeError::EmptyNamedVariant(i));
                        } else {
                            ns.push((info, attrs, SchemaFields::Named(fs)));
                        }
                    },
                    Fields::Unnamed(fs) => {
                        let mut fs = fs;
                        if fs.len() != 1 {
                            errors.push(SchemaShapeError::UnnamedVariantNotOne(i));
                        } else {
                            let f = fs.remove(0);
                            ns.push((info, attrs, SchemaFields::Unnamed(f)));
                        }
                    },
                    Fields::Unit => {
                        ns.push((info, attrs, SchemaFields::Unit));
                    },
                }
                i = i + 1;
                assert(rest@ =~= orig.skip(i as int));
            }
            if errors.len() > 0 {
                Err(errors)
            } else {
                Ok(SchemaProperties::NormalEnum(ns))
            }
        },
    }
}

} // verus!
