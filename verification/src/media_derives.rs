//! What the derives for bodies of several media types generate: the
//! `MultiRequestMediaType` and `MultiResponseMediaType` enums, whose every
//! variant carries one body type, and `Multipart` structs, whose every field
//! is a part of a `multipart/form-data` body.

use vstd::prelude::*;
use crate::attr::Attr;
use crate::docs::description_of;
use crate::schema_derive::{described, description_if_any, ident_text};
use crate::serde_attr::{opt_text, serde_rename, serde_rename_of};
use crate::shape::{
    extract_named_struct_fields, extract_single_unnamed_field, extract_variants, named_fields_spec,
    single_unnamed_spec, variants_spec, Data, ShapeError, Variant,
};
use crate::status_attr::{extract_status_code_value, status_value, StatusValueError};

verus! {

/// Why a derive for an enum of media types refuses it.
#[derive(Clone, Copy, Debug, PartialEq, Eq, Structural)]
pub enum MediaEnumError {
    /// The enum attribute's `error = ...` is missing.
    MissingErrorType,
    /// The status of `#[multi_response_media_type(status = ...)]` is refused.
    Status(StatusValueError),
    /// The type is not an enum with variants.
    Shape(ShapeError),
    /// The variant at this position does not have exactly one unnamed field.
    Field(usize, ShapeError),
}

/// The variants' errors among the first `n` variants, in order.
pub open spec fn media_variant_errors<V, T>(vs: Seq<Variant<V, T>>, n: int) -> Seq<MediaEnumError>
    decreases n,
{
    if n <= 0 {
        Seq::empty()
    } else {
        let before = media_variant_errors(vs, n - 1);
        match single_unnamed_spec(vs[n - 1].fields) {
            Err(e) => before.push(MediaEnumError::Field((n - 1) as usize, e)),
            Ok(_) => before,
        }
    }
}

/// Whether `ps` holds each variant with the type of its one field, or `es`
/// every variant that has not exactly one unnamed field.
pub open spec fn media_variants_ok<V, T>(vs: Seq<Variant<V, T>>, r: Result<Vec<(V, T)>, Vec<MediaEnumError>>) -> bool {
    let errors = media_variant_errors(vs, vs.len() as int);
    if errors.len() > 0 {
        r matches Err(es) && es@ == errors
    } else {
        r matches Ok(ps) && ps@.len() == vs.len()
            && forall|k: int| 0 <= k < vs.len() ==> {
                &&& (#[trigger] ps@[k]).0 == vs[k].info
                &&& single_unnamed_spec(vs[k].fields) == Ok::<T, ShapeError>(ps@[k].1)
            }
    }
}

fn one_media_error(e: MediaEnumError) -> (v: Vec<MediaEnumError>)
    ensures
        v@ == seq![e],
{
    let mut v = Vec::new();
    v.push(e);
    assert(v@ =~= seq![e]);
    v
}

/// Each variant with the type of its one field, or every variant that has
/// not exactly one unnamed field.
fn variant_types<V, T>(variants: Vec<Variant<V, T>>) -> (r: Result<Vec<(V, T)>, Vec<MediaEnumError>>)
    ensures
        media_variants_ok(variants@, r),
{
    let ghost vs = variants@;
    let n = variants.len();
    let mut rest = variants;
    let mut errors: Vec<MediaEnumError> = Vec::new();
    let mut types: Vec<(V, T)> = Vec::new();
    let mut i: usize = 0;
    while i < n
        invariant
            n == vs.len(),
            i <= n,
            rest@ == vs.skip(i as int),
            errors@ == media_variant_errors(vs, i as int),
            errors@.len() == 0 ==> {
                &&& types@.len() == i
                &&& forall|k: int| 0 <= k < i ==> {
                    &&& (#[trigger] types@[k]).0 == vs[k].info
                    &&& single_unnamed_spec(vs[k].fields) == Ok::<T, ShapeError>(types@[k].1)
                }
            },
        decreases n - i,
    {
        let v = rest.remove(0);
        assert(v == vs[i as int]);
        let Variant { info, attrs: _, fields } = v;
        match extract_single_unnamed_field(fields) {
            Err(e) => {
                errors.push(MediaEnumError::Field(i, e));
            },
            Ok(t) => {
                types.push((info, t));
            },
        }
        i = i + 1;
        assert(rest@ =~= vs.skip(i as int));
    }
    if errors.len() > 0 {
        Err(errors)
    } else {
        Ok(types)
    }
}

/// What the `MultiRequestMediaType` derive generates for an enum with the
/// error type of `#[multi_request_media_type(error = ...)]`, if given, and
/// this shape: each variant with its body type, in order; a request is
/// read as the first variant whose media type its content type has.
pub open spec fn multi_request_ok<E, V, T>(error: Option<E>, data: Data<V, T>, r: Result<(E, Vec<(V, T)>), Vec<MediaEnumError>>) -> bool {
    match error {
        None => r matches Err(es) && es@ == seq![MediaEnumError::MissingErrorType],
        Some(err) => match variants_spec(data) {
            Err(e) => r matches Err(es) && es@ == seq![MediaEnumError::Shape(e)],
            Ok(vs) => match r {
                Ok((e, ps)) => e == err && media_variants_ok(vs, Ok(ps)),
                Err(es) => media_variants_ok(vs, Err(es)),
            },
        },
    }
}

/// Decides what the `MultiRequestMediaType` derive generates.
pub fn plan_multi_request_media_type<E, V, T>(error: Option<E>, data: Data<V, T>) -> (r: Result<(E, Vec<(V, T)>), Vec<MediaEnumError>>)
    ensures
        multi_request_ok(error, data, r),
{
    let err = match error {
        None => {
            return Err(one_media_error(MediaEnumError::MissingErrorType));
        },
        Some(e) => e,
    };
    let variants = match extract_variants(data) {
        Err(e) => {
            return Err(one_media_error(MediaEnumError::Shape(e)));
        },
        Ok(vs) => vs,
    };
    match variant_types(variants) {
        Err(es) => Err(es),
        Ok(ps) => Ok((err, ps)),
    }
}

/// What the `MultiResponseMediaType` derive generates for an enum with the
/// error type and status digits of `#[multi_response_media_type(...)]` and
/// this shape: the status (200 when none is written) and each variant with
/// its body type, in order.
pub open spec fn multi_response_media_ok<E, V, T>(
    error: Option<E>,
    status: Option<Seq<char>>,
    data: Data<V, T>,
    r: Result<(E, u16, Vec<(V, T)>), Vec<MediaEnumError>>,
) -> bool {
    match error {
        None => r matches Err(es) && es@ == seq![MediaEnumError::MissingErrorType],
        Some(err) => match status_value(status) {
            Err(e) => r matches Err(es) && es@ == seq![MediaEnumError::Status(e)],
            Ok(code) => match variants_spec(data) {
                Err(e) => r matches Err(es) && es@ == seq![MediaEnumError::Shape(e)],
                Ok(vs) => match r {
                    Ok((e, s, ps)) => e == err && s == code && media_variants_ok(vs, Ok(ps)),
                    Err(es) => media_variants_ok(vs, Err(es)),
                },
            },
        },
    }
}

/// Decides what the `MultiResponseMediaType` derive generates.
pub fn plan_multi_response_media_type<E, V, T>(
    error: Option<E>,
    status: Option<&str>,
    data: Data<V, T>,
) -> (r: Result<(E, u16, Vec<(V, T)>), Vec<MediaEnumError>>)
    ensures
        multi_response_media_ok(error, match status { Some(d) => Some(d@), None => None }, data, r),
{
    let err = match error {
        None => {
            return Err(one_media_error(MediaEnumError::MissingErrorType));
        },
        Some(e) => e,
    };
    let code = match extract_status_code_value(status) {
        Err(e) => {
            return Err(one_media_error(MediaEnumError::Status(e)));
        },
        Ok(c) => c,
    };
    let variants = match extract_variants(data) {
        Err(e) => {
            return Err(one_media_error(MediaEnumError::Shape(e)));
        },
        Ok(vs) => vs,
    };
    match variant_types(variants) {
        Err(es) => Err(es),
        Ok(ps) => Ok((err, code, ps)),
    }
}

/// A named field of a struct deriving `Multipart`.
pub struct MultipartField<T> {
    pub ident: Option<String>,
    pub attrs: Vec<Attr>,
    pub ty: T,
}

/// How a field is read from a multipart body.
pub struct MultipartFieldPlan<T> {
    /// The struct field it fills.
    pub ident: String,
    /// The name of the part it is read from.
    pub part: String,
    pub ty: T,
}

/// What the `Multipart` derive generates for a struct.
pub struct MultipartPlan<T> {
    /// The request body's description, if the struct's doc comments say anything.
    pub description: Option<String>,
    pub fields: Vec<MultipartFieldPlan<T>>,
}

/// Why the `Multipart` derive refuses a struct.
#[derive(Clone, Copy, Debug, PartialEq, Eq, Structural)]
pub enum MultipartError {
    /// The type is not a struct with named fields.
    Shape(ShapeError),
    /// The `serde` attribute at the second position, on the field at the
    /// first, does not parse.
    Serde(usize, usize),
}

/// The errors of the first `n` fields, in order.
pub open spec fn multipart_errors<T>(fs: Seq<MultipartField<T>>, n: int) -> Seq<MultipartError>
    decreases n,
{
    if n <= 0 {
        Seq::empty()
    } else {
        let before = multipart_errors(fs, n - 1);
        match serde_rename_of(fs[n - 1].attrs@) {
            Err(a) => before.push(MultipartError::Serde((n - 1) as usize, a as usize)),
            Ok(_) => before,
        }
    }
}

/// Whether `p` is the plan of field `f`: it fills the field from the part
/// under the field's `serde` name, or its own name.
pub open spec fn multipart_field_ok<T>(p: MultipartFieldPlan<T>, f: MultipartField<T>) -> bool {
    &&& p.ident@ == ident_text(f.ident)
    &&& p.ty == f.ty
    &&& serde_rename_of(f.attrs@) matches Ok(rename) && p.part@ == match rename {
        Some(r) => r,
        None => ident_text(f.ident),
    }
}

/// What the `Multipart` derive generates for a struct with these attributes
/// and shape, or why it refuses it.
pub open spec fn multipart_ok<V, T>(attrs: Seq<Attr>, data: Data<V, MultipartField<T>>, r: Result<MultipartPlan<T>, Vec<MultipartError>>) -> bool {
    match named_fields_spec(data) {
        Err(e) => r matches Err(es) && es@ == seq![MultipartError::Shape(e)],
        Ok(fs) => {
            let errors = multipart_errors(fs, fs.len() as int);
            if errors.len() > 0 {
                r matches Err(es) && es@ == errors
            } else {
                r matches Ok(p) && opt_text(p.description) == described(description_of(attrs))
                    && p.fields@.len() == fs.len()
                    && forall|k: int| 0 <= k < fs.len() ==> multipart_field_ok(#[trigger] p.fields@[k], fs[k])
            }
        },
    }
}

/// Whether every named field of the struct has a name.
pub open spec fn multipart_named<V, T>(data: Data<V, MultipartField<T>>) -> bool {
    match named_fields_spec(data) {
        Ok(fs) => forall|k: int| 0 <= k < fs.len() ==> (#[trigger] fs[k]).ident is Some,
        Err(_) => true,
    }
}

/// Decides what the `Multipart` derive generates for a struct.
pub fn plan_multipart<V, T>(attrs: &Vec<Attr>, data: Data<V, MultipartField<T>>) -> (r: Result<MultipartPlan<T>, Vec<MultipartError>>)
    requires
        multipart_named(data),
    ensures
        multipart_ok(attrs@, data, r),
{
    let named = match extract_named_struct_fields(data) {
        Err(e) => {
            let mut es = Vec::new();
            es.push(MultipartError::Shape(e));
            assert(es@ =~= seq![MultipartError::Shape(e)]);
            return Err(es);
        },
        Ok(fs) => fs,
    };
    let ghost fs = named@;
    let n = named.len();
    let mut rest = named;
    let mut errors: Vec<MultipartError> = Vec::new();
    let mut fields: Vec<MultipartFieldPlan<T>> = Vec::new();
    let mut i: usize = 0;
    while i < n
        invariant
            n == fs.len(),
            i <= n,
            forall|k: int| 0 <= k < fs.len() ==> (#[trigger] fs[k]).ident is Some,
            rest@ == fs.skip(i as int),
            errors@ == multipart_errors(fs, i as int),
            errors@.len() == 0 ==> {
                &&& fields@.len() == i
                &&& forall|k: int| 0 <= k < i ==> multipart_field_ok(#[trigger] fields@[k], fs[k])
            },
        decreases n - i,
    {
        let f = rest.remove(0);
        assert(f == fs[i as int]);
        let MultipartField { ident, attrs: fattrs, ty } = f;
        match serde_rename(&fattrs) {
            Err(a) => {
                errors.push(MultipartError::Serde(i, a));
            },
            Ok(rename) => {
                let ident = match ident {
                    Some(s) => s,
                    None => String::new(),
                };
                let part = match rename {
                    Some(r) => r,
                    None => ident.clone(),
                };
                fields.push(MultipartFieldPlan { ident, part, ty });
            },
        }
        i = i + 1;
        assert(rest@ =~= fs.skip(i as int));
    }
    if errors.len() > 0 {
        Err(errors)
    } else {
        let description = description_if_any(attrs);
        Ok(MultipartPlan { description, fields })
    }
}

} // verus!
