//! Responses with several statuses, and what the `MultiResponse` derive
//! generates for an enum: the status each variant answers with and the
//! response type it carries.

use vstd::prelude::*;
use std::collections::{BTreeMap, BTreeSet};
use crate::api_doc::{single_responses, SingleResponse};
use crate::openapi_doc::{responses_wf, ResponseDoc};
use crate::schema::{registry_grows, SchemaRegistry};
use crate::shape::{extract_single_unnamed_field, extract_variants, single_unnamed_spec, variants_spec, Data, ShapeError, Variant};
use crate::status_attr::{extract_status_code, status_scan, StatusAttrError};

verus! {

/// A response type that answers with one of several statuses.
pub trait MultiResponse {
    /// Its responses by status.
    fn responses(reg: &mut SchemaRegistry) -> (m: BTreeMap<u16, ResponseDoc>)
        requires
            old(reg).wf(),
        ensures
            registry_grows(*old(reg), *final(reg)),
            responses_wf(m@),
    ;
}

/// A type with one status answers with that status alone.
impl<T: SingleResponse> MultiResponse for T {
    fn responses(reg: &mut SchemaRegistry) -> (m: BTreeMap<u16, ResponseDoc>)
        ensures
            m@.dom() == set![T::status_code_spec()],
            T::is_response(*old(reg), m@[T::status_code_spec()].view_doc()),
    {
        single_responses::<T>(reg)
    }
}

/// A variant of a multi-response enum: the variant as the caller carries
/// it, its status and the type of its one field.
pub struct ResponseVariantPlan<V, T> {
    pub variant: V,
    pub status: u16,
    pub ty: T,
}

/// Why the `MultiResponse` derive refuses an enum.
#[derive(Clone, Copy, Debug, PartialEq, Eq, Structural)]
pub enum MultiResponseError {
    /// `#[multi_response(error = ...)]` is missing.
    MissingErrorType,
    /// The type is not an enum with variants.
    Shape(ShapeError),
    /// A `#[status = ...]` attribute of the variant at this position is refused.
    Status(usize, StatusAttrError),
    /// The variant at this position has no `#[status = ...]`.
    MissingStatus(usize),
    /// The variant at this position does not have exactly one unnamed field.
    Field(usize, ShapeError),
}

/// The statuses taken by the first `k` variants.
pub open spec fn codes_after<V, T>(vs: Seq<Variant<V, T>>, k: int) -> Set<u16>
    decreases k,
{
    if k <= 0 {
        Set::empty()
    } else {
        status_scan(vs[k - 1].attrs@, codes_after(vs, k - 1)).1
    }
}

/// The scan of the attributes of variant `k` for its status.
pub open spec fn variant_scan<V, T>(vs: Seq<Variant<V, T>>, k: int) -> (Option<u16>, Set<u16>, Seq<StatusAttrError>) {
    status_scan(vs[k].attrs@, codes_after(vs, k))
}

/// The errors of variant `k`: those of its status attributes; else a
/// missing status; else a wrong number or kind of fields.
pub open spec fn variant_errors_of<V, T>(vs: Seq<Variant<V, T>>, k: int) -> Seq<MultiResponseError> {
    let scan = variant_scan(vs, k);
    if scan.2.len() > 0 {
        scan.2.map_values(|e: StatusAttrError| MultiResponseError::Status(k as usize, e))
    } else if scan.0 is None {
        seq![MultiResponseError::MissingStatus(k as usize)]
    } else {
        match single_unnamed_spec(vs[k].fields) {
            Err(e) => seq![MultiResponseError::Field(k as usize, e)],
            Ok(_) => Seq::empty(),
        }
    }
}

/// The errors of the first `n` variants, in order.
pub open spec fn response_errors<V, T>(vs: Seq<Variant<V, T>>, n: int) -> Seq<MultiResponseError>
    decreases n,
{
    if n <= 0 {
        Seq::empty()
    } else {
        response_errors(vs, n - 1) + variant_errors_of(vs, n - 1)
    }
}

/// Whether `p` is the plan of variant `k`.
pub open spec fn response_variant_ok<V, T>(p: ResponseVariantPlan<V, T>, vs: Seq<Variant<V, T>>, k: int) -> bool {
    &&& p.variant == vs[k].info
    &&& variant_scan(vs, k).0 == Some(p.status)
    &&& single_unnamed_spec(vs[k].fields) == Ok::<T, ShapeError>(p.ty)
}

/// What the derive generates for an enum with this error type (if given)
/// and shape, or why it refuses it: the error type must be given, the type
/// must be an enum with variants, and every variant must have one status,
/// not taken by an earlier variant, and one unnamed field. All errors of
/// the variants are reported.
pub open spec fn multi_response_ok<E, V, T>(
    error: Option<E>,
    data: Data<V, T>,
    r: Result<(E, Vec<ResponseVariantPlan<V, T>>), Vec<MultiResponseError>>,
) -> bool {
    match error {
        None => r matches Err(es) && es@ == seq![MultiResponseError::MissingErrorType],
        Some(err) => match variants_spec(data) {
            Err(e) => r matches Err(es) && es@ == seq![MultiResponseError::Shape(e)],
            Ok(vs) => {
                let errors = response_errors(vs, vs.len() as int);
                if errors.len() > 0 {
                    r matches Err(es) && es@ == errors
                } else {
                    r matches Ok((e, ps)) && e == err && ps@.len() == vs.len()
                        && forall|k: int| 0 <= k < vs.len() ==> response_variant_ok(#[trigger] ps@[k], vs, k)
                }
            },
        },
    }
}

/// Scanning a variant's attributes keeps the statuses taken before, and a
/// status it finds was not taken before and is taken after.
proof fn lemma_status_scan_fresh(attrs: Seq<crate::attr::Attr>, codes: Set<u16>)
    ensures
        codes.subset_of(status_scan(attrs, codes).1),
        status_scan(attrs, codes).0 matches Some(c) ==> !codes.contains(c) && status_scan(attrs, codes).1.contains(c),
    decreases attrs.len(),
{
    if attrs.len() > 0 {
        lemma_status_scan_fresh(attrs.drop_last(), codes);
    }
}

fn append_status_errors(errors: &mut Vec<MultiResponseError>, v: usize, es: &Vec<StatusAttrError>)
    ensures
        final(errors)@ == old(errors)@ + es@.map_values(|e: StatusAttrError| MultiResponseError::Status(v, e)),
{
    let ghost start = errors@;
    let mut j: usize = 0;
    while j < es.len()
        invariant
            j <= es.len(),
            errors@ == start + es@.take(j as int).map_values(|e: StatusAttrError| MultiResponseError::Status(v, e)),
        decreases es.len() - j,
    {
        errors.push(MultiResponseError::Status(v, es[j]));
        j = j + 1;
        assert(errors@ =~= start + es@.take(j as int).map_values(|e: StatusAttrError| MultiResponseError::Status(v, e)));
    }
    assert(es@.take(es.len() as int) =~= es@);
}

fn one(e: MultiResponseError) -> (v: Vec<MultiResponseError>)
    ensures
        v@ == seq![e],
{
    let mut v = Vec::new();
    v.push(e);
    assert(v@ =~= seq![e]);
    v
}

/// Decides what the `MultiResponse` derive generates for an enum with the
/// error type of `#[multi_response(error = ...)]`, if given, and this
/// shape. The statuses of the variants it accepts are pairwise distinct.
pub fn plan_multi_response<E, V, T>(
    error: Option<E>,
    data: Data<V, T>,
) -> (r: Result<(E, Vec<ResponseVariantPlan<V, T>>), Vec<MultiResponseError>>)
    ensures
        multi_response_ok(error, data, r),
        r matches Ok((_, ps)) ==> forall|i: int, j: int| 0 <= i < j < ps@.len() ==> (#[trigger] ps@[i]).status != (#[trigger] ps@[j]).status,
{
    let err = match error {
        None => {
            return Err(one(MultiResponseError::MissingErrorType));
        },
        Some(e) => e,
    };
    let variants = match extract_variants(data) {
        Err(e) => {
            return Err(one(MultiResponseError::Shape(e)));
        },
        Ok(vs) => vs,
    };
    let ghost vs = variants@;
    let n = variants.len();
    let mut rest = variants;
    let mut codes: BTreeSet<u16> = BTreeSet::new();
    let mut errors: Vec<MultiResponseError> = Vec::new();
    let mut plans: Vec<ResponseVariantPlan<V, T>> = Vec::new();
    let mut i: usize = 0;
    while i < n
        invariant
            n == vs.len(),
            i <= n,
            rest@ == vs.skip(i as int),
            codes@ == codes_after(vs, i as int),
            errors@ == response_errors(vs, i as int),
            errors@.len() == 0 ==> {
                &&& plans@.len() == i
                &&& forall|k: int| 0 <= k < i ==> response_variant_ok(#[trigger] plans@[k], vs, k)
                &&& forall|k: int| 0 <= k < i ==> codes@.contains(#[trigger] plans@[k].status)
                &&& forall|a: int, b: int| 0 <= a < b < i ==> (#[trigger] plans@[a]).status != (#[trigger] plans@[b]).status
            },
        decreases n - i,
    {
        let v = rest.remove(0);
        assert(v == vs[i as int]);
        let Variant { info, attrs, fields } = v;
        let ghost before = codes@;
        proof {
            lemma_status_scan_fresh(attrs@, before);
        }
        let found = extract_status_code(&attrs, &mut codes);
        match found {
            Err(es) => {
                append_status_errors(&mut errors, i, &es);
            },
            Ok(None) => {
                errors.push(MultiResponseError::MissingStatus(i));
            },
            Ok(Some(c)) => {
                match extract_single_unnamed_field(fields) {
                    Err(e) => {
                        errors.push(MultiResponseError::Field(i, e));
                    },
                    Ok(t) => {
                        plans.push(ResponseVariantPlan { variant: info, status: c, ty: t });
                        assert(errors@ =~= response_errors(vs, i + 1));
                    },
                }
            },
        }
        assert(errors@ =~= response_errors(vs, i + 1));
        i = i + 1;
        assert(rest@ =~= vs.skip(i as int));
    }
    if errors.len() > 0 {
        Err(errors)
    } else {
        Ok((err, plans))
    }
}

} // verus!
