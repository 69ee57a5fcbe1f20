//! What the `SingleResponse` derive generates for a struct: its status, and
//! which fields become response headers and which one is the body.

use vstd::prelude::*;
use crate::attr::Attr;
use crate::docs::{description_of, extract_description};
use crate::header_attr::{
    extract_header_name, header_error_view, header_scan, lemma_header_scan_fresh, names_lookup, HeaderAttrError, HeaderNames,
};
use crate::schema_derive::{described, description_if_any};
use crate::serde_attr::opt_text;
use crate::shape::{Data, Fields};
use crate::status_attr::{extract_status_code_value, status_value, StatusValueError};

verus! {

/// A field of a struct deriving `SingleResponse`: its name (none for a
/// tuple struct), its attributes, and its type as the caller carries it.
pub struct ResponseField<T> {
    pub ident: Option<String>,
    pub attrs: Vec<Attr>,
    pub ty: T,
}

/// How generated code reaches a field: by name, or by position in a tuple
/// struct.
#[derive(Debug)]
pub enum Member {
    Named(String),
    Index(usize),
}

/// Whether `m` reaches the field with this name at this position.
pub open spec fn member_of(m: Member, ident: Option<String>, idx: int) -> bool {
    match (m, ident) {
        (Member::Named(s), Some(i)) => s@ == i@,
        (Member::Index(k), None) => k == idx,
        _ => false,
    }
}

/// A field sent as a response header.
pub struct HeaderPlan<T> {
    pub member: Member,
    pub ty: T,
    /// The normalized header name.
    pub name: String,
    /// The field's description, if its doc comments say anything.
    pub description: Option<String>,
}

/// What the derive generates.
pub enum SingleResponsePlan<T> {
    /// A struct without fields: an empty response with the status.
    Unit { status: u16 },
    /// Every field is a header.
    OnlyHeaders { status: u16, description: String, headers: Vec<HeaderPlan<T>> },
    /// The one field is the body.
    OnlyBody { status: u16, description: String, body: Member, body_ty: T },
    /// The last field is the body, every other field a header.
    BodyAndHeaders { status: u16, description: String, headers: Vec<HeaderPlan<T>>, body: Member, body_ty: T },
}

/// Why the derive refuses a struct.
#[derive(Debug)]
pub enum SingleResponseError {
    /// The status written in `#[single_response(status = ...)]` is refused.
    Status(StatusValueError),
    /// The derive is for structs only.
    NotStruct,
    /// The field at this position is not the last and has no `#[header = ...]`.
    MissingHeader(usize),
    /// A `#[header = ...]` attribute of the field at this position is refused.
    Header(usize, HeaderAttrError),
}

/// The view of an error of a field: the field's position, then the kind of
/// error (that of the header attribute's error, or 5 for a missing header),
/// the attribute's position and, for a duplicate, the name the other field
/// wrote.
pub open spec fn field_error_view(e: SingleResponseError) -> (int, int, int, Seq<char>) {
    match e {
        SingleResponseError::MissingHeader(i) => (i as int, 5, 0, Seq::empty()),
        SingleResponseError::Header(i, h) => {
            let v = header_error_view(h);
            (i as int, v.0, v.1, v.2)
        },
        SingleResponseError::Status(_) => (-1, 6, 0, Seq::empty()),
        SingleResponseError::NotStruct => (-1, 7, 0, Seq::empty()),
    }
}

/// The header names taken by the first `k` fields.
pub open spec fn names_after<T>(fs: Seq<ResponseField<T>>, k: int) -> Seq<(Seq<char>, Seq<char>)>
    decreases k,
{
    if k <= 0 {
        Seq::empty()
    } else {
        header_scan(fs[k - 1].attrs@, names_after(fs, k - 1)).1
    }
}

/// The header name that field `k` takes, if it has one.
pub open spec fn header_of<T>(fs: Seq<ResponseField<T>>, k: int) -> Option<Seq<char>> {
    header_scan(fs[k].attrs@, names_after(fs, k)).0
}

/// The errors of the header attributes of field `k`, as field errors.
pub open spec fn attr_errors_of<T>(fs: Seq<ResponseField<T>>, k: int) -> Seq<(int, int, int, Seq<char>)> {
    header_scan(fs[k].attrs@, names_after(fs, k)).2.map_values(
        |e: (int, int, Seq<char>)| (k, e.0, e.1, e.2),
    )
}

/// The errors of the first `k` fields, none of which is the last: errors of
/// their header attributes, or a missing header.
pub open spec fn header_errors<T>(fs: Seq<ResponseField<T>>, k: int) -> Seq<(int, int, int, Seq<char>)>
    decreases k,
{
    if k <= 0 {
        Seq::empty()
    } else {
        let own = attr_errors_of(fs, k - 1);
        header_errors(fs, k - 1) + if own.len() > 0 {
            own
        } else if header_of(fs, k - 1) is None {
            seq![(k - 1, 5int, 0int, Seq::<char>::empty())]
        } else {
            Seq::empty()
        }
    }
}

/// Whether `h` is the header plan of field `k`.
pub open spec fn header_plan_ok<T>(h: HeaderPlan<T>, fs: Seq<ResponseField<T>>, k: int) -> bool {
    &&& member_of(h.member, fs[k].ident, k)
    &&& h.ty == fs[k].ty
    &&& header_of(fs, k) == Some(h.name@)
    &&& opt_text(h.description) == described(description_of(fs[k].attrs@))
}

/// The fields of a struct whose shape gives any: named or unnamed and not
/// empty.
pub open spec fn response_fields<V, T>(data: Data<V, ResponseField<T>>) -> Option<Seq<ResponseField<T>>> {
    match data {
        Data::Struct(Fields::Named(fs)) => if fs@.len() > 0 { Some(fs@) } else { None },
        Data::Struct(Fields::Unnamed(fs)) => if fs@.len() > 0 { Some(fs@) } else { None },
        _ => None,
    }
}

/// Whether each field has fewer attributes than `usize` can count.
pub open spec fn fields_attrs_bounded<V, T>(data: Data<V, ResponseField<T>>) -> bool {
    match response_fields(data) {
        Some(fs) => forall|k: int| 0 <= k < fs.len() ==> (#[trigger] fs[k]).attrs@.len() < usize::MAX,
        None => true,
    }
}

/// What the derive generates for a struct with these attributes, status
/// digits and shape, or why it refuses it. The status comes first; then
/// only structs are accepted, and one without fields is an empty response.
/// Every field but the last must name a header; the last one is the body
/// unless it names a header too. Header names are normalized and may not
/// repeat. All errors of the fields are reported, those of the last field
/// last.
pub open spec fn single_response_ok<V, T>(
    attrs: Seq<Attr>,
    status: Option<Seq<char>>,
    data: Data<V, ResponseField<T>>,
    r: Result<SingleResponsePlan<T>, Vec<SingleResponseError>>,
) -> bool {
    match status_value(status) {
        Err(e) => r matches Err(es) && es@.len() == 1 && (es@[0] matches SingleResponseError::Status(s) && s == e),
        Ok(code) => if !(data is Struct) {
            r matches Err(es) && es@.len() == 1 && es@[0] is NotStruct
        } else {
            match response_fields(data) {
                None => r == Ok::<SingleResponsePlan<T>, Vec<SingleResponseError>>(SingleResponsePlan::Unit { status: code }),
                Some(fs) => {
                    let last = fs.len() - 1;
                    let errors = header_errors(fs, last) + attr_errors_of(fs, last);
                    let desc = description_of(attrs);
                    if errors.len() > 0 {
                        r matches Err(es) && es@.map_values(|e: SingleResponseError| field_error_view(e)) == errors
                    } else if header_of(fs, last) is Some {
                        r matches Ok(SingleResponsePlan::OnlyHeaders { status: s, description: d, headers: hs })
                            && s == code && d@ == desc && hs@.len() == fs.len()
                            && forall|k: int| 0 <= k < fs.len() ==> header_plan_ok(#[trigger] hs@[k], fs, k)
                    } else if last == 0 {
                        r matches Ok(SingleResponsePlan::OnlyBody { status: s, description: d, body: b, body_ty: t })
                            && s == code && d@ == desc && member_of(b, fs[last].ident, last) && t == fs[last].ty
                    } else {
                        r matches Ok(SingleResponsePlan::BodyAndHeaders { status: s, description: d, headers: hs, body: b, body_ty: t })
                            && s == code && d@ == desc && hs@.len() == last
                            && forall|k: int| 0 <= k < last ==> header_plan_ok(#[trigger] hs@[k], fs, k)
                            && member_of(b, fs[last].ident, last) && t == fs[last].ty
                    }
                },
            }
        },
    }
}

/// The names taken by the first `a` fields are still taken after `b >= a`.
proof fn lemma_names_kept<T>(fs: Seq<ResponseField<T>>, a: int, b: int, x: Seq<char>)
    requires
        0 <= a <= b <= fs.len(),
        names_lookup(names_after(fs, a), x) is Some,
    ensures
        names_lookup(names_after(fs, b), x) is Some,
    decreases b - a,
{
    if a < b {
        lemma_names_kept(fs, a, b - 1, x);
        lemma_header_scan_fresh(fs[b - 1].attrs@, names_after(fs, b - 1));
    }
}

/// No two fields take the same header name.
pub proof fn lemma_header_names_distinct<T>(fs: Seq<ResponseField<T>>, k: int, j: int)
    requires
        0 <= k < j < fs.len(),
        header_of(fs, k) is Some,
        header_of(fs, j) is Some,
    ensures
        header_of(fs, k) != header_of(fs, j),
{
    let nk = header_of(fs, k)->0;
    lemma_header_scan_fresh(fs[k].attrs@, names_after(fs, k));
    assert(names_after(fs, k + 1) == header_scan(fs[k].attrs@, names_after(fs, k)).1);
    lemma_names_kept(fs, k + 1, j, nk);
    lemma_header_scan_fresh(fs[j].attrs@, names_after(fs, j));
}

proof fn lemma_plan_names_distinct<T>(hs: Seq<HeaderPlan<T>>, fs: Seq<ResponseField<T>>)
    requires
        hs.len() <= fs.len(),
        forall|k: int| 0 <= k < hs.len() ==> header_plan_ok(#[trigger] hs[k], fs, k),
    ensures
        hs.map_values(|h: HeaderPlan<T>| h.name@).no_duplicates(),
{
    let names = hs.map_values(|h: HeaderPlan<T>| h.name@);
    assert forall|a: int, b: int| 0 <= a < names.len() && 0 <= b < names.len() && a != b implies names[a] != names[b] by {
        assert(header_plan_ok(hs[a], fs, a));
        assert(header_plan_ok(hs[b], fs, b));
        if a < b {
            lemma_header_names_distinct(fs, a, b);
        } else {
            lemma_header_names_distinct(fs, b, a);
        }
    }
}

/// The header names of a plan, in order.
pub open spec fn plan_header_names<T>(p: SingleResponsePlan<T>) -> Seq<Seq<char>> {
    match p {
        SingleResponsePlan::OnlyHeaders { headers, .. } => headers@.map_values(|h: HeaderPlan<T>| h.name@),
        SingleResponsePlan::BodyAndHeaders { headers, .. } => headers@.map_values(|h: HeaderPlan<T>| h.name@),
        _ => Seq::empty(),
    }
}

fn member_for(ident: Option<String>, idx: usize) -> (m: Member)
    ensures
        member_of(m, ident, idx as int),
{
    match ident {
        Some(i) => Member::Named(i),
        None => Member::Index(idx),
    }
}

fn push_header_errors(errors: &mut Vec<SingleResponseError>, field: usize, es: Vec<HeaderAttrError>)
    ensures
        final(errors)@.map_values(|e: SingleResponseError| field_error_view(e))
            == old(errors)@.map_values(|e: SingleResponseError| field_error_view(e))
            + es@.map_values(|e: HeaderAttrError| header_error_view(e)).map_values(
                |e: (int, int, Seq<char>)| (field as int, e.0, e.1, e.2),
            ),
{
    let ghost start = errors@.map_values(|e: SingleResponseError| field_error_view(e));
    let ghost views = es@.map_values(|e: HeaderAttrError| header_error_view(e)).map_values(
        |e: (int, int, Seq<char>)| (field as int, e.0, e.1, e.2),
    );
    let n = es.len();
    let mut rest = es;
    let ghost orig = rest@;
    let mut j: usize = 0;
    while j < n
        invariant
            n == orig.len(),
            j <= n,
            rest@ == orig.skip(j as int),
            views == orig.map_values(|e: HeaderAttrError| header_error_view(e)).map_values(
                |e: (int, int, Seq<char>)| (field as int, e.0, e.1, e.2),
            ),
            errors@.map_values(|e: SingleResponseError| field_error_view(e)) == start + views.take(j as int),
        decreases n - j,
    {
        let e = rest.remove(0);
        assert(e == orig[j as int]);
        assert(views[j as int] == field_error_view(SingleResponseError::Header(field, e)));
        assert(views.take(j + 1) =~= views.take(j as int).push(views[j as int]));
        let ghost prev = errors@;
        let ghost x = SingleResponseError::Header(field, e);
        errors.push(SingleResponseError::Header(field, e));
        assert(errors@ == prev.push(x));
        assert(errors@.map_values(|e: SingleResponseError| field_error_view(e))
            =~= prev.map_values(|e: SingleResponseError| field_error_view(e)).push(field_error_view(x)));
        j = j + 1;
        assert(rest@ =~= orig.skip(j as int));
        assert(errors@.map_values(|e: SingleResponseError| field_error_view(e)) =~= start + views.take(j as int));
    }
    assert(views.take(n as int) =~= views);
}

/// Decides what the `SingleResponse` derive generates for a struct with
/// these attributes (for its description), the digits of the status written
/// in `#[single_response(status = ...)]`, if any, and this shape.
pub fn plan_single_response<V, T>(
    attrs: &Vec<Attr>,
    status: Option<&str>,
    data: Data<V, ResponseField<T>>,
) -> (r: Result<SingleResponsePlan<T>, Vec<SingleResponseError>>)
    requires
        fields_attrs_bounded(data),
    ensures
        single_response_ok(attrs@, match status { Some(d) => Some(d@), None => None }, data, r),
        r matches Ok(p) ==> plan_header_names(p).no_duplicates(),
{
    let code = match extract_status_code_value(status) {
        Ok(c) => c,
        Err(e) => {
            let mut es = Vec::new();
            es.push(SingleResponseError::Status(e));
            return Err(es);
        },
    };
    let ghost d = data;
    let fields = match data {
        Data::Struct(Fields::Named(fs)) => fs,
        Data::Struct(Fields::Unnamed(fs)) => fs,
        Data::Struct(Fields::Unit) => {
            return Ok(SingleResponsePlan::Unit { status: code });
        },
        _ => {
            let mut es = Vec::new();
            es.push(SingleResponseError::NotStruct);
            return Err(es);
        },
    };
    if fields.len() == 0 {
        return Ok(SingleResponsePlan::Unit { status: code });
    }
    let ghost fs = fields@;
    assert(response_fields(d) == Some(fs));
    let n = fields.len();
    let last_idx = n - 1;
    let mut rest = fields;
    let mut names = HeaderNames::new();
    let mut errors: Vec<SingleResponseError> = Vec::new();
    let mut headers: Vec<HeaderPlan<T>> = Vec::new();
    let mut i: usize = 0;
    while i < last_idx
        invariant
            n == fs.len(),
            last_idx == n - 1,
            i <= last_idx,
            forall|k: int| 0 <= k < fs.len() ==> (#[trigger] fs[k]).attrs@.len() < usize::MAX,
            rest@ == fs.skip(i as int),
            names@ == names_after(fs, i as int),
            errors@.map_values(|e: SingleResponseError| field_error_view(e)) == header_errors(fs, i as int),
            errors@.len() == 0 ==> {
                &&& headers@.len() == i
                &&& forall|k: int| 0 <= k < i ==> header_plan_ok(#[trigger] headers@[k], fs, k)
            },
        decreases last_idx - i,
    {
        let f = rest.remove(0);
        assert(f == fs[i as int]);
        let ghost before = errors@.map_values(|e: SingleResponseError| field_error_view(e));
        let ResponseField { ident, attrs: fattrs, ty } = f;
        let found = extract_header_name(&fattrs, &mut names);
        match found {
            Err(es) => {
                push_header_errors(&mut errors, i, es);
                assert(attr_errors_of(fs, i as int).len() > 0);
            },
            Ok(None) => {
                errors.push(SingleResponseError::MissingHeader(i));
                assert(attr_errors_of(fs, i as int) =~= Seq::<(int, int, int, Seq<char>)>::empty());
            },
            Ok(Some(name)) => {
                let member = member_for(ident, i);
                let description = description_if_any(&fattrs);
                headers.push(HeaderPlan { member, ty, name, description });
                assert(attr_errors_of(fs, i as int) =~= Seq::<(int, int, int, Seq<char>)>::empty());
            },
        }
        assert(errors@.map_values(|e: SingleResponseError| field_error_view(e)) =~= header_errors(fs, i + 1));
        i = i + 1;
        assert(rest@ =~= fs.skip(i as int));
    }
    let description = extract_description(attrs);
    let last = rest.remove(0);
    assert(last == fs[last_idx as int]);
    let ResponseField { ident, attrs: lattrs, ty } = last;
    let member = member_for(ident, last_idx);
    let ghost before = errors@.map_values(|e: SingleResponseError| field_error_view(e));
    match extract_header_name(&lattrs, &mut names) {
        Err(es) => {
            push_header_errors(&mut errors, last_idx, es);
            assert(errors@.len() > 0) by {
                assert(errors@.map_values(|e: SingleResponseError| field_error_view(e)).len() > 0);
            }
            Err(errors)
        },
        Ok(Some(name)) => {
            let ldesc = description_if_any(&lattrs);
            headers.push(HeaderPlan { member, ty, name, description: ldesc });
            if errors.len() > 0 {
                assert(attr_errors_of(fs, last_idx as int) =~= Seq::<(int, int, int, Seq<char>)>::empty());
                assert(before + attr_errors_of(fs, last_idx as int) =~= before);
                Err(errors)
            } else {
                assert(attr_errors_of(fs, last_idx as int) =~= Seq::<(int, int, int, Seq<char>)>::empty());
                proof {
                    lemma_plan_names_distinct(headers@, fs);
                }
                Ok(SingleResponsePlan::OnlyHeaders { status: code, description, headers })
            }
        },
        Ok(None) => {
            assert(attr_errors_of(fs, last_idx as int) =~= Seq::<(int, int, int, Seq<char>)>::empty());
            assert(before + attr_errors_of(fs, last_idx as int) =~= before);
            if errors.len() > 0 {
                Err(errors)
            } else if headers.len() == 0 {
                Ok(SingleResponsePlan::OnlyBody { status: code, description, body: member, body_ty: ty })
            } else {
                proof {
                    lemma_plan_names_distinct(headers@, fs);
                }
                Ok(SingleResponsePlan::BodyAndHeaders { status: code, description, headers, body: member, body_ty: ty })
            }
        },
    }
}

} // verus!
