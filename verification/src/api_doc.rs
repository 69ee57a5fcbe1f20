//! How requests and responses describe themselves in the OpenAPI document:
//! the parameters and body a request reads, the responses a handler may
//! answer with, and the media types of bodies.

use vstd::prelude::*;
use std::collections::BTreeMap;
use crate::media_type::{MediaType, RequestMediaType, ResponseMediaType};
use crate::openapi_doc::{MediaTypeDoc, ResponseDoc, ResponseView};
use crate::ordered_map::{inserted, OrderedMap};
use crate::schema::{registry_grows, SchemaRef, SchemaRegistry, ToSchema};
use crate::status::{valid_status, OK};

verus! {

/// Marks the `ApiRequest` implementation of a type that is read from the
/// request head only; it is a type parameter and is never made.
pub struct ViaRequestHead;

/// Marks the `ApiRequest` implementation of a type that reads the body; it
/// is a type parameter and is never made.
pub struct ViaRequest;

/// The largest body a request may have, in bytes.
#[derive(Clone, Copy, Debug, PartialEq, Eq, PartialOrd, Ord, Hash)]
pub struct BodyLimit(pub usize);

/// The body limit of a request unless a handler changes it: 2 MiB.
pub const DEFAULT_BODY_LIMIT: usize = 2 * 1024 * 1024;

impl BodyLimit {
    /// The limit that a new request starts with.
    pub fn initial() -> (b: Self)
        ensures
            b.0 == DEFAULT_BODY_LIMIT,
    {
        BodyLimit(DEFAULT_BODY_LIMIT)
    }

    /// The limit, in bytes.
    pub fn limit(&self) -> (n: usize)
        ensures
            n == self.0,
    {
        self.0
    }
}

/// Where a parameter is read from.
#[derive(Clone, Copy, Debug, PartialEq, Eq, Structural)]
pub enum ParameterLocation {
    Query,
    Header,
    Path,
    Cookie,
}

/// A parameter of an operation.
pub struct ParameterDoc {
    pub location: ParameterLocation,
    pub name: String,
    pub description: Option<String>,
    pub required: bool,
    pub schema: SchemaRef,
}

/// The body of a request: its description, content by media type, and
/// whether it must be sent.
pub struct RequestBodyDoc {
    pub description: Option<String>,
    pub content: OrderedMap<MediaTypeDoc>,
    pub required: bool,
}

/// The parameters of an optional extractor: those of the inner one, none of
/// them required.
pub open spec fn optional_of(ps: Seq<ParameterDoc>, qs: Seq<ParameterDoc>) -> bool {
    &&& qs.len() == ps.len()
    &&& forall|i: int| 0 <= i < ps.len() ==> {
        &&& !(#[trigger] qs[i]).required
        &&& qs[i].location == ps[i].location
        &&& qs[i].name == ps[i].name
        &&& qs[i].description == ps[i].description
        &&& qs[i].schema == ps[i].schema
    }
}

/// Makes every parameter optional, keeping all else: what an `Option` of
/// an extractor describes.
pub fn optional_parameters(ps: Option<Vec<ParameterDoc>>) -> (r: Option<Vec<ParameterDoc>>)
    ensures
        match ps {
            None => r is None,
            Some(v) => r matches Some(w) && optional_of(v@, w@),
        },
{
    match ps {
        None => None,
        Some(v) => {
            let ghost orig = v@;
            let n = v.len();
            let mut rest = v;
            let mut out: Vec<ParameterDoc> = Vec::new();
            let mut i: usize = 0;
            while i < n
                invariant
                    n == orig.len(),
                    i <= n,
                    rest@ == orig.skip(i as int),
                    out@.len() == i,
                    forall|k: int| 0 <= k < i ==> {
                        &&& !(#[trigger] out@[k]).required
                        &&& out@[k].location == orig[k].location
                        &&& out@[k].name == orig[k].name
                        &&& out@[k].description == orig[k].description
                        &&& out@[k].schema == orig[k].schema
                    },
                decreases n - i,
            {
                let p = rest.remove(0);
                assert(p == orig[i as int]);
                let ParameterDoc { location, name, description, required: _, schema } = p;
                out.push(ParameterDoc { location, name, description, required: false, schema });
                i = i + 1;
                assert(rest@ =~= orig.skip(i as int));
            }
            Some(out)
        },
    }
}

/// A body type with one media type, described by the schema of its content.
pub trait SingleMediaType {
    fn media_type_doc(reg: &mut SchemaRegistry) -> (m: MediaTypeDoc)
        requires
            old(reg).wf(),
        ensures
            registry_grows(*old(reg), *final(reg)),
    ;
}

impl SingleMediaType for String {
    /// Text is a string.
    fn media_type_doc(reg: &mut SchemaRegistry) -> (m: MediaTypeDoc)
        ensures
            m.schema matches Some(SchemaRef::Reference(p)) && p@ == crate::schema::reference_path(<String as ToSchema>::key_spec()),
    {
        MediaTypeDoc { schema: Some(<String as ToSchema>::schema_ref(reg)) }
    }
}

impl SingleMediaType for Vec<u8> {
    /// Bytes are a list of `u8`.
    fn media_type_doc(reg: &mut SchemaRegistry) -> (m: MediaTypeDoc)
        ensures
            m.schema matches Some(SchemaRef::Reference(p)) && p@ == crate::schema::reference_path(<Vec<u8> as ToSchema>::key_spec()),
    {
        MediaTypeDoc { schema: Some(<Vec<u8> as ToSchema>::schema_ref(reg)) }
    }
}

/// Whether `c` holds exactly one media type, `media_type`, whose schema is a
/// reference to the schema registered under `key`.
pub open spec fn reference_content(c: Seq<(Seq<char>, MediaTypeDoc)>, media_type: Seq<char>, key: Seq<char>) -> bool {
    &&& c.len() == 1
    &&& c[0].0 == media_type
    &&& c[0].1.schema matches Some(SchemaRef::Reference(p)) && p@ == crate::schema::reference_path(key)
}

/// The content holding `doc` under `T`'s media type, and nothing else.
pub(crate) fn content_of<T: MediaType>(doc: MediaTypeDoc) -> (c: OrderedMap<MediaTypeDoc>)
    ensures
        c.wf(),
        c.entries().len() == 1,
        c.entries()[0] == (T::media_type_spec(), doc),
{
    let mut c = OrderedMap::new();
    let mut key = String::new();
    crate::text::push_str(&mut key, T::media_type());
    assert(key@ =~= T::media_type_spec());
    c.insert(key, doc);
    assert(c.entries() == inserted(Seq::<(Seq<char>, MediaTypeDoc)>::empty(), T::media_type_spec(), doc));
    c
}

/// The content of a body type with one media type: that media type alone.
pub fn single_content<T: MediaType + SingleMediaType>(reg: &mut SchemaRegistry) -> (c: OrderedMap<MediaTypeDoc>)
    requires
        old(reg).wf(),
    ensures
        registry_grows(*old(reg), *final(reg)),
        c.wf(),
        c.entries().len() == 1,
        c.entries()[0].0 == T::media_type_spec(),
{
    let doc = T::media_type_doc(reg);
    content_of::<T>(doc)
}

/// A body type that requests can carry, with the media types it accepts.
pub trait MultiRequestMediaType {
    fn content(reg: &mut SchemaRegistry) -> (c: OrderedMap<MediaTypeDoc>)
        requires
            old(reg).wf(),
        ensures
            registry_grows(*old(reg), *final(reg)),
            c.wf(),
    ;
}

/// A body type that responses can carry, with the media types it may have.
pub trait MultiResponseMediaType {
    fn content(reg: &mut SchemaRegistry) -> (c: OrderedMap<MediaTypeDoc>)
        requires
            old(reg).wf(),
        ensures
            registry_grows(*old(reg), *final(reg)),
            c.wf(),
    ;
}

/// A response with one status.
pub trait SingleResponse {
    spec fn status_code_spec() -> u16;

    /// Whether `r` is this type's response, as built from a registry in
    /// state `reg`.
    spec fn is_response(reg: SchemaRegistry, r: ResponseView) -> bool;

    /// The status of the response; it is a valid status code.
    fn status_code() -> (s: u16)
        ensures
            s == Self::status_code_spec(),
            valid_status(s),
    ;

    fn response(reg: &mut SchemaRegistry) -> (r: ResponseDoc)
        requires
            old(reg).wf(),
        ensures
            registry_grows(*old(reg), *final(reg)),
            r.wf(),
            Self::is_response(*old(reg), r.view_doc()),
    ;
}

/// Whether a response has no description, headers, links or extensions, and
/// exactly the content `c`.
pub open spec fn content_only(r: ResponseView, c: Seq<(Seq<char>, MediaTypeDoc)>) -> bool {
    &&& r.description.len() == 0
    &&& r.headers.len() == 0
    &&& r.content == c
    &&& r.links.len() == 0
    &&& r.extensions.len() == 0
}

/// The response of a body type: no description or headers, and the body's
/// content.
fn body_response(content: OrderedMap<MediaTypeDoc>) -> (r: ResponseDoc)
    requires
        content.wf(),
    ensures
        r.wf(),
        content_only(r.view_doc(), content.entries()),
{
    let mut r = ResponseDoc::new(String::new());
    r.content = content;
    r
}

impl SingleResponse for () {
    open spec fn status_code_spec() -> u16 {
        OK
    }

    open spec fn is_response(reg: SchemaRegistry, r: ResponseView) -> bool {
        content_only(r, Seq::empty())
    }

    fn status_code() -> (s: u16) {
        OK
    }

    /// An empty response.
    fn response(reg: &mut SchemaRegistry) -> (r: ResponseDoc)
        ensures
            *final(reg) == *old(reg),
    {
        proof {
            crate::schema::lemma_grows_reflexive(*reg);
        }
        let r = ResponseDoc::new(String::new());
        assert(r.view_doc().content =~= Seq::<(Seq<char>, MediaTypeDoc)>::empty());
        r
    }
}

impl SingleResponse for String {
    open spec fn status_code_spec() -> u16 {
        OK
    }

    /// Text, whose schema is that of `String`.
    open spec fn is_response(reg: SchemaRegistry, r: ResponseView) -> bool {
        &&& content_only(r, r.content)
        &&& reference_content(r.content, <String as MediaType>::media_type_spec(), <String as ToSchema>::key_spec())
    }

    fn status_code() -> (s: u16) {
        OK
    }

    fn response(reg: &mut SchemaRegistry) -> (r: ResponseDoc) {
        body_response(<String as MultiResponseMediaType>::content(reg))
    }
}

impl SingleResponse for Vec<u8> {
    open spec fn status_code_spec() -> u16 {
        OK
    }

    /// Bytes, whose schema is that of `Vec<u8>`.
    open spec fn is_response(reg: SchemaRegistry, r: ResponseView) -> bool {
        &&& content_only(r, r.content)
        &&& reference_content(r.content, <Vec<u8> as MediaType>::media_type_spec(), <Vec<u8> as ToSchema>::key_spec())
    }

    fn status_code() -> (s: u16) {
        OK
    }

    fn response(reg: &mut SchemaRegistry) -> (r: ResponseDoc) {
        body_response(<Vec<u8> as MultiResponseMediaType>::content(reg))
    }
}

/// The responses of a type with one status: that status alone, with its
/// response.
pub fn single_responses<T: SingleResponse>(reg: &mut SchemaRegistry) -> (m: BTreeMap<u16, ResponseDoc>)
    requires
        old(reg).wf(),
    ensures
        registry_grows(*old(reg), *final(reg)),
        m@.dom() == set![T::status_code_spec()],
        m@[T::status_code_spec()].wf(),
        T::is_response(*old(reg), m@[T::status_code_spec()].view_doc()),
{
    let mut m = BTreeMap::new();
    let status = T::status_code();
    let r = T::response(reg);
    m.insert(status, r);
    assert(m@.dom() =~= set![T::status_code_spec()]);
    m
}

/// The responses a type may answer with, by status; `None` for a type that
/// the document does not describe.
pub trait ApiResponse {
    fn responses(reg: &mut SchemaRegistry) -> (r: Option<BTreeMap<u16, ResponseDoc>>)
        requires
            old(reg).wf(),
        ensures
            registry_grows(*old(reg), *final(reg)),
            r matches Some(m) ==> crate::openapi_doc::responses_wf(m@),
    ;
}

impl ApiResponse for String {
    fn responses(reg: &mut SchemaRegistry) -> (r: Option<BTreeMap<u16, ResponseDoc>>)
        ensures
            r matches Some(m) && m@.dom() == set![OK]
                && <String as SingleResponse>::is_response(*old(reg), m@[OK].view_doc()),
    {
        Some(single_responses::<String>(reg))
    }
}

impl ApiResponse for Vec<u8> {
    fn responses(reg: &mut SchemaRegistry) -> (r: Option<BTreeMap<u16, ResponseDoc>>)
        ensures
            r matches Some(m) && m@.dom() == set![OK]
                && <Vec<u8> as SingleResponse>::is_response(*old(reg), m@[OK].view_doc()),
    {
        Some(single_responses::<Vec<u8>>(reg))
    }
}

impl ApiResponse for () {
    fn responses(reg: &mut SchemaRegistry) -> (r: Option<BTreeMap<u16, ResponseDoc>>)
        ensures
            r matches Some(m) && m@.dom() == set![OK]
                && <() as SingleResponse>::is_response(*old(reg), m@[OK].view_doc()),
    {
        Some(single_responses::<()>(reg))
    }
}

/// A `Result` answers as its success does; its error answers by itself.
impl<T: ApiResponse, E> ApiResponse for Result<T, E> {
    fn responses(reg: &mut SchemaRegistry) -> (r: Option<BTreeMap<u16, ResponseDoc>>) {
        T::responses(reg)
    }
}

/// What the document says of an extractor that reads the request head: its
/// parameters, if it has any to declare.
pub trait ApiRequestHead {
    fn parameters(reg: &mut SchemaRegistry) -> (ps: Option<Vec<ParameterDoc>>)
        requires
            old(reg).wf(),
        ensures
            registry_grows(*old(reg), *final(reg)),
    ;
}

/// What the document says of an extractor: its parameters and the body it
/// reads, if any.
pub trait ApiRequest<M> {
    fn parameters(reg: &mut SchemaRegistry) -> (ps: Option<Vec<ParameterDoc>>)
        requires
            old(reg).wf(),
        ensures
            registry_grows(*old(reg), *final(reg)),
    ;

    fn request_body(reg: &mut SchemaRegistry) -> (b: Option<RequestBodyDoc>)
        requires
            old(reg).wf(),
        ensures
            registry_grows(*old(reg), *final(reg)),
    ;
}

impl ApiRequestHead for BodyLimit {
    fn parameters(reg: &mut SchemaRegistry) -> (ps: Option<Vec<ParameterDoc>>)
        ensures
            ps is None,
    {
        proof {
            crate::schema::lemma_grows_reflexive(*reg);
        }
        None
    }
}

/// An optional head extractor declares the parameters of the inner one,
/// none of them required.
impl<T: ApiRequestHead> ApiRequestHead for Option<T> {
    fn parameters(reg: &mut SchemaRegistry) -> (ps: Option<Vec<ParameterDoc>>)
        ensures
            ps matches Some(v) ==> forall|i: int| 0 <= i < v@.len() ==> !(#[trigger] v@[i]).required,
    {
        optional_parameters(T::parameters(reg))
    }
}

impl<T: ApiRequestHead, E> ApiRequestHead for Result<T, E> {
    fn parameters(reg: &mut SchemaRegistry) -> (ps: Option<Vec<ParameterDoc>>) {
        T::parameters(reg)
    }
}

/// A body type read as a whole: no parameters, and a required body of its
/// media types.
fn required_body(content: OrderedMap<MediaTypeDoc>) -> (b: Option<RequestBodyDoc>)
    ensures
        b matches Some(d) && d.required && d.description is None && d.content == content,
{
    Some(RequestBodyDoc { description: None, content, required: true })
}

impl ApiRequest<ViaRequest> for String {
    fn parameters(reg: &mut SchemaRegistry) -> (ps: Option<Vec<ParameterDoc>>)
        ensures
            ps is None,
    {
        proof {
            crate::schema::lemma_grows_reflexive(*reg);
        }
        None
    }

    /// A required body of the type's one media type.
    fn request_body(reg: &mut SchemaRegistry) -> (b: Option<RequestBodyDoc>)
        ensures
            b matches Some(d) && d.required && d.description is None
                && reference_content(d.content.entries(), <String as MediaType>::media_type_spec(), <String as ToSchema>::key_spec()),
    {
        required_body(<String as MultiRequestMediaType>::content(reg))
    }
}

impl ApiRequest<ViaRequest> for Vec<u8> {
    fn parameters(reg: &mut SchemaRegistry) -> (ps: Option<Vec<ParameterDoc>>)
        ensures
            ps is None,
    {
        proof {
            crate::schema::lemma_grows_reflexive(*reg);
        }
        None
    }

    /// A required body of the type's one media type.
    fn request_body(reg: &mut SchemaRegistry) -> (b: Option<RequestBodyDoc>)
        ensures
            b matches Some(d) && d.required && d.description is None
                && reference_content(d.content.entries(), <Vec<u8> as MediaType>::media_type_spec(), <Vec<u8> as ToSchema>::key_spec()),
    {
        required_body(<Vec<u8> as MultiRequestMediaType>::content(reg))
    }
}

/// An optional extractor declares the parameters of the inner one and its
/// body, none of them required.
impl<T: ApiRequest<ViaRequest>> ApiRequest<ViaRequest> for Option<T> {
    fn parameters(reg: &mut SchemaRegistry) -> (ps: Option<Vec<ParameterDoc>>)
        ensures
            ps matches Some(v) ==> forall|i: int| 0 <= i < v@.len() ==> !(#[trigger] v@[i]).required,
    {
        optional_parameters(T::parameters(reg))
    }

    fn request_body(reg: &mut SchemaRegistry) -> (b: Option<RequestBodyDoc>)
        ensures
            b matches Some(d) ==> !d.required,
    {
        match T::request_body(reg) {
            None => None,
            Some(d) => {
                let RequestBodyDoc { description, content, required: _ } = d;
                Some(RequestBodyDoc { description, content, required: false })
            },
        }
    }
}

impl<T: ApiRequest<ViaRequest>, E> ApiRequest<ViaRequest> for Result<T, E> {
    fn parameters(reg: &mut SchemaRegistry) -> (ps: Option<Vec<ParameterDoc>>) {
        T::parameters(reg)
    }

    fn request_body(reg: &mut SchemaRegistry) -> (b: Option<RequestBodyDoc>) {
        T::request_body(reg)
    }
}

} // verus!
