//! Errors that turn into HTTP responses: the status each one answers with,
//! the statuses a type of error may answer with (for the OpenAPI document),
//! its message and its error stack.

use vstd::prelude::*;
use std::collections::{BTreeMap, BTreeSet};
use crate::error_stack::{entry_locations, entry_messages, ErrorEntry, ErrorExt};
use crate::location::Location;
use crate::status::{
    reason_or_empty, reason_text, valid_status, BAD_REQUEST, PAYLOAD_TOO_LARGE,
};
use crate::text::{decimal, push_char, push_decimal, push_str};
use crate::api_doc::single_content;
use crate::media_type::{text_plain_utf8, MediaType};
use crate::openapi_doc::ResponseDoc;
use crate::schema::{lemma_grows_reflexive, lemma_grows_transitive, registry_grows, SchemaRegistry};

verus! {

broadcast use {vstd::std_specs::btree::group_btree_axioms, vstd::laws_cmp::group_laws_cmp};

/// An error that answers a request with a status code.
pub trait ResponseError: ErrorExt {
    /// The status that this error answers with.
    spec fn status_spec(&self) -> u16;

    /// Every status that an error of this type may answer with.
    spec fn status_codes_spec() -> Set<u16>;

    fn as_status(&self) -> (s: u16)
        ensures
            s == self.status_spec(),
    ;

    /// Adds every status that an error of this type may answer with.
    fn status_codes(codes: &mut BTreeSet<u16>)
        ensures
            final(codes)@ == old(codes)@.union(Self::status_codes_spec()),
    ;

    /// The status an error answers with is among those its type lists.
    proof fn lemma_status_listed(&self)
        ensures
            Self::status_codes_spec().contains(self.status_spec()),
    ;

    /// Every status a type of error lists is a valid status code.
    proof fn lemma_codes_valid()
        ensures
            forall|c: u16| Self::status_codes_spec().contains(c) ==> valid_status(c),
    ;

    /// The response this error answers with: its status, and its message
    /// as a plain text body.
    fn as_response(&self) -> (r: PlainResponse)
        ensures
            r.status == self.status_spec(),
            r.content_type@ == text_plain_utf8(),
            r.body@ == self.message_spec(),
    {
        let status = self.as_status();
        let mut content_type = String::new();
        push_str(&mut content_type, "text/plain; charset=utf-8");
        proof { reveal_strlit("text/plain; charset=utf-8"); }
        let body = self.message();
        PlainResponse { status, content_type, body }
    }

    /// The error responses of this type of error for the OpenAPI document:
    /// each status it may answer with, described by its reason phrase, with
    /// a plain text body.
    fn responses(reg: &mut SchemaRegistry) -> (m: BTreeMap<u16, ResponseDoc>)
        requires
            old(reg).wf(),
        ensures
            registry_grows(*old(reg), *final(reg)),
            m@.dom() == Self::status_codes_spec(),
            forall|c: u16| Self::status_codes_spec().contains(c) ==> error_response_ok(#[trigger] m@[c], c),
    {
        let mut codes: BTreeSet<u16> = BTreeSet::new();
        Self::status_codes(&mut codes);
        proof {
            Self::lemma_codes_valid();
            assert(codes@ =~= Self::status_codes_spec());
        }
        error_responses(&codes, reg)
    }
}

/// A response with a status and a plain body.
pub struct PlainResponse {
    pub status: u16,
    pub content_type: String,
    pub body: String,
}

/// Whether `r` is the documented response of an error with status `c`: the
/// reason phrase as description, no headers, and plain text content.
pub open spec fn error_response_ok(r: ResponseDoc, c: u16) -> bool {
    &&& r.wf()
    &&& r.view_doc().description == reason_or_empty(c)
    &&& r.view_doc().headers.len() == 0
    &&& r.view_doc().content.len() == 1
    &&& r.view_doc().content[0].0 == text_plain_utf8()
}

/// The error responses that the OpenAPI document lists for a set of
/// statuses: each status with its reason phrase as description and a
/// plain text body.
pub fn error_responses(codes: &BTreeSet<u16>, reg: &mut SchemaRegistry) -> (m: BTreeMap<u16, ResponseDoc>)
    requires
        forall|c: u16| codes@.contains(c) ==> valid_status(c),
        old(reg).wf(),
    ensures
        registry_grows(*old(reg), *final(reg)),
        m@.dom() == codes@,
        forall|c: u16| codes@.contains(c) ==> error_response_ok(#[trigger] m@[c], c),
{
    let ghost r0 = *reg;
    proof {
        lemma_grows_reflexive(r0);
    }
    let mut m: BTreeMap<u16, ResponseDoc> = BTreeMap::new();
    for c in it: codes.iter()
        invariant
            forall|c: u16| codes@.contains(c) ==> valid_status(c),
            it.seq().unref().to_set() == codes@,
            it.seq().len() == codes@.len(),
            registry_grows(r0, *reg),
            m@.dom() == it.seq().unref().take(it.index()).to_set(),
            it.index() == it.seq().len() ==> m@.dom() == codes@,
            forall|k: u16| m@.dom().contains(k) ==> error_response_ok(#[trigger] m@[k], k),
    {
        let code: u16 = *c;
        assert(it.seq().unref()[it.index()] == code);
        assert(codes@.contains(code));
        let text = reason_text(code);
        let mut doc = ResponseDoc::new(text);
        let ghost before = *reg;
        doc.content = single_content::<String>(reg);
        proof {
            lemma_grows_transitive(r0, before, *reg);
        }
        m.insert(code, doc);
        proof {
            assert(it.seq().unref().take(it.index() + 1) =~= it.seq().unref().take(it.index()).push(code));
            it.seq().unref().take(it.index()).lemma_push_to_set_commute(code);
            assert(it.seq().unref().take(it.seq().len() as int) =~= it.seq().unref());
        }
    }
    m
}

/// The body of a request was larger than allowed.
pub struct LengthLimitError {
    pub location: Location,
    pub limit: usize,
}

pub open spec fn length_limit_message(limit: usize) -> Seq<char> {
    "length limit exceeded, limit is `"@ + decimal(limit as nat) + seq!['`']
}

impl ResponseError for LengthLimitError {
    open spec fn status_spec(&self) -> u16 {
        PAYLOAD_TOO_LARGE
    }

    open spec fn status_codes_spec() -> Set<u16> {
        set![PAYLOAD_TOO_LARGE]
    }

    /// A body over the limit is refused with 413 (Payload Too Large).
    fn as_status(&self) -> (s: u16)
        ensures
            s == 413,
    {
        PAYLOAD_TOO_LARGE
    }

    fn status_codes(codes: &mut BTreeSet<u16>) {
        codes.insert(PAYLOAD_TOO_LARGE);
        assert(codes@ =~= old(codes)@.union(set![PAYLOAD_TOO_LARGE]));
    }

    proof fn lemma_status_listed(&self) {
    }

    proof fn lemma_codes_valid() {
    }
}

/// Reading the body of a request failed.
pub enum ReadBytesError {
    /// The body exceeded the limit.
    LengthLimitError { location: Location, source: LengthLimitError },
    /// The body could not be read; `source` is the rendered cause.
    UnknownBodyError { location: Location, source: String },
}

impl ResponseError for ReadBytesError {
    open spec fn status_spec(&self) -> u16 {
        match self {
            ReadBytesError::LengthLimitError { source, .. } => source.status_spec(),
            ReadBytesError::UnknownBodyError { .. } => BAD_REQUEST,
        }
    }

    open spec fn status_codes_spec() -> Set<u16> {
        LengthLimitError::status_codes_spec().insert(BAD_REQUEST)
    }

    /// A body over the limit answers 413 (Payload Too Large); a body that
    /// could not be read, 400 (Bad Request).
    fn as_status(&self) -> (s: u16)
        ensures
            self is LengthLimitError ==> s == 413,
            self is UnknownBodyError ==> s == 400,
    {
        match self {
            ReadBytesError::LengthLimitError { source, .. } => source.as_status(),
            ReadBytesError::UnknownBodyError { .. } => BAD_REQUEST,
        }
    }

    fn status_codes(codes: &mut BTreeSet<u16>) {
        LengthLimitError::status_codes(codes);
        codes.insert(BAD_REQUEST);
        assert(codes@ =~= old(codes)@.union(Self::status_codes_spec()));
    }

    proof fn lemma_status_listed(&self) {
    }

    proof fn lemma_codes_valid() {
    }
}

/// Reading the body of a request as text failed.
pub enum ReadStringError {
    /// The bytes could not be read.
    ReadBytes { location: Location, source: ReadBytesError },
    /// The bytes are not UTF-8; `source` is the rendered cause.
    InvalidUtf8 { location: Location, source: String },
}

impl ResponseError for ReadStringError {
    open spec fn status_spec(&self) -> u16 {
        match self {
            ReadStringError::ReadBytes { source, .. } => source.status_spec(),
            ReadStringError::InvalidUtf8 { .. } => BAD_REQUEST,
        }
    }

    open spec fn status_codes_spec() -> Set<u16> {
        ReadBytesError::status_codes_spec().insert(BAD_REQUEST)
    }

    /// Text that is not UTF-8 answers 400 (Bad Request); a body that could
    /// not be read answers as its reading error does.
    fn as_status(&self) -> (s: u16)
        ensures
            self is InvalidUtf8 ==> s == 400,
            self matches ReadStringError::ReadBytes { source, .. } ==> s == (if source is LengthLimitError { 413u16 } else { 400u16 }),
    {
        match self {
            ReadStringError::ReadBytes { source, .. } => source.as_status(),
            ReadStringError::InvalidUtf8 { .. } => BAD_REQUEST,
        }
    }

    fn status_codes(codes: &mut BTreeSet<u16>) {
        ReadBytesError::status_codes(codes);
        codes.insert(BAD_REQUEST);
        assert(codes@ =~= old(codes)@.union(Self::status_codes_spec()));
    }

    proof fn lemma_status_listed(&self) {
    }

    proof fn lemma_codes_valid() {
    }
}

/// The statuses that reading a body answers with: 413 (Payload Too Large)
/// for a body over the limit, 400 (Bad Request) for one that could not be
/// read or is not UTF-8 text; each is listed by its type, and valid.
pub proof fn lemma_body_error_statuses(b: ReadBytesError, t: ReadStringError, l: LengthLimitError)
    ensures
        l.status_spec() == 413,
        b.status_spec() == (if b is LengthLimitError { 413u16 } else { 400u16 }),
        t is InvalidUtf8 ==> t.status_spec() == 400,
        t matches ReadStringError::ReadBytes { source, .. } ==> t.status_spec() == source.status_spec(),
        ReadStringError::status_codes_spec() == set![413u16, 400u16],
{
    assert(ReadStringError::status_codes_spec() =~= set![413u16, 400u16]);
}

/// The chain of a single located error.
pub open spec fn single_chain(message: Seq<char>, location: Location) -> (Seq<Seq<char>>, Seq<Seq<char>>, Option<Seq<char>>) {
    (seq![message], seq![location.text()], None)
}

/// The chain of an error located at `location` followed by the chain of its cause.
pub open spec fn caused_chain(
    message: Seq<char>,
    location: Location,
    cause: (Seq<Seq<char>>, Seq<Seq<char>>, Option<Seq<char>>),
) -> (Seq<Seq<char>>, Seq<Seq<char>>, Option<Seq<char>>) {
    (seq![message] + cause.0, seq![location.text()] + cause.1, cause.2)
}

/// The chain of an error located at `location` whose cause carries no location.
pub open spec fn rooted_chain(message: Seq<char>, location: Location, root: Seq<char>) -> (Seq<Seq<char>>, Seq<Seq<char>>, Option<Seq<char>>) {
    (seq![message], seq![location.text()], Some(root))
}

/// Puts the entry of an error in front of the chain of its cause.
fn prepend_entry(message: String, location: Location, cause: (Vec<ErrorEntry>, Option<String>)) -> (c: (Vec<ErrorEntry>, Option<String>))
    requires
        cause.0@.len() < usize::MAX - 2,
    ensures
        entry_messages(c.0@) == seq![message@] + entry_messages(cause.0@),
        entry_locations(c.0@) == seq![location.text()] + entry_locations(cause.0@),
        c.1 == cause.1,
        c.0@.len() == cause.0@.len() + 1,
{
    let (rest, root) = cause;
    let mut v = Vec::new();
    let ghost m = message@;
    v.push(ErrorEntry { message, location });
    let mut rest = rest;
    v.append(&mut rest);
    assert(entry_messages(v@) =~= seq![m] + entry_messages(cause.0@));
    assert(entry_locations(v@) =~= seq![location.text()] + entry_locations(cause.0@));
    (v, root)
}

pub(crate) fn single_entry(message: String, location: Location) -> (c: (Vec<ErrorEntry>, Option<String>))
    ensures
        entry_messages(c.0@) == seq![message@],
        entry_locations(c.0@) == seq![location.text()],
        c.1 is None,
        c.0@.len() == 1,
{
    let ghost m = message@;
    let mut v = Vec::new();
    v.push(ErrorEntry { message, location });
    assert(entry_messages(v@) =~= seq![m]);
    assert(entry_locations(v@) =~= seq![location.text()]);
    (v, None)
}

fn rooted_entry(message: String, location: Location, root: String) -> (c: (Vec<ErrorEntry>, Option<String>))
    ensures
        entry_messages(c.0@) == seq![message@],
        entry_locations(c.0@) == seq![location.text()],
        c.1 == Some(root),
        c.0@.len() == 1,
{
    let (v, _) = single_entry(message, location);
    (v, Some(root))
}

impl ErrorExt for LengthLimitError {
    open spec fn message_spec(&self) -> Seq<char> {
        length_limit_message(self.limit)
    }

    fn message(&self) -> (m: String) {
        let mut m = String::from_str("length limit exceeded, limit is `");
        push_decimal(&mut m, self.limit as u64);
        push_char(&mut m, '`');
        proof {
            reveal_strlit("length limit exceeded, limit is `");
        }
        assert(m@ =~= length_limit_message(self.limit));
        m
    }

    open spec fn chain_spec(&self) -> (Seq<Seq<char>>, Seq<Seq<char>>, Option<Seq<char>>) {
        single_chain(self.message_spec(), self.location)
    }

    fn chain(&self) -> (c: (Vec<ErrorEntry>, Option<String>)) {
        single_entry(self.message(), self.location)
    }
}

impl ErrorExt for ReadBytesError {
    open spec fn message_spec(&self) -> Seq<char> {
        match self {
            ReadBytesError::LengthLimitError { source, .. } => source.message_spec(),
            ReadBytesError::UnknownBodyError { .. } => "failed to read bytes from request body"@,
        }
    }

    fn message(&self) -> (m: String) {
        match self {
            ReadBytesError::LengthLimitError { source, .. } => source.message(),
            ReadBytesError::UnknownBodyError { .. } => String::from_str("failed to read bytes from request body"),
        }
    }

    open spec fn chain_spec(&self) -> (Seq<Seq<char>>, Seq<Seq<char>>, Option<Seq<char>>) {
        match self {
            ReadBytesError::LengthLimitError { location, source } =>
                caused_chain(self.message_spec(), *location, source.chain_spec()),
            ReadBytesError::UnknownBodyError { location, source } =>
                rooted_chain(self.message_spec(), *location, source@),
        }
    }

    fn chain(&self) -> (c: (Vec<ErrorEntry>, Option<String>)) {
        match self {
            ReadBytesError::LengthLimitError { location, source } => {
                let cause = source.chain();
                prepend_entry(self.message(), *location, cause)
            },
            ReadBytesError::UnknownBodyError { location, source } => {
                rooted_entry(self.message(), *location, source.clone())
            },
        }
    }
}

impl ErrorExt for ReadStringError {
    open spec fn message_spec(&self) -> Seq<char> {
        match self {
            ReadStringError::ReadBytes { source, .. } => source.message_spec(),
            ReadStringError::InvalidUtf8 { source, .. } => source@,
        }
    }

    fn message(&self) -> (m: String) {
        match self {
            ReadStringError::ReadBytes { source, .. } => source.message(),
            ReadStringError::InvalidUtf8 { source, .. } => source.clone(),
        }
    }

    open spec fn chain_spec(&self) -> (Seq<Seq<char>>, Seq<Seq<char>>, Option<Seq<char>>) {
        match self {
            ReadStringError::ReadBytes { location, source } =>
                caused_chain(self.message_spec(), *location, source.chain_spec()),
            ReadStringError::InvalidUtf8 { location, source } =>
                rooted_chain(self.message_spec(), *location, source@),
        }
    }

    fn chain(&self) -> (c: (Vec<ErrorEntry>, Option<String>)) {
        match self {
            ReadStringError::ReadBytes { location, source } => {
                let cause = source.chain();
                prepend_entry(self.message(), *location, cause)
            },
            ReadStringError::InvalidUtf8 { location, source } => {
                rooted_entry(self.message(), *location, source.clone())
            },
        }
    }
}

} // verus!
