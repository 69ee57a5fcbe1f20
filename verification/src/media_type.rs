//! Media types: which `Content-Type` a body type accepts and which it declares.

use vstd::prelude::*;

verus! {

/// `mime::Mime`, carried opaquely.
#[verifier::external_type_specification]
#[verifier::external_body]
pub struct ExMime(mime::Mime);

/// A parsed `Content-Type` together with the text it was parsed from. Only
/// `parse_mime` makes one.
pub struct ParsedMime {
    mime: mime::Mime,
    source: String,
}

impl View for ParsedMime {
    type V = Seq<char>;

    /// The text this media type was parsed from.
    closed spec fn view(&self) -> Seq<char> {
        self.source@
    }
}

/// Whether `mime` parses `content_type` as a media type.
pub uninterp spec fn mime_parses(content_type: Seq<char>) -> bool;

/// Whether the type of the media type parsed from `content_type` is `ty`.
pub uninterp spec fn mime_type_is(content_type: Seq<char>, ty: Seq<char>) -> bool;

/// Whether the subtype of the media type parsed from `content_type` is `subtype`.
pub uninterp spec fn mime_subtype_is(content_type: Seq<char>, subtype: Seq<char>) -> bool;

/// Whether the media type parsed from `content_type` has the `+suffix` `suffix`.
pub uninterp spec fn mime_suffix_is(content_type: Seq<char>, suffix: Seq<char>) -> bool;

/// Whether the media type parsed from `content_type` has the parameter `key`
/// with the value `value`.
pub uninterp spec fn mime_param_is(content_type: Seq<char>, key: Seq<char>, value: Seq<char>) -> bool;

/// `<mime::Mime as FromStr>::from_str`: the result exists exactly when `mime`
/// accepts the text, named by `mime_parses`; the grammar is left unstated.
#[verifier::external_body]
fn parse_mime(content_type: &str) -> (m: Option<ParsedMime>)
    ensures
        m is Some <==> mime_parses(content_type@),
        m matches Some(p) ==> p@ == content_type@,
{
    match content_type.parse::<mime::Mime>() {
        Ok(mime) => Some(ParsedMime { mime, source: content_type.to_string() }),
        Err(_) => None,
    }
}

/// `mime::Mime::type_` compared with `ty` (as `mime` compares names, without
/// regard to ASCII case); named by `mime_type_is`.
#[verifier::external_body]
fn mime_type_eq(m: &ParsedMime, ty: &str) -> (r: bool)
    ensures
        r == mime_type_is(m@, ty@),
{
    m.mime.type_() == ty
}

/// `mime::Mime::subtype` compared with `subtype`; named by `mime_subtype_is`.
#[verifier::external_body]
fn mime_subtype_eq(m: &ParsedMime, subtype: &str) -> (r: bool)
    ensures
        r == mime_subtype_is(m@, subtype@),
{
    m.mime.subtype() == subtype
}

/// `mime::Mime::suffix`: whether there is one and it equals `suffix`; named
/// by `mime_suffix_is`.
#[verifier::external_body]
fn mime_suffix_eq(m: &ParsedMime, suffix: &str) -> (r: bool)
    ensures
        r == mime_suffix_is(m@, suffix@),
{
    m.mime.suffix().is_some_and(|name| name == suffix)
}

/// `mime::Mime::get_param`: whether the parameter `key` is present and its
/// value equals `value`; named by `mime_param_is`.
#[verifier::external_body]
fn mime_param_eq(m: &ParsedMime, key: &str, value: &str) -> (r: bool)
    ensures
        r == mime_param_is(m@, key@, value@),
{
    m.mime.get_param(key).is_some_and(|name| name == value)
}

/// Whether a parsed media type is the one asked for: its type matches, its
/// subtype or its suffix matches, and the parameter asked for, if any, has the
/// value asked for.
pub open spec fn media_type_verdict(type_ok: bool, subtype_ok: bool, suffix_ok: bool, param_ok: Option<bool>) -> bool {
    &&& type_ok
    &&& subtype_ok || suffix_ok
    &&& match param_ok {
        Some(ok) => ok,
        None => true,
    }
}

/// A media type is the one asked for exactly when its type matches, its
/// subtype or its suffix matches, and the parameter asked for, if any, has
/// the value asked for: any one mismatch refuses it.
pub proof fn lemma_media_type_verdict(type_ok: bool, subtype_ok: bool, suffix_ok: bool, param_ok: Option<bool>)
    ensures
        !type_ok ==> !media_type_verdict(type_ok, subtype_ok, suffix_ok, param_ok),
        !subtype_ok && !suffix_ok ==> !media_type_verdict(type_ok, subtype_ok, suffix_ok, param_ok),
        param_ok == Some(false) ==> !media_type_verdict(type_ok, subtype_ok, suffix_ok, param_ok),
        type_ok && (subtype_ok || suffix_ok) && param_ok != Some(false)
            ==> media_type_verdict(type_ok, subtype_ok, suffix_ok, param_ok),
{
}

/// The decision of `has_media_type` from what the parsed media type answered.
pub fn media_type_decision(type_ok: bool, subtype_ok: bool, suffix_ok: bool, param_ok: Option<bool>) -> (has: bool)
    ensures
        has == media_type_verdict(type_ok, subtype_ok, suffix_ok, param_ok),
        has <==> type_ok && (subtype_ok || suffix_ok) && param_ok != Some(false),
{
    let mut has = type_ok && (subtype_ok || suffix_ok);
    match param_ok {
        Some(ok) => {
            has = has && ok;
        },
        None => {},
    }
    has
}

/// What `has_media_type` answers for a `Content-Type` text.
pub open spec fn has_media_type_spec(
    content_type: Seq<char>,
    ty: Seq<char>,
    subtype: Seq<char>,
    suffix: Seq<char>,
    param: Option<(Seq<char>, Seq<char>)>,
) -> bool {
    &&& mime_parses(content_type)
    &&& media_type_verdict(
        mime_type_is(content_type, ty),
        mime_subtype_is(content_type, subtype),
        mime_suffix_is(content_type, suffix),
        match param {
            Some((k, v)) => Some(mime_param_is(content_type, k, v)),
            None => None,
        },
    )
}

/// Whether `content_type` names the media type `ty/subtype` (or one with the
/// `+suffix`), with the parameter `param` if one is given. Text that does not
/// parse as a media type names none.
pub fn has_media_type(
    content_type: &str,
    ty: &str,
    subtype: &str,
    suffix: &str,
    param: Option<(&str, &str)>,
) -> (has: bool)
    ensures
        has == has_media_type_spec(
            content_type@,
            ty@,
            subtype@,
            suffix@,
            match param {
                Some((k, v)) => Some((k@, v@)),
                None => None,
            },
        ),
        !mime_parses(content_type@) ==> has == false,
        has ==> mime_type_is(content_type@, ty@),
        has ==> mime_subtype_is(content_type@, subtype@) || mime_suffix_is(content_type@, suffix@),
        param matches Some((k, v)) ==> (has ==> mime_param_is(content_type@, k@, v@)),
{
    let mime = match parse_mime(content_type) {
        Some(m) => m,
        None => {
            return false;
        },
    };
    let type_ok = mime_type_eq(&mime, ty);
    let subtype_ok = mime_subtype_eq(&mime, subtype);
    let suffix_ok = mime_suffix_eq(&mime, suffix);
    let param_ok = match param {
        Some((key, value)) => Some(mime_param_eq(&mime, key, value)),
        None => None,
    };
    media_type_decision(type_ok, subtype_ok, suffix_ok, param_ok)
}

/// The media type that text bodies declare.
pub open spec fn text_plain_utf8() -> Seq<char> {
    "text/plain; charset=utf-8"@
}

/// The media type that byte bodies declare.
pub open spec fn octet_stream() -> Seq<char> {
    "application/octet-stream"@
}

/// The media type that multipart forms declare.
pub open spec fn multipart_form_data() -> Seq<char> {
    "multipart/form-data"@
}

/// Whether a `Content-Type` is acceptable for a text body.
pub open spec fn accepts_text(content_type: Seq<char>) -> bool {
    has_media_type_spec(content_type, "text"@, "plain"@, "plain"@, Some(("charset"@, "utf-8"@)))
}

/// Whether a `Content-Type` is acceptable for a byte body.
pub open spec fn accepts_bytes(content_type: Seq<char>) -> bool {
    has_media_type_spec(content_type, "application"@, "octet-stream"@, "octet-stream"@, None)
}

/// Whether a `Content-Type` is acceptable for a multipart form.
pub open spec fn accepts_multipart(content_type: Seq<char>) -> bool {
    has_media_type_spec(content_type, "multipart"@, "form-data"@, "form-data"@, None)
}

/// A body type with a single media type.
pub trait MediaType {
    spec fn media_type_spec() -> Seq<char>;

    /// The media type this body type declares.
    fn media_type() -> (m: &'static str)
        ensures
            m@ == Self::media_type_spec(),
    ;
}

/// A body type that a request can carry.
pub trait RequestMediaType {
    /// Which `Content-Type` texts this body type accepts.
    spec fn accepts(content_type: Seq<char>) -> bool;

    fn check_content_type(content_type: &str) -> (ok: bool)
        ensures
            ok == Self::accepts(content_type@),
    ;
}

/// A body type that a response can carry.
pub trait ResponseMediaType {}

/// Checks at compile time that `T` can be the body of a response.
pub fn assert_response_media_type<T: ResponseMediaType>() {
}

/// Whether a `Content-Type` is acceptable for a text body.
pub fn check_text_content_type(content_type: &str) -> (ok: bool)
    ensures
        ok == accepts_text(content_type@),
        ok <==> mime_parses(content_type@) && mime_type_is(content_type@, "text"@)
            && (mime_subtype_is(content_type@, "plain"@) || mime_suffix_is(content_type@, "plain"@))
            && mime_param_is(content_type@, "charset"@, "utf-8"@),
{
    let r = has_media_type(content_type, "text", "plain", "plain", Some(("charset", "utf-8")));
    proof {
        reveal_strlit("text");
        reveal_strlit("plain");
        reveal_strlit("charset");
        reveal_strlit("utf-8");
    }
    r
}

/// Whether a `Content-Type` is acceptable for a byte body.
pub fn check_bytes_content_type(content_type: &str) -> (ok: bool)
    ensures
        ok == accepts_bytes(content_type@),
        ok <==> mime_parses(content_type@) && mime_type_is(content_type@, "application"@)
            && (mime_subtype_is(content_type@, "octet-stream"@) || mime_suffix_is(content_type@, "octet-stream"@)),
{
    let r = has_media_type(content_type, "application", "octet-stream", "octet-stream", None);
    proof {
        reveal_strlit("application");
        reveal_strlit("octet-stream");
    }
    r
}

/// Whether a `Content-Type` is acceptable for a multipart form.
pub fn check_multipart_content_type(content_type: &str) -> (ok: bool)
    ensures
        ok == accepts_multipart(content_type@),
        ok <==> mime_parses(content_type@) && mime_type_is(content_type@, "multipart"@)
            && (mime_subtype_is(content_type@, "form-data"@) || mime_suffix_is(content_type@, "form-data"@)),
{
    let r = has_media_type(content_type, "multipart", "form-data", "form-data", None);
    proof {
        reveal_strlit("multipart");
        reveal_strlit("form-data");
    }
    r
}

impl MediaType for String {
    open spec fn media_type_spec() -> Seq<char> {
        text_plain_utf8()
    }

    fn media_type() -> (m: &'static str) {
        proof {
            reveal_strlit("text/plain; charset=utf-8");
        }
        "text/plain; charset=utf-8"
    }
}

impl RequestMediaType for String {
    open spec fn accepts(content_type: Seq<char>) -> bool {
        accepts_text(content_type)
    }

    fn check_content_type(content_type: &str) -> (ok: bool) {
        check_text_content_type(content_type)
    }
}

impl ResponseMediaType for String {}

impl MediaType for Vec<u8> {
    open spec fn media_type_spec() -> Seq<char> {
        octet_stream()
    }

    fn media_type() -> (m: &'static str) {
        proof {
            reveal_strlit("application/octet-stream");
        }
        "application/octet-stream"
    }
}

impl RequestMediaType for Vec<u8> {
    open spec fn accepts(content_type: Seq<char>) -> bool {
        accepts_bytes(content_type)
    }

    fn check_content_type(content_type: &str) -> (ok: bool) {
        check_bytes_content_type(content_type)
    }
}

impl ResponseMediaType for Vec<u8> {}

} // verus!
