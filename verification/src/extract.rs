//! What the body extractors make of what reading a request body gave:
//! the bytes, or the error that answers the request.

use vstd::prelude::*;
use vstd::utf8::{decode_utf8, valid_utf8};
use crate::api_doc::BodyLimit;
use crate::location::Location;
use crate::response_error::{LengthLimitError, ReadBytesError, ReadStringError};

verus! {

/// How reading a request body ended.
pub enum BodyRead {
    /// The whole body, within the limit.
    Collected(Vec<u8>),
    /// The body was longer than the limit.
    TooLong,
    /// Reading failed; the rendered cause.
    Failed(String),
}

/// The bytes of a body, or why they could not be read: a body longer than
/// the limit is refused with the limit (the length error located at
/// `inner`, the read error at `outer`); any other failure with its cause.
pub fn body_bytes(limit: BodyLimit, read: BodyRead, inner: Location, outer: Location) -> (r: Result<Vec<u8>, ReadBytesError>)
    ensures
        match read {
            BodyRead::Collected(b) => r matches Ok(v) && v@ == b@,
            BodyRead::TooLong => r matches Err(ReadBytesError::LengthLimitError { location, source })
                && location == outer && source.location == inner && source.limit == limit.0,
            BodyRead::Failed(cause) => r matches Err(ReadBytesError::UnknownBodyError { location, source })
                && location == outer && source@ == cause@,
        },
{
    match read {
        BodyRead::Collected(b) => Ok(b),
        BodyRead::TooLong => Err(ReadBytesError::LengthLimitError {
            location: outer,
            source: LengthLimitError { location: inner, limit: limit.0 },
        }),
        BodyRead::Failed(cause) => Err(ReadBytesError::UnknownBodyError { location: outer, source: cause }),
    }
}

/// The message with which `String::from_utf8` refuses these bytes.
pub uninterp spec fn utf8_error_message(bytes: Seq<u8>) -> Seq<char>;

/// `String::from_utf8`: the text the bytes encode when they are valid
/// UTF-8, else the rendered error, named by `utf8_error_message`.
#[verifier::external_body]
fn decode_text(bytes: Vec<u8>) -> (r: Result<String, String>)
    ensures
        match r {
            Ok(s) => valid_utf8(bytes@) && s@ == decode_utf8(bytes@),
            Err(m) => !valid_utf8(bytes@) && m@ == utf8_error_message(bytes@),
        },
{
    match String::from_utf8(bytes) {
        Ok(s) => Ok(s),
        Err(e) => Err(e.to_string()),
    }
}

/// The text of a body: its bytes when they are valid UTF-8; the error of
/// reading the bytes, or the refusal of invalid UTF-8, located at
/// `location`, otherwise.
pub fn body_string(bytes: Result<Vec<u8>, ReadBytesError>, location: Location) -> (r: Result<String, ReadStringError>)
    ensures
        match bytes {
            Err(e) => r matches Err(ReadStringError::ReadBytes { location: l, source }) && l == location && source == e,
            Ok(b) => if valid_utf8(b@) {
                r matches Ok(s) && s@ == decode_utf8(b@)
            } else {
                r matches Err(ReadStringError::InvalidUtf8 { location: l, source }) && l == location
                    && source@ == utf8_error_message(b@)
            },
        },
{
    match bytes {
        Err(e) => Err(ReadStringError::ReadBytes { location, source: e }),
        Ok(b) => match decode_text(b) {
            Ok(s) => Ok(s),
            Err(m) => Err(ReadStringError::InvalidUtf8 { location, source: m }),
        },
    }
}

} // verus!
