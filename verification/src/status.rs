//! HTTP status codes, held as their numbers.

use vstd::prelude::*;

verus! {

pub const OK: u16 = 200;
pub const BAD_REQUEST: u16 = 400;
pub const PAYLOAD_TOO_LARGE: u16 = 413;
pub const INTERNAL_SERVER_ERROR: u16 = 500;

/// The numbers that `http` accepts as status codes.
pub open spec fn valid_status(code: u16) -> bool {
    100 <= code <= 999
}

/// Whether `code` is a status code: `http::StatusCode::from_u16` accepts
/// exactly the numbers from 100 to 999, and so does this.
pub(crate) fn status_code_is_valid(code: u16) -> (valid: bool)
    ensures
        valid == valid_status(code),
{
    100 <= code && code <= 999
}

/// The reason phrase that `http` registers for a status code, if any.
pub uninterp spec fn canonical_reason_of(code: u16) -> Option<Seq<char>>;

/// `http::StatusCode::canonical_reason` of the status code `code`. The
/// contract ties the phrase to the code by a name: the phrase table itself
/// is left unstated.
#[verifier::external_body]
pub(crate) fn canonical_reason(code: u16) -> (reason: Option<&'static str>)
    requires
        valid_status(code),
    ensures
        match reason {
            Some(r) => canonical_reason_of(code) == Some(r@),
            None => canonical_reason_of(code) is None,
        },
{
    match http::StatusCode::from_u16(code) {
        Ok(status) => status.canonical_reason(),
        Err(_) => None,
    }
}

/// The description that an error response of status `code` carries in the
/// OpenAPI document: the reason phrase, or nothing.
pub open spec fn reason_or_empty(code: u16) -> Seq<char> {
    match canonical_reason_of(code) {
        Some(r) => r,
        None => Seq::empty(),
    }
}

/// The reason phrase of a valid status code, or the empty string.
pub fn reason_text(code: u16) -> (s: String)
    requires
        valid_status(code),
    ensures
        s@ == reason_or_empty(code),
{
    match canonical_reason(code) {
        Some(r) => String::from_str(r),
        None => String::new(),
    }
}

} // verus!
