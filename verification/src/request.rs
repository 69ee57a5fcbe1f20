//! What a request carries besides the HTTP head: the body limit and the
//! connection's addresses and original URI, which travel through the HTTP
//! request's extensions; and the error when one of them is missing there.

use vstd::prelude::*;
use crate::api_doc::BodyLimit;
use crate::error_stack::{ErrorEntry, ErrorExt};
use crate::location::Location;
use crate::response_error::{single_chain, single_entry};
use crate::status_attr::{all_digits, digits_value, lemma_digits_value_grows, lemma_prefix_value_bound};

verus! {

/// A value that the framework stores in a request's extensions was not found.
pub enum ConvertRequestError {
    NotFoundBodyLimit { location: Location },
    NotFoundLocalAddr { location: Location },
    NotFoundRemoteAddr { location: Location },
    NotFoundOriginalUri { location: Location },
}

impl ConvertRequestError {
    pub open spec fn location_spec(&self) -> Location {
        match self {
            ConvertRequestError::NotFoundBodyLimit { location } => *location,
            ConvertRequestError::NotFoundLocalAddr { location } => *location,
            ConvertRequestError::NotFoundRemoteAddr { location } => *location,
            ConvertRequestError::NotFoundOriginalUri { location } => *location,
        }
    }

    fn location(&self) -> (l: Location)
        ensures
            l == self.location_spec(),
    {
        match self {
            ConvertRequestError::NotFoundBodyLimit { location } => *location,
            ConvertRequestError::NotFoundLocalAddr { location } => *location,
            ConvertRequestError::NotFoundRemoteAddr { location } => *location,
            ConvertRequestError::NotFoundOriginalUri { location } => *location,
        }
    }
}

/// The message of each kind of missing value.
pub open spec fn convert_message(e: ConvertRequestError) -> Seq<char> {
    match e {
        ConvertRequestError::NotFoundBodyLimit { .. } => "not found `body limit` in request extensions"@,
        ConvertRequestError::NotFoundLocalAddr { .. } => "not found `local address` in request extensions"@,
        ConvertRequestError::NotFoundRemoteAddr { .. } => "not found `remote address` in request extensions"@,
        ConvertRequestError::NotFoundOriginalUri { .. } => "not found `original uri` in request extensions"@,
    }
}

impl ErrorExt for ConvertRequestError {
    open spec fn message_spec(&self) -> Seq<char> {
        convert_message(*self)
    }

    fn message(&self) -> (m: String) {
        match self {
            ConvertRequestError::NotFoundBodyLimit { .. } => String::from_str("not found `body limit` in request extensions"),
            ConvertRequestError::NotFoundLocalAddr { .. } => String::from_str("not found `local address` in request extensions"),
            ConvertRequestError::NotFoundRemoteAddr { .. } => String::from_str("not found `remote address` in request extensions"),
            ConvertRequestError::NotFoundOriginalUri { .. } => String::from_str("not found `original uri` in request extensions"),
        }
    }

    /// A single located error with no cause.
    open spec fn chain_spec(&self) -> (Seq<Seq<char>>, Seq<Seq<char>>, Option<Seq<char>>) {
        single_chain(self.message_spec(), self.location_spec())
    }

    fn chain(&self) -> (c: (Vec<ErrorEntry>, Option<String>)) {
        single_entry(self.message(), self.location())
    }
}

/// What the framework keeps of a request besides its head and body: the
/// body limit and the connection's local address, remote address and
/// original URI, carried as the caller gives them.
pub struct RequestParts<L, R, U> {
    pub body_limit: BodyLimit,
    pub local_addr: L,
    pub remote_addr: R,
    pub original_uri: U,
}

/// The parts of a request from the values found in its extensions: all of
/// them when all are there, else the first one missing, in the order body
/// limit, local address, remote address, original URI, reported at
/// `location`.
pub open spec fn taken_parts<L, R, U>(
    body_limit: Option<usize>,
    local_addr: Option<L>,
    remote_addr: Option<R>,
    original_uri: Option<U>,
    location: Location,
) -> Result<RequestParts<L, R, U>, ConvertRequestError> {
    match (body_limit, local_addr, remote_addr, original_uri) {
        (Some(b), Some(l), Some(rm), Some(u)) => Ok(RequestParts { body_limit: BodyLimit(b), local_addr: l, remote_addr: rm, original_uri: u }),
        (None, _, _, _) => Err(ConvertRequestError::NotFoundBodyLimit { location }),
        (Some(_), None, _, _) => Err(ConvertRequestError::NotFoundLocalAddr { location }),
        (Some(_), Some(_), None, _) => Err(ConvertRequestError::NotFoundRemoteAddr { location }),
        (Some(_), Some(_), Some(_), None) => Err(ConvertRequestError::NotFoundOriginalUri { location }),
    }
}

/// What the framework stores of a request when it becomes an `http` request
/// (its body limit, local and remote address and original URI, each in the
/// extensions), it takes back unchanged when the `http` request becomes a
/// request again.
pub proof fn lemma_request_parts_round_trip<L, R, U>(parts: RequestParts<L, R, U>, location: Location)
    ensures
        taken_parts(Some(parts.body_limit.0), Some(parts.local_addr), Some(parts.remote_addr), Some(parts.original_uri), location)
            == Ok::<RequestParts<L, R, U>, ConvertRequestError>(parts),
{
}

/// Takes the values that the framework stored in a request's extensions,
/// as found there.
pub fn take_request_parts<L, R, U>(
    body_limit: Option<usize>,
    local_addr: Option<L>,
    remote_addr: Option<R>,
    original_uri: Option<U>,
    location: Location,
) -> (r: Result<RequestParts<L, R, U>, ConvertRequestError>)
    ensures
        r == taken_parts(body_limit, local_addr, remote_addr, original_uri, location),
{
    let b = match body_limit {
        Some(b) => b,
        None => {
            return Err(ConvertRequestError::NotFoundBodyLimit { location });
        },
    };
    let l = match local_addr {
        Some(l) => l,
        None => {
            return Err(ConvertRequestError::NotFoundLocalAddr { location });
        },
    };
    let rm = match remote_addr {
        Some(rm) => rm,
        None => {
            return Err(ConvertRequestError::NotFoundRemoteAddr { location });
        },
    };
    let u = match original_uri {
        Some(u) => u,
        None => {
            return Err(ConvertRequestError::NotFoundOriginalUri { location });
        },
    };
    Ok(RequestParts { body_limit: BodyLimit(b), local_addr: l, remote_addr: rm, original_uri: u })
}

/// The length that a `Content-Length` value gives, as `usize`'s `FromStr`
/// reads it: an optional `+`, then decimal digits whose value fits.
pub open spec fn usize_of_text(s: Seq<char>) -> Option<usize> {
    let digits = if s.len() > 0 && s[0] == '+' { s.skip(1) } else { s };
    if all_digits(digits) && digits_value(digits) <= usize::MAX {
        Some(digits_value(digits) as usize)
    } else {
        None
    }
}

/// A length is read from decimal digits whose value fits in `usize`, with
/// or without one leading `+`; any other text is no length.
pub proof fn lemma_lengths(d: Seq<char>)
    ensures
        all_digits(d) && digits_value(d) <= usize::MAX ==> usize_of_text(d) == Some(digits_value(d) as usize),
        all_digits(d) && digits_value(d) <= usize::MAX ==> usize_of_text(seq!['+'] + d) == Some(digits_value(d) as usize),
        !all_digits(d) && (d.len() == 0 || d[0] != '+') ==> usize_of_text(d) is None,
        !all_digits(d) ==> usize_of_text(seq!['+'] + d) is None,
        all_digits(d) && digits_value(d) > usize::MAX ==> usize_of_text(d) is None,
{
    assert((seq!['+'] + d).skip(1) =~= d);
    if all_digits(d) {
        assert(d[0] != '+') by {
            assert('0' <= d[0] <= '9');
        }
    }
}

/// Reads a length written in decimal, with an optional `+`.
pub fn parse_usize(text: &str) -> (v: Option<usize>)
    ensures
        v == usize_of_text(text@),
{
    let n = text.unicode_len();
    let start: usize = if n > 0 && text.get_char(0) == '+' { 1 } else { 0 };
    let ghost digits = if text@.len() > 0 && text@[0] == '+' { text@.skip(1) } else { text@ };
    assert(digits =~= text@.skip(start as int));
    if start == n {
        return None;
    }
    let mut value: u128 = 0;
    let mut i: usize = start;
    while i < n
        invariant
            n == text@.len(),
            start <= i <= n,
            start < n,
            digits == text@.skip(start as int),
            digits == (if text@.len() > 0 && text@[0] == '+' { text@.skip(1) } else { text@ }),
            forall|k: int| 0 <= k < i - start ==> '0' <= #[trigger] digits[k] <= '9',
            value == digits_value(digits.take(i - start)),
            value <= usize::MAX,
        decreases n - i,
    {
        let c = text.get_char(i);
        assert(c == digits[i - start]);
        if c < '0' || c > '9' {
            assert(!all_digits(digits));
            return None;
        }
        proof {
            lemma_digits_value_grows(digits.take(i - start), c);
            assert(digits.take(i - start + 1) =~= digits.take(i - start).push(c));
        }
        let d: u32 = (c as u32) - 48;
        value = value * 10 + (d as u128);
        i = i + 1;
        if value > usize::MAX as u128 {
            proof {
                lemma_prefix_value_bound(digits, i - start);
            }
            return None;
        }
    }
    assert(digits.take(n - start) =~= digits);
    Some(value as usize)
}

/// The length of a body as its `Content-Length` header value gives it, if
/// the header is there and readable as a length.
pub fn content_length(value: Option<&str>) -> (n: Option<usize>)
    ensures
        n == match value {
            Some(v) => usize_of_text(v@),
            None => None,
        },
{
    match value {
        Some(v) => parse_usize(v),
        None => None,
    }
}

} // verus!
