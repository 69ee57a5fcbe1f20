//! Status codes written in attributes: `#[single_response(status = 404)]`
//! and `#[status = 404]` on the variants of a multi-response enum.

use vstd::prelude::*;
use std::collections::BTreeSet;
use crate::attr::{ident_is, is_ident, Attr, AttrExpr, AttrLit, AttrMeta};
use crate::status::{status_code_is_valid, valid_status, OK};

verus! {

broadcast use {vstd::std_specs::btree::group_btree_axioms, vstd::laws_cmp::group_laws_cmp};

/// Whether `s` is a non-empty run of ASCII digits.
pub open spec fn all_digits(s: Seq<char>) -> bool {
    s.len() > 0 && forall|i: int| 0 <= i < s.len() ==> '0' <= #[trigger] s[i] <= '9'
}

/// The value of a run of ASCII digits.
pub open spec fn digits_value(s: Seq<char>) -> nat
    decreases s.len(),
{
    if s.len() == 0 {
        0
    } else {
        digits_value(s.drop_last()) * 10 + ((s.last() as nat) - 48) as nat
    }
}

/// The `u16` that a run of decimal digits denotes, if it is one and fits.
pub open spec fn u16_of_digits(s: Seq<char>) -> Option<u16> {
    if all_digits(s) && digits_value(s) <= u16::MAX {
        Some(digits_value(s) as u16)
    } else {
        None
    }
}

pub(crate) proof fn lemma_digits_value_grows(s: Seq<char>, c: char)
    requires
        '0' <= c <= '9',
    ensures
        digits_value(s.push(c)) == digits_value(s) * 10 + ((c as nat) - 48),
        digits_value(s.push(c)) >= digits_value(s),
{
    assert(s.push(c).drop_last() =~= s);
}

/// The value of a prefix of a run of digits is at most the value of the run.
pub(crate) proof fn lemma_prefix_value_bound(s: Seq<char>, i: int)
    requires
        0 <= i <= s.len(),
    ensures
        all_digits(s) ==> digits_value(s.take(i)) <= digits_value(s),
    decreases s.len() - i,
{
    if i < s.len() && all_digits(s) {
        lemma_prefix_value_bound(s, i + 1);
        lemma_digits_value_grows(s.take(i), s[i]);
        assert(s.take(i + 1) =~= s.take(i).push(s[i]));
    } else if i == s.len() {
        assert(s.take(i) =~= s);
    }
}

/// The value of the decimal digits of an integer literal as a `u16`, as
/// `base10_parse::<u16>` gives it: `None` when the text is not digits or the
/// value does not fit.
pub fn parse_u16_digits(digits: &str) -> (v: Option<u16>)
    ensures
        v == u16_of_digits(digits@),
{
    let n = digits.unicode_len();
    if n == 0 {
        return None;
    }
    let mut value: u32 = 0;
    let mut i: usize = 0;
    while i < n
        invariant
            n == digits@.len(),
            n > 0,
            i <= n,
            forall|k: int| 0 <= k < i ==> '0' <= #[trigger] digits@[k] <= '9',
            value == digits_value(digits@.take(i as int)),
            value <= u16::MAX,
        decreases n - i,
    {
        let c = digits.get_char(i);
        if c < '0' || c > '9' {
            assert(!all_digits(digits@));
            return None;
        }
        proof {
            lemma_digits_value_grows(digits@.take(i as int), c);
            assert(digits@.take(i + 1) =~= digits@.take(i as int).push(c));
        }
        let d: u32 = (c as u32) - 48;
        value = value * 10 + d;
        i = i + 1;
        if value > 65535 {
            proof {
                lemma_prefix_value_bound(digits@, i as int);
            }
            return None;
        }
    }
    assert(digits@.take(n as int) =~= digits@);
    Some(value as u16)
}

/// Why the status written in `#[single_response(status = ...)]` or
/// `#[multi_response_media_type(status = ...)]` is refused.
#[derive(Clone, Copy, Debug, PartialEq, Eq, Structural)]
pub enum StatusValueError {
    /// The literal does not fit in a `u16`.
    NotU16,
    /// The number is not a status code.
    InvalidStatusCode,
}

/// A response written without a status answers 200; a written status is
/// used exactly when it is a run of digits whose value is from 100 to 999.
pub proof fn lemma_status_values(d: Seq<char>)
    ensures
        status_value(None) == Ok::<u16, StatusValueError>(200),
        status_value(Some(d)) matches Ok(c) ==> all_digits(d) && digits_value(d) == c && 100 <= c <= 999,
        all_digits(d) && 100 <= digits_value(d) <= 999 ==> status_value(Some(d)) == Ok::<u16, StatusValueError>(digits_value(d) as u16),
        !all_digits(d) ==> status_value(Some(d)) == Err::<u16, StatusValueError>(StatusValueError::NotU16),
{
}

/// The status of a single response: 200 when none is written, else the
/// written one, which must be a valid status code.
pub open spec fn status_value(digits: Option<Seq<char>>) -> Result<u16, StatusValueError> {
    match digits {
        None => Ok(OK),
        Some(d) => match u16_of_digits(d) {
            None => Err(StatusValueError::NotU16),
            Some(c) => if valid_status(c) {
                Ok(c)
            } else {
                Err(StatusValueError::InvalidStatusCode)
            },
        },
    }
}

/// The status of a single response from the digits of the literal written,
/// if any.
pub fn extract_status_code_value(digits: Option<&str>) -> (r: Result<u16, StatusValueError>)
    ensures
        r == status_value(match digits { Some(d) => Some(d@), None => None }),
        digits is None ==> r == Ok::<u16, StatusValueError>(200),
        r matches Ok(c) ==> 100 <= c <= 999,
        digits matches Some(d) ==> (r matches Ok(c) ==> all_digits(d@) && digits_value(d@) == c),
        digits matches Some(d) ==> (all_digits(d@) && 100 <= digits_value(d@) <= 999 ==> r == Ok::<u16, StatusValueError>(digits_value(d@) as u16)),
{
    match digits {
        None => Ok(OK),
        Some(d) => match parse_u16_digits(d) {
            None => Err(StatusValueError::NotU16),
            Some(c) => if status_code_is_valid(c) {
                Ok(c)
            } else {
                Err(StatusValueError::InvalidStatusCode)
            },
        },
    }
}

/// Why a `#[status = ...]` attribute (the one at the given position among the
/// variant's attributes) is refused.
#[derive(Clone, Copy, Debug, PartialEq, Eq, Structural)]
pub enum StatusAttrError {
    /// It is not written `#[status = ...]`.
    NotNameValue(usize),
    /// Its value is not an integer literal.
    NotIntLiteral(usize),
    /// The variant already has a `status` attribute.
    MoreThanOne(usize),
    /// The literal does not fit in a `u16`.
    NotU16(usize),
    /// The number is not a status code.
    InvalidStatusCode(usize),
    /// Another variant already answers with this status.
    DuplicateStatusCode(usize),
}

/// What reading one attribute does to the scan state: the status found so
/// far, the statuses of the enum taken so far, and the errors so far.
pub open spec fn status_step(
    st: (Option<u16>, Set<u16>, Seq<StatusAttrError>),
    a: Attr,
    idx: usize,
) -> (Option<u16>, Set<u16>, Seq<StatusAttrError>) {
    let (found, codes, errors) = st;
    if !ident_is(a.ident, "status"@) {
        st
    } else {
        match a.meta {
            AttrMeta::NameValue(AttrExpr::Lit(AttrLit::Int(d))) => {
                if found is Some {
                    (found, codes, errors.push(StatusAttrError::MoreThanOne(idx)))
                } else {
                    match u16_of_digits(d@) {
                        None => (found, codes, errors.push(StatusAttrError::NotU16(idx))),
                        Some(c) => if !valid_status(c) {
                            (found, codes, errors.push(StatusAttrError::InvalidStatusCode(idx)))
                        } else if codes.contains(c) {
                            (found, codes, errors.push(StatusAttrError::DuplicateStatusCode(idx)))
                        } else {
                            (Some(c), codes.insert(c), errors)
                        },
                    }
                }
            },
            AttrMeta::NameValue(_) => (found, codes, errors.push(StatusAttrError::NotIntLiteral(idx))),
            _ => (found, codes, errors.push(StatusAttrError::NotNameValue(idx))),
        }
    }
}

/// The scan of a variant's attributes for its status, starting from the
/// statuses that earlier variants took.
pub open spec fn status_scan(attrs: Seq<Attr>, codes: Set<u16>) -> (Option<u16>, Set<u16>, Seq<StatusAttrError>)
    decreases attrs.len(),
{
    if attrs.len() == 0 {
        (None, codes, Seq::empty())
    } else {
        status_step(status_scan(attrs.drop_last(), codes), attrs.last(), (attrs.len() - 1) as usize)
    }
}

/// The status of a variant of a multi-response enum, from its `#[status = ...]`
/// attribute. `status_codes` holds the statuses that earlier variants took; a
/// status that is accepted is added to it. All refusals are reported.
pub fn extract_status_code(attrs: &Vec<Attr>, status_codes: &mut BTreeSet<u16>) -> (r: Result<Option<u16>, Vec<StatusAttrError>>)
    ensures
        final(status_codes)@ == status_scan(attrs@, old(status_codes)@).1,
        match r {
            Ok(found) => status_scan(attrs@, old(status_codes)@).2.len() == 0
                && found == status_scan(attrs@, old(status_codes)@).0,
            Err(errors) => status_scan(attrs@, old(status_codes)@).2.len() > 0
                && errors@ == status_scan(attrs@, old(status_codes)@).2,
        },
{
    let ghost start = status_codes@;
    let mut errors: Vec<StatusAttrError> = Vec::new();
    let mut found: Option<u16> = None;
    let mut i: usize = 0;
    while i < attrs.len()
        invariant
            i <= attrs.len(),
            (found, status_codes@, errors@) == status_scan(attrs@.take(i as int), start),
        decreases attrs.len() - i,
    {
        let a = &attrs[i];
        assert(attrs@.take(i + 1).drop_last() =~= attrs@.take(i as int));
        if is_ident(&a.ident, "status") {
            match &a.meta {
                AttrMeta::NameValue(AttrExpr::Lit(AttrLit::Int(d))) => {
                    if found.is_some() {
                        errors.push(StatusAttrError::MoreThanOne(i));
                    } else {
                        match parse_u16_digits(d.as_str()) {
                            None => {
                                errors.push(StatusAttrError::NotU16(i));
                            },
                            Some(c) => {
                                if !status_code_is_valid(c) {
                                    errors.push(StatusAttrError::InvalidStatusCode(i));
                                } else if status_codes.contains(&c) {
                                    errors.push(StatusAttrError::DuplicateStatusCode(i));
                                } else {
                                    status_codes.insert(c);
                                    found = Some(c);
                                }
                            },
                        }
                    }
                },
                AttrMeta::NameValue(_) => {
                    errors.push(StatusAttrError::NotIntLiteral(i));
                },
                _ => {
                    errors.push(StatusAttrError::NotNameValue(i));
                },
            }
        }
        i = i + 1;
    }
    assert(attrs@.take(attrs.len() as int) =~= attrs@);
    if errors.len() > 0 {
        Err(errors)
    } else {
        Ok(found)
    }
}

} // verus!
