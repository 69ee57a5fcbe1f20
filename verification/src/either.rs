//! One of two values; as an error, the error it holds.

use vstd::prelude::*;
use std::collections::BTreeSet;
use crate::error_stack::{ErrorEntry, ErrorExt};
use crate::response_error::ResponseError;

verus! {

broadcast use {vstd::std_specs::btree::group_btree_axioms, vstd::laws_cmp::group_laws_cmp};

/// A value that is one of two kinds.
#[derive(Debug)]
pub enum Either<L, R> {
    Left(L),
    Right(R),
}

impl<L: ErrorExt, R: ErrorExt> ErrorExt for Either<L, R> {
    open spec fn message_spec(&self) -> Seq<char> {
        match self {
            Either::Left(l) => l.message_spec(),
            Either::Right(r) => r.message_spec(),
        }
    }

    fn message(&self) -> (m: String) {
        match self {
            Either::Left(l) => l.message(),
            Either::Right(r) => r.message(),
        }
    }

    open spec fn chain_spec(&self) -> (Seq<Seq<char>>, Seq<Seq<char>>, Option<Seq<char>>) {
        match self {
            Either::Left(l) => l.chain_spec(),
            Either::Right(r) => r.chain_spec(),
        }
    }

    fn chain(&self) -> (c: (Vec<ErrorEntry>, Option<String>)) {
        match self {
            Either::Left(l) => l.chain(),
            Either::Right(r) => r.chain(),
        }
    }
}

impl<L: ResponseError, R: ResponseError> ResponseError for Either<L, R> {
    open spec fn status_spec(&self) -> u16 {
        match self {
            Either::Left(l) => l.status_spec(),
            Either::Right(r) => r.status_spec(),
        }
    }

    open spec fn status_codes_spec() -> Set<u16> {
        L::status_codes_spec().union(R::status_codes_spec())
    }

    fn as_status(&self) -> (s: u16) {
        match self {
            Either::Left(l) => l.as_status(),
            Either::Right(r) => r.as_status(),
        }
    }

    fn status_codes(codes: &mut BTreeSet<u16>) {
        L::status_codes(codes);
        R::status_codes(codes);
        assert(codes@ =~= old(codes)@.union(Self::status_codes_spec()));
    }

    proof fn lemma_status_listed(&self) {
        match self {
            Either::Left(l) => l.lemma_status_listed(),
            Either::Right(r) => r.lemma_status_listed(),
        }
    }

    proof fn lemma_codes_valid() {
        L::lemma_codes_valid();
        R::lemma_codes_valid();
    }
}

} // verus!
