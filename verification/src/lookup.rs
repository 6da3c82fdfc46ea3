//! Reading the record of an identity by its DID.

use vstd::prelude::*;
use vstd::string::*;
use vstd::utf8::encode_utf8;
use crate::exchange::{Reply, ReplyView, Request, RequestView, Step, StepView, StoreOp, StoreOpView};
use crate::storage::keys::{did_index_key, record_key, record_key_of};
use crate::storage::{value_of, value_outcome, StorageError, StorageErrorView};
use crate::{DilokDidError, DilokDidErrorView};

verus! {

/// What a lookup waits for.
#[derive(Debug, Clone, PartialEq, Eq)]
pub enum Lookup {
    /// The index entry of the DID.
    Index { did: String },
    /// The record of the identity that the DID names.
    Record { id: Vec<u8> },
}

/// A lookup under way, as mathematical values.
pub enum LookupView {
    Index { did: Seq<char> },
    Record { id: Seq<u8> },
}

impl View for Lookup {
    type V = LookupView;

    open spec fn view(&self) -> LookupView {
        match self {
            Lookup::Index { did } => LookupView::Index { did: did@ },
            Lookup::Record { id } => LookupView::Record { id: id@ },
        }
    }
}

/// The text of the error for a DID that the registry does not know.
pub open spec fn unknown_did(did: Seq<char>) -> Seq<char> {
    "DID "@ + did + " is not registered"@
}

/// The text of the error for an indexed identity without a record.
pub open spec fn missing_record() -> Seq<char> {
    "identity has no record"@
}

/// How a lookup begins: with the index entry of the DID.
pub open spec fn lookup_start(did: Seq<char>) -> StepView<LookupView, Seq<u8>> {
    StepView::Continue(
        LookupView::Index { did },
        RequestView::Registry(StoreOpView::Read { key: did_index_key(encode_utf8(did)) }),
    )
}

/// What a lookup in state `s` does when `reply` comes.
///
/// A DID without an index entry is `NotFound`. An index entry leads to the
/// record of the identity it names; the record is the result, and an
/// identity without one is an `IntegrityError`. A read that fails ends the
/// lookup with its error.
pub open spec fn lookup_next(s: LookupView, reply: ReplyView) -> StepView<LookupView, Seq<u8>> {
    match value_outcome(reply) {
        Err(e) => StepView::Finish(Err(DilokDidErrorView::StorageError(e))),
        Ok(found) => match s {
            LookupView::Index { did } => match found {
                None => StepView::Finish(
                    Err(DilokDidErrorView::StorageError(StorageErrorView::NotFound(unknown_did(did)))),
                ),
                Some(id) => StepView::Continue(
                    LookupView::Record { id },
                    RequestView::Registry(StoreOpView::Read { key: record_key(id) }),
                ),
            },
            LookupView::Record { id } => match found {
                None => StepView::Finish(
                    Err(
                        DilokDidErrorView::StorageError(
                            StorageErrorView::IntegrityError(missing_record()),
                        ),
                    ),
                ),
                Some(record) => StepView::Finish(Ok(record)),
            },
        },
    }
}

/// Writes the text of the error for a DID that the registry does not know.
pub fn unknown_did_text(did: &str) -> (text: String)
    ensures
        text@ == unknown_did(did@),
{
    "DID ".to_owned().concat(did).concat(" is not registered")
}

impl Lookup {
    /// Takes the reply to the request that is out and says what comes
    /// next.
    pub fn step(self, reply: Reply) -> (next: Step<Lookup, Vec<u8>>)
        ensures
            next@ == lookup_next(self@, reply@),
    {
        let found = match value_of(reply) {
            Ok(found) => found,
            Err(e) => {
                return Step::Finish(Err(DilokDidError::StorageError(e)));
            },
        };
        match self {
            Lookup::Index { did } => match found {
                None => Step::Finish(
                    Err(
                        DilokDidError::StorageError(
                            StorageError::NotFound(unknown_did_text(did.as_str())),
                        ),
                    ),
                ),
                Some(id) => {
                    let key = record_key_of(id.as_slice());
                    Step::Continue(Lookup::Record { id }, Request::Registry(StoreOp::Read { key }))
                },
            },
            Lookup::Record { id } => match found {
                None => Step::Finish(
                    Err(
                        DilokDidError::StorageError(
                            StorageError::IntegrityError("identity has no record".to_owned()),
                        ),
                    ),
                ),
                Some(record) => Step::Finish(Ok(record)),
            },
        }
    }
}

} // verus!
