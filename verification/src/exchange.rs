//! What the engine asks of the outside and what it is told in return.
//!
//! The engine never touches a store or a camera. It hands out a request,
//! whoever runs it performs the request and hands back the reply, and the
//! engine decides what comes next.

use vstd::prelude::*;
use crate::face_recognition::Frame;
use crate::{DilokDidError, DilokDidErrorView};

verus! {

/// One change to a store: a value to put under a key, or, without a value,
/// a key to delete.
#[derive(Debug, Clone, PartialEq, Eq)]
pub struct Mutation {
    pub key: Vec<u8>,
    pub value: Option<Vec<u8>>,
}

/// A change to a store, as mathematical values.
pub struct MutationView {
    pub key: Seq<u8>,
    pub value: Option<Seq<u8>>,
}

/// The bytes of an optional value.
pub open spec fn bytes_view(value: Option<Vec<u8>>) -> Option<Seq<u8>> {
    match value {
        Some(v) => Some(v@),
        None => None,
    }
}

impl View for Mutation {
    type V = MutationView;

    open spec fn view(&self) -> MutationView {
        MutationView { key: self.key@, value: bytes_view(self.value) }
    }
}

/// The changes of a batch, each as mathematical values.
pub open spec fn batch_view(batch: Seq<Mutation>) -> Seq<MutationView> {
    Seq::new(batch.len(), |i: int| batch[i]@)
}

/// An operation on one store.
#[derive(Debug, Clone, PartialEq, Eq)]
pub enum StoreOp {
    /// Read the value under a key.
    Read { key: Vec<u8> },
    /// Apply the changes in order, all of them or none.
    Write { batch: Vec<Mutation> },
}

/// An operation on one store, as mathematical values.
pub enum StoreOpView {
    Read { key: Seq<u8> },
    Write { batch: Seq<MutationView> },
}

impl View for StoreOp {
    type V = StoreOpView;

    open spec fn view(&self) -> StoreOpView {
        match self {
            StoreOp::Read { key } => StoreOpView::Read { key: key@ },
            StoreOp::Write { batch } => StoreOpView::Write { batch: batch_view(batch@) },
        }
    }
}

/// What the engine asks for.
#[derive(Debug, Clone, PartialEq, Eq)]
pub enum Request {
    /// An operation on the registry.
    Registry(StoreOp),
    /// An operation on the vault.
    Vault(StoreOp),
    /// A live capture: one frame for each angle.
    Capture,
}

/// A request, as mathematical values.
pub enum RequestView {
    Registry(StoreOpView),
    Vault(StoreOpView),
    Capture,
}

impl View for Request {
    type V = RequestView;

    open spec fn view(&self) -> RequestView {
        match self {
            Request::Registry(op) => RequestView::Registry(op@),
            Request::Vault(op) => RequestView::Vault(op@),
            Request::Capture => RequestView::Capture,
        }
    }
}

/// What the engine is told in return.
#[derive(Debug, Clone, PartialEq, Eq)]
pub enum Reply {
    /// The value found by a read, if there was one.
    Value(Option<Vec<u8>>),
    /// A write was applied.
    Done,
    /// The request failed, with the reason in words.
    Failed(String),
    /// The frames of a live capture.
    Frames(Vec<Frame>),
}

/// A reply, as mathematical values.
pub enum ReplyView {
    Value(Option<Seq<u8>>),
    Done,
    Failed(Seq<char>),
    Frames(Seq<Frame>),
}

impl View for Reply {
    type V = ReplyView;

    open spec fn view(&self) -> ReplyView {
        match self {
            Reply::Value(v) => ReplyView::Value(bytes_view(*v)),
            Reply::Done => ReplyView::Done,
            Reply::Failed(reason) => ReplyView::Failed(reason@),
            Reply::Frames(frames) => ReplyView::Frames(frames@),
        }
    }
}

/// The text that stands for a reply that does not answer the request.
pub open spec fn unexpected_reply() -> Seq<char> {
    "unexpected reply"@
}

/// Why a request did not succeed, as far as the reply tells: the reason of
/// a failure, and a fixed text for any other reply.
pub open spec fn failure_reason(reply: ReplyView) -> Seq<char> {
    match reply {
        ReplyView::Failed(reason) => reason,
        _ => unexpected_reply(),
    }
}

/// Puts `value` under `key`.
pub fn put(key: Vec<u8>, value: Vec<u8>) -> (m: Mutation)
    ensures
        m@ == (MutationView { key: key@, value: Some(value@) }),
{
    Mutation { key, value: Some(value) }
}

/// Deletes `key`.
pub fn delete(key: Vec<u8>) -> (m: Mutation)
    ensures
        m@ == (MutationView { key: key@, value: None }),
{
    Mutation { key, value: None }
}

/// Two writes as one: the changes of the first, then those of the second,
/// applied together. Anything but two writes gives the first operation.
pub open spec fn joined(first: StoreOpView, second: StoreOpView) -> StoreOpView {
    match (first, second) {
        (StoreOpView::Write { batch }, StoreOpView::Write { batch: more }) => StoreOpView::Write {
            batch: batch + more,
        },
        _ => first,
    }
}

/// Joins two writes into one.
pub fn join(first: StoreOp, second: StoreOp) -> (op: StoreOp)
    ensures
        op@ == joined(first@, second@),
{
    match first {
        StoreOp::Write { mut batch } => match second {
            StoreOp::Write { batch: mut more } => {
                let ghost left = batch@;
                let ghost right = more@;
                batch.append(&mut more);
                assert(batch_view(batch@) =~= batch_view(left) + batch_view(right));
                StoreOp::Write { batch }
            },
            _ => StoreOp::Write { batch },
        },
        other => other,
    }
}

/// The write that sets one key to what it held at an earlier time: the
/// value it held, or nothing.
pub open spec fn restoring(key: Seq<u8>, value: Option<Seq<u8>>) -> StoreOpView {
    StoreOpView::Write { batch: seq![MutationView { key, value }] }
}

/// Builds the write that sets one key to what it held at an earlier time.
pub fn restore(key: Vec<u8>, value: Option<Vec<u8>>) -> (op: StoreOp)
    ensures
        op@ == restoring(key@, bytes_view(value)),
{
    let change = Mutation { key, value };
    let batch = vec![change];
    let op = StoreOp::Write { batch };
    assert(op@->Write_batch =~= seq![change@]);
    op
}

/// A copy of what a store held under a key.
pub fn copy_entry(entry: &Option<Vec<u8>>) -> (copy: Option<Vec<u8>>)
    ensures
        bytes_view(copy) == bytes_view(*entry),
{
    match entry {
        Some(value) => Some(crate::bytes::copy_of(value.as_slice())),
        None => None,
    }
}

/// Where an operation stands after a reply: it goes on from a new state
/// with a new request, or it has finished with its result.
#[derive(Debug, PartialEq, Eq)]
pub enum Step<S, T> {
    Continue(S, Request),
    Finish(Result<T, DilokDidError>),
}

/// A step, as mathematical values.
pub enum StepView<S, T> {
    Continue(S, RequestView),
    Finish(Result<T, DilokDidErrorView>),
}

impl<S: View, T: View> View for Step<S, T> {
    type V = StepView<S::V, T::V>;

    open spec fn view(&self) -> StepView<S::V, T::V> {
        match self {
            Step::Continue(state, request) => StepView::Continue(state@, request@),
            Step::Finish(Ok(value)) => StepView::Finish(Ok(value@)),
            Step::Finish(Err(e)) => StepView::Finish(Err(e@)),
        }
    }
}

} // verus!
