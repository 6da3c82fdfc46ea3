//! A model of the two stores, to state what the engine's operations do to
//! them.
//!
//! A store is a map from keys to values. A request that is served changes
//! the store as the request says; a request that fails changes nothing. A
//! request that is not performed at all, because the operation was
//! cancelled, is answered as one that failed. A run of an operation hands
//! each request of the engine to the stores and each reply back to the
//! engine, until the operation finishes.

use vstd::prelude::*;
use crate::exchange::{MutationView, ReplyView, RequestView, StepView, StoreOpView};
use crate::face_recognition::Frame;
use crate::DilokDidErrorView;

verus! {

/// What a store holds.
pub type Entries = Map<Seq<u8>, Seq<u8>>;

/// The registry and the vault.
pub struct World {
    pub registry: Entries,
    pub vault: Entries,
}

/// Which requests fail, by their position in the run, and why.
pub type Faults = spec_fn(nat) -> Option<Seq<char>>;

/// No request fails.
pub open spec fn no_faults() -> Faults {
    |at: nat| None::<Seq<char>>
}

/// The request at position `position` fails with `reason`, no other.
pub open spec fn one_fault(position: nat, reason: Seq<char>) -> Faults {
    |at: nat|
        if at == position {
            Some(reason)
        } else {
            None::<Seq<char>>
        }
}

/// A store after one change.
pub open spec fn changed(entries: Entries, change: MutationView) -> Entries {
    match change.value {
        Some(value) => entries.insert(change.key, value),
        None => entries.remove(change.key),
    }
}

/// A store after the changes of a batch, in order.
pub open spec fn applied(entries: Entries, batch: Seq<MutationView>) -> Entries
    decreases batch.len(),
{
    if batch.len() == 0 {
        entries
    } else {
        changed(applied(entries, batch.drop_last()), batch.last())
    }
}

/// What a store holds under a key, if anything.
pub open spec fn lookup(entries: Entries, key: Seq<u8>) -> Option<Seq<u8>> {
    if entries.contains_key(key) {
        Some(entries[key])
    } else {
        None
    }
}

/// A store after it served an operation, and its reply.
pub open spec fn served(entries: Entries, op: StoreOpView) -> (Entries, ReplyView) {
    match op {
        StoreOpView::Read { key } => (entries, ReplyView::Value(lookup(entries, key))),
        StoreOpView::Write { batch } => (applied(entries, batch), ReplyView::Done),
    }
}

/// The stores after a request, and the reply to it. A request that fails
/// leaves both stores as they were. A capture gives `frames`.
pub open spec fn answered(
    world: World,
    request: RequestView,
    fault: Option<Seq<char>>,
    frames: Seq<Frame>,
) -> (World, ReplyView) {
    match fault {
        Some(reason) => (world, ReplyView::Failed(reason)),
        None => match request {
            RequestView::Registry(op) => {
                let (registry, reply) = served(world.registry, op);
                (World { registry, ..world }, reply)
            },
            RequestView::Vault(op) => {
                let (vault, reply) = served(world.vault, op);
                (World { vault, ..world }, reply)
            },
            RequestView::Capture => (world, ReplyView::Frames(frames)),
        },
    }
}

/// How a run ends: the stores as it leaves them, and its result, if it
/// finished within the requests it was allowed.
pub struct Ending<T> {
    pub world: World,
    pub result: Option<Result<T, DilokDidErrorView>>,
}

/// Runs an operation from `step` on: each request is answered by the
/// stores, the request at position `at` failing when `faults` says so, and
/// `next` takes each reply. At most `limit` requests are served.
pub open spec fn run<S, T>(
    next: spec_fn(S, ReplyView) -> StepView<S, T>,
    step: StepView<S, T>,
    world: World,
    faults: Faults,
    frames: Seq<Frame>,
    at: nat,
    limit: nat,
) -> Ending<T>
    decreases limit,
{
    match step {
        StepView::Finish(result) => Ending { world, result: Some(result) },
        StepView::Continue(state, request) => if limit == 0 {
            Ending { world, result: None }
        } else {
            let (after, reply) = answered(world, request, faults(at), frames);
            run(next, next(state, reply), after, faults, frames, at + 1, (limit - 1) as nat)
        },
    }
}

/// A batch of one change changes the store once.
pub proof fn lemma_applied_one(entries: Entries, a: MutationView)
    ensures
        applied(entries, seq![a]) == changed(entries, a),
{
    let batch = seq![a];
    assert(batch.drop_last() =~= Seq::<MutationView>::empty());
    assert(applied(entries, batch.drop_last()) == entries);
    assert(batch.last() == a);
}

/// A batch of two changes changes the store twice, in order.
pub proof fn lemma_applied_two(entries: Entries, a: MutationView, b: MutationView)
    ensures
        applied(entries, seq![a, b]) == changed(changed(entries, a), b),
{
    let batch = seq![a, b];
    assert(batch.drop_last() =~= seq![a]);
    assert(batch.last() == b);
    lemma_applied_one(entries, a);
}

/// A batch of three changes changes the store three times, in order.
pub proof fn lemma_applied_three(entries: Entries, a: MutationView, b: MutationView, c: MutationView)
    ensures
        applied(entries, seq![a, b, c]) == changed(changed(changed(entries, a), b), c),
{
    let batch = seq![a, b, c];
    assert(batch.drop_last() =~= seq![a, b]);
    assert(batch.last() == c);
    lemma_applied_two(entries, a, b);
}

/// One step of a run: serving the request that is out, then running on.
pub proof fn lemma_run_step<S, T>(
    next: spec_fn(S, ReplyView) -> StepView<S, T>,
    state: S,
    request: RequestView,
    world: World,
    faults: Faults,
    frames: Seq<Frame>,
    at: nat,
    limit: nat,
)
    requires
        limit > 0,
    ensures
        run(next, StepView::Continue(state, request), world, faults, frames, at, limit) == run(
            next,
            next(state, answered(world, request, faults(at), frames).1),
            answered(world, request, faults(at), frames).0,
            faults,
            frames,
            at + 1,
            (limit - 1) as nat,
        ),
{
}

/// What the last change of a batch that touches `key` does to it: the
/// value it puts, or none when it deletes; nothing when no change touches
/// the key.
pub open spec fn last_change(batch: Seq<MutationView>, key: Seq<u8>) -> Option<Option<Seq<u8>>>
    decreases batch.len(),
{
    if batch.len() == 0 {
        None
    } else if batch.last().key == key {
        Some(batch.last().value)
    } else {
        last_change(batch.drop_last(), key)
    }
}

/// After a batch, a key holds what the last change that touches it says,
/// and what it held before when no change touches it.
pub proof fn lemma_applied_key(entries: Entries, batch: Seq<MutationView>, key: Seq<u8>)
    ensures
        lookup(applied(entries, batch), key) == (match last_change(batch, key) {
            Some(value) => value,
            None => lookup(entries, key),
        }),
    decreases batch.len(),
{
    if batch.len() > 0 {
        lemma_applied_key(entries, batch.drop_last(), key);
    }
}

/// A write that is applied a second time changes nothing more: a request
/// that is tried again after it was served leaves the store as the first
/// try did.
pub proof fn lemma_write_again_changes_nothing(entries: Entries, batch: Seq<MutationView>)
    ensures
        applied(applied(entries, batch), batch) == applied(entries, batch),
{
    let once = applied(entries, batch);
    let twice = applied(once, batch);
    assert forall|key: Seq<u8>| lookup(twice, key) == lookup(once, key) by {
        lemma_applied_key(entries, batch, key);
        lemma_applied_key(once, batch, key);
    }
    assert forall|key: Seq<u8>| twice.contains_key(key) == once.contains_key(key) by {
        assert(lookup(twice, key) == lookup(once, key));
    }
    assert forall|key: Seq<u8>| twice.contains_key(key) implies twice[key] == once[key] by {
        assert(lookup(twice, key) == lookup(once, key));
    }
    assert(twice =~= once);
}

} // verus!
