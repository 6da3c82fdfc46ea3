//! Whole runs of the engine's operations against the model of the two
//! stores, and how each of them ends.
//!
//! For each operation there is the run itself, step by step, and a direct
//! account of its ending: what it leaves in the stores and what its result
//! is, whatever the stores held and whichever requests failed. The two are
//! proved equal.

use vstd::prelude::*;
use vstd::utf8::encode_utf8;
use crate::exchange::{
    restoring, MutationView, ReplyView, RequestView, StepView, StoreOpView,
};
use crate::face_recognition::{
    canonical_of, capture_outcome, face_hash_of, template_of, verdict, FaceRecognition,
    FaceRecognitionErrorView, Frame,
};
use crate::lookup::{lookup_next, lookup_start, missing_record, unknown_did, LookupView};
use crate::registration::{
    earlier, registration_next, registration_start, undoing, PhaseView, RegistrationView,
};
use crate::storage::keys::{did_index_key, pointer_key, record_key, template_key};
use crate::storage::seal::sealed;
use crate::storage::template::encoded;
use crate::storage::{
    not_authentic, pointer_batch, record_batch, store_claim, stored_form, template_put,
    template_removal, unsealed, wrong_owner, StorageErrorView,
};
use crate::types::{FaceDataView, VerificationResult};
use crate::verification::{
    missing_pointer, missing_template, pointer_mismatch, verification_next, verification_start,
    VerificationView,
};
use crate::world::{
    answered, applied, changed, lemma_applied_one, lemma_applied_three, lemma_applied_two,
    lemma_run_step, lookup, run, Ending, Entries, Faults, World,
};
use crate::DilokDidErrorView;

verus! {

/// What is handed to a registration.
pub struct Enrollment {
    pub recognizer: FaceRecognition,
    pub key: Seq<u8>,
    pub user_id: Seq<char>,
    pub did: Seq<char>,
    pub record: Seq<u8>,
    pub frames: Seq<Frame>,
    pub now: i64,
}

impl Enrollment {
    /// The identity id as bytes.
    pub open spec fn id(self) -> Seq<u8> {
        encode_utf8(self.user_id)
    }

    /// Whether the capture succeeds.
    pub open spec fn captured(self) -> bool {
        capture_outcome(self.frames, self.recognizer.quality_threshold) is Ok
    }

    /// The template that the capture gives.
    pub open spec fn template(self) -> FaceDataView {
        let samples = capture_outcome(self.frames, self.recognizer.quality_threshold)->Ok_0;
        template_of(samples, canonical_of(samples), self.user_id, self.now)
    }

    /// The hash pointer of that template as bytes.
    pub open spec fn hash(self) -> Seq<u8> {
        encode_utf8(self.template().face_hash)
    }

    /// The vault key of the new template.
    pub open spec fn vault_key(self) -> Seq<u8> {
        template_key(self.id(), self.hash())
    }

    /// The envelope of the new template.
    pub open spec fn envelope(self) -> Seq<u8> {
        sealed(self.key, encoded(stored_form(self.template())))
    }

    /// The first step of the registration.
    pub open spec fn start(self) -> StepView<RegistrationView, Seq<char>> {
        registration_start(
            self.recognizer,
            self.key,
            self.user_id,
            self.did,
            self.record,
            self.frames,
            self.now,
        )
    }

    /// What the registry's store says to this identity and DID, from what
    /// the registry holds.
    pub open spec fn claim_in(self, registry: Entries) -> Result<bool, StorageErrorView> {
        store_claim(
            self.user_id,
            self.did,
            lookup(registry, did_index_key(encode_utf8(self.did))),
            lookup(registry, record_key(self.id())),
        )
    }

    /// The hash pointer of the earlier template that the registration has
    /// to remove, from what the registry holds.
    pub open spec fn prior_in(self, registry: Entries) -> Option<Seq<u8>> {
        earlier(lookup(registry, pointer_key(self.id())), self.hash())
    }
}

/// A registration run against the stores.
pub open spec fn registered(e: Enrollment, world: World, faults: Faults) -> Ending<Seq<char>> {
    run(registration_engine(), e.start(), world, faults, e.frames, 0, 9)
}

/// The position of the vault write among the requests of a registration:
/// after the three reads of the registry and the read of the vault.
pub open spec fn vault_write_position() -> nat {
    4
}

/// The position of the registry write: after the vault write.
pub open spec fn commit_position() -> nat {
    5
}

/// The position of what follows the registry write: the putting back of
/// what the vault held when the write failed, and the removal of the
/// earlier template when it succeeded.
pub open spec fn removal_position() -> nat {
    6
}

/// The position of the undoing of the registry write, which follows a
/// removal that failed.
pub open spec fn undo_position() -> nat {
    7
}

/// The position of the putting back that follows the undoing.
pub open spec fn last_position() -> nat {
    8
}

/// A run that ends with a storage error.
pub open spec fn failed<T>(world: World, e: StorageErrorView) -> Ending<T> {
    Ending { world, result: Some(Err(DilokDidErrorView::StorageError(e))) }
}

/// The changes that a registration commits to the registry: the record,
/// with the index entry of the DID when the DID is new, and the hash
/// pointer.
pub open spec fn commit_batch(e: Enrollment, indexed: bool) -> Seq<MutationView> {
    record_batch(e.id(), encode_utf8(e.did), e.record, indexed) + pointer_batch(e.id(), e.hash())
}

/// The changes that put the registry back as it was before a
/// registration: the record, the index entry and the hash pointer, each
/// as `registry` holds it.
pub open spec fn undo_batch(e: Enrollment, registry: Entries) -> Seq<MutationView> {
    seq![
        MutationView { key: record_key(e.id()), value: lookup(registry, record_key(e.id())) },
        MutationView {
            key: did_index_key(encode_utf8(e.did)),
            value: lookup(registry, did_index_key(encode_utf8(e.did))),
        },
        MutationView { key: pointer_key(e.id()), value: lookup(registry, pointer_key(e.id())) },
    ]
}

/// How a registration ends with the failure `cause` once it has come to
/// put back what the vault held: with the vault put back, unless the
/// putting back fails.
pub open spec fn after_failure(
    e: Enrollment,
    before: Option<Seq<u8>>,
    world: World,
    fault: Option<Seq<char>>,
    cause: StorageErrorView,
) -> Ending<Seq<char>> {
    match fault {
        Some(_) => failed(world, cause),
        None => failed(
            World {
                vault: changed(world.vault, MutationView { key: e.vault_key(), value: before }),
                ..world
            },
            cause,
        ),
    }
}

/// How a registration ends once the new template is in the vault;
/// `world` holds the stores after the vault write, and `before` is what
/// the vault held under the key of the new template.
///
/// When the registry write fails, what the vault held is put back, and
/// the failure of the registry write is the result. When it succeeds and
/// there is no earlier template to remove, the identity id is the result.
/// When the removal of the earlier template succeeds, the identity id is
/// the result. When it fails, the registry write is undone and the vault
/// put back, and the failure of the removal is the result; but when the
/// undoing fails as well, the registration stands and the identity id is
/// the result.
pub open spec fn after_vault_write(
    e: Enrollment,
    indexed: bool,
    before: Option<Seq<u8>>,
    world: World,
    faults: Faults,
) -> Ending<Seq<char>> {
    match faults(commit_position()) {
        Some(reason) => after_failure(
            e,
            before,
            world,
            faults(removal_position()),
            StorageErrorView::IoError(reason),
        ),
        None => {
            let committed = World {
                registry: applied(world.registry, commit_batch(e, indexed)),
                ..world
            };
            match e.prior_in(world.registry) {
                None => Ending { world: committed, result: Some(Ok(e.user_id)) },
                Some(hash_before) => match faults(removal_position()) {
                    None => Ending {
                        world: World {
                            vault: committed.vault.remove(template_key(e.id(), hash_before)),
                            ..committed
                        },
                        result: Some(Ok(e.user_id)),
                    },
                    Some(reason) => match faults(undo_position()) {
                        Some(_) => Ending { world: committed, result: Some(Ok(e.user_id)) },
                        None => after_failure(
                            e,
                            before,
                            World {
                                registry: applied(
                                    committed.registry,
                                    undo_batch(e, world.registry),
                                ),
                                ..committed
                            },
                            faults(last_position()),
                            StorageErrorView::IoError(reason),
                        ),
                    },
                },
            }
        },
    }
}

/// How a registration ends once the registry's store has admitted it: a
/// read that fails, and a vault write that fails, end it with nothing
/// changed.
pub open spec fn after_claim(e: Enrollment, indexed: bool, world: World, faults: Faults) -> Ending<
    Seq<char>,
> {
    match faults(2) {
        Some(reason) => failed(world, StorageErrorView::IoError(reason)),
        None => match faults(3) {
            Some(reason) => failed(world, StorageErrorView::IoError(reason)),
            None => match faults(vault_write_position()) {
                Some(reason) => failed(world, StorageErrorView::IoError(reason)),
                None => after_vault_write(
                    e,
                    indexed,
                    lookup(world.vault, e.vault_key()),
                    World { vault: world.vault.insert(e.vault_key(), e.envelope()), ..world },
                    faults,
                ),
            },
        },
    }
}

/// How a registration ends, whatever the stores hold and whichever
/// requests fail.
pub open spec fn registration_ending(e: Enrollment, world: World, faults: Faults) -> Ending<
    Seq<char>,
> {
    match capture_outcome(e.frames, e.recognizer.quality_threshold) {
        Err(err) => Ending {
            world,
            result: Some(Err(DilokDidErrorView::FaceRecognitionError(err))),
        },
        Ok(_) => match faults(0) {
            Some(reason) => failed(world, StorageErrorView::IoError(reason)),
            None => match faults(1) {
                Some(reason) => failed(world, StorageErrorView::IoError(reason)),
                None => match e.claim_in(world.registry) {
                    Err(refusal) => failed(world, refusal),
                    Ok(indexed) => after_claim(e, indexed, world, faults),
                },
            },
        },
    }
}

/// The state of a registration in a phase.
pub open spec fn state_in(e: Enrollment, phase: PhaseView) -> RegistrationView {
    RegistrationView {
        user_id: e.user_id,
        did: e.did,
        record: e.record,
        face_hash: e.template().face_hash,
        phase,
    }
}

/// The vault write of a registration.
pub open spec fn vault_write(e: Enrollment) -> StoreOpView {
    template_put(e.key, e.id(), e.hash(), stored_form(e.template()))
}

/// The engine's part in a run of a registration.
pub open spec fn registration_engine() -> spec_fn(RegistrationView, ReplyView) -> StepView<
    RegistrationView,
    Seq<char>,
> {
    |s: RegistrationView, reply: ReplyView| registration_next(s, reply)
}

proof fn lemma_run_after_failure(
    e: Enrollment,
    before: Option<Seq<u8>>,
    world: World,
    faults: Faults,
    cause: StorageErrorView,
    at: nat,
    limit: nat,
)
    requires
        limit > 0,
    ensures
        run(
            registration_engine(),
            StepView::Continue(
                state_in(e, PhaseView::Compensate { cause }),
                RequestView::Vault(restoring(e.vault_key(), before)),
            ),
            world,
            faults,
            e.frames,
            at,
            limit,
        ) == after_failure(e, before, world, faults(at), cause),
{
    let next = registration_engine();
    let s = state_in(e, PhaseView::Compensate { cause });
    let r = RequestView::Vault(restoring(e.vault_key(), before));
    lemma_run_step(next, s, r, world, faults, e.frames, at, limit);
    lemma_applied_one(world.vault, MutationView { key: e.vault_key(), value: before });
}

proof fn lemma_run_after_vault_write(
    e: Enrollment,
    indexed: bool,
    before: Option<Seq<u8>>,
    world: World,
    faults: Faults,
)
    ensures
        run(
            registration_engine(),
            StepView::Continue(
                state_in(
                    e,
                    PhaseView::Commit {
                        undo: StoreOpView::Write { batch: undo_batch(e, world.registry) },
                        prior: e.prior_in(world.registry),
                        before,
                    },
                ),
                RequestView::Registry(StoreOpView::Write { batch: commit_batch(e, indexed) }),
            ),
            world,
            faults,
            e.frames,
            5,
            4,
        ) == after_vault_write(e, indexed, before, world, faults),
{
    let next = registration_engine();
    let undo = StoreOpView::Write { batch: undo_batch(e, world.registry) };
    let prior = e.prior_in(world.registry);
    let s5 = state_in(e, PhaseView::Commit { undo, prior, before });
    let r5 = RequestView::Registry(StoreOpView::Write { batch: commit_batch(e, indexed) });
    lemma_run_step(next, s5, r5, world, faults, e.frames, 5, 4);
    match faults(5) {
        Some(reason) => {
            assert(answered(world, r5, faults(5), e.frames) == (world, ReplyView::Failed(reason)));
            lemma_run_after_failure(
                e,
                before,
                world,
                faults,
                StorageErrorView::IoError(reason),
                6,
                3,
            );
        },
        None => {
            let committed = World {
                registry: applied(world.registry, commit_batch(e, indexed)),
                ..world
            };
            assert(answered(world, r5, faults(5), e.frames) == (committed, ReplyView::Done));
            match prior {
                Some(hash_before) => {
                    let s6 = state_in(e, PhaseView::Cleanup { undo, before });
                    let r6 = RequestView::Vault(template_removal(e.id(), hash_before));
                    assert(next(s5, ReplyView::Done) == StepView::<
                        RegistrationView,
                        Seq<char>,
                    >::Continue(s6, r6));
                    lemma_run_step(next, s6, r6, committed, faults, e.frames, 6, 3);
                    lemma_applied_one(
                        committed.vault,
                        MutationView { key: template_key(e.id(), hash_before), value: None },
                    );
                    match faults(6) {
                        None => {},
                        Some(reason) => {
                            let cause = StorageErrorView::IoError(reason);
                            let s7 = state_in(e, PhaseView::Undo { cause, before });
                            let r7 = RequestView::Registry(undo);
                            assert(next(s6, ReplyView::Failed(reason)) == StepView::<
                                RegistrationView,
                                Seq<char>,
                            >::Continue(s7, r7));
                            lemma_run_step(next, s7, r7, committed, faults, e.frames, 7, 2);
                            if faults(7) is None {
                                let undone = World {
                                    registry: applied(
                                        committed.registry,
                                        undo_batch(e, world.registry),
                                    ),
                                    ..committed
                                };
                                assert(answered(committed, r7, faults(7), e.frames) == (
                                    undone,
                                    ReplyView::Done,
                                ));
                                lemma_run_after_failure(e, before, undone, faults, cause, 8, 1);
                            }
                        },
                    }
                },
                None => {},
            }
        },
    }
}

proof fn lemma_run_after_claim(e: Enrollment, indexed: bool, world: World, faults: Faults)
    ensures
        run(
            registration_engine(),
            StepView::Continue(
                state_in(
                    e,
                    PhaseView::Pointer {
                        write: vault_write(e),
                        storing: StoreOpView::Write {
                            batch: record_batch(e.id(), encode_utf8(e.did), e.record, indexed),
                        },
                        found: lookup(world.registry, did_index_key(encode_utf8(e.did))),
                        existing: lookup(world.registry, record_key(e.id())),
                    },
                ),
                RequestView::Registry(StoreOpView::Read { key: pointer_key(e.id()) }),
            ),
            world,
            faults,
            e.frames,
            2,
            7,
        ) == after_claim(e, indexed, world, faults),
{
    let next = registration_engine();
    let storing = StoreOpView::Write {
        batch: record_batch(e.id(), encode_utf8(e.did), e.record, indexed),
    };
    let found = lookup(world.registry, did_index_key(encode_utf8(e.did)));
    let existing = lookup(world.registry, record_key(e.id()));
    let commit = StoreOpView::Write { batch: commit_batch(e, indexed) };
    let undo = StoreOpView::Write { batch: undo_batch(e, world.registry) };
    let s2 = state_in(e, PhaseView::Pointer { write: vault_write(e), storing, found, existing });
    let r2 = RequestView::Registry(StoreOpView::Read { key: pointer_key(e.id()) });
    lemma_run_step(next, s2, r2, world, faults, e.frames, 2, 7);
    if faults(2) is None {
        let pointer = lookup(world.registry, pointer_key(e.id()));
        let prior = e.prior_in(world.registry);
        assert(undoing(e.id(), encode_utf8(e.did), existing, found, pointer) == undo) by {
            assert(seq![MutationView { key: record_key(e.id()), value: existing }] + (seq![
                MutationView { key: did_index_key(encode_utf8(e.did)), value: found },
            ] + seq![MutationView { key: pointer_key(e.id()), value: pointer }]) =~= undo_batch(
                e,
                world.registry,
            ));
        }
        let s3 = state_in(e, PhaseView::Before { write: vault_write(e), commit, undo, prior });
        let r3 = RequestView::Vault(StoreOpView::Read { key: e.vault_key() });
        assert(next(s2, answered(world, r2, faults(2), e.frames).1) == StepView::<
            RegistrationView,
            Seq<char>,
        >::Continue(s3, r3));
        lemma_run_step(next, s3, r3, world, faults, e.frames, 3, 6);
        if faults(3) is None {
            let before = lookup(world.vault, e.vault_key());
            let s4 = state_in(e, PhaseView::VaultWrite { commit, undo, prior, before });
            let r4 = RequestView::Vault(vault_write(e));
            assert(next(s3, answered(world, r3, faults(3), e.frames).1) == StepView::<
                RegistrationView,
                Seq<char>,
            >::Continue(s4, r4));
            lemma_run_step(next, s4, r4, world, faults, e.frames, 4, 5);
            if faults(4) is None {
                lemma_applied_one(
                    world.vault,
                    MutationView { key: e.vault_key(), value: Some(e.envelope()) },
                );
                let written = World {
                    vault: world.vault.insert(e.vault_key(), e.envelope()),
                    ..world
                };
                assert(answered(world, r4, faults(4), e.frames) == (written, ReplyView::Done));
                lemma_run_after_vault_write(e, indexed, before, written, faults);
            }
        }
    }
}

/// A registration run against the stores ends as `registration_ending`
/// says.
pub proof fn lemma_registration_ending(e: Enrollment, world: World, faults: Faults)
    ensures
        registered(e, world, faults) == registration_ending(e, world, faults),
{
    let next = registration_engine();
    if e.captured() {
        let s0 = state_in(e, PhaseView::Index { write: vault_write(e) });
        let r0 = RequestView::Registry(
            StoreOpView::Read { key: did_index_key(encode_utf8(e.did)) },
        );
        assert(e.start() == StepView::<RegistrationView, Seq<char>>::Continue(s0, r0));
        lemma_run_step(next, s0, r0, world, faults, e.frames, 0, 9);
        if faults(0) is None {
            let found = lookup(world.registry, did_index_key(encode_utf8(e.did)));
            let s1 = state_in(e, PhaseView::Record { write: vault_write(e), found });
            let r1 = RequestView::Registry(StoreOpView::Read { key: record_key(e.id()) });
            assert(next(s0, answered(world, r0, faults(0), e.frames).1) == StepView::<
                RegistrationView,
                Seq<char>,
            >::Continue(s1, r1));
            lemma_run_step(next, s1, r1, world, faults, e.frames, 1, 8);
            if faults(1) is None {
                match e.claim_in(world.registry) {
                    Err(_) => {},
                    Ok(indexed) => {
                        lemma_run_after_claim(e, indexed, world, faults);
                    },
                }
            }
        }
    }
}

/// Undoing the registry write of a registration puts the registry back
/// as it was, entry for entry.
pub proof fn lemma_undo_restores(e: Enrollment, indexed: bool, registry: Entries)
    ensures
        applied(applied(registry, commit_batch(e, indexed)), undo_batch(e, registry)) == registry,
{
    lemma_committed_registry(e, indexed, registry);
    let committed = applied(registry, commit_batch(e, indexed));
    lemma_applied_three(
        committed,
        MutationView { key: record_key(e.id()), value: lookup(registry, record_key(e.id())) },
        MutationView {
            key: did_index_key(encode_utf8(e.did)),
            value: lookup(registry, did_index_key(encode_utf8(e.did))),
        },
        MutationView { key: pointer_key(e.id()), value: lookup(registry, pointer_key(e.id())) },
    );
    assert(applied(committed, undo_batch(e, registry)) =~= registry);
}

/// The engine's part in a run of a lookup.
pub open spec fn lookup_engine() -> spec_fn(LookupView, ReplyView) -> StepView<
    LookupView,
    Seq<u8>,
> {
    |s: LookupView, reply: ReplyView| lookup_next(s, reply)
}

/// A lookup run against the stores.
pub open spec fn looked_up(did: Seq<char>, world: World, faults: Faults) -> Ending<Seq<u8>> {
    run(lookup_engine(), lookup_start(did), world, faults, Seq::empty(), 0, 2)
}

/// How a lookup ends, whatever the stores hold and whichever requests
/// fail. It changes nothing.
pub open spec fn lookup_ending(did: Seq<char>, world: World, faults: Faults) -> Ending<Seq<u8>> {
    match faults(0) {
        Some(reason) => failed(world, StorageErrorView::IoError(reason)),
        None => match lookup(world.registry, did_index_key(encode_utf8(did))) {
            None => failed(world, StorageErrorView::NotFound(unknown_did(did))),
            Some(id) => match faults(1) {
                Some(reason) => failed(world, StorageErrorView::IoError(reason)),
                None => match lookup(world.registry, record_key(id)) {
                    None => failed(world, StorageErrorView::IntegrityError(missing_record())),
                    Some(record) => Ending { world, result: Some(Ok(record)) },
                },
            },
        },
    }
}

/// A lookup run against the stores ends as `lookup_ending` says.
pub proof fn lemma_lookup_ending(did: Seq<char>, world: World, faults: Faults)
    ensures
        looked_up(did, world, faults) == lookup_ending(did, world, faults),
{
    let next = lookup_engine();
    let frames = Seq::<Frame>::empty();
    let s0 = LookupView::Index { did };
    let r0 = RequestView::Registry(StoreOpView::Read { key: did_index_key(encode_utf8(did)) });
    lemma_run_step(next, s0, r0, world, faults, frames, 0, 2);
    if faults(0) is None {
        match lookup(world.registry, did_index_key(encode_utf8(did))) {
            None => {},
            Some(id) => {
                let s1 = LookupView::Record { id };
                let r1 = RequestView::Registry(StoreOpView::Read { key: record_key(id) });
                lemma_run_step(next, s1, r1, world, faults, frames, 1, 1);
            },
        }
    }
}

/// What the registry holds after the write of a registration.
pub proof fn lemma_committed_registry(e: Enrollment, indexed: bool, registry: Entries)
    ensures
        applied(registry, commit_batch(e, indexed)) == (if indexed {
            registry.insert(record_key(e.id()), e.record).insert(pointer_key(e.id()), e.hash())
        } else {
            registry.insert(record_key(e.id()), e.record).insert(
                did_index_key(encode_utf8(e.did)),
                e.id(),
            ).insert(pointer_key(e.id()), e.hash())
        }),
{
    let record = MutationView { key: record_key(e.id()), value: Some(e.record) };
    let index = MutationView { key: did_index_key(encode_utf8(e.did)), value: Some(e.id()) };
    let pointer = MutationView { key: pointer_key(e.id()), value: Some(e.hash()) };
    if indexed {
        assert(commit_batch(e, indexed) =~= seq![record, pointer]);
        lemma_applied_two(registry, record, pointer);
    } else {
        assert(commit_batch(e, indexed) =~= seq![record, index, pointer]);
        lemma_applied_three(registry, record, index, pointer);
    }
}

/// Whether a registration succeeded.
pub open spec fn succeeded<T>(ending: Ending<T>) -> bool {
    ending.result matches Some(Ok(_))
}

/// What is handed to a verification.
pub struct Challenge {
    pub recognizer: FaceRecognition,
    pub key: Seq<u8>,
    pub did: Seq<char>,
    pub frames: Seq<Frame>,
    pub now: i64,
}

/// The engine's part in a run of a verification.
pub open spec fn verification_engine(c: Challenge) -> spec_fn(
    VerificationView,
    ReplyView,
) -> StepView<VerificationView, VerificationResult> {
    |s: VerificationView, reply: ReplyView| verification_next(c.recognizer, c.key, s, reply)
}

/// A verification run against the stores.
pub open spec fn verified(c: Challenge, world: World, faults: Faults) -> Ending<VerificationResult> {
    run(verification_engine(c), verification_start(c.did, c.now), world, faults, c.frames, 0, 4)
}

/// A run that ends with an integrity violation.
pub open spec fn violation<T>(world: World, text: Seq<char>) -> Ending<T> {
    Ending { world, result: Some(Err(DilokDidErrorView::IntegrityViolation(text))) }
}

/// How a verification ends once the envelope of the template is read.
pub open spec fn after_template(
    c: Challenge,
    id: Seq<u8>,
    pointer: Seq<u8>,
    envelope: Seq<u8>,
    world: World,
    faults: Faults,
) -> Ending<VerificationResult> {
    match unsealed(c.key, envelope) {
        None => violation(world, not_authentic()),
        Some(t) => if t.owner != id {
            violation(world, wrong_owner())
        } else if encode_utf8(face_hash_of(t.embedding)) != pointer {
            violation(world, pointer_mismatch())
        } else {
            match faults(3) {
                Some(reason) => Ending {
                    world,
                    result: Some(
                        Err(
                            DilokDidErrorView::FaceRecognitionError(
                                FaceRecognitionErrorView::DlibError(reason),
                            ),
                        ),
                    ),
                },
                None => match capture_outcome(c.frames, c.recognizer.quality_threshold) {
                    Err(err) => Ending {
                        world,
                        result: Some(Err(DilokDidErrorView::FaceRecognitionError(err))),
                    },
                    Ok(samples) => Ending {
                        world,
                        result: Some(
                            Ok(verdict(t.embedding, samples, c.recognizer.match_threshold, c.now)),
                        ),
                    },
                },
            }
        },
    }
}

/// How a verification ends once the identity that the DID names is read.
pub open spec fn after_identity(c: Challenge, id: Seq<u8>, world: World, faults: Faults) -> Ending<
    VerificationResult,
> {
    match faults(1) {
        Some(reason) => failed(world, StorageErrorView::IoError(reason)),
        None => match lookup(world.registry, pointer_key(id)) {
            None => violation(world, missing_pointer()),
            Some(pointer) => match faults(2) {
                Some(reason) => failed(world, StorageErrorView::IoError(reason)),
                None => match lookup(world.vault, template_key(id, pointer)) {
                    None => violation(world, missing_template()),
                    Some(envelope) => after_template(c, id, pointer, envelope, world, faults),
                },
            },
        },
    }
}

/// How a verification ends, whatever the stores hold and whichever
/// requests fail. It changes nothing.
pub open spec fn verification_ending(c: Challenge, world: World, faults: Faults) -> Ending<
    VerificationResult,
> {
    match faults(0) {
        Some(reason) => failed(world, StorageErrorView::IoError(reason)),
        None => match lookup(world.registry, did_index_key(encode_utf8(c.did))) {
            None => failed(world, StorageErrorView::NotFound(unknown_did(c.did))),
            Some(id) => after_identity(c, id, world, faults),
        },
    }
}

proof fn lemma_run_after_template(
    c: Challenge,
    id: Seq<u8>,
    pointer: Seq<u8>,
    world: World,
    faults: Faults,
)
    requires
        faults(2) is None,
        world.vault.contains_key(template_key(id, pointer)),
    ensures
        run(
            verification_engine(c),
            StepView::Continue(
                VerificationView::Template { id, pointer, now: c.now },
                RequestView::Vault(StoreOpView::Read { key: template_key(id, pointer) }),
            ),
            world,
            faults,
            c.frames,
            2,
            2,
        ) == after_template(c, id, pointer, world.vault[template_key(id, pointer)], world, faults),
{
    let next = verification_engine(c);
    let s2 = VerificationView::Template { id, pointer, now: c.now };
    let r2 = RequestView::Vault(StoreOpView::Read { key: template_key(id, pointer) });
    lemma_run_step(next, s2, r2, world, faults, c.frames, 2, 2);
    let envelope = world.vault[template_key(id, pointer)];
    match unsealed(c.key, envelope) {
        None => {},
        Some(t) => {
            if t.owner == id && encode_utf8(face_hash_of(t.embedding)) == pointer {
                let s3 = VerificationView::Capture { embedding: t.embedding, now: c.now };
                lemma_run_step(next, s3, RequestView::Capture, world, faults, c.frames, 3, 1);
            }
        },
    }
}

/// A verification run against the stores ends as `verification_ending`
/// says.
pub proof fn lemma_verification_ending(c: Challenge, world: World, faults: Faults)
    ensures
        verified(c, world, faults) == verification_ending(c, world, faults),
{
    let next = verification_engine(c);
    let s0 = VerificationView::Index { did: c.did, now: c.now };
    let r0 = RequestView::Registry(StoreOpView::Read { key: did_index_key(encode_utf8(c.did)) });
    lemma_run_step(next, s0, r0, world, faults, c.frames, 0, 4);
    if faults(0) is None {
        match lookup(world.registry, did_index_key(encode_utf8(c.did))) {
            None => {},
            Some(id) => {
                let s1 = VerificationView::Pointer { id, now: c.now };
                let r1 = RequestView::Registry(StoreOpView::Read { key: pointer_key(id) });
                lemma_run_step(next, s1, r1, world, faults, c.frames, 1, 3);
                if faults(1) is None {
                    match lookup(world.registry, pointer_key(id)) {
                        None => {},
                        Some(pointer) => {
                            let s2 = VerificationView::Template { id, pointer, now: c.now };
                            let r2 = RequestView::Vault(
                                StoreOpView::Read { key: template_key(id, pointer) },
                            );
                            if faults(2) is None && world.vault.contains_key(
                                template_key(id, pointer),
                            ) {
                                lemma_run_after_template(c, id, pointer, world, faults);
                            } else {
                                lemma_run_step(next, s2, r2, world, faults, c.frames, 2, 2);
                            }
                        },
                    }
                }
            },
        }
    }
}

} // verus!
