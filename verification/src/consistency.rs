//! What holds of the engine's operations when they run against the two
//! stores: that a registration is all or nothing, what a re-enrollment
//! replaces, that what was registered can be read and verified, that the
//! registry's store keeps the index in order and leaves the hash pointers
//! alone, and that the registry never points at a template that the vault
//! does not hold.

use vstd::prelude::*;
use vstd::utf8::encode_utf8;
use crate::exchange::{MutationView, ReplyView, StepView, StoreOpView};
use crate::face_recognition::matching::{
    lemma_best_below, lemma_best_similarity_bounded, lemma_same_embedding_matches, similarity,
};
use crate::face_recognition::{
    capture_outcome, face_hash_of, first_fault, lemma_low_quality_capture_fails,
    lemma_template_holds_scores, sample_of, verdict, FaceRecognitionErrorView, Frame,
};
use crate::hash::HASH_TEXT_LEN;
use crate::registration::RegistrationView;
use crate::runs::{
    commit_batch, commit_position, failed, lemma_committed_registry, lemma_lookup_ending,
    lemma_registration_ending, lemma_undo_restores, lemma_verification_ending, looked_up,
    registered, removal_position, succeeded, verified, Challenge, Enrollment,
};
use crate::storage::keys::{
    did_index_key, lemma_registry_keys_apart, lemma_registry_keys_injective,
    lemma_template_key_injective, lemma_template_key_tells_hash, pointer_key, record_key,
    template_key,
};
use crate::storage::seal::{lemma_seal_then_open, opened, sealed};
use crate::storage::template::{encodable, encoded, lemma_encode_then_decode, TemplateView};
use crate::storage::{
    content_addressed, face_data_outcome, pointer_batch, record_batch, store_claim,
    stored_form, template_put, unsealed, StorageErrorView,
};
use crate::types::{FaceDataView, VerificationResult, SCORE_ONE};
use crate::world::{
    applied, changed, lemma_applied_one, lemma_applied_two, lookup, no_faults, one_fault,
    served, Ending, Entries, Faults, World,
};
use crate::DilokDidErrorView;

verus! {

/// A template that the vault was asked to store is read back as it was:
/// the entry under its key opens, under the same vault key, to the very
/// bytes that were sealed, and these are the byte form of the template.
pub proof fn lemma_vault_round_trip(
    key: Seq<u8>,
    id: Seq<u8>,
    hash: Seq<u8>,
    template: TemplateView,
    vault: Entries,
)
    requires
        encodable(template),
    ensures
        ({
            let stored = served(vault, template_put(key, id, hash, template)).0;
            let read = served(stored, StoreOpView::Read { key: template_key(id, hash) });
            &&& read.0 == stored
            &&& read.1 == ReplyView::Value(Some(sealed(key, encoded(template))))
            &&& opened(key, sealed(key, encoded(template))) == Some(encoded(template))
            &&& unsealed(key, sealed(key, encoded(template))) == Some(template)
        }),
{
    lemma_applied_one(
        vault,
        MutationView {
            key: template_key(id, hash),
            value: Some(sealed(key, encoded(template))),
        },
    );
    lemma_seal_then_open(key, encoded(template));
    lemma_encode_then_decode(template);
}

/// A template that the vault accepted is read back as it was stored:
/// every field of it, the hash pointer among them. The vault accepts a
/// template exactly when its hash pointer is the hash of its embedding.
pub proof fn lemma_face_data_round_trip(key: Seq<u8>, template: FaceDataView, vault: Entries)
    requires
        encodable(stored_form(template)),
        content_addressed(template),
    ensures
        ({
            let id = encode_utf8(template.user_id);
            let hash = encode_utf8(template.face_hash);
            let stored = served(vault, template_put(key, id, hash, stored_form(template))).0;
            let reply = served(stored, StoreOpView::Read { key: template_key(id, hash) }).1;
            face_data_outcome(key, template.user_id, reply) == Ok::<
                FaceDataView,
                StorageErrorView,
            >(template)
        }),
{
    let id = encode_utf8(template.user_id);
    let hash = encode_utf8(template.face_hash);
    lemma_vault_round_trip(key, id, hash, stored_form(template), vault);
}

/// A registration whose capture fails asks nothing of any store: both
/// stay as they were, and the error of the capture is the result.
pub proof fn lemma_failed_capture_writes_nothing(e: Enrollment, world: World, faults: Faults)
    requires
        !e.captured(),
    ensures
        registered(e, world, faults).world == world,
        registered(e, world, faults).result == Some(
            Err::<Seq<char>, DilokDidErrorView>(
                DilokDidErrorView::FaceRecognitionError(
                    capture_outcome(e.frames, e.recognizer.quality_threshold)->Err_0,
                ),
            ),
        ),
{
    lemma_registration_ending(e, world, faults);
}

/// A registration whose capture has no faulty frame and no sample of the
/// quality that the threshold asks fails with `LowQualityCapture` and
/// asks nothing of any store.
pub proof fn lemma_low_quality_registers_nothing(e: Enrollment, world: World, faults: Faults)
    requires
        first_fault(e.frames) is None,
        forall|i: int|
            0 <= i < e.frames.len() ==> sample_of(#[trigger] e.frames[i]).quality_score
                < e.recognizer.quality_threshold,
    ensures
        e.start() == StepView::<RegistrationView, Seq<char>>::Finish(
            Err(
                DilokDidErrorView::FaceRecognitionError(
                    FaceRecognitionErrorView::LowQualityCapture,
                ),
            ),
        ),
        registered(e, world, faults) == (Ending {
            world,
            result: Some(
                Err::<Seq<char>, DilokDidErrorView>(
                    DilokDidErrorView::FaceRecognitionError(
                        FaceRecognitionErrorView::LowQualityCapture,
                    ),
                ),
            ),
        }),
{
    lemma_low_quality_capture_fails(e.frames, e.recognizer.quality_threshold);
    lemma_registration_ending(e, world, faults);
}

/// Whether at most one request fails.
pub open spec fn single_fault(faults: Faults) -> bool {
    forall|a: nat, b: nat|
        #![trigger faults(a), faults(b)]
        faults(a) is Some && faults(b) is Some ==> a == b
}

/// Every registration finishes within its nine requests. It succeeds when
/// the capture succeeds, the registry's store admits the identity under
/// the DID, and no request fails.
pub proof fn lemma_registration_finishes(e: Enrollment, world: World, faults: Faults)
    ensures
        registered(e, world, faults).result is Some,
        (e.captured() && e.claim_in(world.registry) is Ok && (forall|at: nat|
            at <= removal_position() ==> #[trigger] faults(at) is None)) ==> registered(
            e,
            world,
            faults,
        ).result == Some(Ok::<Seq<char>, DilokDidErrorView>(e.user_id)),
{
    lemma_registration_ending(e, world, faults);
    if forall|at: nat| at <= removal_position() ==> #[trigger] faults(at) is None {
        assert(faults(0) is None && faults(1) is None && faults(2) is None && faults(3) is None
            && faults(4) is None && faults(5) is None && faults(6) is None);
    }
}

/// A registration that succeeds gives the identity id, and leaves the
/// registry with the record, the index entry of the DID and the new hash
/// pointer, and the vault with the envelope of the new template: the
/// record and the template are there together.
pub proof fn lemma_success_commits(e: Enrollment, world: World, faults: Faults)
    requires
        succeeded(registered(e, world, faults)),
    ensures
        ({
            let after = registered(e, world, faults).world;
            &&& registered(e, world, faults).result == Some(
                Ok::<Seq<char>, DilokDidErrorView>(e.user_id),
            )
            &&& e.captured()
            &&& e.claim_in(world.registry) is Ok
            &&& after.registry == applied(
                world.registry,
                commit_batch(e, e.claim_in(world.registry)->Ok_0),
            )
            &&& lookup(after.registry, record_key(e.id())) == Some(e.record)
            &&& lookup(after.registry, did_index_key(encode_utf8(e.did))) == Some(e.id())
            &&& lookup(after.registry, pointer_key(e.id())) == Some(e.hash())
            &&& lookup(after.vault, e.vault_key()) == Some(e.envelope())
        }),
{
    lemma_registration_ending(e, world, faults);
    let id = e.id();
    lemma_registry_keys_apart(id, encode_utf8(e.did));
    lemma_registry_keys_apart(id, id);
    lemma_registry_keys_apart(encode_utf8(e.did), id);
    let indexed = e.claim_in(world.registry)->Ok_0;
    lemma_committed_registry(e, indexed, world.registry);
    match e.prior_in(world.registry) {
        Some(hash_before) => {
            if template_key(id, hash_before) == e.vault_key() {
                lemma_template_key_tells_hash(id, hash_before, e.hash());
            }
        },
        None => {},
    }
}

/// A registration that ends with an error has not changed the registry,
/// whichever of its requests failed.
pub proof fn lemma_error_leaves_the_registry(e: Enrollment, world: World, faults: Faults)
    requires
        !succeeded(registered(e, world, faults)),
    ensures
        registered(e, world, faults).world.registry == world.registry,
{
    lemma_registration_ending(e, world, faults);
    if e.claim_in(world.registry) is Ok {
        lemma_undo_restores(e, e.claim_in(world.registry)->Ok_0, world.registry);
    }
}

/// A registration is all or nothing: when it ends with an error and no
/// more than one of its requests failed, both stores are as they were
/// before, whatever they held and whichever request it was that failed.
pub proof fn lemma_error_changes_nothing(e: Enrollment, world: World, faults: Faults)
    requires
        !succeeded(registered(e, world, faults)),
        single_fault(faults),
    ensures
        registered(e, world, faults).world == world,
{
    lemma_registration_ending(e, world, faults);
    lemma_error_leaves_the_registry(e, world, faults);
    let before = lookup(world.vault, e.vault_key());
    assert(changed(
        world.vault.insert(e.vault_key(), e.envelope()),
        MutationView { key: e.vault_key(), value: before },
    ) =~= world.vault);
    if faults(commit_position()) is Some {
        assert(faults(removal_position()) is None);
    }
    if faults(removal_position()) is Some {
        assert(faults(commit_position()) is None);
        assert(faults(7) is None);
        assert(faults(8) is None);
    }
}

/// When the registry write of a registration fails after the vault write
/// succeeded, the vault is put back as it was: the new template is gone
/// again, what the vault held under its key is there again, and an
/// earlier template of the identity is still there. The registry is as it
/// was, and the failure of the registry write is the result.
pub proof fn lemma_failed_commit_restores_the_stores(e: Enrollment, world: World, reason: Seq<char>)
    requires
        e.captured(),
        e.claim_in(world.registry) is Ok,
    ensures
        registered(e, world, one_fault(commit_position(), reason)) == failed::<Seq<char>>(
            world,
            StorageErrorView::IoError(reason),
        ),
{
    let faults = one_fault(commit_position(), reason);
    lemma_registration_ending(e, world, faults);
    lemma_error_changes_nothing(e, world, faults);
}

/// When the removal of the earlier template fails after the registry
/// write succeeded, the registry write is undone and the vault put back:
/// both stores are as they were before the registration, the earlier
/// template is the one that counts, and the failure of the removal is the
/// result.
pub proof fn lemma_failed_removal_is_undone(e: Enrollment, world: World, reason: Seq<char>)
    requires
        e.captured(),
        e.claim_in(world.registry) is Ok,
        e.prior_in(world.registry) is Some,
    ensures
        registered(e, world, one_fault(removal_position(), reason)) == failed::<Seq<char>>(
            world,
            StorageErrorView::IoError(reason),
        ),
{
    let faults = one_fault(removal_position(), reason);
    lemma_registration_ending(e, world, faults);
    lemma_error_changes_nothing(e, world, faults);
}

/// After a re-enrollment that succeeded, the hash pointer names the new
/// template, the vault holds the new template under it, and the DID names
/// the identity as before. When the removal of the earlier template was
/// served, the template that the pointer named before is gone from the
/// vault: removed when its hash is another, and replaced under the same
/// key when it is the same.
pub proof fn lemma_reenrollment_replaces_template(e: Enrollment, world: World, faults: Faults)
    requires
        world.registry.contains_key(pointer_key(e.id())),
        succeeded(registered(e, world, faults)),
    ensures
        ({
            let after = registered(e, world, faults).world;
            let before = template_key(e.id(), world.registry[pointer_key(e.id())]);
            &&& lookup(after.registry, pointer_key(e.id())) == Some(e.hash())
            &&& lookup(after.registry, did_index_key(encode_utf8(e.did))) == Some(e.id())
            &&& lookup(after.vault, e.vault_key()) == Some(e.envelope())
            &&& (faults(removal_position()) is None && before != e.vault_key())
                ==> !after.vault.contains_key(before)
        }),
{
    lemma_success_commits(e, world, faults);
    lemma_registration_ending(e, world, faults);
}

/// A verification changes neither store.
pub proof fn lemma_verification_changes_nothing(c: Challenge, world: World, faults: Faults)
    ensures
        verified(c, world, faults).world == world,
{
    lemma_verification_ending(c, world, faults);
}

/// A lookup changes neither store.
pub proof fn lemma_lookup_changes_nothing(did: Seq<char>, world: World, faults: Faults)
    ensures
        looked_up(did, world, faults).world == world,
{
    lemma_lookup_ending(did, world, faults);
}

/// After any registration that succeeded, a lookup of the DID gives the
/// very record that was registered.
pub proof fn lemma_registered_record_is_read_back(e: Enrollment, world: World, faults: Faults)
    requires
        succeeded(registered(e, world, faults)),
    ensures
        looked_up(e.did, registered(e, world, faults).world, no_faults()).result == Some(
            Ok::<Seq<u8>, DilokDidErrorView>(e.record),
        ),
{
    lemma_success_commits(e, world, faults);
    lemma_lookup_ending(e.did, registered(e, world, faults).world, no_faults());
}

/// A verification answers only when registry and vault agree: the DID
/// names an identity, the identity has a hash pointer, the vault holds an
/// entry under that pointer, and the entry opens to a template of that
/// identity whose embedding has the hash that the pointer names. The
/// answer is then the verdict on the live capture against that embedding.
/// In every other state of the stores the verification ends with an
/// error; it is never answered as a face that does not match.
pub proof fn lemma_verification_fails_closed(c: Challenge, world: World, faults: Faults)
    requires
        succeeded(verified(c, world, faults)),
    ensures
        ({
            let named = lookup(world.registry, did_index_key(encode_utf8(c.did)));
            let pointer = lookup(world.registry, pointer_key(named->0));
            let envelope = lookup(world.vault, template_key(named->0, pointer->0));
            let template = unsealed(c.key, envelope->0);
            &&& named is Some
            &&& pointer is Some
            &&& envelope is Some
            &&& template is Some
            &&& template->0.owner == named->0
            &&& encode_utf8(face_hash_of(template->0.embedding)) == pointer->0
            &&& capture_outcome(c.frames, c.recognizer.quality_threshold) matches Ok(samples)
                && verified(c, world, faults).result == Some(
                Ok::<VerificationResult, DilokDidErrorView>(
                    verdict(template->0.embedding, samples, c.recognizer.match_threshold, c.now),
                ),
            )
        }),
{
    lemma_verification_ending(c, world, faults);
}

/// After any registration that succeeded, a verification of the DID in
/// which no request fails scores the live capture against the embedding
/// that was enrolled: it gives the error of the live capture when that
/// fails, and else the verdict on its gated samples.
pub proof fn lemma_verification_uses_enrolled_template(
    e: Enrollment,
    world: World,
    faults: Faults,
    live: Seq<Frame>,
    now: i64,
)
    requires
        succeeded(registered(e, world, faults)),
        encodable(stored_form(e.template())),
    ensures
        ({
            let c = Challenge { recognizer: e.recognizer, key: e.key, did: e.did, frames: live, now };
            let ending = verified(c, registered(e, world, faults).world, no_faults());
            match capture_outcome(live, e.recognizer.quality_threshold) {
                Err(err) => ending.result == Some(
                    Err::<VerificationResult, DilokDidErrorView>(
                        DilokDidErrorView::FaceRecognitionError(err),
                    ),
                ),
                Ok(samples) => ending.result == Some(
                    Ok::<VerificationResult, DilokDidErrorView>(
                        verdict(e.template().face_data, samples, e.recognizer.match_threshold, now),
                    ),
                ),
            }
        }),
{
    let c = Challenge { recognizer: e.recognizer, key: e.key, did: e.did, frames: live, now };
    let after = registered(e, world, faults).world;
    lemma_success_commits(e, world, faults);
    lemma_verification_ending(c, after, no_faults());
    let form = stored_form(e.template());
    lemma_seal_then_open(e.key, encoded(form));
    lemma_encode_then_decode(form);
    assert(unsealed(e.key, e.envelope()) == Some(form));
}

/// A live capture that holds the enrolled embedding itself is verified,
/// with the full score.
pub proof fn lemma_enrolled_face_is_verified(
    e: Enrollment,
    world: World,
    faults: Faults,
    live: Seq<Frame>,
    now: i64,
    at: int,
)
    requires
        succeeded(registered(e, world, faults)),
        encodable(stored_form(e.template())),
        e.recognizer.match_threshold <= SCORE_ONE,
        capture_outcome(live, e.recognizer.quality_threshold) matches Ok(samples) && 0 <= at
            < samples.len() && samples[at].embedding == e.template().face_data,
    ensures
        ({
            let c = Challenge { recognizer: e.recognizer, key: e.key, did: e.did, frames: live, now };
            verified(c, registered(e, world, faults).world, no_faults()).result == Some(
                Ok::<VerificationResult, DilokDidErrorView>(
                    VerificationResult {
                        is_verified: true,
                        confidence_score: SCORE_ONE,
                        timestamp: now,
                    },
                ),
            )
        }),
{
    lemma_verification_uses_enrolled_template(e, world, faults, live, now);
    lemma_success_commits(e, world, faults);
    lemma_template_holds_scores(e.frames, e.recognizer.quality_threshold, e.user_id, e.now);
    let samples = capture_outcome(live, e.recognizer.quality_threshold)->Ok_0;
    lemma_same_embedding_matches(e.template().face_data, samples, at);
}

/// A live capture none of whose samples is as similar to the enrolled
/// embedding as the match threshold asks is answered as not verified; it
/// is no error.
pub proof fn lemma_distant_face_is_not_verified(
    e: Enrollment,
    world: World,
    faults: Faults,
    live: Seq<Frame>,
    now: i64,
)
    requires
        succeeded(registered(e, world, faults)),
        encodable(stored_form(e.template())),
        capture_outcome(live, e.recognizer.quality_threshold) matches Ok(samples) && forall|
            i: int,
        |
            0 <= i < samples.len() ==> similarity(
                e.template().face_data,
                #[trigger] samples[i].embedding,
            ) < e.recognizer.match_threshold,
    ensures
        ({
            let c = Challenge { recognizer: e.recognizer, key: e.key, did: e.did, frames: live, now };
            verified(c, registered(e, world, faults).world, no_faults()).result matches Some(
                Ok(answer),
            ) && !answer.is_verified && answer.confidence_score < e.recognizer.match_threshold
        }),
{
    lemma_verification_uses_enrolled_template(e, world, faults, live, now);
    let samples = capture_outcome(live, e.recognizer.quality_threshold)->Ok_0;
    lemma_best_below(e.template().face_data, samples, e.recognizer.match_threshold);
    lemma_best_similarity_bounded(e.template().face_data, samples);
}

/// Whether every hash pointer in the registry names a template that the
/// vault holds.
pub open spec fn pointers_resolve(world: World) -> bool {
    forall|id: Seq<u8>| #[trigger]
        world.registry.contains_key(pointer_key(id)) ==> {
            &&& world.registry[pointer_key(id)].len() == HASH_TEXT_LEN
            &&& world.vault.contains_key(template_key(id, world.registry[pointer_key(id)]))
        }
}

/// Whether every index entry names an identity that has a record and a
/// hash pointer.
pub open spec fn index_consistent(registry: Entries) -> bool {
    forall|did: Seq<u8>| #[trigger]
        registry.contains_key(did_index_key(did)) ==> {
            &&& registry.contains_key(record_key(registry[did_index_key(did)]))
            &&& registry.contains_key(pointer_key(registry[did_index_key(did)]))
        }
}

/// Whether no two DIDs name one identity.
pub open spec fn one_to_one(registry: Entries) -> bool {
    forall|a: Seq<u8>, b: Seq<u8>|
        #![trigger registry.contains_key(did_index_key(a)), registry.contains_key(did_index_key(b))]
        registry.contains_key(did_index_key(a)) && registry.contains_key(did_index_key(b))
            && registry[did_index_key(a)] == registry[did_index_key(b)] ==> a == b
}

/// Whether the vault holds no template but those that the hash pointers
/// name: a template of an identity is there only under the hash that the
/// pointer of the identity holds.
pub open spec fn no_template_left_over(world: World) -> bool {
    forall|id: Seq<u8>, hash: Seq<u8>|
        #![trigger template_key(id, hash)]
        hash.len() == HASH_TEXT_LEN && world.vault.contains_key(template_key(id, hash)) ==> lookup(
            world.registry,
            pointer_key(id),
        ) == Some(hash)
}

proof fn lemma_vault_entry_added(world: World, key: Seq<u8>, value: Seq<u8>)
    requires
        pointers_resolve(world),
    ensures
        pointers_resolve(World { vault: world.vault.insert(key, value), ..world }),
{
    let after = World { vault: world.vault.insert(key, value), ..world };
    assert forall|id: Seq<u8>| #[trigger]
        after.registry.contains_key(pointer_key(id)) implies after.registry[pointer_key(id)].len()
        == HASH_TEXT_LEN && after.vault.contains_key(
        template_key(id, after.registry[pointer_key(id)]),
    ) by {
        assert(world.registry.contains_key(pointer_key(id)));
    }
}

proof fn lemma_vault_entry_removed(world: World, id: Seq<u8>, hash: Seq<u8>)
    requires
        pointers_resolve(world),
        hash.len() == HASH_TEXT_LEN,
        lookup(world.registry, pointer_key(id)) != Some(hash),
    ensures
        pointers_resolve(World { vault: world.vault.remove(template_key(id, hash)), ..world }),
{
    let after = World { vault: world.vault.remove(template_key(id, hash)), ..world };
    assert forall|other: Seq<u8>| #[trigger]
        after.registry.contains_key(pointer_key(other)) implies after.registry[pointer_key(
        other,
    )].len() == HASH_TEXT_LEN && after.vault.contains_key(
        template_key(other, after.registry[pointer_key(other)]),
    ) by {
        assert(world.registry.contains_key(pointer_key(other)));
        let pointer = world.registry[pointer_key(other)];
        if template_key(other, pointer) == template_key(id, hash) {
            lemma_template_key_injective(other, pointer, id, hash);
        }
    }
}

/// Whether every index entry names an identity that has a record.
pub open spec fn index_names_records(registry: Entries) -> bool {
    forall|did: Seq<u8>| #[trigger]
        registry.contains_key(did_index_key(did)) ==> registry.contains_key(
            record_key(registry[did_index_key(did)]),
        )
}

/// What the registry holds after it was asked to store the record of an
/// identity: the registry as it was when the store refuses, and else the
/// registry after the write that the store builds.
pub open spec fn after_store(
    registry: Entries,
    user_id: Seq<char>,
    did: Seq<char>,
    record: Seq<u8>,
) -> Entries {
    let id = encode_utf8(user_id);
    let found = lookup(registry, did_index_key(encode_utf8(did)));
    let existing = lookup(registry, record_key(id));
    match store_claim(user_id, did, found, existing) {
        Err(_) => registry,
        Ok(indexed) => applied(registry, record_batch(id, encode_utf8(did), record, indexed)),
    }
}

/// The registry's store keeps the index in order and leaves every hash
/// pointer alone.
///
/// A DID that names another identity is refused with `DuplicateDid` and
/// the registry stays as it was. Whether the store refuses or writes,
/// every index entry still names an identity with a record, no two DIDs
/// name one identity, every other DID names what it named before, every
/// other record is as it was, and every hash pointer is as it was, that
/// of the identity among them. After a write the DID names the identity,
/// and the record is the one that was stored.
pub proof fn lemma_store_keeps_the_index(
    registry: Entries,
    user_id: Seq<char>,
    did: Seq<char>,
    record: Seq<u8>,
)
    requires
        index_names_records(registry),
        one_to_one(registry),
    ensures
        ({
            let id = encode_utf8(user_id);
            let found = lookup(registry, did_index_key(encode_utf8(did)));
            let existing = lookup(registry, record_key(id));
            let after = after_store(registry, user_id, did, record);
            &&& (found is Some && found != Some(id)) ==> store_claim(user_id, did, found, existing)
                == Err::<bool, StorageErrorView>(StorageErrorView::DuplicateDid(did)) && after
                == registry
            &&& index_names_records(after)
            &&& one_to_one(after)
            &&& forall|other: Seq<u8>|
                other != encode_utf8(did) ==> lookup(after, #[trigger] did_index_key(other))
                    == lookup(registry, did_index_key(other))
            &&& forall|other: Seq<u8>|
                other != id ==> lookup(after, #[trigger] record_key(other)) == lookup(
                    registry,
                    record_key(other),
                )
            &&& forall|any: Seq<u8>|
                lookup(after, #[trigger] pointer_key(any)) == lookup(registry, pointer_key(any))
            &&& store_claim(user_id, did, found, existing) is Ok ==> {
                &&& lookup(after, did_index_key(encode_utf8(did))) == Some(id)
                &&& lookup(after, record_key(id)) == Some(record)
            }
        }),
{
    let id = encode_utf8(user_id);
    let name = encode_utf8(did);
    let found = lookup(registry, did_index_key(name));
    let existing = lookup(registry, record_key(id));
    let after = after_store(registry, user_id, did, record);
    match store_claim(user_id, did, found, existing) {
        Err(_) => {},
        Ok(indexed) => {
            let first = MutationView { key: record_key(id), value: Some(record) };
            let second = MutationView { key: did_index_key(name), value: Some(id) };
            if indexed {
                lemma_applied_one(registry, first);
            } else {
                lemma_applied_two(registry, first, second);
            }
            lemma_registry_keys_apart(id, name);
            lemma_registry_keys_apart(name, id);
            assert forall|other: Seq<u8>| other != name implies lookup(
                after,
                #[trigger] did_index_key(other),
            ) == lookup(registry, did_index_key(other)) by {
                lemma_registry_keys_apart(id, other);
                lemma_registry_keys_injective(other, name);
            }
            assert forall|other: Seq<u8>| other != id implies lookup(
                after,
                #[trigger] record_key(other),
            ) == lookup(registry, record_key(other)) by {
                lemma_registry_keys_apart(other, name);
                lemma_registry_keys_injective(other, id);
            }
            assert forall|any: Seq<u8>| lookup(after, #[trigger] pointer_key(any)) == lookup(
                registry,
                pointer_key(any),
            ) by {
                lemma_registry_keys_apart(id, any);
                lemma_registry_keys_apart(name, any);
            }
            assert forall|other: Seq<u8>| #[trigger]
                after.contains_key(did_index_key(other)) implies after.contains_key(
                record_key(after[did_index_key(other)]),
            ) by {
                lemma_registry_keys_apart(id, other);
                lemma_registry_keys_injective(other, name);
                if other != name {
                    assert(registry.contains_key(did_index_key(other)));
                    let named = registry[did_index_key(other)];
                    lemma_registry_keys_apart(named, name);
                } else if indexed {
                    assert(registry.contains_key(did_index_key(other)));
                }
            }
            assert forall|a: Seq<u8>, b: Seq<u8>|
                #![trigger after.contains_key(did_index_key(a)), after.contains_key(did_index_key(b))]
                after.contains_key(did_index_key(a)) && after.contains_key(did_index_key(b))
                    && after[did_index_key(a)] == after[did_index_key(b)] implies a == b by {
                lemma_registry_keys_apart(id, a);
                lemma_registry_keys_apart(id, b);
                lemma_registry_keys_injective(a, name);
                lemma_registry_keys_injective(b, name);
                if indexed || (a != name && b != name) {
                    assert(registry.contains_key(did_index_key(a)));
                    assert(registry.contains_key(did_index_key(b)));
                } else if a != b {
                    let rest = if a == name {
                        b
                    } else {
                        a
                    };
                    assert(registry.contains_key(did_index_key(rest)));
                    assert(registry[did_index_key(rest)] == id);
                    assert(registry.contains_key(record_key(id)));
                }
            }
        },
    }
}

/// A hash pointer that was stored is read back, whatever the registry
/// held, and the store of a pointer changes nothing else in the registry.
pub proof fn lemma_pointer_is_read_back(registry: Entries, id: Seq<u8>, hash: Seq<u8>)
    ensures
        ({
            let after = applied(registry, pointer_batch(id, hash));
            &&& lookup(after, pointer_key(id)) == Some(hash)
            &&& after == registry.insert(pointer_key(id), hash)
        }),
{
    lemma_applied_one(registry, MutationView { key: pointer_key(id), value: Some(hash) });
}

/// A registration leaves no template in the vault that no hash pointer
/// names, when there was none before and no more than one of its requests
/// fails. With the pointers resolving, each identity in the registry then
/// has exactly one template in the vault, the one that its pointer names.
pub proof fn lemma_no_template_is_left_over(e: Enrollment, world: World, faults: Faults)
    requires
        no_template_left_over(world),
        e.captured() ==> e.hash().len() == HASH_TEXT_LEN,
        single_fault(faults),
    ensures
        no_template_left_over(registered(e, world, faults).world),
{
    lemma_registration_ending(e, world, faults);
    let after = registered(e, world, faults).world;
    if succeeded(registered(e, world, faults)) {
        let id = e.id();
        lemma_success_commits(e, world, faults);
        let indexed = e.claim_in(world.registry)->Ok_0;
        lemma_committed_registry(e, indexed, world.registry);
        if faults(removal_position()) is Some {
            assert(faults(7) is None);
        }
        assert forall|other: Seq<u8>, hash: Seq<u8>|
            #![trigger template_key(other, hash)]
            hash.len() == HASH_TEXT_LEN && after.vault.contains_key(
                template_key(other, hash),
            ) implies lookup(after.registry, pointer_key(other)) == Some(hash) by {
            lemma_registry_keys_apart(id, other);
            lemma_registry_keys_apart(encode_utf8(e.did), other);
            lemma_registry_keys_injective(id, other);
            if template_key(other, hash) == e.vault_key() {
                lemma_template_key_injective(other, hash, id, e.hash());
            } else {
                assert(world.vault.contains_key(template_key(other, hash)));
                if other == id {
                    assert(lookup(world.registry, pointer_key(id)) == Some(hash));
                    assert(e.prior_in(world.registry) == Some(hash));
                }
            }
        }
    } else {
        lemma_error_changes_nothing(e, world, faults);
    }
}

/// After a registration that succeeded, with no more than one of its
/// requests failing, in stores that held no template that no pointer
/// names, the identity has exactly one template in the vault: the new
/// one, under the hash that its pointer names.
pub proof fn lemma_one_template_after_registration(e: Enrollment, world: World, faults: Faults)
    requires
        no_template_left_over(world),
        e.captured() ==> e.hash().len() == HASH_TEXT_LEN,
        single_fault(faults),
        succeeded(registered(e, world, faults)),
    ensures
        ({
            let after = registered(e, world, faults).world;
            &&& lookup(after.registry, pointer_key(e.id())) == Some(e.hash())
            &&& lookup(after.vault, e.vault_key()) == Some(e.envelope())
            &&& forall|hash: Seq<u8>|
                #![trigger template_key(e.id(), hash)]
                hash.len() == HASH_TEXT_LEN && after.vault.contains_key(template_key(e.id(), hash))
                    ==> hash == e.hash()
        }),
{
    lemma_success_commits(e, world, faults);
    lemma_no_template_is_left_over(e, world, faults);
    let after = registered(e, world, faults).world;
    assert forall|hash: Seq<u8>|
        #![trigger template_key(e.id(), hash)]
        hash.len() == HASH_TEXT_LEN && after.vault.contains_key(
            template_key(e.id(), hash),
        ) implies hash == e.hash() by {
        assert(lookup(after.registry, pointer_key(e.id())) == Some(hash));
    }
}

proof fn lemma_pointer_committed(e: Enrollment, indexed: bool, world: World)
    requires
        pointers_resolve(world),
        e.hash().len() == HASH_TEXT_LEN,
        world.vault.contains_key(e.vault_key()),
    ensures
        pointers_resolve(
            World { registry: applied(world.registry, commit_batch(e, indexed)), ..world },
        ),
{
    let after = World { registry: applied(world.registry, commit_batch(e, indexed)), ..world };
    lemma_committed_registry(e, indexed, world.registry);
    assert forall|other: Seq<u8>| #[trigger]
        after.registry.contains_key(pointer_key(other)) implies after.registry[pointer_key(
        other,
    )].len() == HASH_TEXT_LEN && after.vault.contains_key(
        template_key(other, after.registry[pointer_key(other)]),
    ) by {
        lemma_registry_keys_apart(e.id(), other);
        lemma_registry_keys_apart(encode_utf8(e.did), other);
        lemma_registry_keys_injective(e.id(), other);
        if other != e.id() {
            assert(world.registry.contains_key(pointer_key(other)));
        }
    }
}

/// Whatever fails in a registration, and wherever it stops, every hash
/// pointer in the registry still names a template that the vault holds.
pub proof fn lemma_pointers_always_resolve(e: Enrollment, world: World, faults: Faults)
    requires
        pointers_resolve(world),
        e.captured() ==> e.hash().len() == HASH_TEXT_LEN,
    ensures
        pointers_resolve(registered(e, world, faults).world),
{
    lemma_registration_ending(e, world, faults);
    let after = registered(e, world, faults).world;
    if after != world {
        let id = e.id();
        let indexed = e.claim_in(world.registry)->Ok_0;
        let before = lookup(world.vault, e.vault_key());
        let written = World { vault: world.vault.insert(e.vault_key(), e.envelope()), ..world };
        lemma_vault_entry_added(world, e.vault_key(), e.envelope());
        // Put back, the vault is as it was.
        assert(changed(written.vault, MutationView { key: e.vault_key(), value: before })
            =~= world.vault);
        // Undone, the registry is as it was.
        lemma_undo_restores(e, indexed, world.registry);
        lemma_pointer_committed(e, indexed, written);
        let committed = World {
            registry: applied(written.registry, commit_batch(e, indexed)),
            ..written
        };
        lemma_committed_registry(e, indexed, written.registry);
        lemma_registry_keys_apart(id, id);
        lemma_registry_keys_apart(encode_utf8(e.did), id);
        match e.prior_in(world.registry) {
            Some(hash_before) => {
                assert(world.registry.contains_key(pointer_key(id)));
                lemma_vault_entry_removed(committed, id, hash_before);
            },
            None => {},
        }
    }
}

/// Whatever fails in a registration, every index entry in the registry
/// still names an identity with a record and a hash pointer.
pub proof fn lemma_index_stays_consistent(e: Enrollment, world: World, faults: Faults)
    requires
        index_consistent(world.registry),
    ensures
        index_consistent(registered(e, world, faults).world.registry),
{
    lemma_registration_ending(e, world, faults);
    if e.claim_in(world.registry) is Ok {
        lemma_undo_restores(e, e.claim_in(world.registry)->Ok_0, world.registry);
    }
    let after = registered(e, world, faults).world.registry;
    if after != world.registry {
        let id = e.id();
        let name = encode_utf8(e.did);
        let indexed = e.claim_in(world.registry)->Ok_0;
        lemma_committed_registry(e, indexed, world.registry);
        assert(after == applied(world.registry, commit_batch(e, indexed)));
        assert forall|did: Seq<u8>| #[trigger] after.contains_key(did_index_key(did)) implies {
            &&& after.contains_key(record_key(after[did_index_key(did)]))
            &&& after.contains_key(pointer_key(after[did_index_key(did)]))
        } by {
            lemma_registry_keys_apart(id, did);
            lemma_registry_keys_apart(did, id);
            lemma_registry_keys_apart(id, name);
            lemma_registry_keys_apart(name, id);
            lemma_registry_keys_injective(did, name);
            if did != name || indexed {
                assert(world.registry.contains_key(did_index_key(did)));
                let named = world.registry[did_index_key(did)];
                lemma_registry_keys_apart(named, name);
                lemma_registry_keys_apart(id, named);
                lemma_registry_keys_apart(named, id);
            }
        }
    }
}

/// Whatever fails in a registration, no two DIDs name one identity
/// afterwards when none did before.
pub proof fn lemma_index_stays_one_to_one(e: Enrollment, world: World, faults: Faults)
    requires
        index_names_records(world.registry),
        one_to_one(world.registry),
    ensures
        one_to_one(registered(e, world, faults).world.registry),
{
    lemma_registration_ending(e, world, faults);
    if e.claim_in(world.registry) is Ok {
        lemma_undo_restores(e, e.claim_in(world.registry)->Ok_0, world.registry);
    }
    let after = registered(e, world, faults).world.registry;
    if after != world.registry {
        let id = e.id();
        let name = encode_utf8(e.did);
        let indexed = e.claim_in(world.registry)->Ok_0;
        lemma_committed_registry(e, indexed, world.registry);
        assert(after == applied(world.registry, commit_batch(e, indexed)));
        assert forall|a: Seq<u8>, b: Seq<u8>|
            #![trigger after.contains_key(did_index_key(a)), after.contains_key(did_index_key(b))]
            after.contains_key(did_index_key(a)) && after.contains_key(did_index_key(b))
                && after[did_index_key(a)] == after[did_index_key(b)] implies a == b by {
            lemma_registry_keys_apart(id, a);
            lemma_registry_keys_apart(a, id);
            lemma_registry_keys_apart(id, b);
            lemma_registry_keys_apart(b, id);
            lemma_registry_keys_injective(a, name);
            lemma_registry_keys_injective(b, name);
            if indexed || (a != name && b != name) {
                assert(world.registry.contains_key(did_index_key(a)));
                assert(world.registry.contains_key(did_index_key(b)));
            } else if a != b {
                let rest = if a == name {
                    b
                } else {
                    a
                };
                assert(world.registry.contains_key(did_index_key(rest)));
                assert(world.registry[did_index_key(rest)] == id);
                assert(world.registry.contains_key(record_key(id)));
            }
        }
    }
}

/// A DID, once it names an identity, names it after every registration,
/// whatever was registered and whatever failed.
pub proof fn lemma_did_stays_bound(e: Enrollment, world: World, faults: Faults, did: Seq<u8>)
    requires
        world.registry.contains_key(did_index_key(did)),
    ensures
        lookup(registered(e, world, faults).world.registry, did_index_key(did)) == lookup(
            world.registry,
            did_index_key(did),
        ),
{
    lemma_registration_ending(e, world, faults);
    if e.claim_in(world.registry) is Ok {
        lemma_undo_restores(e, e.claim_in(world.registry)->Ok_0, world.registry);
    }
    let after = registered(e, world, faults).world.registry;
    if after != world.registry {
        let id = e.id();
        let indexed = e.claim_in(world.registry)->Ok_0;
        lemma_committed_registry(e, indexed, world.registry);
        assert(after == applied(world.registry, commit_batch(e, indexed)));
        lemma_registry_keys_apart(id, did);
        lemma_registry_keys_apart(did, id);
        lemma_registry_keys_injective(did, encode_utf8(e.did));
    }
}

/// A registration under a DID that names another identity is refused with
/// `DuplicateDid`, and so is the registration of an identity that has a
/// record under a DID that does not name it. Neither changes a store.
pub proof fn lemma_duplicate_is_refused(e: Enrollment, world: World)
    requires
        e.captured(),
    ensures
        ({
            let ending = registered(e, world, no_faults());
            let named = lookup(world.registry, did_index_key(encode_utf8(e.did)));
            &&& (named is Some && named != Some(e.id())) ==> ending == failed::<Seq<char>>(
                world,
                StorageErrorView::DuplicateDid(e.did),
            )
            &&& (named is None && world.registry.contains_key(record_key(e.id()))) ==> ending
                == failed::<Seq<char>>(world, StorageErrorView::DuplicateDid(e.user_id))
        }),
{
    lemma_registration_ending(e, world, no_faults());
}

} // verus!
