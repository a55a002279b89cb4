//! What each call of presence admission does, told of its arguments and its result.

use crate::identifier;
use crate::moment::Timestamp;
use crate::presence::{
    self, AdmissionError, ContractFindings, DoorwayObservation, PresenceAdmission,
    PresenceAuthorizer, PresenceDecision, PresenceDecisionKind, PresenceDecisionReason,
    PresenceEvidenceVerifier, PresenceLedger, PresencePrincipal, PresenceSubmissionNonce,
    PresenceSubmissionNonceRequest, ProductAuthorization, Verification,
};
use crate::presence_answers;
use crate::seal;
use crate::text;
use std::sync::Arc;
use vstd::prelude::*;

verus! {

/// A principal has the provider, the tenant and the subject that were verified; there is one
/// exactly where these are within their bounds.
pub proof fn principals_are_who_was_verified(
    provider: &str,
    tenant: &str,
    subject: &str,
    r: Result<PresencePrincipal, AdmissionError>,
)
    requires
        call_ensures(PresencePrincipal::from_verified_identity, (provider, tenant, subject), r),
    ensures
        r matches Ok(principal) ==> principal@.provider == provider@ && principal@.tenant == tenant@
            && principal@.subject == subject@,
        r is Ok <==> {
            &&& presence_answers::clean(provider@) && text::byte_len(provider@) <= 64
            &&& presence_answers::clean(tenant@) && text::byte_len(tenant@) <= 255
            &&& presence_answers::clean(subject@) && text::byte_len(subject@) <= 512
        },
        r is Err ==> r == Err::<PresencePrincipal, _>(AdmissionError::InvalidRequest),
{
    presence_answers::identity_parts_are_bounded(
        crate::identity::Identity { provider: provider@, tenant: tenant@, subject: subject@ },
    );
}

/// The product goes on with what it allows, and tells a denial from not being there.
pub proof fn authorizations_go_on_or_are_told(
    authorization: ProductAuthorization,
    r: Result<(), AdmissionError>,
)
    requires
        call_ensures(presence::require_authorization, (authorization,), r),
    ensures
        r == match authorization {
            ProductAuthorization::Allowed => Ok::<(), AdmissionError>(()),
            ProductAuthorization::Denied => Err(AdmissionError::MembershipDenied),
            ProductAuthorization::Unavailable => Err(AdmissionError::AuthenticationUnavailable),
        },
{
}

/// Only verified evidence goes on; the other outcomes are told apart.
pub proof fn verifications_go_on_or_are_told(
    verification: Verification,
    r: Result<(), AdmissionError>,
)
    requires
        call_ensures(presence::require_verification, (verification,), r),
    ensures
        r == match verification {
            Verification::Verified => Ok::<(), AdmissionError>(()),
            Verification::Invalid => Err(AdmissionError::EvidenceInvalid),
            Verification::Unavailable => Err(AdmissionError::AuthenticationUnavailable),
            Verification::DeviceRevoked => Err(AdmissionError::DeviceRevoked),
        },
{
}

/// A new ledger holds nothing.
pub proof fn new_ledgers_are_blank(r: PresenceLedger)
    requires
        call_ensures(PresenceLedger::new, (), r),
    ensures
        r@.nonces.dom() =~= Set::<Seq<char>>::empty(),
        r@.decisions.dom() =~= Set::<u128>::empty(),
        r@.used_challenges =~= Set::<u128>::empty(),
        r@.used_evidence =~= Set::<u128>::empty(),
        r@.sequences.dom() =~= Set::<(crate::identity::Identity, Seq<char>)>::empty(),
{
}

/// The ledger answers from its record exactly where it has a decision on the observation: with
/// that decision where the request is the same, else as a replay.
pub proof fn record_answers_retries(
    ledger: &PresenceLedger,
    observation_id: u128,
    request_digest: &[u8],
    r: Option<Result<PresenceDecision, AdmissionError>>,
)
    requires
        call_ensures(PresenceLedger::recorded, (ledger, observation_id, request_digest), r),
    ensures
        r is Some <==> ledger@.decisions.contains_key(observation_id),
        r matches Some(answer) ==> {
            let recorded = ledger@.decisions[observation_id];
            if recorded.request_digest == request_digest@ {
                answer matches Ok(d) && d@ == recorded.decision
            } else {
                answer == Err::<PresenceDecision, _>(AdmissionError::Replayed)
            }
        },
{
}

/// A nonce is granted as long as fewer than ten thousand are pending, to the principal, for the
/// house and for sixty seconds. Every other nonce that has not run out stays as it was, whoever
/// it belongs to, and so does the rest of the ledger.
pub proof fn grants_bind_one_nonce_and_keep_the_others(
    ledger: &mut PresenceLedger,
    principal: &PresencePrincipal,
    house_id: &str,
    now: Timestamp,
    first: u128,
    second: u128,
    r: Result<PresenceSubmissionNonce, AdmissionError>,
    n: Seq<char>,
)
    requires
        call_ensures(
            PresenceLedger::grant,
            (ledger, principal, house_id, now, first, second),
            r,
        ),
        n != identifier::simple_form(first) + identifier::simple_form(second),
    ensures
        ({
            let before = old(ledger)@;
            let after = final(ledger)@;
            let live = |g: presence::Grant| presence_answers::good_at(g, now@);
            &&& r is Ok <==> before.nonces.dom().filter(
                |k: Seq<char>| presence_answers::good_at(before.nonces[k], now@),
            ).len() < 10_000
            &&& r is Err ==> r == Err::<PresenceSubmissionNonce, _>(AdmissionError::RateLimited)
            &&& r matches Ok(nonce) ==> {
                &&& nonce.nonce@ == identifier::simple_form(first) + identifier::simple_form(second)
                &&& nonce.expires_at@.seconds == now@.seconds + 60
                &&& after.nonces.contains_key(nonce.nonce@)
                &&& after.nonces[nonce.nonce@].principal == principal@
                &&& after.nonces[nonce.nonce@].house_id == house_id@
                &&& after.nonces[nonce.nonce@].expires_at == nonce.expires_at@
            }
            &&& after.nonces.contains_key(n) <==> before.nonces.contains_key(n) && live(
                before.nonces[n],
            )
            &&& after.nonces.contains_key(n) ==> after.nonces[n] == before.nonces[n]
            &&& after.used_challenges == before.used_challenges
            &&& after.used_evidence == before.used_evidence
            &&& after.sequences == before.sequences
            &&& after.decisions == before.decisions
        }),
{
    presence_answers::granted_nonce_is_bound(
        old(ledger)@,
        principal@,
        house_id@,
        now@,
        first,
        second,
    );
    presence_answers::grant_keeps_every_live_nonce(
        old(ledger)@,
        principal@,
        house_id@,
        now@,
        first,
        second,
        n,
    );
}

/// A new decision repeats what was observed, where, in which direction and under which policy. It
/// is dated now, numbered one after the sequence that the observation named, and asks for a
/// confirmation exactly where one is needed. It spends the nonce, the challenge and the evidence,
/// and every other nonce stays pending. A refusal changes nothing.
pub proof fn commits_decide_what_was_observed(
    ledger: &mut PresenceLedger,
    principal: &PresencePrincipal,
    observation: &DoorwayObservation,
    requires_confirmation: bool,
    request_digest: Vec<u8>,
    now: Timestamp,
    event_id: u128,
    r: Result<PresenceDecision, AdmissionError>,
)
    requires
        call_ensures(
            PresenceLedger::commit,
            (
                ledger,
                principal,
                observation,
                requires_confirmation,
                request_digest,
                now,
                event_id,
            ),
            r,
        ),
        !old(ledger)@.decisions.contains_key(observation.observation_id),
    ensures
        r is Err ==> final(ledger)@ == old(ledger)@,
        r matches Ok(d) ==> {
            &&& d.observation_id == observation.observation_id
            &&& d.house_id@ == observation.challenge.house_id@
            &&& d.door_id@ == observation.challenge.door_id@
            &&& d.direction@ == observation.direction@
            &&& d.policy_version@ == observation.policy_version@
            &&& d.recorded_at@ == now@
            &&& d.event_id == event_id
            &&& d.presence_sequence == observation.previous_presence_sequence + 1
            &&& d.decision == if requires_confirmation {
                PresenceDecisionKind::ConfirmationRequired
            } else {
                PresenceDecisionKind::Accepted
            }
            &&& d.reason == if requires_confirmation {
                PresenceDecisionReason::AmbiguousDirection
            } else {
                PresenceDecisionReason::Accepted
            }
            &&& forall|n: Seq<char>| #[trigger]
                final(ledger)@.nonces.contains_key(n) <==> old(ledger)@.nonces.contains_key(n) && n
                    != observation.submission_nonce@
            &&& final(ledger)@.used_challenges.contains(observation.challenge.challenge_id)
            &&& final(ledger)@.used_evidence.contains(observation.corroboration.evidence_id)
            &&& final(ledger)@.decisions.contains_key(observation.observation_id)
            &&& final(ledger)@.decisions[observation.observation_id].decision == d@
            &&& final(ledger)@.decisions[observation.observation_id].request_digest
                == request_digest@
        },
        (presence::shown(r), final(ledger)@) == presence::committed(
            old(ledger)@,
            principal@,
            observation@,
            requires_confirmation,
            request_digest@,
            now@,
            event_id,
        ),
{
    let book = old(ledger)@;
    if r is Ok {
        presence_answers::decision_repeats_the_observation(
            book,
            principal@,
            observation@,
            requires_confirmation,
            request_digest@,
            now@,
            event_id,
        );
        presence_answers::decision_changes_only_its_own(
            book,
            principal@,
            observation@,
            requires_confirmation,
            request_digest@,
            now@,
            event_id,
        );
    }
}

/// An observation that was decided before is answered from the record, and nothing changes.
pub proof fn commits_answer_retries_from_the_record(
    ledger: &mut PresenceLedger,
    principal: &PresencePrincipal,
    observation: &DoorwayObservation,
    requires_confirmation: bool,
    request_digest: Vec<u8>,
    now: Timestamp,
    event_id: u128,
    r: Result<PresenceDecision, AdmissionError>,
)
    requires
        call_ensures(
            PresenceLedger::commit,
            (
                ledger,
                principal,
                observation,
                requires_confirmation,
                request_digest,
                now,
                event_id,
            ),
            r,
        ),
        old(ledger)@.decisions.contains_key(observation.observation_id),
    ensures
        final(ledger)@ == old(ledger)@,
        ({
            let recorded = old(ledger)@.decisions[observation.observation_id];
            if recorded.request_digest == request_digest@ {
                r matches Ok(d) && d@ == recorded.decision
            } else {
                r == Err::<PresenceDecision, _>(AdmissionError::Replayed)
            }
        }),
{
}

/// The digest of a request is that of its encoding; without one the request is invalid.
pub proof fn requests_are_known_by_their_encoding(
    encoded: &Option<Vec<u8>>,
    r: Result<Vec<u8>, AdmissionError>,
)
    requires
        call_ensures(presence::observation_digest, (encoded,), r),
    ensures
        *encoded matches Some(bytes) ==> (r matches Ok(digest) && digest@ == seal::sha256(bytes@)),
        *encoded is None ==> r == Err::<Vec<u8>, _>(AdmissionError::InvalidRequest),
{
}

/// Presence admission begins with a blank ledger and asks whom it was given.
pub proof fn admission_begins_blank<V: PresenceEvidenceVerifier, A: PresenceAuthorizer>(
    verifier: Arc<V>,
    authorizer: Arc<A>,
    r: PresenceAdmission<V, A>,
)
    requires
        call_ensures(PresenceAdmission::<V, A>::new, (verifier, authorizer), r),
    ensures
        r.evidence_verifier() == *verifier,
        r.product_authorizer() == *authorizer,
        r.book().nonces.dom() =~= Set::<Seq<char>>::empty(),
        r.book().decisions.dom() =~= Set::<u128>::empty(),
        r.book().used_challenges =~= Set::<u128>::empty(),
        r.book().used_evidence =~= Set::<u128>::empty(),
        r.book().sequences.dom() =~= Set::<(crate::identity::Identity, Seq<char>)>::empty(),
{
}

/// A nonce is given out only to whom the product allows it for the house of the request, for
/// sixty seconds; a request of an invalid shape is refused.
pub proof fn nonces_are_issued_where_the_product_allows<
    V: PresenceEvidenceVerifier,
    A: PresenceAuthorizer,
>(
    admission: &mut PresenceAdmission<V, A>,
    principal: &PresencePrincipal,
    request: &PresenceSubmissionNonceRequest,
    shape_valid: bool,
    now: Timestamp,
    r: Result<PresenceSubmissionNonce, AdmissionError>,
)
    requires
        call_ensures(
            PresenceAdmission::<V, A>::issue_nonce,
            (admission, principal, request, shape_valid, now),
            r,
        ),
    ensures
        final(admission).evidence_verifier() == old(admission).evidence_verifier(),
        final(admission).product_authorizer() == old(admission).product_authorizer(),
        presence::nonce_issued(
            old(admission).product_authorizer(),
            old(admission).book(),
            principal,
            request,
            shape_valid,
            now@,
            r,
            final(admission).book(),
        ),
        !shape_valid ==> r == Err::<PresenceSubmissionNonce, _>(AdmissionError::InvalidRequest)
            && final(admission).book() == old(admission).book(),
        r matches Ok(nonce) ==> {
            let after = final(admission).book();
            &&& exists|house_id: &str| #[trigger]
                call_ensures(
                    A::authorize_nonce,
                    (&old(admission).product_authorizer(), principal, house_id),
                    ProductAuthorization::Allowed,
                ) && house_id@ == request.house_id@
            &&& after.nonces.contains_key(nonce.nonce@)
            &&& after.nonces[nonce.nonce@].principal == principal@
            &&& after.nonces[nonce.nonce@].house_id == request.house_id@
            &&& after.nonces[nonce.nonce@].expires_at == nonce.expires_at@
            &&& nonce.expires_at@.seconds == now@.seconds + 60
        },
{
    presence_answers::nonces_are_given_where_the_product_allows(
        old(admission).product_authorizer(),
        old(admission).book(),
        principal,
        request,
        shape_valid,
        now@,
        r,
        final(admission).book(),
    );
}

/// A new decision rests on a valid shape, on what the product allows, on verified evidence and on
/// a nonce of the same principal for the same house. It repeats the observation. A refusal
/// changes nothing.
pub proof fn submissions_rest_on_authorization_and_evidence<
    V: PresenceEvidenceVerifier,
    A: PresenceAuthorizer,
>(
    admission: &mut PresenceAdmission<V, A>,
    principal: &PresencePrincipal,
    observation: &DoorwayObservation,
    findings: &ContractFindings,
    now: Timestamp,
    r: Result<PresenceDecision, AdmissionError>,
)
    requires
        call_ensures(
            PresenceAdmission::<V, A>::submit,
            (admission, principal, observation, findings, now),
            r,
        ),
    ensures
        final(admission).evidence_verifier() == old(admission).evidence_verifier(),
        final(admission).product_authorizer() == old(admission).product_authorizer(),
        presence::submitted(
            old(admission).evidence_verifier(),
            old(admission).product_authorizer(),
            old(admission).book(),
            principal,
            observation,
            findings,
            now,
            r,
            final(admission).book(),
        ),
        !old(admission).book().decisions.contains_key(observation.observation_id) ==> {
            let before = old(admission).book();
            let after = final(admission).book();
            &&& r is Err ==> after == before
            &&& r matches Ok(d) ==> {
                &&& findings.shape_valid
                &&& call_ensures(
                    A::authorize_observation,
                    (&old(admission).product_authorizer(), principal, observation),
                    ProductAuthorization::Allowed,
                )
                &&& call_ensures(
                    V::verify,
                    (&old(admission).evidence_verifier(), principal, observation, now),
                    Verification::Verified,
                )
                &&& before.nonces.contains_key(observation.submission_nonce@)
                &&& before.nonces[observation.submission_nonce@].principal == principal@
                &&& before.nonces[observation.submission_nonce@].house_id
                    == observation.challenge.house_id@
                &&& !after.nonces.contains_key(observation.submission_nonce@)
                &&& d.observation_id == observation.observation_id
                &&& d.house_id@ == observation.challenge.house_id@
                &&& d.door_id@ == observation.challenge.door_id@
                &&& d.direction@ == observation.direction@
                &&& d.policy_version@ == observation.policy_version@
                &&& d.recorded_at@ == now@
                &&& d.presence_sequence == observation.previous_presence_sequence + 1
                &&& (d.decision == PresenceDecisionKind::ConfirmationRequired)
                    == findings.direction_requires_confirmation
            }
        },
        old(admission).book().decisions.contains_key(observation.observation_id)
            && findings.shape_valid && findings.encoded is Some ==> {
            let recorded = old(admission).book().decisions[observation.observation_id];
            &&& final(admission).book() == old(admission).book()
            &&& if seal::sha256(findings.encoded->Some_0@) == recorded.request_digest {
                r matches Ok(d) && d@ == recorded.decision
            } else {
                r == Err::<PresenceDecision, _>(AdmissionError::Replayed)
            }
        },
{
    if !old(admission).book().decisions.contains_key(observation.observation_id) {
        presence_answers::decisions_rest_on_authorization_and_evidence(
            old(admission).evidence_verifier(),
            old(admission).product_authorizer(),
            old(admission).book(),
            principal,
            observation,
            findings,
            now,
            r,
            final(admission).book(),
        );
    } else if findings.shape_valid && findings.encoded is Some {
        presence_answers::retries_are_answered_from_the_record(
            old(admission).evidence_verifier(),
            old(admission).product_authorizer(),
            old(admission).book(),
            principal,
            observation,
            findings,
            now,
            r,
            final(admission).book(),
        );
    }
}

} // verus!
