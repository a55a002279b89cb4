//! What presence admission answers, said of the requests and the answers themselves.

use crate::identifier;
use crate::identity::{self, Identity};
use crate::moment::{Moment, Timestamp};
use crate::presence::{
    self, AdmissionError, Book, ContractFindings, Decision, DoorwayObservation, Grant, Nonce,
    Observed, PresenceAuthorizer, PresenceDecision, PresenceDecisionKind, PresenceDecisionReason,
    PresenceEvidenceVerifier, PresencePrincipal, PresenceSubmissionNonce,
    PresenceSubmissionNonceRequest, ProductAuthorization, Recorded, Verification,
};
use crate::seal;
use crate::text;
use vstd::prelude::*;

verus! {

/// Whether `s` is not empty and holds no control character and no bar.
pub open spec fn clean(s: Seq<char>) -> bool {
    0 < s.len() && forall|i: int|
        0 <= i < s.len() ==> (#[trigger] s[i]) as u32 > 0x1f && !(0x7f <= s[i] as u32 <= 0x9f)
            && s[i] != '|'
}

proof fn lemma_clean(s: Seq<char>, maximum: nat)
    ensures
        identity::component(s, maximum) == (clean(s) && text::byte_len(s) <= maximum),
{
    if clean(s) {
        assert forall|i: int| 0 <= i < s.len() implies !text::control_char(#[trigger] s[i]) by {}
    } else if s.len() > 0 {
        let i = choose|i: int|
            0 <= i < s.len() && !((#[trigger] s[i]) as u32 > 0x1f && !(0x7f <= s[i] as u32 <= 0x9f)
                && s[i] != '|');
        assert(text::control_char(s[i]) || s[i] == '|');
    }
}

/// An identity is valid where its provider takes at most 64 bytes, its tenant at most 255 and its
/// subject at most 512, none of them is empty, and none holds a control character or a bar.
pub proof fn identity_parts_are_bounded(who: Identity)
    ensures
        who.valid() <==> {
            &&& clean(who.provider) && text::byte_len(who.provider) <= 64
            &&& clean(who.tenant) && text::byte_len(who.tenant) <= 255
            &&& clean(who.subject) && text::byte_len(who.subject) <= 512
        },
{
    lemma_clean(who.provider, 64);
    lemma_clean(who.tenant, 255);
    lemma_clean(who.subject, 512);
}

/// The parts of an observation by which it is decided are its own.
pub proof fn observation_is_seen_as_it_is(o: DoorwayObservation)
    ensures
        o@.observation_id == o.observation_id,
        o@.submission_nonce == o.submission_nonce@,
        o@.house_id == o.challenge.house_id@,
        o@.door_id == o.challenge.door_id@,
        o@.challenge_id == o.challenge.challenge_id,
        o@.evidence_id == o.corroboration.evidence_id,
        o@.direction == o.direction@,
        o@.previous_presence_sequence == o.previous_presence_sequence,
        o@.policy_version == o.policy_version@,
{
}

/// A decision is shown field by field.
pub proof fn decision_is_seen_as_it_is(d: PresenceDecision)
    ensures
        d@.decision == d.decision,
        d@.reason == d.reason,
        d@.event_id == d.event_id,
        d@.observation_id == d.observation_id,
        d@.house_id == d.house_id@,
        d@.door_id == d.door_id@,
        d@.direction == d.direction@,
        d@.presence_sequence == d.presence_sequence,
        d@.policy_version == d.policy_version@,
        d@.recorded_at == d.recorded_at@,
{
}

/// A nonce is shown field by field.
pub proof fn nonce_is_seen_as_it_is(n: PresenceSubmissionNonce)
    ensures
        n@.nonce == n.nonce@,
        n@.expires_at == n.expires_at@,
{
}

/// Every new decision repeats the observation that it was made on: what was observed, where, in
/// which direction and under which policy. It is dated with the submission and numbered one
/// after the sequence that the observation named, and it asks for a confirmation exactly where
/// the direction needs one.
pub proof fn decision_repeats_the_observation(
    book: Book,
    principal: Identity,
    o: Observed,
    confirm: bool,
    request: Seq<u8>,
    now: Moment,
    event_id: u128,
)
    requires
        !book.decisions.contains_key(o.observation_id),
        presence::committed(book, principal, o, confirm, request, now, event_id).0 is Ok,
    ensures
        ({
            let d = presence::committed(
                book,
                principal,
                o,
                confirm,
                request,
                now,
                event_id,
            ).0->Ok_0;
            &&& d.observation_id == o.observation_id
            &&& d.house_id == o.house_id
            &&& d.door_id == o.door_id
            &&& d.direction == o.direction
            &&& d.policy_version == o.policy_version
            &&& d.recorded_at == now
            &&& d.event_id == event_id
            &&& d.presence_sequence == o.previous_presence_sequence + 1
            &&& (d.decision == PresenceDecisionKind::ConfirmationRequired) == confirm
            &&& (d.decision == PresenceDecisionKind::Accepted) == !confirm
            &&& (d.reason == PresenceDecisionReason::AmbiguousDirection) == confirm
            &&& (d.reason == PresenceDecisionReason::Accepted) == !confirm
        }),
{
}

/// A new decision consumes the nonce, the challenge and the evidence of its observation, moves
/// the sequence of its principal in its house, and is recorded under the observation with the
/// digest of the request. Nothing else in the ledger changes: every other nonce stays pending.
pub proof fn decision_changes_only_its_own(
    book: Book,
    principal: Identity,
    o: Observed,
    confirm: bool,
    request: Seq<u8>,
    now: Moment,
    event_id: u128,
)
    requires
        !book.decisions.contains_key(o.observation_id),
        presence::committed(book, principal, o, confirm, request, now, event_id).0 is Ok,
    ensures
        ({
            let (answer, after) = presence::committed(
                book,
                principal,
                o,
                confirm,
                request,
                now,
                event_id,
            );
            &&& forall|n: Seq<char>| #[trigger]
                after.nonces.contains_key(n) <==> book.nonces.contains_key(n) && n
                    != o.submission_nonce
            &&& forall|n: Seq<char>|
                n != o.submission_nonce && book.nonces.contains_key(n) ==> #[trigger] after.nonces[n]
                    == book.nonces[n]
            &&& forall|id: u128| #[trigger]
                after.used_challenges.contains(id) <==> book.used_challenges.contains(id) || id
                    == o.challenge_id
            &&& forall|id: u128| #[trigger]
                after.used_evidence.contains(id) <==> book.used_evidence.contains(id) || id
                    == o.evidence_id
            &&& after.decisions.contains_key(o.observation_id)
            &&& after.decisions[o.observation_id] == (Recorded {
                request_digest: request,
                decision: answer->Ok_0,
            })
            &&& forall|id: u128|
                id != o.observation_id ==> (#[trigger] after.decisions.contains_key(id)
                    == book.decisions.contains_key(id) && after.decisions[id]
                    == book.decisions[id])
            &&& after.sequences.contains_key((principal, o.house_id))
            &&& after.sequences[(principal, o.house_id)] == o.previous_presence_sequence + 1
            &&& forall|k: (Identity, Seq<char>)|
                k != (principal, o.house_id) ==> (#[trigger] after.sequences.contains_key(k)
                    == book.sequences.contains_key(k) && after.sequences[k] == book.sequences[k])
        }),
{
}

/// An observation that was not decided before is decided exactly where the ledger has room, its
/// nonce is pending, has not run out and was granted to the same principal for the same house,
/// its challenge and its evidence are fresh, and it names the current sequence, which is not the
/// last one there can be. Each refusal has its own reason, the first of them that holds.
pub proof fn observation_is_decided_on_these_grounds(
    book: Book,
    principal: Identity,
    o: Observed,
    confirm: bool,
    request: Seq<u8>,
    now: Moment,
    event_id: u128,
)
    requires
        !book.decisions.contains_key(o.observation_id),
    ensures
        ({
            let answer = presence::committed(
                book,
                principal,
                o,
                confirm,
                request,
                now,
                event_id,
            ).0;
            let full = book.decisions.len() >= 100_000;
            let pending = book.nonces.contains_key(o.submission_nonce);
            let grant = book.nonces[o.submission_nonce];
            let live = now.seconds < grant.expires_at.seconds || (now.seconds
                == grant.expires_at.seconds && now.nanos < grant.expires_at.nanos);
            let bound = grant.principal == principal && grant.house_id == o.house_id;
            let fresh = !book.used_challenges.contains(o.challenge_id)
                && !book.used_evidence.contains(o.evidence_id);
            let current: int = if book.sequences.contains_key((principal, o.house_id)) {
                book.sequences[(principal, o.house_id)] as int
            } else {
                0
            };
            let next = o.previous_presence_sequence == current && current < u64::MAX;
            &&& answer is Ok <==> !full && pending && live && bound && fresh && next
            &&& full <==> answer == Err::<Decision, _>(AdmissionError::RateLimited)
            &&& answer == Err::<Decision, _>(AdmissionError::Replayed) <==> !full && (!pending || (
            live && bound && !fresh))
            &&& answer == Err::<Decision, _>(AdmissionError::Expired) <==> !full && pending && !live
            &&& answer == Err::<Decision, _>(AdmissionError::MembershipDenied) <==> !full && pending
                && live && !bound
            &&& answer == Err::<Decision, _>(AdmissionError::PolicyConflict) <==> !full && pending
                && live && bound && fresh && !next
        }),
{
}

/// An observation that was decided before is answered with that decision where the request has
/// the digest that it had then, and as a replay where it has another. Nothing changes.
pub proof fn decided_observation_is_answered_as_before(
    book: Book,
    principal: Identity,
    o: Observed,
    confirm: bool,
    request: Seq<u8>,
    now: Moment,
    event_id: u128,
)
    requires
        book.decisions.contains_key(o.observation_id),
    ensures
        ({
            let (answer, after) = presence::committed(
                book,
                principal,
                o,
                confirm,
                request,
                now,
                event_id,
            );
            let recorded = book.decisions[o.observation_id];
            &&& after == book
            &&& request == recorded.request_digest ==> answer == Ok::<_, AdmissionError>(
                recorded.decision,
            )
            &&& request != recorded.request_digest ==> answer == Err::<Decision, _>(
                AdmissionError::Replayed,
            )
        }),
{
}

/// Whether a grant is good at `now`.
pub open spec fn good_at(g: Grant, now: Moment) -> bool {
    now.seconds < g.expires_at.seconds || (now.seconds == g.expires_at.seconds && now.nanos
        < g.expires_at.nanos)
}

/// Granting a nonce keeps every pending nonce that has not run out, whoever it was granted to,
/// drops those that have, and touches nothing else in the ledger.
pub proof fn grant_keeps_every_live_nonce(
    book: Book,
    principal: Identity,
    house_id: Seq<char>,
    now: Moment,
    first: u128,
    second: u128,
    n: Seq<char>,
)
    requires
        n != presence::nonce_text(first, second),
    ensures
        ({
            let after = presence::granted(book, principal, house_id, now, first, second).1;
            &&& after.nonces.contains_key(n) <==> book.nonces.contains_key(n) && good_at(
                book.nonces[n],
                now,
            )
            &&& after.nonces.contains_key(n) ==> after.nonces[n] == book.nonces[n]
            &&& after.used_challenges == book.used_challenges
            &&& after.used_evidence == book.used_evidence
            &&& after.sequences == book.sequences
            &&& after.decisions == book.decisions
        }),
{
}

/// A nonce is granted exactly where fewer than ten thousand are pending that have not run out. It
/// is written as the two identifiers drawn for it, is good for sixty seconds, and is bound to the
/// principal and the house that it was granted for.
pub proof fn granted_nonce_is_bound(
    book: Book,
    principal: Identity,
    house_id: Seq<char>,
    now: Moment,
    first: u128,
    second: u128,
)
    ensures
        ({
            let (answer, after) = presence::granted(book, principal, house_id, now, first, second);
            let pending = book.nonces.dom().filter(
                |n: Seq<char>| good_at(book.nonces[n], now),
            ).len();
            let nonce = identifier::simple_form(first) + identifier::simple_form(second);
            let end = Moment {
                seconds: now.seconds + 60,
                nanos: if now.nanos >= 1_000_000_000 {
                    now.nanos - 1_000_000_000
                } else {
                    now.nanos
                },
            };
            &&& pending >= 10_000 ==> answer == Err::<Nonce, _>(AdmissionError::RateLimited)
            &&& pending < 10_000 ==> {
                &&& answer == Ok::<_, AdmissionError>(Nonce { nonce, expires_at: end })
                &&& after.nonces.contains_key(nonce)
                &&& after.nonces[nonce] == (Grant { principal, house_id, expires_at: end })
            }
        }),
{
    let kept = presence::live_nonces(book, now).dom();
    let good = book.nonces.dom().filter(|n: Seq<char>| good_at(book.nonces[n], now));
    assert(kept =~= good);
}

/// A nonce is given out only where the request has a valid shape and the product allows it, for
/// the house of the request and to the principal who asks. Where it is refused for its shape or
/// by the product, the ledger stays as it is.
pub proof fn nonces_are_given_where_the_product_allows<A: PresenceAuthorizer>(
    authorizer: A,
    book: Book,
    principal: &PresencePrincipal,
    request: &PresenceSubmissionNonceRequest,
    shape_valid: bool,
    now: Moment,
    r: Result<PresenceSubmissionNonce, AdmissionError>,
    after: Book,
)
    requires
        presence::nonce_issued(
            authorizer,
            book,
            principal,
            request,
            shape_valid,
            now,
            r,
            after,
        ),
    ensures
        !shape_valid ==> r == Err::<PresenceSubmissionNonce, _>(AdmissionError::InvalidRequest)
            && after == book,
        r matches Ok(nonce) ==> {
            &&& shape_valid
            &&& exists|house_id: &str| #[trigger]
                call_ensures(
                    A::authorize_nonce,
                    (&authorizer, principal, house_id),
                    ProductAuthorization::Allowed,
                ) && house_id@ == request.house_id@
            &&& after.nonces.contains_key(nonce.nonce@)
            &&& after.nonces[nonce.nonce@].principal == principal@
            &&& after.nonces[nonce.nonce@].house_id == request.house_id@
            &&& after.nonces[nonce.nonce@].expires_at == nonce.expires_at@
            &&& nonce.expires_at@.seconds == now.seconds + 60
        },
        r matches Err(e) ==> e is InvalidRequest || e is RateLimited || e is MembershipDenied || e
            is AuthenticationUnavailable,
        r matches Err(e) ==> !(e is RateLimited) ==> after == book,
{
}

/// Where the product gives one answer to the wish for a nonce, that decides: denied, the
/// principal is no member; unavailable, it is told so; allowed, only the number of pending nonces
/// can stand in the way.
pub proof fn product_decides_on_nonces<A: PresenceAuthorizer>(
    authorizer: A,
    book: Book,
    principal: &PresencePrincipal,
    request: &PresenceSubmissionNonceRequest,
    now: Moment,
    r: Result<PresenceSubmissionNonce, AdmissionError>,
    after: Book,
    verdict: ProductAuthorization,
)
    requires
        presence::nonce_issued(authorizer, book, principal, request, true, now, r, after),
        forall|house_id: &str, a: ProductAuthorization| #[trigger]
            call_ensures(A::authorize_nonce, (&authorizer, principal, house_id), a) ==> a == verdict,
    ensures
        match verdict {
            ProductAuthorization::Denied => r == Err::<PresenceSubmissionNonce, _>(
                AdmissionError::MembershipDenied,
            ) && after == book,
            ProductAuthorization::Unavailable => r == Err::<PresenceSubmissionNonce, _>(
                AdmissionError::AuthenticationUnavailable,
            ) && after == book,
            ProductAuthorization::Allowed => {
                &&& r is Ok || r == Err::<PresenceSubmissionNonce, _>(AdmissionError::RateLimited)
                &&& exists|first: u128, second: u128|
                    {
                        &&& #[trigger] identifier::random_version(first)
                        &&& #[trigger] identifier::random_version(second)
                        &&& (presence::shown(r), after) == presence::granted(
                            book,
                            principal@,
                            request.house_id@,
                            now,
                            first,
                            second,
                        )
                    }
            },
        },
{
}

/// A nonce that is given out is made of two identifiers drawn at random. Giving it out keeps
/// every other nonce that has not run out, whoever it was granted to, and touches nothing else in
/// the ledger; so does refusing one.
pub proof fn issuing_a_nonce_keeps_the_others<A: PresenceAuthorizer>(
    authorizer: A,
    book: Book,
    principal: &PresencePrincipal,
    request: &PresenceSubmissionNonceRequest,
    shape_valid: bool,
    now: Moment,
    r: Result<PresenceSubmissionNonce, AdmissionError>,
    after: Book,
)
    requires
        presence::nonce_issued(
            authorizer,
            book,
            principal,
            request,
            shape_valid,
            now,
            r,
            after,
        ),
    ensures
        r matches Ok(nonce) ==> {
            &&& exists|first: u128, second: u128|
                {
                    &&& #[trigger] identifier::random_version(first)
                    &&& #[trigger] identifier::random_version(second)
                    &&& nonce.nonce@ == identifier::simple_form(first) + identifier::simple_form(
                        second,
                    )
                }
            &&& forall|n: Seq<char>|
                n != nonce.nonce@ ==> (#[trigger] after.nonces.contains_key(n) <==> (
                book.nonces.contains_key(n) && good_at(book.nonces[n], now)))
            &&& book.nonces.dom().filter(|n: Seq<char>| good_at(book.nonces[n], now)).len() < 10_000
        },
        r is Err ==> forall|n: Seq<char>|
            book.nonces.contains_key(n) && good_at(book.nonces[n], now)
                ==> #[trigger] after.nonces.contains_key(n),
        forall|n: Seq<char>| #[trigger]
            after.nonces.contains_key(n) ==> (r matches Ok(nonce) && n == nonce.nonce@) || (
            book.nonces.contains_key(n) && after.nonces[n] == book.nonces[n]),
        after.used_challenges == book.used_challenges,
        after.used_evidence == book.used_evidence,
        after.sequences == book.sequences,
        after.decisions == book.decisions,
        r == Err::<PresenceSubmissionNonce, _>(AdmissionError::RateLimited) ==> book.nonces.dom()
            .filter(|n: Seq<char>| good_at(book.nonces[n], now)).len() >= 10_000,
{
    if r is Ok || r == Err::<PresenceSubmissionNonce, _>(AdmissionError::RateLimited) {
        let (first, second) = choose|first: u128, second: u128|
            {
                &&& #[trigger] identifier::random_version(first)
                &&& #[trigger] identifier::random_version(second)
                &&& (presence::shown(r), after) == presence::granted(
                    book,
                    principal@,
                    request.house_id@,
                    now,
                    first,
                    second,
                )
            };
        assert((presence::shown(r), after) == presence::granted(
            book,
            principal@,
            request.house_id@,
            now,
            first,
            second,
        ));
        assert(identifier::random_version(first));
        assert(identifier::random_version(second));
        granted_nonce_is_bound(book, principal@, request.house_id@, now, first, second);
        let nonce = presence::nonce_text(first, second);
        assert forall|n: Seq<char>| n != nonce implies (#[trigger] after.nonces.contains_key(n)
            <==> (book.nonces.contains_key(n) && good_at(book.nonces[n], now))) && (
        after.nonces.contains_key(n) ==> after.nonces[n] == book.nonces[n]) by {
            grant_keeps_every_live_nonce(
                book,
                principal@,
                request.house_id@,
                now,
                first,
                second,
                n,
            );
        }
    }
}

/// A new decision spends the nonce, the challenge and the evidence of its observation and moves
/// the sequence of its principal in its house. It is told under an identifier drawn at random.
/// Everything else in the ledger stays.
pub proof fn submission_changes_only_its_own<V: PresenceEvidenceVerifier, A: PresenceAuthorizer>(
    verifier: V,
    authorizer: A,
    book: Book,
    principal: &PresencePrincipal,
    observation: &DoorwayObservation,
    findings: &ContractFindings,
    now: Timestamp,
    d: PresenceDecision,
    after: Book,
)
    requires
        presence::submitted(
            verifier,
            authorizer,
            book,
            principal,
            observation,
            findings,
            now,
            Ok(d),
            after,
        ),
        !book.decisions.contains_key(observation.observation_id),
    ensures
        identifier::random_version(d.event_id),
        forall|n: Seq<char>| #[trigger]
            after.nonces.contains_key(n) <==> book.nonces.contains_key(n) && n
                != observation.submission_nonce@,
        forall|n: Seq<char>|
            n != observation.submission_nonce@ && book.nonces.contains_key(n)
                ==> #[trigger] after.nonces[n] == book.nonces[n],
        forall|id: u128| #[trigger]
            after.used_challenges.contains(id) <==> book.used_challenges.contains(id) || id
                == observation.challenge.challenge_id,
        forall|id: u128| #[trigger]
            after.used_evidence.contains(id) <==> book.used_evidence.contains(id) || id
                == observation.corroboration.evidence_id,
        forall|id: u128|
            id != observation.observation_id ==> (#[trigger] after.decisions.contains_key(id)
                == book.decisions.contains_key(id) && after.decisions[id] == book.decisions[id]),
        after.sequences.contains_key((principal@, observation.challenge.house_id@)),
        after.sequences[(principal@, observation.challenge.house_id@)]
            == observation.previous_presence_sequence + 1,
        forall|k: (Identity, Seq<char>)|
            k != (principal@, observation.challenge.house_id@) ==> (
            #[trigger] after.sequences.contains_key(k) == book.sequences.contains_key(k)
                && after.sequences[k] == book.sequences[k]),
{
    let r = Ok::<PresenceDecision, AdmissionError>(d);
    let request = seal::sha256(findings.encoded->Some_0@);
    let event_id = choose|event_id: u128| #[trigger]
        identifier::random_version(event_id) && (presence::shown(r), after)
            == presence::committed(
            book,
            principal@,
            observation@,
            findings.direction_requires_confirmation,
            request,
            now@,
            event_id,
        );
    assert((presence::shown(r), after) == presence::committed(
        book,
        principal@,
        observation@,
        findings.direction_requires_confirmation,
        request,
        now@,
        event_id,
    ));
    decision_repeats_the_observation(
        book,
        principal@,
        observation@,
        findings.direction_requires_confirmation,
        request,
        now@,
        event_id,
    );
    decision_changes_only_its_own(
        book,
        principal@,
        observation@,
        findings.direction_requires_confirmation,
        request,
        now@,
        event_id,
    );
}

/// A new decision is made only on an observation of a valid shape, which the product allows and
/// whose evidence was verified at that moment. It repeats the observation that was submitted.
pub proof fn decisions_rest_on_authorization_and_evidence<
    V: PresenceEvidenceVerifier,
    A: PresenceAuthorizer,
>(
    verifier: V,
    authorizer: A,
    book: Book,
    principal: &PresencePrincipal,
    observation: &DoorwayObservation,
    findings: &ContractFindings,
    now: Timestamp,
    r: Result<PresenceDecision, AdmissionError>,
    after: Book,
)
    requires
        presence::submitted(
            verifier,
            authorizer,
            book,
            principal,
            observation,
            findings,
            now,
            r,
            after,
        ),
        !book.decisions.contains_key(observation.observation_id),
    ensures
        r is Err ==> after == book,
        r matches Ok(d) ==> {
            &&& findings.shape_valid
            &&& findings.encoded is Some
            &&& call_ensures(
                A::authorize_observation,
                (&authorizer, principal, observation),
                ProductAuthorization::Allowed,
            )
            &&& call_ensures(
                V::verify,
                (&verifier, principal, observation, now),
                Verification::Verified,
            )
            &&& d.observation_id == observation.observation_id
            &&& d.house_id@ == observation.challenge.house_id@
            &&& d.door_id@ == observation.challenge.door_id@
            &&& d.direction@ == observation.direction@
            &&& d.policy_version@ == observation.policy_version@
            &&& d.recorded_at@ == now@
            &&& d.presence_sequence == observation.previous_presence_sequence + 1
            &&& (d.decision == PresenceDecisionKind::ConfirmationRequired)
                == findings.direction_requires_confirmation
            &&& (d.reason == PresenceDecisionReason::AmbiguousDirection)
                == findings.direction_requires_confirmation
            &&& book.nonces.contains_key(observation.submission_nonce@)
            &&& book.nonces[observation.submission_nonce@].principal == principal@
            &&& book.nonces[observation.submission_nonce@].house_id
                == observation.challenge.house_id@
            &&& good_at(book.nonces[observation.submission_nonce@], now@)
            &&& !after.nonces.contains_key(observation.submission_nonce@)
            &&& after.decisions.contains_key(d.observation_id)
            &&& after.decisions[d.observation_id].decision == d@
            &&& after.decisions[d.observation_id].request_digest == seal::sha256(
                findings.encoded->Some_0@,
            )
        },
{
    if r is Ok {
        let request = seal::sha256(findings.encoded->Some_0@);
        let event_id = choose|event_id: u128| #[trigger]
            identifier::random_version(event_id) && (presence::shown(r), after)
                == presence::committed(
                book,
                principal@,
                observation@,
                findings.direction_requires_confirmation,
                request,
                now@,
                event_id,
            );
        decision_repeats_the_observation(
            book,
            principal@,
            observation@,
            findings.direction_requires_confirmation,
            request,
            now@,
            event_id,
        );
    }
}

/// Where the product and the verifier each give one answer to an observation that was not decided
/// before, a refusal by the product comes first, then one by the verifier, each told as what it
/// is; where both agree, the ledger decides. A shape or an encoding that fails is told before
/// either is asked.
pub proof fn refusals_of_an_observation_remain_distinct<
    V: PresenceEvidenceVerifier,
    A: PresenceAuthorizer,
>(
    verifier: V,
    authorizer: A,
    book: Book,
    principal: &PresencePrincipal,
    observation: &DoorwayObservation,
    findings: &ContractFindings,
    now: Timestamp,
    r: Result<PresenceDecision, AdmissionError>,
    after: Book,
    verdict: ProductAuthorization,
    evidence: Verification,
)
    requires
        presence::submitted(
            verifier,
            authorizer,
            book,
            principal,
            observation,
            findings,
            now,
            r,
            after,
        ),
        !book.decisions.contains_key(observation.observation_id),
        forall|a: ProductAuthorization| #[trigger]
            call_ensures(A::authorize_observation, (&authorizer, principal, observation), a) ==> a
                == verdict,
        forall|v: Verification| #[trigger]
            call_ensures(V::verify, (&verifier, principal, observation, now), v) ==> v == evidence,
    ensures
        ({
            let refused = |e: AdmissionError|
                r == Err::<PresenceDecision, AdmissionError>(e) && after == book;
            if !findings.shape_valid {
                refused(AdmissionError::EvidenceInvalid)
            } else if findings.encoded is None {
                refused(AdmissionError::InvalidRequest)
            } else if verdict is Denied {
                refused(AdmissionError::MembershipDenied)
            } else if verdict is Unavailable {
                refused(AdmissionError::AuthenticationUnavailable)
            } else if evidence is Invalid {
                refused(AdmissionError::EvidenceInvalid)
            } else if evidence is Unavailable {
                refused(AdmissionError::AuthenticationUnavailable)
            } else if evidence is DeviceRevoked {
                refused(AdmissionError::DeviceRevoked)
            } else {
                exists|event_id: u128| #[trigger]
                    identifier::random_version(event_id) && (presence::shown(r), after)
                        == presence::committed(
                        book,
                        principal@,
                        observation@,
                        findings.direction_requires_confirmation,
                        seal::sha256(findings.encoded->Some_0@),
                        now@,
                        event_id,
                    )
            }
        }),
{
}

/// A retry of an observation that was decided before is answered with the decision that was
/// recorded, or refused as a replay where the request is another, whatever the product or the
/// verifier would say, and changes nothing.
pub proof fn retries_are_answered_from_the_record<
    V: PresenceEvidenceVerifier,
    A: PresenceAuthorizer,
>(
    verifier: V,
    authorizer: A,
    book: Book,
    principal: &PresencePrincipal,
    observation: &DoorwayObservation,
    findings: &ContractFindings,
    now: Timestamp,
    r: Result<PresenceDecision, AdmissionError>,
    after: Book,
)
    requires
        presence::submitted(
            verifier,
            authorizer,
            book,
            principal,
            observation,
            findings,
            now,
            r,
            after,
        ),
        book.decisions.contains_key(observation.observation_id),
        findings.shape_valid,
        findings.encoded is Some,
    ensures
        after == book,
        ({
            let recorded = book.decisions[observation.observation_id];
            if seal::sha256(findings.encoded->Some_0@) == recorded.request_digest {
                r matches Ok(d) && d@ == recorded.decision
            } else {
                r == Err::<PresenceDecision, _>(AdmissionError::Replayed)
            }
        }),
{
}

} // verus!
