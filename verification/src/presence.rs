//! Admission of doorway observations: nonces, replay detection, presence sequences.

use crate::identifier;
use crate::identity::{self, Identity};
use crate::moment::{Moment, Timestamp};
use crate::seal;
use crate::table::{self, Key, Table};
use std::collections::{HashMap, HashSet};
use std::sync::Arc;
use vstd::prelude::*;
use vstd::string::*;

verus! {

/// The most nonces that may be pending.
pub const MAX_PENDING_NONCES: usize = 10_000;

/// The most decisions that are recorded.
pub const MAX_RECORDED_OBSERVATIONS: usize = 100_000;

/// How long a nonce may be used, in seconds.
pub const NONCE_SECONDS: u32 = 60;

/// A caller whose identity was verified.
#[derive(Debug, Clone, PartialEq, Eq, Hash)]
pub struct PresencePrincipal {
    provider: String,
    tenant: String,
    subject: String,
}

impl View for PresencePrincipal {
    type V = Identity;

    closed spec fn view(&self) -> Identity {
        Identity {
            provider: self.provider@,
            tenant: self.tenant@,
            subject: self.subject@,
        }
    }
}

impl Key for PresencePrincipal {
    fn same(&self, other: &Self) -> (r: bool) {
        self.provider == other.provider && self.tenant == other.tenant && self.subject
            == other.subject
    }
}

impl PresencePrincipal {
    /// The principal of a verified identity whose parts are within their bounds.
    pub fn from_verified_identity(provider: &str, tenant: &str, subject: &str) -> (r: Result<
        Self,
        AdmissionError,
    >)
        ensures
            match r {
                Ok(principal) => principal@ == (Identity {
                    provider: provider@,
                    tenant: tenant@,
                    subject: subject@,
                }) && principal@.valid(),
                Err(e) => e == AdmissionError::InvalidRequest && !(Identity {
                    provider: provider@,
                    tenant: tenant@,
                    subject: subject@,
                }).valid(),
            },
    {
        if !identity::valid_identity(provider, tenant, subject) {
            return Err(AdmissionError::InvalidRequest);
        }
        Ok(
            PresencePrincipal {
                provider: provider.to_owned(),
                tenant: tenant.to_owned(),
                subject: subject.to_owned(),
            },
        )
    }

    /// Another value for the same principal.
    pub fn duplicate(&self) -> (r: Self)
        ensures
            r@ == self@,
    {
        PresencePrincipal {
            provider: self.provider.clone(),
            tenant: self.tenant.clone(),
            subject: self.subject.clone(),
        }
    }
}

/// What became of the evidence in an observation.
#[derive(Debug, Clone, Copy, PartialEq, Eq, Structural)]
pub enum Verification {
    Verified,
    Invalid,
    Unavailable,
    DeviceRevoked,
}

/// Whether the product lets a principal do what it asks for.
#[derive(Debug, Clone, Copy, PartialEq, Eq, Structural)]
pub enum ProductAuthorization {
    Allowed,
    Denied,
    Unavailable,
}

/// Why a request was refused.
#[derive(Debug, Clone, Copy, PartialEq, Eq, Structural)]
pub enum AdmissionError {
    InvalidRequest,
    AuthenticationUnavailable,
    DeviceRevoked,
    EvidenceInvalid,
    Expired,
    MembershipDenied,
    PolicyConflict,
    RateLimited,
    Replayed,
}

/// What a doorway beacon sent out.
#[derive(Debug, Clone, PartialEq, Eq)]
pub struct DoorwayChallenge {
    pub schema: String,
    pub house_id: String,
    pub door_id: String,
    pub beacon_key_id: String,
    pub key_version: u32,
    pub challenge_id: u128,
    pub nonce: String,
    pub direction_hint: String,
    pub issued_at: Timestamp,
    pub expires_at: Timestamp,
    pub signature: String,
}

/// What a source other than the beacon and the device says of the passage.
#[derive(Debug, Clone, PartialEq, Eq)]
pub struct CorroborationEvidence {
    pub schema: String,
    pub method: String,
    pub evidence_id: u128,
    pub source_key_id: String,
    pub proof_digest_sha256: String,
    pub distance_bucket: String,
    pub observed_at: Timestamp,
    pub proof: String,
}

/// What a resident's device reports of a passage through a doorway. Terms of the doorway
/// contract (application, direction, signal bucket, method) stand under their wire names.
#[derive(Debug, Clone, PartialEq, Eq)]
pub struct DoorwayObservation {
    pub schema: String,
    pub audience: String,
    pub observation_id: u128,
    pub submission_nonce: String,
    pub resident_device_key_id: String,
    pub app_id: String,
    pub direction: String,
    pub signal_bucket: String,
    pub previous_presence_sequence: u64,
    pub policy_version: String,
    pub challenge: DoorwayChallenge,
    pub corroboration: CorroborationEvidence,
    pub observed_at: Timestamp,
    pub device_attestation: String,
    pub device_signature: String,
}

/// The parts of an observation by which it is decided.
pub struct Observed {
    pub observation_id: u128,
    pub submission_nonce: Seq<char>,
    pub house_id: Seq<char>,
    pub door_id: Seq<char>,
    pub challenge_id: u128,
    pub evidence_id: u128,
    pub direction: Seq<char>,
    pub previous_presence_sequence: u64,
    pub policy_version: Seq<char>,
}

impl View for DoorwayObservation {
    type V = Observed;

    open spec fn view(&self) -> Observed {
        Observed {
            observation_id: self.observation_id,
            submission_nonce: self.submission_nonce@,
            house_id: self.challenge.house_id@,
            door_id: self.challenge.door_id@,
            challenge_id: self.challenge.challenge_id,
            evidence_id: self.corroboration.evidence_id,
            direction: self.direction@,
            previous_presence_sequence: self.previous_presence_sequence,
            policy_version: self.policy_version@,
        }
    }
}

/// What the doorway contract makes of an observation: whether its shape is valid at the time,
/// whether its direction is ambiguous or contradictory, and its encoding where it has one.
#[derive(Debug, Clone, PartialEq, Eq)]
pub struct ContractFindings {
    pub shape_valid: bool,
    pub direction_requires_confirmation: bool,
    pub encoded: Option<Vec<u8>>,
}

/// A request for a nonce to submit an observation with.
#[derive(Debug, Clone, PartialEq, Eq)]
pub struct PresenceSubmissionNonceRequest {
    pub schema: String,
    pub audience: String,
    pub house_id: String,
}

/// A nonce to submit one observation with.
#[derive(Debug, Clone, PartialEq, Eq)]
pub struct PresenceSubmissionNonce {
    pub nonce: String,
    pub expires_at: Timestamp,
}

/// A nonce as its text and its end.
pub struct Nonce {
    pub nonce: Seq<char>,
    pub expires_at: Moment,
}

impl View for PresenceSubmissionNonce {
    type V = Nonce;

    open spec fn view(&self) -> Nonce {
        Nonce { nonce: self.nonce@, expires_at: self.expires_at@ }
    }
}

/// Whether a passage counts as it is or waits for a confirmation.
#[derive(Debug, Clone, Copy, PartialEq, Eq, Structural)]
pub enum PresenceDecisionKind {
    Accepted,
    ConfirmationRequired,
}

/// Why the decision is what it is.
#[derive(Debug, Clone, Copy, PartialEq, Eq, Structural)]
pub enum PresenceDecisionReason {
    Accepted,
    AmbiguousDirection,
}

/// What was decided on an observation.
#[derive(Debug, Clone, PartialEq, Eq)]
pub struct PresenceDecision {
    pub decision: PresenceDecisionKind,
    pub reason: PresenceDecisionReason,
    pub event_id: u128,
    pub observation_id: u128,
    pub house_id: String,
    pub door_id: String,
    pub direction: String,
    pub presence_sequence: u64,
    pub policy_version: String,
    pub recorded_at: Timestamp,
}

/// A decision with its texts as characters.
pub struct Decision {
    pub decision: PresenceDecisionKind,
    pub reason: PresenceDecisionReason,
    pub event_id: u128,
    pub observation_id: u128,
    pub house_id: Seq<char>,
    pub door_id: Seq<char>,
    pub direction: Seq<char>,
    pub presence_sequence: u64,
    pub policy_version: Seq<char>,
    pub recorded_at: Moment,
}

impl View for PresenceDecision {
    type V = Decision;

    open spec fn view(&self) -> Decision {
        Decision {
            decision: self.decision,
            reason: self.reason,
            event_id: self.event_id,
            observation_id: self.observation_id,
            house_id: self.house_id@,
            door_id: self.door_id@,
            direction: self.direction@,
            presence_sequence: self.presence_sequence,
            policy_version: self.policy_version@,
            recorded_at: self.recorded_at@,
        }
    }
}

impl PresenceDecision {
    /// Another value for the same decision.
    pub fn duplicate(&self) -> (r: Self)
        ensures
            r@ == self@,
    {
        PresenceDecision {
            decision: self.decision,
            reason: self.reason,
            event_id: self.event_id,
            observation_id: self.observation_id,
            house_id: self.house_id.clone(),
            door_id: self.door_id.clone(),
            direction: self.direction.clone(),
            presence_sequence: self.presence_sequence,
            policy_version: self.policy_version.clone(),
            recorded_at: self.recorded_at,
        }
    }
}

/// Verifies registered beacon, independent corroborator, enrolled device, attestation,
/// signature, audience, and the binding of principal and device.
pub trait PresenceEvidenceVerifier: Send + Sync {
    fn verify(
        &self,
        principal: &PresencePrincipal,
        observation: &DoorwayObservation,
        now: Timestamp,
    ) -> Verification;
}

/// Authorization by the product; to be authenticated is not enough.
pub trait PresenceAuthorizer: Send + Sync {
    fn authorize_nonce(
        &self,
        principal: &PresencePrincipal,
        house_id: &str,
    ) -> ProductAuthorization;

    fn authorize_observation(
        &self,
        principal: &PresencePrincipal,
        observation: &DoorwayObservation,
    ) -> ProductAuthorization;
}

/// What is refused where the product's authorization is `authorization`.
pub open spec fn authorization_refusal(authorization: ProductAuthorization) -> Option<
    AdmissionError,
> {
    match authorization {
        ProductAuthorization::Allowed => None,
        ProductAuthorization::Denied => Some(AdmissionError::MembershipDenied),
        ProductAuthorization::Unavailable => Some(AdmissionError::AuthenticationUnavailable),
    }
}

/// What is refused where the verification of the evidence ended in `verification`.
pub open spec fn verification_refusal(verification: Verification) -> Option<AdmissionError> {
    match verification {
        Verification::Verified => None,
        Verification::Invalid => Some(AdmissionError::EvidenceInvalid),
        Verification::Unavailable => Some(AdmissionError::AuthenticationUnavailable),
        Verification::DeviceRevoked => Some(AdmissionError::DeviceRevoked),
    }
}

/// Goes on only where the product allows it.
pub fn require_authorization(authorization: ProductAuthorization) -> (r: Result<
    (),
    AdmissionError,
>)
    ensures
        r == match authorization_refusal(authorization) {
            Some(e) => Err::<(), AdmissionError>(e),
            None => Ok(()),
        },
{
    match authorization {
        ProductAuthorization::Allowed => Ok(()),
        ProductAuthorization::Denied => Err(AdmissionError::MembershipDenied),
        ProductAuthorization::Unavailable => Err(AdmissionError::AuthenticationUnavailable),
    }
}

/// Goes on only where the evidence was verified.
pub fn require_verification(verification: Verification) -> (r: Result<(), AdmissionError>)
    ensures
        r == match verification_refusal(verification) {
            Some(e) => Err::<(), AdmissionError>(e),
            None => Ok(()),
        },
{
    match verification {
        Verification::Verified => Ok(()),
        Verification::Invalid => Err(AdmissionError::EvidenceInvalid),
        Verification::Unavailable => Err(AdmissionError::AuthenticationUnavailable),
        Verification::DeviceRevoked => Err(AdmissionError::DeviceRevoked),
    }
}

struct NonceGrant {
    principal: PresencePrincipal,
    house_id: String,
    expires_at: Timestamp,
}

/// To whom, for which house and until when a nonce was given out.
pub struct Grant {
    pub principal: Identity,
    pub house_id: Seq<char>,
    pub expires_at: Moment,
}

impl View for NonceGrant {
    type V = Grant;

    closed spec fn view(&self) -> Grant {
        Grant {
            principal: self.principal@,
            house_id: self.house_id@,
            expires_at: self.expires_at@,
        }
    }
}

struct RecordedDecision {
    request_digest: Vec<u8>,
    decision: PresenceDecision,
}

/// A decision and the digest of the request that it was made on.
pub struct Recorded {
    pub request_digest: Seq<u8>,
    pub decision: Decision,
}

impl View for RecordedDecision {
    type V = Recorded;

    closed spec fn view(&self) -> Recorded {
        Recorded { request_digest: self.request_digest@, decision: self.decision@ }
    }
}

struct SequenceKey {
    principal: PresencePrincipal,
    house_id: String,
}

impl View for SequenceKey {
    type V = (Identity, Seq<char>);

    closed spec fn view(&self) -> (Identity, Seq<char>) {
        (self.principal@, self.house_id@)
    }
}

impl Key for SequenceKey {
    fn same(&self, other: &Self) -> (r: bool) {
        self.principal.same(&other.principal) && self.house_id == other.house_id
    }
}

/// What the ledger holds.
pub struct Book {
    /// The pending nonces.
    pub nonces: Map<Seq<char>, Grant>,
    /// The door challenges that were consumed.
    pub used_challenges: Set<u128>,
    /// The corroborating evidence that was consumed.
    pub used_evidence: Set<u128>,
    /// The last presence sequence of each principal in each house.
    pub sequences: Map<(Identity, Seq<char>), u64>,
    /// The decisions, by observation.
    pub decisions: Map<u128, Recorded>,
}

/// The record of nonces, consumed evidence, sequences and decisions.
pub struct PresenceLedger {
    nonces: Table<String, NonceGrant>,
    used_challenges: HashSet<u128>,
    used_evidence: HashSet<u128>,
    sequences: Table<SequenceKey, u64>,
    decisions: HashMap<u128, RecordedDecision>,
}

impl View for PresenceLedger {
    type V = Book;

    closed spec fn view(&self) -> Book {
        Book {
            nonces: self.nonces@,
            used_challenges: self.used_challenges@,
            used_evidence: self.used_evidence@,
            sequences: self.sequences@,
            decisions: self.decisions@.map_values(|r: RecordedDecision| r@),
        }
    }
}

/// A ledger in which nothing has happened.
pub open spec fn blank_book() -> Book {
    Book {
        nonces: Map::empty(),
        used_challenges: Set::empty(),
        used_evidence: Set::empty(),
        sequences: Map::empty(),
        decisions: Map::empty(),
    }
}

/// The answer to an observation that was decided before: the decision itself where the request
/// is the same, a refusal where it is another one.
pub open spec fn recorded_answer(book: Book, observation_id: u128, request: Seq<u8>) -> Option<
    Result<Decision, AdmissionError>,
> {
    if !book.decisions.contains_key(observation_id) {
        None
    } else if book.decisions[observation_id].request_digest == request {
        Some(Ok(book.decisions[observation_id].decision))
    } else {
        Some(Err(AdmissionError::Replayed))
    }
}

/// The last presence sequence of `principal` in `house_id`; zero before the first.
pub open spec fn current_sequence(book: Book, principal: Identity, house_id: Seq<char>) -> u64 {
    if book.sequences.contains_key((principal, house_id)) {
        book.sequences[(principal, house_id)]
    } else {
        0
    }
}

/// Why an observation that was not decided before is refused, if it is.
pub open spec fn refusal(book: Book, principal: Identity, o: Observed, now: Moment) -> Option<
    AdmissionError,
> {
    let grant = book.nonces[o.submission_nonce];
    let current = current_sequence(book, principal, o.house_id);
    if book.decisions.len() >= MAX_RECORDED_OBSERVATIONS {
        Some(AdmissionError::RateLimited)
    } else if !book.nonces.contains_key(o.submission_nonce) {
        Some(AdmissionError::Replayed)
    } else if !now.before(grant.expires_at) {
        Some(AdmissionError::Expired)
    } else if grant.principal != principal || grant.house_id != o.house_id {
        Some(AdmissionError::MembershipDenied)
    } else if book.used_challenges.contains(o.challenge_id) || book.used_evidence.contains(
        o.evidence_id,
    ) {
        Some(AdmissionError::Replayed)
    } else if o.previous_presence_sequence != current || current == u64::MAX {
        Some(AdmissionError::PolicyConflict)
    } else {
        None
    }
}

/// The decision on an observation that is not refused.
pub open spec fn decision_on(
    book: Book,
    principal: Identity,
    o: Observed,
    confirm: bool,
    now: Moment,
    event_id: u128,
) -> Decision {
    Decision {
        decision: if confirm {
            PresenceDecisionKind::ConfirmationRequired
        } else {
            PresenceDecisionKind::Accepted
        },
        reason: if confirm {
            PresenceDecisionReason::AmbiguousDirection
        } else {
            PresenceDecisionReason::Accepted
        },
        event_id,
        observation_id: o.observation_id,
        house_id: o.house_id,
        door_id: o.door_id,
        direction: o.direction,
        presence_sequence: (current_sequence(book, principal, o.house_id) + 1) as u64,
        policy_version: o.policy_version,
        recorded_at: now,
    }
}

/// The ledger after `decision` on an observation.
pub open spec fn entered(
    book: Book,
    principal: Identity,
    o: Observed,
    request: Seq<u8>,
    decision: Decision,
) -> Book {
    Book {
        nonces: book.nonces.remove(o.submission_nonce),
        used_challenges: book.used_challenges.insert(o.challenge_id),
        used_evidence: book.used_evidence.insert(o.evidence_id),
        sequences: book.sequences.insert(
            (principal, o.house_id),
            decision.presence_sequence,
        ),
        decisions: book.decisions.insert(
            o.observation_id,
            Recorded { request_digest: request, decision },
        ),
    }
}

/// What committing an observation answers, and the ledger afterwards.
pub open spec fn committed(
    book: Book,
    principal: Identity,
    o: Observed,
    confirm: bool,
    request: Seq<u8>,
    now: Moment,
    event_id: u128,
) -> (Result<Decision, AdmissionError>, Book) {
    match recorded_answer(book, o.observation_id, request) {
        Some(answer) => (answer, book),
        None => match refusal(book, principal, o, now) {
            Some(e) => (Err(e), book),
            None => {
                let decision = decision_on(book, principal, o, confirm, now, event_id);
                (Ok(decision), entered(book, principal, o, request, decision))
            },
        },
    }
}

/// The pending nonces that are still good at `now`.
pub open spec fn live_nonces(book: Book, now: Moment) -> Map<Seq<char>, Grant> {
    table::kept(book.nonces, |g: Grant| now.before(g.expires_at))
}

/// The nonce made of two identifiers.
pub open spec fn nonce_text(first: u128, second: u128) -> Seq<char> {
    identifier::simple_form(first) + identifier::simple_form(second)
}

/// What granting a nonce answers, and the ledger afterwards. The nonce is made of the
/// identifiers `first` and `second`.
pub open spec fn granted(
    book: Book,
    principal: Identity,
    house_id: Seq<char>,
    now: Moment,
    first: u128,
    second: u128,
) -> (Result<Nonce, AdmissionError>, Book) {
    let live = live_nonces(book, now);
    let nonce = nonce_text(first, second);
    let expires_at = now.later(NONCE_SECONDS as int);
    if live.len() >= MAX_PENDING_NONCES {
        (Err(AdmissionError::RateLimited), Book { nonces: live, ..book })
    } else {
        (
            Ok(Nonce { nonce, expires_at }),
            Book {
                nonces: live.insert(nonce, Grant { principal, house_id, expires_at }),
                ..book
            },
        )
    }
}

/// The characters and numbers of an answer.
pub open spec fn shown<T: View>(r: Result<T, AdmissionError>) -> Result<T::V, AdmissionError> {
    match r {
        Ok(value) => Ok(value@),
        Err(e) => Err(e),
    }
}

/// Whether the two byte strings are the same.
fn same_bytes(a: &[u8], b: &[u8]) -> (r: bool)
    ensures
        r == (a@ == b@),
{
    if a.len() != b.len() {
        return false;
    }
    let mut i: usize = 0;
    while i < a.len()
        invariant
            i <= a.len(),
            a.len() == b.len(),
            forall|j: int| 0 <= j < i ==> a@[j] == b@[j],
        decreases a.len() - i,
    {
        if a[i] != b[i] {
            return false;
        }
        i += 1;
    }
    proof {
        assert(a@ =~= b@);
    }
    true
}

impl PresenceLedger {
    /// The tables of the ledger are well formed.
    pub closed spec fn wf(&self) -> bool {
        self.nonces.wf() && self.sequences.wf()
    }

    /// A ledger in which nothing has happened.
    pub fn new() -> (r: Self)
        ensures
            r.wf(),
            r@ == blank_book(),
    {
        let r = PresenceLedger {
            nonces: Table::new(),
            used_challenges: HashSet::new(),
            used_evidence: HashSet::new(),
            sequences: Table::new(),
            decisions: HashMap::new(),
        };
        proof {
            assert(r@.decisions =~= Map::<u128, Recorded>::empty());
        }
        r
    }

    /// The answer to an observation that was decided before.
    pub fn recorded(&self, observation_id: u128, request_digest: &[u8]) -> (r: Option<
        Result<PresenceDecision, AdmissionError>,
    >)
        requires
            self.wf(),
        ensures
            match r {
                Some(answer) => recorded_answer(self@, observation_id, request_digest@) == Some(
                    shown(answer),
                ),
                None => recorded_answer(self@, observation_id, request_digest@) is None,
            },
    {
        match self.decisions.get(&observation_id) {
            Some(recorded) => {
                if same_bytes(recorded.request_digest.as_slice(), request_digest) {
                    Some(Ok(recorded.decision.duplicate()))
                } else {
                    Some(Err(AdmissionError::Replayed))
                }
            },
            None => None,
        }
    }

    /// Gives out a nonce, made of the identifiers `first` and `second`.
    pub fn grant(
        &mut self,
        principal: &PresencePrincipal,
        house_id: &str,
        now: Timestamp,
        first: u128,
        second: u128,
    ) -> (r: Result<PresenceSubmissionNonce, AdmissionError>)
        requires
            old(self).wf(),
            now@.later(NONCE_SECONDS as int).representable(),
        ensures
            final(self).wf(),
            (shown(r), final(self)@) == granted(
                old(self)@,
                principal@,
                house_id@,
                now@,
                first,
                second,
            ),
    {
        let expires_at: Timestamp = now.plus_seconds(NONCE_SECONDS);
        let mut nonce: String = identifier::simple_text(first);
        nonce.append(identifier::simple_text(second).as_str());
        let keep = |grant: &NonceGrant| -> (b: bool)
            ensures
                b == now@.before(grant@.expires_at),
            { now.is_before(&grant.expires_at) };
        self.nonces.retain(keep, Ghost(|g: Grant| now@.before(g.expires_at)));
        if self.nonces.len() >= MAX_PENDING_NONCES {
            return Err(AdmissionError::RateLimited);
        }
        self.nonces.insert(
            nonce.clone(),
            NonceGrant {
                principal: principal.duplicate(),
                house_id: house_id.to_owned(),
                expires_at,
            },
        );
        Ok(PresenceSubmissionNonce { nonce, expires_at })
    }

    /// Decides an observation and enters the decision, or answers as before where it was decided
    /// before. A refusal leaves the ledger as it was.
    pub fn commit(
        &mut self,
        principal: &PresencePrincipal,
        observation: &DoorwayObservation,
        requires_confirmation: bool,
        request_digest: Vec<u8>,
        now: Timestamp,
        event_id: u128,
    ) -> (r: Result<PresenceDecision, AdmissionError>)
        requires
            old(self).wf(),
        ensures
            final(self).wf(),
            (shown(r), final(self)@) == committed(
                old(self)@,
                principal@,
                observation@,
                requires_confirmation,
                request_digest@,
                now@,
                event_id,
            ),
    {
        match self.recorded(observation.observation_id, request_digest.as_slice()) {
            Some(answer) => {
                return answer;
            },
            None => {},
        }
        proof {
            assert(self@.decisions.dom() =~= self.decisions@.dom());
        }
        if self.decisions.len() >= MAX_RECORDED_OBSERVATIONS {
            return Err(AdmissionError::RateLimited);
        }
        match self.nonces.get(&observation.submission_nonce) {
            None => {
                return Err(AdmissionError::Replayed);
            },
            Some(grant) => {
                if !now.is_before(&grant.expires_at) {
                    return Err(AdmissionError::Expired);
                }
                if !grant.principal.same(principal) || grant.house_id
                    != observation.challenge.house_id {
                    return Err(AdmissionError::MembershipDenied);
                }
            },
        }
        if self.used_challenges.contains(&observation.challenge.challenge_id)
            || self.used_evidence.contains(&observation.corroboration.evidence_id) {
            return Err(AdmissionError::Replayed);
        }
        let key: SequenceKey = SequenceKey {
            principal: principal.duplicate(),
            house_id: observation.challenge.house_id.clone(),
        };
        let current: u64 = match self.sequences.get(&key) {
            Some(sequence) => *sequence,
            None => 0,
        };
        if observation.previous_presence_sequence != current || current == u64::MAX {
            return Err(AdmissionError::PolicyConflict);
        }
        let next: u64 = current + 1;
        let decision: PresenceDecision = PresenceDecision {
            decision: if requires_confirmation {
                PresenceDecisionKind::ConfirmationRequired
            } else {
                PresenceDecisionKind::Accepted
            },
            reason: if requires_confirmation {
                PresenceDecisionReason::AmbiguousDirection
            } else {
                PresenceDecisionReason::Accepted
            },
            event_id,
            observation_id: observation.observation_id,
            house_id: observation.challenge.house_id.clone(),
            door_id: observation.challenge.door_id.clone(),
            direction: observation.direction.clone(),
            presence_sequence: next,
            policy_version: observation.policy_version.clone(),
            recorded_at: now,
        };
        let recorded: RecordedDecision = RecordedDecision {
            request_digest,
            decision: decision.duplicate(),
        };
        let _ = self.nonces.remove(&observation.submission_nonce);
        self.used_challenges.insert(observation.challenge.challenge_id);
        self.used_evidence.insert(observation.corroboration.evidence_id);
        self.sequences.insert(key, next);
        self.decisions.insert(observation.observation_id, recorded);
        proof {
            assert(self@.decisions =~= old(self)@.decisions.insert(
                observation.observation_id,
                recorded@,
            ));
        }
        Ok(decision)
    }
}

/// The digest of a request, from its encoding where it has one.
pub fn observation_digest(encoded: &Option<Vec<u8>>) -> (r: Result<Vec<u8>, AdmissionError>)
    ensures
        match (encoded, r) {
            (Some(bytes), Ok(value)) => value@ == seal::sha256(bytes@),
            (None, Err(e)) => e == AdmissionError::InvalidRequest,
            _ => false,
        },
{
    match encoded {
        Some(bytes) => Ok(seal::digest(bytes.as_slice())),
        None => Err(AdmissionError::InvalidRequest),
    }
}

/// Whether `r` and `after` are what is answered to a principal who asks for a nonce, and the
/// ledger afterwards, where `authorizer` is the product's.
pub open spec fn nonce_issued<A: PresenceAuthorizer>(
    authorizer: A,
    book: Book,
    principal: &PresencePrincipal,
    request: &PresenceSubmissionNonceRequest,
    shape_valid: bool,
    now: Moment,
    r: Result<PresenceSubmissionNonce, AdmissionError>,
    after: Book,
) -> bool {
    let outcome = (shown(r), after);
    if !shape_valid {
        outcome == (Err::<Nonce, _>(AdmissionError::InvalidRequest), book)
    } else {
        exists|house_id: &str, authorization: ProductAuthorization|
            {
                &&& house_id@ == request.house_id@
                &&& #[trigger] call_ensures(
                    A::authorize_nonce,
                    (&authorizer, principal, house_id),
                    authorization,
                )
                &&& match authorization_refusal(authorization) {
                    Some(e) => outcome == (Err::<Nonce, _>(e), book),
                    None => exists|first: u128, second: u128|
                        {
                            &&& #[trigger] identifier::random_version(first)
                            &&& #[trigger] identifier::random_version(second)
                            &&& outcome == granted(
                                book,
                                principal@,
                                request.house_id@,
                                now,
                                first,
                                second,
                            )
                        },
                }
            }
    }
}

/// Whether `r` and `after` are what is answered to a principal who submits an observation, and
/// the ledger afterwards, where `verifier` verifies evidence and `authorizer` is the product's.
pub open spec fn submitted<V: PresenceEvidenceVerifier, A: PresenceAuthorizer>(
    verifier: V,
    authorizer: A,
    book: Book,
    principal: &PresencePrincipal,
    observation: &DoorwayObservation,
    findings: &ContractFindings,
    now: Timestamp,
    r: Result<PresenceDecision, AdmissionError>,
    after: Book,
) -> bool {
    let outcome = (shown(r), after);
    if !findings.shape_valid {
        outcome == (Err::<Decision, _>(AdmissionError::EvidenceInvalid), book)
    } else if findings.encoded is None {
        outcome == (Err::<Decision, _>(AdmissionError::InvalidRequest), book)
    } else {
        let request = seal::sha256(findings.encoded->Some_0@);
        match recorded_answer(book, observation.observation_id, request) {
            Some(answer) => outcome == (answer, book),
            None => exists|authorization: ProductAuthorization|
                {
                    &&& #[trigger] call_ensures(
                        A::authorize_observation,
                        (&authorizer, principal, observation),
                        authorization,
                    )
                    &&& match authorization_refusal(authorization) {
                        Some(e) => outcome == (Err::<Decision, _>(e), book),
                        None => exists|verification: Verification|
                            {
                                &&& #[trigger] call_ensures(
                                    V::verify,
                                    (&verifier, principal, observation, now),
                                    verification,
                                )
                                &&& match verification_refusal(verification) {
                                    Some(e) => outcome == (Err::<Decision, _>(e), book),
                                    None => exists|event_id: u128|
                                        {
                                            &&& #[trigger] identifier::random_version(event_id)
                                            &&& outcome == committed(
                                                book,
                                                principal@,
                                                observation@,
                                                findings.direction_requires_confirmation,
                                                request,
                                                now@,
                                                event_id,
                                            )
                                        },
                                }
                            },
                    }
                },
        }
    }
}

/// Admits doorway observations against a ledger, with a verifier of evidence and the product's
/// authorizer.
pub struct PresenceAdmission<V, A> {
    verifier: Arc<V>,
    authorizer: Arc<A>,
    ledger: PresenceLedger,
}

impl<V: PresenceEvidenceVerifier, A: PresenceAuthorizer> PresenceAdmission<V, A> {
    /// What the ledger holds.
    pub closed spec fn book(&self) -> Book {
        self.ledger@
    }

    /// The verifier of evidence.
    pub closed spec fn evidence_verifier(&self) -> V {
        *self.verifier
    }

    /// The product's authorizer.
    pub closed spec fn product_authorizer(&self) -> A {
        *self.authorizer
    }

    /// The ledger is well formed.
    pub closed spec fn wf(&self) -> bool {
        self.ledger.wf()
    }

    /// An admission with a blank ledger.
    pub fn new(verifier: Arc<V>, authorizer: Arc<A>) -> (r: Self)
        ensures
            r.wf(),
            r.book() == blank_book(),
            r.evidence_verifier() == *verifier,
            r.product_authorizer() == *authorizer,
    {
        PresenceAdmission { verifier, authorizer, ledger: PresenceLedger::new() }
    }

    /// Gives `principal` a nonce for the house of `request`, where the request has a valid shape
    /// and the product allows it.
    pub fn issue_nonce(
        &mut self,
        principal: &PresencePrincipal,
        request: &PresenceSubmissionNonceRequest,
        shape_valid: bool,
        now: Timestamp,
    ) -> (r: Result<PresenceSubmissionNonce, AdmissionError>)
        requires
            old(self).wf(),
            forall|house_id: &str, authorization: ProductAuthorization|
                shape_valid && house_id@ == request.house_id@ && #[trigger] call_ensures(
                    A::authorize_nonce,
                    (&old(self).product_authorizer(), principal, house_id),
                    authorization,
                ) && authorization_refusal(authorization) is None ==> now@.later(
                    NONCE_SECONDS as int,
                ).representable(),
        ensures
            final(self).wf(),
            final(self).evidence_verifier() == old(self).evidence_verifier(),
            final(self).product_authorizer() == old(self).product_authorizer(),
            nonce_issued(
                old(self).product_authorizer(),
                old(self).book(),
                principal,
                request,
                shape_valid,
                now@,
                r,
                final(self).book(),
            ),
    {
        if !shape_valid {
            return Err(AdmissionError::InvalidRequest);
        }
        let house_id: &str = request.house_id.as_str();
        let authorization: ProductAuthorization = self.authorizer.authorize_nonce(
            principal,
            house_id,
        );
        proof {
            assert(house_id@ == request.house_id@);
            assert(call_ensures(
                A::authorize_nonce,
                (&old(self).product_authorizer(), principal, house_id),
                authorization,
            ));
        }
        match require_authorization(authorization) {
            Err(e) => {
                return Err(e);
            },
            Ok(_) => {},
        }
        let first: u128 = identifier::draw_identifier();
        let second: u128 = identifier::draw_identifier();
        self.ledger.grant(principal, house_id, now, first, second)
    }

    /// Decides on `observation`. One that was decided before is answered as before; any other is
    /// decided only where the product allows it and its evidence was verified.
    pub fn submit(
        &mut self,
        principal: &PresencePrincipal,
        observation: &DoorwayObservation,
        findings: &ContractFindings,
        now: Timestamp,
    ) -> (r: Result<PresenceDecision, AdmissionError>)
        requires
            old(self).wf(),
        ensures
            final(self).wf(),
            final(self).evidence_verifier() == old(self).evidence_verifier(),
            final(self).product_authorizer() == old(self).product_authorizer(),
            submitted(
                old(self).evidence_verifier(),
                old(self).product_authorizer(),
                old(self).book(),
                principal,
                observation,
                findings,
                now,
                r,
                final(self).book(),
            ),
    {
        if !findings.shape_valid {
            return Err(AdmissionError::EvidenceInvalid);
        }
        let request_digest: Vec<u8> = match observation_digest(&findings.encoded) {
            Ok(value) => value,
            Err(e) => {
                return Err(e);
            },
        };
        match self.ledger.recorded(observation.observation_id, request_digest.as_slice()) {
            Some(answer) => {
                return answer;
            },
            None => {},
        }
        let authorization: ProductAuthorization = self.authorizer.authorize_observation(
            principal,
            observation,
        );
        match require_authorization(authorization) {
            Err(e) => {
                return Err(e);
            },
            Ok(_) => {},
        }
        let verification: Verification = self.verifier.verify(principal, observation, now);
        match require_verification(verification) {
            Err(e) => {
                return Err(e);
            },
            Ok(_) => {},
        }
        let event_id: u128 = identifier::draw_identifier();
        self.ledger.commit(
            principal,
            observation,
            findings.direction_requires_confirmation,
            request_digest,
            now,
            event_id,
        )
    }
}

} // verus!
