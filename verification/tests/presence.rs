use chrono::{DateTime, Duration, Utc};
use futures_util::future::join;
use hhm_api::moment::Timestamp;
use hhm_api::presence::{
    observation_digest, AdmissionError, ContractFindings, CorroborationEvidence, DoorwayChallenge,
    DoorwayObservation, PresenceAdmission, PresenceAuthorizer, PresenceDecisionKind,
    PresenceDecisionReason, PresenceEvidenceVerifier, PresenceLedger, PresencePrincipal,
    PresenceSubmissionNonceRequest, ProductAuthorization, Verification,
};
use std::sync::Arc;
use tokio::sync::Mutex;
use uuid::Uuid;

struct FixedVerifier(Verification);

impl PresenceEvidenceVerifier for FixedVerifier {
    fn verify(
        &self,
        _principal: &PresencePrincipal,
        _observation: &DoorwayObservation,
        _now: Timestamp,
    ) -> Verification {
        self.0
    }
}

struct FixedAuthorizer(ProductAuthorization);

impl PresenceAuthorizer for FixedAuthorizer {
    fn authorize_nonce(
        &self,
        _principal: &PresencePrincipal,
        _house_id: &str,
    ) -> ProductAuthorization {
        self.0
    }

    fn authorize_observation(
        &self,
        _principal: &PresencePrincipal,
        _observation: &DoorwayObservation,
    ) -> ProductAuthorization {
        self.0
    }
}

fn instant(value: DateTime<Utc>) -> Timestamp {
    Timestamp::new(value.timestamp(), value.timestamp_subsec_nanos()).expect("in the calendar")
}

fn date(value: &str) -> DateTime<Utc> {
    value.parse().expect("valid timestamp")
}

fn timestamp(value: &str) -> Timestamp {
    instant(date(value))
}

fn principal() -> PresencePrincipal {
    PresencePrincipal::from_verified_identity("supabase", "house-prod", "resident-1")
        .expect("valid principal")
}

fn nonce_request() -> PresenceSubmissionNonceRequest {
    PresenceSubmissionNonceRequest {
        schema: "hhm.presence-submission-nonce-request.v1".to_owned(),
        audience: "hhm-presence".to_owned(),
        house_id: "medellin-house-1".to_owned(),
    }
}

fn observation(now: DateTime<Utc>, nonce: String) -> DoorwayObservation {
    DoorwayObservation {
        schema: "hhm.doorway-observation.v1".to_owned(),
        audience: "hhm-presence".to_owned(),
        observation_id: Uuid::new_v4().as_u128(),
        submission_nonce: nonce,
        resident_device_key_id: "device:resident-1".to_owned(),
        app_id: "hhm_flutter".to_owned(),
        direction: "entry".to_owned(),
        signal_bucket: "doorway".to_owned(),
        previous_presence_sequence: 0,
        policy_version: "presence-policy-2026-08".to_owned(),
        challenge: DoorwayChallenge {
            schema: "hhm.doorway-challenge.v1".to_owned(),
            house_id: "medellin-house-1".to_owned(),
            door_id: "front-door".to_owned(),
            beacon_key_id: "door-beacon:front-1".to_owned(),
            key_version: 1,
            challenge_id: Uuid::new_v4().as_u128(),
            nonce: "b".repeat(43),
            direction_hint: "entry".to_owned(),
            issued_at: instant(now - Duration::seconds(2)),
            expires_at: instant(now + Duration::seconds(18)),
            signature: "s".repeat(64),
        },
        corroboration: CorroborationEvidence {
            schema: "hhm.doorway-corroboration.v1".to_owned(),
            method: "door_controller".to_owned(),
            evidence_id: Uuid::new_v4().as_u128(),
            source_key_id: "door-controller:front-1".to_owned(),
            proof_digest_sha256: "a".repeat(64),
            distance_bucket: "contact".to_owned(),
            observed_at: instant(now - Duration::seconds(1)),
            proof: "p".repeat(64),
        },
        observed_at: instant(now),
        device_attestation: "a".repeat(64),
        device_signature: "d".repeat(64),
    }
}

fn findings(observation: &DoorwayObservation) -> ContractFindings {
    ContractFindings {
        shape_valid: true,
        direction_requires_confirmation: observation.challenge.direction_hint
            != observation.direction,
        encoded: Some(format!("{observation:?}").into_bytes()),
    }
}

fn service(
    verification: Verification,
    authorization: ProductAuthorization,
) -> PresenceAdmission<FixedVerifier, FixedAuthorizer> {
    PresenceAdmission::new(
        Arc::new(FixedVerifier(verification)),
        Arc::new(FixedAuthorizer(authorization)),
    )
}

fn hex(bytes: &[u8]) -> String {
    bytes.iter().map(|byte| format!("{byte:02x}")).collect()
}

#[test]
fn accepts_once_and_returns_the_idempotent_decision() {
    let now = timestamp("2026-08-24T19:00:10Z");
    let principal = principal();
    let mut service = service(Verification::Verified, ProductAuthorization::Allowed);
    let nonce =
        service.issue_nonce(&principal, &nonce_request(), true, now).expect("nonce issued");
    let observation = observation(date("2026-08-24T19:00:10Z"), nonce.nonce);

    let first = service
        .submit(&principal, &observation, &findings(&observation), now)
        .expect("accepted");
    let duplicate = service
        .submit(&principal, &observation, &findings(&observation), now)
        .expect("idempotent duplicate");
    assert_eq!(first, duplicate);
    assert_eq!(first.decision, PresenceDecisionKind::Accepted);
    assert_eq!(first.presence_sequence, 1);
}

#[test]
fn one_nonce_cannot_admit_two_observations() {
    let now = timestamp("2026-08-24T19:00:10Z");
    let principal = principal();
    let mut service = service(Verification::Verified, ProductAuthorization::Allowed);
    let nonce =
        service.issue_nonce(&principal, &nonce_request(), true, now).expect("nonce issued");
    let first = observation(date("2026-08-24T19:00:10Z"), nonce.nonce.clone());
    service.submit(&principal, &first, &findings(&first), now).expect("first accepted");

    let second = observation(date("2026-08-24T19:00:10Z"), nonce.nonce);
    assert_eq!(
        service.submit(&principal, &second, &findings(&second), now),
        Err(AdmissionError::Replayed)
    );
}

#[test]
fn a_spent_nonce_stays_spent() {
    let now = timestamp("2026-08-24T19:00:10Z");
    let at = date("2026-08-24T19:00:10Z");
    let owner = principal();
    let mut service = service(Verification::Verified, ProductAuthorization::Allowed);
    let spent = service.issue_nonce(&owner, &nonce_request(), true, now).unwrap().nonce;
    let first = observation(at, spent.clone());
    service.submit(&owner, &first, &findings(&first), now).unwrap();
    let nonce = service.issue_nonce(&owner, &nonce_request(), true, now).unwrap().nonce;
    let mut second = observation(at, nonce);
    second.previous_presence_sequence = 1;
    service.submit(&owner, &second, &findings(&second), now).unwrap();
    let mut third = observation(at, spent);
    third.previous_presence_sequence = 2;
    assert_eq!(
        service.submit(&owner, &third, &findings(&third), now),
        Err(AdmissionError::Replayed)
    );
}

#[test]
fn uncertain_direction_never_becomes_an_accepted_transition() {
    let now = timestamp("2026-08-24T19:00:10Z");
    let principal = principal();
    let mut service = service(Verification::Verified, ProductAuthorization::Allowed);
    let nonce =
        service.issue_nonce(&principal, &nonce_request(), true, now).expect("nonce issued");
    let mut observation = observation(date("2026-08-24T19:00:10Z"), nonce.nonce);
    observation.challenge.direction_hint = "ambiguous".to_owned();

    let decision = service
        .submit(&principal, &observation, &findings(&observation), now)
        .expect("recorded for confirmation");
    assert_eq!(decision.decision, PresenceDecisionKind::ConfirmationRequired);
    assert_eq!(decision.reason, PresenceDecisionReason::AmbiguousDirection);
}

#[test]
fn verification_and_product_failures_remain_distinct_and_fail_closed() {
    let now = timestamp("2026-08-24T19:00:10Z");
    let at = date("2026-08-24T19:00:10Z");
    let principal = principal();

    let mut invalid = service(Verification::Invalid, ProductAuthorization::Allowed);
    let nonce =
        invalid.issue_nonce(&principal, &nonce_request(), true, now).expect("nonce issued");
    let seen = observation(at, nonce.nonce);
    assert_eq!(
        invalid.submit(&principal, &seen, &findings(&seen), now),
        Err(AdmissionError::EvidenceInvalid)
    );

    let mut unavailable = service(Verification::Unavailable, ProductAuthorization::Allowed);
    let nonce =
        unavailable.issue_nonce(&principal, &nonce_request(), true, now).expect("nonce issued");
    let seen = observation(at, nonce.nonce);
    assert_eq!(
        unavailable.submit(&principal, &seen, &findings(&seen), now),
        Err(AdmissionError::AuthenticationUnavailable)
    );

    let mut denied = service(Verification::Verified, ProductAuthorization::Denied);
    assert_eq!(
        denied.issue_nonce(&principal, &nonce_request(), true, now),
        Err(AdmissionError::MembershipDenied)
    );
}

#[test]
fn stale_presence_sequence_is_a_policy_conflict() {
    let now = timestamp("2026-08-24T19:00:10Z");
    let principal = principal();
    let mut service = service(Verification::Verified, ProductAuthorization::Allowed);
    let nonce =
        service.issue_nonce(&principal, &nonce_request(), true, now).expect("nonce issued");
    let mut observation = observation(date("2026-08-24T19:00:10Z"), nonce.nonce);
    observation.previous_presence_sequence = 9;
    assert_eq!(
        service.submit(&principal, &observation, &findings(&observation), now),
        Err(AdmissionError::PolicyConflict)
    );
}

#[test]
fn concurrent_duplicates_converge_on_one_decision() {
    let runtime = tokio::runtime::Builder::new_multi_thread().build().expect("runtime");
    runtime.block_on(async {
        let now = timestamp("2026-08-24T19:00:10Z");
        let principal = principal();
        let service = Mutex::new(service(Verification::Verified, ProductAuthorization::Allowed));
        let nonce = service
            .lock()
            .await
            .issue_nonce(&principal, &nonce_request(), true, now)
            .expect("nonce issued");
        let observation = observation(date("2026-08-24T19:00:10Z"), nonce.nonce);
        let findings = findings(&observation);

        let left = async {
            service.lock().await.submit(&principal, &observation, &findings, now)
        };
        let right = async {
            service.lock().await.submit(&principal, &observation, &findings, now)
        };
        let (left, right) = join(left, right).await;
        assert_eq!(left.expect("left decision"), right.expect("right decision"));
    });
}

#[test]
fn a_decision_repeats_what_was_observed() {
    let now = timestamp("2026-08-24T19:00:10Z");
    let principal = principal();
    let mut service = service(Verification::Verified, ProductAuthorization::Allowed);
    let nonce = service.issue_nonce(&principal, &nonce_request(), true, now).unwrap();
    assert_eq!(nonce.nonce.len(), 64);
    assert!(nonce.nonce.chars().all(|c| c.is_ascii_digit() || ('a'..='f').contains(&c)));
    assert_eq!(nonce.expires_at, timestamp("2026-08-24T19:01:10Z"));
    let seen = observation(date("2026-08-24T19:00:10Z"), nonce.nonce);
    let decision = service.submit(&principal, &seen, &findings(&seen), now).unwrap();
    assert_eq!(decision.reason, PresenceDecisionReason::Accepted);
    assert_eq!(decision.observation_id, seen.observation_id);
    assert_eq!(decision.house_id, "medellin-house-1");
    assert_eq!(decision.door_id, "front-door");
    assert_eq!(decision.direction, "entry");
    assert_eq!(decision.policy_version, "presence-policy-2026-08");
    assert_eq!(decision.recorded_at, now);
    assert_eq!(decision.event_id >> 76 & 0xf, 4);

    let nonce = service.issue_nonce(&principal, &nonce_request(), true, now).unwrap();
    let mut next = observation(date("2026-08-24T19:00:10Z"), nonce.nonce);
    next.previous_presence_sequence = 1;
    let decision = service.submit(&principal, &next, &findings(&next), now).unwrap();
    assert_eq!(decision.presence_sequence, 2);
    let elsewhere = PresenceSubmissionNonceRequest {
        house_id: "medellin-house-2".to_owned(),
        ..nonce_request()
    };
    let nonce = service.issue_nonce(&principal, &elsewhere, true, now).unwrap();
    let mut other = observation(date("2026-08-24T19:00:10Z"), nonce.nonce);
    other.challenge.house_id = "medellin-house-2".to_owned();
    let decision = service.submit(&principal, &other, &findings(&other), now).unwrap();
    assert_eq!(decision.presence_sequence, 1);
}

#[test]
fn a_nonce_is_made_of_two_identifiers() {
    let mut ledger = PresenceLedger::new();
    let now = timestamp("2026-08-24T19:00:10Z");
    let nonce = ledger.grant(&principal(), "medellin-house-1", now, 1, u128::MAX).unwrap();
    assert_eq!(
        nonce.nonce,
        "00000000000000000000000000000001ffffffffffffffffffffffffffffffff"
    );
}

#[test]
fn a_nonce_is_bound_to_its_principal_its_house_and_its_minute() {
    let now = timestamp("2026-08-24T19:00:10Z");
    let at = date("2026-08-24T19:00:10Z");
    let owner = principal();
    let other =
        PresencePrincipal::from_verified_identity("supabase", "house-prod", "resident-2").unwrap();
    let mut service = service(Verification::Verified, ProductAuthorization::Allowed);
    let nonce = service.issue_nonce(&owner, &nonce_request(), true, now).unwrap().nonce;

    let seen = observation(at, nonce.clone());
    assert_eq!(
        service.submit(&other, &seen, &findings(&seen), now),
        Err(AdmissionError::MembershipDenied)
    );
    let mut elsewhere = observation(at, nonce.clone());
    elsewhere.challenge.house_id = "medellin-house-2".to_owned();
    assert_eq!(
        service.submit(&owner, &elsewhere, &findings(&elsewhere), now),
        Err(AdmissionError::MembershipDenied)
    );
    assert_eq!(
        service.submit(&owner, &seen, &findings(&seen), timestamp("2026-08-24T19:01:10Z")),
        Err(AdmissionError::Expired)
    );
    let unknown = observation(at, "unknown".to_owned());
    assert_eq!(
        service.submit(&owner, &unknown, &findings(&unknown), now),
        Err(AdmissionError::Replayed)
    );
    assert!(service
        .submit(&owner, &seen, &findings(&seen), timestamp("2026-08-24T19:01:09Z"))
        .is_ok());
}

#[test]
fn challenges_and_evidence_are_used_once() {
    let now = timestamp("2026-08-24T19:00:10Z");
    let at = date("2026-08-24T19:00:10Z");
    let owner = principal();
    let mut service = service(Verification::Verified, ProductAuthorization::Allowed);
    let nonce = service.issue_nonce(&owner, &nonce_request(), true, now).unwrap().nonce;
    let first = observation(at, nonce);
    service.submit(&owner, &first, &findings(&first), now).unwrap();

    let nonce = service.issue_nonce(&owner, &nonce_request(), true, now).unwrap().nonce;
    let mut challenge = observation(at, nonce.clone());
    challenge.previous_presence_sequence = 1;
    challenge.challenge.challenge_id = first.challenge.challenge_id;
    assert_eq!(
        service.submit(&owner, &challenge, &findings(&challenge), now),
        Err(AdmissionError::Replayed)
    );
    let mut evidence = observation(at, nonce);
    evidence.previous_presence_sequence = 1;
    evidence.corroboration.evidence_id = first.corroboration.evidence_id;
    assert_eq!(
        service.submit(&owner, &evidence, &findings(&evidence), now),
        Err(AdmissionError::Replayed)
    );
}

#[test]
fn an_identifier_does_not_serve_for_another_request() {
    let now = timestamp("2026-08-24T19:00:10Z");
    let at = date("2026-08-24T19:00:10Z");
    let owner = principal();
    let mut service = service(Verification::Verified, ProductAuthorization::Allowed);
    let nonce = service.issue_nonce(&owner, &nonce_request(), true, now).unwrap().nonce;
    let first = observation(at, nonce);
    service.submit(&owner, &first, &findings(&first), now).unwrap();
    let mut other = first.clone();
    other.direction = "exit".to_owned();
    assert_eq!(
        service.submit(&owner, &other, &findings(&other), now),
        Err(AdmissionError::Replayed)
    );
}

#[test]
fn a_request_has_to_be_within_the_contract() {
    let now = timestamp("2026-08-24T19:00:10Z");
    let owner = principal();
    let mut service = service(Verification::Verified, ProductAuthorization::Allowed);
    assert_eq!(
        service.issue_nonce(&owner, &nonce_request(), false, now),
        Err(AdmissionError::InvalidRequest)
    );
    let seen = observation(date("2026-08-24T19:00:10Z"), "nonce".to_owned());
    let mut shapeless = findings(&seen);
    shapeless.shape_valid = false;
    assert_eq!(
        service.submit(&owner, &seen, &shapeless, now),
        Err(AdmissionError::EvidenceInvalid)
    );
    let mut unwritten = findings(&seen);
    unwritten.encoded = None;
    assert_eq!(
        service.submit(&owner, &seen, &unwritten, now),
        Err(AdmissionError::InvalidRequest)
    );
}

#[test]
fn outages_and_revocations_are_told_apart() {
    let now = timestamp("2026-08-24T19:00:10Z");
    let owner = principal();
    let mut away = service(Verification::Verified, ProductAuthorization::Unavailable);
    assert_eq!(
        away.issue_nonce(&owner, &nonce_request(), true, now),
        Err(AdmissionError::AuthenticationUnavailable)
    );
    let seen = observation(date("2026-08-24T19:00:10Z"), "nonce".to_owned());
    assert_eq!(
        away.submit(&owner, &seen, &findings(&seen), now),
        Err(AdmissionError::AuthenticationUnavailable)
    );
    let mut revoked = service(Verification::DeviceRevoked, ProductAuthorization::Allowed);
    assert_eq!(
        revoked.submit(&owner, &seen, &findings(&seen), now),
        Err(AdmissionError::DeviceRevoked)
    );
}

#[test]
fn pending_nonces_are_bounded_until_they_run_out() {
    let mut ledger = PresenceLedger::new();
    let now = timestamp("2026-08-24T19:00:10Z");
    let owner = principal();
    for n in 0..10_000u128 {
        assert!(ledger.grant(&owner, "medellin-house-1", now, n, 0).is_ok());
    }
    assert_eq!(
        ledger.grant(&owner, "medellin-house-1", now, 10_000, 0),
        Err(AdmissionError::RateLimited)
    );
    let later = timestamp("2026-08-24T19:01:10Z");
    assert!(ledger.grant(&owner, "medellin-house-1", later, 0, 1).is_ok());
    let stale = observation(date("2026-08-24T19:00:10Z"), "0".repeat(64));
    assert_eq!(
        ledger.commit(&owner, &stale, false, vec![1], now, 9),
        Err(AdmissionError::Replayed)
    );
}

#[test]
fn a_request_is_known_by_its_digest() {
    let digest = observation_digest(&Some(b"abc".to_vec())).unwrap();
    assert_eq!(
        hex(&digest),
        "ba7816bf8f01cfea414140de5dae2223b00361a396177a9cb410ff61f20015ad"
    );
    assert_eq!(observation_digest(&None), Err(AdmissionError::InvalidRequest));
    let ledger = PresenceLedger::new();
    assert!(ledger.recorded(1, &digest).is_none());
}

#[test]
fn a_principal_has_bounded_parts() {
    let bad = Err(AdmissionError::InvalidRequest);
    assert_eq!(PresencePrincipal::from_verified_identity("", "t", "s"), bad);
    assert_eq!(PresencePrincipal::from_verified_identity(&"p".repeat(65), "t", "s"), bad);
    assert_eq!(PresencePrincipal::from_verified_identity("p", &"t".repeat(256), "s"), bad);
    assert_eq!(PresencePrincipal::from_verified_identity("p", "t", &"s".repeat(513)), bad);
    assert_eq!(PresencePrincipal::from_verified_identity("p", "t|u", "s"), bad);
    assert_eq!(PresencePrincipal::from_verified_identity("p", "t", "s\n"), bad);
    assert!(PresencePrincipal::from_verified_identity(
        &"p".repeat(64),
        &"t".repeat(255),
        &"s".repeat(512)
    )
    .is_ok());
}
