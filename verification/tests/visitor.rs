use base64::engine::general_purpose::URL_SAFE_NO_PAD;
use base64::Engine;
use chrono::{DateTime, Utc};
use hhm_api::moment::Timestamp;
use hhm_api::token::{
    check_claims, issued_claims, open_token, qr_redemption_key, seal_payload, write_claims,
    QrClaims,
};
use hhm_api::visitor::{
    parse_door_ids, valid_door_id, CheckInRequest, CheckOutRequest, VisitorAction,
    VisitorConfigError, VisitorError, VisitorService,
};
use hmac::{Hmac, Mac};
use serde_json::Value;
use sha2::Sha256;

fn timestamp(value: &str) -> Timestamp {
    let parsed: DateTime<Utc> = value.parse().expect("valid timestamp");
    Timestamp::new(parsed.timestamp(), parsed.timestamp_subsec_nanos()).expect("in the calendar")
}

fn setting(value: &str) -> Option<String> {
    Some(value.to_owned())
}

fn service() -> VisitorService {
    VisitorService::from_environment(
        &Some(URL_SAFE_NO_PAD.encode([7u8; 32])),
        &setting("front-door,garden-door"),
        &setting("privacy-2026-08"),
    )
    .expect("valid configuration")
    .expect("configured")
}

fn decode(payload: &[u8]) -> Option<QrClaims> {
    let fields = serde_json::from_slice::<Value>(payload).ok()?;
    let fields = fields.as_object()?;
    if fields.len() != 5 {
        return None;
    }
    let action = match fields.get("action")?.as_str()? {
        "check_in" => VisitorAction::CheckIn,
        "check_out" => VisitorAction::CheckOut,
        _ => return None,
    };
    Some(QrClaims {
        schema: fields.get("schema")?.as_str()?.to_owned(),
        audience: fields.get("audience")?.as_str()?.to_owned(),
        door_id: fields.get("door_id")?.as_str()?.to_owned(),
        action,
        issued_minute: fields.get("issued_minute")?.as_i64()?,
    })
}

fn token_at(service: &VisitorService, door: &str, action: VisitorAction, at: &str) -> String {
    let issued = service.issue(door, action, timestamp(at)).unwrap();
    issued.qr_payload.trim_start_matches("hhm-visitor:").to_owned()
}

fn check_in_request(token: &str, name: &str) -> CheckInRequest {
    CheckInRequest {
        door_id: "front-door".to_owned(),
        qr_token: token.to_owned(),
        display_name: name.to_owned(),
        privacy_notice_version: "privacy-2026-08".to_owned(),
    }
}

fn check_out_request(token: &str, visit_id: u128, receipt: &str) -> CheckOutRequest {
    CheckOutRequest {
        door_id: "garden-door".to_owned(),
        qr_token: token.to_owned(),
        visit_id,
        checkout_receipt: receipt.to_owned(),
    }
}

fn mac(parts: &[&[u8]]) -> Vec<u8> {
    let mut mac = Hmac::<Sha256>::new_from_slice(&[7u8; 32]).unwrap();
    for part in parts {
        mac.update(part);
    }
    mac.finalize().into_bytes().to_vec()
}

#[test]
fn qr_payload_changes_each_minute_and_has_short_grace() {
    let service = service();
    let first = service
        .issue(
            "front-door",
            VisitorAction::CheckIn,
            timestamp("2026-08-24T12:00:10Z"),
        )
        .unwrap();
    let second = service
        .issue(
            "front-door",
            VisitorAction::CheckIn,
            timestamp("2026-08-24T12:01:00Z"),
        )
        .unwrap();
    assert_ne!(first.qr_payload, second.qr_payload);

    let token = first.qr_payload.trim_start_matches("hhm-visitor:");
    assert!(service
        .verify(
            token,
            "front-door",
            VisitorAction::CheckIn,
            timestamp("2026-08-24T12:01:15Z"),
            &decode
        )
        .is_ok());
    assert_eq!(
        service.verify(
            token,
            "front-door",
            VisitorAction::CheckIn,
            timestamp("2026-08-24T12:01:16Z"),
            &decode
        ),
        Err(VisitorError::ExpiredQr)
    );
}

#[test]
fn qr_claim_uses_the_purpose_specific_visitor_audience() {
    let issued = service()
        .issue(
            "front-door",
            VisitorAction::CheckIn,
            timestamp("2026-08-24T12:00:10Z"),
        )
        .unwrap();
    let token = issued.qr_payload.trim_start_matches("hhm-visitor:");
    let encoded_claims = token.split('.').nth(1).unwrap();
    let claims = decode(&URL_SAFE_NO_PAD.decode(encoded_claims).unwrap()).unwrap();
    assert_eq!(claims.audience, "hhm-visitor-access");
}

#[test]
fn qr_is_bound_to_action_door_and_signature() {
    let service = service();
    let issued = service
        .issue(
            "front-door",
            VisitorAction::CheckIn,
            timestamp("2026-08-24T12:00:10Z"),
        )
        .unwrap();
    let token = issued.qr_payload.trim_start_matches("hhm-visitor:");
    assert_eq!(
        service.verify(
            token,
            "garden-door",
            VisitorAction::CheckIn,
            timestamp("2026-08-24T12:00:20Z"),
            &decode
        ),
        Err(VisitorError::InvalidQr)
    );
    assert_eq!(
        service.verify(
            token,
            "front-door",
            VisitorAction::CheckOut,
            timestamp("2026-08-24T12:00:20Z"),
            &decode
        ),
        Err(VisitorError::InvalidQr)
    );
    let mut tampered = token.to_owned();
    tampered.push('x');
    assert_eq!(
        service.verify(
            &tampered,
            "front-door",
            VisitorAction::CheckIn,
            timestamp("2026-08-24T12:00:20Z"),
            &decode
        ),
        Err(VisitorError::InvalidQr)
    );
}

#[test]
fn check_in_and_out_require_notice_and_private_receipt() {
    let mut service = service();
    let check_in_time = timestamp("2026-08-24T12:00:10Z");
    let check_in_qr = service
        .issue("front-door", VisitorAction::CheckIn, check_in_time)
        .unwrap();
    let token = check_in_qr.qr_payload.trim_start_matches("hhm-visitor:").to_owned();

    let wrong_notice = service.check_in(
        CheckInRequest {
            door_id: "front-door".to_owned(),
            qr_token: token.clone(),
            display_name: "Ada".to_owned(),
            privacy_notice_version: "old".to_owned(),
        },
        check_in_time,
        &decode,
    );
    assert!(matches!(wrong_notice, Err(VisitorError::NoticeNotAccepted)));

    let receipt = service
        .check_in(
            CheckInRequest {
                door_id: "front-door".to_owned(),
                qr_token: token,
                display_name: "  Ada Lovelace  ".to_owned(),
                privacy_notice_version: "privacy-2026-08".to_owned(),
            },
            check_in_time,
            &decode,
        )
        .unwrap();
    assert_eq!(service.active_visit_count(), 1);

    let check_out_time = timestamp("2026-08-24T13:00:05Z");
    let check_out_qr = service
        .issue("garden-door", VisitorAction::CheckOut, check_out_time)
        .unwrap();
    let check_out_token = check_out_qr.qr_payload.trim_start_matches("hhm-visitor:").to_owned();
    let rejected = service.check_out(
        CheckOutRequest {
            door_id: "garden-door".to_owned(),
            qr_token: check_out_token.clone(),
            visit_id: receipt.visit_id,
            checkout_receipt: "wrong".to_owned(),
        },
        check_out_time,
        &decode,
    );
    assert!(matches!(rejected, Err(VisitorError::InvalidReceipt)));

    service
        .check_out(
            CheckOutRequest {
                door_id: "garden-door".to_owned(),
                qr_token: check_out_token,
                visit_id: receipt.visit_id,
                checkout_receipt: receipt.checkout_receipt,
            },
            check_out_time,
            &decode,
        )
        .unwrap();
    assert_eq!(service.active_visit_count(), 0);
}

#[test]
fn an_issued_code_ends_fifteen_seconds_after_its_minute() {
    let issued = service()
        .issue(
            "front-door",
            VisitorAction::CheckOut,
            timestamp("2026-08-24T12:00:59.5Z"),
        )
        .unwrap();
    assert_eq!(issued.expires_at, timestamp("2026-08-24T12:01:15Z"));
    assert_eq!(issued.door_id, "front-door");
    assert_eq!(issued.action, VisitorAction::CheckOut);
    assert!(issued.qr_payload.starts_with("hhm-visitor:hhm1."));
}

#[test]
fn a_token_is_its_payload_under_the_signature() {
    let token = seal_payload(&[7u8; 32], b"{}").unwrap();
    let signed = mac(&[b"hhm.visitor-qr.signature.v1\0", b"e30"]);
    assert_eq!(token, format!("hhm1.e30.{}", URL_SAFE_NO_PAD.encode(&signed)));
    assert_eq!(qr_redemption_key(&token).unwrap(), URL_SAFE_NO_PAD.encode(&signed));
    let doors = parse_door_ids("front-door").unwrap();
    assert_eq!(open_token(&[7u8; 32], &doors, &token, "front-door").unwrap(), b"{}".to_vec());
    assert_eq!(
        open_token(&[8u8; 32], &doors, &token, "front-door"),
        Err(VisitorError::InvalidQr)
    );
    assert_eq!(
        open_token(&[7u8; 32], &doors, &token, "back-door"),
        Err(VisitorError::InvalidDoor)
    );
    assert_eq!(
        open_token(&[7u8; 32], &doors, "hhm2.e30.e30", "front-door"),
        Err(VisitorError::InvalidQr)
    );
    assert_eq!(
        open_token(&[7u8; 32], &doors, &"a".repeat(1025), "front-door"),
        Err(VisitorError::InvalidQr)
    );
}

#[test]
fn a_payload_is_the_claims_as_json() {
    let token = token_at(&service(), "front-door", VisitorAction::CheckIn, "2026-08-24T12:00:10Z");
    let payload = URL_SAFE_NO_PAD.decode(token.split('.').nth(1).unwrap()).unwrap();
    assert_eq!(
        String::from_utf8(payload).unwrap(),
        "{\"schema\":\"hhm.visitor-qr.v1\",\"audience\":\"hhm-visitor-access\",\
         \"door_id\":\"front-door\",\"action\":\"check_in\",\"issued_minute\":29792880}"
    );
    let mut claims = issued_claims("a\"b\\c\u{1}\n\u{7f}ñ", VisitorAction::CheckOut, i64::MIN);
    let written = write_claims(&claims).unwrap();
    assert!(written.contains("\"door_id\":\"a\\\"b\\\\c\\u0001\\n\u{7f}ñ\""));
    assert!(written.ends_with("\"action\":\"check_out\",\"issued_minute\":-9223372036854775808}"));
    let read = decode(written.as_bytes()).unwrap();
    assert_eq!(read.door_id, claims.door_id);
    assert_eq!(read.issued_minute, i64::MIN);
    for code in 0..0x180u32 {
        claims.door_id = char::from_u32(code).unwrap().to_string();
        let written = write_claims(&claims).unwrap();
        assert!(written.contains(&serde_json::to_string(&claims.door_id).unwrap()));
        assert_eq!(decode(written.as_bytes()).unwrap().door_id, claims.door_id);
    }
}

#[test]
fn a_payload_over_its_bound_does_not_open() {
    let doors = parse_door_ids("front-door").unwrap();
    let fits = seal_payload(&[7u8; 32], &[1u8; 512]).unwrap();
    assert_eq!(open_token(&[7u8; 32], &doors, &fits, "front-door").unwrap().len(), 512);
    let too_long = seal_payload(&[7u8; 32], &[1u8; 513]).unwrap();
    assert_eq!(
        open_token(&[7u8; 32], &doors, &too_long, "front-door"),
        Err(VisitorError::InvalidQr)
    );
}

#[test]
fn a_code_needs_a_known_door_and_an_end_in_the_calendar() {
    let service = service();
    let now = timestamp("2026-08-24T12:00:10Z");
    assert!(matches!(
        service.issue("attic", VisitorAction::CheckIn, now),
        Err(VisitorError::InvalidDoor)
    ));
    let last = Timestamp::new(8_210_266_876_799, 0).unwrap();
    assert!(matches!(
        service.issue("front-door", VisitorAction::CheckIn, last),
        Err(VisitorError::InvalidQr)
    ));
    assert_eq!(service.validate_door("garden-door"), Ok(()));
    assert_eq!(service.validate_door(""), Err(VisitorError::InvalidDoor));
}

#[test]
fn claims_that_cannot_be_read_are_an_invalid_code() {
    let doors = parse_door_ids("front-door").unwrap();
    let now = timestamp("2026-08-24T12:00:10Z");
    assert_eq!(
        check_claims(&doors, &None, "front-door", VisitorAction::CheckIn, now),
        Err(VisitorError::InvalidQr)
    );
    let token = seal_payload(&[7u8; 32], b"{\"schema\":1}").unwrap();
    assert_eq!(
        service().verify(&token, "front-door", VisitorAction::CheckIn, now, &decode),
        Err(VisitorError::InvalidQr)
    );
}

#[test]
fn a_code_is_not_good_before_its_minute() {
    let service = service();
    let token = token_at(&service, "front-door", VisitorAction::CheckIn, "2026-08-24T12:00:10Z");
    assert_eq!(
        service.verify(
            &token,
            "front-door",
            VisitorAction::CheckIn,
            timestamp("2026-08-24T12:00:00Z"),
            &decode
        ),
        Ok(())
    );
    assert_eq!(
        service.verify(
            &token,
            "front-door",
            VisitorAction::CheckIn,
            timestamp("2026-08-24T11:59:59Z"),
            &decode
        ),
        Err(VisitorError::ExpiredQr)
    );
}

#[test]
fn a_receipt_is_kept_as_its_tag() {
    let service = service();
    let tag = service.receipt_tag("private").unwrap();
    assert_eq!(tag, mac(&[b"hhm.visitor-checkout-receipt.v1\0", b"private"]));
    assert_eq!(service.verify_receipt("private", &tag), Ok(()));
    assert_eq!(service.verify_receipt("other", &tag), Err(VisitorError::InvalidReceipt));
    assert_eq!(service.verify_receipt("pri\nvate", &tag), Err(VisitorError::InvalidReceipt));
    assert_eq!(
        service.verify_receipt(&"r".repeat(257), &tag),
        Err(VisitorError::InvalidReceipt)
    );
}

#[test]
fn a_receipt_is_two_identifiers() {
    let mut service = service();
    let now = timestamp("2026-08-24T12:00:10Z");
    let token = token_at(&service, "front-door", VisitorAction::CheckIn, "2026-08-24T12:00:10Z");
    let receipt = service
        .receive(
            &check_in_request(&token, "Ada"),
            now,
            7,
            0x0123_4567_89ab_4def_8123_4567_89ab_cdef,
            0xffff_ffff_ffff_4fff_bfff_ffff_ffff_ffff,
        )
        .unwrap();
    assert_eq!(receipt.visit_id, 7);
    assert_eq!(
        receipt.checkout_receipt,
        "01234567-89ab-4def-8123-456789abcdef.ffffffff-ffff-4fff-bfff-ffffffffffff"
    );
    assert_eq!(receipt.checked_in_at, now);

    let drawn = service.check_in(check_in_request(&token, "Grace"), now, &decode).unwrap();
    assert_eq!(drawn.visit_id >> 76 & 0xf, 4);
    assert_eq!(drawn.visit_id >> 62 & 0x3, 2);
    assert_eq!(drawn.checkout_receipt.len(), 73);
    let again = service.check_in(check_in_request(&token, "Grace"), now, &decode).unwrap();
    assert_ne!(drawn.visit_id, again.visit_id);
    assert_ne!(drawn.checkout_receipt, again.checkout_receipt);
}

#[test]
fn a_visitor_needs_a_name_within_its_bound() {
    let mut service = service();
    let now = timestamp("2026-08-24T12:00:10Z");
    let token = token_at(&service, "front-door", VisitorAction::CheckIn, "2026-08-24T12:00:10Z");
    for name in ["", "  ", "A\u{7}da", &"a".repeat(121)] {
        assert!(matches!(
            service.check_in(check_in_request(&token, name), now, &decode),
            Err(VisitorError::InvalidVisitorName)
        ));
    }
    assert!(service.check_in(check_in_request(&token, &"é".repeat(120)), now, &decode).is_ok());
}

#[test]
fn one_code_checks_in_so_many_visitors() {
    let mut service = service();
    let now = timestamp("2026-08-24T12:00:10Z");
    let token = token_at(&service, "front-door", VisitorAction::CheckIn, "2026-08-24T12:00:10Z");
    for _ in 0..128 {
        assert!(service.check_in(check_in_request(&token, "Ada"), now, &decode).is_ok());
    }
    assert!(matches!(
        service.check_in(check_in_request(&token, "Ada"), now, &decode),
        Err(VisitorError::RateLimited)
    ));
    assert!(matches!(
        service.check_in(
            check_in_request(&token, "Ada"),
            timestamp("2026-08-24T12:01:15Z"),
            &decode
        ),
        Err(VisitorError::RateLimited)
    ));
    assert_eq!(service.active_visit_count(), 128);
    let next = token_at(&service, "front-door", VisitorAction::CheckIn, "2026-08-24T12:01:00Z");
    let then = timestamp("2026-08-24T12:01:00Z");
    assert!(service.check_in(check_in_request(&next, "Ada"), then, &decode).is_ok());
}

#[test]
fn the_house_takes_so_many_visitors() {
    let mut service = service();
    for minute in 0..32u32 {
        let at = format!("2026-08-24T12:{minute:02}:10Z");
        let token = token_at(&service, "front-door", VisitorAction::CheckIn, &at);
        let request = check_in_request(&token, "Ada");
        for n in 0..128u32 {
            let id = u128::from(minute * 128 + n);
            assert!(service.receive(&request, timestamp(&at), id, 1, 2).is_ok());
        }
    }
    assert_eq!(service.active_visit_count(), 4096);
    let token = token_at(&service, "front-door", VisitorAction::CheckIn, "2026-08-24T13:00:10Z");
    let now = timestamp("2026-08-24T13:00:10Z");
    assert!(matches!(
        service.check_in(check_in_request(&token, "Ada"), now, &decode),
        Err(VisitorError::CapacityReached)
    ));
}

#[test]
fn a_visit_is_closed_once_and_forgotten_after_a_day() {
    let mut service = service();
    let token = token_at(&service, "front-door", VisitorAction::CheckIn, "2026-08-24T12:00:10Z");
    let receipt = service
        .check_in(check_in_request(&token, "Ada"), timestamp("2026-08-24T12:00:10Z"), &decode)
        .unwrap();
    let code = receipt.checkout_receipt.as_str();
    let out = timestamp("2026-08-24T13:00:00Z");
    let exit = token_at(&service, "garden-door", VisitorAction::CheckOut, "2026-08-24T13:00:00Z");
    assert!(matches!(
        service.release(&check_out_request(&exit, receipt.visit_id ^ 1, code), out),
        Err(VisitorError::VisitNotFound)
    ));
    assert!(matches!(
        service.release(&check_out_request(&exit, receipt.visit_id, ""), out),
        Err(VisitorError::InvalidReceipt)
    ));
    let request = check_out_request(&exit, receipt.visit_id, code);
    let released = service.release(&request, out).unwrap();
    assert_eq!(released.visit_id, receipt.visit_id);
    assert_eq!(released.checked_out_at, out);
    assert!(matches!(service.release(&request, out), Err(VisitorError::AlreadyCheckedOut)));

    let day = "2026-08-25T13:00:00Z";
    let token = token_at(&service, "front-door", VisitorAction::CheckIn, day);
    service.check_in(check_in_request(&token, "Grace"), timestamp(day), &decode).unwrap();
    assert!(matches!(service.release(&request, out), Err(VisitorError::AlreadyCheckedOut)));
    let later = "2026-08-25T13:00:01Z";
    service.check_in(check_in_request(&token, "Grace"), timestamp(later), &decode).unwrap();
    assert!(matches!(service.release(&request, out), Err(VisitorError::VisitNotFound)));
    assert_eq!(service.active_visit_count(), 2);
}

#[test]
fn one_code_checks_out_so_many_visitors() {
    let mut service = service();
    let mut receipts = Vec::new();
    for (minute, visitors) in [(0, 128), (1, 2)] {
        let at = format!("2026-08-24T12:0{minute}:10Z");
        let token = token_at(&service, "front-door", VisitorAction::CheckIn, &at);
        for _ in 0..visitors {
            let request = check_in_request(&token, "Ada");
            receipts.push(service.check_in(request, timestamp(&at), &decode).unwrap());
        }
    }
    let now = timestamp("2026-08-24T13:00:05Z");
    let exit = token_at(&service, "garden-door", VisitorAction::CheckOut, "2026-08-24T13:00:05Z");
    let wrong = check_out_request(&exit, receipts[129].visit_id, "wrong");
    assert!(matches!(
        service.check_out(wrong, now, &decode),
        Err(VisitorError::InvalidReceipt)
    ));
    for receipt in &receipts[..128] {
        let request = check_out_request(&exit, receipt.visit_id, &receipt.checkout_receipt);
        assert!(service.check_out(request, now, &decode).is_ok());
    }
    assert_eq!(service.active_visit_count(), 2);
    let last = &receipts[128];
    for at in ["2026-08-24T13:00:05Z", "2026-08-24T13:01:15Z"] {
        let request = check_out_request(&exit, last.visit_id, &last.checkout_receipt);
        assert!(matches!(
            service.check_out(request, timestamp(at), &decode),
            Err(VisitorError::RateLimited)
        ));
    }
    let closed = check_out_request(&exit, receipts[0].visit_id, &receipts[0].checkout_receipt);
    assert!(matches!(
        service.check_out(closed, now, &decode),
        Err(VisitorError::AlreadyCheckedOut)
    ));
    assert_eq!(service.active_visit_count(), 2);
    let next = token_at(&service, "garden-door", VisitorAction::CheckOut, "2026-08-24T13:01:00Z");
    let request = check_out_request(&next, last.visit_id, &last.checkout_receipt);
    let then = timestamp("2026-08-24T13:01:00Z");
    assert!(service.check_out(request, then, &decode).is_ok());
    assert_eq!(service.active_visit_count(), 1);
}

#[test]
fn codes_are_the_same_within_a_minute_only() {
    let service = service();
    let first = token_at(&service, "front-door", VisitorAction::CheckIn, "2026-08-24T12:00:00Z");
    for (door, action, at, same) in [
        ("front-door", VisitorAction::CheckIn, "2026-08-24T12:00:59Z", true),
        ("front-door", VisitorAction::CheckIn, "2026-08-24T12:01:00Z", false),
        ("front-door", VisitorAction::CheckOut, "2026-08-24T12:00:00Z", false),
        ("garden-door", VisitorAction::CheckIn, "2026-08-24T12:00:00Z", false),
    ] {
        assert_eq!(token_at(&service, door, action, at) == first, same);
    }
    assert_eq!(
        service.verify(
            &first,
            "attic",
            VisitorAction::CheckIn,
            timestamp("2026-08-24T12:00:00Z"),
            &decode
        ),
        Err(VisitorError::InvalidDoor)
    );
}

#[test]
fn refusals_come_before_the_calendar_is_asked() {
    let mut service = service();
    let first = Timestamp::new(-8_334_601_228_800, 0).unwrap();
    assert!(matches!(
        service.check_in(check_in_request("hhm1.e30.e30", "Ada"), first, &decode),
        Err(VisitorError::InvalidQr)
    ));
}

#[test]
fn an_action_is_known_by_its_path() {
    assert_eq!(VisitorAction::parse("check-in"), Ok(VisitorAction::CheckIn));
    assert_eq!("check-out".parse::<VisitorAction>(), Ok(VisitorAction::CheckOut));
    assert_eq!("check_in".parse::<VisitorAction>(), Err(VisitorError::InvalidAction));
    assert_eq!(VisitorAction::CheckIn.as_event_name(), "visitor.check_in");
    assert_eq!(VisitorAction::CheckOut.as_event_name(), "visitor.check_out");
}

#[test]
fn a_door_has_a_plain_identifier() {
    assert!(valid_door_id("front-door_2"));
    assert!(!valid_door_id("Front"));
    assert!(!valid_door_id("front door"));
    assert!(valid_door_id(&"d".repeat(64)));
    assert!(!valid_door_id(&"d".repeat(65)));
    assert_eq!(parse_door_ids(" a , a,, b ").unwrap().len(), 2);
    assert_eq!(parse_door_ids("a,B").err(), Some(VisitorConfigError::InvalidDoorId));
    assert_eq!(parse_door_ids(" , ").err(), Some(VisitorConfigError::NoDoorId));
}

#[test]
fn visitor_access_takes_all_of_its_settings_or_none() {
    let key = Some(URL_SAFE_NO_PAD.encode([7u8; 32]));
    let doors = setting("front-door");
    let notice = setting("privacy-2026-08");
    let blank = setting(" ");
    assert!(VisitorService::from_environment(&None, &blank, &None).unwrap().is_none());
    assert!(VisitorService::from_environment(&key, &doors, &notice).unwrap().is_some());
    let long = setting(&"n".repeat(65));
    let short_key = Some(URL_SAFE_NO_PAD.encode([7u8; 31]));
    let long_key = Some(URL_SAFE_NO_PAD.encode([7u8; 65]));
    let padded = setting("Bw==");
    let comma = setting(",");
    let bad_door = setting("Front");
    for (key, doors, notice, expected) in [
        (&None, &doors, &notice, VisitorConfigError::KeyMissing),
        (&padded, &doors, &notice, VisitorConfigError::KeyEncoding),
        (&short_key, &doors, &notice, VisitorConfigError::KeyLength),
        (&long_key, &doors, &notice, VisitorConfigError::KeyLength),
        (&key, &None, &notice, VisitorConfigError::DoorsMissing),
        (&key, &bad_door, &notice, VisitorConfigError::InvalidDoorId),
        (&key, &comma, &notice, VisitorConfigError::NoDoorId),
        (&key, &doors, &None, VisitorConfigError::NoticeMissing),
        (&key, &doors, &long, VisitorConfigError::InvalidNotice),
    ] {
        assert_eq!(VisitorService::from_environment(key, doors, notice).err(), Some(expected));
    }
    assert_eq!(
        VisitorConfigError::KeyLength.message(),
        "VISITOR_QR_SIGNING_KEY must decode to between 32 and 64 bytes"
    );
}
