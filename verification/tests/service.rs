use axum::http::{HeaderValue, StatusCode};
use base64::engine::general_purpose::URL_SAFE_NO_PAD;
use base64::Engine;
use hhm_api::api::{
    begin_issue, health, issue_visitor_qr, require_authorization, socket_step, visitor_check_in,
    visitor_check_out, SocketAction, SocketEvent,
};
use hhm_api::auth::Authorization;
use hhm_api::cors::{check_cors_origin, parse_cors_origin, parse_cors_origins, CorsFault};
use hhm_api::moment::Timestamp;
use hhm_api::observability::Observability;
use hhm_api::reply::{service_not_configured, visitor_error};
use hhm_api::startup::{
    database_url, demo_reservations_enabled, listen_address, require_dual_auth,
};
use hhm_api::token::QrClaims;
use hhm_api::uri::UriParts;
use hhm_api::visitor::{
    CheckInRequest, CheckOutRequest, IssueQrRequest, VisitorAction, VisitorError, VisitorService,
};

fn setting(value: &str) -> Option<String> {
    Some(value.to_owned())
}

fn visitors() -> Option<VisitorService> {
    VisitorService::from_environment(
        &Some(URL_SAFE_NO_PAD.encode([7u8; 32])),
        &setting("front-door"),
        &setting("privacy-2026-08"),
    )
    .expect("valid configuration")
}

fn now() -> Timestamp {
    Timestamp::new(1_787_000_000, 0).unwrap()
}

fn decode(payload: &[u8]) -> Option<QrClaims> {
    let fields = serde_json::from_slice::<serde_json::Value>(payload).ok()?;
    let action = match fields.get("action")?.as_str()? {
        "check_in" => VisitorAction::CheckIn,
        "check_out" => VisitorAction::CheckOut,
        _ => return None,
    };
    Some(QrClaims {
        schema: fields.get("schema")?.as_str()?.to_owned(),
        audience: fields.get("audience")?.as_str()?.to_owned(),
        door_id: fields.get("door_id")?.as_str()?.to_owned(),
        action,
        issued_minute: fields.get("issued_minute")?.as_i64()?,
    })
}

fn request() -> IssueQrRequest {
    IssueQrRequest { door_id: "front-door".to_owned() }
}

fn token(service: &Option<VisitorService>, action: VisitorAction) -> String {
    let answer = issue_visitor_qr(
        &Observability::new(),
        action,
        Authorization::Authorized,
        service,
        &request(),
        now(),
    );
    answer.result.unwrap().qr_payload.trim_start_matches("hhm-visitor:").to_owned()
}

#[test]
fn parses_exact_cors_origins_and_deduplicates_them() {
    let origins = parse_cors_origins(
        "https://app.example.test, https://admin.example.test,https://app.example.test",
    )
    .expect("origins are valid");
    assert_eq!(origins.len(), 2);
    assert_eq!(
        HeaderValue::from_str(&origins[0]).unwrap(),
        HeaderValue::from_static("https://app.example.test")
    );
    assert_eq!(
        HeaderValue::from_str(&origins[1]).unwrap(),
        HeaderValue::from_static("https://admin.example.test")
    );
}

#[test]
fn rejects_wildcard_and_path_cors_configuration() {
    assert!(parse_cors_origins("*").is_err());
    assert!(parse_cors_origins("https://app.example.test/path").is_err());
    assert!(parse_cors_origins("javascript:alert(1)").is_err());
}

#[test]
fn an_origin_says_what_is_wrong_with_it() {
    assert!(parse_cors_origins(" , ").unwrap().is_empty());
    assert_eq!(parse_cors_origin("http://localhost:3000").unwrap(), "http://localhost:3000");
    let wildcard = parse_cors_origins("https://a.test,*").unwrap_err();
    assert_eq!(wildcard.fault, CorsFault::Wildcard);
    assert_eq!(wildcard.message(), "CORS_ORIGINS must not contain a wildcard");
    for origin in ["*", "https://*.example.test", "https://a.test/*", "*.example.test"] {
        assert_eq!(parse_cors_origin(origin).unwrap_err().fault, CorsFault::Wildcard);
        assert!(parse_cors_origins(origin).is_err());
    }
    let invalid = parse_cors_origin("https://a b").unwrap_err();
    assert_eq!(invalid.fault, CorsFault::InvalidOrigin);
    assert_eq!(invalid.message(), "invalid CORS origin: https://a b");
    for origin in ["https://a.test/path", "https://a.test/?q=1", "https://a.test?x=1", "ftp://a.test", "/path", "a.test"] {
        let error = parse_cors_origin(origin).unwrap_err();
        assert_eq!(error.fault, CorsFault::NotExact);
        assert_eq!(
            error.message(),
            format!("CORS origin must be an exact http(s) origin without a path: {origin}")
        );
    }
    let parts = Some(UriParts {
        scheme: setting("https"),
        has_authority: true,
        host: setting("a.test"),
        path: "/".to_owned(),
        query: None,
    });
    assert_eq!(check_cors_origin("https://a.test", &parts), None);
    assert_eq!(check_cors_origin("https://a\u{7}.test", &parts), Some(CorsFault::InvalidHeader));
    assert_eq!(check_cors_origin("https://a.test", &None), Some(CorsFault::InvalidOrigin));
}

#[test]
fn emits_bounded_events_without_identity_or_token_fields() {
    let observability = Observability::new();
    let visit = observability.visitor_event("visitor.check_in", "accepted", "front-door");
    let authorization = observability.authorization_event("forbidden");
    let pair = |name: &str, value: &str| (name.to_owned(), value.to_owned());
    assert_eq!(visit.app_name, "hhm-api");
    assert_eq!(visit.message, "visitor access transition");
    assert_eq!(
        visit.fields,
        vec![
            pair("event.name", "visitor.check_in"),
            pair("event.outcome", "accepted"),
            pair("door.id", "front-door"),
        ]
    );
    assert_eq!(authorization.message, "visitor QR authorization");
    assert_eq!(
        authorization.fields,
        vec![pair("event.name", "visitor.qr.authorize"), pair("auth.outcome", "forbidden")]
    );
}

#[test]
fn errors_are_told_by_status_and_code() {
    for (error, status, code) in [
        (VisitorError::InvalidAction, StatusCode::UNPROCESSABLE_ENTITY, "invalid_visitor_request"),
        (VisitorError::InvalidDoor, StatusCode::UNPROCESSABLE_ENTITY, "invalid_visitor_request"),
        (
            VisitorError::NoticeNotAccepted,
            StatusCode::UNPROCESSABLE_ENTITY,
            "invalid_visitor_request",
        ),
        (
            VisitorError::InvalidVisitorName,
            StatusCode::UNPROCESSABLE_ENTITY,
            "invalid_visitor_request",
        ),
        (VisitorError::InvalidQr, StatusCode::UNAUTHORIZED, "invalid_visitor_credential"),
        (VisitorError::ExpiredQr, StatusCode::UNAUTHORIZED, "invalid_visitor_credential"),
        (VisitorError::VisitNotFound, StatusCode::UNAUTHORIZED, "invalid_visitor_credential"),
        (VisitorError::InvalidReceipt, StatusCode::UNAUTHORIZED, "invalid_visitor_credential"),
        (
            VisitorError::CapacityReached,
            StatusCode::SERVICE_UNAVAILABLE,
            "visitor_capacity_reached",
        ),
        (VisitorError::RateLimited, StatusCode::TOO_MANY_REQUESTS, "visitor_rate_limited"),
        (VisitorError::AlreadyCheckedOut, StatusCode::CONFLICT, "visitor_already_checked_out"),
    ] {
        let told = visitor_error(error);
        assert_eq!(told.status, status.as_u16());
        assert_eq!(told.code, code);
    }
    assert_eq!(
        visitor_error(VisitorError::VisitNotFound).message,
        visitor_error(VisitorError::InvalidReceipt).message
    );
    let away = service_not_configured();
    assert_eq!(away.status, StatusCode::SERVICE_UNAVAILABLE.as_u16());
    assert_eq!(away.code, "service_not_configured");
    assert_eq!(away.message, "visitor access is not configured");
}

#[test]
fn an_issue_begins_with_a_known_action_and_authentication() {
    assert_eq!(begin_issue("check-in", true).unwrap(), VisitorAction::CheckIn);
    assert_eq!(begin_issue("check-out", true).unwrap(), VisitorAction::CheckOut);
    assert_eq!(begin_issue("enter", false).unwrap_err().status, 422);
    assert_eq!(begin_issue("check-in", false).unwrap_err().code, "service_not_configured");
}

#[test]
fn only_authorized_callers_get_codes() {
    let observability = Observability::new();
    let service = visitors();
    for (authorization, label, status, code) in [
        (Authorization::Anonymous, "unauthenticated", 401, "unauthorized"),
        (Authorization::Unauthenticated, "unauthenticated", 401, "unauthorized"),
        (Authorization::Degraded, "degraded", 503, "authentication_unavailable"),
        (Authorization::Forbidden, "forbidden", 403, "forbidden"),
    ] {
        let answer = issue_visitor_qr(
            &observability,
            VisitorAction::CheckIn,
            authorization,
            &service,
            &request(),
            now(),
            );
        assert_eq!(answer.log.len(), 1);
        assert_eq!(answer.log[0].fields[1].1, label);
        let error = answer.result.unwrap_err();
        assert_eq!(error.status, status);
        assert_eq!(error.code, code);
        assert_eq!(require_authorization(authorization).0, label);
    }
    let answer = issue_visitor_qr(
        &observability,
        VisitorAction::CheckIn,
        Authorization::Authorized,
        &service,
        &request(),
        now(),
    );
    assert_eq!(answer.log.len(), 2);
    assert_eq!(answer.log[0].fields[1].1, "authorized");
    assert_eq!(answer.log[1].fields[0].1, "visitor.check_in");
    assert_eq!(answer.log[1].fields[1].1, "issued");
    assert_eq!(answer.log[1].fields[2].1, "front-door");
    assert!(answer.result.is_ok());

    let unset = issue_visitor_qr(
        &observability,
        VisitorAction::CheckIn,
        Authorization::Authorized,
        &None,
        &request(),
        now(),
    );
    assert_eq!(unset.log.len(), 1);
    assert_eq!(unset.result.unwrap_err().code, "service_not_configured");

    let elsewhere = issue_visitor_qr(
        &observability,
        VisitorAction::CheckIn,
        Authorization::Authorized,
        &service,
        &IssueQrRequest { door_id: "attic".to_owned() },
        now(),
    );
    assert_eq!(elsewhere.log.len(), 1);
    assert_eq!(elsewhere.result.unwrap_err().code, "invalid_visitor_request");
}

#[test]
fn a_visit_is_logged_when_it_begins_and_ends() {
    let observability = Observability::new();
    let mut service = visitors();
    let check_in = CheckInRequest {
        door_id: "front-door".to_owned(),
        qr_token: token(&service, VisitorAction::CheckIn),
        display_name: "Ada".to_owned(),
        privacy_notice_version: "privacy-2026-08".to_owned(),
    };
    let answer = visitor_check_in(&observability, &mut service, check_in, now(), &decode);
    assert_eq!(answer.log.len(), 1);
    assert_eq!(answer.log[0].fields[0].1, "visitor.check_in");
    assert_eq!(answer.log[0].fields[1].1, "accepted");
    let receipt = answer.result.unwrap();
    assert_eq!(health(true, false, true, &service, false).active_visits, 1);

    let check_out = |receipt_text: &str, qr_token: String| CheckOutRequest {
        door_id: "front-door".to_owned(),
        qr_token,
        visit_id: receipt.visit_id,
        checkout_receipt: receipt_text.to_owned(),
    };
    let out = token(&service, VisitorAction::CheckOut);
    let wrong = visitor_check_out(
        &observability,
        &mut service,
        check_out("wrong", out.clone()),
        now(),
        &decode,
    );
    assert!(wrong.log.is_empty());
    assert_eq!(wrong.result.unwrap_err().status, 401);
    let right = visitor_check_out(
        &observability,
        &mut service,
        check_out(&receipt.checkout_receipt, out.clone()),
        now(),
        &decode,
    );
    assert_eq!(right.log[0].fields[0].1, "visitor.check_out");
    assert_eq!(right.result.unwrap().visit_id, receipt.visit_id);
    let again = visitor_check_out(
        &observability,
        &mut service,
        check_out(&receipt.checkout_receipt, out),
        now(),
        &decode,
    );
    assert_eq!(again.result.unwrap_err().status, 409);

    let mut absent: Option<VisitorService> = None;
    let unset = visitor_check_in(
        &observability,
        &mut absent,
        CheckInRequest {
            door_id: "front-door".to_owned(),
            qr_token: String::new(),
            display_name: "Ada".to_owned(),
            privacy_notice_version: "privacy-2026-08".to_owned(),
        },
        now(),
        &decode,
    );
    assert!(unset.log.is_empty());
    assert_eq!(unset.result.unwrap_err().code, "service_not_configured");
}

#[test]
fn health_tells_what_is_set_up() {
    let report = health(true, false, true, &None, true);
    assert_eq!(report.service, "hhm-api");
    assert_eq!(report.status, "ok");
    assert!(report.database_configured);
    assert!(!report.supabase_configured);
    assert!(report.dual_auth_configured);
    assert!(!report.visitor_qr_configured);
    assert!(!report.visitor_state_durable);
    assert!(report.demo_reservations_enabled);
    assert_eq!(report.active_visits, 0);
    assert!(health(false, false, false, &visitors(), false).visitor_qr_configured);
}

#[test]
fn settings_of_the_service_have_defaults() {
    assert_eq!(listen_address(None, None), "0.0.0.0:8080");
    assert_eq!(listen_address(setting("127.0.0.1"), setting("9000")), "127.0.0.1:9000");
    assert!(demo_reservations_enabled(&setting(" true ")));
    assert!(!demo_reservations_enabled(&setting("TRUE")));
    assert!(!demo_reservations_enabled(&setting("1")));
    assert!(!demo_reservations_enabled(&None));
    assert_eq!(database_url(setting(" postgres://db ")), setting(" postgres://db "));
    assert_eq!(database_url(setting("  ")), None);
    assert_eq!(database_url(None), None);
    assert_eq!(
        require_dual_auth(true, false),
        Err("visitor QR requires complete Shared Auth and Supabase dual-auth configuration"
            .to_owned())
    );
    assert_eq!(require_dual_auth(true, true), Ok(()));
    assert_eq!(require_dual_auth(false, false), Ok(()));
}

#[test]
fn a_socket_forwards_events_and_answers_pings() {
    assert!(matches!(
        socket_step(SocketEvent::Published("event".to_owned())),
        SocketAction::SendText(text) if text == "event"
    ));
    assert!(matches!(
        socket_step(SocketEvent::Ping(vec![1, 2])),
        SocketAction::SendPong(payload) if payload == [1, 2]
    ));
    assert!(matches!(socket_step(SocketEvent::Lagged(3)), SocketAction::NoteLag(3)));
    assert!(matches!(socket_step(SocketEvent::Chatter), SocketAction::Wait));
    assert!(matches!(socket_step(SocketEvent::Sent), SocketAction::Wait));
    assert!(matches!(socket_step(SocketEvent::SourceClosed), SocketAction::Stop));
    assert!(matches!(socket_step(SocketEvent::ClientGone), SocketAction::Stop));
    assert!(matches!(socket_step(SocketEvent::SendFailed), SocketAction::Stop));
}
