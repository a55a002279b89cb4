//! What each handler does, told of its arguments and its answer.

use crate::api::{self, Answer, Health, SocketAction, SocketEvent};
use crate::api_laws;
use crate::auth::Authorization;
use crate::moment::Timestamp;
use crate::observability::{self, LogRecord, Observability};
use crate::reply::{self, ApiError};
use crate::token::{self, QrClaims};
use crate::visitor::{
    CheckInReceipt, CheckInRequest, CheckOutReceipt, CheckOutRequest, IssueQrRequest, IssuedQr,
    VisitorAction, VisitorError, VisitorService,
};
use crate::visitor_answers;
use vstd::prelude::*;
use vstd::string::*;

verus! {

/// Health is reported part by part, each as it was found.
pub proof fn health_tells_each_part(
    database_configured: bool,
    supabase_configured: bool,
    dual_auth_configured: bool,
    visitors: &Option<VisitorService>,
    demo_reservations_enabled: bool,
    r: Health,
)
    requires
        call_ensures(
            api::health,
            (
                database_configured,
                supabase_configured,
                dual_auth_configured,
                visitors,
                demo_reservations_enabled,
            ),
            r,
        ),
    ensures
        r.service@ == "hhm-api"@,
        r.status@ == "ok"@,
        r.database_configured == database_configured,
        r.supabase_configured == supabase_configured,
        r.dual_auth_configured == dual_auth_configured,
        r.visitor_qr_configured == (*visitors is Some),
        !r.visitor_state_durable,
        r.demo_reservations_enabled == demo_reservations_enabled,
        *visitors is None ==> r.active_visits == 0,
        *visitors matches Some(service) ==> r.active_visits == visitor_answers::present(
            service.register(),
        ),
{
    api_laws::health_is_reported_part_by_part(
        r,
        database_configured,
        supabase_configured,
        dual_auth_configured,
        *visitors,
        demo_reservations_enabled,
    );
}

/// An issue begins with a path that names an action, and with authentication that is set up.
pub proof fn issues_begin_with_a_known_action(
    path: &str,
    auth_configured: bool,
    r: Result<VisitorAction, ApiError>,
)
    requires
        call_ensures(api::begin_issue, (path, auth_configured), r),
    ensures
        ({
            let known = path@ == "check-in"@ || path@ == "check-out"@;
            &&& r is Ok <==> known && auth_configured
            &&& r matches Ok(action) ==> (action == VisitorAction::CheckIn <==> path@
                == "check-in"@)
            &&& r matches Err(e) ==> e.status == (if known {
                503u16
            } else {
                422u16
            }) && e.code@ == (if known {
                "service_not_configured"@
            } else {
                "invalid_visitor_request"@
            })
        }),
{
    api_laws::issue_begins_with_a_known_action(path@, auth_configured);
    visitor_answers::actions_have_their_names(path@);
}

/// Only an authorized caller goes on. The others are told why, and so is the log.
pub proof fn authorized_callers_go_on(
    authorization: Authorization,
    r: (&'static str, Result<(), ApiError>),
)
    requires
        call_ensures(api::require_authorization, (authorization,), r),
    ensures
        r.1 is Ok <==> authorization == Authorization::Authorized,
        r.0@ == match authorization {
            Authorization::Authorized => "authorized"@,
            Authorization::Anonymous | Authorization::Unauthenticated => "unauthenticated"@,
            Authorization::Degraded => "degraded"@,
            Authorization::Forbidden => "forbidden"@,
        },
        r.1 matches Err(e) ==> e.status == match authorization {
            Authorization::Degraded => 503u16,
            Authorization::Forbidden => 403u16,
            _ => 401u16,
        },
        r.1 matches Err(e) ==> e.code@ == match authorization {
            Authorization::Degraded => "authentication_unavailable"@,
            Authorization::Forbidden => "forbidden"@,
            _ => "unauthorized"@,
        },
{
    api_laws::unauthorized_callers_are_told_why(authorization);
}

/// A QR code goes to an authorized caller only. It is for the door and the action that were asked
/// for and the minute of the moment, and is logged under the event of the action.
pub proof fn codes_go_to_authorized_callers(
    log: &Observability,
    action: VisitorAction,
    authorization: Authorization,
    visitors: &Option<VisitorService>,
    request: &IssueQrRequest,
    now: Timestamp,
    r: Answer<IssuedQr>,
)
    requires
        call_ensures(
            api::issue_visitor_qr,
            (log, action, authorization, visitors, request, now),
            r,
        ),
    ensures
        r.result matches Ok(qr) ==> {
            &&& authorization == Authorization::Authorized
            &&& *visitors is Some
            &&& visitors->Some_0.access().doors.contains(request.door_id@)
            &&& qr.action == action
            &&& qr.door_id@ == request.door_id@
            &&& qr.qr_payload@ == "hhm-visitor:"@ + token::token_text(
                visitors->Some_0.access().key,
                token::payload_of(
                    token::claims_for(request.door_id@, action, (now@.seconds / 60) as i64),
                ),
            )
            &&& qr.expires_at@.seconds == 60 * (now@.seconds / 60) + 75
            &&& qr.expires_at@.nanos == 0
            &&& r.log@.len() == 2
            &&& r.log@[1]@ == observability::visitor_entry(
                log.name(),
                if action == VisitorAction::CheckIn {
                    "visitor.check_in"@
                } else {
                    "visitor.check_out"@
                },
                "issued"@,
                request.door_id@,
            )
        },
        r.log@.len() >= 1,
        r.log@[0]@ == observability::authorization_entry(
            log.name(),
            match authorization {
                Authorization::Authorized => "authorized"@,
                Authorization::Anonymous | Authorization::Unauthenticated => "unauthenticated"@,
                Authorization::Degraded => "degraded"@,
                Authorization::Forbidden => "forbidden"@,
            },
        ),
        r.result is Err ==> r.log@.len() == 1,
        r.result matches Err(e) ==> e.status == match authorization {
            Authorization::Authorized => if *visitors is None {
                503u16
            } else if !visitors->Some_0.access().doors.contains(request.door_id@) {
                422u16
            } else {
                401u16
            },
            Authorization::Degraded => 503u16,
            Authorization::Forbidden => 403u16,
            _ => 401u16,
        },
{
    api_laws::codes_are_sent_to_authorized_callers(
        log.name(),
        action,
        authorization,
        *visitors,
        request.door_id@,
        now@,
        r,
    );
    if r.result is Ok {
        visitor_answers::codes_hold_their_token(
            visitors->Some_0.access(),
            request.door_id@,
            action,
            now@,
            r.result->Ok_0,
        );
    }
}

/// A visitor is received with a current code for checking in at that door only. One record is
/// logged of that, of the door; none of a refusal.
pub proof fn check_in_is_answered_and_logged<D: Fn(&[u8]) -> Option<QrClaims>>(
    log: &Observability,
    visitors: &mut Option<VisitorService>,
    request: CheckInRequest,
    now: Timestamp,
    decode: &D,
    r: Answer<CheckInReceipt>,
)
    requires
        call_ensures(api::visitor_check_in::<D>, (log, visitors, request, now, decode), r),
    ensures
        *old(visitors) is None ==> *final(visitors) is None && (r.result matches Err(e) && e.status
            == 503 && e.code@ == "service_not_configured"@),
        *old(visitors) matches Some(s) ==> (*final(visitors) matches Some(n) && n.access()
            == s.access()),
        r.result matches Ok(receipt) ==> {
            let before = old(visitors)->Some_0;
            let after = final(visitors)->Some_0;
            &&& *old(visitors) is Some
            &&& visitor_answers::good_code(
                before.access(),
                request.qr_token@,
                request.door_id@,
                VisitorAction::CheckIn,
                now@,
                *decode,
            )
            &&& request.privacy_notice_version@ == before.access().notice
            &&& receipt.checked_in_at@ == now@
            &&& after.register().visits.contains_key(receipt.visit_id)
            &&& after.register().visits[receipt.visit_id].checked_out_at is None
            &&& r.log@.len() == 1
            &&& r.log@[0]@ == observability::visitor_entry(
                log.name(),
                "visitor.check_in"@,
                "accepted"@,
                request.door_id@,
            )
        },
        r.result is Err ==> r.log@.len() == 0,
{
    api_laws::visitors_are_received_and_logged(
        log.name(),
        *old(visitors),
        request,
        now@,
        *decode,
        r,
        *final(visitors),
    );
    if r.result is Ok {
        visitor_answers::check_in_needs_a_current_entry_code(
            old(visitors)->Some_0.access(),
            old(visitors)->Some_0.register(),
            request,
            now@,
            *decode,
            Ok(r.result->Ok_0@),
            final(visitors)->Some_0.register(),
        );
    }
}

/// A visitor is released with a current code for checking out at that door and the receipt of
/// their open visit only. One record is logged of that, of the door; none of a refusal, which
/// changes no visit.
pub proof fn check_out_is_answered_and_logged<D: Fn(&[u8]) -> Option<QrClaims>>(
    log: &Observability,
    visitors: &mut Option<VisitorService>,
    request: CheckOutRequest,
    now: Timestamp,
    decode: &D,
    r: Answer<CheckOutReceipt>,
)
    requires
        call_ensures(api::visitor_check_out::<D>, (log, visitors, request, now, decode), r),
    ensures
        *old(visitors) is None ==> *final(visitors) is None && (r.result matches Err(e) && e.status
            == 503 && e.code@ == "service_not_configured"@),
        *old(visitors) matches Some(s) ==> (*final(visitors) matches Some(n) && n.access()
            == s.access()),
        r.result matches Ok(receipt) ==> {
            let before = old(visitors)->Some_0;
            let after = final(visitors)->Some_0;
            &&& *old(visitors) is Some
            &&& visitor_answers::good_code(
                before.access(),
                request.qr_token@,
                request.door_id@,
                VisitorAction::CheckOut,
                now@,
                *decode,
            )
            &&& receipt.visit_id == request.visit_id
            &&& receipt.checked_out_at@ == now@
            &&& before.register().visits.contains_key(request.visit_id)
            &&& before.register().visits[request.visit_id].checked_out_at is None
            &&& after.register().visits[request.visit_id].checked_out_at == Some(now@)
            &&& after.register().visits[request.visit_id].display_name is None
            &&& r.log@.len() == 1
            &&& r.log@[0]@ == observability::visitor_entry(
                log.name(),
                "visitor.check_out"@,
                "accepted"@,
                request.door_id@,
            )
        },
        r.result is Err ==> r.log@.len() == 0 && (*old(visitors) is Some
            ==> final(visitors)->Some_0.register().visits
            == old(visitors)->Some_0.register().visits),
{
    api_laws::visitors_are_released_and_logged(
        log.name(),
        *old(visitors),
        request,
        now@,
        *decode,
        r,
        *final(visitors),
    );
    if r.result is Ok {
        visitor_answers::check_out_needs_a_current_exit_code(
            old(visitors)->Some_0.access(),
            old(visitors)->Some_0.register(),
            request,
            now@,
            *decode,
            Ok(r.result->Ok_0@),
            final(visitors)->Some_0.register(),
        );
    }
}

/// A subscriber is sent each event as it was published and each ping back as it came; the end of
/// either side ends the socket.
pub proof fn sockets_step_like_this(event: SocketEvent, r: SocketAction)
    requires
        call_ensures(api::socket_step, (event,), r),
    ensures
        event matches SocketEvent::Published(sent) ==> (r matches SocketAction::SendText(out)
            && out@ == sent@),
        event matches SocketEvent::Ping(sent) ==> (r matches SocketAction::SendPong(out) && out@
            == sent@),
        event matches SocketEvent::Lagged(n) ==> (r matches SocketAction::NoteLag(m) && m == n),
        r is Wait <==> event is Chatter || event is Sent,
        r is Stop <==> event is SourceClosed || event is ClientGone || event is SendFailed,
{
}

/// The log is kept under the name of the service.
pub proof fn logs_bear_the_name_of_the_service(r: Observability)
    requires
        call_ensures(Observability::new, (), r),
    ensures
        r.name() == "hhm-api"@,
{
}

/// A step of a visitor is logged with the event, its outcome and the door.
pub proof fn steps_are_logged_as_told(
    log: &Observability,
    event: &str,
    outcome: &str,
    door_id: &str,
    r: LogRecord,
)
    requires
        call_ensures(Observability::visitor_event, (log, event, outcome, door_id), r),
    ensures
        r.app_name@ == log.name(),
        r.message@ == "visitor access transition"@,
        r@.fields =~= seq![
            ("event.name"@, event@),
            ("event.outcome"@, outcome@),
            ("door.id"@, door_id@),
        ],
{
}

/// An authorization is logged with its outcome.
pub proof fn authorizations_are_logged_as_told(log: &Observability, outcome: &str, r: LogRecord)
    requires
        call_ensures(Observability::authorization_event, (log, outcome), r),
    ensures
        r.app_name@ == log.name(),
        r.message@ == "visitor QR authorization"@,
        r@.fields =~= seq![
            ("event.name"@, "visitor.qr.authorize"@),
            ("auth.outcome"@, outcome@),
        ],
{
}

/// A refusal is made of its status, its code and its message.
pub proof fn refusals_are_made_as_told(
    status: u16,
    code: &'static str,
    message: &str,
    r: ApiError,
)
    requires
        call_ensures(reply::api_error, (status, code, message), r),
    ensures
        r.status == status,
        r.code@ == code@,
        r.message@ == message@,
{
    api_laws::refusal_is_seen_as_it_is(r);
}

/// Without visitor access, visitors are told that.
pub proof fn lacking_access_is_told(r: ApiError)
    requires
        call_ensures(reply::service_not_configured, (), r),
    ensures
        r.status == 503,
        r.code@ == "service_not_configured"@,
        r.message@ == "visitor access is not configured"@,
{
}

/// The demo goes on where it is on.
pub proof fn demo_goes_on_where_it_is_on(enabled: bool, r: Result<(), ApiError>)
    requires
        call_ensures(reply::require_demo_reservations, (enabled,), r),
    ensures
        r is Ok <==> enabled,
        r matches Err(e) ==> e.status == 403 && e.code@ == "reservation_demo_disabled"@ && e.message@
            == "reservation demo is disabled until authenticated durable storage is configured"@,
{
}

/// Visitors are told what kind of thing was wrong.
pub proof fn visitors_are_told_what_was_wrong(error: VisitorError, r: ApiError)
    requires
        call_ensures(reply::visitor_error, (error,), r),
    ensures
        r.status == match error {
            VisitorError::InvalidAction
            | VisitorError::InvalidDoor
            | VisitorError::NoticeNotAccepted
            | VisitorError::InvalidVisitorName => 422u16,
            VisitorError::InvalidQr
            | VisitorError::ExpiredQr
            | VisitorError::VisitNotFound
            | VisitorError::InvalidReceipt => 401u16,
            VisitorError::CapacityReached => 503u16,
            VisitorError::RateLimited => 429u16,
            VisitorError::AlreadyCheckedOut => 409u16,
        },
        r.code@ == match error {
            VisitorError::InvalidAction
            | VisitorError::InvalidDoor
            | VisitorError::NoticeNotAccepted
            | VisitorError::InvalidVisitorName => "invalid_visitor_request"@,
            VisitorError::InvalidQr
            | VisitorError::ExpiredQr
            | VisitorError::VisitNotFound
            | VisitorError::InvalidReceipt => "invalid_visitor_credential"@,
            VisitorError::CapacityReached => "visitor_capacity_reached"@,
            VisitorError::RateLimited => "visitor_rate_limited"@,
            VisitorError::AlreadyCheckedOut => "visitor_already_checked_out"@,
        },
{
    api_laws::errors_have_status_code_and_message(error);
}

} // verus!
