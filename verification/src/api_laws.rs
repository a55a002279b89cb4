//! What the service answers and logs, said of the requests and the answers themselves.

use crate::api::{self, Answer, Health, SocketAction, SocketEvent};
use crate::auth::Authorization;
use crate::moment::Moment;
use crate::observability::{self, LogRecord};
use crate::reply::{self, ApiError, Refusal};
use crate::startup;
use crate::text;
use crate::token::QrClaims;
use crate::visitor::{
    self, CheckInReceipt, CheckInRequest, CheckOutReceipt, CheckOutRequest, IssuedQr,
    VisitorAction, VisitorError, VisitorService,
};
use crate::visitor_answers;
use vstd::prelude::*;
use vstd::string::*;

verus! {

/// A refusal is shown field by field.
pub proof fn refusal_is_seen_as_it_is(e: ApiError)
    ensures
        e@.status == e.status,
        e@.code == e.code@,
        e@.message == e.message@,
{
}

/// A record for the log is shown field by field.
pub proof fn log_record_is_seen_as_it_is(r: LogRecord)
    ensures
        r@.app_name == r.app_name@,
        r@.message == r.message@,
        r@.fields.len() == r.fields@.len(),
        forall|i: int|
            0 <= i < r.fields@.len() ==> #[trigger] r@.fields[i] == (
                r.fields@[i].0@,
                r.fields@[i].1@,
            ),
{
}

/// The records of a log are shown in their order, each as it is.
pub proof fn log_is_seen_as_it_is(records: Seq<LogRecord>)
    ensures
        observability::shown(records).len() == records.len(),
        forall|i: int|
            0 <= i < records.len() ==> #[trigger] observability::shown(records)[i] == records[i]@,
{
}

/// A step of a visitor is logged with the event, its outcome and the door, and nothing more.
pub proof fn steps_are_logged_with_event_outcome_and_door(
    name: Seq<char>,
    event: Seq<char>,
    outcome: Seq<char>,
    door: Seq<char>,
)
    ensures
        ({
            let entry = observability::visitor_entry(name, event, outcome, door);
            &&& entry.app_name == name
            &&& entry.message == "visitor access transition"@
            &&& entry.fields.len() == 3
            &&& entry.fields[0] == ("event.name"@, event)
            &&& entry.fields[1] == ("event.outcome"@, outcome)
            &&& entry.fields[2] == ("door.id"@, door)
        }),
{
}

/// An authorization is logged with its outcome, and nothing more.
pub proof fn authorizations_are_logged_with_their_outcome(name: Seq<char>, outcome: Seq<char>)
    ensures
        ({
            let entry = observability::authorization_entry(name, outcome);
            &&& entry.app_name == name
            &&& entry.message == "visitor QR authorization"@
            &&& entry.fields.len() == 2
            &&& entry.fields[0] == ("event.name"@, "visitor.qr.authorize"@)
            &&& entry.fields[1] == ("auth.outcome"@, outcome)
        }),
{
}

/// What visitors are told of an error: what kind of thing was wrong, and no more.
pub proof fn errors_have_status_code_and_message(e: VisitorError)
    ensures
        ({
            let told = reply::visitor_refusal(e);
            match e {
                VisitorError::InvalidAction
                | VisitorError::InvalidDoor
                | VisitorError::NoticeNotAccepted
                | VisitorError::InvalidVisitorName => {
                    &&& told.status == 422
                    &&& told.code == "invalid_visitor_request"@
                    &&& told.message == "visitor request is invalid"@
                },
                VisitorError::InvalidQr
                | VisitorError::ExpiredQr
                | VisitorError::VisitNotFound
                | VisitorError::InvalidReceipt => {
                    &&& told.status == 401
                    &&& told.code == "invalid_visitor_credential"@
                    &&& told.message == "visitor credential is invalid or expired"@
                },
                VisitorError::CapacityReached => {
                    &&& told.status == 503
                    &&& told.code == "visitor_capacity_reached"@
                    &&& told.message == "visitor access is temporarily unavailable"@
                },
                VisitorError::RateLimited => {
                    &&& told.status == 429
                    &&& told.code == "visitor_rate_limited"@
                    &&& told.message == "too many visitor check-ins for this QR code"@
                },
                VisitorError::AlreadyCheckedOut => {
                    &&& told.status == 409
                    &&& told.code == "visitor_already_checked_out"@
                    &&& told.message == "visitor is already checked out"@
                },
            }
        }),
        reply::not_configured() == (Refusal {
            status: 503,
            code: "service_not_configured"@,
            message: "visitor access is not configured"@,
        }),
{
}

/// The way to a QR code begins with a path that names an action, and with authentication that is
/// set up. An unknown path is told before anything else.
pub proof fn issue_begins_with_a_known_action(path: Seq<char>, auth_configured: bool)
    ensures
        ({
            let r = api::begun(path, auth_configured);
            &&& r == Ok::<_, Refusal>(VisitorAction::CheckIn) <==> path == "check-in"@
                && auth_configured
            &&& r == Ok::<_, Refusal>(VisitorAction::CheckOut) <==> path == "check-out"@
                && auth_configured
            &&& r matches Err(e) ==> e.status == if path == "check-in"@ || path == "check-out"@ {
                503u16
            } else {
                422u16
            }
            &&& r matches Err(e) ==> e.code == if path == "check-in"@ || path == "check-out"@ {
                "service_not_configured"@
            } else {
                "invalid_visitor_request"@
            }
        }),
{
    visitor_answers::actions_have_their_names(path);
}

/// A caller who is not authorized is told why by status and code, and so is the log.
pub proof fn unauthorized_callers_are_told_why(authorization: Authorization)
    ensures
        ({
            let refusal = api::authorization_refusal(authorization);
            let label = api::authorization_label(authorization);
            match authorization {
                Authorization::Authorized => refusal is None && label == "authorized"@,
                Authorization::Anonymous | Authorization::Unauthenticated => {
                    &&& refusal == Some(
                        Refusal {
                            status: 401,
                            code: "unauthorized"@,
                            message: "authentication required"@,
                        },
                    )
                    &&& label == "unauthenticated"@
                },
                Authorization::Degraded => {
                    &&& refusal == Some(
                        Refusal {
                            status: 503,
                            code: "authentication_unavailable"@,
                            message: "authentication is temporarily unavailable"@,
                        },
                    )
                    &&& label == "degraded"@
                },
                Authorization::Forbidden => {
                    &&& refusal == Some(
                        Refusal {
                            status: 403,
                            code: "forbidden"@,
                            message: "caller is not authorized to issue visitor QR codes"@,
                        },
                    )
                    &&& label == "forbidden"@
                },
            }
        }),
{
}

/// A QR code is sent only to a caller who is authorized, and it is the one that the visitor
/// service issues for the action and the door at that moment. Then that is logged, behind the
/// authorization, under the event of the action.
pub proof fn codes_are_sent_to_authorized_callers(
    name: Seq<char>,
    action: VisitorAction,
    authorization: Authorization,
    visitors: Option<VisitorService>,
    door: Seq<char>,
    now: Moment,
    r: Answer<IssuedQr>,
)
    requires
        api::answered_issue(name, action, authorization, visitors, door, now, r),
    ensures
        r.result matches Ok(qr) ==> {
            &&& authorization == Authorization::Authorized
            &&& visitors matches Some(service) && visitor::issued(
                service.access(),
                door,
                action,
                now,
                Ok(qr),
            )
            &&& r.log@.len() == 2
            &&& r.log@[0]@ == observability::authorization_entry(name, "authorized"@)
            &&& r.log@[1]@ == observability::visitor_entry(
                name,
                if action == VisitorAction::CheckIn {
                    "visitor.check_in"@
                } else {
                    "visitor.check_out"@
                },
                "issued"@,
                door,
            )
        },
        r.result is Err ==> r.log@.len() == 1 && r.log@[0]@ == observability::authorization_entry(
            name,
            match authorization {
                Authorization::Authorized => "authorized"@,
                Authorization::Anonymous | Authorization::Unauthenticated => "unauthenticated"@,
                Authorization::Degraded => "degraded"@,
                Authorization::Forbidden => "forbidden"@,
            },
        ),
        authorization == Authorization::Authorized && visitors is None ==> (r.result matches Err(e)
            && e.status == 503 && e.code@ == "service_not_configured"@),
        authorization == Authorization::Authorized && (visitors matches Some(service)
            && !service.access().doors.contains(door)) ==> (r.result matches Err(e) && e.status
            == 422),
        authorization == Authorization::Authorized && (visitors matches Some(service)
            && service.access().doors.contains(door)) && visitor::token_end(
            now.minute(),
        ).representable() ==> r.result is Ok,
        authorization == Authorization::Forbidden ==> (r.result matches Err(e) && e.status == 403),
        authorization == Authorization::Degraded ==> (r.result matches Err(e) && e.status == 503),
        authorization == Authorization::Anonymous || authorization
            == Authorization::Unauthenticated ==> (r.result matches Err(e) && e.status == 401),
{
    let shown = observability::shown(r.log@);
    assert(shown.len() == r.log@.len());
    assert(r.log@.len() > 0 ==> shown[0] == r.log@[0]@);
    assert(r.log@.len() > 1 ==> shown[1] == r.log@[1]@);
    unauthorized_callers_are_told_why(authorization);
}

/// A visitor is received only by a visitor service that is set up, with a code for checking in
/// that is good at the door of the request at that moment. They get the receipt of the visit
/// that was entered, and one record is logged, of the door; a refusal is not logged.
pub proof fn visitors_are_received_and_logged<D: Fn(&[u8]) -> Option<QrClaims>>(
    name: Seq<char>,
    before: Option<VisitorService>,
    request: CheckInRequest,
    now: Moment,
    decode: D,
    r: Answer<CheckInReceipt>,
    after: Option<VisitorService>,
)
    requires
        api::answered_check_in(name, before, request, now, decode, r, after),
    ensures
        before is None ==> after is None && (r.result matches Err(e) && e@
            == reply::not_configured()),
        before matches Some(s) ==> (after matches Some(n) && n.access() == s.access()),
        r.result matches Ok(receipt) ==> {
            &&& before is Some
            &&& visitor::checked_in(
                before->Some_0.access(),
                before->Some_0.register(),
                request,
                now,
                decode,
                Ok(receipt@),
                after->Some_0.register(),
            )
            &&& visitor_answers::good_code(
                before->Some_0.access(),
                request.qr_token@,
                request.door_id@,
                VisitorAction::CheckIn,
                now,
                decode,
            )
            &&& receipt.checked_in_at@ == now
            &&& r.log@.len() == 1
            &&& r.log@[0]@ == observability::visitor_entry(
                name,
                "visitor.check_in"@,
                "accepted"@,
                request.door_id@,
            )
        },
        r.result matches Err(e) ==> r.log@.len() == 0 && (before is None || exists|
            error: VisitorError,
        |
            e@ == #[trigger] reply::visitor_refusal(error) && visitor::checked_in(
                before->Some_0.access(),
                before->Some_0.register(),
                request,
                now,
                decode,
                Err(error),
                after->Some_0.register(),
            )),
{
    let shown = observability::shown(r.log@);
    assert(shown.len() == r.log@.len());
    assert(r.log@.len() > 0 ==> shown[0] == r.log@[0]@);
    if before is Some {
        let answer = choose|answer: Result<visitor::Admission, VisitorError>|
            {
                &&& #[trigger] visitor::checked_in(
                    before->Some_0.access(),
                    before->Some_0.register(),
                    request,
                    now,
                    decode,
                    answer,
                    after->Some_0.register(),
                )
                &&& reply::shown(r.result) == api::told(answer)
            };
        visitor_answers::check_in_needs_a_current_entry_code(
            before->Some_0.access(),
            before->Some_0.register(),
            request,
            now,
            decode,
            answer,
            after->Some_0.register(),
        );
        if r.result is Err {
            assert(r.result->Err_0@ == reply::visitor_refusal(answer->Err_0));
        }
    }
}

/// A visitor is released only by a visitor service that is set up, with a code for checking out
/// that is good at the door of the request at that moment. One record is logged of that, of the
/// door; a refusal is not logged and leaves every visit as it was.
pub proof fn visitors_are_released_and_logged<D: Fn(&[u8]) -> Option<QrClaims>>(
    name: Seq<char>,
    before: Option<VisitorService>,
    request: CheckOutRequest,
    now: Moment,
    decode: D,
    r: Answer<CheckOutReceipt>,
    after: Option<VisitorService>,
)
    requires
        api::answered_check_out(name, before, request, now, decode, r, after),
    ensures
        before is None ==> after is None && (r.result matches Err(e) && e@
            == reply::not_configured()),
        before matches Some(s) ==> (after matches Some(n) && n.access() == s.access()),
        r.result matches Ok(receipt) ==> {
            &&& before is Some
            &&& visitor::checked_out(
                before->Some_0.access(),
                before->Some_0.register(),
                request,
                now,
                decode,
                Ok(receipt@),
                after->Some_0.register(),
            )
            &&& visitor_answers::good_code(
                before->Some_0.access(),
                request.qr_token@,
                request.door_id@,
                VisitorAction::CheckOut,
                now,
                decode,
            )
            &&& receipt.visit_id == request.visit_id
            &&& receipt.checked_out_at@ == now
            &&& r.log@.len() == 1
            &&& r.log@[0]@ == observability::visitor_entry(
                name,
                "visitor.check_out"@,
                "accepted"@,
                request.door_id@,
            )
        },
        r.result matches Err(e) ==> r.log@.len() == 0 && (before is None || (
        after->Some_0.register().visits == before->Some_0.register().visits && exists|
            error: VisitorError,
        |
            e@ == #[trigger] reply::visitor_refusal(error) && visitor::checked_out(
                before->Some_0.access(),
                before->Some_0.register(),
                request,
                now,
                decode,
                Err(error),
                after->Some_0.register(),
            ))),
{
    let shown = observability::shown(r.log@);
    assert(shown.len() == r.log@.len());
    assert(r.log@.len() > 0 ==> shown[0] == r.log@[0]@);
    if before is Some {
        let answer = choose|answer: Result<visitor::Release, VisitorError>|
            {
                &&& #[trigger] visitor::checked_out(
                    before->Some_0.access(),
                    before->Some_0.register(),
                    request,
                    now,
                    decode,
                    answer,
                    after->Some_0.register(),
                )
                &&& reply::shown(r.result) == api::told(answer)
            };
        visitor_answers::check_out_needs_a_current_exit_code(
            before->Some_0.access(),
            before->Some_0.register(),
            request,
            now,
            decode,
            answer,
            after->Some_0.register(),
        );
        if r.result is Err {
            assert(r.result->Err_0@ == reply::visitor_refusal(answer->Err_0));
        }
    }
}

/// The report on the service says of each part whether it is set up, that visitor state does not
/// outlast the process, and how many visits have not been checked out.
pub proof fn health_is_reported_part_by_part(
    r: Health,
    database_configured: bool,
    supabase_configured: bool,
    dual_auth_configured: bool,
    visitors: Option<VisitorService>,
    demo_reservations_enabled: bool,
)
    requires
        api::reported(
            r,
            database_configured,
            supabase_configured,
            dual_auth_configured,
            visitors,
            demo_reservations_enabled,
        ),
    ensures
        r.service@ == "hhm-api"@,
        r.status@ == "ok"@,
        r.database_configured == database_configured,
        r.supabase_configured == supabase_configured,
        r.dual_auth_configured == dual_auth_configured,
        r.visitor_qr_configured <==> visitors is Some,
        r.visitor_state_durable == false,
        r.demo_reservations_enabled == demo_reservations_enabled,
        visitors is None ==> r.active_visits == 0,
        visitors matches Some(service) ==> r.active_visits == visitor_answers::present(
            service.register(),
        ),
{
    if visitors is Some {
        visitor_answers::open_visits_are_those_not_checked_out(visitors->Some_0.register());
    }
}

/// A subscriber is sent each event as it was published, and each ping back as it came. That they
/// lagged is noted and does not end the socket; the end of either side does.
pub proof fn sockets_forward_and_answer(event: SocketEvent, r: SocketAction)
    requires
        api::reaction(event, r),
    ensures
        event matches SocketEvent::Published(sent) ==> (r matches SocketAction::SendText(out)
            && out@ == sent@),
        event matches SocketEvent::Ping(sent) ==> (r matches SocketAction::SendPong(out) && out@
            == sent@),
        event matches SocketEvent::Lagged(n) ==> (r matches SocketAction::NoteLag(m) && m == n),
        r is SendText <==> event is Published,
        r is SendPong <==> event is Ping,
        r is NoteLag <==> event is Lagged,
        r is Wait <==> event is Chatter || event is Sent,
        r is Stop <==> event is SourceClosed || event is ClientGone || event is SendFailed,
{
}

/// The demo is on only by the word `true`, whatever white space stands around it.
pub proof fn demo_is_on_by_one_word(value: Option<Seq<char>>)
    ensures
        startup::demo_switch(value) <==> (value matches Some(raw) && text::trimmed(raw) == "true"@),
{
    reveal_strlit("true");
}

/// The database is the one that is set, letter for letter, unless that is blank.
pub proof fn database_is_the_one_set(value: Option<Seq<char>>)
    ensures
        startup::address_of_database(value) is Some <==> (value matches Some(raw) && text::trimmed(
            raw,
        ).len() > 0),
        startup::address_of_database(value) is Some ==> startup::address_of_database(value)
            == value,
{
}

/// The service listens where the settings say, or else on every address at port 8080.
pub proof fn service_listens_where_it_is_set(host: Option<Seq<char>>, port: Option<Seq<char>>)
    ensures
        startup::address(host, port) == (if host is Some {
            host->Some_0
        } else {
            "0.0.0.0"@
        }) + seq![':'] + (if port is Some {
            port->Some_0
        } else {
            "8080"@
        }),
{
    let h = if host is Some {
        host->Some_0
    } else {
        "0.0.0.0"@
    };
    let p = if port is Some {
        port->Some_0
    } else {
        "8080"@
    };
    assert(startup::address(host, port) =~= h + seq![':'] + p);
}

/// The service does not start with visitor access and without dual authentication, and starts in
/// every other case.
pub proof fn visitor_access_alone_is_a_fault(visitors_configured: bool, auth_configured: bool)
    ensures
        startup::setup_fault(visitors_configured, auth_configured) is Some <==> visitors_configured
            && !auth_configured,
        startup::setup_fault(visitors_configured, auth_configured) is Some ==> startup::setup_fault(
            visitors_configured,
            auth_configured,
        )->Some_0
            == "visitor QR requires complete Shared Auth and Supabase dual-auth configuration"@,
        startup::MAX_REQUEST_BODY_BYTES == 64 * 1024,
        startup::EVENT_CAPACITY == 512,
        observability::APP_NAME@ == "hhm-api"@,
{
}

} // verus!
