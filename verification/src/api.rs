//! What the service does with a request: the decisions between the calls to the outside.

use crate::auth::{self, AuthOutcome, Authorization};
use crate::identity::Identity;
use crate::moment::{Moment, Timestamp};
use crate::observability::{self, LogRecord, Observability};
use crate::reply::{self, ApiError, Refusal};
use crate::token::QrClaims;
use crate::visitor::{
    self, CheckInReceipt, CheckInRequest, CheckOutReceipt, CheckOutRequest, IssueQrRequest,
    IssuedQr, VisitorAction, VisitorError, VisitorService,
};
use vstd::prelude::*;
use vstd::string::*;

verus! {

/// What is answered to a request, and what is logged of it.
#[derive(Debug)]
pub struct Answer<T> {
    pub log: Vec<LogRecord>,
    pub result: Result<T, ApiError>,
}

/// How the service is doing.
#[derive(Debug)]
pub struct Health {
    pub service: &'static str,
    pub status: &'static str,
    pub database_configured: bool,
    pub supabase_configured: bool,
    pub dual_auth_configured: bool,
    pub visitor_qr_configured: bool,
    pub visitor_state_durable: bool,
    pub demo_reservations_enabled: bool,
    pub active_visits: usize,
}

/// The service `visitors`, if there is one, is well formed.
pub open spec fn sound(visitors: Option<VisitorService>) -> bool {
    visitors matches Some(service) ==> service.wf()
}

/// Whether `r` says how the service is doing.
pub open spec fn reported(
    r: Health,
    database_configured: bool,
    supabase_configured: bool,
    dual_auth_configured: bool,
    visitors: Option<VisitorService>,
    demo_reservations_enabled: bool,
) -> bool {
    &&& r.service@ == "hhm-api"@
    &&& r.status@ == "ok"@
    &&& r.database_configured == database_configured
    &&& r.supabase_configured == supabase_configured
    &&& r.dual_auth_configured == dual_auth_configured
    &&& r.visitor_qr_configured == visitors is Some
    &&& !r.visitor_state_durable
    &&& r.demo_reservations_enabled == demo_reservations_enabled
    &&& r.active_visits == match visitors {
        Some(service) => visitor::open_visits(service.register().visits),
        None => 0,
    }
}

/// How the service is doing.
pub fn health(
    database_configured: bool,
    supabase_configured: bool,
    dual_auth_configured: bool,
    visitors: &Option<VisitorService>,
    demo_reservations_enabled: bool,
) -> (r: Health)
    requires
        sound(*visitors),
    ensures
        reported(
            r,
            database_configured,
            supabase_configured,
            dual_auth_configured,
            *visitors,
            demo_reservations_enabled,
        ),
{
    let active_visits: usize = match visitors {
        Some(service) => service.active_visit_count(),
        None => 0,
    };
    Health {
        service: "hhm-api",
        status: "ok",
        database_configured,
        supabase_configured,
        dual_auth_configured,
        visitor_qr_configured: visitors.is_some(),
        visitor_state_durable: false,
        demo_reservations_enabled,
        active_visits,
    }
}

/// The action that a path names, where authentication is set up.
pub open spec fn begun(path: Seq<char>, auth_configured: bool) -> Result<VisitorAction, Refusal> {
    match visitor::named_action(path) {
        Err(e) => Err(reply::visitor_refusal(e)),
        Ok(action) => if auth_configured {
            Ok(action)
        } else {
            Err(reply::not_configured())
        },
    }
}

/// What is asked for before the caller's authentication is: an action that exists, and
/// authentication that is set up.
pub fn begin_issue(action: &str, auth_configured: bool) -> (r: Result<VisitorAction, ApiError>)
    ensures
        match (r, begun(action@, auth_configured)) {
            (Ok(named), Ok(expected)) => named == expected,
            (Err(e), Err(refusal)) => e@ == refusal,
            _ => false,
        },
{
    let action: VisitorAction = match VisitorAction::parse(action) {
        Ok(action) => action,
        Err(e) => {
            return Err(reply::visitor_error(e));
        },
    };
    if !auth_configured {
        return Err(reply::service_not_configured());
    }
    Ok(action)
}

/// The outcome that is logged of an authorization.
pub open spec fn authorization_label(authorization: Authorization) -> Seq<char> {
    match authorization {
        Authorization::Authorized => "authorized"@,
        Authorization::Anonymous | Authorization::Unauthenticated => "unauthenticated"@,
        Authorization::Degraded => "degraded"@,
        Authorization::Forbidden => "forbidden"@,
    }
}

/// The refusal to a caller who is not authorized.
pub open spec fn authorization_refusal(authorization: Authorization) -> Option<Refusal> {
    match authorization {
        Authorization::Authorized => None,
        Authorization::Anonymous | Authorization::Unauthenticated => Some(
            Refusal {
                status: reply::UNAUTHORIZED,
                code: "unauthorized"@,
                message: "authentication required"@,
            },
        ),
        Authorization::Degraded => Some(
            Refusal {
                status: reply::SERVICE_UNAVAILABLE,
                code: "authentication_unavailable"@,
                message: "authentication is temporarily unavailable"@,
            },
        ),
        Authorization::Forbidden => Some(
            Refusal {
                status: reply::FORBIDDEN,
                code: "forbidden"@,
                message: "caller is not authorized to issue visitor QR codes"@,
            },
        ),
    }
}

/// Goes on only where the caller is authorized, and says what is logged of that.
pub fn require_authorization(authorization: Authorization) -> (r: (&'static str, Result<
    (),
    ApiError,
>))
    ensures
        r.0@ == authorization_label(authorization),
        match (r.1, authorization_refusal(authorization)) {
            (Ok(_), None) => true,
            (Err(e), Some(refusal)) => e@ == refusal,
            _ => false,
        },
{
    match authorization {
        Authorization::Authorized => ("authorized", Ok(())),
        Authorization::Anonymous | Authorization::Unauthenticated => (
            "unauthenticated",
            Err(reply::api_error(reply::UNAUTHORIZED, "unauthorized", "authentication required")),
        ),
        Authorization::Degraded => (
            "degraded",
            Err(
                reply::api_error(
                    reply::SERVICE_UNAVAILABLE,
                    "authentication_unavailable",
                    "authentication is temporarily unavailable",
                ),
            ),
        ),
        Authorization::Forbidden => (
            "forbidden",
            Err(
                reply::api_error(
                    reply::FORBIDDEN,
                    "forbidden",
                    "caller is not authorized to issue visitor QR codes",
                ),
            ),
        ),
    }
}

/// Whether `r` is what is answered, and logged under `name`, to a caller who asks for a QR code
/// for `action` at `door`.
pub open spec fn answered_issue(
    name: Seq<char>,
    action: VisitorAction,
    authorization: Authorization,
    visitors: Option<VisitorService>,
    door: Seq<char>,
    now: Moment,
    r: Answer<IssuedQr>,
) -> bool {
    let log = observability::shown(r.log@);
    let first = observability::authorization_entry(name, authorization_label(authorization));
    match (authorization_refusal(authorization), visitors) {
        (Some(refusal), _) => {
            log == seq![first] && (r.result matches Err(e) && e@ == refusal)
        },
        (None, None) => {
            log == seq![first] && (r.result matches Err(e) && e@ == reply::not_configured())
        },
        (None, Some(service)) => exists|answer: Result<IssuedQr, VisitorError>|
            {
                &&& #[trigger] visitor::issued(service.access(), door, action, now, answer)
                &&& match (answer, r.result) {
                    (Ok(qr), Ok(sent)) => {
                        &&& sent == qr
                        &&& log == seq![
                            first,
                            observability::visitor_entry(
                                name,
                                action.event_name(),
                                "issued"@,
                                door,
                            ),
                        ]
                    },
                    (Err(error), Err(e)) => {
                        &&& e@ == reply::visitor_refusal(error)
                        &&& log == seq![first]
                    },
                    _ => false,
                }
            },
    }
}

/// Issues a QR code to a caller who is authorized.
pub fn issue_visitor_qr(
    observability: &Observability,
    action: VisitorAction,
    authorization: Authorization,
    visitors: &Option<VisitorService>,
    request: &IssueQrRequest,
    now: Timestamp,
) -> (r: Answer<IssuedQr>)
    ensures
        answered_issue(
            observability.name(),
            action,
            authorization,
            *visitors,
            request.door_id@,
            now@,
            r,
        ),
{
    let (label, verdict): (&'static str, Result<(), ApiError>) = require_authorization(
        authorization,
    );
    let mut log: Vec<LogRecord> = Vec::new();
    log.push(observability.authorization_event(label));
    proof {
        assert(observability::shown(log@) =~= seq![
            observability::authorization_entry(
                observability.name(),
                authorization_label(authorization),
            ),
        ]);
    }
    match verdict {
        Ok(_) => {},
        Err(e) => {
            return Answer { log, result: Err(e) };
        },
    }
    match visitors {
        None => Answer { log, result: Err(reply::service_not_configured()) },
        Some(service) => {
            let answer: Result<IssuedQr, VisitorError> = service.issue(
                request.door_id.as_str(),
                action,
                now,
            );
            proof {
                assert(visitor::issued(
                    service.access(),
                    request.door_id@,
                    action,
                    now@,
                    answer,
                ));
            }
            match answer {
                Ok(qr) => {
                    log.push(
                        observability.visitor_event(
                            action.as_event_name(),
                            "issued",
                            request.door_id.as_str(),
                        ),
                    );
                    proof {
                        assert(observability::shown(log@) =~= seq![
                            observability::authorization_entry(
                                observability.name(),
                                authorization_label(authorization),
                            ),
                            observability::visitor_entry(
                                observability.name(),
                                action.event_name(),
                                "issued"@,
                                request.door_id@,
                            ),
                        ]);
                    }
                    Answer { log, result: Ok(qr) }
                },
                Err(e) => Answer { log, result: Err(reply::visitor_error(e)) },
            }
        },
    }
}

/// The log of a visitor's request: one record where it was accepted.
pub open spec fn accepted_log(
    accepted: bool,
    name: Seq<char>,
    action: VisitorAction,
    door: Seq<char>,
) -> Seq<observability::Entry> {
    if accepted {
        seq![observability::visitor_entry(name, action.event_name(), "accepted"@, door)]
    } else {
        Seq::empty()
    }
}

/// Whether `r` and `after` are what is answered, and logged under `name`, to a visitor who asks to
/// check in, and the visitor service afterwards.
pub open spec fn answered_check_in<D: Fn(&[u8]) -> Option<QrClaims>>(
    name: Seq<char>,
    before: Option<VisitorService>,
    request: CheckInRequest,
    now: Moment,
    decode: D,
    r: Answer<CheckInReceipt>,
    after: Option<VisitorService>,
) -> bool {
    &&& observability::shown(r.log@) == accepted_log(
        r.result is Ok,
        name,
        VisitorAction::CheckIn,
        request.door_id@,
    )
    &&& match (before, after) {
        (None, None) => r.result matches Err(e) && e@ == reply::not_configured(),
        (Some(before), Some(after)) => {
            &&& after.access() == before.access()
            &&& exists|answer: Result<visitor::Admission, VisitorError>|
                {
                    &&& #[trigger] visitor::checked_in(
                        before.access(),
                        before.register(),
                        request,
                        now,
                        decode,
                        answer,
                        after.register(),
                    )
                    &&& reply::shown(r.result) == told(answer)
                }
        },
        _ => false,
    }
}

/// Checks a visitor in. The payload of the token is read by `decode`.
pub fn visitor_check_in<D: Fn(&[u8]) -> Option<QrClaims>>(
    observability: &Observability,
    visitors: &mut Option<VisitorService>,
    request: CheckInRequest,
    now: Timestamp,
    decode: &D,
) -> (r: Answer<CheckInReceipt>)
    requires
        sound(*old(visitors)),
        *old(visitors) matches Some(service) ==> (visitor::may_reach_visits(
            service.access(),
            service.register(),
            request,
            now@,
            *decode,
        ) ==> now@.earlier(3600 * visitor::CLOSED_VISIT_RETENTION_HOURS as int).representable()),
        forall|payload: &[u8]| call_requires(*decode, (payload,)),
    ensures
        sound(*final(visitors)),
        answered_check_in(
            observability.name(),
            *old(visitors),
            request,
            now@,
            *decode,
            r,
            *final(visitors),
        ),
{
    let mut log: Vec<LogRecord> = Vec::new();
    let door_id: String = request.door_id.clone();
    let answer: Result<CheckInReceipt, VisitorError> = match visitors {
        None => {
            proof {
                assert(observability::shown(log@) =~= Seq::<observability::Entry>::empty());
            }
            return Answer { log, result: Err(reply::service_not_configured()) };
        },
        Some(service) => service.check_in(request, now, decode),
    };
    let ghost given = visitor::shown(answer);
    proof {
        assert(visitor::checked_in(
            old(visitors)->Some_0.access(),
            old(visitors)->Some_0.register(),
            request,
            now@,
            *decode,
            given,
            visitors->Some_0.register(),
        ));
    }
    match answer {
        Ok(receipt) => {
            log.push(
                observability.visitor_event("visitor.check_in", "accepted", door_id.as_str()),
            );
            proof {
                assert(told(given) == Ok::<_, Refusal>(receipt@));
                assert(observability::shown(log@) =~= accepted_log(
                    true,
                    observability.name(),
                    VisitorAction::CheckIn,
                    request.door_id@,
                ));
            }
            Answer { log, result: Ok(receipt) }
        },
        Err(e) => {
            proof {
                assert(told(given) == Err::<visitor::Admission, _>(reply::visitor_refusal(e)));
                assert(observability::shown(log@) =~= Seq::<observability::Entry>::empty());
            }
            Answer { log, result: Err(reply::visitor_error(e)) }
        },
    }
}

/// How an answer of the visitor service is told.
pub open spec fn told<T>(answer: Result<T, VisitorError>) -> Result<T, Refusal> {
    match answer {
        Ok(value) => Ok(value),
        Err(e) => Err(reply::visitor_refusal(e)),
    }
}

/// Whether `r` and `after` are what is answered, and logged under `name`, to a visitor who asks to
/// check out, and the visitor service afterwards.
pub open spec fn answered_check_out<D: Fn(&[u8]) -> Option<QrClaims>>(
    name: Seq<char>,
    before: Option<VisitorService>,
    request: CheckOutRequest,
    now: Moment,
    decode: D,
    r: Answer<CheckOutReceipt>,
    after: Option<VisitorService>,
) -> bool {
    &&& observability::shown(r.log@) == accepted_log(
        r.result is Ok,
        name,
        VisitorAction::CheckOut,
        request.door_id@,
    )
    &&& match (before, after) {
        (None, None) => r.result matches Err(e) && e@ == reply::not_configured(),
        (Some(before), Some(after)) => {
            &&& after.access() == before.access()
            &&& exists|answer: Result<visitor::Release, VisitorError>|
                {
                    &&& #[trigger] visitor::checked_out(
                        before.access(),
                        before.register(),
                        request,
                        now,
                        decode,
                        answer,
                        after.register(),
                    )
                    &&& reply::shown(r.result) == told(answer)
                }
        },
        _ => false,
    }
}

/// Checks a visitor out. The payload of the token is read by `decode`.
pub fn visitor_check_out<D: Fn(&[u8]) -> Option<QrClaims>>(
    observability: &Observability,
    visitors: &mut Option<VisitorService>,
    request: CheckOutRequest,
    now: Timestamp,
    decode: &D,
) -> (r: Answer<CheckOutReceipt>)
    requires
        sound(*old(visitors)),
        forall|payload: &[u8]| call_requires(*decode, (payload,)),
    ensures
        sound(*final(visitors)),
        answered_check_out(
            observability.name(),
            *old(visitors),
            request,
            now@,
            *decode,
            r,
            *final(visitors),
        ),
{
    let mut log: Vec<LogRecord> = Vec::new();
    let door_id: String = request.door_id.clone();
    let answer: Result<CheckOutReceipt, VisitorError> = match visitors {
        None => {
            proof {
                assert(observability::shown(log@) =~= Seq::<observability::Entry>::empty());
            }
            return Answer { log, result: Err(reply::service_not_configured()) };
        },
        Some(service) => service.check_out(request, now, decode),
    };
    let ghost given = visitor::shown(answer);
    match answer {
        Ok(receipt) => {
            log.push(
                observability.visitor_event("visitor.check_out", "accepted", door_id.as_str()),
            );
            proof {
                assert(told(given) == Ok::<_, Refusal>(receipt@));
                assert(observability::shown(log@) =~= accepted_log(
                    true,
                    observability.name(),
                    VisitorAction::CheckOut,
                    request.door_id@,
                ));
            }
            Answer { log, result: Ok(receipt) }
        },
        Err(e) => {
            proof {
                assert(told(given) == Err::<visitor::Release, _>(reply::visitor_refusal(e)));
                assert(observability::shown(log@) =~= Seq::<observability::Entry>::empty());
            }
            Answer { log, result: Err(reply::visitor_error(e)) }
        },
    }
}

/// What happens on the socket of a subscriber.
#[derive(Debug)]
pub enum SocketEvent {
    /// A reservation was made.
    Published(String),
    /// The subscriber was too slow: so many events were dropped.
    Lagged(u64),
    /// No event will come any more.
    SourceClosed,
    /// The client asks whether the service is there.
    Ping(Vec<u8>),
    /// The client sent something else.
    Chatter,
    /// The client closed the socket, or it broke.
    ClientGone,
    /// What was to be sent went out.
    Sent,
    /// What was to be sent did not go out.
    SendFailed,
}

/// What to do on the socket of a subscriber.
#[derive(Debug)]
pub enum SocketAction {
    SendText(String),
    SendPong(Vec<u8>),
    NoteLag(u64),
    Wait,
    Stop,
}

/// Whether `r` is what to do when `event` happened.
pub open spec fn reaction(event: SocketEvent, r: SocketAction) -> bool {
    match event {
        SocketEvent::Published(text) => r == SocketAction::SendText(text),
        SocketEvent::Lagged(skipped) => r == SocketAction::NoteLag(skipped),
        SocketEvent::Ping(payload) => r == SocketAction::SendPong(payload),
        SocketEvent::Chatter | SocketEvent::Sent => r is Wait,
        SocketEvent::SourceClosed | SocketEvent::ClientGone | SocketEvent::SendFailed => r is Stop,
    }
}

/// What to do when `event` happened: events go out as they come, a ping is answered by what it
/// held, and the end of either side ends the socket.
pub fn socket_step(event: SocketEvent) -> (r: SocketAction)
    ensures
        reaction(event, r),
{
    match event {
        SocketEvent::Published(text) => SocketAction::SendText(text),
        SocketEvent::Lagged(skipped) => SocketAction::NoteLag(skipped),
        SocketEvent::Ping(payload) => SocketAction::SendPong(payload),
        SocketEvent::Chatter | SocketEvent::Sent => SocketAction::Wait,
        SocketEvent::SourceClosed | SocketEvent::ClientGone | SocketEvent::SendFailed =>
            SocketAction::Stop,
    }
}

/// Nobody gets a QR code but a caller who was authenticated and is on the allowlist.
pub proof fn only_listed_callers_get_codes(issuers: Set<Identity>, outcome: AuthOutcome)
    ensures
        authorization_refusal(auth::authorization_for(issuers, outcome)) is None <==> exists|
            caller: Identity,
        |
            issuers.contains(caller) && caller.valid() && #[trigger] auth::authenticates(
                outcome,
                caller,
            ),
{
    auth::only_listed_identities_are_authorized(issuers, outcome);
}

/// While authentication is degraded, every caller is refused as if the service were away.
pub proof fn degraded_authentication_fails_closed(issuers: Set<Identity>)
    ensures
        ({
            let refusal = authorization_refusal(
                auth::authorization_for(issuers, AuthOutcome::Degraded),
            );
            refusal is Some && refusal->Some_0.status == reply::SERVICE_UNAVAILABLE
        }),
{
}

} // verus!
