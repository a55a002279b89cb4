//! What the API answers to a request that it refuses.

use crate::visitor::VisitorError;
use vstd::prelude::*;
use vstd::string::*;

verus! {

pub const UNAUTHORIZED: u16 = 401;

pub const FORBIDDEN: u16 = 403;

pub const NOT_FOUND: u16 = 404;

pub const CONFLICT: u16 = 409;

pub const UNPROCESSABLE_ENTITY: u16 = 422;

pub const TOO_MANY_REQUESTS: u16 = 429;

pub const INTERNAL_SERVER_ERROR: u16 = 500;

pub const SERVICE_UNAVAILABLE: u16 = 503;

/// A refusal: the status of the response, and the code and the message in its body.
#[derive(Debug)]
pub struct ApiError {
    pub status: u16,
    pub code: &'static str,
    pub message: String,
}

/// A refusal with its texts as characters.
pub struct Refusal {
    pub status: u16,
    pub code: Seq<char>,
    pub message: Seq<char>,
}

impl View for ApiError {
    type V = Refusal;

    open spec fn view(&self) -> Refusal {
        Refusal { status: self.status, code: self.code@, message: self.message@ }
    }
}

/// An answer with its texts as characters.
pub open spec fn shown<T: View>(r: Result<T, ApiError>) -> Result<T::V, Refusal> {
    match r {
        Ok(value) => Ok(value@),
        Err(e) => Err(e@),
    }
}

/// A refusal with the given parts.
pub fn api_error(status: u16, code: &'static str, message: &str) -> (r: ApiError)
    ensures
        r@ == (Refusal { status, code: code@, message: message@ }),
{
    ApiError { status, code, message: message.to_owned() }
}

/// The refusal where visitor access is not set up.
pub open spec fn not_configured() -> Refusal {
    Refusal {
        status: SERVICE_UNAVAILABLE,
        code: "service_not_configured"@,
        message: "visitor access is not configured"@,
    }
}

/// The refusal where visitor access is not set up.
pub fn service_not_configured() -> (r: ApiError)
    ensures
        r@ == not_configured(),
{
    api_error(
        SERVICE_UNAVAILABLE,
        "service_not_configured",
        "visitor access is not configured",
    )
}

/// The refusal where the reservation demo is off.
pub open spec fn demo_disabled() -> Refusal {
    Refusal {
        status: FORBIDDEN,
        code: "reservation_demo_disabled"@,
        message:
            "reservation demo is disabled until authenticated durable storage is configured"@,
    }
}

/// Goes on only where the reservation demo is on.
pub fn require_demo_reservations(demo_reservations_enabled: bool) -> (r: Result<(), ApiError>)
    ensures
        match r {
            Ok(_) => demo_reservations_enabled,
            Err(e) => !demo_reservations_enabled && e@ == demo_disabled(),
        },
{
    if demo_reservations_enabled {
        Ok(())
    } else {
        Err(
            api_error(
                FORBIDDEN,
                "reservation_demo_disabled",
                "reservation demo is disabled until authenticated durable storage is configured",
            ),
        )
    }
}

/// How a visitor is told of an error. Which part of a credential was wrong stays untold.
pub open spec fn visitor_refusal(error: VisitorError) -> Refusal {
    match error {
        VisitorError::InvalidAction
        | VisitorError::InvalidDoor
        | VisitorError::NoticeNotAccepted
        | VisitorError::InvalidVisitorName => Refusal {
            status: UNPROCESSABLE_ENTITY,
            code: "invalid_visitor_request"@,
            message: "visitor request is invalid"@,
        },
        VisitorError::InvalidQr
        | VisitorError::ExpiredQr
        | VisitorError::VisitNotFound
        | VisitorError::InvalidReceipt => Refusal {
            status: UNAUTHORIZED,
            code: "invalid_visitor_credential"@,
            message: "visitor credential is invalid or expired"@,
        },
        VisitorError::CapacityReached => Refusal {
            status: SERVICE_UNAVAILABLE,
            code: "visitor_capacity_reached"@,
            message: "visitor access is temporarily unavailable"@,
        },
        VisitorError::RateLimited => Refusal {
            status: TOO_MANY_REQUESTS,
            code: "visitor_rate_limited"@,
            message: "too many visitor check-ins for this QR code"@,
        },
        VisitorError::AlreadyCheckedOut => Refusal {
            status: CONFLICT,
            code: "visitor_already_checked_out"@,
            message: "visitor is already checked out"@,
        },
    }
}

/// How a visitor is told of an error.
pub fn visitor_error(error: VisitorError) -> (r: ApiError)
    ensures
        r@ == visitor_refusal(error),
{
    match error {
        VisitorError::InvalidAction
        | VisitorError::InvalidDoor
        | VisitorError::NoticeNotAccepted
        | VisitorError::InvalidVisitorName => api_error(
            UNPROCESSABLE_ENTITY,
            "invalid_visitor_request",
            "visitor request is invalid",
        ),
        VisitorError::InvalidQr
        | VisitorError::ExpiredQr
        | VisitorError::VisitNotFound
        | VisitorError::InvalidReceipt => api_error(
            UNAUTHORIZED,
            "invalid_visitor_credential",
            "visitor credential is invalid or expired",
        ),
        VisitorError::CapacityReached => api_error(
            SERVICE_UNAVAILABLE,
            "visitor_capacity_reached",
            "visitor access is temporarily unavailable",
        ),
        VisitorError::RateLimited => api_error(
            TOO_MANY_REQUESTS,
            "visitor_rate_limited",
            "too many visitor check-ins for this QR code",
        ),
        VisitorError::AlreadyCheckedOut => api_error(
            CONFLICT,
            "visitor_already_checked_out",
            "visitor is already checked out",
        ),
    }
}

/// Whatever is wrong with a credential, the refusal is the same: a token that is forged, one that
/// ended, a visit that is not there and a receipt that is not its own cannot be told apart.
pub proof fn bad_credentials_look_alike(a: VisitorError, b: VisitorError)
    requires
        a is InvalidQr || a is ExpiredQr || a is VisitNotFound || a is InvalidReceipt,
        b is InvalidQr || b is ExpiredQr || b is VisitNotFound || b is InvalidReceipt,
    ensures
        visitor_refusal(a) == visitor_refusal(b),
{
}

} // verus!
