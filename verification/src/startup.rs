//! What the settings of the environment come to when the service starts.

use crate::text;
use vstd::prelude::*;
use vstd::string::*;

verus! {

/// The longest body of a request, in bytes.
pub const MAX_REQUEST_BODY_BYTES: usize = 65_536;

/// How many reservation events wait for a slow subscriber before the oldest is dropped.
pub const EVENT_CAPACITY: usize = 512;

/// Where the service listens when nothing else is set.
pub const DEFAULT_HOST: &'static str = "0.0.0.0";

/// The port on which the service listens when nothing else is set.
pub const DEFAULT_PORT: &'static str = "8080";

/// Visitor access without dual authentication is a fault of the setup.
pub open spec fn setup_fault(visitors_configured: bool, auth_configured: bool) -> Option<
    Seq<char>,
> {
    if visitors_configured && !auth_configured {
        Some("visitor QR requires complete Shared Auth and Supabase dual-auth configuration"@)
    } else {
        None
    }
}

/// Goes on only where visitor access, if there is any, has dual authentication beside it.
pub fn require_dual_auth(visitors_configured: bool, auth_configured: bool) -> (r: Result<
    (),
    String,
>)
    ensures
        text::fault_of(r) == setup_fault(visitors_configured, auth_configured),
{
    if visitors_configured && !auth_configured {
        return Err(
            "visitor QR requires complete Shared Auth and Supabase dual-auth configuration".to_owned(),
        );
    }
    Ok(())
}

/// Whether the reservation demo is on: only the word `true` turns it on.
pub open spec fn demo_switch(value: Option<Seq<char>>) -> bool {
    text::setting(value) == Some("true"@)
}

/// Whether the reservation demo is on.
pub fn demo_reservations_enabled(value: &Option<String>) -> (r: bool)
    ensures
        r == demo_switch(text::opt_text(*value)),
{
    match text::non_empty(value) {
        Some(value) => *value.as_str() == *"true",
        None => false,
    }
}

/// The address of the database, as it stands: absent where it is blank.
pub open spec fn address_of_database(value: Option<Seq<char>>) -> Option<Seq<char>> {
    match value {
        Some(url) if text::trimmed(url).len() > 0 => Some(url),
        _ => None,
    }
}

/// The address of the database, as it stands: absent where it is blank.
pub fn database_url(value: Option<String>) -> (r: Option<String>)
    ensures
        text::opt_text(r) == address_of_database(text::opt_text(value)),
{
    match value {
        Some(url) => if text::trim(url.as_str()).is_empty() {
            None
        } else {
            Some(url)
        },
        None => None,
    }
}

/// Where the service listens: a host and a port, each as it is set or else as by default.
pub open spec fn address(host: Option<Seq<char>>, port: Option<Seq<char>>) -> Seq<char> {
    let host = match host {
        Some(host) => host,
        None => DEFAULT_HOST@,
    };
    let port = match port {
        Some(port) => port,
        None => DEFAULT_PORT@,
    };
    host.push(':') + port
}

/// Where the service listens.
pub fn listen_address(host: Option<String>, port: Option<String>) -> (r: String)
    ensures
        r@ == address(text::opt_text(host), text::opt_text(port)),
{
    let mut out: String = match host {
        Some(host) => host,
        None => DEFAULT_HOST.to_owned(),
    };
    out.push(':');
    match port {
        Some(port) => {
            out.append(port.as_str());
        },
        None => {
            out.append(DEFAULT_PORT);
        },
    }
    out
}

/// A service that starts with visitor access has dual authentication too.
pub proof fn visitor_access_has_dual_auth(visitors_configured: bool, auth_configured: bool)
    requires
        setup_fault(visitors_configured, auth_configured) is None,
    ensures
        visitors_configured ==> auth_configured,
{
}

} // verus!
