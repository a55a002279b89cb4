//! What each call that reads the settings does, told of its arguments and its result.

use crate::auth::{
    self, AuthEnvironment, AuthOutcome, Authorization, DualAuth, GuardSettings, IdentityKey,
};
use crate::cors::{self, CorsError, CorsFault};
use crate::identity::Identity;
use crate::presence_answers;
use crate::settings_laws;
use crate::startup;
use crate::table::KeySet;
use crate::text;
use crate::uri::{self, UriParts};
use vstd::prelude::*;
use vstd::string::*;

verus! {

/// A key has the provider, the tenant and the subject that were given; there is one exactly where
/// these are within their bounds.
pub proof fn keys_are_who_was_verified(
    provider: &str,
    tenant: &str,
    subject: &str,
    r: Option<IdentityKey>,
)
    requires
        call_ensures(IdentityKey::from_verified_identity, (provider, tenant, subject), r),
    ensures
        r matches Some(key) ==> key.provider@ == provider@ && key.tenant@ == tenant@
            && key.subject@ == subject@,
        r is Some <==> {
            &&& presence_answers::clean(provider@) && text::byte_len(provider@) <= 64
            &&& presence_answers::clean(tenant@) && text::byte_len(tenant@) <= 255
            &&& presence_answers::clean(subject@) && text::byte_len(subject@) <= 512
        },
{
    presence_answers::identity_parts_are_bounded(
        Identity { provider: provider@, tenant: tenant@, subject: subject@ },
    );
}

/// An entry of the allowlist is read as the identity that it names.
pub proof fn entries_are_read_as_they_name(entry: &str, r: Result<IdentityKey, String>)
    requires
        call_ensures(auth::parse_identity_entry, (entry,), r),
    ensures
        r is Ok <==> settings_laws::proper(entry@),
        r matches Ok(key) ==> settings_laws::names(entry@, key@) && key@.valid(),
{
    if r is Ok {
        settings_laws::entries_name_identities(entry@, r->Ok_0@);
    }
    if settings_laws::proper(entry@) {
        let who = choose|who: Identity| #[trigger]
            settings_laws::names(entry@, who) && who.valid();
        settings_laws::entries_name_identities(entry@, who);
    }
}

/// The allowlist is read as those that its entries name, and no others.
pub proof fn allowlists_are_read_as_they_name(
    raw: &str,
    r: Result<KeySet<IdentityKey>, String>,
)
    requires
        call_ensures(auth::parse_identity_allowlist, (raw,), r),
    ensures
        r is Ok <==> text::entries(raw@).len() > 0 && forall|i: int|
            0 <= i < text::entries(raw@).len() ==> settings_laws::proper(
                #[trigger] text::entries(raw@)[i],
            ),
        r matches Ok(listed) ==> forall|who: Identity| #[trigger]
            listed@.contains(who) <==> exists|i: int|
                0 <= i < text::entries(raw@).len() && settings_laws::names(
                    #[trigger] text::entries(raw@)[i],
                    who,
                ) && who.valid(),
{
    settings_laws::allowlist_holds_those_it_names(raw@);
    if r is Ok {
        let listed = r->Ok_0@;
        assert(auth::allowlist(raw@) == Ok::<_, Seq<char>>(listed));
        let named = auth::allowlist(raw@)->Ok_0;
        assert forall|who: Identity| #[trigger] listed.contains(who) <==> exists|i: int|
            0 <= i < text::entries(raw@).len() && settings_laws::names(
                #[trigger] text::entries(raw@)[i],
                who,
            ) && who.valid() by {
            assert(named.contains(who) == listed.contains(who));
            if named.contains(who) {
                let i = choose|i: int|
                    0 <= i < text::entries(raw@).len() && settings_laws::names(
                        #[trigger] text::entries(raw@)[i],
                        who,
                    ) && who.valid();
                assert(settings_laws::names(text::entries(raw@)[i], who));
            }
        }
    }
}

/// An identifier goes on within its bounds, and is otherwise told by its name.
pub proof fn identifiers_go_on_within_bounds(
    name: &str,
    value: &str,
    maximum: usize,
    r: Result<(), String>,
)
    requires
        call_ensures(auth::validate_identifier, (name, value, maximum), r),
    ensures
        r is Ok <==> 1 <= value@.len() && text::byte_len(value@) <= maximum && !value@.contains('|')
            && !text::has_control(value@),
        r matches Err(e) ==> e@ == name@ + " is invalid"@,
{
    settings_laws::wrong_identifiers_are_told(name@, value@, maximum as nat);
}

/// An address goes on over HTTPS, and over plain HTTP on this machine only.
pub proof fn addresses_go_on_where_safe(
    name: &str,
    parsed: &Option<UriParts>,
    r: Result<(), String>,
)
    requires
        call_ensures(auth::check_remote_uri, (name, parsed), r),
    ensures
        r is Ok <==> (*parsed matches Some(parts) && parts.has_authority && (text::opt_text(
            parts.scheme,
        ) == Some("https"@) || (text::opt_text(parts.scheme) == Some("http"@) && (text::opt_text(
            parts.host,
        ) == Some("localhost"@) || text::opt_text(parts.host) == Some("127.0.0.1"@)
            || text::opt_text(parts.host) == Some("[::1]"@) || text::opt_text(parts.host) == Some(
            "::1"@,
        ))))),
        r matches Err(e) ==> e@ == name@ + (if *parsed is None {
            " must be an absolute URL"@
        } else {
            " must use HTTPS, except for explicit loopback development"@
        }),
{
    settings_laws::authorities_are_called_safely(name@, uri::opt_parts(*parsed));
}

/// A text goes on as an address exactly where what it reads as does.
pub proof fn addresses_are_judged_as_they_read(name: &str, value: &str, r: Result<(), String>)
    requires
        call_ensures(auth::validate_remote_url, (name, value), r),
    ensures
        r is Ok <==> auth::remote_fault(name@, uri::uri_of(value@)) is None,
        r matches Err(e) ==> auth::remote_fault(name@, uri::uri_of(value@)) == Some(e@),
{
}

/// Dual authentication is off without any setting. It is on only with all of them; then those
/// whom the allowlist names may issue, and the guard has each setting in its own place.
pub proof fn dual_auth_is_read_from_its_settings(
    environment: &AuthEnvironment,
    r: Result<Option<DualAuth>, String>,
)
    requires
        call_ensures(DualAuth::from_environment, (environment,), r),
    ensures
        (r is Ok && r->Ok_0 is None) <==> settings_laws::blank(environment@),
        r matches Ok(Some(dual)) ==> {
            &&& settings_laws::complete(environment@)
            &&& auth::allowlist(environment@.qr_issuers->Some_0) == Ok::<_, Seq<char>>(
                dual.issuers(),
            )
            &&& environment@.shared_auth_base == Some(dual.guard_spec().shared_auth_base@)
            &&& environment@.issuer == Some(dual.guard_spec().issuer@)
            &&& environment@.audience == Some(dual.guard_spec().audience@)
            &&& environment@.introspect_secret == Some(dual.guard_spec().introspect_secret@)
            &&& environment@.supabase_url == Some(dual.guard_spec().supabase_url@)
            &&& environment@.supabase_project == Some(dual.guard_spec().supabase_project@)
            &&& environment@.supabase_api_key == Some(dual.guard_spec().supabase_api_key@)
            &&& dual.guard_spec().login_url@ == "/auth/sign-in"@
            &&& dual.guard_spec().arm_timeout_millis == 1200
            &&& dual.guard_spec().race_deadline_millis == 1500
        },
        r matches Err(e) ==> auth::issuers_from(environment@) == Err::<Option<Set<Identity>>, _>(
            e@,
        ),
        r is Err <==> auth::issuers_from(environment@) is Err,
{
    let listed = if r is Ok && r->Ok_0 is Some {
        r->Ok_0->Some_0.issuers()
    } else {
        Set::<Identity>::empty()
    };
    settings_laws::dual_auth_is_set_up_on_these_grounds(environment@, listed);
}

/// The guard is handed out as it was set up.
pub proof fn guard_is_handed_out(dual: &DualAuth, r: &GuardSettings)
    requires
        call_ensures(DualAuth::guard, (dual,), r),
    ensures
        *r == dual.guard_spec(),
{
}

/// A caller may issue exactly where they were authenticated and the allowlist has them.
pub proof fn issuers_are_authorized_by_the_allowlist(
    dual: &DualAuth,
    outcome: &AuthOutcome,
    r: Authorization,
)
    requires
        call_ensures(DualAuth::authorize_qr_issuer, (dual, outcome), r),
    ensures
        match *outcome {
            AuthOutcome::Authenticated { provider, tenant, subject } => {
                let caller = Identity { provider: provider@, tenant: tenant@, subject: subject@ };
                r == if dual.issuers().contains(caller) && caller.valid() {
                    Authorization::Authorized
                } else {
                    Authorization::Forbidden
                }
            },
            AuthOutcome::Anonymous => r == Authorization::Anonymous,
            AuthOutcome::Unauthenticated => r == Authorization::Unauthenticated,
            AuthOutcome::Degraded => r == Authorization::Degraded,
        },
{
}

/// What the operator is told of an origin.
pub proof fn faults_of_origins_are_told(e: &CorsError, r: String)
    requires
        call_ensures(CorsError::message, (e,), r),
    ensures
        r@ == match e.fault {
            CorsFault::Wildcard => "CORS_ORIGINS must not contain a wildcard"@,
            CorsFault::InvalidOrigin => "invalid CORS origin: "@ + e.origin@,
            CorsFault::NotExact =>
                "CORS origin must be an exact http(s) origin without a path: "@ + e.origin@,
            CorsFault::InvalidHeader => "invalid CORS origin header: "@ + e.origin@,
        },
{
}

/// An origin is found without fault exactly where it is exact and holds no asterisk.
pub proof fn origins_are_checked_as_they_read(
    origin: &str,
    parsed: &Option<UriParts>,
    r: Option<CorsFault>,
)
    requires
        call_ensures(cors::check_cors_origin, (origin, parsed), r),
    ensures
        r is None <==> (*parsed matches Some(parts) && (text::opt_text(parts.scheme) == Some(
            "http"@,
        ) || text::opt_text(parts.scheme) == Some("https"@)) && parts.has_authority && parts.path@
            == "/"@ && parts.query is None && uri::header_text(origin@) && !origin@.contains('*')),
        r == Some(CorsFault::Wildcard) <==> origin@.contains('*'),
        r == Some(CorsFault::InvalidOrigin) <==> *parsed is None && !origin@.contains('*'),
{
    settings_laws::origins_are_allowed_on_these_grounds(origin@, uri::opt_parts(*parsed));
}

/// An origin is allowed as it stands, or refused with what is wrong with it.
pub proof fn origins_are_allowed_as_they_stand(origin: &str, r: Result<String, CorsError>)
    requires
        call_ensures(cors::parse_cors_origin, (origin,), r),
    ensures
        r matches Ok(allowed) ==> allowed@ == origin@ && !origin@.contains('*') && (uri::uri_of(
            origin@,
        ) matches Some(parts) && (parts.scheme == Some("http"@) || parts.scheme == Some("https"@))
            && parts.has_authority && parts.path == "/"@ && parts.query is None),
        r matches Err(e) ==> e.origin@ == origin@ && cors::origin_fault(
            origin@,
            uri::uri_of(origin@),
        ) == Some(e.fault),
        r is Ok <==> cors::origin_fault(origin@, uri::uri_of(origin@)) is None,
{
    settings_laws::origins_are_allowed_on_these_grounds(origin@, uri::uri_of(origin@));
}

/// The origins of a list are allowed where each can be, each once and in their order; otherwise
/// the first that cannot be is told.
pub proof fn lists_of_origins_are_allowed_whole(raw: &str, r: Result<Vec<String>, CorsError>)
    requires
        call_ensures(cors::parse_cors_origins, (raw,), r),
    ensures
        r is Ok <==> forall|i: int|
            0 <= i < text::entries(raw@).len() ==> cors::origin_fault(
                #[trigger] text::entries(raw@)[i],
                uri::uri_of(text::entries(raw@)[i]),
            ) is None,
        r matches Ok(origins) ==> {
            &&& origins@.len() == cors::first_occurrences(text::entries(raw@)).len()
            &&& forall|i: int|
                0 <= i < origins@.len() ==> (#[trigger] origins@[i])@ == cors::first_occurrences(
                    text::entries(raw@),
                )[i]
            &&& forall|origin: Seq<char>| #[trigger]
                text::entries(raw@).contains(origin) ==> exists|i: int|
                    0 <= i < origins@.len() && (#[trigger] origins@[i])@ == origin
        },
        r matches Err(e) ==> exists|i: int|
            {
                &&& 0 <= i < text::entries(raw@).len()
                &&& e.origin@ == #[trigger] text::entries(raw@)[i]
                &&& cors::origin_fault(
                    text::entries(raw@)[i],
                    uri::uri_of(text::entries(raw@)[i]),
                ) == Some(e.fault)
            },
{
    let all = text::entries(raw@);
    settings_laws::first_fault_of_a_list_is_told(all);
    cors::lemma_first_occurrences(all);
    if r is Ok {
        let origins = r->Ok_0@;
        let seen = cors::string_texts(origins);
        assert(seen.len() == origins.len());
        assert forall|i: int| 0 <= i < origins.len() implies (#[trigger] origins[i])@
            == cors::first_occurrences(all)[i] by {
            assert(seen[i] == origins[i]@);
        }
        assert forall|origin: Seq<char>| #[trigger] all.contains(origin) implies exists|i: int|
            0 <= i < origins.len() && (#[trigger] origins[i])@ == origin by {
            assert(cors::first_occurrences(all).contains(origin));
            let i = choose|i: int| 0 <= i < seen.len() && seen[i] == origin;
            assert(origins[i]@ == origin);
        }
    }
}

/// The service does not start with visitor access alone.
pub proof fn start_needs_dual_auth_for_visitors(
    visitors_configured: bool,
    auth_configured: bool,
    r: Result<(), String>,
)
    requires
        call_ensures(startup::require_dual_auth, (visitors_configured, auth_configured), r),
    ensures
        r is Err <==> visitors_configured && !auth_configured,
        r matches Err(e) ==> e@
            == "visitor QR requires complete Shared Auth and Supabase dual-auth configuration"@,
{
}

/// The demo is on only by the word `true`, whatever white space stands around it.
pub proof fn demo_is_switched_on_by_one_word(value: &Option<String>, r: bool)
    requires
        call_ensures(startup::demo_reservations_enabled, (value,), r),
    ensures
        r <==> (*value matches Some(raw) && text::trimmed(raw@) == "true"@),
{
    crate::api_laws::demo_is_on_by_one_word(text::opt_text(*value));
}

/// The database is the one that is set, letter for letter, unless that is blank.
pub proof fn database_is_used_as_set(value: Option<String>, r: Option<String>)
    requires
        call_ensures(startup::database_url, (value,), r),
    ensures
        r is Some <==> (value matches Some(raw) && text::trimmed(raw@).len() > 0),
        r is Some ==> r->Some_0@ == value->Some_0@,
{
}

/// The service listens where the settings say, or else on every address at port 8080.
pub proof fn service_listens_as_set(host: Option<String>, port: Option<String>, r: String)
    requires
        call_ensures(startup::listen_address, (host, port), r),
    ensures
        r@ == (if host is Some {
            host->Some_0@
        } else {
            "0.0.0.0"@
        }) + seq![':'] + (if port is Some {
            port->Some_0@
        } else {
            "8080"@
        }),
{
    crate::api_laws::service_listens_where_it_is_set(text::opt_text(host), text::opt_text(port));
}

} // verus!
