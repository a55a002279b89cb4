//! Who may issue visitor QR codes: the settings of dual authentication and the allowlist of
//! identities.

use crate::identity::{self, Identity};
use crate::table::{Key, KeySet};
use crate::text;
use crate::uri::{self, Parts, UriParts};
use vstd::prelude::*;
use vstd::string::*;

verus! {

pub const SHARED_AUTH_BASE_URL: &'static str = "SHARED_AUTH_BASE_URL";

pub const SHARED_AUTH_ISSUER: &'static str = "SHARED_AUTH_ISSUER";

pub const SHARED_AUTH_AUDIENCE: &'static str = "SHARED_AUTH_AUDIENCE";

pub const AUTH_INTROSPECT_SECRET: &'static str = "AUTH_INTROSPECT_SECRET";

pub const SUPABASE_URL: &'static str = "SUPABASE_URL";

pub const SUPABASE_PROJECT_REF: &'static str = "SUPABASE_PROJECT_REF";

pub const SUPABASE_ANON_KEY: &'static str = "SUPABASE_ANON_KEY";

pub const QR_ISSUER_IDENTITIES: &'static str = "HHM_QR_ISSUER_IDENTITIES";

/// The longest audience and the longest project reference, in bytes.
pub const MAX_IDENTIFIER_BYTES: usize = 255;

/// Where a caller who is not signed in is sent.
pub const LOGIN_URL: &'static str = "/auth/sign-in";

/// How long one authority may take, in milliseconds.
pub const ARM_TIMEOUT_MILLIS: u64 = 1_200;

/// How long the two authorities together may take, in milliseconds.
pub const RACE_DEADLINE_MILLIS: u64 = 1_500;

/// An identity on the allowlist.
#[derive(Clone, Eq, Hash, PartialEq, Debug)]
pub struct IdentityKey {
    pub provider: String,
    pub tenant: String,
    pub subject: String,
}

impl View for IdentityKey {
    type V = Identity;

    open spec fn view(&self) -> Identity {
        Identity {
            provider: self.provider@,
            tenant: self.tenant@,
            subject: self.subject@,
        }
    }
}

impl Key for IdentityKey {
    fn same(&self, other: &Self) -> (r: bool) {
        self.provider == other.provider && self.tenant == other.tenant && self.subject
            == other.subject
    }
}

impl IdentityKey {
    /// The key of an identity whose parts are within their bounds.
    pub fn from_verified_identity(provider: &str, tenant: &str, subject: &str) -> (r: Option<Self>)
        ensures
            ({
                let given = Identity { provider: provider@, tenant: tenant@, subject: subject@ };
                match r {
                    Some(key) => key@ == given && given.valid(),
                    None => !given.valid(),
                }
            }),
    {
        if !identity::valid_identity(provider, tenant, subject) {
            return None;
        }
        Some(
            IdentityKey {
                provider: provider.to_owned(),
                tenant: tenant.to_owned(),
                subject: subject.to_owned(),
            },
        )
    }
}

/// The identity that an entry `provider|tenant|subject` names, or what is wrong with it.
pub open spec fn entry_identity(entry: Seq<char>) -> Result<Identity, Seq<char>> {
    let parts = text::pieces(entry, '|');
    let named = Identity {
        provider: text::trimmed(parts[0]),
        tenant: text::trimmed(parts[1]),
        subject: text::trimmed(parts[2]),
    };
    if parts.len() != 3 {
        Err(
            "HHM_QR_ISSUER_IDENTITIES entries must use provider|tenant|subject without email addresses"@,
        )
    } else if !named.valid() {
        Err("HHM_QR_ISSUER_IDENTITIES contains an invalid identity tuple"@)
    } else {
        Ok(named)
    }
}

/// The identities that `entries` name, or what is wrong with the first entry that is wrong.
pub open spec fn named_identities(entries: Seq<Seq<char>>) -> Result<Set<Identity>, Seq<char>>
    decreases entries.len(),
{
    if entries.len() == 0 {
        Ok(Set::empty())
    } else {
        match named_identities(entries.drop_last()) {
            Err(e) => Err(e),
            Ok(before) => match entry_identity(entries.last()) {
                Err(e) => Err(e),
                Ok(named) => Ok(before.insert(named)),
            },
        }
    }
}

/// The identities that a comma-separated list names; there has to be one.
pub open spec fn allowlist(raw: Seq<char>) -> Result<Set<Identity>, Seq<char>> {
    if text::entries(raw).len() == 0 {
        Err("HHM_QR_ISSUER_IDENTITIES must contain at least one exact identity tuple"@)
    } else {
        named_identities(text::entries(raw))
    }
}

/// The identity that an entry names.
pub fn parse_identity_entry(entry: &str) -> (r: Result<IdentityKey, String>)
    ensures
        match r {
            Ok(key) => entry_identity(entry@) == Ok::<_, Seq<char>>(key@),
            Err(e) => entry_identity(entry@) == Err::<Identity, _>(e@),
        },
{
    let parts: Vec<&str> = text::split(entry, '|');
    let ghost cut = text::pieces(entry@, '|');
    proof {
        assert(cut.len() == parts@.len());
        assert forall|i: int| 0 <= i < cut.len() implies #[trigger] cut[i] == parts@[i]@ by {
            assert(text::texts(parts@)[i] == parts@[i]@);
        }
    }
    if parts.len() != 3 {
        return Err(
            "HHM_QR_ISSUER_IDENTITIES entries must use provider|tenant|subject without email addresses".to_owned(),
        );
    }
    match IdentityKey::from_verified_identity(
        text::trim(parts[0]),
        text::trim(parts[1]),
        text::trim(parts[2]),
    ) {
        Some(key) => Ok(key),
        None => Err("HHM_QR_ISSUER_IDENTITIES contains an invalid identity tuple".to_owned()),
    }
}

proof fn lemma_error_stays(entries: Seq<Seq<char>>, n: int)
    requires
        0 <= n <= entries.len(),
        named_identities(entries.take(n)) is Err,
    ensures
        named_identities(entries) == named_identities(entries.take(n)),
    decreases entries.len(),
{
    if n == entries.len() {
        assert(entries.take(n) =~= entries);
    } else {
        assert(entries.drop_last().take(n) =~= entries.take(n));
        lemma_error_stays(entries.drop_last(), n);
    }
}

/// The identities that a comma-separated list of `provider|tenant|subject` names; there has to
/// be one.
pub fn parse_identity_allowlist(raw: &str) -> (r: Result<KeySet<IdentityKey>, String>)
    ensures
        match r {
            Ok(identities) => identities.wf() && allowlist(raw@) == Ok::<_, Seq<char>>(
                identities@,
            ),
            Err(e) => allowlist(raw@) == Err::<Set<Identity>, _>(e@),
        },
{
    let named: Vec<&str> = text::list_entries(raw);
    let ghost all = text::entries(raw@);
    let mut identities: KeySet<IdentityKey> = KeySet::new();
    let mut i: usize = 0;
    proof {
        assert(all.take(0) =~= Seq::<Seq<char>>::empty());
        assert(all.len() == text::texts(named@).len());
    }
    while i < named.len()
        invariant
            i <= named.len(),
            all == text::entries(raw@),
            all == text::texts(named@),
            identities.wf(),
            named_identities(all.take(i as int)) == Ok::<_, Seq<char>>(identities@),
        decreases named.len() - i,
    {
        proof {
            assert(all[i as int] == named@[i as int]@);
            assert(all.take(i + 1).drop_last() =~= all.take(i as int));
            assert(all.take(i + 1).last() == all[i as int]);
        }
        match parse_identity_entry(named[i]) {
            Ok(key) => {
                identities.insert(key);
            },
            Err(e) => {
                proof {
                    lemma_error_stays(all, i + 1);
                }
                return Err(e);
            },
        }
        i += 1;
    }
    if named.len() == 0 {
        return Err(
            "HHM_QR_ISSUER_IDENTITIES must contain at least one exact identity tuple".to_owned(),
        );
    }
    proof {
        assert(all.take(i as int) =~= all);
    }
    Ok(identities)
}

/// What is wrong with the identifier `value` of the setting `name`, if anything.
pub open spec fn identifier_fault(name: Seq<char>, value: Seq<char>, maximum: nat) -> Option<
    Seq<char>,
> {
    if identity::component(value, maximum) {
        None
    } else {
        Some(name + " is invalid"@)
    }
}

/// Goes on only where `value` is an identifier of at most `maximum` bytes.
pub fn validate_identifier(name: &str, value: &str, maximum: usize) -> (r: Result<(), String>)
    ensures
        text::fault_of(r) == identifier_fault(name@, value@, maximum as nat),
{
    if !identity::valid_component(value, maximum) {
        return Err(text::followed_by(name, " is invalid"));
    }
    Ok(())
}

/// Whether `host` is this very machine.
pub open spec fn loopback(host: Option<Seq<char>>) -> bool {
    ||| host == Some("localhost"@)
    ||| host == Some("127.0.0.1"@)
    ||| host == Some("[::1]"@)
    ||| host == Some("::1"@)
}

/// Whether an authority may be called at a URI: over HTTPS, or on this very machine over HTTP.
pub open spec fn callable(parts: Parts) -> bool {
    &&& parts.has_authority
    &&& parts.scheme == Some("https"@) || (parts.scheme == Some("http"@) && loopback(parts.host))
}

/// What is wrong with the address of an authority in the setting `name` that reads as `parsed`,
/// if anything.
pub open spec fn remote_fault(name: Seq<char>, parsed: Option<Parts>) -> Option<Seq<char>> {
    match parsed {
        None => Some(name + " must be an absolute URL"@),
        Some(parts) => if callable(parts) {
            None
        } else {
            Some(name + " must use HTTPS, except for explicit loopback development"@)
        },
    }
}

/// Goes on only where an authority may be called at the URI `parsed`.
pub fn check_remote_uri(name: &str, parsed: &Option<UriParts>) -> (r: Result<(), String>)
    ensures
        text::fault_of(r) == remote_fault(name@, uri::opt_parts(*parsed)),
{
    match parsed {
        None => Err(text::followed_by(name, " must be an absolute URL")),
        Some(parts) => {
            let local: bool = uri::is_text(&parts.host, "localhost") || uri::is_text(
                &parts.host,
                "127.0.0.1",
            ) || uri::is_text(&parts.host, "[::1]") || uri::is_text(&parts.host, "::1");
            if !parts.has_authority || !(uri::is_text(&parts.scheme, "https") || (uri::is_text(
                &parts.scheme,
                "http",
            ) && local)) {
                return Err(
                    text::followed_by(
                        name,
                        " must use HTTPS, except for explicit loopback development",
                    ),
                );
            }
            Ok(())
        },
    }
}

/// Goes on only where an authority may be called at `value`.
pub fn validate_remote_url(name: &str, value: &str) -> (r: Result<(), String>)
    ensures
        text::fault_of(r) == remote_fault(name@, uri::uri_of(value@)),
{
    let parsed: Option<UriParts> = uri::parse_uri(value);
    check_remote_uri(name, &parsed)
}

/// The settings of dual authentication as they stand in the environment.
#[derive(Debug)]
pub struct AuthEnvironment {
    pub shared_auth_base: Option<String>,
    pub issuer: Option<String>,
    pub audience: Option<String>,
    pub introspect_secret: Option<String>,
    pub supabase_url: Option<String>,
    pub supabase_project: Option<String>,
    pub supabase_api_key: Option<String>,
    pub qr_issuers: Option<String>,
}

/// The settings with their texts as characters, each trimmed and absent where nothing is left.
pub struct Settings {
    pub shared_auth_base: Option<Seq<char>>,
    pub issuer: Option<Seq<char>>,
    pub audience: Option<Seq<char>>,
    pub introspect_secret: Option<Seq<char>>,
    pub supabase_url: Option<Seq<char>>,
    pub supabase_project: Option<Seq<char>>,
    pub supabase_api_key: Option<Seq<char>>,
    pub qr_issuers: Option<Seq<char>>,
}

impl View for AuthEnvironment {
    type V = Settings;

    open spec fn view(&self) -> Settings {
        Settings {
            shared_auth_base: text::setting(text::opt_text(self.shared_auth_base)),
            issuer: text::setting(text::opt_text(self.issuer)),
            audience: text::setting(text::opt_text(self.audience)),
            introspect_secret: text::setting(text::opt_text(self.introspect_secret)),
            supabase_url: text::setting(text::opt_text(self.supabase_url)),
            supabase_project: text::setting(text::opt_text(self.supabase_project)),
            supabase_api_key: text::setting(text::opt_text(self.supabase_api_key)),
            qr_issuers: text::setting(text::opt_text(self.qr_issuers)),
        }
    }
}

/// The names and values of the settings, in the order in which they are asked for.
pub open spec fn ordered(s: Settings) -> Seq<(Seq<char>, Option<Seq<char>>)> {
    seq![
        (SHARED_AUTH_BASE_URL@, s.shared_auth_base),
        (SHARED_AUTH_ISSUER@, s.issuer),
        (SHARED_AUTH_AUDIENCE@, s.audience),
        (AUTH_INTROSPECT_SECRET@, s.introspect_secret),
        (SUPABASE_URL@, s.supabase_url),
        (SUPABASE_PROJECT_REF@, s.supabase_project),
        (SUPABASE_ANON_KEY@, s.supabase_api_key),
        (QR_ISSUER_IDENTITIES@, s.qr_issuers),
    ]
}

/// Whether no setting is there.
pub open spec fn all_absent(s: Settings) -> bool {
    forall|i: int| 0 <= i < 8 ==> (#[trigger] ordered(s)[i]).1 is None
}

/// The name of the first setting that is absent, if one is.
pub open spec fn first_absent(settings: Seq<(Seq<char>, Option<Seq<char>>)>) -> Option<Seq<char>>
    decreases settings.len(),
{
    if settings.len() == 0 {
        None
    } else if settings[0].1 is None {
        Some(settings[0].0)
    } else {
        first_absent(settings.drop_first())
    }
}

/// The first of five things that may be wrong with the addresses and identifiers, if one is.
pub open spec fn first_invalid(s: Settings) -> Option<Seq<char>> {
    let base = remote_fault(SHARED_AUTH_BASE_URL@, uri::uri_of(s.shared_auth_base->Some_0));
    let issuer = remote_fault(SHARED_AUTH_ISSUER@, uri::uri_of(s.issuer->Some_0));
    let supabase = remote_fault(SUPABASE_URL@, uri::uri_of(s.supabase_url->Some_0));
    let audience = identifier_fault(
        SHARED_AUTH_AUDIENCE@,
        s.audience->Some_0,
        MAX_IDENTIFIER_BYTES as nat,
    );
    if base is Some {
        base
    } else if issuer is Some {
        issuer
    } else if supabase is Some {
        supabase
    } else if audience is Some {
        audience
    } else {
        identifier_fault(
            SUPABASE_PROJECT_REF@,
            s.supabase_project->Some_0,
            MAX_IDENTIFIER_BYTES as nat,
        )
    }
}

/// What the guard in front of the two authorities is set up with.
#[derive(Debug)]
pub struct GuardSettings {
    pub shared_auth_base: String,
    pub issuer: String,
    pub audience: String,
    pub introspect_secret: String,
    pub supabase_url: String,
    pub supabase_project: String,
    pub supabase_api_key: String,
    pub login_url: String,
    pub arm_timeout_millis: u64,
    pub race_deadline_millis: u64,
}

impl GuardSettings {
    /// Whether these are the settings `s`, with the fixed address and times.
    pub open spec fn from_settings(&self, s: Settings) -> bool {
        &&& s.shared_auth_base == Some(self.shared_auth_base@)
        &&& s.issuer == Some(self.issuer@)
        &&& s.audience == Some(self.audience@)
        &&& s.introspect_secret == Some(self.introspect_secret@)
        &&& s.supabase_url == Some(self.supabase_url@)
        &&& s.supabase_project == Some(self.supabase_project@)
        &&& s.supabase_api_key == Some(self.supabase_api_key@)
        &&& self.login_url@ == LOGIN_URL@
        &&& self.arm_timeout_millis == ARM_TIMEOUT_MILLIS
        &&& self.race_deadline_millis == RACE_DEADLINE_MILLIS
    }
}

/// The identities that may issue QR codes under the settings `s`: nothing where no setting is
/// there, and a fault where one is absent or wrong.
pub open spec fn issuers_from(s: Settings) -> Result<Option<Set<Identity>>, Seq<char>> {
    if all_absent(s) {
        Ok(None)
    } else {
        match first_absent(ordered(s)) {
            Some(name) => Err(name + " is required when dual authentication is enabled"@),
            None => match allowlist(s.qr_issuers->Some_0) {
                Err(e) => Err(e),
                Ok(identities) => match first_invalid(s) {
                    Some(e) => Err(e),
                    None => Ok(Some(identities)),
                },
            },
        }
    }
}

/// What the guard found out about a caller.
#[derive(Debug)]
pub enum AuthOutcome {
    Authenticated { provider: String, tenant: String, subject: String },
    Anonymous,
    Unauthenticated,
    Degraded,
}

/// Whether a caller may issue QR codes.
#[derive(Clone, Copy, Debug, Eq, PartialEq, Structural)]
pub enum Authorization {
    Authorized,
    Anonymous,
    Unauthenticated,
    Degraded,
    Forbidden,
}

/// What a caller may do of whom `outcome` is known, where `issuers` may issue QR codes.
pub open spec fn authorization_for(issuers: Set<Identity>, outcome: AuthOutcome) -> Authorization {
    match outcome {
        AuthOutcome::Authenticated { provider, tenant, subject } => {
            let caller = Identity { provider: provider@, tenant: tenant@, subject: subject@ };
            if caller.valid() && issuers.contains(caller) {
                Authorization::Authorized
            } else {
                Authorization::Forbidden
            }
        },
        AuthOutcome::Anonymous => Authorization::Anonymous,
        AuthOutcome::Unauthenticated => Authorization::Unauthenticated,
        AuthOutcome::Degraded => Authorization::Degraded,
    }
}

/// Dual authentication: what its guard is set up with, and who may issue QR codes.
pub struct DualAuth {
    guard: GuardSettings,
    qr_issuers: KeySet<IdentityKey>,
}

fn required(name: &'static str, value: Option<String>) -> (r: Result<String, String>)
    ensures
        match r {
            Ok(s) => text::opt_text(value) == Some(s@),
            Err(e) => value is None && e@ == name@
                + " is required when dual authentication is enabled"@,
        },
{
    match value {
        Some(s) => Ok(s),
        None => Err(
            text::followed_by(name, " is required when dual authentication is enabled"),
        ),
    }
}

proof fn lemma_absence(s: Settings)
    ensures
        all_absent(s) == (s.shared_auth_base is None && s.issuer is None && s.audience is None
            && s.introspect_secret is None && s.supabase_url is None && s.supabase_project is None
            && s.supabase_api_key is None && s.qr_issuers is None),
        first_absent(ordered(s)) == if s.shared_auth_base is None {
            Some(SHARED_AUTH_BASE_URL@)
        } else if s.issuer is None {
            Some(SHARED_AUTH_ISSUER@)
        } else if s.audience is None {
            Some(SHARED_AUTH_AUDIENCE@)
        } else if s.introspect_secret is None {
            Some(AUTH_INTROSPECT_SECRET@)
        } else if s.supabase_url is None {
            Some(SUPABASE_URL@)
        } else if s.supabase_project is None {
            Some(SUPABASE_PROJECT_REF@)
        } else if s.supabase_api_key is None {
            Some(SUPABASE_ANON_KEY@)
        } else if s.qr_issuers is None {
            Some(QR_ISSUER_IDENTITIES@)
        } else {
            None
        },
{
    reveal_with_fuel(first_absent, 9);
    let all = ordered(s);
    if all_absent(s) {
        assert(all[0].1 is None && all[1].1 is None && all[2].1 is None && all[3].1 is None
            && all[4].1 is None && all[5].1 is None && all[6].1 is None && all[7].1 is None);
    }
}

impl DualAuth {
    /// What the guard is set up with.
    pub closed spec fn guard_spec(&self) -> GuardSettings {
        self.guard
    }

    /// Who may issue QR codes.
    pub closed spec fn issuers(&self) -> Set<Identity> {
        self.qr_issuers@
    }

    /// What the guard is set up with.
    pub fn guard(&self) -> (r: &GuardSettings)
        ensures
            *r == self.guard_spec(),
    {
        &self.guard
    }

    /// Dual authentication as the environment sets it up: none where no setting is there.
    pub fn from_environment(environment: &AuthEnvironment) -> (r: Result<Option<Self>, String>)
        ensures
            match r {
                Ok(Some(auth)) => {
                    &&& issuers_from(environment@) == Ok::<_, Seq<char>>(Some(auth.issuers()))
                    &&& auth.guard_spec().from_settings(environment@)
                },
                Ok(None) => issuers_from(environment@) == Ok::<_, Seq<char>>(
                    None::<Set<Identity>>,
                ),
                Err(e) => issuers_from(environment@) == Err::<Option<Set<Identity>>, _>(e@),
            },
    {
        proof {
            lemma_absence(environment@);
        }
        let shared_auth_base: Option<String> = text::non_empty(&environment.shared_auth_base);
        let issuer: Option<String> = text::non_empty(&environment.issuer);
        let audience: Option<String> = text::non_empty(&environment.audience);
        let introspect_secret: Option<String> = text::non_empty(&environment.introspect_secret);
        let supabase_url: Option<String> = text::non_empty(&environment.supabase_url);
        let supabase_project: Option<String> = text::non_empty(&environment.supabase_project);
        let supabase_api_key: Option<String> = text::non_empty(&environment.supabase_api_key);
        let qr_issuers: Option<String> = text::non_empty(&environment.qr_issuers);
        if shared_auth_base.is_none() && issuer.is_none() && audience.is_none()
            && introspect_secret.is_none() && supabase_url.is_none() && supabase_project.is_none()
            && supabase_api_key.is_none() && qr_issuers.is_none() {
            return Ok(None);
        }
        let shared_auth_base: String = required(SHARED_AUTH_BASE_URL, shared_auth_base)?;
        let issuer: String = required(SHARED_AUTH_ISSUER, issuer)?;
        let audience: String = required(SHARED_AUTH_AUDIENCE, audience)?;
        let introspect_secret: String = required(AUTH_INTROSPECT_SECRET, introspect_secret)?;
        let supabase_url: String = required(SUPABASE_URL, supabase_url)?;
        let supabase_project: String = required(SUPABASE_PROJECT_REF, supabase_project)?;
        let supabase_api_key: String = required(SUPABASE_ANON_KEY, supabase_api_key)?;
        let listed: String = required(QR_ISSUER_IDENTITIES, qr_issuers)?;
        let qr_issuers: KeySet<IdentityKey> = parse_identity_allowlist(listed.as_str())?;
        validate_remote_url(SHARED_AUTH_BASE_URL, shared_auth_base.as_str())?;
        validate_remote_url(SHARED_AUTH_ISSUER, issuer.as_str())?;
        validate_remote_url(SUPABASE_URL, supabase_url.as_str())?;
        validate_identifier(SHARED_AUTH_AUDIENCE, audience.as_str(), MAX_IDENTIFIER_BYTES)?;
        validate_identifier(
            SUPABASE_PROJECT_REF,
            supabase_project.as_str(),
            MAX_IDENTIFIER_BYTES,
        )?;
        Ok(
            Some(
                DualAuth {
                    guard: GuardSettings {
                        shared_auth_base,
                        issuer,
                        audience,
                        introspect_secret,
                        supabase_url,
                        supabase_project,
                        supabase_api_key,
                        login_url: LOGIN_URL.to_owned(),
                        arm_timeout_millis: ARM_TIMEOUT_MILLIS,
                        race_deadline_millis: RACE_DEADLINE_MILLIS,
                    },
                    qr_issuers,
                },
            ),
        )
    }

    /// What a caller may do of whom the guard found out `outcome`.
    pub fn authorize_qr_issuer(&self, outcome: &AuthOutcome) -> (r: Authorization)
        ensures
            r == authorization_for(self.issuers(), *outcome),
    {
        match outcome {
            AuthOutcome::Authenticated { provider, tenant, subject } => {
                match IdentityKey::from_verified_identity(
                    provider.as_str(),
                    tenant.as_str(),
                    subject.as_str(),
                ) {
                    Some(key) => {
                        if self.qr_issuers.contains(&key) {
                            Authorization::Authorized
                        } else {
                            Authorization::Forbidden
                        }
                    },
                    None => Authorization::Forbidden,
                }
            },
            AuthOutcome::Anonymous => Authorization::Anonymous,
            AuthOutcome::Unauthenticated => Authorization::Unauthenticated,
            AuthOutcome::Degraded => Authorization::Degraded,
        }
    }
}

/// Whether `outcome` says that `caller` was authenticated.
pub open spec fn authenticates(outcome: AuthOutcome, caller: Identity) -> bool {
    outcome matches AuthOutcome::Authenticated { provider, tenant, subject } && provider@
        == caller.provider && tenant@ == caller.tenant && subject@ == caller.subject
}

/// A caller is authorized exactly where they were authenticated and are on the allowlist, by
/// provider, tenant and subject.
pub proof fn only_listed_identities_are_authorized(issuers: Set<Identity>, outcome: AuthOutcome)
    ensures
        authorization_for(issuers, outcome) == Authorization::Authorized <==> exists|
            caller: Identity,
        |
            issuers.contains(caller) && caller.valid() && #[trigger] authenticates(
                outcome,
                caller,
            ),
{
    if let AuthOutcome::Authenticated { provider, tenant, subject } = outcome {
        let caller = Identity { provider: provider@, tenant: tenant@, subject: subject@ };
        assert(authenticates(outcome, caller));
        assert forall|other: Identity| #[trigger] authenticates(outcome, other) implies other
            == caller by {}
    }
}

/// Dual authentication is set up with all of its settings or with none.
pub proof fn dual_auth_is_all_or_nothing(s: Settings)
    requires
        issuers_from(s) is Ok,
    ensures
        all_absent(s) || forall|i: int| 0 <= i < 8 ==> (#[trigger] ordered(s)[i]).1 is Some,
        all_absent(s) <==> issuers_from(s)->Ok_0 is None,
{
    lemma_absence(s);
}

/// Every identity on an allowlist is within its bounds.
pub proof fn listed_identities_are_valid(entries: Seq<Seq<char>>, who: Identity)
    requires
        named_identities(entries) is Ok,
        named_identities(entries)->Ok_0.contains(who),
    ensures
        who.valid(),
    decreases entries.len(),
{
    if entries.len() > 0 {
        let before = named_identities(entries.drop_last())->Ok_0;
        if before.contains(who) {
            listed_identities_are_valid(entries.drop_last(), who);
        }
    }
}

/// No authority on another machine is called over plain HTTP.
pub proof fn remote_authorities_use_https(name: Seq<char>, parts: Parts)
    requires
        remote_fault(name, Some(parts)) is None,
        !loopback(parts.host),
    ensures
        parts.scheme == Some("https"@),
        parts.has_authority,
{
}

} // verus!
