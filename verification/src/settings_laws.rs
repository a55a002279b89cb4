//! What the settings of dual authentication and of the browsers' origins amount to.

use crate::auth::{
    self, AuthEnvironment, AuthOutcome, Authorization, GuardSettings, IdentityKey, Settings,
};
use crate::cors::{self, CorsFault};
use crate::identity::{self, Identity};
use crate::text;
use crate::uri::{self, Parts, UriParts};
use vstd::prelude::*;
use vstd::string::*;

verus! {

/// The settings of dual authentication under the names by which the environment has them.
pub proof fn settings_have_their_names()
    ensures
        auth::SHARED_AUTH_BASE_URL@ == "SHARED_AUTH_BASE_URL"@,
        auth::SHARED_AUTH_ISSUER@ == "SHARED_AUTH_ISSUER"@,
        auth::SHARED_AUTH_AUDIENCE@ == "SHARED_AUTH_AUDIENCE"@,
        auth::AUTH_INTROSPECT_SECRET@ == "AUTH_INTROSPECT_SECRET"@,
        auth::SUPABASE_URL@ == "SUPABASE_URL"@,
        auth::SUPABASE_PROJECT_REF@ == "SUPABASE_PROJECT_REF"@,
        auth::SUPABASE_ANON_KEY@ == "SUPABASE_ANON_KEY"@,
        auth::QR_ISSUER_IDENTITIES@ == "HHM_QR_ISSUER_IDENTITIES"@,
{
}

/// An identity is shown by provider, tenant and subject.
pub proof fn identity_is_seen_as_it_is(k: IdentityKey)
    ensures
        k@.provider == k.provider@,
        k@.tenant == k.tenant@,
        k@.subject == k.subject@,
{
}

/// A part of an identity is neither empty nor too long, and holds neither a control character
/// nor the bar that parts are separated by. A provider has at most 64 bytes, a tenant 255 and a
/// subject 512.
pub proof fn identities_are_bounded(who: Identity, part: Seq<char>, maximum: nat)
    ensures
        identity::component(part, maximum) <==> {
            &&& 1 <= part.len()
            &&& text::byte_len(part) <= maximum
            &&& !part.contains('|')
            &&& !text::has_control(part)
        },
        who.valid() <==> identity::component(who.provider, 64) && identity::component(
            who.tenant,
            255,
        ) && identity::component(who.subject, 512),
{
    if identity::component(part, maximum) {
        if part.contains('|') {
            let i = choose|i: int| 0 <= i < part.len() && part[i] == '|';
            assert(part[i] == '|');
        }
    } else if 1 <= part.len() && text::byte_len(part) <= maximum {
        let i = choose|i: int|
            0 <= i < part.len() && (text::control_char(#[trigger] part[i]) || part[i] == '|');
        assert(part.contains(part[i]));
    }
}

/// The settings are those of the environment one by one, trimmed and absent where blank.
pub proof fn settings_are_read_one_by_one(e: AuthEnvironment)
    ensures
        e@.shared_auth_base == text::setting(text::opt_text(e.shared_auth_base)),
        e@.issuer == text::setting(text::opt_text(e.issuer)),
        e@.audience == text::setting(text::opt_text(e.audience)),
        e@.introspect_secret == text::setting(text::opt_text(e.introspect_secret)),
        e@.supabase_url == text::setting(text::opt_text(e.supabase_url)),
        e@.supabase_project == text::setting(text::opt_text(e.supabase_project)),
        e@.supabase_api_key == text::setting(text::opt_text(e.supabase_api_key)),
        e@.qr_issuers == text::setting(text::opt_text(e.qr_issuers)),
{
}

/// The guard is set up with each setting in its own place, with the page to sign in on, and with
/// 1.2 seconds for one authority and 1.5 seconds for both.
pub proof fn guard_has_each_setting_in_its_place(guard: GuardSettings, s: Settings)
    requires
        guard.from_settings(s),
    ensures
        s.shared_auth_base == Some(guard.shared_auth_base@),
        s.issuer == Some(guard.issuer@),
        s.audience == Some(guard.audience@),
        s.introspect_secret == Some(guard.introspect_secret@),
        s.supabase_url == Some(guard.supabase_url@),
        s.supabase_project == Some(guard.supabase_project@),
        s.supabase_api_key == Some(guard.supabase_api_key@),
        guard.login_url@ == "/auth/sign-in"@,
        guard.arm_timeout_millis == 1200,
        guard.race_deadline_millis == 1500,
{
}

/// Whether `entry` reads `provider|tenant|subject`, white space round the parts aside.
pub open spec fn names(entry: Seq<char>, who: Identity) -> bool {
    exists|a: Seq<char>, b: Seq<char>, c: Seq<char>| #[trigger]
        reads(entry, a, b, c) && text::trimmed(a) == who.provider && text::trimmed(b) == who.tenant
            && text::trimmed(c) == who.subject
}

/// Whether `entry` is `a`, `b` and `c` with bars between them, and has no other bar.
pub open spec fn reads(entry: Seq<char>, a: Seq<char>, b: Seq<char>, c: Seq<char>) -> bool {
    &&& entry == a + seq!['|'] + b + seq!['|'] + c
    &&& !a.contains('|')
    &&& !b.contains('|')
    &&& !c.contains('|')
}

/// Whether `entry` names somebody whose parts are within their bounds.
pub open spec fn proper(entry: Seq<char>) -> bool {
    exists|who: Identity| #[trigger] names(entry, who) && who.valid()
}

/// An entry names an identity exactly where it is that identity's provider, tenant and subject
/// between bars, and these are within their bounds.
pub proof fn entries_name_identities(entry: Seq<char>, who: Identity)
    ensures
        auth::entry_identity(entry) == Ok::<_, Seq<char>>(who) <==> names(entry, who)
            && who.valid(),
{
    let parts = text::pieces(entry, '|');
    if auth::entry_identity(entry) == Ok::<_, Seq<char>>(who) {
        text::lemma_joined_pieces(entry, '|');
        crate::text_laws::pieces_lie_between_separators(entry, '|');
        let two = parts.drop_last();
        let one = two.drop_last();
        assert(one.len() == 1 && one[0] == parts[0]);
        assert(text::joined(one, '|') == parts[0]);
        assert(text::joined(two, '|') == parts[0].push('|') + parts[1]);
        assert(text::joined(parts, '|') == (parts[0].push('|') + parts[1]).push('|') + parts[2]);
        assert(entry =~= parts[0] + seq!['|'] + parts[1] + seq!['|'] + parts[2]);
        assert forall|k: int| 0 <= k < 3 implies !(#[trigger] parts[k]).contains('|') by {
            if parts[k].contains('|') {
                let i = choose|i: int| 0 <= i < parts[k].len() && parts[k][i] == '|';
                assert(parts[k][i] != '|');
            }
        }
        assert(reads(entry, parts[0], parts[1], parts[2]));
    }
    if names(entry, who) {
        let (a, b, c) = choose|a: Seq<char>, b: Seq<char>, c: Seq<char>| #[trigger]
            reads(entry, a, b, c) && text::trimmed(a) == who.provider && text::trimmed(b)
                == who.tenant && text::trimmed(c) == who.subject;
        assert(reads(entry, a, b, c));
        text::lemma_pieces_of_plain(a, '|');
        text::lemma_pieces_of_plain(b, '|');
        text::lemma_pieces_of_plain(c, '|');
        text::lemma_pieces_of_joined(b, c, '|');
        text::lemma_pieces_of_joined(a, b.push('|') + c, '|');
        assert(entry =~= a.push('|') + (b.push('|') + c));
        assert(parts =~= seq![a, b, c]);
    }
}

proof fn lemma_named(entries: Seq<Seq<char>>)
    ensures
        auth::named_identities(entries) is Ok <==> forall|i: int|
            0 <= i < entries.len() ==> auth::entry_identity(#[trigger] entries[i]) is Ok,
        auth::named_identities(entries) matches Ok(listed) ==> forall|who: Identity| #[trigger]
            listed.contains(who) <==> exists|i: int|
                0 <= i < entries.len() && auth::entry_identity(#[trigger] entries[i]) == Ok::<
                    _,
                    Seq<char>,
                >(who),
        auth::named_identities(entries) matches Err(e) ==> exists|i: int|
            {
                &&& 0 <= i < entries.len()
                &&& auth::entry_identity(#[trigger] entries[i]) == Err::<Identity, _>(e)
                &&& forall|j: int| 0 <= j < i ==> auth::entry_identity(#[trigger] entries[j]) is Ok
            },
    decreases entries.len(),
{
    if entries.len() > 0 {
        let short = entries.drop_last();
        let n: int = entries.len() - 1;
        lemma_named(short);
        assert(entries[n] == entries.last());
        assert forall|i: int| 0 <= i < n implies #[trigger] entries[i] == short[i] by {}
        if auth::named_identities(entries) is Ok {
            assert forall|i: int| 0 <= i < entries.len() implies auth::entry_identity(
                #[trigger] entries[i],
            ) is Ok by {
                if i < n {
                    assert(short[i] == entries[i]);
                }
            }
            let listed = auth::named_identities(entries)->Ok_0;
            let before = auth::named_identities(short)->Ok_0;
            assert forall|who: Identity| #[trigger] listed.contains(who) <==> exists|i: int|
                0 <= i < entries.len() && auth::entry_identity(#[trigger] entries[i]) == Ok::<
                    _,
                    Seq<char>,
                >(who) by {
                if before.contains(who) {
                    let i = choose|i: int|
                        0 <= i < short.len() && auth::entry_identity(#[trigger] short[i]) == Ok::<
                            _,
                            Seq<char>,
                        >(who);
                    assert(entries[i] == short[i]);
                }
                if exists|i: int|
                    0 <= i < entries.len() && auth::entry_identity(#[trigger] entries[i]) == Ok::<
                        _,
                        Seq<char>,
                    >(who) {
                    let i = choose|i: int|
                        0 <= i < entries.len() && auth::entry_identity(#[trigger] entries[i])
                            == Ok::<_, Seq<char>>(who);
                    if i < n {
                        assert(short[i] == entries[i]);
                        assert(before.contains(who));
                    }
                }
            }
        } else {
            let e = auth::named_identities(entries)->Err_0;
            if auth::named_identities(short) is Err {
                let i = choose|i: int|
                    {
                        &&& 0 <= i < short.len()
                        &&& auth::entry_identity(#[trigger] short[i]) == Err::<Identity, _>(e)
                        &&& forall|j: int|
                            0 <= j < i ==> auth::entry_identity(#[trigger] short[j]) is Ok
                    };
                assert(entries[i] == short[i]);
                assert forall|j: int| 0 <= j < i implies auth::entry_identity(
                    #[trigger] entries[j],
                ) is Ok by {
                    assert(short[j] == entries[j]);
                }
            } else {
                assert forall|j: int| 0 <= j < n implies auth::entry_identity(
                    #[trigger] entries[j],
                ) is Ok by {
                    assert(short[j] == entries[j]);
                }
                assert(auth::entry_identity(entries[n]) == Err::<Identity, _>(e));
            }
        }
    }
}

/// On the allowlist stand exactly the identities that its entries name. There has to be an
/// entry, and each has to name one; the first that does not is told.
pub proof fn allowlist_holds_those_it_names(raw: Seq<char>)
    ensures
        text::entries(raw).len() == 0 ==> auth::allowlist(raw) == Err::<Set<Identity>, _>(
            "HHM_QR_ISSUER_IDENTITIES must contain at least one exact identity tuple"@,
        ),
        auth::allowlist(raw) is Ok <==> text::entries(raw).len() > 0 && forall|i: int|
            0 <= i < text::entries(raw).len() ==> proper(#[trigger] text::entries(raw)[i]),
        auth::allowlist(raw) matches Ok(listed) ==> forall|who: Identity| #[trigger]
            listed.contains(who) <==> exists|i: int|
                0 <= i < text::entries(raw).len() && names(#[trigger] text::entries(raw)[i], who)
                    && who.valid(),
        text::entries(raw).len() > 0 ==> (auth::allowlist(raw) matches Err(e) ==> exists|i: int|
            {
                &&& 0 <= i < text::entries(raw).len()
                &&& auth::entry_identity(#[trigger] text::entries(raw)[i]) == Err::<Identity, _>(e)
                &&& forall|j: int|
                    0 <= j < i ==> auth::entry_identity(#[trigger] text::entries(raw)[j]) is Ok
            }),
{
    let entries = text::entries(raw);
    lemma_named(entries);
    assert forall|i: int| 0 <= i < entries.len() implies (auth::entry_identity(
        #[trigger] entries[i],
    ) is Ok <==> proper(entries[i])) by {
        if auth::entry_identity(entries[i]) is Ok {
            entries_name_identities(entries[i], auth::entry_identity(entries[i])->Ok_0);
        }
        if proper(entries[i]) {
            let who = choose|who: Identity| #[trigger] names(entries[i], who) && who.valid();
            entries_name_identities(entries[i], who);
        }
    }
    if auth::allowlist(raw) is Ok {
        let listed = auth::allowlist(raw)->Ok_0;
        assert forall|who: Identity| #[trigger] listed.contains(who) <==> exists|i: int|
            0 <= i < entries.len() && names(#[trigger] entries[i], who) && who.valid() by {
            if listed.contains(who) {
                let i = choose|i: int|
                    0 <= i < entries.len() && auth::entry_identity(#[trigger] entries[i]) == Ok::<
                        _,
                        Seq<char>,
                    >(who);
                entries_name_identities(entries[i], who);
            }
            if exists|i: int|
                0 <= i < entries.len() && names(#[trigger] entries[i], who) && who.valid() {
                let i = choose|i: int|
                    0 <= i < entries.len() && names(#[trigger] entries[i], who) && who.valid();
                entries_name_identities(entries[i], who);
            }
        }
    }
}

/// An entry that names no identity is told so: that it is not of three parts, or that a part is
/// out of its bounds.
pub proof fn wrong_entries_are_told(entry: Seq<char>)
    ensures
        text::pieces(entry, '|').len() != 3 ==> auth::entry_identity(entry) == Err::<Identity, _>(
            "HHM_QR_ISSUER_IDENTITIES entries must use provider|tenant|subject without email addresses"@,
        ),
        text::pieces(entry, '|').len() == 3 && auth::entry_identity(entry) is Err
            ==> auth::entry_identity(entry) == Err::<Identity, _>(
            "HHM_QR_ISSUER_IDENTITIES contains an invalid identity tuple"@,
        ),
{
}

/// An authority may be called over HTTPS; over plain HTTP only on this machine.
pub proof fn authorities_are_called_safely(name: Seq<char>, parsed: Option<Parts>)
    ensures
        auth::remote_fault(name, parsed) is None <==> (parsed matches Some(parts)
            && parts.has_authority && (parts.scheme == Some("https"@) || (parts.scheme == Some(
            "http"@,
        ) && (parts.host == Some("localhost"@) || parts.host == Some("127.0.0.1"@) || parts.host
            == Some("[::1]"@) || parts.host == Some("::1"@))))),
        parsed is None ==> auth::remote_fault(name, parsed) == Some(
            name + " must be an absolute URL"@,
        ),
        parsed is Some && auth::remote_fault(name, parsed) is Some ==> auth::remote_fault(
            name,
            parsed,
        ) == Some(name + " must use HTTPS, except for explicit loopback development"@),
{
}

/// An identifier that is out of its bounds is told by the name of its setting.
pub proof fn wrong_identifiers_are_told(name: Seq<char>, value: Seq<char>, maximum: nat)
    ensures
        auth::identifier_fault(name, value, maximum) is None <==> 1 <= value.len()
            && text::byte_len(value) <= maximum && !value.contains('|') && !text::has_control(
            value,
        ),
        auth::identifier_fault(name, value, maximum) is Some ==> auth::identifier_fault(
            name,
            value,
            maximum,
        ) == Some(name + " is invalid"@),
{
    let who = Identity { provider: value, tenant: value, subject: value };
    identities_are_bounded(who, value, maximum);
}

/// Whether `s` has every setting.
pub open spec fn complete(s: Settings) -> bool {
    &&& s.shared_auth_base is Some
    &&& s.issuer is Some
    &&& s.audience is Some
    &&& s.introspect_secret is Some
    &&& s.supabase_url is Some
    &&& s.supabase_project is Some
    &&& s.supabase_api_key is Some
    &&& s.qr_issuers is Some
}

/// Whether `s` has no setting.
pub open spec fn blank(s: Settings) -> bool {
    &&& s.shared_auth_base is None
    &&& s.issuer is None
    &&& s.audience is None
    &&& s.introspect_secret is None
    &&& s.supabase_url is None
    &&& s.supabase_project is None
    &&& s.supabase_api_key is None
    &&& s.qr_issuers is None
}

/// The setting that has to be given next where `s` is not complete.
pub open spec fn lacking(s: Settings) -> Seq<char> {
    if s.shared_auth_base is None {
        "SHARED_AUTH_BASE_URL"@
    } else if s.issuer is None {
        "SHARED_AUTH_ISSUER"@
    } else if s.audience is None {
        "SHARED_AUTH_AUDIENCE"@
    } else if s.introspect_secret is None {
        "AUTH_INTROSPECT_SECRET"@
    } else if s.supabase_url is None {
        "SUPABASE_URL"@
    } else if s.supabase_project is None {
        "SUPABASE_PROJECT_REF"@
    } else if s.supabase_api_key is None {
        "SUPABASE_ANON_KEY"@
    } else {
        "HHM_QR_ISSUER_IDENTITIES"@
    }
}

/// Dual authentication is off without any setting. It is on exactly with all of them, an
/// allowlist without a fault, three addresses that may be called and two identifiers of at most
/// 255 bytes; and then those on the allowlist may issue. The first setting that is lacking is
/// told.
pub proof fn dual_auth_is_set_up_on_these_grounds(s: Settings, listed: Set<Identity>)
    ensures
        auth::issuers_from(s) == Ok::<_, Seq<char>>(None::<Set<Identity>>) <==> blank(s),
        !blank(s) && !complete(s) ==> auth::issuers_from(s) == Err::<Option<Set<Identity>>, _>(
            lacking(s) + " is required when dual authentication is enabled"@,
        ),
        auth::issuers_from(s) == Ok::<_, Seq<char>>(Some(listed)) <==> {
            &&& complete(s)
            &&& auth::allowlist(s.qr_issuers->Some_0) == Ok::<_, Seq<char>>(listed)
            &&& auth::remote_fault(
                "SHARED_AUTH_BASE_URL"@,
                uri::uri_of(s.shared_auth_base->Some_0),
            ) is None
            &&& auth::remote_fault("SHARED_AUTH_ISSUER"@, uri::uri_of(s.issuer->Some_0)) is None
            &&& auth::remote_fault("SUPABASE_URL"@, uri::uri_of(s.supabase_url->Some_0)) is None
            &&& auth::identifier_fault("SHARED_AUTH_AUDIENCE"@, s.audience->Some_0, 255) is None
            &&& auth::identifier_fault(
                "SUPABASE_PROJECT_REF"@,
                s.supabase_project->Some_0,
                255,
            ) is None
        },
{
    let all = auth::ordered(s);
    reveal_with_fuel(auth::first_absent, 9);
    assert(all[0] == ("SHARED_AUTH_BASE_URL"@, s.shared_auth_base));
    assert(all[1] == ("SHARED_AUTH_ISSUER"@, s.issuer));
    assert(all[2] == ("SHARED_AUTH_AUDIENCE"@, s.audience));
    assert(all[3] == ("AUTH_INTROSPECT_SECRET"@, s.introspect_secret));
    assert(all[4] == ("SUPABASE_URL"@, s.supabase_url));
    assert(all[5] == ("SUPABASE_PROJECT_REF"@, s.supabase_project));
    assert(all[6] == ("SUPABASE_ANON_KEY"@, s.supabase_api_key));
    assert(all[7] == ("HHM_QR_ISSUER_IDENTITIES"@, s.qr_issuers));
}

/// Faults are told in one order: of the allowlist, of the three addresses, of the two
/// identifiers.
pub proof fn faults_of_dual_auth_are_told_in_order(s: Settings)
    requires
        complete(s),
    ensures
        ({
            let base = auth::remote_fault(
                "SHARED_AUTH_BASE_URL"@,
                uri::uri_of(s.shared_auth_base->Some_0),
            );
            let issuer = auth::remote_fault("SHARED_AUTH_ISSUER"@, uri::uri_of(s.issuer->Some_0));
            let supabase = auth::remote_fault("SUPABASE_URL"@, uri::uri_of(s.supabase_url->Some_0));
            let audience = auth::identifier_fault("SHARED_AUTH_AUDIENCE"@, s.audience->Some_0, 255);
            let project = auth::identifier_fault(
                "SUPABASE_PROJECT_REF"@,
                s.supabase_project->Some_0,
                255,
            );
            auth::issuers_from(s) matches Err(e) ==> {
                if auth::allowlist(s.qr_issuers->Some_0) is Err {
                    auth::allowlist(s.qr_issuers->Some_0)->Err_0 == e
                } else if base is Some {
                    base == Some(e)
                } else if issuer is Some {
                    issuer == Some(e)
                } else if supabase is Some {
                    supabase == Some(e)
                } else if audience is Some {
                    audience == Some(e)
                } else {
                    project == Some(e)
                }
            }
        }),
{
    let all = auth::ordered(s);
    reveal_with_fuel(auth::first_absent, 9);
    assert(all[0].1 is Some);
}

/// Only callers who were authenticated can be authorized, and only those on the allowlist; the
/// others are forbidden. Whoever was not authenticated is told what the guard found.
pub proof fn callers_are_authorized_by_the_allowlist(issuers: Set<Identity>, outcome: AuthOutcome)
    ensures
        match outcome {
            AuthOutcome::Authenticated { provider, tenant, subject } => {
                let caller = Identity { provider: provider@, tenant: tenant@, subject: subject@ };
                &&& auth::authorization_for(issuers, outcome) == Authorization::Authorized
                    <==> issuers.contains(caller) && caller.valid()
                &&& auth::authorization_for(issuers, outcome) == Authorization::Forbidden <==> !(
                issuers.contains(caller) && caller.valid())
            },
            AuthOutcome::Anonymous => auth::authorization_for(issuers, outcome)
                == Authorization::Anonymous,
            AuthOutcome::Unauthenticated => auth::authorization_for(issuers, outcome)
                == Authorization::Unauthenticated,
            AuthOutcome::Degraded => auth::authorization_for(issuers, outcome)
                == Authorization::Degraded,
        },
{
}

/// The parts of a URI are shown one by one.
pub proof fn uri_is_seen_as_it_is(u: UriParts)
    ensures
        u@.scheme == text::opt_text(u.scheme),
        u@.has_authority == u.has_authority,
        u@.host == text::opt_text(u.host),
        u@.path == u.path@,
        u@.query == text::opt_text(u.query),
{
}

/// An origin can be allowed exactly where it is an `http` or `https` URI with an authority, no
/// path and no query, has no asterisk in it and may stand in a header. What is wrong is told in
/// one order.
pub proof fn origins_are_allowed_on_these_grounds(origin: Seq<char>, parsed: Option<Parts>)
    ensures
        cors::origin_fault(origin, parsed) is None <==> (parsed matches Some(parts) && (parts.scheme
            == Some("http"@) || parts.scheme == Some("https"@)) && parts.has_authority && parts.path
            == "/"@ && parts.query is None && uri::header_text(origin) && !origin.contains('*')),
        cors::origin_fault(origin, parsed) == Some(CorsFault::Wildcard) <==> origin.contains('*'),
        cors::origin_fault(origin, parsed) == Some(CorsFault::InvalidOrigin) <==> parsed is None
            && !origin.contains('*'),
        cors::origin_fault(origin, parsed) == Some(CorsFault::InvalidHeader) ==> (parsed matches
            Some(parts) && parts.has_authority && parts.path == "/"@ && parts.query is None
            && !uri::header_text(origin)),
        cors::origin_fault(origin, parsed) == Some(CorsFault::NotExact) ==> (parsed matches Some(
            parts,
        ) && !(parts.has_authority && parts.path == "/"@ && parts.query is None && (parts.scheme
            == Some("http"@) || parts.scheme == Some("https"@)))),
{
}

/// A header may hold every character but the control characters of ASCII, tabulators aside.
pub proof fn headers_hold_no_control_bytes(b: u8)
    ensures
        uri::header_byte(b) <==> b == 9 || 32 <= b <= 126 || 128 <= b,
{
}

/// A list of origins has no fault exactly where none of them has; else its first fault is told,
/// with the origin.
pub proof fn first_fault_of_a_list_is_told(origins: Seq<Seq<char>>)
    ensures
        cors::first_fault(origins) is None <==> forall|i: int|
            0 <= i < origins.len() ==> cors::origin_fault(
                #[trigger] origins[i],
                uri::uri_of(origins[i]),
            ) is None,
        cors::first_fault(origins) matches Some(found) ==> exists|i: int|
            {
                &&& 0 <= i < origins.len()
                &&& found.1 == #[trigger] origins[i]
                &&& cors::origin_fault(origins[i], uri::uri_of(origins[i])) == Some(found.0)
                &&& forall|j: int|
                    0 <= j < i ==> cors::origin_fault(
                        #[trigger] origins[j],
                        uri::uri_of(origins[j]),
                    ) is None
            },
    decreases origins.len(),
{
    if origins.len() > 0 {
        let short = origins.drop_last();
        let n: int = origins.len() - 1;
        first_fault_of_a_list_is_told(short);
        assert(origins[n] == origins.last());
        if cors::first_fault(short) is Some {
            let found = cors::first_fault(short)->Some_0;
            let i = choose|i: int|
                {
                    &&& 0 <= i < short.len()
                    &&& found.1 == #[trigger] short[i]
                    &&& cors::origin_fault(short[i], uri::uri_of(short[i])) == Some(found.0)
                    &&& forall|j: int|
                        0 <= j < i ==> cors::origin_fault(
                            #[trigger] short[j],
                            uri::uri_of(short[j]),
                        ) is None
                };
            assert(origins[i] == short[i]);
            assert forall|j: int| 0 <= j < i implies cors::origin_fault(
                #[trigger] origins[j],
                uri::uri_of(origins[j]),
            ) is None by {
                assert(short[j] == origins[j]);
            }
        } else {
            assert forall|j: int| 0 <= j < n implies cors::origin_fault(
                #[trigger] origins[j],
                uri::uri_of(origins[j]),
            ) is None by {
                assert(short[j] == origins[j]);
            }
        }
    }
}

/// Of repeated items the first stays, in its place among the others.
pub proof fn first_occurrences_keep_their_order<T>(items: Seq<T>, last: T)
    ensures
        cors::first_occurrences(Seq::<T>::empty()).len() == 0,
        cors::first_occurrences(items.push(last)) == if items.contains(last) {
            cors::first_occurrences(items)
        } else {
            cors::first_occurrences(items).push(last)
        },
{
    assert(items.push(last).drop_last() =~= items);
}

/// What the operator is told of an origin.
pub proof fn wrong_origins_are_told(fault: CorsFault, origin: Seq<char>)
    ensures
        cors::cors_message(fault, origin) == match fault {
            CorsFault::Wildcard => "CORS_ORIGINS must not contain a wildcard"@,
            CorsFault::InvalidOrigin => "invalid CORS origin: "@ + origin,
            CorsFault::NotExact =>
                "CORS origin must be an exact http(s) origin without a path: "@ + origin,
            CorsFault::InvalidHeader => "invalid CORS origin header: "@ + origin,
        },
{
}

} // verus!
