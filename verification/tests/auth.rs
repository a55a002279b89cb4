use hhm_api::auth::{
    check_remote_uri, parse_identity_allowlist, validate_identifier, validate_remote_url,
    AuthEnvironment, AuthOutcome, Authorization, DualAuth, IdentityKey,
};
use hhm_api::uri::UriParts;

fn setting(value: &str) -> Option<String> {
    Some(value.to_owned())
}

fn environment() -> AuthEnvironment {
    AuthEnvironment {
        shared_auth_base: setting(" https://auth.example.test "),
        issuer: setting("https://issuer.example.test"),
        audience: setting("hhm"),
        introspect_secret: setting("secret"),
        supabase_url: setting("http://localhost:54321"),
        supabase_project: setting("project"),
        supabase_api_key: setting("anon"),
        qr_issuers: setting("supabase|house-prod|subject-1"),
    }
}

fn fault(environment: AuthEnvironment) -> String {
    match DualAuth::from_environment(&environment) {
        Err(message) => message,
        Ok(_) => panic!("no fault"),
    }
}

fn caller(provider: &str, tenant: &str, subject: &str) -> AuthOutcome {
    AuthOutcome::Authenticated {
        provider: provider.to_owned(),
        tenant: tenant.to_owned(),
        subject: subject.to_owned(),
    }
}

#[test]
fn parses_exact_provider_identity_tuples() {
    let identities =
        parse_identity_allowlist("supabase|house-prod|subject-1, local|default|resident-kiosk")
            .expect("valid allowlist");
    assert!(identities.contains(&IdentityKey {
        provider: "supabase".to_owned(),
        tenant: "house-prod".to_owned(),
        subject: "subject-1".to_owned(),
    }));
    assert_eq!(identities.len(), 2);
}

#[test]
fn rejects_email_or_partial_identity_shortcuts() {
    assert!(parse_identity_allowlist("person@example.com").is_err());
    assert!(parse_identity_allowlist("supabase|tenant").is_err());
    assert!(parse_identity_allowlist("supabase|tenant|bad|subject").is_err());
}

#[test]
fn rejects_plaintext_remote_authorities() {
    assert!(validate_remote_url("AUTHORITY", "http://auth.example.test").is_err());
    assert!(validate_remote_url("AUTHORITY", "http://127.0.0.1:8080").is_ok());
    assert!(validate_remote_url("AUTHORITY", "https://auth.example.test").is_ok());
}

#[test]
fn an_allowlist_says_what_is_wrong_with_it() {
    assert_eq!(
        parse_identity_allowlist("a|b|c,person@example.com").err(),
        setting("HHM_QR_ISSUER_IDENTITIES entries must use provider|tenant|subject without email addresses")
    );
    assert_eq!(
        parse_identity_allowlist("a||c").err(),
        setting("HHM_QR_ISSUER_IDENTITIES contains an invalid identity tuple")
    );
    assert_eq!(
        parse_identity_allowlist(" , ").err(),
        setting("HHM_QR_ISSUER_IDENTITIES must contain at least one exact identity tuple")
    );
    assert_eq!(parse_identity_allowlist("a | b | c,a|b|c").unwrap().len(), 1);
}

#[test]
fn an_authority_is_called_over_https_or_on_this_machine() {
    let insecure = "AUTHORITY must use HTTPS, except for explicit loopback development";
    assert_eq!(
        validate_remote_url("AUTHORITY", "not a url"),
        Err("AUTHORITY must be an absolute URL".to_owned())
    );
    assert_eq!(validate_remote_url("AUTHORITY", "/path"), Err(insecure.to_owned()));
    assert_eq!(validate_remote_url("AUTHORITY", "ftp://localhost"), Err(insecure.to_owned()));
    assert_eq!(validate_remote_url("AUTHORITY", "http://[::1]:9999/auth"), Ok(()));
    assert_eq!(validate_remote_url("AUTHORITY", "HTTPS://auth.example.test"), Ok(()));
    let parts = |scheme: &str, host: &str| {
        Some(UriParts {
            scheme: setting(scheme),
            host: setting(host),
            has_authority: true,
            path: "/".to_owned(),
            query: None,
        })
    };
    assert_eq!(check_remote_uri("A", &parts("http", "localhost")), Ok(()));
    assert!(check_remote_uri("A", &parts("http", "localhost.example.test")).is_err());
    assert_eq!(check_remote_uri("A", &parts("https", "auth.example.test")), Ok(()));
    assert_eq!(check_remote_uri("A", &None), Err("A must be an absolute URL".to_owned()));
}

#[test]
fn an_identifier_is_bounded() {
    assert_eq!(validate_identifier("NAME", &"x".repeat(255), 255), Ok(()));
    assert_eq!(
        validate_identifier("NAME", &"x".repeat(256), 255),
        Err("NAME is invalid".to_owned())
    );
    assert_eq!(validate_identifier("NAME", "a|b", 255), Err("NAME is invalid".to_owned()));
}

#[test]
fn dual_auth_takes_all_of_its_settings_or_none() {
    let auth = DualAuth::from_environment(&environment()).unwrap().expect("configured");
    let guard = auth.guard();
    assert_eq!(guard.shared_auth_base, "https://auth.example.test");
    assert_eq!(guard.supabase_url, "http://localhost:54321");
    assert_eq!(guard.login_url, "/auth/sign-in");
    assert_eq!(guard.arm_timeout_millis, 1_200);
    assert_eq!(guard.race_deadline_millis, 1_500);

    let absent = AuthEnvironment {
        shared_auth_base: None,
        issuer: setting("  "),
        audience: None,
        introspect_secret: None,
        supabase_url: None,
        supabase_project: None,
        supabase_api_key: None,
        qr_issuers: None,
    };
    assert!(DualAuth::from_environment(&absent).unwrap().is_none());

    let mut partial = environment();
    partial.issuer = None;
    partial.qr_issuers = None;
    assert_eq!(
        fault(partial),
        "SHARED_AUTH_ISSUER is required when dual authentication is enabled"
    );
    let mut unlisted = environment();
    unlisted.qr_issuers = setting("\t");
    assert_eq!(
        fault(unlisted),
        "HHM_QR_ISSUER_IDENTITIES is required when dual authentication is enabled"
    );
    let mut plaintext = environment();
    plaintext.supabase_url = setting("http://db.example.test");
    assert_eq!(
        fault(plaintext),
        "SUPABASE_URL must use HTTPS, except for explicit loopback development"
    );
    let mut audience = environment();
    audience.audience = setting(&"a".repeat(256));
    assert_eq!(fault(audience), "SHARED_AUTH_AUDIENCE is invalid");
    let mut project = environment();
    project.supabase_project = setting("a|b");
    assert_eq!(fault(project), "SUPABASE_PROJECT_REF is invalid");
    let mut shortcut = environment();
    shortcut.qr_issuers = setting("person@example.com");
    shortcut.supabase_url = setting("http://db.example.test");
    assert!(fault(shortcut).starts_with("HHM_QR_ISSUER_IDENTITIES entries must use"));
}

#[test]
fn only_listed_identities_may_issue_codes() {
    let auth = DualAuth::from_environment(&environment()).unwrap().expect("configured");
    assert_eq!(
        auth.authorize_qr_issuer(&caller("supabase", "house-prod", "subject-1")),
        Authorization::Authorized
    );
    assert_eq!(
        auth.authorize_qr_issuer(&caller("supabase", "house-dev", "subject-1")),
        Authorization::Forbidden
    );
    assert_eq!(auth.authorize_qr_issuer(&caller("", "", "")), Authorization::Forbidden);
    assert_eq!(auth.authorize_qr_issuer(&AuthOutcome::Anonymous), Authorization::Anonymous);
    assert_eq!(
        auth.authorize_qr_issuer(&AuthOutcome::Unauthenticated),
        Authorization::Unauthenticated
    );
    assert_eq!(auth.authorize_qr_issuer(&AuthOutcome::Degraded), Authorization::Degraded);
}
