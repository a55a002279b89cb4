//! The tokens in visitor QR codes: a payload of claims under a signature.

use crate::base64url;
use crate::json;
use crate::moment::{Moment, Timestamp};
use crate::seal;
use crate::table::KeySet;
use crate::text;
use crate::visitor::{VisitorAction, VisitorError};
use vstd::prelude::*;
use vstd::string::*;

verus! {

/// The schema of the claims in a token.
pub const QR_SCHEMA: &'static str = "hhm.visitor-qr.v1";

/// The audience of a token.
pub const QR_AUDIENCE: &'static str = "hhm-visitor-access";

/// The first segment of a token.
pub const TOKEN_PREFIX: &'static str = "hhm1";

/// What goes before the payload of a token when it is signed.
pub const SIGNATURE_CONTEXT: &'static str = "hhm.visitor-qr.signature.v1\0";

/// The seconds for which a token is issued.
pub const QR_MINUTE_SECONDS: i64 = 60;

/// How long a token is taken after its minute, in seconds.
pub const QR_GRACE_SECONDS: i64 = 15;

/// The longest token, in bytes.
pub const MAX_TOKEN_BYTES: usize = 1_024;

/// The longest payload of a token, in bytes.
pub const MAX_PAYLOAD_BYTES: usize = 512;

/// The longest signature segment by which redemptions are counted, in bytes.
pub const MAX_REDEMPTION_KEY_BYTES: usize = 64;

/// What a token claims.
#[derive(Debug)]
pub struct QrClaims {
    pub schema: String,
    pub audience: String,
    pub door_id: String,
    pub action: VisitorAction,
    pub issued_minute: i64,
}

/// The claims of a token with their texts as characters.
pub struct Claims {
    pub schema: Seq<char>,
    pub audience: Seq<char>,
    pub door_id: Seq<char>,
    pub action: VisitorAction,
    pub issued_minute: i64,
}

impl View for QrClaims {
    type V = Claims;

    open spec fn view(&self) -> Claims {
        Claims {
            schema: self.schema@,
            audience: self.audience@,
            door_id: self.door_id@,
            action: self.action,
            issued_minute: self.issued_minute,
        }
    }
}

/// The claims of the token for `action` at `door` in `minute`.
pub open spec fn claims_for(door: Seq<char>, action: VisitorAction, minute: i64) -> Claims {
    Claims {
        schema: QR_SCHEMA@,
        audience: QR_AUDIENCE@,
        door_id: door,
        action,
        issued_minute: minute,
    }
}

/// The claims of the token for `action` at `door` in `minute`.
pub fn issued_claims(door: &str, action: VisitorAction, minute: i64) -> (r: QrClaims)
    ensures
        r@ == claims_for(door@, action, minute),
{
    QrClaims {
        schema: QR_SCHEMA.to_owned(),
        audience: QR_AUDIENCE.to_owned(),
        door_id: door.to_owned(),
        action,
        issued_minute: minute,
    }
}

/// The name of `action` in a payload.
pub open spec fn wire_name(action: VisitorAction) -> Seq<char> {
    match action {
        VisitorAction::CheckIn => "check_in"@,
        VisitorAction::CheckOut => "check_out"@,
    }
}

/// Claims as a payload holds them: a JSON object of their five fields, in this order and without
/// white space.
pub open spec fn claims_text(c: Claims) -> Seq<char> {
    "{\"schema\":"@ + json::quoted(c.schema) + ",\"audience\":"@ + json::quoted(c.audience)
        + ",\"door_id\":"@ + json::quoted(c.door_id) + ",\"action\":"@ + json::quoted(
        wire_name(c.action),
    ) + ",\"issued_minute\":"@ + json::integer(c.issued_minute as int) + "}"@
}

/// The payload that holds the claims `c`.
pub open spec fn payload_of(c: Claims) -> Seq<u8> {
    vstd::utf8::encode_utf8(claims_text(c))
}

/// Claims as a payload holds them.
pub fn write_claims(claims: &QrClaims) -> (r: Result<String, VisitorError>)
    ensures
        r is Ok,
        r->Ok_0@ == claims_text(claims@),
{
    let action: &'static str = match claims.action {
        VisitorAction::CheckIn => "check_in",
        VisitorAction::CheckOut => "check_out",
    };
    let schema: Option<String> = json::quoted_text(claims.schema.as_str());
    let audience: Option<String> = json::quoted_text(claims.audience.as_str());
    let door_id: Option<String> = json::quoted_text(claims.door_id.as_str());
    let action: Option<String> = json::quoted_text(action);
    match (schema, audience, door_id, action) {
        (Some(schema), Some(audience), Some(door_id), Some(action)) => {
            let mut out: String = "{\"schema\":".to_owned();
            out.append(schema.as_str());
            out.append(",\"audience\":");
            out.append(audience.as_str());
            out.append(",\"door_id\":");
            out.append(door_id.as_str());
            out.append(",\"action\":");
            out.append(action.as_str());
            out.append(",\"issued_minute\":");
            out.append(json::integer_text(claims.issued_minute).as_str());
            out.append("}");
            Ok(out)
        },
        _ => Err(VisitorError::InvalidQr),
    }
}

/// The signature of an encoded payload.
pub open spec fn signature(key: Seq<u8>, encoded_payload: Seq<char>) -> Seq<u8> {
    seal::hmac_sha256(
        key,
        vstd::utf8::encode_utf8(SIGNATURE_CONTEXT@) + vstd::utf8::encode_utf8(encoded_payload),
    )
}

/// The token with `payload` under the signature of `key`.
pub open spec fn token_text(key: Seq<u8>, payload: Seq<u8>) -> Seq<char> {
    let encoded_payload = base64url::encoded(payload);
    TOKEN_PREFIX@.push('.') + (encoded_payload.push('.') + base64url::encoded(
        signature(key, encoded_payload),
    ))
}

/// The signature of an encoded payload.
pub fn sign_token_payload(key: &[u8], encoded_payload: &str) -> (r: Result<Vec<u8>, VisitorError>)
    ensures
        r is Ok,
        r->Ok_0@ == signature(key@, encoded_payload@),
        r->Ok_0@.len() == 32,
{
    match seal::tag(key, SIGNATURE_CONTEXT.as_bytes(), encoded_payload.as_bytes()) {
        Some(code) => Ok(code),
        None => Err(VisitorError::InvalidQr),
    }
}

/// The token with `payload` under the signature of `key`. A payload within its bound comes out
/// again when the token is opened with the same key.
pub fn seal_payload(key: &[u8], payload: &[u8]) -> (r: Result<String, VisitorError>)
    ensures
        r is Ok,
        r->Ok_0@ == token_text(key@, payload@),
        payload@.len() <= MAX_PAYLOAD_BYTES ==> forall|doors: Set<Seq<char>>, door: Seq<char>|
            doors.contains(door) ==> #[trigger] opened(key@, doors, r->Ok_0@, door) == Ok::<
                _,
                VisitorError,
            >(payload@),
        redemption_key(r->Ok_0@) == Ok::<_, VisitorError>(
            base64url::encoded(signature(key@, base64url::encoded(payload@))),
        ),
{
    let encoded_payload: String = base64url::encode(payload);
    let code: Vec<u8> = match sign_token_payload(key, encoded_payload.as_str()) {
        Ok(code) => code,
        Err(e) => {
            return Err(e);
        },
    };
    let mut token: String = TOKEN_PREFIX.to_owned();
    token.push('.');
    token.append(encoded_payload.as_str());
    token.push('.');
    token.append(base64url::encode(code.as_slice()).as_str());
    proof {
        assert(token@ =~= token_text(key@, payload@));
        lemma_token_redemption_key(key@, payload@);
        if payload@.len() <= MAX_PAYLOAD_BYTES {
            assert forall|doors: Set<Seq<char>>, door: Seq<char>|
                doors.contains(door) implies #[trigger] opened(key@, doors, token@, door) == Ok::<
                _,
                VisitorError,
            >(payload@) by {
                lemma_token_opens(key@, payload@, doors, door);
            }
        }
    }
    Ok(token)
}

/// The payload of a token that is shown at `door`, one of `doors`, and bears the signature of
/// `key`.
pub open spec fn opened(
    key: Seq<u8>,
    doors: Set<Seq<char>>,
    token: Seq<char>,
    door: Seq<char>,
) -> Result<Seq<u8>, VisitorError> {
    let segments = text::pieces(token, '.');
    if text::byte_len(token) > MAX_TOKEN_BYTES {
        Err(VisitorError::InvalidQr)
    } else if !doors.contains(door) {
        Err(VisitorError::InvalidDoor)
    } else if segments.len() != 3 || segments[0] != TOKEN_PREFIX@ || text::byte_len(segments[1])
        > MAX_PAYLOAD_BYTES * 2 {
        Err(VisitorError::InvalidQr)
    } else if base64url::decoded(segments[2]) != Some(signature(key, segments[1])) {
        Err(VisitorError::InvalidQr)
    } else {
        match base64url::decoded(segments[1]) {
            Some(payload) if payload.len() <= MAX_PAYLOAD_BYTES => Ok(payload),
            _ => Err(VisitorError::InvalidQr),
        }
    }
}

/// The payload of a token that is shown at `door`, one of `doors`, and bears the signature of
/// `key`.
pub fn open_token(key: &[u8], doors: &KeySet<String>, token: &str, door: &str) -> (r: Result<
    Vec<u8>,
    VisitorError,
>)
    ensures
        match r {
            Ok(payload) => opened(key@, doors@, token@, door@) == Ok::<_, VisitorError>(payload@),
            Err(e) => opened(key@, doors@, token@, door@) == Err::<Seq<u8>, _>(e),
        },
{
    if text::len_in_bytes(token) > MAX_TOKEN_BYTES {
        return Err(VisitorError::InvalidQr);
    }
    if !doors.contains(&door.to_owned()) {
        return Err(VisitorError::InvalidDoor);
    }
    let segments: Vec<&str> = text::split(token, '.');
    let ghost parts = text::pieces(token@, '.');
    proof {
        assert(parts.len() == segments@.len());
        assert forall|i: int| 0 <= i < parts.len() implies #[trigger] parts[i]
            == segments@[i]@ by {
            assert(text::texts(segments@)[i] == segments@[i]@);
        }
    }
    if segments.len() != 3 || *segments[0] != *TOKEN_PREFIX || text::len_in_bytes(segments[1])
        > MAX_PAYLOAD_BYTES * 2 {
        return Err(VisitorError::InvalidQr);
    }
    let code: Vec<u8> = match base64url::decode(segments[2]) {
        Some(code) => code,
        None => {
            return Err(VisitorError::InvalidQr);
        },
    };
    proof {
        base64url::lemma_decoded_encoded(code@);
    }
    match seal::accepts(
        key,
        SIGNATURE_CONTEXT.as_bytes(),
        segments[1].as_bytes(),
        code.as_slice(),
    ) {
        Some(true) => {},
        _ => {
            return Err(VisitorError::InvalidQr);
        },
    }
    match base64url::decode(segments[1]) {
        Some(payload) => {
            proof {
                base64url::lemma_decoded_encoded(payload@);
            }
            if payload.len() > MAX_PAYLOAD_BYTES {
                Err(VisitorError::InvalidQr)
            } else {
                Ok(payload)
            }
        },
        None => Err(VisitorError::InvalidQr),
    }
}

/// The claims in a payload, where it holds any.
pub open spec fn read_claims(claims: Option<QrClaims>) -> Option<Claims> {
    match claims {
        Some(c) => Some(c@),
        None => None,
    }
}

/// Whether a token with `claims` is good for `action` at `door`, one of `doors`, at `now`.
pub open spec fn claims_verdict(
    doors: Set<Seq<char>>,
    claims: Option<Claims>,
    door: Seq<char>,
    action: VisitorAction,
    now: Moment,
) -> Result<(), VisitorError> {
    match claims {
        None => Err(VisitorError::InvalidQr),
        Some(c) => {
            let issued_at = c.issued_minute * QR_MINUTE_SECONDS;
            let expires_at = issued_at + QR_MINUTE_SECONDS + QR_GRACE_SECONDS;
            if c.schema != QR_SCHEMA@ || c.audience != QR_AUDIENCE@ || c.door_id != door
                || c.action != action || !doors.contains(c.door_id) {
                Err(VisitorError::InvalidQr)
            } else if issued_at < i64::MIN || expires_at > i64::MAX {
                Err(VisitorError::InvalidQr)
            } else if now.seconds < issued_at || now.seconds > expires_at {
                Err(VisitorError::ExpiredQr)
            } else {
                Ok(())
            }
        },
    }
}

/// Whether a token with `claims` is good for `action` at `door`, one of `doors`, at `now`.
pub fn check_claims(
    doors: &KeySet<String>,
    claims: &Option<QrClaims>,
    door: &str,
    action: VisitorAction,
    now: Timestamp,
) -> (r: Result<(), VisitorError>)
    ensures
        r == claims_verdict(doors@, read_claims(*claims), door@, action, now@),
{
    let claims: &QrClaims = match claims {
        Some(claims) => claims,
        None => {
            return Err(VisitorError::InvalidQr);
        },
    };
    if *claims.schema.as_str() != *QR_SCHEMA || *claims.audience.as_str() != *QR_AUDIENCE
        || *claims.door_id.as_str() != *door || claims.action != action || !doors.contains(
        &claims.door_id,
    ) {
        return Err(VisitorError::InvalidQr);
    }
    let issued_at: i64 = match claims.issued_minute.checked_mul(QR_MINUTE_SECONDS) {
        Some(seconds) => seconds,
        None => {
            return Err(VisitorError::InvalidQr);
        },
    };
    let expires_at: i64 = match issued_at.checked_add(QR_MINUTE_SECONDS + QR_GRACE_SECONDS) {
        Some(seconds) => seconds,
        None => {
            return Err(VisitorError::InvalidQr);
        },
    };
    if now.seconds() < issued_at || now.seconds() > expires_at {
        return Err(VisitorError::ExpiredQr);
    }
    Ok(())
}

/// What stands behind the last `.` of a token, where that is its signature: not empty and within
/// its bound.
pub open spec fn redemption_key(token: Seq<char>) -> Result<Seq<char>, VisitorError> {
    let segments = text::pieces(token, '.');
    if segments.len() >= 2 && 0 < segments.last().len() && text::byte_len(segments.last())
        <= MAX_REDEMPTION_KEY_BYTES {
        Ok(segments.last())
    } else {
        Err(VisitorError::InvalidQr)
    }
}

/// The key under which the redemptions of a token are counted: its signature segment.
pub fn qr_redemption_key(token: &str) -> (r: Result<String, VisitorError>)
    ensures
        match r {
            Ok(key) => redemption_key(token@) == Ok::<_, VisitorError>(key@),
            Err(e) => redemption_key(token@) == Err::<Seq<char>, _>(e),
        },
{
    let segments: Vec<&str> = text::split(token, '.');
    proof {
        assert(text::texts(segments@).len() == segments@.len());
    }
    if segments.len() < 2 {
        return Err(VisitorError::InvalidQr);
    }
    let last: &str = segments[segments.len() - 1];
    proof {
        assert(text::texts(segments@).last() == last@);
    }
    if last.is_empty() || text::len_in_bytes(last) > MAX_REDEMPTION_KEY_BYTES {
        return Err(VisitorError::InvalidQr);
    }
    Ok(last.to_owned())
}

/// What is written in base64 holds no dot, and each character takes one byte.
pub proof fn lemma_encoded_plain(bytes: Seq<u8>)
    ensures
        !base64url::encoded(bytes).contains('.'),
        text::byte_len(base64url::encoded(bytes)) == base64url::encoded_len(bytes.len()),
        vstd::utf8::is_ascii_chars(base64url::encoded(bytes)),
{
    let coded = base64url::encoded(bytes);
    assert forall|i: int| 0 <= i < coded.len() implies base64url::in_alphabet(
        #[trigger] coded[i],
    ) by {
        base64url::lemma_encoded_alphabet(bytes, i);
    }
    assert(vstd::utf8::is_ascii_chars(coded));
    vstd::utf8::is_ascii_chars_encode_utf8(coded);
}

/// The segments of a token are its prefix, its payload and its signature.
pub proof fn lemma_token_segments(key: Seq<u8>, payload: Seq<u8>)
    ensures
        text::pieces(token_text(key, payload), '.') == seq![
            TOKEN_PREFIX@,
            base64url::encoded(payload),
            base64url::encoded(signature(key, base64url::encoded(payload))),
        ],
{
    let a = TOKEN_PREFIX@;
    let b = base64url::encoded(payload);
    let c = base64url::encoded(signature(key, b));
    reveal_strlit("hhm1");
    assert(!a.contains('.'));
    lemma_encoded_plain(payload);
    lemma_encoded_plain(signature(key, b));
    text::lemma_pieces_of_plain(a, '.');
    text::lemma_pieces_of_plain(b, '.');
    text::lemma_pieces_of_plain(c, '.');
    text::lemma_pieces_of_joined(b, c, '.');
    text::lemma_pieces_of_joined(a, b.push('.') + c, '.');
    assert(text::pieces(token_text(key, payload), '.') =~= seq![a, b, c]);
}

proof fn lemma_token_bytes(key: Seq<u8>, payload: Seq<u8>)
    ensures
        text::byte_len(token_text(key, payload)) == 6 + base64url::encoded_len(payload.len())
            + base64url::encoded_len(signature(key, base64url::encoded(payload)).len()),
{
    let a = TOKEN_PREFIX@;
    let b = base64url::encoded(payload);
    let c = base64url::encoded(signature(key, b));
    reveal_strlit("hhm1");
    lemma_encoded_plain(payload);
    lemma_encoded_plain(signature(key, b));
    let whole = token_text(key, payload);
    assert(vstd::utf8::is_ascii_chars(whole)) by {
        assert forall|i: int| 0 <= i < whole.len() implies (#[trigger] whole[i]) as nat
            <= 0x7f by {
            if i < 5 {
            } else if i < 5 + b.len() {
                assert(whole[i] == b[i - 5]);
            } else if i > 5 + b.len() {
                assert(whole[i] == c[i - 6 - b.len()]);
            }
        }
    }
    vstd::utf8::is_ascii_chars_encode_utf8(whole);
}

/// A sealed payload comes out again, at every door that there is.
pub proof fn lemma_token_opens(
    key: Seq<u8>,
    payload: Seq<u8>,
    doors: Set<Seq<char>>,
    door: Seq<char>,
)
    requires
        payload.len() <= MAX_PAYLOAD_BYTES,
        doors.contains(door),
        signature(key, base64url::encoded(payload)).len() == 32,
    ensures
        opened(key, doors, token_text(key, payload), door) == Ok::<_, VisitorError>(payload),
{
    lemma_token_segments(key, payload);
    lemma_token_bytes(key, payload);
    lemma_encoded_plain(payload);
    base64url::lemma_decoded_encoded(payload);
    base64url::lemma_decoded_encoded(signature(key, base64url::encoded(payload)));
}

/// The redemptions of a token are counted under its signature.
pub proof fn lemma_token_redemption_key(key: Seq<u8>, payload: Seq<u8>)
    requires
        signature(key, base64url::encoded(payload)).len() == 32,
    ensures
        redemption_key(token_text(key, payload)) == Ok::<_, VisitorError>(
            base64url::encoded(signature(key, base64url::encoded(payload))),
        ),
{
    lemma_token_segments(key, payload);
    lemma_encoded_plain(signature(key, base64url::encoded(payload)));
}

} // verus!
