//! What visitor access answers, said of the requests and the answers themselves.

use crate::base64url;
use crate::identifier;
use crate::moment::Moment;
use crate::seal;
use crate::text;
use crate::token::{self, QrClaims};
use crate::visitor::{
    self, Access, Admission, CheckInReceipt, CheckInRequest, CheckOutReceipt, CheckOutRequest,
    IssuedQr, Register, Release, Stay, VisitorAction, VisitorConfigError, VisitorError,
};
use crate::visitor_laws;
use vstd::prelude::*;
use vstd::string::*;

verus! {

/// A door is identified by at most 64 lower-case letters, digits, hyphens and underscores.
pub proof fn door_identifiers_are_plain(s: Seq<char>)
    ensures
        visitor::door_id(s) <==> s.len() <= 64 && forall|i: int|
            0 <= i < s.len() ==> ('a' <= #[trigger] s[i] <= 'z' || '0' <= s[i] <= '9' || s[i] == '-'
                || s[i] == '_'),
{
    let allowed = forall|i: int|
        0 <= i < s.len() ==> ('a' <= #[trigger] s[i] <= 'z' || '0' <= s[i] <= '9' || s[i] == '-'
            || s[i] == '_');
    if allowed {
        assert forall|i: int| 0 <= i < s.len() implies visitor::door_char(#[trigger] s[i]) by {}
        assert(vstd::utf8::is_ascii_chars(s));
        vstd::utf8::is_ascii_chars_encode_utf8(s);
    } else {
        let i = choose|i: int|
            0 <= i < s.len() && !('a' <= #[trigger] s[i] <= 'z' || '0' <= s[i] <= '9' || s[i] == '-'
                || s[i] == '_');
        assert(!visitor::door_char(s[i]));
    }
}

/// A path names the actions `check-in` and `check-out` and no other, and each is logged under its
/// own name.
pub proof fn actions_have_their_names(path: Seq<char>)
    ensures
        visitor::named_action(path) == Ok::<_, VisitorError>(VisitorAction::CheckIn) <==> path
            == "check-in"@,
        visitor::named_action(path) == Ok::<_, VisitorError>(VisitorAction::CheckOut) <==> path
            == "check-out"@,
        visitor::named_action(path) is Err ==> visitor::named_action(path) == Err::<
            VisitorAction,
            _,
        >(VisitorError::InvalidAction),
        VisitorAction::CheckIn.event_name() == "visitor.check_in"@,
        VisitorAction::CheckOut.event_name() == "visitor.check_out"@,
{
    reveal_strlit("check-in");
    reveal_strlit("check-out");
    assert("check-in"@.len() == 8 && "check-out"@.len() == 9);
}

/// The claims of a token are those of its door, its action and its minute, for visitors of this
/// house.
pub proof fn claims_say_what_a_token_is_for(door: Seq<char>, action: VisitorAction, minute: i64)
    ensures
        ({
            let c = token::claims_for(door, action, minute);
            &&& c.schema == "hhm.visitor-qr.v1"@
            &&& c.audience == "hhm-visitor-access"@
            &&& c.door_id == door
            &&& c.action == action
            &&& c.issued_minute == minute
        }),
{
}

/// Claims that were read are shown field by field.
pub proof fn claims_are_seen_as_they_are(c: QrClaims)
    ensures
        c@.schema == c.schema@,
        c@.audience == c.audience@,
        c@.door_id == c.door_id@,
        c@.action == c.action,
        c@.issued_minute == c.issued_minute,
        token::read_claims(Some(c)) == Some(c@),
        token::read_claims(None) is None,
{
}

/// Receipts are shown field by field.
pub proof fn receipts_are_seen_as_they_are(i: CheckInReceipt, o: CheckOutReceipt)
    ensures
        i@.visit_id == i.visit_id,
        i@.checkout_receipt == i.checkout_receipt@,
        i@.checked_in_at == i.checked_in_at@,
        o@.visit_id == o.visit_id,
        o@.checked_out_at == o.checked_out_at@,
        visitor::shown(Ok::<_, VisitorError>(i)) == Ok::<_, VisitorError>(i@),
        visitor::shown(Ok::<_, VisitorError>(o)) == Ok::<_, VisitorError>(o@),
{
}

/// A token is the prefix, the payload and the signature of the payload under the key, in base64,
/// between dots.
pub proof fn tokens_are_sealed_payloads(key: Seq<u8>, payload: Seq<u8>)
    ensures
        ({
            let coded = base64url::encoded(payload);
            let context = vstd::utf8::encode_utf8("hhm.visitor-qr.signature.v1\0"@);
            let code = seal::hmac_sha256(key, context + vstd::utf8::encode_utf8(coded));
            token::token_text(key, payload) == "hhm1"@ + seq!['.'] + coded + seq!['.']
                + base64url::encoded(code)
        }),
{
    let coded = base64url::encoded(payload);
    let context = vstd::utf8::encode_utf8("hhm.visitor-qr.signature.v1\0"@);
    let code = seal::hmac_sha256(key, context + vstd::utf8::encode_utf8(coded));
    assert(token::token_text(key, payload) =~= "hhm1"@ + seq!['.'] + coded + seq!['.']
        + base64url::encoded(code));
}

/// A token of at most 1024 bytes that is shown at a door of the service opens exactly where it is
/// a payload of at most 512 bytes sealed under the key, and then to that payload. A door that is
/// not one of the service's is told; anything else is an invalid code.
pub proof fn tokens_open_by_their_seal(
    key: Seq<u8>,
    doors: Set<Seq<char>>,
    t: Seq<char>,
    door: Seq<char>,
)
    ensures
        ({
            let r = token::opened(key, doors, t, door);
            &&& text::byte_len(t) <= 1024 && !doors.contains(door) <==> r == Err::<Seq<u8>, _>(
                VisitorError::InvalidDoor,
            )
            &&& r matches Ok(p) ==> {
                &&& text::byte_len(t) <= 1024
                &&& doors.contains(door)
                &&& p.len() <= 512
                &&& t == token::token_text(key, p)
            }
            &&& r is Err && doors.contains(door) ==> r == Err::<Seq<u8>, _>(VisitorError::InvalidQr)
            &&& r is Err && text::byte_len(t) > 1024 ==> r == Err::<Seq<u8>, _>(
                VisitorError::InvalidQr,
            )
        }),
        forall|p: Seq<u8>|
            t == #[trigger] token::token_text(key, p) && p.len() <= 512 && text::byte_len(t) <= 1024
                && doors.contains(door) ==> token::opened(key, doors, t, door) == Ok::<
                _,
                VisitorError,
            >(p),
{
    if token::opened(key, doors, t, door) is Ok {
        visitor_laws::only_sealed_tokens_open(key, doors, t, door);
    }
    assert forall|p: Seq<u8>|
        t == #[trigger] token::token_text(key, p) && p.len() <= 512 && text::byte_len(t) <= 1024
            && doors.contains(door) implies token::opened(key, doors, t, door) == Ok::<
        _,
        VisitorError,
    >(p) by {
        token::lemma_token_segments(key, p);
        token::lemma_encoded_plain(p);
        base64url::lemma_decoded_encoded(p);
        base64url::lemma_decoded_encoded(token::signature(key, base64url::encoded(p)));
    }
}

/// Claims are good exactly where they are for visitors of this house, for the door and the action
/// at hand, and the moment lies in the minute that they name or the fifteen seconds after it.
/// Outside that time they have expired; anything else that is wrong makes the code invalid.
pub proof fn claims_are_good_for_one_door_action_and_time(
    doors: Set<Seq<char>>,
    c: token::Claims,
    door: Seq<char>,
    action: VisitorAction,
    now: Moment,
)
    ensures
        ({
            let r = token::claims_verdict(doors, Some(c), door, action, now);
            let start = 60 * c.issued_minute;
            let right = c.schema == "hhm.visitor-qr.v1"@ && c.audience == "hhm-visitor-access"@
                && c.door_id == door && c.action == action && doors.contains(door) && i64::MIN
                <= start && start + 75 <= i64::MAX;
            let timely = start <= now.seconds <= start + 75;
            &&& r is Ok <==> right && timely
            &&& r == Err::<(), _>(VisitorError::ExpiredQr) <==> right && !timely
            &&& r == Err::<(), _>(VisitorError::InvalidQr) <==> !right
        }),
        token::claims_verdict(doors, None, door, action, now) == Err::<(), _>(
            VisitorError::InvalidQr,
        ),
{
}

/// The redemptions of a token are counted under what stands behind its last dot, where that is
/// not empty and takes at most 64 bytes.
pub proof fn redemptions_are_counted_by_the_last_segment(t: Seq<char>, key: Seq<char>)
    ensures
        token::redemption_key(t) == Ok::<_, VisitorError>(key) ==> {
            &&& 0 < key.len()
            &&& text::byte_len(key) <= 64
            &&& exists|head: Seq<char>| t == #[trigger] head.push('.') + key
        },
        token::redemption_key(t) is Err ==> token::redemption_key(t) == Err::<Seq<char>, _>(
            VisitorError::InvalidQr,
        ),
        (exists|head: Seq<char>| t == #[trigger] head.push('.') + key) && !key.contains('.') && 0
            < key.len() && text::byte_len(key) <= 64 ==> token::redemption_key(t) == Ok::<
            _,
            VisitorError,
        >(key),
{
    let parts = text::pieces(t, '.');
    text::lemma_joined_pieces(t, '.');
    if token::redemption_key(t) == Ok::<_, VisitorError>(key) {
        let head = text::joined(parts.drop_last(), '.');
        assert(t == head.push('.') + key);
    }
    if exists|head: Seq<char>| t == #[trigger] head.push('.') + key && !key.contains('.') {
        let head = choose|head: Seq<char>| t == #[trigger] head.push('.') + key;
        text::lemma_pieces_of_joined(head, key, '.');
        text::lemma_pieces_of_plain(key, '.');
        text::lemma_pieces_nonempty(head, '.');
    }
}

/// Whether `token` is a code for `action` at `door` that is good at `now`, by what `decode` reads
/// from it: it was sealed by the service, claims that door and that action for visitors of this
/// house, and `now` lies in its minute or the fifteen seconds after it.
pub open spec fn good_code<D: Fn(&[u8]) -> Option<QrClaims>>(
    access: Access,
    token: Seq<char>,
    door: Seq<char>,
    action: VisitorAction,
    now: Moment,
    decode: D,
) -> bool {
    exists|payload: &[u8], claims: QrClaims|
        {
            &&& #[trigger] call_ensures(decode, (payload,), Some(claims))
            &&& token == token::token_text(access.key, payload@)
            &&& payload@.len() <= 512
            &&& access.doors.contains(door)
            &&& claims.schema@ == "hhm.visitor-qr.v1"@
            &&& claims.audience@ == "hhm-visitor-access"@
            &&& claims.door_id@ == door
            &&& claims.action == action
            &&& 60 * claims.issued_minute <= now.seconds <= 60 * claims.issued_minute + 75
        }
}

/// A token that is found good is a good code for that action at that door at that moment.
pub proof fn only_good_codes_are_found_good<D: Fn(&[u8]) -> Option<QrClaims>>(
    access: Access,
    token: Seq<char>,
    door: Seq<char>,
    action: VisitorAction,
    now: Moment,
    decode: D,
    r: Result<(), VisitorError>,
)
    requires
        visitor::verified(access, token, door, action, now, decode, r),
    ensures
        r is Ok ==> good_code(access, token, door, action, now, decode),
        r matches Err(e) ==> e is InvalidDoor || e is InvalidQr || e is ExpiredQr,
{
    if r is Ok {
        visitor_laws::only_sealed_tokens_open(access.key, access.doors, token, door);
        let (payload, claims) = choose|payload: &[u8], claims: Option<QrClaims>|
            {
                &&& payload@ == token::opened(access.key, access.doors, token, door)->Ok_0
                &&& #[trigger] call_ensures(decode, (payload,), claims)
                &&& r == visitor::good_for(
                    access,
                    token,
                    door,
                    action,
                    now,
                    token::read_claims(claims),
                )
            };
        assert(claims is Some);
        claims_are_good_for_one_door_action_and_time(
            access.doors,
            claims->Some_0@,
            door,
            action,
            now,
        );
        assert(call_ensures(decode, (payload,), Some(claims->Some_0)));
    }
}

proof fn lemma_entry_is_verified<D: Fn(&[u8]) -> Option<QrClaims>>(
    access: Access,
    register: Register,
    request: CheckInRequest,
    now: Moment,
    decode: D,
    answer: Result<Admission, VisitorError>,
    after: Register,
) -> (r: Result<(), VisitorError>)
    requires
        visitor::checked_in(access, register, request, now, decode, answer, after),
    ensures
        visitor::verified(
            access,
            request.qr_token@,
            request.door_id@,
            VisitorAction::CheckIn,
            now,
            decode,
            r,
        ),
        r matches Err(e) ==> answer == Err::<Admission, _>(e) && after == register,
        r is Ok ==> exists|visit_id: u128, first: u128, second: u128|
            {
                &&& #[trigger] identifier::random_version(visit_id)
                &&& #[trigger] identifier::random_version(first)
                &&& #[trigger] identifier::random_version(second)
                &&& (answer, after) == visitor::admitted(
                    access,
                    register,
                    request.qr_token@,
                    request.display_name@,
                    request.privacy_notice_version@,
                    now,
                    visit_id,
                    first,
                    second,
                )
            },
{
    match token::opened(access.key, access.doors, request.qr_token@, request.door_id@) {
        Err(e) => Err(e),
        Ok(p) => {
            let (payload, claims) = choose|payload: &[u8], claims: Option<QrClaims>|
                {
                    &&& payload@ == p
                    &&& #[trigger] call_ensures(decode, (payload,), claims)
                    &&& match visitor::good_for(
                        access,
                        request.qr_token@,
                        request.door_id@,
                        VisitorAction::CheckIn,
                        now,
                        token::read_claims(claims),
                    ) {
                        Err(e) => (answer, after) == (Err::<Admission, _>(e), register),
                        Ok(_) => exists|visit_id: u128, first: u128, second: u128|
                            {
                                &&& #[trigger] identifier::random_version(visit_id)
                                &&& #[trigger] identifier::random_version(first)
                                &&& #[trigger] identifier::random_version(second)
                                &&& (answer, after) == visitor::admitted(
                                    access,
                                    register,
                                    request.qr_token@,
                                    request.display_name@,
                                    request.privacy_notice_version@,
                                    now,
                                    visit_id,
                                    first,
                                    second,
                                )
                            },
                    }
                };
            assert(call_ensures(decode, (payload,), claims));
            visitor::good_for(
                access,
                request.qr_token@,
                request.door_id@,
                VisitorAction::CheckIn,
                now,
                token::read_claims(claims),
            )
        },
    }
}

proof fn lemma_exit_is_verified<D: Fn(&[u8]) -> Option<QrClaims>>(
    access: Access,
    register: Register,
    request: CheckOutRequest,
    now: Moment,
    decode: D,
    answer: Result<Release, VisitorError>,
    after: Register,
) -> (r: Result<(), VisitorError>)
    requires
        visitor::checked_out(access, register, request, now, decode, answer, after),
    ensures
        visitor::verified(
            access,
            request.qr_token@,
            request.door_id@,
            VisitorAction::CheckOut,
            now,
            decode,
            r,
        ),
        r matches Err(e) ==> answer == Err::<Release, _>(e) && after == register,
        r is Ok ==> (answer, after) == visitor::released(
            access,
            register,
            request.qr_token@,
            request.visit_id,
            request.checkout_receipt@,
            now,
        ),
{
    match token::opened(access.key, access.doors, request.qr_token@, request.door_id@) {
        Err(e) => Err(e),
        Ok(p) => {
            let (payload, claims) = choose|payload: &[u8], claims: Option<QrClaims>|
                {
                    &&& payload@ == p
                    &&& #[trigger] call_ensures(decode, (payload,), claims)
                    &&& (answer, after) == match visitor::good_for(
                        access,
                        request.qr_token@,
                        request.door_id@,
                        VisitorAction::CheckOut,
                        now,
                        token::read_claims(claims),
                    ) {
                        Err(e) => (Err::<Release, _>(e), register),
                        Ok(_) => visitor::released(
                            access,
                            register,
                            request.qr_token@,
                            request.visit_id,
                            request.checkout_receipt@,
                            now,
                        ),
                    }
                };
            assert(call_ensures(decode, (payload,), claims));
            visitor::good_for(
                access,
                request.qr_token@,
                request.door_id@,
                VisitorAction::CheckOut,
                now,
                token::read_claims(claims),
            )
        },
    }
}

/// Nobody checks in but with a code for checking in, good at the door of the request at that
/// moment, the current notice, and a name of at most 120 characters. The visit begins then.
pub proof fn check_in_needs_a_current_entry_code<D: Fn(&[u8]) -> Option<QrClaims>>(
    access: Access,
    register: Register,
    request: CheckInRequest,
    now: Moment,
    decode: D,
    answer: Result<Admission, VisitorError>,
    after: Register,
)
    requires
        visitor::checked_in(access, register, request, now, decode, answer, after),
    ensures
        answer matches Ok(admission) ==> {
            &&& good_code(
                access,
                request.qr_token@,
                request.door_id@,
                VisitorAction::CheckIn,
                now,
                decode,
            )
            &&& request.privacy_notice_version@ == access.notice
            &&& 0 < text::trimmed(request.display_name@).len() <= 120
            &&& admission.checked_in_at == now
            &&& after.visits.contains_key(admission.visit_id)
            &&& after.visits[admission.visit_id].display_name == Some(
                text::trimmed(request.display_name@),
            )
            &&& after.visits[admission.visit_id].checked_out_at is None
        },
        !good_code(
            access,
            request.qr_token@,
            request.door_id@,
            VisitorAction::CheckIn,
            now,
            decode,
        ) ==> after == register && (answer matches Err(e) && (e is InvalidDoor || e is InvalidQr || e
            is ExpiredQr)),
{
    let r = lemma_entry_is_verified(access, register, request, now, decode, answer, after);
    only_good_codes_are_found_good(
        access,
        request.qr_token@,
        request.door_id@,
        VisitorAction::CheckIn,
        now,
        decode,
        r,
    );
}

/// Nobody checks out but with a code for checking out, good at the door of the request at that
/// moment, and the receipt of an open visit. Then that visit is closed and its name erased.
pub proof fn check_out_needs_a_current_exit_code<D: Fn(&[u8]) -> Option<QrClaims>>(
    access: Access,
    register: Register,
    request: CheckOutRequest,
    now: Moment,
    decode: D,
    answer: Result<Release, VisitorError>,
    after: Register,
)
    requires
        visitor::checked_out(access, register, request, now, decode, answer, after),
    ensures
        answer matches Ok(release) ==> {
            &&& good_code(
                access,
                request.qr_token@,
                request.door_id@,
                VisitorAction::CheckOut,
                now,
                decode,
            )
            &&& release.visit_id == request.visit_id
            &&& release.checked_out_at == now
            &&& register.visits.contains_key(request.visit_id)
            &&& register.visits[request.visit_id].checked_out_at is None
            &&& register.visits[request.visit_id].receipt_tag == seal::hmac_sha256(
                access.key,
                vstd::utf8::encode_utf8("hhm.visitor-checkout-receipt.v1\0"@)
                    + vstd::utf8::encode_utf8(request.checkout_receipt@),
            )
            &&& after.visits[request.visit_id].checked_out_at == Some(now)
            &&& after.visits[request.visit_id].display_name is None
        },
        answer is Err ==> after.visits == register.visits,
        !good_code(
            access,
            request.qr_token@,
            request.door_id@,
            VisitorAction::CheckOut,
            now,
            decode,
        ) ==> after == register && (answer matches Err(e) && (e is InvalidDoor || e is InvalidQr || e
            is ExpiredQr)),
{
    let r = lemma_exit_is_verified(access, register, request, now, decode, answer, after);
    only_good_codes_are_found_good(
        access,
        request.qr_token@,
        request.door_id@,
        VisitorAction::CheckOut,
        now,
        decode,
        r,
    );
}

/// What a visitor is answered who asks to check in with an issued code, where its claims are read
/// as they stand there. At a door that is not one of the service's, at another door than the
/// code's or with a code for checking out, and outside the minute of the code and the fifteen
/// seconds after it, they are refused for that reason and the register stays as it was.
/// Otherwise the rest of the request decides.
pub proof fn check_in_with_an_issued_code<D: Fn(&[u8]) -> Option<QrClaims>>(
    access: Access,
    register: Register,
    door: Seq<char>,
    action: VisitorAction,
    issued_at: Moment,
    qr: IssuedQr,
    request: CheckInRequest,
    now: Moment,
    decode: D,
    answer: Result<Admission, VisitorError>,
    after: Register,
)
    requires
        visitor_laws::plain_doors(access),
        issued_at.representable(),
        visitor_laws::faithful(decode),
        visitor::issued(access, door, action, issued_at, Ok(qr)),
        qr.qr_payload@ == "hhm-visitor:"@ + request.qr_token@,
        visitor::checked_in(access, register, request, now, decode, answer, after),
    ensures
        ({
            let refused = |e: VisitorError|
                answer == Err::<Admission, VisitorError>(e) && after == register;
            if !access.doors.contains(request.door_id@) {
                refused(VisitorError::InvalidDoor)
            } else if request.door_id@ != door || action == VisitorAction::CheckOut {
                refused(VisitorError::InvalidQr)
            } else if now.seconds < 60 * issued_at.minute() || now.seconds > 60
                * issued_at.minute() + 75 {
                refused(VisitorError::ExpiredQr)
            } else {
                exists|visit_id: u128, first: u128, second: u128|
                    {
                        &&& #[trigger] identifier::random_version(visit_id)
                        &&& #[trigger] identifier::random_version(first)
                        &&& #[trigger] identifier::random_version(second)
                        &&& (answer, after) == visitor::admitted(
                            access,
                            register,
                            request.qr_token@,
                            request.display_name@,
                            request.privacy_notice_version@,
                            now,
                            visit_id,
                            first,
                            second,
                        )
                    }
            }
        }),
{
    let r = lemma_entry_is_verified(access, register, request, now, decode, answer, after);
    visitor_laws::issued_code_is_good_where_it_should_be(
        access,
        door,
        action,
        issued_at,
        decode,
        qr,
        request.qr_token@,
        request.door_id@,
        VisitorAction::CheckIn,
        now,
        r,
    );
}

/// What a visitor is answered who asks to check out with an issued code, where its claims are
/// read as they stand there. At a door that is not one of the service's, at another door than the
/// code's or with a code for checking in, and outside the minute of the code and the fifteen
/// seconds after it, they are refused for that reason and the register stays as it was.
/// Otherwise the visit and the receipt decide.
pub proof fn check_out_with_an_issued_code<D: Fn(&[u8]) -> Option<QrClaims>>(
    access: Access,
    register: Register,
    door: Seq<char>,
    action: VisitorAction,
    issued_at: Moment,
    qr: IssuedQr,
    request: CheckOutRequest,
    now: Moment,
    decode: D,
    answer: Result<Release, VisitorError>,
    after: Register,
)
    requires
        visitor_laws::plain_doors(access),
        issued_at.representable(),
        visitor_laws::faithful(decode),
        visitor::issued(access, door, action, issued_at, Ok(qr)),
        qr.qr_payload@ == "hhm-visitor:"@ + request.qr_token@,
        visitor::checked_out(access, register, request, now, decode, answer, after),
    ensures
        ({
            let refused = |e: VisitorError|
                answer == Err::<Release, VisitorError>(e) && after == register;
            if !access.doors.contains(request.door_id@) {
                refused(VisitorError::InvalidDoor)
            } else if request.door_id@ != door || action == VisitorAction::CheckIn {
                refused(VisitorError::InvalidQr)
            } else if now.seconds < 60 * issued_at.minute() || now.seconds > 60
                * issued_at.minute() + 75 {
                refused(VisitorError::ExpiredQr)
            } else {
                (answer, after) == visitor::released(
                    access,
                    register,
                    request.qr_token@,
                    request.visit_id,
                    request.checkout_receipt@,
                    now,
                )
            }
        }),
{
    let r = lemma_exit_is_verified(access, register, request, now, decode, answer, after);
    visitor_laws::issued_code_is_good_where_it_should_be(
        access,
        door,
        action,
        issued_at,
        decode,
        qr,
        request.qr_token@,
        request.door_id@,
        VisitorAction::CheckOut,
        now,
        r,
    );
}

/// A QR code holds the token for its door, its action and the minute of the moment, behind the
/// prefix of the house.
pub proof fn codes_hold_their_token(
    access: Access,
    door: Seq<char>,
    action: VisitorAction,
    now: Moment,
    qr: IssuedQr,
)
    requires
        visitor::issued(access, door, action, now, Ok(qr)),
    ensures
        access.doors.contains(door),
        qr.action == action,
        qr.door_id@ == door,
        qr.qr_payload@ == "hhm-visitor:"@ + token::token_text(
            access.key,
            token::payload_of(token::claims_for(door, action, now.minute() as i64)),
        ),
        qr.expires_at@.seconds == 60 * (now.minute() + 1) + 15,
        qr.expires_at@.nanos == 0,
{
}

/// Whether `s` is a name, or a version of the notice, of at most `maximum` characters.
pub open spec fn bounded_name(s: Seq<char>, maximum: int) -> bool {
    &&& 0 < s.len() <= maximum
    &&& forall|i: int|
        0 <= i < s.len() ==> (#[trigger] s[i]) as u32 > 0x1f && !(0x7f <= s[i] as u32 <= 0x9f)
}

proof fn lemma_bounded_name(s: Seq<char>, maximum: nat)
    ensures
        text::bounded_text(s, maximum) == bounded_name(s, maximum as int),
{
    if text::has_control(s) {
        let i = choose|i: int| 0 <= i < s.len() && text::control_char(#[trigger] s[i]);
        assert(!(s[i] as u32 > 0x1f && !(0x7f <= s[i] as u32 <= 0x9f)));
    } else {
        assert forall|i: int| 0 <= i < s.len() implies (#[trigger] s[i]) as u32 > 0x1f && !(0x7f
            <= s[i] as u32 <= 0x9f) by {
            assert(!text::control_char(s[i]));
        }
    }
}

/// How often the token with the redemption key `key` was redeemed, as far as that counts at
/// `now`: where its first redemption lies no more than two minutes back.
pub open spec fn redemptions_at(register: Register, key: Seq<char>, now: Moment) -> int {
    if register.redemptions.contains_key(key) && register.redemptions[key].0 >= now.seconds / 60
        - 2 {
        register.redemptions[key].1 as int
    } else {
        0
    }
}

/// How many visits of `register` have not been checked out.
pub open spec fn present(register: Register) -> nat {
    register.visits.dom().filter(
        |id: u128| register.visits[id].checked_out_at is None,
    ).len()
}

/// The number of open visits is that of the visits that have not been checked out.
pub proof fn open_visits_are_those_not_checked_out(register: Register)
    ensures
        visitor::open_visits(register.visits) == present(register),
{
    let open = visitor::is_open();
    assert(register.visits.dom().filter(|k: u128| open(register.visits[k]))
        =~= register.visits.dom().filter(
        |id: u128| register.visits[id].checked_out_at is None,
    ));
}

/// A visitor with a good token checks in exactly where they accept the current notice, give a
/// name of at most 120 characters without control characters, the token was redeemed fewer than
/// 128 times, and fewer than 4096 visits are open. Each refusal has its own reason, the first of
/// them that holds.
pub proof fn visitors_are_received_on_these_grounds(
    access: Access,
    register: Register,
    t: Seq<char>,
    name: Seq<char>,
    notice: Seq<char>,
    now: Moment,
    visit_id: u128,
    first: u128,
    second: u128,
)
    requires
        register.visits.dom().finite(),
    ensures
        ({
            let answer = visitor::admitted(
                access,
                register,
                t,
                name,
                notice,
                now,
                visit_id,
                first,
                second,
            ).0;
            let told = notice == access.notice;
            let named = bounded_name(text::trimmed(name), 120);
            let keyed = token::redemption_key(t) is Ok;
            let spare = redemptions_at(register, token::redemption_key(t)->Ok_0, now) < 128;
            let room = present(register) < 4096;
            &&& answer is Ok <==> told && named && keyed && spare && room
            &&& answer == Err::<Admission, _>(VisitorError::NoticeNotAccepted) <==> !told
            &&& answer == Err::<Admission, _>(VisitorError::InvalidVisitorName) <==> told && !named
            &&& answer == Err::<Admission, _>(VisitorError::InvalidQr) <==> told && named && !keyed
            &&& answer == Err::<Admission, _>(VisitorError::RateLimited) <==> told && named && keyed
                && !spare
            &&& answer == Err::<Admission, _>(VisitorError::CapacityReached) <==> told && named
                && keyed && spare && !room
        }),
{
    lemma_bounded_name(text::trimmed(name), 120);
    visitor_laws::purge_keeps_open_visits(register, now);
    open_visits_are_those_not_checked_out(register);
}

/// Whether a visit is still kept at `now`: it is open, or was closed no more than a day before.
pub open spec fn kept_at(stay: Stay, now: Moment) -> bool {
    match stay.checked_out_at {
        None => true,
        Some(t) => {
            let day_before = now.earlier(86_400);
            !(t.seconds < day_before.seconds || (t.seconds == day_before.seconds && t.nanos
                < day_before.nanos))
        },
    }
}

/// A check-in enters the visit under its identifier, with the visitor's trimmed name and the tag
/// of the receipt, and hands out that receipt, which is made of two identifiers. It counts one
/// redemption of the token. Of the other visits it drops those that were closed more than a day
/// before, of the other counts those that no longer hold; the rest stays as it was.
pub proof fn check_in_changes_only_its_own(
    access: Access,
    register: Register,
    t: Seq<char>,
    name: Seq<char>,
    notice: Seq<char>,
    now: Moment,
    visit_id: u128,
    first: u128,
    second: u128,
)
    requires
        now.representable(),
        visitor::admitted(access, register, t, name, notice, now, visit_id, first, second).0 is Ok,
    ensures
        ({
            let (answer, after) = visitor::admitted(
                access,
                register,
                t,
                name,
                notice,
                now,
                visit_id,
                first,
                second,
            );
            let receipt = identifier::hyphenated_form(first) + seq!['.']
                + identifier::hyphenated_form(second);
            let key = token::redemption_key(t)->Ok_0;
            &&& answer->Ok_0.visit_id == visit_id
            &&& answer->Ok_0.checkout_receipt == receipt
            &&& answer->Ok_0.checked_in_at == now
            &&& after.visits.contains_key(visit_id)
            &&& after.visits[visit_id].display_name == Some(text::trimmed(name))
            &&& after.visits[visit_id].checked_out_at is None
            &&& after.visits[visit_id].receipt_tag == seal::hmac_sha256(
                access.key,
                vstd::utf8::encode_utf8("hhm.visitor-checkout-receipt.v1\0"@)
                    + vstd::utf8::encode_utf8(receipt),
            )
            &&& forall|id: u128|
                id != visit_id ==> (#[trigger] after.visits.contains_key(id) <==> (
                register.visits.contains_key(id) && kept_at(register.visits[id], now)))
            &&& forall|id: u128|
                id != visit_id && #[trigger] after.visits.contains_key(id) ==> after.visits[id]
                    == register.visits[id]
            &&& after.redemptions.contains_key(key)
            &&& after.redemptions[key].1 == redemptions_at(register, key, now) + 1
            &&& after.redemptions[key].0 == if redemptions_at(register, key, now) > 0 {
                register.redemptions[key].0 as int
            } else if register.redemptions.contains_key(key) && register.redemptions[key].0
                >= now.seconds / 60 - 2 {
                register.redemptions[key].0 as int
            } else {
                now.seconds / 60
            }
            &&& forall|k: Seq<char>|
                k != key ==> (#[trigger] after.redemptions.contains_key(k) <==> (
                register.redemptions.contains_key(k) && register.redemptions[k].0 >= now.seconds
                    / 60 - 2))
            &&& forall|k: Seq<char>|
                k != key && #[trigger] after.redemptions.contains_key(k) ==> after.redemptions[k]
                    == register.redemptions[k]
        }),
{
    assert(visitor::receipt_text(first, second) =~= identifier::hyphenated_form(first) + seq!['.']
        + identifier::hyphenated_form(second));
}

/// A check-in that is refused enters no visit and counts no redemption, and a visit that is open
/// or was closed within the last day is never lost.
pub proof fn refused_check_in_keeps_the_register(
    access: Access,
    register: Register,
    t: Seq<char>,
    name: Seq<char>,
    notice: Seq<char>,
    now: Moment,
    visit_id: u128,
    first: u128,
    second: u128,
)
    requires
        visitor::admitted(access, register, t, name, notice, now, visit_id, first, second).0 is Err,
    ensures
        ({
            let (answer, after) = visitor::admitted(
                access,
                register,
                t,
                name,
                notice,
                now,
                visit_id,
                first,
                second,
            );
            let e = answer->Err_0;
            &&& !(e is CapacityReached) ==> after.visits == register.visits
            &&& !(e is CapacityReached) && !(e is RateLimited) ==> after.redemptions
                == register.redemptions
            &&& forall|id: u128| #[trigger]
                after.visits.contains_key(id) ==> register.visits.contains_key(id)
                    && after.visits[id] == register.visits[id]
            &&& forall|id: u128|
                register.visits.contains_key(id) && kept_at(register.visits[id], now)
                    ==> #[trigger] after.visits.contains_key(id)
            &&& forall|k: Seq<char>| #[trigger]
                after.redemptions.contains_key(k) ==> register.redemptions.contains_key(k)
                    && after.redemptions[k] == register.redemptions[k]
            &&& forall|k: Seq<char>|
                register.redemptions.contains_key(k) && register.redemptions[k].0 >= now.seconds
                    / 60 - 2 ==> #[trigger] after.redemptions.contains_key(k)
        }),
{
}

/// A visitor with a good token checks out exactly where the receipt is not empty, takes at most
/// 256 bytes and holds no control character, the visit is there and open, its tag is that of the
/// receipt, and the token was redeemed fewer than 128 times. Each refusal has its own reason, the
/// first of them that holds.
pub proof fn visitors_are_released_on_these_grounds(
    access: Access,
    register: Register,
    t: Seq<char>,
    visit_id: u128,
    receipt: Seq<char>,
    now: Moment,
)
    ensures
        ({
            let answer = visitor::released(access, register, t, visit_id, receipt, now).0;
            let shaped = 0 < receipt.len() && text::byte_len(receipt) <= 256;
            let known = register.visits.contains_key(visit_id);
            let open = register.visits[visit_id].checked_out_at is None;
            let right = !text::has_control(receipt) && register.visits[visit_id].receipt_tag
                == seal::hmac_sha256(
                access.key,
                vstd::utf8::encode_utf8("hhm.visitor-checkout-receipt.v1\0"@)
                    + vstd::utf8::encode_utf8(receipt),
            );
            let keyed = token::redemption_key(t) is Ok;
            let spare = redemptions_at(register, token::redemption_key(t)->Ok_0, now) < 128;
            &&& answer is Ok <==> shaped && known && open && right && keyed && spare
            &&& answer == Err::<Release, _>(VisitorError::InvalidReceipt) <==> !shaped || (known
                && open && !right)
            &&& answer == Err::<Release, _>(VisitorError::VisitNotFound) <==> shaped && !known
            &&& answer == Err::<Release, _>(VisitorError::AlreadyCheckedOut) <==> shaped && known
                && !open
            &&& answer == Err::<Release, _>(VisitorError::InvalidQr) <==> shaped && known && open
                && right && !keyed
            &&& answer == Err::<Release, _>(VisitorError::RateLimited) <==> shaped && known && open
                && right && keyed && !spare
        }),
{
}

/// A check-out closes the visit that it names at that moment, erases its name and keeps its tag,
/// and counts one redemption of the token. No other visit changes, and of the other counts only
/// those go that no longer hold.
pub proof fn check_out_changes_only_its_own(
    access: Access,
    register: Register,
    t: Seq<char>,
    visit_id: u128,
    receipt: Seq<char>,
    now: Moment,
)
    requires
        now.representable(),
        visitor::released(access, register, t, visit_id, receipt, now).0 is Ok,
    ensures
        ({
            let (answer, after) = visitor::released(access, register, t, visit_id, receipt, now);
            let key = token::redemption_key(t)->Ok_0;
            &&& answer->Ok_0.visit_id == visit_id
            &&& answer->Ok_0.checked_out_at == now
            &&& after.visits.contains_key(visit_id)
            &&& after.visits[visit_id].display_name is None
            &&& after.visits[visit_id].checked_out_at == Some(now)
            &&& after.visits[visit_id].receipt_tag == register.visits[visit_id].receipt_tag
            &&& forall|id: u128|
                id != visit_id ==> (#[trigger] after.visits.contains_key(id)
                    == register.visits.contains_key(id) && after.visits[id] == register.visits[id])
            &&& after.redemptions.contains_key(key)
            &&& after.redemptions[key].1 == redemptions_at(register, key, now) + 1
            &&& after.redemptions[key].0 == if register.redemptions.contains_key(key)
                && register.redemptions[key].0 >= now.seconds / 60 - 2 {
                register.redemptions[key].0 as int
            } else {
                now.seconds / 60
            }
            &&& forall|k: Seq<char>|
                k != key ==> (#[trigger] after.redemptions.contains_key(k) <==> (
                register.redemptions.contains_key(k) && register.redemptions[k].0 >= now.seconds
                    / 60 - 2))
            &&& forall|k: Seq<char>|
                k != key && #[trigger] after.redemptions.contains_key(k) ==> after.redemptions[k]
                    == register.redemptions[k]
        }),
{
}

/// Visitor access is set up from the three settings, each trimmed and absent where it is blank:
/// a key in base64 that holds between 32 and 64 bytes, the doors of a list, each with a valid
/// identifier, and a version of the notice of at most 64 characters. It is not set up where all
/// three are absent. Any other settings are a fault, the first of them that holds.
pub proof fn access_is_what_the_settings_say(
    key: Option<Seq<char>>,
    doors: Option<Seq<char>>,
    notice: Option<Seq<char>>,
)
    ensures
        ({
            let r = visitor::access_from(key, doors, notice);
            let k = text::setting(key);
            let d = text::setting(doors);
            let n = text::setting(notice);
            let bytes = base64url::decoded(k->Some_0);
            let named = text::entries(d->Some_0);
            let fault = |e: VisitorConfigError| r == Err::<Option<Access>, _>(e);
            if k is None && d is None && n is None {
                r == Ok::<_, VisitorConfigError>(None::<Access>)
            } else if k is None {
                fault(VisitorConfigError::KeyMissing)
            } else if bytes is None {
                fault(VisitorConfigError::KeyEncoding)
            } else if !(32 <= bytes->Some_0.len() <= 64) {
                fault(VisitorConfigError::KeyLength)
            } else if d is None {
                fault(VisitorConfigError::DoorsMissing)
            } else if exists|i: int| 0 <= i < named.len() && !visitor::door_id(#[trigger] named[i]) {
                fault(VisitorConfigError::InvalidDoorId)
            } else if named.len() == 0 {
                fault(VisitorConfigError::NoDoorId)
            } else if n is None {
                fault(VisitorConfigError::NoticeMissing)
            } else if !bounded_name(n->Some_0, 64) {
                fault(VisitorConfigError::InvalidNotice)
            } else {
                r matches Ok(Some(access)) && {
                    &&& base64url::encoded(access.key) == k->Some_0
                    &&& access.notice == n->Some_0
                    &&& forall|door: Seq<char>| #[trigger]
                        access.doors.contains(door) <==> named.contains(door)
                }
            }
        }),
{
    if text::setting(notice) is Some {
        lemma_bounded_name(text::setting(notice)->Some_0, 64);
    }
    if text::setting(doors) is Some {
        let named = text::entries(text::setting(doors)->Some_0);
        assert forall|door: Seq<char>| #[trigger] named.to_set().contains(door)
            <==> named.contains(door) by {}
    }
}

/// A visit is entered under an identifier drawn at random, and its receipt is made of two more.
/// One redemption of the token is counted, up to 128. No other visit changes, and none is lost
/// that is open or was closed within the last day.
pub proof fn received_visitor_leaves_the_others_alone<D: Fn(&[u8]) -> Option<QrClaims>>(
    access: Access,
    register: Register,
    request: CheckInRequest,
    now: Moment,
    decode: D,
    admission: Admission,
    after: Register,
)
    requires
        now.representable(),
        visitor::checked_in(access, register, request, now, decode, Ok(admission), after),
    ensures
        identifier::random_version(admission.visit_id),
        exists|first: u128, second: u128|
            {
                &&& #[trigger] identifier::random_version(first)
                &&& #[trigger] identifier::random_version(second)
                &&& admission.checkout_receipt == identifier::hyphenated_form(first) + seq!['.']
                    + identifier::hyphenated_form(second)
            },
        after.visits[admission.visit_id].receipt_tag == seal::hmac_sha256(
            access.key,
            vstd::utf8::encode_utf8("hhm.visitor-checkout-receipt.v1\0"@)
                + vstd::utf8::encode_utf8(admission.checkout_receipt),
        ),
        forall|id: u128|
            id != admission.visit_id ==> (#[trigger] after.visits.contains_key(id) <==> (
            register.visits.contains_key(id) && kept_at(register.visits[id], now))),
        forall|id: u128|
            id != admission.visit_id && #[trigger] after.visits.contains_key(id)
                ==> after.visits[id] == register.visits[id],
        ({
            let key = token::redemption_key(request.qr_token@)->Ok_0;
            &&& token::redemption_key(request.qr_token@) is Ok
            &&& redemptions_at(register, key, now) < 128
            &&& after.redemptions.contains_key(key)
            &&& after.redemptions[key].1 == redemptions_at(register, key, now) + 1
            &&& forall|k: Seq<char>|
                k != key ==> (#[trigger] after.redemptions.contains_key(k) <==> (
                register.redemptions.contains_key(k) && register.redemptions[k].0 >= now.seconds
                    / 60 - 2))
            &&& forall|k: Seq<char>|
                k != key && #[trigger] after.redemptions.contains_key(k) ==> after.redemptions[k]
                    == register.redemptions[k]
        }),
{
    let answer = Ok::<Admission, VisitorError>(admission);
    let r = lemma_entry_is_verified(access, register, request, now, decode, answer, after);
    let (visit_id, first, second) = choose|visit_id: u128, first: u128, second: u128|
        {
            &&& #[trigger] identifier::random_version(visit_id)
            &&& #[trigger] identifier::random_version(first)
            &&& #[trigger] identifier::random_version(second)
            &&& (answer, after) == visitor::admitted(
                access,
                register,
                request.qr_token@,
                request.display_name@,
                request.privacy_notice_version@,
                now,
                visit_id,
                first,
                second,
            )
        };
    assert(identifier::random_version(first));
    assert(identifier::random_version(second));
    check_in_changes_only_its_own(
        access,
        register,
        request.qr_token@,
        request.display_name@,
        request.privacy_notice_version@,
        now,
        visit_id,
        first,
        second,
    );
}

/// A visitor who is released closes their own visit and no other, which keeps its tag. One
/// redemption of the token is counted, up to 128.
pub proof fn released_visitor_leaves_the_others_alone<D: Fn(&[u8]) -> Option<QrClaims>>(
    access: Access,
    register: Register,
    request: CheckOutRequest,
    now: Moment,
    decode: D,
    release: Release,
    after: Register,
)
    requires
        now.representable(),
        visitor::checked_out(access, register, request, now, decode, Ok(release), after),
    ensures
        after.visits.contains_key(request.visit_id),
        after.visits[request.visit_id].receipt_tag
            == register.visits[request.visit_id].receipt_tag,
        forall|id: u128|
            id != request.visit_id ==> (#[trigger] after.visits.contains_key(id)
                == register.visits.contains_key(id) && after.visits[id] == register.visits[id]),
        ({
            let key = token::redemption_key(request.qr_token@)->Ok_0;
            &&& token::redemption_key(request.qr_token@) is Ok
            &&& redemptions_at(register, key, now) < 128
            &&& after.redemptions.contains_key(key)
            &&& after.redemptions[key].1 == redemptions_at(register, key, now) + 1
            &&& forall|k: Seq<char>|
                k != key ==> (#[trigger] after.redemptions.contains_key(k) <==> (
                register.redemptions.contains_key(k) && register.redemptions[k].0 >= now.seconds
                    / 60 - 2))
            &&& forall|k: Seq<char>|
                k != key && #[trigger] after.redemptions.contains_key(k) ==> after.redemptions[k]
                    == register.redemptions[k]
        }),
{
    let answer = Ok::<Release, VisitorError>(release);
    let r = lemma_exit_is_verified(access, register, request, now, decode, answer, after);
    check_out_changes_only_its_own(
        access,
        register,
        request.qr_token@,
        request.visit_id,
        request.checkout_receipt@,
        now,
    );
}

} // verus!
