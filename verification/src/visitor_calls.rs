//! What each call of the visitor service does, told of its arguments and its result.

use crate::base64url;
use crate::identifier;
use crate::moment::Timestamp;
use crate::seal;
use crate::table::KeySet;
use crate::text;
use crate::token::{self, QrClaims};
use crate::visitor::{
    self, CheckInReceipt, CheckInRequest, CheckOutReceipt, CheckOutRequest, IssuedQr,
    VisitorAction, VisitorConfigError, VisitorError, VisitorService,
};
use crate::visitor_answers;
use crate::visitor_laws;
use vstd::prelude::*;
use vstd::string::*;

verus! {

/// The path of a request names checking in and checking out, and nothing else.
pub proof fn parse_knows_two_actions(value: &str, r: Result<VisitorAction, VisitorError>)
    requires
        call_ensures(VisitorAction::parse, (value,), r),
    ensures
        r == Ok::<_, VisitorError>(VisitorAction::CheckIn) <==> value@ == "check-in"@,
        r == Ok::<_, VisitorError>(VisitorAction::CheckOut) <==> value@ == "check-out"@,
        r is Err ==> r == Err::<VisitorAction, _>(VisitorError::InvalidAction),
{
    visitor_answers::actions_have_their_names(value@);
}

/// Each action is logged under its own name.
pub proof fn event_names_tell_the_actions(action: VisitorAction, r: &'static str)
    requires
        call_ensures(VisitorAction::as_event_name, (action,), r),
    ensures
        action == VisitorAction::CheckIn ==> r@ == "visitor.check_in"@,
        action == VisitorAction::CheckOut ==> r@ == "visitor.check_out"@,
{
}

/// What the operator is told of each fault in the settings.
pub proof fn faults_of_the_settings_are_told(e: VisitorConfigError, r: &'static str)
    requires
        call_ensures(VisitorConfigError::message, (e,), r),
    ensures
        r@ == match e {
            VisitorConfigError::KeyMissing =>
                "VISITOR_QR_SIGNING_KEY is required when visitor QR is enabled"@,
            VisitorConfigError::KeyEncoding =>
                "VISITOR_QR_SIGNING_KEY must be unpadded base64url"@,
            VisitorConfigError::KeyLength =>
                "VISITOR_QR_SIGNING_KEY must decode to between 32 and 64 bytes"@,
            VisitorConfigError::DoorsMissing =>
                "VISITOR_DOOR_IDS is required when visitor QR is enabled"@,
            VisitorConfigError::InvalidDoorId =>
                "VISITOR_DOOR_IDS contains an invalid door identifier"@,
            VisitorConfigError::NoDoorId =>
                "VISITOR_DOOR_IDS must contain at least one door identifier"@,
            VisitorConfigError::NoticeMissing =>
                "VISITOR_PRIVACY_NOTICE_VERSION is required when visitor QR is enabled"@,
            VisitorConfigError::InvalidNotice => "VISITOR_PRIVACY_NOTICE_VERSION is invalid"@,
        },
{
}

/// A door is identified by at most 64 lower-case letters, digits, hyphens and underscores.
pub proof fn door_identifiers_are_found_valid(door: &str, r: bool)
    requires
        call_ensures(visitor::valid_door_id, (door,), r),
    ensures
        r <==> door@.len() <= 64 && forall|i: int|
            0 <= i < door@.len() ==> ('a' <= #[trigger] door@[i] <= 'z' || '0' <= door@[i] <= '9'
                || door@[i] == '-' || door@[i] == '_'),
{
    visitor_answers::door_identifiers_are_plain(door@);
}

/// The doors of a list are its entries, where there is one and each can identify a door.
pub proof fn doors_are_the_entries_of_the_list(
    raw: &str,
    r: Result<KeySet<String>, VisitorConfigError>,
)
    requires
        call_ensures(visitor::parse_door_ids, (raw,), r),
    ensures
        r matches Ok(doors) ==> {
            &&& text::entries(raw@).len() > 0
            &&& forall|door: Seq<char>| #[trigger]
                doors@.contains(door) <==> text::entries(raw@).contains(door)
            &&& forall|i: int|
                0 <= i < text::entries(raw@).len() ==> visitor::door_id(
                    #[trigger] text::entries(raw@)[i],
                )
        },
        r matches Err(e) ==> {
            &&& e == VisitorConfigError::NoDoorId <==> text::entries(raw@).len() == 0
            &&& e == VisitorConfigError::InvalidDoorId <==> exists|i: int|
                0 <= i < text::entries(raw@).len() && !visitor::door_id(
                    #[trigger] text::entries(raw@)[i],
                )
        },
{
}

/// The service is set up by its settings, and begins without visits and without counts.
pub proof fn service_is_set_up_by_its_settings(
    key: &Option<String>,
    doors: &Option<String>,
    notice: &Option<String>,
    r: Result<Option<VisitorService>, VisitorConfigError>,
)
    requires
        call_ensures(VisitorService::from_environment, (key, doors, notice), r),
    ensures
        ({
            let k = text::setting(text::opt_text(*key));
            let d = text::setting(text::opt_text(*doors));
            let n = text::setting(text::opt_text(*notice));
            &&& (r is Ok && r->Ok_0 is None) <==> k is None && d is None && n is None
            &&& r matches Ok(Some(service)) ==> {
                &&& k == Some(base64url::encoded(service.access().key))
                &&& 32 <= service.access().key.len() <= 64
                &&& n == Some(service.access().notice)
                &&& 1 <= service.access().notice.len() <= 64
                &&& d is Some
                &&& forall|door: Seq<char>| #[trigger]
                    service.access().doors.contains(door) <==> text::entries(
                        d->Some_0,
                    ).contains(door)
                &&& service.register().visits.dom() =~= Set::<u128>::empty()
                &&& service.register().redemptions.dom() =~= Set::<Seq<char>>::empty()
            }
            &&& r matches Err(e) ==> visitor::access_from(
                text::opt_text(*key),
                text::opt_text(*doors),
                text::opt_text(*notice),
            ) == Err::<Option<visitor::Access>, _>(e)
            &&& r is Ok <==> visitor::access_from(
                text::opt_text(*key),
                text::opt_text(*doors),
                text::opt_text(*notice),
            ) is Ok
        }),
{
    visitor_answers::access_is_what_the_settings_say(
        text::opt_text(*key),
        text::opt_text(*doors),
        text::opt_text(*notice),
    );
}

/// A door is known to the service exactly where it was set up with it.
pub proof fn only_doors_of_the_service_are_valid(
    service: &VisitorService,
    door: &str,
    r: Result<(), VisitorError>,
)
    requires
        call_ensures(VisitorService::validate_door, (service, door), r),
    ensures
        r is Ok <==> service.access().doors.contains(door@),
        r is Err ==> r == Err::<(), _>(VisitorError::InvalidDoor),
{
}

/// The token of a minute is the sealed payload with the claims for the door, the action and that
/// minute.
pub proof fn tokens_are_issued_for_a_minute(
    service: &VisitorService,
    door: &str,
    action: VisitorAction,
    minute: i64,
    r: Result<String, VisitorError>,
)
    requires
        call_ensures(VisitorService::issue_for_minute, (service, door, action, minute), r),
    ensures
        r matches Ok(t) && t@ == token::token_text(
            service.access().key,
            token::payload_of(token::claims_for(door@, action, minute)),
        ),
{
}

/// A QR code is issued exactly at the doors of the service, as long as the calendar has its end.
/// It is for that door, that action and the minute of the moment, and ends fifteen seconds after
/// it.
pub proof fn codes_are_issued_on_these_grounds(
    service: &VisitorService,
    door: &str,
    action: VisitorAction,
    now: Timestamp,
    r: Result<IssuedQr, VisitorError>,
)
    requires
        call_ensures(VisitorService::issue, (service, door, action, now), r),
        now@.representable(),
    ensures
        ({
            let end = 60 * (now@.seconds / 60 + 1) + 15;
            let known = service.access().doors.contains(door@);
            &&& r is Ok <==> known && end <= 8_210_266_876_799
            &&& r == Err::<IssuedQr, _>(VisitorError::InvalidDoor) <==> !known
            &&& r == Err::<IssuedQr, _>(VisitorError::InvalidQr) <==> known && end
                > 8_210_266_876_799
            &&& r matches Ok(qr) ==> {
                &&& qr.action == action
                &&& qr.door_id@ == door@
                &&& qr.qr_payload@ == "hhm-visitor:"@ + token::token_text(
                    service.access().key,
                    token::payload_of(
                        token::claims_for(door@, action, (now@.seconds / 60) as i64),
                    ),
                )
                &&& qr.expires_at@.seconds == end
                &&& qr.expires_at@.nanos == 0
            }
        }),
{
    if r is Ok {
        visitor_answers::codes_hold_their_token(service.access(), door@, action, now@, r->Ok_0);
    }
}

/// What is found good is a good code for that action at that door at that moment; anything else
/// is told to be for no door, invalid or expired.
pub proof fn only_good_codes_verify<D: Fn(&[u8]) -> Option<QrClaims>>(
    service: &VisitorService,
    qr_token: &str,
    door: &str,
    action: VisitorAction,
    now: Timestamp,
    decode: &D,
    r: Result<(), VisitorError>,
)
    requires
        call_ensures(
            VisitorService::verify::<D>,
            (service, qr_token, door, action, now, decode),
            r,
        ),
    ensures
        r is Ok ==> visitor_answers::good_code(
            service.access(),
            qr_token@,
            door@,
            action,
            now@,
            *decode,
        ),
        r matches Err(e) ==> e is InvalidDoor || e is InvalidQr || e is ExpiredQr,
        r == Err::<(), _>(VisitorError::InvalidDoor) <==> text::byte_len(qr_token@) <= 1024
            && !service.access().doors.contains(door@),
{
    visitor_answers::only_good_codes_are_found_good(
        service.access(),
        qr_token@,
        door@,
        action,
        now@,
        *decode,
        r,
    );
    visitor_answers::tokens_open_by_their_seal(
        service.access().key,
        service.access().doors,
        qr_token@,
        door@,
    );
    if r == Err::<(), _>(VisitorError::InvalidDoor) && token::opened(
        service.access().key,
        service.access().doors,
        qr_token@,
        door@,
    ) is Ok {
        let (payload, claims) = choose|payload: &[u8], claims: Option<QrClaims>|
            {
                &&& payload@ == token::opened(
                    service.access().key,
                    service.access().doors,
                    qr_token@,
                    door@,
                )->Ok_0
                &&& #[trigger] call_ensures(*decode, (payload,), claims)
                &&& r == visitor::good_for(
                    service.access(),
                    qr_token@,
                    door@,
                    action,
                    now@,
                    token::read_claims(claims),
                )
            };
        if claims is Some {
            visitor_answers::claims_are_good_for_one_door_action_and_time(
                service.access().doors,
                claims->Some_0@,
                door@,
                action,
                now@,
            );
        }
    }
}

/// A receipt is tagged under the key of the service, in the context of receipts.
pub proof fn receipts_are_tagged_under_the_key(
    service: &VisitorService,
    receipt: &str,
    r: Result<Vec<u8>, VisitorError>,
)
    requires
        call_ensures(VisitorService::receipt_tag, (service, receipt), r),
    ensures
        r matches Ok(tag) && tag@ == seal::hmac_sha256(
            service.access().key,
            vstd::utf8::encode_utf8("hhm.visitor-checkout-receipt.v1\0"@)
                + vstd::utf8::encode_utf8(receipt@),
        ),
{
}

/// A receipt is good exactly where it has at most 256 bytes and no control character, and the tag
/// is its own under the key of the service.
pub proof fn receipts_are_verified_by_their_tag(
    service: &VisitorService,
    receipt: &str,
    tag: &[u8],
    r: Result<(), VisitorError>,
)
    requires
        call_ensures(VisitorService::verify_receipt, (service, receipt, tag), r),
    ensures
        r is Ok <==> {
            &&& text::byte_len(receipt@) <= 256
            &&& forall|i: int| 0 <= i < receipt@.len() ==> !text::control_char(#[trigger] receipt@[i])
            &&& tag@ == seal::hmac_sha256(
                service.access().key,
                vstd::utf8::encode_utf8("hhm.visitor-checkout-receipt.v1\0"@)
                    + vstd::utf8::encode_utf8(receipt@),
            )
        },
        r is Err ==> r == Err::<(), _>(VisitorError::InvalidReceipt),
{
}

/// A visitor with a good token is received as the rules for receiving say, under the identifiers
/// that were drawn; how the service is set up does not change.
pub proof fn receiving_follows_the_rules(
    service: &mut VisitorService,
    request: &CheckInRequest,
    now: Timestamp,
    visit_id: u128,
    first: u128,
    second: u128,
    r: Result<CheckInReceipt, VisitorError>,
)
    requires
        call_ensures(
            VisitorService::receive,
            (service, request, now, visit_id, first, second),
            r,
        ),
        now@.representable(),
    ensures
        final(service).access() == old(service).access(),
        (visitor::shown(r), final(service).register()) == visitor::admitted(
            old(service).access(),
            old(service).register(),
            request.qr_token@,
            request.display_name@,
            request.privacy_notice_version@,
            now@,
            visit_id,
            first,
            second,
        ),
        r matches Ok(receipt) ==> {
            &&& request.privacy_notice_version@ == old(service).access().notice
            &&& receipt.visit_id == visit_id
            &&& receipt.checkout_receipt@ == identifier::hyphenated_form(first) + seq!['.']
                + identifier::hyphenated_form(second)
            &&& receipt.checked_in_at@ == now@
            &&& final(service).register().visits.contains_key(visit_id)
            &&& final(service).register().visits[visit_id].display_name == Some(
                text::trimmed(request.display_name@),
            )
            &&& final(service).register().visits[visit_id].checked_out_at is None
        },
{
    if r is Ok {
        visitor_answers::check_in_changes_only_its_own(
            old(service).access(),
            old(service).register(),
            request.qr_token@,
            request.display_name@,
            request.privacy_notice_version@,
            now@,
            visit_id,
            first,
            second,
        );
    }
}

/// A visitor with a good token is released as the rules for releasing say: with the receipt of
/// their open visit, which is then closed. Without it no visit changes, nor how the service is
/// set up.
pub proof fn releasing_follows_the_rules(
    service: &mut VisitorService,
    request: &CheckOutRequest,
    now: Timestamp,
    r: Result<CheckOutReceipt, VisitorError>,
)
    requires
        call_ensures(VisitorService::release, (service, request, now), r),
    ensures
        final(service).access() == old(service).access(),
        (visitor::shown(r), final(service).register()) == visitor::released(
            old(service).access(),
            old(service).register(),
            request.qr_token@,
            request.visit_id,
            request.checkout_receipt@,
            now@,
        ),
        r matches Ok(receipt) ==> {
            &&& receipt.visit_id == request.visit_id
            &&& receipt.checked_out_at@ == now@
            &&& old(service).register().visits.contains_key(request.visit_id)
            &&& old(service).register().visits[request.visit_id].checked_out_at is None
            &&& old(service).register().visits[request.visit_id].receipt_tag == seal::hmac_sha256(
                old(service).access().key,
                vstd::utf8::encode_utf8("hhm.visitor-checkout-receipt.v1\0"@)
                    + vstd::utf8::encode_utf8(request.checkout_receipt@),
            )
            &&& final(service).register().visits[request.visit_id].checked_out_at == Some(now@)
            &&& final(service).register().visits[request.visit_id].display_name is None
        },
        r is Err ==> final(service).register().visits == old(service).register().visits,
{
}

/// Nobody is checked in but with a current code for checking in at that door, the current notice
/// and a name. Whoever is gets the receipt of a new visit that begins now; whoever shows another
/// code leaves the register as it was.
pub proof fn check_in_takes_current_entry_codes<D: Fn(&[u8]) -> Option<QrClaims>>(
    service: &mut VisitorService,
    request: CheckInRequest,
    now: Timestamp,
    decode: &D,
    r: Result<CheckInReceipt, VisitorError>,
)
    requires
        call_ensures(VisitorService::check_in::<D>, (service, request, now, decode), r),
    ensures
        final(service).access() == old(service).access(),
        visitor::checked_in(
            old(service).access(),
            old(service).register(),
            request,
            now@,
            *decode,
            visitor::shown(r),
            final(service).register(),
        ),
        ({
            let good = visitor_answers::good_code(
                old(service).access(),
                request.qr_token@,
                request.door_id@,
                VisitorAction::CheckIn,
                now@,
                *decode,
            );
            &&& r matches Ok(receipt) ==> {
                &&& good
                &&& request.privacy_notice_version@ == old(service).access().notice
                &&& 0 < text::trimmed(request.display_name@).len() <= 120
                &&& receipt.checked_in_at@ == now@
                &&& final(service).register().visits.contains_key(receipt.visit_id)
                &&& final(service).register().visits[receipt.visit_id].display_name == Some(
                    text::trimmed(request.display_name@),
                )
                &&& final(service).register().visits[receipt.visit_id].checked_out_at is None
            }
            &&& !good ==> final(service).register() == old(service).register() && (r matches Err(e)
                && (e is InvalidDoor || e is InvalidQr || e is ExpiredQr))
        }),
{
    visitor_answers::check_in_needs_a_current_entry_code(
        old(service).access(),
        old(service).register(),
        request,
        now@,
        *decode,
        visitor::shown(r),
        final(service).register(),
    );
}

/// Nobody is checked out but with a current code for checking out at that door and the receipt of
/// an open visit, which then closes. Whoever is refused changes no visit; whoever shows another
/// code leaves the register as it was.
pub proof fn check_out_takes_current_exit_codes<D: Fn(&[u8]) -> Option<QrClaims>>(
    service: &mut VisitorService,
    request: CheckOutRequest,
    now: Timestamp,
    decode: &D,
    r: Result<CheckOutReceipt, VisitorError>,
)
    requires
        call_ensures(VisitorService::check_out::<D>, (service, request, now, decode), r),
    ensures
        final(service).access() == old(service).access(),
        visitor::checked_out(
            old(service).access(),
            old(service).register(),
            request,
            now@,
            *decode,
            visitor::shown(r),
            final(service).register(),
        ),
        ({
            let before = old(service).register().visits;
            let after = final(service).register().visits;
            let good = visitor_answers::good_code(
                old(service).access(),
                request.qr_token@,
                request.door_id@,
                VisitorAction::CheckOut,
                now@,
                *decode,
            );
            &&& r matches Ok(receipt) ==> {
                &&& good
                &&& receipt.visit_id == request.visit_id
                &&& receipt.checked_out_at@ == now@
                &&& before.contains_key(request.visit_id)
                &&& before[request.visit_id].checked_out_at is None
                &&& after[request.visit_id].checked_out_at == Some(now@)
                &&& after[request.visit_id].display_name is None
            }
            &&& r is Err ==> after == before
            &&& !good ==> final(service).register() == old(service).register() && (r matches Err(e)
                && (e is InvalidDoor || e is InvalidQr || e is ExpiredQr))
        }),
{
    visitor_answers::check_out_needs_a_current_exit_code(
        old(service).access(),
        old(service).register(),
        request,
        now@,
        *decode,
        visitor::shown(r),
        final(service).register(),
    );
}

/// An issued code checks a visitor in within its minute and the fifteen seconds after it, and not
/// beyond: then it has expired. A code for checking out, and one of another door, is invalid.
pub proof fn issued_codes_are_good_for_their_time_only<D: Fn(&[u8]) -> Option<QrClaims>>(
    service: &mut VisitorService,
    door: &str,
    action: VisitorAction,
    issued_at: Timestamp,
    qr: IssuedQr,
    request: CheckInRequest,
    now: Timestamp,
    decode: &D,
    r: Result<CheckInReceipt, VisitorError>,
)
    requires
        visitor_laws::plain_doors(old(service).access()),
        visitor_laws::faithful(*decode),
        issued_at@.representable(),
        call_ensures(
            VisitorService::issue,
            (&*old(service), door, action, issued_at),
            Ok::<IssuedQr, VisitorError>(qr),
        ),
        qr.qr_payload@ == "hhm-visitor:"@ + request.qr_token@,
        call_ensures(VisitorService::check_in::<D>, (service, request, now, decode), r),
    ensures
        ({
            let start = 60 * (issued_at@.seconds / 60);
            let known = old(service).access().doors.contains(request.door_id@);
            let right = request.door_id@ == door@ && action == VisitorAction::CheckIn;
            let timely = start <= now@.seconds <= start + 75;
            &&& !known ==> r == Err::<CheckInReceipt, _>(VisitorError::InvalidDoor)
            &&& known && !right ==> r == Err::<CheckInReceipt, _>(VisitorError::InvalidQr)
            &&& known && right && !timely ==> r == Err::<CheckInReceipt, _>(VisitorError::ExpiredQr)
            &&& !(known && right && timely) ==> final(service).register() == old(service).register()
            &&& r is Ok ==> known && right && timely
        }),
{
    visitor_answers::check_in_with_an_issued_code(
        old(service).access(),
        old(service).register(),
        door@,
        action,
        issued_at@,
        qr,
        request,
        now@,
        *decode,
        visitor::shown(r),
        final(service).register(),
    );
}

/// An issued code checks a visitor out within its minute and the fifteen seconds after it, and
/// not beyond: then it has expired. A code for checking in, and one of another door, is invalid.
pub proof fn issued_codes_release_for_their_time_only<D: Fn(&[u8]) -> Option<QrClaims>>(
    service: &mut VisitorService,
    door: &str,
    action: VisitorAction,
    issued_at: Timestamp,
    qr: IssuedQr,
    request: CheckOutRequest,
    now: Timestamp,
    decode: &D,
    r: Result<CheckOutReceipt, VisitorError>,
)
    requires
        visitor_laws::plain_doors(old(service).access()),
        visitor_laws::faithful(*decode),
        issued_at@.representable(),
        call_ensures(
            VisitorService::issue,
            (&*old(service), door, action, issued_at),
            Ok::<IssuedQr, VisitorError>(qr),
        ),
        qr.qr_payload@ == "hhm-visitor:"@ + request.qr_token@,
        call_ensures(VisitorService::check_out::<D>, (service, request, now, decode), r),
    ensures
        ({
            let start = 60 * (issued_at@.seconds / 60);
            let known = old(service).access().doors.contains(request.door_id@);
            let right = request.door_id@ == door@ && action == VisitorAction::CheckOut;
            let timely = start <= now@.seconds <= start + 75;
            &&& !known ==> r == Err::<CheckOutReceipt, _>(VisitorError::InvalidDoor)
            &&& known && !right ==> r == Err::<CheckOutReceipt, _>(VisitorError::InvalidQr)
            &&& known && right && !timely ==> r == Err::<CheckOutReceipt, _>(
                VisitorError::ExpiredQr,
            )
            &&& !(known && right && timely) ==> final(service).register() == old(service).register()
            &&& r is Ok ==> known && right && timely
        }),
{
    visitor_answers::check_out_with_an_issued_code(
        old(service).access(),
        old(service).register(),
        door@,
        action,
        issued_at@,
        qr,
        request,
        now@,
        *decode,
        visitor::shown(r),
        final(service).register(),
    );
}

/// The active visits are those that have not been checked out.
pub proof fn active_visits_are_those_not_checked_out(service: &VisitorService, r: usize)
    requires
        call_ensures(VisitorService::active_visit_count, (service,), r),
    ensures
        r == service.register().visits.dom().filter(
            |id: u128| service.register().visits[id].checked_out_at is None,
        ).len(),
{
    visitor_answers::open_visits_are_those_not_checked_out(service.register());
}

} // verus!
