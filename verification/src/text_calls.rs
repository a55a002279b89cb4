//! What the calls on texts, tokens and times give, told of their arguments.

use crate::base64url;
use crate::json;
use crate::moment::Timestamp;
use crate::seal;
use crate::table::KeySet;
use crate::text;
use crate::text_laws;
use crate::token::{self, QrClaims};
use crate::visitor::{VisitorAction, VisitorError};
use crate::visitor_answers;
use vstd::prelude::*;
use vstd::string::*;

verus! {

/// To trim cuts off white space at both ends, all of it, and nothing else.
pub proof fn trim_cuts_white_space_at_the_ends(s: &str, r: &str)
    requires
        call_ensures(text::trim, (s,), r),
    ensures
        exists|i: int, j: int|
            {
                &&& 0 <= i <= j <= s@.len()
                &&& r@ == #[trigger] s@.subrange(i, j)
                &&& forall|k: int|
                    0 <= k < i || j <= k < s@.len() ==> text::white_space_char(#[trigger] s@[k])
            },
        r@.len() > 0 ==> !text::white_space_char(r@[0]) && !text::white_space_char(
            r@[r@.len() - 1],
        ),
{
    text_laws::trimming_cuts_the_white_space_at_the_ends(s@);
}

/// A text is split at every separator and nowhere else.
pub proof fn split_cuts_at_every_separator(s: &str, sep: char, r: Vec<&str>)
    requires
        call_ensures(text::split, (s, sep), r),
    ensures
        r@.len() > 0,
        text::joined(text::texts(r@), sep) == s@,
        forall|k: int, i: int|
            0 <= k < r@.len() && 0 <= i < r@[k]@.len() ==> #[trigger] r@[k]@[i] != sep,
{
    text_laws::pieces_lie_between_separators(s@, sep);
    let all = text::texts(r@);
    assert(all.len() == r@.len());
    assert forall|k: int, i: int| 0 <= k < r@.len() && 0 <= i < r@[k]@.len() implies #[trigger] r@[
        k
    ]@[i] != sep by {
        assert(all[k] == r@[k]@);
        assert(all[k][i] != sep);
    }
}

/// In lower case, the letters from `A` to `Z` are moved and nothing else.
pub proof fn lower_case_moves_letters_only(s: &str, r: String)
    requires
        call_ensures(text::ascii_lower, (s,), r),
    ensures
        r@.len() == s@.len(),
        forall|i: int|
            0 <= i < s@.len() ==> (#[trigger] r@[i]) as int == s@[i] as int + (if 65 <= s@[i] as int
                <= 90 {
                32int
            } else {
                0int
            }),
{
    text_laws::lower_case_moves_ascii_letters(s@);
}

/// A number is written in the decimal digits that stand for it.
pub proof fn numbers_are_written_in_decimal(n: u64, r: String)
    requires
        call_ensures(text::decimal_text, (n,), r),
    ensures
        text_laws::number(r@) == n,
        n > 0 ==> r@[0] != '0',
        forall|i: int| 0 <= i < r@.len() ==> 48 <= (#[trigger] r@[i]) as int <= 57,
{
    text_laws::decimal_digits_stand_for_the_number(n as nat);
}

/// An integer is written in decimal, behind a minus sign where it is negative.
pub proof fn integers_are_written_in_decimal(n: i64, r: String)
    requires
        call_ensures(json::integer_text, (n,), r),
    ensures
        n >= 0 ==> text_laws::number(r@) == n && r@[0] != '-',
        n < 0 ==> r@[0] == '-' && text_laws::number(r@.skip(1)) == -n,
{
    text_laws::integers_are_written_with_their_sign(n as int);
}

/// A setting is the trimmed value, where anything is left of it.
pub proof fn settings_are_read_trimmed(value: &Option<String>, r: Option<String>)
    requires
        call_ensures(text::non_empty, (value,), r),
    ensures
        r is Some <==> (*value matches Some(raw) && text::trimmed(raw@).len() > 0),
        r matches Some(kept) ==> kept@ == text::trimmed(value->Some_0@),
{
    text_laws::settings_are_trimmed_values(
        text::opt_text(*value),
        if r is Some {
            r->Some_0@
        } else {
            Seq::empty()
        },
    );
}

/// The entries of a list are what lies between its commas, trimmed and in order, without what is
/// blank.
pub proof fn entries_are_read_between_commas(raw: &str, r: Vec<&str>)
    requires
        call_ensures(text::list_entries, (raw,), r),
    ensures
        text::texts(r@) == text::pieces(raw@, ',').map_values(
            |p: Seq<char>| text::trimmed(p),
        ).filter(|p: Seq<char>| p.len() > 0),
{
    text_laws::entries_lie_between_commas(raw@);
}

/// One text follows the other.
pub proof fn texts_follow_each_other(a: &str, b: &str, r: String)
    requires
        call_ensures(text::followed_by, (a, b), r),
    ensures
        r@ == a@ + b@,
{
}

/// A bounded text is one to so many characters long, without control characters.
pub proof fn bounded_texts_are_found_valid(value: &str, maximum: usize, r: bool)
    requires
        call_ensures(text::valid_bounded_text, (value, maximum), r),
    ensures
        r <==> {
            &&& 1 <= value@.len() <= maximum
            &&& forall|i: int| 0 <= i < value@.len() ==> !text::control_char(#[trigger] value@[i])
        },
{
    text_laws::bounded_texts_are_short_and_clean(value@, maximum as nat);
}

/// A point in time is made exactly where the calendar has it, of the seconds and nanoseconds that
/// were given.
pub proof fn timestamps_are_made_as_given(seconds: i64, nanos: u32, r: Option<Timestamp>)
    requires
        call_ensures(Timestamp::new, (seconds, nanos), r),
    ensures
        r matches Some(t) ==> t@.seconds == seconds && t@.nanos == nanos,
        r is Some <==> {
            &&& -8_334_601_228_800 <= seconds <= 8_210_266_876_799
            &&& nanos < 1_000_000_000 || (nanos < 2_000_000_000 && seconds as int % 60 == 59)
        },
{
}

/// A point in time comes before another by its seconds, and within a second by its nanoseconds.
pub proof fn timestamps_are_compared_by_time(a: &Timestamp, b: &Timestamp, r: bool)
    requires
        call_ensures(Timestamp::is_before, (a, b), r),
    ensures
        r <==> a@.seconds < b@.seconds || (a@.seconds == b@.seconds && a@.nanos < b@.nanos),
{
}

/// A point in time lies in the minute that began last.
pub proof fn timestamps_lie_in_their_minute(t: &Timestamp, r: i64)
    requires
        call_ensures(Timestamp::minute, (t,), r),
    ensures
        60 * r <= t@.seconds < 60 * r + 60,
{
}

/// The point so many seconds later, outside a leap second.
pub proof fn timestamps_move_on(t: &Timestamp, n: u32, r: Timestamp)
    requires
        call_ensures(Timestamp::plus_seconds, (t, n), r),
        0 <= t@.nanos < 1_000_000_000,
    ensures
        r@.seconds == t@.seconds + n,
        r@.nanos == t@.nanos,
{
}

/// The point so many hours earlier, outside a leap second.
pub proof fn timestamps_move_back(t: &Timestamp, hours: u32, r: Timestamp)
    requires
        call_ensures(Timestamp::minus_hours, (t, hours), r),
        0 <= t@.nanos < 1_000_000_000,
    ensures
        r@.seconds == t@.seconds - 3600 * hours,
        r@.nanos == t@.nanos,
{
}

/// More than so many days lie between two points where the difference of their seconds and
/// nanoseconds is more than that, outside leap seconds.
pub proof fn days_are_counted_between(end: &Timestamp, start: &Timestamp, days: u32, r: bool)
    requires
        call_ensures(Timestamp::exceeds_days_since, (end, start, days), r),
        0 <= end@.nanos < 1_000_000_000,
        0 <= start@.nanos < 1_000_000_000,
    ensures
        r <==> (end@.seconds - start@.seconds) * 1_000_000_000 + end@.nanos - start@.nanos > days
            * 86_400 * 1_000_000_000,
{
}

/// The claims of a token are those of its door, its action and its minute.
pub proof fn claims_are_issued_as_told(
    door: &str,
    action: VisitorAction,
    minute: i64,
    r: QrClaims,
)
    requires
        call_ensures(token::issued_claims, (door, action, minute), r),
    ensures
        r.schema@ == "hhm.visitor-qr.v1"@,
        r.audience@ == "hhm-visitor-access"@,
        r.door_id@ == door@,
        r.action == action,
        r.issued_minute == minute,
{
    visitor_answers::claims_say_what_a_token_is_for(door@, action, minute);
}

/// A payload is signed under the key, in the context of tokens.
pub proof fn payloads_are_signed_under_the_key(
    key: &[u8],
    encoded_payload: &str,
    r: Result<Vec<u8>, VisitorError>,
)
    requires
        call_ensures(token::sign_token_payload, (key, encoded_payload), r),
    ensures
        r matches Ok(code) && code@ == seal::hmac_sha256(
            key@,
            vstd::utf8::encode_utf8("hhm.visitor-qr.signature.v1\0"@) + vstd::utf8::encode_utf8(
                encoded_payload@,
            ),
        ) && code@.len() == 32,
{
}

/// A token is the prefix, the payload and its signature, with dots between them.
pub proof fn tokens_are_sealed_like_this(
    key: &[u8],
    payload: &[u8],
    r: Result<String, VisitorError>,
)
    requires
        call_ensures(token::seal_payload, (key, payload), r),
    ensures
        r matches Ok(t) && t@ == "hhm1"@ + seq!['.'] + base64url::encoded(payload@) + seq!['.']
            + base64url::encoded(
            seal::hmac_sha256(
                key@,
                vstd::utf8::encode_utf8("hhm.visitor-qr.signature.v1\0"@)
                    + vstd::utf8::encode_utf8(base64url::encoded(payload@)),
            ),
        ),
{
    let coded = base64url::encoded(payload@);
    let code = base64url::encoded(
        seal::hmac_sha256(
            key@,
            vstd::utf8::encode_utf8("hhm.visitor-qr.signature.v1\0"@) + vstd::utf8::encode_utf8(
                coded,
            ),
        ),
    );
    assert(token::token_text(key@, payload@) =~= "hhm1"@ + seq!['.'] + coded + seq!['.'] + code);
}

/// A token opens only at a door of the service, and only where it was sealed under the key, to
/// the payload that was sealed.
pub proof fn tokens_open_where_they_were_sealed(
    key: &[u8],
    doors: &KeySet<String>,
    t: &str,
    door: &str,
    r: Result<Vec<u8>, VisitorError>,
)
    requires
        call_ensures(token::open_token, (key, doors, t, door), r),
    ensures
        r matches Ok(payload) ==> {
            &&& text::byte_len(t@) <= 1024
            &&& doors@.contains(door@)
            &&& payload@.len() <= 512
            &&& t@ == token::token_text(key@, payload@)
        },
        r matches Err(e) ==> e == (if text::byte_len(t@) <= 1024 && !doors@.contains(door@) {
            VisitorError::InvalidDoor
        } else {
            VisitorError::InvalidQr
        }),
        forall|p: Seq<u8>|
            t@ == #[trigger] token::token_text(key@, p) && p.len() <= 512 && text::byte_len(t@)
                <= 1024 && doors@.contains(door@) ==> (r matches Ok(payload) && payload@ == p),
{
    visitor_answers::tokens_open_by_their_seal(key@, doors@, t@, door@);
}

/// Claims are good for one door, one action, and the minute that they name with the fifteen
/// seconds after it.
pub proof fn claims_are_checked_like_this(
    doors: &KeySet<String>,
    claims: &Option<QrClaims>,
    door: &str,
    action: VisitorAction,
    now: Timestamp,
    r: Result<(), VisitorError>,
)
    requires
        call_ensures(token::check_claims, (doors, claims, door, action, now), r),
    ensures
        *claims is None ==> r == Err::<(), _>(VisitorError::InvalidQr),
        *claims matches Some(c) ==> {
            let start = 60 * c.issued_minute;
            let right = c.schema@ == "hhm.visitor-qr.v1"@ && c.audience@ == "hhm-visitor-access"@
                && c.door_id@ == door@ && c.action == action && doors@.contains(door@) && i64::MIN
                <= start && start + 75 <= i64::MAX;
            let timely = start <= now@.seconds <= start + 75;
            r == if !right {
                Err::<(), _>(VisitorError::InvalidQr)
            } else if !timely {
                Err(VisitorError::ExpiredQr)
            } else {
                Ok(())
            }
        },
{
    if claims is Some {
        visitor_answers::claims_are_good_for_one_door_action_and_time(
            doors@,
            claims->Some_0@,
            door@,
            action,
            now@,
        );
    }
}

/// The redemptions of a token are counted by what stands behind its last dot, where that is one
/// to 64 bytes long.
pub proof fn redemptions_are_keyed_by_the_signature(t: &str, r: Result<String, VisitorError>)
    requires
        call_ensures(token::qr_redemption_key, (t,), r),
    ensures
        ({
            let segments = text::pieces(t@, '.');
            let last = segments[segments.len() - 1];
            &&& r is Ok <==> segments.len() >= 2 && last.len() > 0 && text::byte_len(last) <= 64
            &&& r matches Ok(key) ==> key@ == last
            &&& r matches Err(e) ==> e == VisitorError::InvalidQr
        }),
{
}

/// The claims for a door are written as this one text.
pub proof fn claims_are_written_like_this(claims: &QrClaims, r: Result<String, VisitorError>)
    requires
        call_ensures(token::write_claims, (claims,), r),
        claims.schema@ == "hhm.visitor-qr.v1"@,
        claims.audience@ == "hhm-visitor-access"@,
        json::plain(claims.door_id@),
    ensures
        r matches Ok(written) && written@
            == "{\"schema\":\"hhm.visitor-qr.v1\",\"audience\":\"hhm-visitor-access\",\"door_id\":\""@
            + claims.door_id@ + (match claims.action {
            VisitorAction::CheckIn => "\",\"action\":\"check_in\",\"issued_minute\":"@,
            VisitorAction::CheckOut => "\",\"action\":\"check_out\",\"issued_minute\":"@,
        }) + json::integer(claims.issued_minute as int) + "}"@,
{
    text_laws::payload_is_written_like_this(claims.door_id@, claims.action, claims.issued_minute);
    assert(claims@ == token::claims_for(claims.door_id@, claims.action, claims.issued_minute));
}

} // verus!
