//! What holds of visitor access whatever happens to it.

use crate::base64url;
use crate::identifier;
use crate::json;
use crate::moment::Moment;
use crate::table;
use crate::text;
use crate::token::{self, QrClaims};
use crate::visitor::{
    self, Access, Admission, IssuedQr, Register, Release, Stay, VisitorAction, VisitorError,
    MAX_ACTIVE_VISITS, MAX_REDEMPTIONS_PER_CODE, MAX_VISITOR_NAME_CHARS,
};
use vstd::prelude::*;
use vstd::string::*;

verus! {

/// A token that opens is the very one that its payload is sealed in: nothing in it can be
/// changed.
pub proof fn only_sealed_tokens_open(
    key: Seq<u8>,
    doors: Set<Seq<char>>,
    t: Seq<char>,
    door: Seq<char>,
)
    requires
        token::opened(key, doors, t, door) is Ok,
    ensures
        t == token::token_text(key, token::opened(key, doors, t, door)->Ok_0),
        token::opened(key, doors, t, door)->Ok_0.len() <= token::MAX_PAYLOAD_BYTES,
        doors.contains(door),
{
    let segments = text::pieces(t, '.');
    let payload = token::opened(key, doors, t, door)->Ok_0;
    let code = token::signature(key, segments[1]);
    assert(base64url::encoded(payload) == segments[1]);
    assert(base64url::encoded(code) == segments[2]);
    text::lemma_joined_pieces(t, '.');
    let two = segments.drop_last();
    assert(two.drop_last() =~= seq![segments[0]]);
    assert(text::joined(two.drop_last(), '.') == segments[0]);
    assert(text::joined(two, '.') == segments[0].push('.') + segments[1]);
    assert(text::joined(segments, '.') == text::joined(two, '.').push('.') + segments[2]);
    assert(t =~= token::token_text(key, payload));
}

/// Different payloads are sealed in different tokens.
pub proof fn tokens_differ_with_their_payloads(key: Seq<u8>, a: Seq<u8>, b: Seq<u8>)
    requires
        a != b,
    ensures
        token::token_text(key, a) != token::token_text(key, b),
{
    if token::token_text(key, a) == token::token_text(key, b) {
        token::lemma_token_segments(key, a);
        token::lemma_token_segments(key, b);
        assert(text::pieces(token::token_text(key, a), '.')[1] == base64url::encoded(a));
        assert(text::pieces(token::token_text(key, b), '.')[1] == base64url::encoded(b));
        base64url::lemma_encoded_injective(a, b);
    }
}

/// The claims of different minutes differ, and so do those for different doors and actions.
pub proof fn claims_name_minute_door_and_action(
    door: Seq<char>,
    action: VisitorAction,
    minute: i64,
    door2: Seq<char>,
    action2: VisitorAction,
    minute2: i64,
)
    ensures
        (token::claims_for(door, action, minute) == token::claims_for(door2, action2, minute2))
            == (door == door2 && action == action2 && minute == minute2),
{
}

/// A token with the claims for its door, action and minute is good for them from the start of
/// the minute until the grace is over, and expired at any other time.
pub proof fn token_is_good_for_its_minute_and_grace(
    access: Access,
    t: Seq<char>,
    door: Seq<char>,
    action: VisitorAction,
    issued: Moment,
    now: Moment,
)
    requires
        issued.representable(),
        token::opened(access.key, access.doors, t, door) is Ok,
    ensures
        visitor::good_for(
            access,
            t,
            door,
            action,
            now,
            Some(token::claims_for(door, action, issued.minute() as i64)),
        ) == if 60 * issued.minute() <= now.seconds <= visitor::token_end(issued.minute()).seconds {
            Ok::<(), VisitorError>(())
        } else {
            Err(VisitorError::ExpiredQr)
        },
{
}

/// Whether the identifiers of the doors are such as can be set up.
pub open spec fn plain_doors(access: Access) -> bool {
    forall|door: Seq<char>| #[trigger] access.doors.contains(door) ==> visitor::door_id(door)
}

/// However visitor access is set up, its doors have valid identifiers.
pub proof fn set_up_doors_are_plain(
    key: Option<Seq<char>>,
    doors: Option<Seq<char>>,
    notice: Option<Seq<char>>,
)
    requires
        visitor::access_from(key, doors, notice) is Ok,
        visitor::access_from(key, doors, notice)->Ok_0 is Some,
    ensures
        plain_doors(visitor::access_from(key, doors, notice)->Ok_0->Some_0),
{
    let access = visitor::access_from(key, doors, notice)->Ok_0->Some_0;
    let named = text::entries(text::setting(doors)->Some_0);
    assert forall|door: Seq<char>| #[trigger] access.doors.contains(door) implies visitor::door_id(
        door,
    ) by {
        assert(named.to_set().contains(door));
        let i = choose|i: int| 0 <= i < named.len() && named[i] == door;
        assert(visitor::door_id(named[i]));
    }
}

/// A QR code is issued exactly for the doors of the service, for the minute of the moment and
/// its grace, where the code does not end behind the calendar.
pub proof fn codes_are_issued_for_known_doors(
    access: Access,
    door: Seq<char>,
    action: VisitorAction,
    now: Moment,
    r: Result<IssuedQr, VisitorError>,
)
    requires
        visitor::token_end(now.minute()).representable(),
        visitor::issued(access, door, action, now, r),
    ensures
        match r {
            Ok(qr) => {
                &&& access.doors.contains(door)
                &&& qr.door_id@ == door
                &&& qr.action == action
                &&& qr.expires_at@ == (Moment { seconds: 60 * (now.minute() + 1) + 15, nanos: 0 })
            },
            Err(e) => !access.doors.contains(door) && e == VisitorError::InvalidDoor,
        },
{
}

/// Two QR codes of one service are the same exactly where they are for the same door, the same
/// action and the same minute.
pub proof fn codes_differ_by_door_action_and_minute(
    access: Access,
    door1: Seq<char>,
    action1: VisitorAction,
    now1: Moment,
    qr1: IssuedQr,
    door2: Seq<char>,
    action2: VisitorAction,
    now2: Moment,
    qr2: IssuedQr,
)
    requires
        plain_doors(access),
        now1.representable(),
        now2.representable(),
        visitor::issued(access, door1, action1, now1, Ok(qr1)),
        visitor::issued(access, door2, action2, now2, Ok(qr2)),
    ensures
        (qr1.qr_payload@ == qr2.qr_payload@) == (door1 == door2 && action1 == action2
            && now1.minute() == now2.minute()),
{
    let m1 = now1.minute() as i64;
    let m2 = now2.minute() as i64;
    let p1 = token::payload_of(token::claims_for(door1, action1, m1));
    let p2 = token::payload_of(token::claims_for(door2, action2, m2));
    let t1 = token::token_text(access.key, p1);
    let t2 = token::token_text(access.key, p2);
    let n = visitor::PAYLOAD_PREFIX@.len() as int;
    assert((visitor::PAYLOAD_PREFIX@ + t1).skip(n) =~= t1);
    assert((visitor::PAYLOAD_PREFIX@ + t2).skip(n) =~= t2);
    if p1 != p2 {
        tokens_differ_with_their_payloads(access.key, p1, p2);
    } else {
        payloads_differ_by_door_action_and_minute(door1, action1, m1, door2, action2, m2);
    }
}

proof fn lemma_up_to_quote(a1: Seq<char>, r1: Seq<char>, a2: Seq<char>, r2: Seq<char>)
    requires
        a1 + seq!['"'] + r1 == a2 + seq!['"'] + r2,
        !a1.contains('"'),
        !a2.contains('"'),
    ensures
        a1 == a2,
        r1 == r2,
{
    let s = a1 + seq!['"'] + r1;
    assert(s[a1.len() as int] == '"');
    assert(s[a2.len() as int] == '"');
    if a1.len() < a2.len() {
        assert(s[a1.len() as int] == a2[a1.len() as int]);
    } else if a2.len() < a1.len() {
        assert(s[a2.len() as int] == a1[a2.len() as int]);
    }
    assert(s.take(a1.len() as int) =~= a1);
    assert(s.take(a2.len() as int) =~= a2);
    assert(s.skip(a1.len() as int + 1) =~= r1);
    assert(s.skip(a2.len() as int + 1) =~= r2);
}

spec fn claims_head() -> Seq<char> {
    "{\"schema\":"@ + json::quoted(token::QR_SCHEMA@) + ",\"audience\":"@ + json::quoted(
        token::QR_AUDIENCE@,
    ) + ",\"door_id\":"@ + seq!['"']
}

spec fn claims_end(minute: i64) -> Seq<char> {
    ",\"issued_minute\":"@ + json::integer(minute as int) + "}"@
}

proof fn lemma_claims_shape(door: Seq<char>, action: VisitorAction, minute: i64)
    requires
        visitor::door_id(door),
    ensures
        token::claims_text(token::claims_for(door, action, minute)) == claims_head() + (door + seq![
            '"',
        ] + (",\"action\":\""@ + (token::wire_name(action) + seq!['"'] + claims_end(minute)))),
        !door.contains('"'),
        !token::wire_name(action).contains('"'),
{
    reveal_strlit("check_in");
    reveal_strlit("check_out");
    reveal_strlit(",\"action\":");
    reveal_strlit(",\"action\":\"");
    let name = token::wire_name(action);
    assert forall|i: int| 0 <= i < door.len() implies (#[trigger] door[i]) as int >= 32 && door[i]
        != '"' && door[i] != '\\' by {
        assert(visitor::door_char(door[i]));
    }
    assert(json::plain(name));
    json::lemma_plain_text(door);
    json::lemma_plain_text(name);
    assert(",\"action\":\""@ =~= ",\"action\":"@ + seq!['"']);
    assert(token::claims_text(token::claims_for(door, action, minute)) =~= claims_head() + (door
        + seq!['"'] + (",\"action\":\""@ + (name + seq!['"'] + claims_end(minute)))));
}

/// Two payloads with the claims of tokens are the same exactly where those are for the same door,
/// the same action and the same minute.
pub proof fn payloads_differ_by_door_action_and_minute(
    door1: Seq<char>,
    action1: VisitorAction,
    minute1: i64,
    door2: Seq<char>,
    action2: VisitorAction,
    minute2: i64,
)
    requires
        visitor::door_id(door1),
        visitor::door_id(door2),
    ensures
        (token::payload_of(token::claims_for(door1, action1, minute1)) == token::payload_of(
            token::claims_for(door2, action2, minute2),
        )) == (door1 == door2 && action1 == action2 && minute1 == minute2),
{
    let c1 = token::claims_text(token::claims_for(door1, action1, minute1));
    let c2 = token::claims_text(token::claims_for(door2, action2, minute2));
    if token::payload_of(token::claims_for(door1, action1, minute1)) == token::payload_of(
        token::claims_for(door2, action2, minute2),
    ) {
        vstd::utf8::encode_utf8_decode_utf8(c1);
        vstd::utf8::encode_utf8_decode_utf8(c2);
        assert(c1 == c2);
        lemma_claims_shape(door1, action1, minute1);
        lemma_claims_shape(door2, action2, minute2);
        let n = claims_head().len() as int;
        let mid = ",\"action\":\""@;
        let e1 = token::wire_name(action1) + seq!['"'] + claims_end(minute1);
        let e2 = token::wire_name(action2) + seq!['"'] + claims_end(minute2);
        assert(c1.skip(n) =~= door1 + seq!['"'] + (mid + e1));
        assert(c2.skip(n) =~= door2 + seq!['"'] + (mid + e2));
        lemma_up_to_quote(door1, mid + e1, door2, mid + e2);
        assert((mid + e1).skip(mid.len() as int) =~= e1);
        assert((mid + e2).skip(mid.len() as int) =~= e2);
        lemma_up_to_quote(
            token::wire_name(action1),
            claims_end(minute1),
            token::wire_name(action2),
            claims_end(minute2),
        );
        reveal_strlit("check_in");
        reveal_strlit("check_out");
        assert("check_in"@.len() == 8 && "check_out"@.len() == 9);
        let k = ",\"issued_minute\":"@.len() as int;
        let end = "}"@.len() as int;
        let tail = claims_end(minute1);
        let m1 = json::integer(minute1 as int);
        let m2 = json::integer(minute2 as int);
        assert(tail.subrange(k, tail.len() - end) =~= m1);
        assert(tail.subrange(k, tail.len() - end) =~= m2);
        json::lemma_integer_injective(minute1 as int, minute2 as int);
    }
}

/// The claims of every token fit into a payload.
pub proof fn claims_fit_into_a_payload(door: Seq<char>, action: VisitorAction, minute: i64)
    requires
        visitor::door_id(door),
    ensures
        token::payload_of(token::claims_for(door, action, minute)).len()
            <= token::MAX_PAYLOAD_BYTES,
{
    let claims = token::claims_for(door, action, minute);
    let whole = token::claims_text(claims);
    let size = (if minute < 0 { -(minute as int) } else { minute as int }) as nat;
    reveal_strlit("{\"schema\":");
    reveal_strlit("hhm.visitor-qr.v1");
    reveal_strlit(",\"audience\":");
    reveal_strlit("hhm-visitor-access");
    reveal_strlit(",\"door_id\":");
    reveal_strlit(",\"action\":");
    reveal_strlit("check_in");
    reveal_strlit("check_out");
    reveal_strlit(",\"issued_minute\":");
    reveal_strlit("}");
    assert forall|i: int| 0 <= i < door.len() implies (#[trigger] door[i]) as int >= 32 && door[i]
        != '"' && door[i] != '\\' && (door[i] as int) < 128 by {
        assert(visitor::door_char(door[i]));
    }
    json::lemma_plain_text(claims.schema);
    json::lemma_plain_text(claims.audience);
    json::lemma_plain_text(door);
    json::lemma_plain_text(token::wire_name(action));
    text::lemma_decimal_digits(size);
    reveal_with_fuel(text::power_of_ten, 20);
    assert(text::power_of_ten(19) == 10_000_000_000_000_000_000);
    text::lemma_decimal_len(size, 19);
    assert(vstd::utf8::is_ascii_chars(door));
    vstd::utf8::is_ascii_chars_encode_utf8(door);
    assert(door.len() <= 64);
    assert(whole.len() <= 300);
    assert(vstd::utf8::is_ascii_chars(whole));
    vstd::utf8::is_ascii_chars_encode_utf8(whole);
}

/// Whether `decode` reads the claims that a token holds.
pub open spec fn faithful<D: Fn(&[u8]) -> Option<QrClaims>>(decode: D) -> bool {
    forall|door: Seq<char>, action: VisitorAction, minute: i64, read: &[u8], d: Option<QrClaims>|
        #![trigger token::claims_for(door, action, minute), call_ensures(decode, (read,), d)]
        visitor::door_id(door) && read@ == token::payload_of(
            token::claims_for(door, action, minute),
        ) && call_ensures(decode, (read,), d) ==> token::read_claims(d) == Some(
            token::claims_for(door, action, minute),
        )
}

/// What is found of the token in a QR code, where its claims are read as they stand there: it is
/// good at its own door and for its own action from the start of its minute until its grace is
/// over. Shown at a door that is not one of the service's, at another door or for another
/// action, or at another time, it is refused for that reason, the first of them that holds.
pub proof fn issued_code_is_good_where_it_should_be<D: Fn(&[u8]) -> Option<QrClaims>>(
    access: Access,
    door: Seq<char>,
    action: VisitorAction,
    issued_at: Moment,
    decode: D,
    qr: IssuedQr,
    t: Seq<char>,
    shown_at: Seq<char>,
    shown_for: VisitorAction,
    now: Moment,
    r: Result<(), VisitorError>,
)
    requires
        plain_doors(access),
        issued_at.representable(),
        faithful(decode),
        visitor::issued(access, door, action, issued_at, Ok(qr)),
        qr.qr_payload@ == visitor::PAYLOAD_PREFIX@ + t,
        visitor::verified(access, t, shown_at, shown_for, now, decode, r),
    ensures
        r == if !access.doors.contains(shown_at) {
            Err::<(), VisitorError>(VisitorError::InvalidDoor)
        } else if shown_at != door || shown_for != action {
            Err(VisitorError::InvalidQr)
        } else if now.seconds < 60 * issued_at.minute() || now.seconds > 60 * issued_at.minute()
            + 75 {
            Err(VisitorError::ExpiredQr)
        } else {
            Ok(())
        },
{
    let claims = token::claims_for(door, action, issued_at.minute() as i64);
    let bytes = token::payload_of(claims);
    let sealed = token::token_text(access.key, bytes);
    let n = visitor::PAYLOAD_PREFIX@.len() as int;
    assert((visitor::PAYLOAD_PREFIX@ + t).skip(n) =~= t);
    assert((visitor::PAYLOAD_PREFIX@ + sealed).skip(n) =~= sealed);
    claims_fit_into_a_payload(door, action, issued_at.minute() as i64);
    if access.doors.contains(shown_at) {
        let (payload, d) = choose|payload: &[u8], d: Option<QrClaims>|
            {
                &&& payload@ == bytes
                &&& #[trigger] call_ensures(decode, (payload,), d)
                &&& r == visitor::good_for(
                    access,
                    t,
                    shown_at,
                    shown_for,
                    now,
                    token::read_claims(d),
                )
            };
        assert(call_ensures(decode, (payload,), d));
        assert(token::read_claims(d) == Some(claims));
    }
}

/// A token is not good at another door or for another action than it claims.
pub proof fn token_is_bound_to_door_and_action(
    access: Access,
    t: Seq<char>,
    claims: token::Claims,
    door: Seq<char>,
    action: VisitorAction,
    now: Moment,
)
    requires
        token::opened(access.key, access.doors, t, door) is Ok,
        claims.door_id != door || claims.action != action || claims.audience
            != token::QR_AUDIENCE@ || claims.schema != token::QR_SCHEMA@,
    ensures
        visitor::good_for(access, t, door, action, now, Some(claims)) == Err::<(), VisitorError>(
            VisitorError::InvalidQr,
        ),
{
}

/// Visitor access is set up with all three of its settings or with none.
pub proof fn visitor_access_is_all_or_nothing(
    key: Option<Seq<char>>,
    doors: Option<Seq<char>>,
    notice: Option<Seq<char>>,
)
    requires
        visitor::access_from(key, doors, notice) is Ok,
    ensures
        (text::setting(key) is Some) == (text::setting(doors) is Some),
        (text::setting(key) is Some) == (text::setting(notice) is Some),
        (text::setting(key) is Some) == (visitor::access_from(key, doors, notice)->Ok_0 is Some),
{
}

/// A token is good in the minute that it claims and in the one after it, and at no other time.
pub proof fn token_is_good_in_two_minutes(
    doors: Set<Seq<char>>,
    claims: token::Claims,
    door: Seq<char>,
    action: VisitorAction,
    now: Moment,
)
    requires
        token::claims_verdict(doors, Some(claims), door, action, now) is Ok,
    ensures
        claims.issued_minute <= now.minute() <= claims.issued_minute + 1,
{
}

/// The redemptions of a token are counted as long as it is good: what was noted in one minute in
/// which it was good is still counted in any other.
pub proof fn redemptions_are_counted_while_the_token_is_good(
    doors: Set<Seq<char>>,
    claims: token::Claims,
    door: Seq<char>,
    action: VisitorAction,
    then: Moment,
    now: Moment,
    count: u16,
)
    requires
        then.representable(),
        token::claims_verdict(doors, Some(claims), door, action, then) is Ok,
        token::claims_verdict(doors, Some(claims), door, action, now) is Ok,
    ensures
        visitor::counted_at(now)((then.minute() as i64, count)),
{
}

/// What every register keeps: it is finite, no token was taken more often than allowed, there
/// are no more open visits than allowed, an open visit has a valid name and a closed one has
/// none.
pub open spec fn orderly(register: Register) -> bool {
    &&& register.visits.dom().finite()
    &&& register.redemptions.dom().finite()
    &&& visitor::open_visits(register.visits) <= MAX_ACTIVE_VISITS
    &&& forall|key: Seq<char>| #[trigger]
        register.redemptions.contains_key(key) ==> 0 < register.redemptions[key].1
            <= MAX_REDEMPTIONS_PER_CODE
    &&& forall|id: u128| #[trigger]
        register.visits.contains_key(id) ==> (match register.visits[id].display_name {
            Some(name) => register.visits[id].checked_out_at is None && text::bounded_text(
                name,
                MAX_VISITOR_NAME_CHARS as nat,
            ),
            None => register.visits[id].checked_out_at is Some,
        })
}

/// A blank register is orderly.
pub proof fn blank_register_is_orderly()
    ensures
        orderly(visitor::blank_register()),
{
    let open = visitor::is_open();
    let m = Map::<u128, Stay>::empty();
    assert(m.dom().filter(|k: u128| open(m[k])) =~= Set::<u128>::empty());
}

proof fn lemma_tally_kept<K, V>(m: Map<K, V>, keep: spec_fn(V) -> bool, p: spec_fn(V) -> bool)
    requires
        m.dom().finite(),
    ensures
        table::kept(m, keep).dom().finite(),
        table::tally(table::kept(m, keep), p) <= table::tally(m, p),
        (forall|v: V| #[trigger] p(v) ==> keep(v)) ==> table::tally(table::kept(m, keep), p)
            == table::tally(m, p),
{
    let less = table::kept(m, keep);
    let small = less.dom().filter(|k: K| p(less[k]));
    let large = m.dom().filter(|k: K| p(m[k]));
    assert(less.dom().subset_of(m.dom()));
    vstd::set_lib::lemma_set_subset_finite(m.dom(), less.dom());
    assert(large.subset_of(m.dom()));
    vstd::set_lib::lemma_set_subset_finite(m.dom(), large);
    assert(small.subset_of(large));
    vstd::set_lib::lemma_len_subset(small, large);
    if forall|v: V| #[trigger] p(v) ==> keep(v) {
        assert(small =~= large);
    }
}

proof fn lemma_tally_insert<K, V>(m: Map<K, V>, key: K, value: V, p: spec_fn(V) -> bool)
    requires
        m.dom().finite(),
    ensures
        table::tally(m.insert(key, value), p) <= table::tally(m, p) + 1,
        !p(value) ==> table::tally(m.insert(key, value), p) <= table::tally(m, p),
        p(value) && !m.contains_key(key) ==> table::tally(m.insert(key, value), p) == table::tally(
            m,
            p,
        ) + 1,
{
    let more = m.insert(key, value);
    let before = m.dom().filter(|k: K| p(m[k]));
    let after = more.dom().filter(|k: K| p(more[k]));
    assert(before.subset_of(m.dom()));
    vstd::set_lib::lemma_set_subset_finite(m.dom(), before);
    if p(value) {
        assert(after.subset_of(before.insert(key)));
        vstd::set_lib::lemma_len_subset(after, before.insert(key));
        if !m.contains_key(key) {
            assert(after =~= before.insert(key));
        }
    } else {
        assert(after.subset_of(before));
        vstd::set_lib::lemma_len_subset(after, before);
    }
}

/// To forget closed visits does not change the number of open ones.
pub proof fn purge_keeps_open_visits(register: Register, now: Moment)
    requires
        register.visits.dom().finite(),
    ensures
        visitor::open_visits(table::kept(register.visits, visitor::retained_at(now)))
            == visitor::open_visits(register.visits),
{
    lemma_tally_kept(register.visits, visitor::retained_at(now), visitor::is_open());
}

/// Checking in keeps the register orderly, whether it succeeds or not.
pub proof fn check_in_keeps_order(
    access: Access,
    register: Register,
    t: Seq<char>,
    name: Seq<char>,
    notice: Seq<char>,
    now: Moment,
    visit_id: u128,
    first: u128,
    second: u128,
)
    requires
        orderly(register),
    ensures
        orderly(
            visitor::admitted(
                access,
                register,
                t,
                name,
                notice,
                now,
                visit_id,
                first,
                second,
            ).1,
        ),
{
    let visits = table::kept(register.visits, visitor::retained_at(now));
    lemma_tally_kept(register.visits, visitor::retained_at(now), visitor::is_open());
    lemma_tally_kept(
        register.redemptions,
        visitor::counted_at(now),
        |entry: (i64, u16)| true,
    );
    let stay = Stay {
        receipt_tag: visitor::tag_of_receipt(access.key, visitor::receipt_text(first, second)),
        display_name: Some(text::trimmed(name)),
        checked_out_at: None,
    };
    lemma_tally_insert(visits, visit_id, stay, visitor::is_open());
}

/// Checking out keeps the register orderly, whether it succeeds or not.
pub proof fn check_out_keeps_order(
    access: Access,
    register: Register,
    t: Seq<char>,
    visit_id: u128,
    receipt: Seq<char>,
    now: Moment,
)
    requires
        orderly(register),
    ensures
        orderly(visitor::released(access, register, t, visit_id, receipt, now).1),
{
    let stay = register.visits[visit_id];
    lemma_tally_insert(
        register.visits,
        visit_id,
        Stay { display_name: None, checked_out_at: Some(now), ..stay },
        visitor::is_open(),
    );
    lemma_tally_kept(
        register.redemptions,
        visitor::counted_at(now),
        |entry: (i64, u16)| true,
    );
}

/// A visitor who checks in has accepted the current notice and gave a valid name, and one more
/// redemption of the token is counted; the other tokens' counts and the other open visits stay.
/// Under an identifier that no visit had, there is one open visit more.
pub proof fn check_in_enters_one_visit(
    access: Access,
    register: Register,
    t: Seq<char>,
    name: Seq<char>,
    notice: Seq<char>,
    now: Moment,
    visit_id: u128,
    first: u128,
    second: u128,
    other: u128,
)
    requires
        register.visits.dom().finite(),
        visitor::admitted(access, register, t, name, notice, now, visit_id, first, second).0 is Ok,
    ensures
        ({
            let after = visitor::admitted(
                access,
                register,
                t,
                name,
                notice,
                now,
                visit_id,
                first,
                second,
            ).1;
            let key = token::redemption_key(t)->Ok_0;
            let earlier = visitor::counted(register, now);
            &&& notice == access.notice
            &&& text::bounded_text(text::trimmed(name), MAX_VISITOR_NAME_CHARS as nat)
            &&& after.visits.contains_key(visit_id)
            &&& after.visits[visit_id].display_name == Some(text::trimmed(name))
            &&& after.visits[visit_id].checked_out_at is None
            &&& after.redemptions[key].1 == 1 + visitor::times_redeemed(earlier, key)
            &&& after.redemptions.remove(key) == earlier.remove(key)
            &&& other != visit_id && register.visits.contains_key(other)
                && register.visits[other].checked_out_at is None ==> after.visits.contains_key(
                other,
            ) && after.visits[other] == register.visits[other]
            &&& !register.visits.contains_key(visit_id) ==> visitor::open_visits(after.visits)
                == visitor::open_visits(register.visits) + 1
        }),
{
    let after = visitor::admitted(
        access,
        register,
        t,
        name,
        notice,
        now,
        visit_id,
        first,
        second,
    ).1;
    let key = token::redemption_key(t)->Ok_0;
    let earlier = visitor::counted(register, now);
    assert(after.redemptions.remove(key) =~= earlier.remove(key));
    let visits = table::kept(register.visits, visitor::retained_at(now));
    lemma_tally_kept(register.visits, visitor::retained_at(now), visitor::is_open());
    lemma_tally_insert(visits, visit_id, after.visits[visit_id], visitor::is_open());
}

/// On a token that was redeemed as often as allowed, nobody checks in as long as that is counted,
/// and no visit is entered.
pub proof fn exhausted_token_checks_nobody_in(
    access: Access,
    register: Register,
    t: Seq<char>,
    name: Seq<char>,
    now: Moment,
    visit_id: u128,
    first: u128,
    second: u128,
)
    requires
        text::bounded_text(text::trimmed(name), MAX_VISITOR_NAME_CHARS as nat),
        token::redemption_key(t) is Ok,
        visitor::times_redeemed(
            visitor::counted(register, now),
            token::redemption_key(t)->Ok_0,
        ) >= MAX_REDEMPTIONS_PER_CODE,
    ensures
        ({
            let (answer, after) = visitor::admitted(
                access,
                register,
                t,
                name,
                access.notice,
                now,
                visit_id,
                first,
                second,
            );
            &&& answer == Err::<Admission, VisitorError>(VisitorError::RateLimited)
            &&& after.visits == register.visits
        }),
{
}

/// On a token that was redeemed as often as allowed, nobody checks out as long as that is
/// counted, and every visit stays as it is: not even the right receipt closes one.
pub proof fn exhausted_token_checks_nobody_out(
    access: Access,
    register: Register,
    t: Seq<char>,
    visit_id: u128,
    receipt: Seq<char>,
    now: Moment,
)
    requires
        token::redemption_key(t) is Ok,
        visitor::times_redeemed(
            visitor::counted(register, now),
            token::redemption_key(t)->Ok_0,
        ) >= MAX_REDEMPTIONS_PER_CODE,
    ensures
        ({
            let (answer, after) = visitor::released(access, register, t, visit_id, receipt, now);
            &&& answer is Err
            &&& after.visits == register.visits
            &&& closable(access, register, visit_id, receipt) ==> answer == Err::<
                Release,
                VisitorError,
            >(VisitorError::RateLimited)
        }),
{
}

/// Whether `visit_id` is an open visit and `receipt` is good for it.
pub open spec fn closable(
    access: Access,
    register: Register,
    visit_id: u128,
    receipt: Seq<char>,
) -> bool {
    &&& visitor::receipt_shaped(receipt)
    &&& !text::has_control(receipt)
    &&& register.visits.contains_key(visit_id)
    &&& register.visits[visit_id].checked_out_at is None
    &&& register.visits[visit_id].receipt_tag == visitor::tag_of_receipt(access.key, receipt)
}

/// A refused check-in enters nothing: every visit and every count that is there afterwards was
/// there before, and no open visit is lost.
pub proof fn refused_check_in_enters_nothing(
    access: Access,
    register: Register,
    t: Seq<char>,
    name: Seq<char>,
    notice: Seq<char>,
    now: Moment,
    visit_id: u128,
    first: u128,
    second: u128,
)
    requires
        visitor::admitted(access, register, t, name, notice, now, visit_id, first, second).0 is Err,
    ensures
        ({
            let after = visitor::admitted(
                access,
                register,
                t,
                name,
                notice,
                now,
                visit_id,
                first,
                second,
            ).1;
            &&& after.visits.submap_of(register.visits)
            &&& after.redemptions.submap_of(register.redemptions)
            &&& forall|id: u128| #[trigger]
                register.visits.contains_key(id) && register.visits[id].checked_out_at is None
                    ==> after.visits.contains_key(id)
        }),
{
}

/// A refused check-out changes no visit, and every count that is there afterwards was there
/// before.
pub proof fn refused_check_out_changes_no_visit(
    access: Access,
    register: Register,
    t: Seq<char>,
    visit_id: u128,
    receipt: Seq<char>,
    now: Moment,
)
    requires
        visitor::released(access, register, t, visit_id, receipt, now).0 is Err,
    ensures
        ({
            let after = visitor::released(access, register, t, visit_id, receipt, now).1;
            &&& after.visits == register.visits
            &&& after.redemptions.submap_of(register.redemptions)
        }),
{
}

/// Checking out closes the visit, erases the visitor's name, counts one redemption of the token
/// more, and leaves the other visits and the other tokens' counts as they were.
pub proof fn check_out_closes_one_visit(
    access: Access,
    register: Register,
    t: Seq<char>,
    visit_id: u128,
    receipt: Seq<char>,
    now: Moment,
)
    requires
        register.visits.dom().finite(),
        visitor::released(access, register, t, visit_id, receipt, now).0 is Ok,
    ensures
        ({
            let after = visitor::released(access, register, t, visit_id, receipt, now).1;
            let key = token::redemption_key(t)->Ok_0;
            let earlier = visitor::counted(register, now);
            &&& after.visits[visit_id].display_name is None
            &&& after.visits[visit_id].checked_out_at == Some(now)
            &&& after.visits.remove(visit_id) == register.visits.remove(visit_id)
            &&& after.redemptions[key].1 == 1 + visitor::times_redeemed(earlier, key)
            &&& after.redemptions.remove(key) == earlier.remove(key)
            &&& visitor::open_visits(after.visits) + 1 == visitor::open_visits(register.visits)
        }),
{
    let after = visitor::released(access, register, t, visit_id, receipt, now).1;
    let key = token::redemption_key(t)->Ok_0;
    let earlier = visitor::counted(register, now);
    assert(after.redemptions.remove(key) =~= earlier.remove(key));
    assert(after.visits.remove(visit_id) =~= register.visits.remove(visit_id));
    let open = visitor::is_open();
    let before_set = register.visits.dom().filter(|k: u128| open(register.visits[k]));
    let after_set = after.visits.dom().filter(|k: u128| open(after.visits[k]));
    assert(before_set.subset_of(register.visits.dom()));
    vstd::set_lib::lemma_set_subset_finite(register.visits.dom(), before_set);
    assert(after_set =~= before_set.remove(visit_id));
    assert(before_set.contains(visit_id));
}

/// A receipt is within its bounds.
pub proof fn lemma_receipt_shape(first: u128, second: u128)
    ensures
        visitor::receipt_shaped(visitor::receipt_text(first, second)),
        !text::has_control(visitor::receipt_text(first, second)),
{
    let a = identifier::hyphenated_form(first);
    let b = identifier::hyphenated_form(second);
    let receipt = visitor::receipt_text(first, second);
    identifier::lemma_hyphenated_form(first);
    identifier::lemma_hyphenated_form(second);
    assert forall|i: int| 0 <= i < receipt.len() implies identifier::identifier_char(
        #[trigger] receipt[i],
    ) || receipt[i] == '.' by {
        if i < 36 {
            assert(receipt[i] == a[i]);
        } else if i > 36 {
            assert(receipt[i] == b[i - 37]);
        }
    }
    assert(vstd::utf8::is_ascii_chars(receipt));
    vstd::utf8::is_ascii_chars_encode_utf8(receipt);
}

/// The receipt that a visitor got at check-in closes the visit, as long as the visit stands as
/// it was entered and the token for the way out is not exhausted.
pub proof fn receipt_of_check_in_checks_out(
    access: Access,
    register: Register,
    t: Seq<char>,
    name: Seq<char>,
    notice: Seq<char>,
    now: Moment,
    visit_id: u128,
    first: u128,
    second: u128,
    later: Register,
    t2: Seq<char>,
    now2: Moment,
)
    requires
        ({
            let (answer, after) = visitor::admitted(
                access,
                register,
                t,
                name,
                notice,
                now,
                visit_id,
                first,
                second,
            );
            &&& answer is Ok
            &&& later.visits.contains_key(visit_id)
            &&& later.visits[visit_id] == after.visits[visit_id]
        }),
        token::redemption_key(t2) matches Ok(key) && visitor::times_redeemed(
            visitor::counted(later, now2),
            key,
        ) < MAX_REDEMPTIONS_PER_CODE,
    ensures
        ({
            let receipt = visitor::admitted(
                access,
                register,
                t,
                name,
                notice,
                now,
                visit_id,
                first,
                second,
            ).0->Ok_0.checkout_receipt;
            visitor::released(access, later, t2, visit_id, receipt, now2).0 == Ok::<
                _,
                VisitorError,
            >(Release { visit_id, checked_out_at: now2 })
        }),
{
    lemma_receipt_shape(first, second);
}

/// Without a receipt of the right tag, an open visit stays open.
pub proof fn wrong_receipt_is_refused(
    access: Access,
    register: Register,
    t: Seq<char>,
    visit_id: u128,
    receipt: Seq<char>,
    now: Moment,
)
    requires
        register.visits.contains_key(visit_id),
        register.visits[visit_id].checked_out_at is None,
        register.visits[visit_id].receipt_tag != visitor::tag_of_receipt(access.key, receipt),
    ensures
        visitor::released(access, register, t, visit_id, receipt, now) == (
            Err::<Release, VisitorError>(VisitorError::InvalidReceipt),
            register,
        ),
{
}

} // verus!
