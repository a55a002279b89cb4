//! What the reservation demo answers, said of the requests and the answers themselves.

use crate::moment::Moment;
use crate::reply::{self, ApiError, Refusal};
use crate::reservation::{
    self, CreateReservation, Record, Reservation, ReservationEvent, Wish,
};
use crate::text;
use vstd::prelude::*;
use vstd::string::*;

verus! {

/// A request is shown field by field.
pub proof fn request_is_seen_as_it_is(input: CreateReservation)
    ensures
        input@.member_name == input.member_name@,
        input@.room_type == input.room_type@,
        input@.check_in == input.check_in@,
        input@.check_out == input.check_out@,
        input@.workspace_plan == input.workspace_plan@,
        input@.status == input.status@,
        input@.notes == input.notes@,
{
}

/// A record is shown field by field.
pub proof fn record_is_seen_as_it_is(record: Reservation)
    ensures
        record@.id == record.id,
        record@.created_at == record.created_at@,
        record@.updated_at == record.updated_at@,
        record@.wish.member_name == record.member_name@,
        record@.wish.room_type == record.room_type@,
        record@.wish.check_in == record.check_in@,
        record@.wish.check_out == record.check_out@,
        record@.wish.workspace_plan == record.workspace_plan@,
        record@.wish.status == record.status@,
        record@.wish.notes == record.notes@,
{
}

/// The normal form of a request has each text trimmed, the status in lower case, and the dates as
/// they were.
pub proof fn normal_form_is_field_by_field(wish: Wish)
    ensures
        ({
            let clean = reservation::normalized(wish);
            &&& clean.member_name == text::trimmed(wish.member_name)
            &&& clean.room_type == text::trimmed(wish.room_type)
            &&& clean.workspace_plan == text::trimmed(wish.workspace_plan)
            &&& clean.notes == text::trimmed(wish.notes)
            &&& clean.status == text::ascii_lowered(text::trimmed(wish.status))
            &&& clean.check_in == wish.check_in
            &&& clean.check_out == wish.check_out
        }),
{
}

/// The record made of a request holds that request, and when it was made.
pub proof fn record_holds_its_request(wish: Wish, id: u128, now: Moment)
    ensures
        ({
            let record = reservation::record_of(wish, id, now);
            &&& record.id == id
            &&& record.created_at == now
            &&& record.updated_at == now
            &&& record.wish.member_name == wish.member_name
            &&& record.wish.room_type == wish.room_type
            &&& record.wish.check_in == wish.check_in
            &&& record.wish.check_out == wish.check_out
            &&& record.wish.workspace_plan == wish.workspace_plan
            &&& record.wish.status == wish.status
            &&& record.wish.notes == wish.notes
        }),
{
}

/// Whether a reservation may be kept: its texts are there and within their bounds, it ends after
/// it begins and lasts at most 366 days, and its status is known.
pub open spec fn acceptable(wish: Wish) -> bool {
    &&& 0 < wish.member_name.len() <= 200
    &&& 0 < wish.room_type.len() <= 100
    &&& 0 < wish.workspace_plan.len() <= 100
    &&& wish.notes.len() <= 4000
    &&& wish.check_in.seconds < wish.check_out.seconds || (wish.check_in.seconds
        == wish.check_out.seconds && wish.check_in.nanos < wish.check_out.nanos)
    &&& wish.check_out.nanos_since(wish.check_in) <= 366 * 86_400_000_000_000
    &&& (wish.status == "pending"@ || wish.status == "confirmed"@ || wish.status == "checked_in"@
        || wish.status == "checked_out"@ || wish.status == "cancelled"@)
}

/// A request is taken exactly where it may be kept, and otherwise told the first thing that is
/// wrong with it.
pub proof fn faults_are_told_in_order(wish: Wish)
    ensures
        reservation::fault(wish) is None <==> acceptable(wish),
        reservation::fault(wish) is Some ==> reservation::fault(wish)->Some_0
            == if wish.member_name.len() == 0 {
            "member_name"@ + " must not be blank"@
        } else if wish.member_name.len() > 200 {
            "member_name"@ + " must be at most "@ + text::decimal(200) + " characters"@
        } else if wish.room_type.len() == 0 {
            "room_type"@ + " must not be blank"@
        } else if wish.room_type.len() > 100 {
            "room_type"@ + " must be at most "@ + text::decimal(100) + " characters"@
        } else if wish.workspace_plan.len() == 0 {
            "workspace_plan"@ + " must not be blank"@
        } else if wish.workspace_plan.len() > 100 {
            "workspace_plan"@ + " must be at most "@ + text::decimal(100) + " characters"@
        } else if wish.notes.len() > 4000 {
            "notes must be at most 4000 characters"@
        } else if !(wish.check_in.seconds < wish.check_out.seconds || (wish.check_in.seconds
            == wish.check_out.seconds && wish.check_in.nanos < wish.check_out.nanos)) {
            "check_out must be later than check_in"@
        } else if wish.check_out.nanos_since(wish.check_in) > 366 * 86_400_000_000_000 {
            "stay must not exceed 366 days"@
        } else {
            "status must be one of pending, confirmed, checked_in, checked_out, cancelled"@
        },
{
}

/// Every record stands at its own identifier and may be kept.
pub open spec fn all_acceptable(records: Map<u128, Record>) -> bool {
    forall|id: u128| #[trigger]
        records.contains_key(id) ==> records[id].id == id && acceptable(records[id].wish)
}

/// A reservation that was made holds the request field by field: the dates as they came, the
/// texts trimmed, the status in lower case. It is dated with the request, kept under its
/// identifier while every other record stays, and told to subscribers as it is.
pub proof fn made_reservation_is_the_one_asked_for<E: Fn(&ReservationEvent) -> Option<String>>(
    records: Map<u128, Record>,
    demo_reservations_enabled: bool,
    input: CreateReservation,
    now: Moment,
    encode: E,
    r: Result<(Reservation, String), ApiError>,
    after: Map<u128, Record>,
)
    requires
        reservation::created(records, demo_reservations_enabled, input, now, encode, r, after),
    ensures
        r matches Ok((record, event)) ==> {
            &&& demo_reservations_enabled
            &&& records.len() < 10_000
            &&& record.check_in@ == input.check_in@
            &&& record.check_out@ == input.check_out@
            &&& record.member_name@ == text::trimmed(input.member_name@)
            &&& record.room_type@ == text::trimmed(input.room_type@)
            &&& record.workspace_plan@ == text::trimmed(input.workspace_plan@)
            &&& record.notes@ == text::trimmed(input.notes@)
            &&& record.status@ == text::ascii_lowered(text::trimmed(input.status@))
            &&& record.created_at@ == now
            &&& record.updated_at@ == now
            &&& acceptable(record@.wish)
            &&& crate::identifier::random_version(record.id)
            &&& after.contains_key(record.id)
            &&& after[record.id] == record@
            &&& forall|id: u128|
                id != record.id ==> (#[trigger] after.contains_key(id) == records.contains_key(id)
                    && after[id] == records[id])
            &&& exists|told: ReservationEvent, written: Option<String>|
                {
                    &&& #[trigger] call_ensures(encode, (&told,), written)
                    &&& told.event@ == "reservation.created"@
                    &&& told.reservation@ == record@
                    &&& written matches Some(text) && text@ == event@
                }
        },
        r is Err ==> after == records,
        all_acceptable(records) ==> all_acceptable(after),
{
    let wish = reservation::normalized(input@);
    faults_are_told_in_order(wish);
    if r is Ok {
        let (told, event) = choose|told: ReservationEvent, event: Option<String>|
            {
                &&& told.event@ == reservation::RESERVATION_CREATED@
                &&& crate::identifier::random_version(told.reservation@.id)
                &&& told.reservation@ == reservation::record_of(wish, told.reservation@.id, now)
                &&& #[trigger] call_ensures(encode, (&told,), event)
                &&& (reservation::shown(r), after) == reservation::entered(
                    records,
                    told.reservation@,
                    text::opt_text(event),
                )
            };
        assert(call_ensures(encode, (&told,), event));
        record_holds_its_request(wish, told.reservation@.id, now);
        let (record, text) = r->Ok_0;
        assert(record@ == told.reservation@);
    }
}

/// A request for a reservation is refused where the demo is off, where something is wrong with
/// it, where subscribers cannot be told, and where the book is full, each with its own status,
/// and for no other reason.
pub proof fn reservations_are_refused_on_these_grounds<E: Fn(&ReservationEvent) -> Option<String>>(
    records: Map<u128, Record>,
    demo_reservations_enabled: bool,
    input: CreateReservation,
    now: Moment,
    encode: E,
    r: Result<(Reservation, String), ApiError>,
    after: Map<u128, Record>,
)
    requires
        reservation::created(records, demo_reservations_enabled, input, now, encode, r, after),
    ensures
        ({
            let wish = reservation::normalized(input@);
            let refused = |status: u16, code: Seq<char>, message: Seq<char>|
                {
                    &&& r matches Err(e) && e@ == (Refusal { status, code, message })
                    &&& after == records
                };
            if !demo_reservations_enabled {
                refused(
                    403,
                    "reservation_demo_disabled"@,
                    "reservation demo is disabled until authenticated durable storage is configured"@,
                )
            } else if !acceptable(wish) {
                refused(422, "invalid_reservation"@, reservation::fault(wish)->Some_0)
            } else {
                exists|told: ReservationEvent, written: Option<String>|
                    {
                        &&& #[trigger] call_ensures(encode, (&told,), written)
                        &&& told.event@ == "reservation.created"@
                        &&& told.reservation@.wish == wish
                        &&& told.reservation@.created_at == now
                        &&& told.reservation@.updated_at == now
                        &&& if written is None {
                            refused(
                                500,
                                "event_serialization_failed"@,
                                "reservation could not be created"@,
                            )
                        } else if records.len() >= 10_000 {
                            refused(
                                503,
                                "reservation_capacity_reached"@,
                                "reservation demo capacity reached"@,
                            )
                        } else {
                            r is Ok
                        }
                    }
            }
        }),
{
    let wish = reservation::normalized(input@);
    faults_are_told_in_order(wish);
    if demo_reservations_enabled && acceptable(wish) {
        let (told, event) = choose|told: ReservationEvent, event: Option<String>|
            {
                &&& told.event@ == reservation::RESERVATION_CREATED@
                &&& crate::identifier::random_version(told.reservation@.id)
                &&& told.reservation@ == reservation::record_of(wish, told.reservation@.id, now)
                &&& #[trigger] call_ensures(encode, (&told,), event)
                &&& (reservation::shown(r), after) == reservation::entered(
                    records,
                    told.reservation@,
                    text::opt_text(event),
                )
            };
        assert(call_ensures(encode, (&told,), event));
    }
}

/// A record is found by its identifier as it is kept. Where there is none, or where the demo is
/// off, that is told.
pub proof fn records_are_found_by_their_identifier(
    records: Map<u128, Record>,
    demo_reservations_enabled: bool,
    id: u128,
)
    ensures
        ({
            let r = reservation::found(records, demo_reservations_enabled, id);
            &&& r is Ok <==> demo_reservations_enabled && records.contains_key(id)
            &&& r matches Ok(record) ==> record == records[id]
            &&& r matches Err(e) ==> e.status == if demo_reservations_enabled {
                404u16
            } else {
                403u16
            }
            &&& r matches Err(e) ==> e.code == if demo_reservations_enabled {
                "not_found"@
            } else {
                "reservation_demo_disabled"@
            }
        }),
{
}

/// A list of the records holds every one of them once and nothing else, and none stands before
/// one that was made earlier.
pub proof fn lists_are_complete_and_ordered(listed: Seq<Record>, records: Map<u128, Record>)
    requires
        reservation::lists(listed, records),
        reservation::in_order(listed),
        reservation::consistent(records),
    ensures
        forall|id: u128| #[trigger]
            records.contains_key(id) ==> exists|i: int|
                0 <= i < listed.len() && #[trigger] listed[i] == records[id],
        forall|i: int|
            0 <= i < listed.len() ==> records.contains_key((#[trigger] listed[i]).id)
                && records[listed[i].id] == listed[i],
        forall|i: int, j: int|
            0 <= i < j < listed.len() ==> (#[trigger] listed[i]).id != (#[trigger] listed[j]).id,
        forall|i: int, j: int|
            0 <= i < j < listed.len() ==> {
                let a = (#[trigger] listed[i]).created_at;
                let b = (#[trigger] listed[j]).created_at;
                a.seconds < b.seconds || (a.seconds == b.seconds && a.nanos <= b.nanos)
            },
{
    assert forall|id: u128| #[trigger] records.contains_key(id) implies exists|i: int|
        0 <= i < listed.len() && #[trigger] listed[i] == records[id] by {
        assert(listed.contains(records[id]));
    }
    assert forall|i: int| 0 <= i < listed.len() implies records.contains_key(
        (#[trigger] listed[i]).id,
    ) && records[listed[i].id] == listed[i] by {
        assert(listed.contains(listed[i]));
    }
}

/// The records of a list are shown in its order, each as it is.
pub proof fn listed_records_are_seen_as_they_are(listed: Seq<Reservation>)
    ensures
        reservation::views(listed).len() == listed.len(),
        forall|i: int|
            0 <= i < listed.len() ==> #[trigger] reservation::views(listed)[i] == listed[i]@,
{
}

/// Where the demo is off, the refusal says so and what is missing.
pub proof fn demo_is_refused_with_its_reason()
    ensures
        reply::demo_disabled() == (Refusal {
            status: 403,
            code: "reservation_demo_disabled"@,
            message:
                "reservation demo is disabled until authenticated durable storage is configured"@,
        }),
{
}

} // verus!
