//! What each call of the reservation demo does, told of its arguments and its result.

use crate::moment::Timestamp;
use crate::reply::ApiError;
use crate::reservation::{
    self, CreateReservation, Reservation, ReservationBook, ReservationEvent,
};
use crate::reservation_laws;
use crate::text;
use vstd::prelude::*;
use vstd::string::*;

verus! {

/// A request in its normal form has its texts trimmed, its status in lower case and its dates as
/// they came.
pub proof fn requests_are_normalized_field_by_field(
    input: CreateReservation,
    r: CreateReservation,
)
    requires
        call_ensures(reservation::normalize, (input,), r),
    ensures
        r.member_name@ == text::trimmed(input.member_name@),
        r.room_type@ == text::trimmed(input.room_type@),
        r.workspace_plan@ == text::trimmed(input.workspace_plan@),
        r.notes@ == text::trimmed(input.notes@),
        r.status@ == text::ascii_lowered(text::trimmed(input.status@)),
        r.check_in@ == input.check_in@,
        r.check_out@ == input.check_out@,
{
    reservation_laws::request_is_seen_as_it_is(r);
    reservation_laws::request_is_seen_as_it_is(input);
    reservation_laws::normal_form_is_field_by_field(input@);
}

/// A text that has to be there is told to be blank or too long, by its label.
pub proof fn texts_are_required_within_bounds(
    label: &str,
    value: &str,
    maximum: usize,
    r: Result<(), String>,
)
    requires
        call_ensures(reservation::validate_required_text, (label, value, maximum), r),
    ensures
        r is Ok <==> 1 <= value@.len() <= maximum,
        r matches Err(e) ==> e@ == if value@.len() == 0 {
            label@ + " must not be blank"@
        } else {
            label@ + " must be at most "@ + text::decimal(maximum as nat) + " characters"@
        },
{
}

/// A reservation is pending, confirmed, checked in, checked out or cancelled.
pub proof fn five_states_are_known(status: &str, r: bool)
    requires
        call_ensures(reservation::is_reservation_status, (status,), r),
    ensures
        r <==> status@ == "pending"@ || status@ == "confirmed"@ || status@ == "checked_in"@
            || status@ == "checked_out"@ || status@ == "cancelled"@,
{
}

/// A request is valid exactly where it may be kept.
pub proof fn requests_are_valid_where_they_may_be_kept(
    input: &CreateReservation,
    r: Result<(), String>,
)
    requires
        call_ensures(reservation::validate, (input,), r),
    ensures
        r is Ok <==> reservation_laws::acceptable(input@),
        r matches Err(e) ==> reservation::fault(input@) == Some(e@),
{
    reservation_laws::faults_are_told_in_order(input@);
}

/// What comes out is the request in its normal form, exactly where that may be kept.
pub proof fn requests_are_normalized_and_valid(
    input: CreateReservation,
    r: Result<CreateReservation, String>,
)
    requires
        call_ensures(reservation::normalize_and_validate, (input,), r),
    ensures
        r is Ok <==> reservation_laws::acceptable(reservation::normalized(input@)),
        r matches Ok(clean) ==> {
            &&& clean.member_name@ == text::trimmed(input.member_name@)
            &&& clean.room_type@ == text::trimmed(input.room_type@)
            &&& clean.workspace_plan@ == text::trimmed(input.workspace_plan@)
            &&& clean.notes@ == text::trimmed(input.notes@)
            &&& clean.status@ == text::ascii_lowered(text::trimmed(input.status@))
            &&& clean.check_in@ == input.check_in@
            &&& clean.check_out@ == input.check_out@
        },
        r matches Err(e) ==> reservation::fault(reservation::normalized(input@)) == Some(e@),
{
    reservation_laws::faults_are_told_in_order(reservation::normalized(input@));
    reservation_laws::normal_form_is_field_by_field(input@);
}

/// A new book holds no records.
pub proof fn new_books_are_empty(r: ReservationBook)
    requires
        call_ensures(ReservationBook::new, (), r),
    ensures
        r@.dom() =~= Set::<u128>::empty(),
{
}

/// The list of a book holds its records, each once, the earliest first; where the demo is off
/// there is none.
pub proof fn books_are_listed_whole_and_in_order(
    book: &ReservationBook,
    demo_reservations_enabled: bool,
    r: Result<Vec<Reservation>, ApiError>,
)
    requires
        book.wf(),
        call_ensures(ReservationBook::list_records, (book, demo_reservations_enabled), r),
    ensures
        r is Ok <==> demo_reservations_enabled,
        r matches Err(e) ==> e.status == 403 && e.code@ == "reservation_demo_disabled"@,
        r matches Ok(listed) ==> {
            &&& forall|id: u128| #[trigger]
                book@.contains_key(id) ==> exists|i: int|
                    0 <= i < listed@.len() && (#[trigger] listed@[i])@ == book@[id]
            &&& forall|i: int|
                0 <= i < listed@.len() ==> book@.contains_key((#[trigger] listed@[i]).id)
                    && book@[listed@[i].id] == listed@[i]@
            &&& forall|i: int, j: int|
                0 <= i < j < listed@.len() ==> (#[trigger] listed@[i]).id != (
                #[trigger] listed@[j]).id
            &&& forall|i: int, j: int|
                0 <= i < j < listed@.len() ==> {
                    let a = (#[trigger] listed@[i]).created_at@;
                    let b = (#[trigger] listed@[j]).created_at@;
                    a.seconds < b.seconds || (a.seconds == b.seconds && a.nanos <= b.nanos)
                }
        },
{
    book.book_is_consistent_and_bounded();
    if r is Ok {
        let listed = r->Ok_0@;
        let seen = reservation::views(listed);
        reservation_laws::listed_records_are_seen_as_they_are(listed);
        reservation_laws::lists_are_complete_and_ordered(seen, book@);
        assert forall|id: u128| #[trigger] book@.contains_key(id) implies exists|i: int|
            0 <= i < listed.len() && (#[trigger] listed[i])@ == book@[id] by {
            let i = choose|i: int| 0 <= i < seen.len() && #[trigger] seen[i] == book@[id];
            assert(listed[i]@ == seen[i]);
        }
        assert forall|i: int| 0 <= i < listed.len() implies book@.contains_key(
            (#[trigger] listed[i]).id,
        ) && book@[listed[i].id] == listed[i]@ by {
            assert(seen[i] == listed[i]@);
        }
        assert forall|i: int, j: int| 0 <= i < j < listed.len() implies (#[trigger] listed[i]).id
            != (#[trigger] listed[j]).id by {
            assert(seen[i] == listed[i]@);
            assert(seen[j] == listed[j]@);
        }
        assert forall|i: int, j: int| 0 <= i < j < listed.len() implies ({
            let a = (#[trigger] listed[i]).created_at@;
            let b = (#[trigger] listed[j]).created_at@;
            a.seconds < b.seconds || (a.seconds == b.seconds && a.nanos <= b.nanos)
        }) by {
            assert(seen[i] == listed[i]@);
            assert(seen[j] == listed[j]@);
        }
    }
}

/// A record is got by its identifier as it is kept.
pub proof fn records_are_got_as_they_are_kept(
    book: &ReservationBook,
    demo_reservations_enabled: bool,
    id: u128,
    r: Result<Reservation, ApiError>,
)
    requires
        call_ensures(ReservationBook::get_record, (book, demo_reservations_enabled, id), r),
    ensures
        r is Ok <==> demo_reservations_enabled && book@.contains_key(id),
        r matches Ok(record) ==> record@ == book@[id],
        r matches Err(e) ==> e.status == (if demo_reservations_enabled {
            404u16
        } else {
            403u16
        }) && e.code@ == (if demo_reservations_enabled {
            "not_found"@
        } else {
            "reservation_demo_disabled"@
        }) && e.message@ == (if demo_reservations_enabled {
            "reservation not found"@
        } else {
            "reservation demo is disabled until authenticated durable storage is configured"@
        }),
{
    reservation_laws::records_are_found_by_their_identifier(book@, demo_reservations_enabled, id);
}

/// A record is entered under its identifier where its event was written and fewer than ten
/// thousand are kept, and handed back with that event. The other records stay as they were; a
/// refusal changes nothing.
pub proof fn records_are_entered_beside_the_others(
    book: &mut ReservationBook,
    record: Reservation,
    event: Option<String>,
    r: Result<(Reservation, String), ApiError>,
)
    requires
        call_ensures(ReservationBook::enter, (book, record, event), r),
    ensures
        r is Ok <==> event is Some && old(book)@.len() < 10_000,
        r matches Ok((kept, told)) ==> {
            &&& kept@ == record@
            &&& event matches Some(text) && told@ == text@
            &&& final(book)@.contains_key(record.id)
            &&& final(book)@[record.id] == record@
            &&& forall|id: u128|
                id != record.id ==> (#[trigger] final(book)@.contains_key(id)
                    == old(book)@.contains_key(id) && final(book)@[id] == old(book)@[id])
        },
        r matches Err(e) ==> final(book)@ == old(book)@ && e.status == (if event is None {
            500u16
        } else {
            503u16
        }) && e.code@ == (if event is None {
            "event_serialization_failed"@
        } else {
            "reservation_capacity_reached"@
        }),
{
}

/// A reservation that is made holds the request field by field, with the dates as they came, and
/// is dated now. It is kept under its identifier beside the others; a refusal changes nothing.
pub proof fn reservations_are_made_as_asked_for<E: Fn(&ReservationEvent) -> Option<String>>(
    book: &mut ReservationBook,
    demo_reservations_enabled: bool,
    input: CreateReservation,
    now: Timestamp,
    encode: &E,
    r: Result<(Reservation, String), ApiError>,
)
    requires
        call_ensures(
            ReservationBook::create_record::<E>,
            (book, demo_reservations_enabled, input, now, encode),
            r,
        ),
    ensures
        reservation::created(
            old(book)@,
            demo_reservations_enabled,
            input,
            now@,
            *encode,
            r,
            final(book)@,
        ),
        r matches Ok((record, event)) ==> {
            &&& demo_reservations_enabled
            &&& old(book)@.len() < 10_000
            &&& record.check_in@ == input.check_in@
            &&& record.check_out@ == input.check_out@
            &&& record.member_name@ == text::trimmed(input.member_name@)
            &&& record.room_type@ == text::trimmed(input.room_type@)
            &&& record.workspace_plan@ == text::trimmed(input.workspace_plan@)
            &&& record.notes@ == text::trimmed(input.notes@)
            &&& record.status@ == text::ascii_lowered(text::trimmed(input.status@))
            &&& record.created_at@ == now@
            &&& record.updated_at@ == now@
            &&& final(book)@.contains_key(record.id)
            &&& final(book)@[record.id] == record@
            &&& forall|id: u128|
                id != record.id ==> (#[trigger] final(book)@.contains_key(id)
                    == old(book)@.contains_key(id) && final(book)@[id] == old(book)@[id])
        },
        r is Err ==> final(book)@ == old(book)@,
        !demo_reservations_enabled ==> (r matches Err(e) && e.status == 403),
        demo_reservations_enabled && !reservation_laws::acceptable(
            reservation::normalized(input@),
        ) ==> (r matches Err(e) && e.status == 422 && e.code@ == "invalid_reservation"@),
{
    reservation_laws::made_reservation_is_the_one_asked_for(
        old(book)@,
        demo_reservations_enabled,
        input,
        now@,
        *encode,
        r,
        final(book)@,
    );
    reservation_laws::reservations_are_refused_on_these_grounds(
        old(book)@,
        demo_reservations_enabled,
        input,
        now@,
        *encode,
        r,
        final(book)@,
    );
}

} // verus!
