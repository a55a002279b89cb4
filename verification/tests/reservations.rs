use axum::http::StatusCode;
use chrono::{DateTime, Duration, Utc};
use hhm_api::moment::Timestamp;
use hhm_api::reply::require_demo_reservations;
use hhm_api::reservation::{
    is_reservation_status, normalize, normalize_and_validate, validate, validate_required_text,
    CreateReservation, Reservation, ReservationBook, ReservationEvent, MAX_STAY_DAYS,
};

fn instant(value: DateTime<Utc>) -> Timestamp {
    Timestamp::new(value.timestamp(), value.timestamp_subsec_nanos()).expect("in the calendar")
}

fn date(value: &str) -> DateTime<Utc> {
    value.parse().expect("valid test timestamp")
}

fn timestamp(value: &str) -> Timestamp {
    instant(date(value))
}

fn valid_input() -> CreateReservation {
    CreateReservation {
        member_name: "  Ada Lovelace  ".to_owned(),
        room_type: " private ".to_owned(),
        check_in: timestamp("2026-09-01T15:00:00Z"),
        check_out: timestamp("2026-09-14T11:00:00Z"),
        workspace_plan: " dedicated-desk ".to_owned(),
        status: " CONFIRMED ".to_owned(),
        notes: "  Arriving after the community dinner.  ".to_owned(),
    }
}

fn encode(event: &ReservationEvent) -> Option<String> {
    Some(format!("{} {}", event.event, event.reservation.member_name))
}

fn no_encoding(_event: &ReservationEvent) -> Option<String> {
    None
}

fn record(id: u128, created_at: &str) -> Reservation {
    Reservation {
        id,
        created_at: timestamp(created_at),
        updated_at: timestamp(created_at),
        member_name: format!("member {id}"),
        room_type: "private".to_owned(),
        check_in: timestamp("2026-09-01T15:00:00Z"),
        check_out: timestamp("2026-09-14T11:00:00Z"),
        workspace_plan: "desk".to_owned(),
        status: "pending".to_owned(),
        notes: String::new(),
    }
}

#[test]
fn normalizes_a_valid_reservation() {
    let normalized = normalize_and_validate(valid_input()).expect("reservation is valid");
    assert_eq!(normalized.member_name, "Ada Lovelace");
    assert_eq!(normalized.room_type, "private");
    assert_eq!(normalized.workspace_plan, "dedicated-desk");
    assert_eq!(normalized.status, "confirmed");
    assert_eq!(normalized.notes, "Arriving after the community dinner.");
}

#[test]
fn rejects_blank_names_and_invalid_dates() {
    let mut blank = valid_input();
    blank.member_name = " \t ".to_owned();
    assert_eq!(
        normalize_and_validate(blank).expect_err("blank name must fail"),
        "member_name must not be blank"
    );

    let mut dates = valid_input();
    dates.check_out = dates.check_in;
    assert_eq!(
        normalize_and_validate(dates).expect_err("invalid dates must fail"),
        "check_out must be later than check_in"
    );
}

#[test]
fn rejects_unknown_statuses_and_unbounded_stays() {
    let mut status = valid_input();
    status.status = "approved-ish".to_owned();
    assert!(normalize_and_validate(status)
        .expect_err("unknown status must fail")
        .starts_with("status must be one of"));

    let mut stay = valid_input();
    stay.check_out =
        instant(date("2026-09-01T15:00:00Z") + Duration::days(i64::from(MAX_STAY_DAYS) + 1));
    assert_eq!(
        normalize_and_validate(stay).expect_err("long stay must fail"),
        format!("stay must not exceed {MAX_STAY_DAYS} days")
    );
}

#[test]
fn reservation_input_is_strict_and_demo_routes_fail_closed() {
    let denied = require_demo_reservations(false).expect_err("demo must fail closed");
    assert_eq!(denied.status, StatusCode::FORBIDDEN.as_u16());
    assert!(require_demo_reservations(true).is_ok());
}

#[test]
fn a_stay_may_last_to_the_last_nanosecond() {
    let start = date("2026-09-01T15:00:00Z");
    let mut longest = valid_input();
    longest.check_out = instant(start + Duration::days(366));
    assert!(normalize_and_validate(longest).is_ok());
    let mut longer = valid_input();
    longer.check_out = instant(start + Duration::days(366) + Duration::nanoseconds(1));
    assert_eq!(
        normalize_and_validate(longer).unwrap_err(),
        "stay must not exceed 366 days"
    );
    let mut shortest = valid_input();
    shortest.check_out = instant(start + Duration::nanoseconds(1));
    assert!(normalize_and_validate(shortest).is_ok());
    let mut reversed = valid_input();
    reversed.check_out = instant(start - Duration::days(400));
    assert_eq!(
        normalize_and_validate(reversed).unwrap_err(),
        "check_out must be later than check_in"
    );
}

#[test]
fn texts_are_bounded_in_characters() {
    assert_eq!(validate_required_text("label", "", 3), Err("label must not be blank".to_owned()));
    assert_eq!(validate_required_text("label", "ñañ", 3), Ok(()));
    assert_eq!(
        validate_required_text("label", "four", 3),
        Err("label must be at most 3 characters".to_owned())
    );
    let mut name = valid_input();
    name.member_name = "n".repeat(201);
    assert_eq!(
        normalize_and_validate(name).unwrap_err(),
        "member_name must be at most 200 characters"
    );
    let mut room = valid_input();
    room.room_type = "r".repeat(101);
    assert_eq!(
        normalize_and_validate(room).unwrap_err(),
        "room_type must be at most 100 characters"
    );
    let mut plan = valid_input();
    plan.workspace_plan = String::new();
    assert_eq!(normalize_and_validate(plan).unwrap_err(), "workspace_plan must not be blank");
    let mut notes = valid_input();
    notes.notes = "n".repeat(4_001);
    assert_eq!(
        normalize_and_validate(notes).unwrap_err(),
        "notes must be at most 4000 characters"
    );
    let mut status = valid_input();
    status.status = "approved".to_owned();
    assert_eq!(
        normalize_and_validate(status).unwrap_err(),
        "status must be one of pending, confirmed, checked_in, checked_out, cancelled"
    );
}

#[test]
fn the_first_fault_is_told() {
    let mut both = valid_input();
    both.room_type = String::new();
    both.status = "unknown".to_owned();
    assert_eq!(normalize_and_validate(both).unwrap_err(), "room_type must not be blank");
    let raw = valid_input();
    assert!(validate(&raw).is_err());
}

#[test]
fn a_normal_form_stays_as_it_is() {
    let once = normalize(valid_input());
    let shown = format!("{once:?}");
    assert_eq!(format!("{:?}", normalize(once)), shown);
    for status in ["pending", "confirmed", "checked_in", "checked_out", "cancelled"] {
        assert!(is_reservation_status(status));
    }
    assert!(!is_reservation_status("Pending"));
}

#[test]
fn a_reservation_is_made_and_found() {
    let mut book = ReservationBook::new();
    let now = timestamp("2026-08-24T12:00:00Z");
    let (made, event) = book.create_record(true, valid_input(), now, &encode).unwrap();
    assert_eq!(event, "reservation.created Ada Lovelace");
    assert_eq!(made.created_at, now);
    assert_eq!(made.updated_at, now);
    assert_eq!(made.status, "confirmed");
    assert_eq!(made.id >> 76 & 0xf, 4);
    let found = book.get_record(true, made.id).unwrap();
    assert_eq!(format!("{found:?}"), format!("{made:?}"));
    assert_eq!(book.list_records(true).unwrap().len(), 1);

    let missing = book.get_record(true, made.id ^ 1).unwrap_err();
    assert_eq!(missing.status, StatusCode::NOT_FOUND.as_u16());
    assert_eq!(missing.code, "not_found");
    assert_eq!(missing.message, "reservation not found");
}

#[test]
fn a_refused_reservation_leaves_no_trace() {
    let mut book = ReservationBook::new();
    let now = timestamp("2026-08-24T12:00:00Z");
    let mut bad = valid_input();
    bad.member_name = String::new();
    let invalid = book.create_record(true, bad, now, &encode).unwrap_err();
    assert_eq!(invalid.status, StatusCode::UNPROCESSABLE_ENTITY.as_u16());
    assert_eq!(invalid.code, "invalid_reservation");
    assert_eq!(invalid.message, "member_name must not be blank");
    let unwritten = book.create_record(true, valid_input(), now, &no_encoding).unwrap_err();
    assert_eq!(unwritten.status, StatusCode::INTERNAL_SERVER_ERROR.as_u16());
    assert_eq!(unwritten.code, "event_serialization_failed");
    assert_eq!(unwritten.message, "reservation could not be created");
    assert!(book.list_records(true).unwrap().is_empty());
}

#[test]
fn the_demo_is_off_unless_it_is_on() {
    let mut book = ReservationBook::new();
    let now = timestamp("2026-08-24T12:00:00Z");
    for denied in [
        book.create_record(false, valid_input(), now, &encode).unwrap_err(),
        book.list_records(false).unwrap_err(),
        book.get_record(false, 1).unwrap_err(),
    ] {
        assert_eq!(denied.status, StatusCode::FORBIDDEN.as_u16());
        assert_eq!(denied.code, "reservation_demo_disabled");
        assert_eq!(
            denied.message,
            "reservation demo is disabled until authenticated durable storage is configured"
        );
    }
}

#[test]
fn reservations_are_listed_as_they_were_made() {
    let mut book = ReservationBook::new();
    for (id, at) in [
        (3, "2026-08-24T12:00:03Z"),
        (1, "2026-08-24T12:00:01Z"),
        (4, "2026-08-24T12:00:03.5Z"),
        (2, "2026-08-24T12:00:02Z"),
        (1, "2026-08-24T12:00:05Z"),
    ] {
        book.enter(record(id, at), Some("event".to_owned())).unwrap();
    }
    let ids: Vec<u128> = book.list_records(true).unwrap().iter().map(|r| r.id).collect();
    assert_eq!(ids, vec![2, 3, 4, 1]);
}

#[test]
fn the_book_is_full_at_its_capacity() {
    let mut book = ReservationBook::new();
    for id in 0..10_000u128 {
        book.enter(record(id, "2026-08-24T12:00:00Z"), Some(String::new())).unwrap();
    }
    let full = book.enter(record(10_000, "2026-08-24T12:00:00Z"), Some(String::new())).unwrap_err();
    assert_eq!(full.status, StatusCode::SERVICE_UNAVAILABLE.as_u16());
    assert_eq!(full.code, "reservation_capacity_reached");
    assert_eq!(full.message, "reservation demo capacity reached");
    assert!(book.get_record(true, 10_000).is_err());
}
