//! Reservations of the demo: what a request has to satisfy, and the records that are kept.

use crate::identifier;
use crate::moment::{Moment, Timestamp};
use crate::reply::{self, ApiError, Refusal};
use crate::table::Table;
use crate::text;
use vstd::prelude::*;
use vstd::string::*;

verus! {

/// The longest name of a member, in characters.
pub const MAX_MEMBER_NAME_CHARS: usize = 200;

/// The longest type of a room, in characters.
pub const MAX_ROOM_TYPE_CHARS: usize = 100;

/// The longest workspace plan, in characters.
pub const MAX_WORKSPACE_PLAN_CHARS: usize = 100;

/// The longest notes, in characters.
pub const MAX_NOTES_CHARS: usize = 4_000;

/// The longest stay, in days.
pub const MAX_STAY_DAYS: u32 = 366;

/// The most reservations that are kept.
pub const MAX_DEMO_RESERVATIONS: usize = 10_000;

/// The name of the event that tells of a new reservation.
pub const RESERVATION_CREATED: &'static str = "reservation.created";

/// A request for a reservation.
#[derive(Debug)]
pub struct CreateReservation {
    pub member_name: String,
    pub room_type: String,
    pub check_in: Timestamp,
    pub check_out: Timestamp,
    pub workspace_plan: String,
    pub status: String,
    pub notes: String,
}

/// A request for a reservation with its texts as characters.
pub struct Wish {
    pub member_name: Seq<char>,
    pub room_type: Seq<char>,
    pub check_in: Moment,
    pub check_out: Moment,
    pub workspace_plan: Seq<char>,
    pub status: Seq<char>,
    pub notes: Seq<char>,
}

impl View for CreateReservation {
    type V = Wish;

    open spec fn view(&self) -> Wish {
        Wish {
            member_name: self.member_name@,
            room_type: self.room_type@,
            check_in: self.check_in@,
            check_out: self.check_out@,
            workspace_plan: self.workspace_plan@,
            status: self.status@,
            notes: self.notes@,
        }
    }
}

/// `wish` with the white space at the ends of its texts gone, and the status in lower case.
pub open spec fn normalized(wish: Wish) -> Wish {
    Wish {
        member_name: text::trimmed(wish.member_name),
        room_type: text::trimmed(wish.room_type),
        workspace_plan: text::trimmed(wish.workspace_plan),
        status: text::ascii_lowered(text::trimmed(wish.status)),
        notes: text::trimmed(wish.notes),
        ..wish
    }
}

/// Takes the white space at the ends of the texts away, and puts the status in lower case.
pub fn normalize(input: CreateReservation) -> (r: CreateReservation)
    ensures
        r@ == normalized(input@),
{
    CreateReservation {
        member_name: text::trim(input.member_name.as_str()).to_owned(),
        room_type: text::trim(input.room_type.as_str()).to_owned(),
        workspace_plan: text::trim(input.workspace_plan.as_str()).to_owned(),
        status: text::ascii_lower(text::trim(input.status.as_str())),
        notes: text::trim(input.notes.as_str()).to_owned(),
        check_in: input.check_in,
        check_out: input.check_out,
    }
}

/// What is wrong with a text that has to be there and has at most `maximum` characters.
pub open spec fn text_fault(label: Seq<char>, value: Seq<char>, maximum: nat) -> Option<Seq<char>> {
    if value.len() == 0 {
        Some(label + " must not be blank"@)
    } else if value.len() > maximum {
        Some(label + " must be at most "@ + text::decimal(maximum) + " characters"@)
    } else {
        None
    }
}

/// Goes on only where `value` is there and has at most `maximum` characters.
pub fn validate_required_text(label: &str, value: &str, maximum: usize) -> (r: Result<(), String>)
    ensures
        text::fault_of(r) == text_fault(label@, value@, maximum as nat),
{
    if value.is_empty() {
        return Err(text::followed_by(label, " must not be blank"));
    }
    if value.unicode_len() > maximum {
        let mut message: String = text::followed_by(label, " must be at most ");
        message.append(text::decimal_text(maximum as u64).as_str());
        message.append(" characters");
        return Err(message);
    }
    Ok(())
}

/// Whether `s` is the status of a reservation.
pub open spec fn reservation_status(s: Seq<char>) -> bool {
    ||| s == "pending"@
    ||| s == "confirmed"@
    ||| s == "checked_in"@
    ||| s == "checked_out"@
    ||| s == "cancelled"@
}

/// Whether `status` is the status of a reservation.
pub fn is_reservation_status(status: &str) -> (r: bool)
    ensures
        r == reservation_status(status@),
{
    *status == *"pending" || *status == *"confirmed" || *status == *"checked_in" || *status
        == *"checked_out" || *status == *"cancelled"
}

/// The first thing that is wrong with `wish`, if anything is.
pub open spec fn fault(wish: Wish) -> Option<Seq<char>> {
    let name = text_fault("member_name"@, wish.member_name, MAX_MEMBER_NAME_CHARS as nat);
    let room = text_fault("room_type"@, wish.room_type, MAX_ROOM_TYPE_CHARS as nat);
    let plan = text_fault(
        "workspace_plan"@,
        wish.workspace_plan,
        MAX_WORKSPACE_PLAN_CHARS as nat,
    );
    if name is Some {
        name
    } else if room is Some {
        room
    } else if plan is Some {
        plan
    } else if wish.notes.len() > MAX_NOTES_CHARS {
        Some("notes must be at most 4000 characters"@)
    } else if !wish.check_in.before(wish.check_out) {
        Some("check_out must be later than check_in"@)
    } else if wish.check_out.nanos_since(wish.check_in) > MAX_STAY_DAYS * 86_400_000_000_000 {
        Some("stay must not exceed 366 days"@)
    } else if !reservation_status(wish.status) {
        Some("status must be one of pending, confirmed, checked_in, checked_out, cancelled"@)
    } else {
        None
    }
}

/// Goes on only where nothing is wrong with `input`.
pub fn validate(input: &CreateReservation) -> (r: Result<(), String>)
    ensures
        text::fault_of(r) == fault(input@),
{
    validate_required_text("member_name", input.member_name.as_str(), MAX_MEMBER_NAME_CHARS)?;
    validate_required_text("room_type", input.room_type.as_str(), MAX_ROOM_TYPE_CHARS)?;
    validate_required_text(
        "workspace_plan",
        input.workspace_plan.as_str(),
        MAX_WORKSPACE_PLAN_CHARS,
    )?;
    if input.notes.as_str().unicode_len() > MAX_NOTES_CHARS {
        return Err("notes must be at most 4000 characters".to_owned());
    }
    if !input.check_in.is_before(&input.check_out) {
        return Err("check_out must be later than check_in".to_owned());
    }
    if input.check_out.exceeds_days_since(&input.check_in, MAX_STAY_DAYS) {
        return Err("stay must not exceed 366 days".to_owned());
    }
    if !is_reservation_status(input.status.as_str()) {
        return Err(
            "status must be one of pending, confirmed, checked_in, checked_out, cancelled".to_owned(),
        );
    }
    Ok(())
}

/// The request in its normal form, where nothing is wrong with that.
pub fn normalize_and_validate(input: CreateReservation) -> (r: Result<CreateReservation, String>)
    ensures
        match r {
            Ok(clean) => clean@ == normalized(input@) && fault(clean@) is None,
            Err(e) => fault(normalized(input@)) == Some(e@),
        },
{
    let clean: CreateReservation = normalize(input);
    match validate(&clean) {
        Ok(_) => Ok(clean),
        Err(e) => Err(e),
    }
}

/// A reservation as it is kept.
#[derive(Debug)]
pub struct Reservation {
    pub id: u128,
    pub created_at: Timestamp,
    pub updated_at: Timestamp,
    pub member_name: String,
    pub room_type: String,
    pub check_in: Timestamp,
    pub check_out: Timestamp,
    pub workspace_plan: String,
    pub status: String,
    pub notes: String,
}

/// A reservation with its texts as characters.
pub struct Record {
    pub id: u128,
    pub created_at: Moment,
    pub updated_at: Moment,
    pub wish: Wish,
}

impl View for Reservation {
    type V = Record;

    open spec fn view(&self) -> Record {
        Record {
            id: self.id,
            created_at: self.created_at@,
            updated_at: self.updated_at@,
            wish: Wish {
                member_name: self.member_name@,
                room_type: self.room_type@,
                check_in: self.check_in@,
                check_out: self.check_out@,
                workspace_plan: self.workspace_plan@,
                status: self.status@,
                notes: self.notes@,
            },
        }
    }
}

impl Clone for Reservation {
    fn clone(&self) -> (r: Self)
        ensures
            r@ == self@,
    {
        Reservation {
            id: self.id,
            created_at: self.created_at,
            updated_at: self.updated_at,
            member_name: self.member_name.clone(),
            room_type: self.room_type.clone(),
            check_in: self.check_in,
            check_out: self.check_out,
            workspace_plan: self.workspace_plan.clone(),
            status: self.status.clone(),
            notes: self.notes.clone(),
        }
    }
}

/// What subscribers are told of a reservation.
#[derive(Debug)]
pub struct ReservationEvent<'a> {
    pub event: &'static str,
    pub reservation: &'a Reservation,
}

/// The record that is made of `wish` at `now`.
pub open spec fn record_of(wish: Wish, id: u128, now: Moment) -> Record {
    Record { id, created_at: now, updated_at: now, wish }
}

/// Each record stands at its own identifier.
pub open spec fn consistent(records: Map<u128, Record>) -> bool {
    forall|id: u128| #[trigger] records.contains_key(id) ==> records[id].id == id
}

/// The records in `listed` are in the order in which they were made.
pub open spec fn in_order(listed: Seq<Record>) -> bool {
    forall|i: int, j: int|
        0 <= i < j < listed.len() ==> !(#[trigger] listed[j]).created_at.before(
            (#[trigger] listed[i]).created_at,
        )
}

/// Each of `records` stands in `listed` once, and nothing else does.
pub open spec fn lists(listed: Seq<Record>, records: Map<u128, Record>) -> bool {
    &&& listed.no_duplicates()
    &&& forall|r: Record|
        #[trigger] listed.contains(r) == (records.contains_key(r.id) && records[r.id] == r)
}

/// The refusal where something is wrong with a request.
pub open spec fn invalid_reservation(message: Seq<char>) -> Refusal {
    Refusal { status: reply::UNPROCESSABLE_ENTITY, code: "invalid_reservation"@, message }
}

/// The refusal where the event that tells of a reservation cannot be written.
pub open spec fn event_failed() -> Refusal {
    Refusal {
        status: reply::INTERNAL_SERVER_ERROR,
        code: "event_serialization_failed"@,
        message: "reservation could not be created"@,
    }
}

/// The refusal where no more reservations are kept.
pub open spec fn capacity_reached() -> Refusal {
    Refusal {
        status: reply::SERVICE_UNAVAILABLE,
        code: "reservation_capacity_reached"@,
        message: "reservation demo capacity reached"@,
    }
}

/// The refusal where there is no such reservation.
pub open spec fn no_such_reservation() -> Refusal {
    Refusal { status: reply::NOT_FOUND, code: "not_found"@, message: "reservation not found"@ }
}

/// What a record is answered whose event reads as `event`, and the records afterwards.
pub open spec fn entered(
    records: Map<u128, Record>,
    record: Record,
    event: Option<Seq<char>>,
) -> (Result<(Record, Seq<char>), Refusal>, Map<u128, Record>) {
    match event {
        None => (Err(event_failed()), records),
        Some(event) => if records.len() >= MAX_DEMO_RESERVATIONS {
            (Err(capacity_reached()), records)
        } else {
            (Ok((record, event)), records.insert(record.id, record))
        },
    }
}

/// An answer with its texts as characters.
pub open spec fn shown(r: Result<(Reservation, String), ApiError>) -> Result<
    (Record, Seq<char>),
    Refusal,
> {
    match r {
        Ok((record, event)) => Ok((record@, event@)),
        Err(e) => Err(e@),
    }
}

/// What is answered to the wish for the record with the identifier `id`.
pub open spec fn found(
    records: Map<u128, Record>,
    demo_reservations_enabled: bool,
    id: u128,
) -> Result<Record, Refusal> {
    if !demo_reservations_enabled {
        Err(reply::demo_disabled())
    } else if records.contains_key(id) {
        Ok(records[id])
    } else {
        Err(no_such_reservation())
    }
}

/// Whether `r` and `after` are what is answered to a request for a reservation at `now`, and the
/// records afterwards, where `encode` writes what subscribers are told.
pub open spec fn created<E: Fn(&ReservationEvent) -> Option<String>>(
    records: Map<u128, Record>,
    demo_reservations_enabled: bool,
    input: CreateReservation,
    now: Moment,
    encode: E,
    r: Result<(Reservation, String), ApiError>,
    after: Map<u128, Record>,
) -> bool {
    let outcome = (shown(r), after);
    let wish = normalized(input@);
    if !demo_reservations_enabled {
        outcome == (Err::<(Record, Seq<char>), _>(reply::demo_disabled()), records)
    } else if fault(wish) is Some {
        outcome == (
            Err::<(Record, Seq<char>), _>(invalid_reservation(fault(wish)->Some_0)),
            records,
        )
    } else {
        exists|told: ReservationEvent, event: Option<String>|
            {
                &&& told.event@ == RESERVATION_CREATED@
                &&& identifier::random_version(told.reservation@.id)
                &&& told.reservation@ == record_of(wish, told.reservation@.id, now)
                &&& #[trigger] call_ensures(encode, (&told,), event)
                &&& outcome == entered(records, told.reservation@, text::opt_text(event))
            }
    }
}

/// The reservations of the demo.
pub struct ReservationBook {
    records: Table<u128, Reservation>,
}

impl View for ReservationBook {
    type V = Map<u128, Record>;

    closed spec fn view(&self) -> Map<u128, Record> {
        self.records@
    }
}

impl ReservationBook {
    /// Each record stands at its own identifier, and there are not too many.
    pub closed spec fn wf(&self) -> bool {
        &&& self.records.wf()
        &&& consistent(self@)
        &&& self@.len() <= MAX_DEMO_RESERVATIONS
    }

    /// In every book, each record stands at its own identifier, and there are never more records
    /// than are kept at most.
    pub proof fn book_is_consistent_and_bounded(&self)
        requires
            self.wf(),
        ensures
            consistent(self@),
            self@.len() <= MAX_DEMO_RESERVATIONS,
    {
    }

    /// A book without records.
    pub fn new() -> (r: Self)
        ensures
            r.wf(),
            r@ == Map::<u128, Record>::empty(),
    {
        let r = ReservationBook { records: Table::new() };
        proof {
            assert(r@.dom() =~= Set::<u128>::empty());
        }
        r
    }

    /// The records, in the order in which they were made. Records that were made at the same
    /// moment stand in any order.
    pub fn list_records(&self, demo_reservations_enabled: bool) -> (r: Result<
        Vec<Reservation>,
        ApiError,
    >)
        requires
            self.wf(),
        ensures
            match r {
                Ok(listed) => {
                    &&& demo_reservations_enabled
                    &&& in_order(views(listed@))
                    &&& lists(views(listed@), self@)
                },
                Err(e) => !demo_reservations_enabled && e@ == reply::demo_disabled(),
            },
    {
        match reply::require_demo_reservations(demo_reservations_enabled) {
            Ok(_) => {},
            Err(e) => {
                return Err(e);
            },
        }
        let mut listed: Vec<Reservation> = Vec::new();
        let n: usize = self.records.len();
        let ghost keys = self.records.keys();
        proof {
            self.records.lemma_keys();
        }
        let mut i: usize = 0;
        while i < n
            invariant
                self.wf(),
                i <= n,
                n == keys.len(),
                keys == self.records.keys(),
                keys.no_duplicates(),
                forall|k: u128| #[trigger] self@.contains_key(k) == keys.contains(k),
                in_order(views(listed@)),
                views(listed@).no_duplicates(),
                forall|r: Record| #[trigger]
                    views(listed@).contains(r) == (keys.take(i as int).contains(r.id)
                        && self@[r.id] == r),
            decreases n - i,
        {
            let record: Reservation = self.records.value_at(i).clone();
            let ghost before = views(listed@);
            let ghost new = record@;
            proof {
                assert(new == self@[keys[i as int]] && new.id == keys[i as int]);
                assert(!before.contains(new)) by {
                    if keys.take(i as int).contains(new.id) {
                        let j = choose|j: int|
                            0 <= j < i && keys.take(i as int)[j] == new.id;
                        assert(keys[j] == keys[i as int]);
                    }
                }
            }
            let mut place: usize = listed.len();
            while place > 0 && record.created_at.is_before(&listed[place - 1].created_at)
                invariant
                    place <= listed.len(),
                    before == views(listed@),
                    in_order(before),
                    new == record@,
                    forall|j: int|
                        place <= j < listed.len() ==> new.created_at.before(
                            (#[trigger] before[j]).created_at,
                        ),
                decreases place,
            {
                proof {
                    assert(before[place - 1] == listed@[place - 1]@);
                }
                place -= 1;
            }
            proof {
                if place > 0 {
                    assert(before[place - 1] == listed@[place - 1]@);
                }
            }
            listed.insert(place, record);
            proof {
                assert(views(listed@) =~= before.insert(place as int, new));
                lemma_inserted(before, place as int, new);
                assert forall|r: Record| #[trigger]
                    views(listed@).contains(r) == (keys.take(i + 1).contains(r.id) && self@[r.id]
                        == r) by {
                    lemma_contains_longer(keys, i as int, r.id);
                }
            }
            i += 1;
        }
        proof {
            assert(keys.take(i as int) =~= keys);
        }
        Ok(listed)
    }

    /// The record with the identifier `id`.
    pub fn get_record(&self, demo_reservations_enabled: bool, id: u128) -> (r: Result<
        Reservation,
        ApiError,
    >)
        requires
            self.wf(),
        ensures
            reply::shown(r) == found(self@, demo_reservations_enabled, id),
    {
        match reply::require_demo_reservations(demo_reservations_enabled) {
            Ok(_) => {},
            Err(e) => {
                return Err(e);
            },
        }
        match self.records.get(&id) {
            Some(record) => Ok(record.clone()),
            None => Err(reply::api_error(reply::NOT_FOUND, "not_found", "reservation not found")),
        }
    }

    /// Keeps `record`, of which subscribers are told by `event`, where that could be written.
    pub fn enter(&mut self, record: Reservation, event: Option<String>) -> (r: Result<
        (Reservation, String),
        ApiError,
    >)
        requires
            old(self).wf(),
        ensures
            final(self).wf(),
            (shown(r), final(self)@) == entered(old(self)@, record@, text::opt_text(event)),
    {
        let event: String = match event {
            Some(event) => event,
            None => {
                return Err(
                    reply::api_error(
                        reply::INTERNAL_SERVER_ERROR,
                        "event_serialization_failed",
                        "reservation could not be created",
                    ),
                );
            },
        };
        if self.records.len() >= MAX_DEMO_RESERVATIONS {
            return Err(
                reply::api_error(
                    reply::SERVICE_UNAVAILABLE,
                    "reservation_capacity_reached",
                    "reservation demo capacity reached",
                ),
            );
        }
        proof {
            self.records.lemma_keys();
        }
        self.records.insert(record.id, record.clone());
        proof {
            lemma_one_more(old(self)@, record.id, record@);
        }
        Ok((record, event))
    }

    /// Makes a record of `input` at `now`. What subscribers are told of it is written by
    /// `encode`.
    pub fn create_record<E: Fn(&ReservationEvent) -> Option<String>>(
        &mut self,
        demo_reservations_enabled: bool,
        input: CreateReservation,
        now: Timestamp,
        encode: &E,
    ) -> (r: Result<(Reservation, String), ApiError>)
        requires
            old(self).wf(),
            forall|event: &ReservationEvent| call_requires(*encode, (event,)),
        ensures
            final(self).wf(),
            created(
                old(self)@,
                demo_reservations_enabled,
                input,
                now@,
                *encode,
                r,
                final(self)@,
            ),
    {
        match reply::require_demo_reservations(demo_reservations_enabled) {
            Ok(_) => {},
            Err(e) => {
                return Err(e);
            },
        }
        let input: CreateReservation = match normalize_and_validate(input) {
            Ok(input) => input,
            Err(message) => {
                return Err(
                    reply::api_error(
                        reply::UNPROCESSABLE_ENTITY,
                        "invalid_reservation",
                        message.as_str(),
                    ),
                );
            },
        };
        let record: Reservation = Reservation {
            id: identifier::draw_identifier(),
            created_at: now,
            updated_at: now,
            member_name: input.member_name,
            room_type: input.room_type,
            check_in: input.check_in,
            check_out: input.check_out,
            workspace_plan: input.workspace_plan,
            status: input.status,
            notes: input.notes,
        };
        let told = ReservationEvent { event: RESERVATION_CREATED, reservation: &record };
        let event: Option<String> = encode(&told);
        proof {
            assert(call_ensures(*encode, (&told,), event));
        }
        self.enter(record, event)
    }
}

/// The records with their texts as characters.
pub open spec fn views(listed: Seq<Reservation>) -> Seq<Record> {
    listed.map_values(|r: Reservation| r@)
}

proof fn lemma_contains_longer<T>(s: Seq<T>, n: int, x: T)
    requires
        0 <= n < s.len(),
    ensures
        s.take(n + 1).contains(x) == (s.take(n).contains(x) || x == s[n]),
{
    let short = s.take(n);
    let long = s.take(n + 1);
    if short.contains(x) {
        let i = choose|i: int| 0 <= i < short.len() && short[i] == x;
        assert(long[i] == x);
    }
    if x == s[n] {
        assert(long[n] == x);
    }
    if long.contains(x) {
        let i = choose|i: int| 0 <= i < long.len() && long[i] == x;
        if i < n {
            assert(short[i] == x);
        }
    }
}

proof fn lemma_inserted(before: Seq<Record>, place: int, new: Record)
    requires
        0 <= place <= before.len(),
        in_order(before),
        before.no_duplicates(),
        !before.contains(new),
        forall|j: int|
            place <= j < before.len() ==> new.created_at.before((#[trigger] before[j]).created_at),
        place > 0 ==> !new.created_at.before(before[place - 1].created_at),
    ensures
        in_order(before.insert(place, new)),
        before.insert(place, new).no_duplicates(),
        forall|r: Record| #[trigger]
            before.insert(place, new).contains(r) == (before.contains(r) || r == new),
{
    let after = before.insert(place, new);
    let old_place = |i: int| if i < place { i } else { i - 1 };
    assert forall|i: int| 0 <= i < after.len() && i != place implies #[trigger] after[i]
        == before[old_place(i)] by {}
    assert forall|i: int, j: int| 0 <= i < j < after.len() implies !(
    #[trigger] after[j]).created_at.before((#[trigger] after[i]).created_at) by {
        if i != place && j != place {
            let a = before[old_place(i)];
            let b = before[old_place(j)];
            assert(!b.created_at.before(a.created_at));
        } else if i == place {
            assert(new.created_at.before(before[j - 1].created_at));
        } else {
            assert(!new.created_at.before(before[place - 1].created_at));
            if i < place - 1 {
                assert(!before[place - 1].created_at.before(before[i].created_at));
            }
        }
    }
    assert forall|i: int, j: int| 0 <= i < after.len() && 0 <= j < after.len() && i != j implies
        after[i] != after[j] by {
        if i == place {
            assert(before.contains(before[old_place(j)]));
        } else if j == place {
            assert(before.contains(before[old_place(i)]));
        } else {
            assert(old_place(i) != old_place(j));
        }
    }
    assert forall|r: Record| #[trigger] after.contains(r) == (before.contains(r) || r == new) by {
        if before.contains(r) {
            let i = choose|i: int| 0 <= i < before.len() && before[i] == r;
            if i < place {
                assert(after[i] == r);
            } else {
                assert(after[i + 1] == r);
            }
        }
        if r == new {
            assert(after[place] == r);
        }
        if after.contains(r) {
            let i = choose|i: int| 0 <= i < after.len() && after[i] == r;
            if i != place {
                assert(before[old_place(i)] == r);
            }
        }
    }
}

proof fn lemma_one_more(records: Map<u128, Record>, id: u128, record: Record)
    requires
        records.dom().finite(),
    ensures
        records.insert(id, record).len() <= records.len() + 1,
        records.contains_key(id) ==> records.insert(id, record).len() == records.len(),
        !records.contains_key(id) ==> records.insert(id, record).len() == records.len() + 1,
{
    assert(records.insert(id, record).dom() =~= records.dom().insert(id));
    if records.contains_key(id) {
        assert(records.dom().insert(id) =~= records.dom());
    }
}

/// To bring a request into its normal form twice is to do it once.
pub proof fn normal_form_is_stable(wish: Wish)
    ensures
        normalized(normalized(wish)) == normalized(wish),
{
    text::lemma_trimmed_twice(wish.member_name);
    text::lemma_trimmed_twice(wish.room_type);
    text::lemma_trimmed_twice(wish.workspace_plan);
    text::lemma_trimmed_twice(wish.notes);
    text::lemma_lowered_stays_trimmed(wish.status);
}

/// A request that is taken has its texts within their bounds, ends after it begins, lasts no
/// longer than a stay may, and has a status that is known.
pub proof fn taken_requests_are_bounded(wish: Wish)
    ensures
        fault(wish) is None <==> {
            &&& 0 < wish.member_name.len() <= MAX_MEMBER_NAME_CHARS
            &&& 0 < wish.room_type.len() <= MAX_ROOM_TYPE_CHARS
            &&& 0 < wish.workspace_plan.len() <= MAX_WORKSPACE_PLAN_CHARS
            &&& wish.notes.len() <= MAX_NOTES_CHARS
            &&& wish.check_in.before(wish.check_out)
            &&& wish.check_out.nanos_since(wish.check_in) <= MAX_STAY_DAYS * 86_400_000_000_000
            &&& reservation_status(wish.status)
        },
{
}

/// A record that was made is found under its identifier, and no other record changes.
pub proof fn entered_record_is_found(
    records: Map<u128, Record>,
    record: Record,
    event: Option<Seq<char>>,
)
    requires
        entered(records, record, event).0 is Ok,
    ensures
        ({
            let after = entered(records, record, event).1;
            &&& after.contains_key(record.id) && after[record.id] == record
            &&& forall|id: u128|
                id != record.id ==> {
                    &&& #[trigger] after.contains_key(id) == records.contains_key(id)
                    &&& after[id] == records[id]
                }
        }),
{
}

/// Where a record is refused, the records stay as they are; a book that is full refuses every
/// record.
pub proof fn refused_record_changes_nothing(
    records: Map<u128, Record>,
    record: Record,
    event: Option<Seq<char>>,
)
    ensures
        entered(records, record, event).0 is Err ==> entered(records, record, event).1 == records,
        records.len() >= MAX_DEMO_RESERVATIONS ==> entered(records, record, event).0 is Err,
{
}

} // verus!
