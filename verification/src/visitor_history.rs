//! What holds of visitor access over any number of check-ins and check-outs.

use crate::moment::Moment;
use crate::text;
use crate::token;
use crate::visitor::{
    self, Access, Register, Release, VisitorError, MAX_ACTIVE_VISITS, MAX_REDEMPTIONS_PER_CODE,
    MAX_VISITOR_NAME_CHARS,
};
use crate::visitor_laws;
use vstd::prelude::*;

verus! {

/// A request on a token that was found good: a check-in with the identifiers drawn for it, or a
/// check-out.
pub enum Attempt {
    CheckIn {
        token: Seq<char>,
        name: Seq<char>,
        notice: Seq<char>,
        now: Moment,
        visit_id: u128,
        first: u128,
        second: u128,
    },
    CheckOut { token: Seq<char>, visit_id: u128, receipt: Seq<char>, now: Moment },
}

impl Attempt {
    /// The token that it comes with.
    pub open spec fn token(self) -> Seq<char> {
        match self {
            Attempt::CheckIn { token, .. } => token,
            Attempt::CheckOut { token, .. } => token,
        }
    }

    /// When it comes.
    pub open spec fn now(self) -> Moment {
        match self {
            Attempt::CheckIn { now, .. } => now,
            Attempt::CheckOut { now, .. } => now,
        }
    }

    /// Whether it is a check-in for which the identifier `id` was drawn.
    pub open spec fn draws(self, id: u128) -> bool {
        self matches Attempt::CheckIn { visit_id, .. } && visit_id == id
    }
}

/// Whether an attempt succeeds, and the register afterwards.
pub open spec fn attempted(access: Access, register: Register, a: Attempt) -> (
    Result<(), VisitorError>,
    Register,
) {
    match a {
        Attempt::CheckIn { token, name, notice, now, visit_id, first, second } => {
            let (answer, after) = visitor::admitted(
                access,
                register,
                token,
                name,
                notice,
                now,
                visit_id,
                first,
                second,
            );
            match answer {
                Ok(_) => (Ok(()), after),
                Err(e) => (Err(e), after),
            }
        },
        Attempt::CheckOut { token, visit_id, receipt, now } => {
            let (answer, after) = visitor::released(
                access,
                register,
                token,
                visit_id,
                receipt,
                now,
            );
            match answer {
                Ok(_) => (Ok(()), after),
                Err(e) => (Err(e), after),
            }
        },
    }
}

/// The register after `attempts`, one after the other, from `register` on.
pub open spec fn after_all(access: Access, register: Register, attempts: Seq<Attempt>) -> Register
    decreases attempts.len(),
{
    if attempts.len() == 0 {
        register
    } else {
        attempted(access, after_all(access, register, attempts.drop_last()), attempts.last()).1
    }
}

/// The register of a service that has seen `attempts` since it was built.
pub open spec fn history(access: Access, attempts: Seq<Attempt>) -> Register {
    after_all(access, visitor::blank_register(), attempts)
}

/// Whether the last of `attempts` succeeded.
pub open spec fn last_succeeded(access: Access, attempts: Seq<Attempt>) -> bool {
    attempted(access, history(access, attempts.drop_last()), attempts.last()).0 is Ok
}

/// How many of `attempts` redeemed the token with the redemption key `key`.
pub open spec fn times_taken(access: Access, attempts: Seq<Attempt>, key: Seq<char>) -> nat
    decreases attempts.len(),
{
    if attempts.len() == 0 {
        0
    } else {
        let success = token::redemption_key(attempts.last().token()) == Ok::<_, VisitorError>(key)
            && last_succeeded(access, attempts);
        times_taken(access, attempts.drop_last(), key) + (if success {
            1nat
        } else {
            0nat
        })
    }
}

/// The minutes of `attempts` do not go back, and those on the token with the redemption key
/// `key` lie in `minute` or the one after it.
pub open spec fn timely(attempts: Seq<Attempt>, key: Seq<char>, minute: int) -> bool {
    &&& forall|i: int| 0 <= i < attempts.len() ==> (#[trigger] attempts[i]).now().representable()
    &&& forall|i: int, j: int|
        0 <= i <= j < attempts.len() ==> (#[trigger] attempts[i]).now().minute() <= (
        #[trigger] attempts[j]).now().minute()
    &&& forall|i: int|
        0 <= i < attempts.len() && token::redemption_key((#[trigger] attempts[i]).token()) == Ok::<
            _,
            VisitorError,
        >(key) ==> minute <= attempts[i].now().minute() <= minute + 1
}

/// However many requests there are, on whatever tokens: one token, which is good in its own
/// minute and at most the one after it, is redeemed no more often than is allowed.
pub proof fn token_is_taken_only_so_often(
    access: Access,
    attempts: Seq<Attempt>,
    key: Seq<char>,
    minute: int,
)
    requires
        timely(attempts, key, minute),
    ensures
        times_taken(access, attempts, key) <= MAX_REDEMPTIONS_PER_CODE,
{
    lemma_count_is_kept(access, attempts, key, minute);
}

/// Whether nothing but the limit on redemptions and, for a check-in, the number of open visits
/// stands in the way of an attempt: its notice and name, or its visit and receipt, are right.
pub open spec fn in_order(access: Access, register: Register, a: Attempt) -> bool {
    match a {
        Attempt::CheckIn { name, notice, .. } => {
            &&& notice == access.notice
            &&& text::bounded_text(text::trimmed(name), MAX_VISITOR_NAME_CHARS as nat)
        },
        Attempt::CheckOut { visit_id, receipt, .. } => visitor_laws::closable(
            access,
            register,
            visit_id,
            receipt,
        ),
    }
}

/// An attempt that is in order is refused as too frequent exactly where its token was redeemed
/// before as often as is allowed. One that is not is refused for another reason.
pub proof fn rate_limit_comes_exactly_at_the_bound(
    access: Access,
    attempts: Seq<Attempt>,
    key: Seq<char>,
    minute: int,
)
    requires
        attempts.len() > 0,
        timely(attempts, key, minute),
        token::redemption_key(attempts.last().token()) == Ok::<_, VisitorError>(key),
    ensures
        ({
            let before = attempts.drop_last();
            let register = history(access, before);
            (attempted(access, register, attempts.last()).0 == Err::<(), VisitorError>(
                VisitorError::RateLimited,
            )) == (in_order(access, register, attempts.last()) && times_taken(access, before, key)
                == MAX_REDEMPTIONS_PER_CODE)
        }),
{
    let before = attempts.drop_last();
    let a = attempts.last();
    lemma_timely_before(attempts, key, minute);
    lemma_count_is_kept(access, before, key, minute);
    assert(a == attempts[attempts.len() - 1]);
    if before.len() > 0 {
        assert(before.last() == attempts[attempts.len() - 2]);
        assert(before.last().now().minute() <= a.now().minute());
    }
}

proof fn lemma_timely_before(attempts: Seq<Attempt>, key: Seq<char>, minute: int)
    requires
        attempts.len() > 0,
        timely(attempts, key, minute),
    ensures
        timely(attempts.drop_last(), key, minute),
{
    let before = attempts.drop_last();
    assert forall|i: int| 0 <= i < before.len() implies #[trigger] before[i] == attempts[i] by {}
}

proof fn lemma_count_is_kept(
    access: Access,
    attempts: Seq<Attempt>,
    key: Seq<char>,
    minute: int,
)
    requires
        timely(attempts, key, minute),
    ensures
        ({
            let taken = times_taken(access, attempts, key);
            let counts = history(access, attempts).redemptions;
            &&& taken <= MAX_REDEMPTIONS_PER_CODE
            &&& taken == 0 ==> !counts.contains_key(key)
            &&& counts.contains_key(key) ==> counts[key].0 >= minute
            &&& taken > 0 && attempts.last().now().minute() <= minute + 1 ==> {
                &&& counts.contains_key(key)
                &&& counts[key].1 == taken
            }
        }),
    decreases attempts.len(),
{
    if attempts.len() > 0 {
        let before = attempts.drop_last();
        let a = attempts.last();
        lemma_timely_before(attempts, key, minute);
        lemma_count_is_kept(access, before, key, minute);
        assert(a == attempts[attempts.len() - 1]);
        if before.len() > 0 {
            assert(before.last() == attempts[attempts.len() - 2]);
            assert(before.last().now().minute() <= a.now().minute());
        }
    }
}

/// Whatever a service has seen since it was built, its register is orderly.
pub proof fn every_register_is_orderly(access: Access, attempts: Seq<Attempt>)
    ensures
        visitor_laws::orderly(history(access, attempts)),
    decreases attempts.len(),
{
    if attempts.len() == 0 {
        visitor_laws::blank_register_is_orderly();
    } else {
        every_register_is_orderly(access, attempts.drop_last());
        let register = history(access, attempts.drop_last());
        match attempts.last() {
            Attempt::CheckIn { token, name, notice, now, visit_id, first, second } => {
                visitor_laws::check_in_keeps_order(
                    access,
                    register,
                    token,
                    name,
                    notice,
                    now,
                    visit_id,
                    first,
                    second,
                );
            },
            Attempt::CheckOut { token, visit_id, receipt, now } => {
                visitor_laws::check_out_keeps_order(
                    access,
                    register,
                    token,
                    visit_id,
                    receipt,
                    now,
                );
            },
        }
    }
}

/// The successful check-ins among `attempts`, less the successful check-outs.
pub open spec fn balance(access: Access, attempts: Seq<Attempt>) -> int
    decreases attempts.len(),
{
    if attempts.len() == 0 {
        0
    } else {
        let step: int = if !last_succeeded(access, attempts) {
            0
        } else if attempts.last() is CheckIn {
            1
        } else {
            -1
        };
        balance(access, attempts.drop_last()) + step
    }
}

/// The identifiers drawn for the check-ins among `attempts` are new to the register.
pub open spec fn fresh(access: Access, attempts: Seq<Attempt>) -> bool
    decreases attempts.len(),
{
    attempts.len() == 0 || {
        &&& fresh(access, attempts.drop_last())
        &&& attempts.last() matches Attempt::CheckIn { visit_id, .. } ==> !history(
            access,
            attempts.drop_last(),
        ).visits.contains_key(visit_id)
    }
}

/// The number of open visits is that of the successful check-ins less that of the successful
/// check-outs, and never over its bound, as long as no identifier is drawn that a visit still
/// has. Refused requests, and closed visits that are forgotten, do not change it.
pub proof fn open_visits_are_arrivals_less_departures(access: Access, attempts: Seq<Attempt>)
    requires
        fresh(access, attempts),
    ensures
        visitor::open_visits(history(access, attempts).visits) == balance(access, attempts),
        visitor::open_visits(history(access, attempts).visits) <= MAX_ACTIVE_VISITS,
    decreases attempts.len(),
{
    every_register_is_orderly(access, attempts);
    if attempts.len() == 0 {
        let open = visitor::is_open();
        let m = visitor::blank_register().visits;
        assert(m.dom().filter(|k: u128| open(m[k])) =~= Set::<u128>::empty());
    } else {
        let before = attempts.drop_last();
        let register = history(access, before);
        open_visits_are_arrivals_less_departures(access, before);
        every_register_is_orderly(access, before);
        match attempts.last() {
            Attempt::CheckIn { token, name, notice, now, visit_id, first, second } => {
                visitor_laws::purge_keeps_open_visits(register, now);
                if last_succeeded(access, attempts) {
                    visitor_laws::check_in_enters_one_visit(
                        access,
                        register,
                        token,
                        name,
                        notice,
                        now,
                        visit_id,
                        first,
                        second,
                        visit_id,
                    );
                }
            },
            Attempt::CheckOut { token, visit_id, receipt, now } => {
                if last_succeeded(access, attempts) {
                    visitor_laws::check_out_closes_one_visit(
                        access,
                        register,
                        token,
                        visit_id,
                        receipt,
                        now,
                    );
                }
            },
        }
    }
}

/// No check-in among `attempts` draws the identifier `id`.
pub open spec fn spares(attempts: Seq<Attempt>, id: u128) -> bool {
    forall|i: int| 0 <= i < attempts.len() ==> !(#[trigger] attempts[i]).draws(id)
}

proof fn lemma_visit_over_time(
    access: Access,
    register: Register,
    attempts: Seq<Attempt>,
    id: u128,
)
    requires
        register.visits.contains_key(id),
        spares(attempts, id),
    ensures
        ({
            let later = after_all(access, register, attempts).visits;
            later.contains_key(id) ==> {
                &&& later[id].receipt_tag == register.visits[id].receipt_tag
                &&& register.visits[id].checked_out_at is Some ==> later[id] == register.visits[id]
            }
        }),
    decreases attempts.len(),
{
    if attempts.len() > 0 {
        let before = attempts.drop_last();
        assert forall|i: int| 0 <= i < before.len() implies !(#[trigger] before[i]).draws(id) by {
            assert(before[i] == attempts[i]);
        }
        lemma_visit_over_time(access, register, before, id);
        assert(!attempts[attempts.len() - 1].draws(id));
    }
}

/// A closed visit stays closed: whatever comes later, as long as its identifier is not drawn
/// again, a check-out of it is refused. It is told that the visit is closed, or, once it has
/// been forgotten, that there is none.
pub proof fn closed_visit_stays_closed(
    access: Access,
    register: Register,
    attempts: Seq<Attempt>,
    id: u128,
    t: Seq<char>,
    receipt: Seq<char>,
    now: Moment,
)
    requires
        register.visits.contains_key(id),
        register.visits[id].checked_out_at is Some,
        spares(attempts, id),
    ensures
        ({
            let later = after_all(access, register, attempts);
            visitor::released(access, later, t, id, receipt, now) == (
                Err::<Release, VisitorError>(
                    if !visitor::receipt_shaped(receipt) {
                        VisitorError::InvalidReceipt
                    } else if later.visits.contains_key(id) {
                        VisitorError::AlreadyCheckedOut
                    } else {
                        VisitorError::VisitNotFound
                    },
                ),
                later,
            )
        }),
{
    lemma_visit_over_time(access, register, attempts, id);
}

/// A visit is closed by the receipt that its visitor got at check-in and by no other, whatever
/// came between, as long as its identifier is not drawn again and no other receipt has the same
/// tag. Then the visitor's name is erased, and no other visit changes.
pub proof fn only_its_receipt_closes_a_visit(
    access: Access,
    register: Register,
    t: Seq<char>,
    name: Seq<char>,
    notice: Seq<char>,
    now: Moment,
    id: u128,
    first: u128,
    second: u128,
    attempts: Seq<Attempt>,
    t2: Seq<char>,
    receipt2: Seq<char>,
    now2: Moment,
)
    requires
        ({
            let (answer, after) = visitor::admitted(
                access,
                register,
                t,
                name,
                notice,
                now,
                id,
                first,
                second,
            );
            let later = after_all(access, after, attempts);
            let receipt = visitor::receipt_text(first, second);
            &&& answer is Ok
            &&& visitor::released(access, later, t2, id, receipt2, now2).0 is Ok
            &&& visitor::tag_of_receipt(access.key, receipt2) == visitor::tag_of_receipt(
                access.key,
                receipt,
            ) ==> receipt2 == receipt
        }),
        spares(attempts, id),
    ensures
        ({
            let (answer, after) = visitor::admitted(
                access,
                register,
                t,
                name,
                notice,
                now,
                id,
                first,
                second,
            );
            let later = after_all(access, after, attempts);
            let (answer2, end) = visitor::released(access, later, t2, id, receipt2, now2);
            &&& receipt2 == answer->Ok_0.checkout_receipt
            &&& answer2->Ok_0 == (Release { visit_id: id, checked_out_at: now2 })
            &&& end.visits[id].display_name is None
            &&& end.visits[id].checked_out_at == Some(now2)
            &&& end.visits.remove(id) == later.visits.remove(id)
        }),
{
    let after = visitor::admitted(
        access,
        register,
        t,
        name,
        notice,
        now,
        id,
        first,
        second,
    ).1;
    let later = after_all(access, after, attempts);
    let end = visitor::released(access, later, t2, id, receipt2, now2).1;
    lemma_visit_over_time(access, after, attempts, id);
    assert(end.visits.remove(id) =~= later.visits.remove(id));
}

} // verus!
