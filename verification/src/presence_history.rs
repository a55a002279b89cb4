//! What holds of the presence ledger over any number of nonces and observations.

use crate::identity::Identity;
use crate::moment::Moment;
use crate::presence::{self, AdmissionError, Book, Decision, Observed, MAX_RECORDED_OBSERVATIONS};
use crate::presence_laws;
use vstd::prelude::*;

verus! {

/// A step of the ledger: a nonce is granted, or an observation is committed.
pub enum Step {
    Grant {
        principal: Identity,
        house_id: Seq<char>,
        now: Moment,
        first: u128,
        second: u128,
    },
    Commit {
        principal: Identity,
        observed: Observed,
        confirm: bool,
        request: Seq<u8>,
        now: Moment,
        event_id: u128,
    },
}

impl Step {
    /// Whether it is a grant for which the nonce `nonce` was drawn.
    pub open spec fn draws(self, nonce: Seq<char>) -> bool {
        self matches Step::Grant { first, second, .. } && presence::nonce_text(first, second)
            == nonce
    }
}

/// The ledger after a step.
pub open spec fn after_step(book: Book, step: Step) -> Book {
    match step {
        Step::Grant { principal, house_id, now, first, second } => presence::granted(
            book,
            principal,
            house_id,
            now,
            first,
            second,
        ).1,
        Step::Commit { principal, observed, confirm, request, now, event_id } =>
            presence::committed(book, principal, observed, confirm, request, now, event_id).1,
    }
}

/// The ledger after `steps`, one after the other, from `book` on.
pub open spec fn after_steps(book: Book, steps: Seq<Step>) -> Book
    decreases steps.len(),
{
    if steps.len() == 0 {
        book
    } else {
        after_step(after_steps(book, steps.drop_last()), steps.last())
    }
}

/// The ledger that has seen `steps` since it was blank.
pub open spec fn history(steps: Seq<Step>) -> Book {
    after_steps(presence::blank_book(), steps)
}

/// The new decision that `step` makes on `book`, if it makes one: not an answer given before.
pub open spec fn new_decision(book: Book, step: Step) -> Option<Decision> {
    match step {
        Step::Commit { principal, observed, confirm, request, now, event_id } => {
            match presence::committed(
                book,
                principal,
                observed,
                confirm,
                request,
                now,
                event_id,
            ).0 {
                Ok(decision) if !book.decisions.contains_key(observed.observation_id) => Some(
                    decision,
                ),
                _ => None,
            }
        },
        Step::Grant { .. } => None,
    }
}

/// Whether `step` makes a new decision on `book`, of `p` in the house `h`.
pub open spec fn decides_for(book: Book, step: Step, p: Identity, h: Seq<char>) -> bool {
    &&& new_decision(book, step) is Some
    &&& step matches Step::Commit { principal, observed, .. } && principal == p
        && observed.house_id == h
}

/// How many new decisions of `p` in the house `h` there are among `steps`.
pub open spec fn decisions_for(steps: Seq<Step>, p: Identity, h: Seq<char>) -> nat
    decreases steps.len(),
{
    if steps.len() == 0 {
        0
    } else {
        let before = steps.drop_last();
        decisions_for(before, p, h) + (if decides_for(history(before), steps.last(), p, h) {
            1nat
        } else {
            0nat
        })
    }
}

/// The presence sequence of a principal in a house is the number of decisions made on them
/// there, whatever else the ledger has seen.
pub proof fn sequence_counts_decisions(steps: Seq<Step>, p: Identity, h: Seq<char>)
    ensures
        presence::current_sequence(history(steps), p, h) == decisions_for(steps, p, h),
    decreases steps.len(),
{
    if steps.len() > 0 {
        sequence_counts_decisions(steps.drop_last(), p, h);
    }
}

/// The decisions on one principal in one house are numbered in their order: the first has the
/// presence sequence one, and each the next one after that before it.
pub proof fn decisions_are_numbered_in_order(steps: Seq<Step>, p: Identity, h: Seq<char>)
    requires
        steps.len() > 0,
        decides_for(history(steps.drop_last()), steps.last(), p, h),
    ensures
        new_decision(history(steps.drop_last()), steps.last())->Some_0.presence_sequence
            == decisions_for(steps, p, h),
{
    sequence_counts_decisions(steps.drop_last(), p, h);
}

/// What was consumed or decided stays so, and no presence sequence goes back, over any steps.
pub proof fn ledger_only_grows(book: Book, steps: Seq<Step>)
    ensures
        presence_laws::grown(book, after_steps(book, steps)),
    decreases steps.len(),
{
    if steps.len() > 0 {
        let before = after_steps(book, steps.drop_last());
        ledger_only_grows(book, steps.drop_last());
        match steps.last() {
            Step::Grant { principal, house_id, now, first, second } => {
                presence_laws::grant_grows(before, principal, house_id, now, first, second);
            },
            Step::Commit { principal, observed, confirm, request, now, event_id } => {
                presence_laws::commit_grows(
                    before,
                    principal,
                    observed,
                    confirm,
                    request,
                    now,
                    event_id,
                );
            },
        }
        presence_laws::growth_is_transitive(book, before, after_steps(book, steps));
    }
}

/// Whatever a ledger has seen since it was blank, it is finite and within its capacity.
pub proof fn every_ledger_is_bounded(steps: Seq<Step>)
    ensures
        presence_laws::bounded(history(steps)),
    decreases steps.len(),
{
    if steps.len() > 0 {
        let before = history(steps.drop_last());
        every_ledger_is_bounded(steps.drop_last());
        match steps.last() {
            Step::Grant { principal, house_id, now, first, second } => {
                presence_laws::grant_keeps_bounds(before, principal, house_id, now, first, second);
            },
            Step::Commit { principal, observed, confirm, request, now, event_id } => {
                presence_laws::commit_keeps_bounds(
                    before,
                    principal,
                    observed,
                    confirm,
                    request,
                    now,
                    event_id,
                );
            },
        }
    }
}

proof fn lemma_nonce_stays_absent(book: Book, steps: Seq<Step>, nonce: Seq<char>)
    requires
        !book.nonces.contains_key(nonce),
        forall|i: int| 0 <= i < steps.len() ==> !(#[trigger] steps[i]).draws(nonce),
    ensures
        !after_steps(book, steps).nonces.contains_key(nonce),
    decreases steps.len(),
{
    if steps.len() > 0 {
        let before = steps.drop_last();
        assert forall|i: int| 0 <= i < before.len() implies !(#[trigger] before[i]).draws(
            nonce,
        ) by {
            assert(before[i] == steps[i]);
        }
        lemma_nonce_stays_absent(book, before, nonce);
        assert(!steps[steps.len() - 1].draws(nonce));
    }
}

/// A nonce admits one observation: whatever comes after the decision, as long as the nonce is not
/// drawn again, an observation that comes with it and was not decided before is refused as a
/// replay, or, in a full ledger, for want of room, and changes nothing.
pub proof fn nonce_admits_one_observation(
    book: Book,
    principal: Identity,
    o: Observed,
    confirm: bool,
    request: Seq<u8>,
    now: Moment,
    event_id: u128,
    steps: Seq<Step>,
    principal2: Identity,
    o2: Observed,
    confirm2: bool,
    request2: Seq<u8>,
    now2: Moment,
    event_id2: u128,
)
    requires
        !book.decisions.contains_key(o.observation_id),
        presence::committed(book, principal, o, confirm, request, now, event_id).0 is Ok,
        forall|i: int| 0 <= i < steps.len() ==> !(#[trigger] steps[i]).draws(o.submission_nonce),
        o2.submission_nonce == o.submission_nonce,
        !after_steps(
            presence::committed(book, principal, o, confirm, request, now, event_id).1,
            steps,
        ).decisions.contains_key(o2.observation_id),
    ensures
        ({
            let after = presence::committed(book, principal, o, confirm, request, now, event_id).1;
            let later = after_steps(after, steps);
            presence::committed(later, principal2, o2, confirm2, request2, now2, event_id2) == (
                Err::<Decision, AdmissionError>(
                    if later.decisions.len() >= MAX_RECORDED_OBSERVATIONS {
                        AdmissionError::RateLimited
                    } else {
                        AdmissionError::Replayed
                    },
                ),
                later,
            )
        }),
{
    let after = presence::committed(book, principal, o, confirm, request, now, event_id).1;
    presence_laws::decision_spends_its_nonce(
        book,
        principal,
        o,
        confirm,
        request,
        now,
        event_id,
    );
    lemma_nonce_stays_absent(after, steps, o.submission_nonce);
    presence_laws::absent_nonce_admits_nothing(
        after_steps(after, steps),
        principal2,
        o2,
        confirm2,
        request2,
        now2,
        event_id2,
    );
}

} // verus!
