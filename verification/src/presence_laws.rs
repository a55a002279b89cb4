//! What holds of the presence ledger whatever happens to it.

use crate::identity::Identity;
use crate::moment::Moment;
use crate::presence::{
    self, AdmissionError, Book, Decision, Observed, PresenceDecisionKind, PresenceDecisionReason,
    MAX_PENDING_NONCES, MAX_RECORDED_OBSERVATIONS, NONCE_SECONDS,
};
use vstd::prelude::*;

verus! {

/// The ledger came from `before` by steps that only add: what was consumed stays consumed, what
/// was decided stays decided, and no presence sequence goes back.
pub open spec fn grown(before: Book, after: Book) -> bool {
    &&& before.used_challenges.subset_of(after.used_challenges)
    &&& before.used_evidence.subset_of(after.used_evidence)
    &&& before.decisions.submap_of(after.decisions)
    &&& forall|p: Identity, h: Seq<char>|
        #![trigger presence::current_sequence(after, p, h)]
        presence::current_sequence(before, p, h) <= presence::current_sequence(after, p, h)
}

/// The ledger is finite and within its capacity.
pub open spec fn bounded(book: Book) -> bool {
    &&& book.nonces.dom().finite()
    &&& book.decisions.dom().finite()
    &&& book.nonces.len() <= MAX_PENDING_NONCES
    &&& book.decisions.len() <= MAX_RECORDED_OBSERVATIONS
}

/// Committing an observation only adds to the ledger.
pub proof fn commit_grows(
    book: Book,
    principal: Identity,
    o: Observed,
    confirm: bool,
    request: Seq<u8>,
    now: Moment,
    event_id: u128,
)
    ensures
        grown(book, presence::committed(book, principal, o, confirm, request, now, event_id).1),
{
}

/// Granting a nonce only adds to the ledger, beside the nonces.
pub proof fn grant_grows(
    book: Book,
    principal: Identity,
    house_id: Seq<char>,
    now: Moment,
    first: u128,
    second: u128,
)
    ensures
        grown(book, presence::granted(book, principal, house_id, now, first, second).1),
{
}

/// Growth carries over from step to step.
pub proof fn growth_is_transitive(a: Book, b: Book, c: Book)
    requires
        grown(a, b),
        grown(b, c),
    ensures
        grown(a, c),
{
    vstd::map_lib::lemma_submap_of_trans(a.decisions, b.decisions, c.decisions);
    assert forall|p: Identity, h: Seq<char>| #[trigger]
        presence::current_sequence(c, p, h) >= presence::current_sequence(a, p, h) by {
        assert(presence::current_sequence(b, p, h) <= presence::current_sequence(c, p, h));
        assert(presence::current_sequence(a, p, h) <= presence::current_sequence(b, p, h));
    }
}

/// A refused observation leaves the ledger as it was.
pub proof fn refusal_changes_nothing(
    book: Book,
    principal: Identity,
    o: Observed,
    confirm: bool,
    request: Seq<u8>,
    now: Moment,
    event_id: u128,
)
    requires
        presence::committed(book, principal, o, confirm, request, now, event_id).0 is Err,
    ensures
        presence::committed(book, principal, o, confirm, request, now, event_id).1 == book,
{
}

/// Once an observation has been decided, every later attempt with the same request, by whomever
/// and whatever came between, is answered with that decision and changes nothing.
pub proof fn retry_gets_the_same_decision(
    book: Book,
    principal: Identity,
    o: Observed,
    confirm: bool,
    request: Seq<u8>,
    now: Moment,
    event_id: u128,
    later: Book,
    principal2: Identity,
    o2: Observed,
    confirm2: bool,
    now2: Moment,
    event_id2: u128,
)
    requires
        presence::committed(book, principal, o, confirm, request, now, event_id).0 is Ok,
        grown(presence::committed(book, principal, o, confirm, request, now, event_id).1, later),
        o2.observation_id == o.observation_id,
    ensures
        presence::committed(later, principal2, o2, confirm2, request, now2, event_id2) == (
            presence::committed(book, principal, o, confirm, request, now, event_id).0,
            later,
        ),
{
    let after = presence::committed(book, principal, o, confirm, request, now, event_id).1;
    assert(after.decisions.contains_key(o.observation_id));
    assert(after.decisions.dom().contains(o.observation_id));
    assert(later.decisions.contains_key(o.observation_id));
    assert(later.decisions[o.observation_id] == after.decisions[o.observation_id]);
}

/// Once an observation has been decided, every later attempt under its identifier with another
/// request is refused as a replay and changes nothing.
pub proof fn conflicting_reuse_is_refused(
    book: Book,
    principal: Identity,
    o: Observed,
    confirm: bool,
    request: Seq<u8>,
    now: Moment,
    event_id: u128,
    later: Book,
    principal2: Identity,
    o2: Observed,
    confirm2: bool,
    request2: Seq<u8>,
    now2: Moment,
    event_id2: u128,
)
    requires
        presence::committed(book, principal, o, confirm, request, now, event_id).0 is Ok,
        grown(presence::committed(book, principal, o, confirm, request, now, event_id).1, later),
        o2.observation_id == o.observation_id,
        request2 != request,
    ensures
        presence::committed(later, principal2, o2, confirm2, request2, now2, event_id2) == (
            Err::<Decision, AdmissionError>(AdmissionError::Replayed),
            later,
        ),
{
    let after = presence::committed(book, principal, o, confirm, request, now, event_id).1;
    assert(after.decisions.contains_key(o.observation_id));
    assert(after.decisions.dom().contains(o.observation_id));
    assert(later.decisions.contains_key(o.observation_id));
    assert(later.decisions[o.observation_id] == after.decisions[o.observation_id]);
}

/// A new decision spends the nonce that its observation came with.
pub proof fn decision_spends_its_nonce(
    book: Book,
    principal: Identity,
    o: Observed,
    confirm: bool,
    request: Seq<u8>,
    now: Moment,
    event_id: u128,
)
    requires
        !book.decisions.contains_key(o.observation_id),
        presence::committed(book, principal, o, confirm, request, now, event_id).0 is Ok,
    ensures
        !presence::committed(
            book,
            principal,
            o,
            confirm,
            request,
            now,
            event_id,
        ).1.nonces.contains_key(o.submission_nonce),
{
}

/// Committing an observation grants no nonce.
pub proof fn commit_grants_no_nonce(
    book: Book,
    principal: Identity,
    o: Observed,
    confirm: bool,
    request: Seq<u8>,
    now: Moment,
    event_id: u128,
    nonce: Seq<char>,
)
    requires
        !book.nonces.contains_key(nonce),
    ensures
        !presence::committed(
            book,
            principal,
            o,
            confirm,
            request,
            now,
            event_id,
        ).1.nonces.contains_key(nonce),
{
}

/// Granting a nonce grants no other one.
pub proof fn grant_grants_no_other_nonce(
    book: Book,
    principal: Identity,
    house_id: Seq<char>,
    now: Moment,
    first: u128,
    second: u128,
    nonce: Seq<char>,
)
    requires
        !book.nonces.contains_key(nonce),
        nonce != presence::nonce_text(first, second),
    ensures
        !presence::granted(
            book,
            principal,
            house_id,
            now,
            first,
            second,
        ).1.nonces.contains_key(nonce),
{
}

/// An observation that was not decided before and comes with a nonce that is not pending is
/// refused as a replay, or, in a full ledger, for want of room, and changes nothing.
pub proof fn absent_nonce_admits_nothing(
    later: Book,
    principal: Identity,
    o: Observed,
    confirm: bool,
    request: Seq<u8>,
    now: Moment,
    event_id: u128,
)
    requires
        !later.nonces.contains_key(o.submission_nonce),
        !later.decisions.contains_key(o.observation_id),
    ensures
        presence::committed(later, principal, o, confirm, request, now, event_id) == (
            Err::<Decision, AdmissionError>(
                if later.decisions.len() >= MAX_RECORDED_OBSERVATIONS {
                    AdmissionError::RateLimited
                } else {
                    AdmissionError::Replayed
                },
            ),
            later,
        ),
{
}

/// A door challenge or corroborating evidence that an observation consumed admits no other
/// observation, whatever came between. One that comes with a live nonce of its own principal and
/// house is refused as a replay as long as the ledger has room; any other is refused too.
pub proof fn evidence_is_used_once(
    book: Book,
    principal: Identity,
    o: Observed,
    confirm: bool,
    request: Seq<u8>,
    now: Moment,
    event_id: u128,
    later: Book,
    principal2: Identity,
    o2: Observed,
    confirm2: bool,
    request2: Seq<u8>,
    now2: Moment,
    event_id2: u128,
)
    requires
        presence::committed(book, principal, o, confirm, request, now, event_id).0 is Ok,
        !book.decisions.contains_key(o.observation_id),
        grown(presence::committed(book, principal, o, confirm, request, now, event_id).1, later),
        o2.challenge_id == o.challenge_id || o2.evidence_id == o.evidence_id,
        !later.decisions.contains_key(o2.observation_id),
    ensures
        ({
            let grant = later.nonces[o2.submission_nonce];
            presence::committed(later, principal2, o2, confirm2, request2, now2, event_id2) == (
                Err::<Decision, AdmissionError>(
                    if later.decisions.len() >= MAX_RECORDED_OBSERVATIONS {
                        AdmissionError::RateLimited
                    } else if !later.nonces.contains_key(o2.submission_nonce) {
                        AdmissionError::Replayed
                    } else if !now2.before(grant.expires_at) {
                        AdmissionError::Expired
                    } else if grant.principal != principal2 || grant.house_id != o2.house_id {
                        AdmissionError::MembershipDenied
                    } else {
                        AdmissionError::Replayed
                    },
                ),
                later,
            )
        }),
{
    let after = presence::committed(book, principal, o, confirm, request, now, event_id).1;
    assert(after.used_challenges.contains(o.challenge_id));
    assert(after.used_evidence.contains(o.evidence_id));
}

/// A new decision rests on a nonce that was granted to the same principal for the same house and
/// had not run out, and on a challenge and evidence that nothing had consumed.
pub proof fn decision_rests_on_bound_evidence(
    book: Book,
    principal: Identity,
    o: Observed,
    confirm: bool,
    request: Seq<u8>,
    now: Moment,
    event_id: u128,
)
    requires
        !book.decisions.contains_key(o.observation_id),
        presence::committed(book, principal, o, confirm, request, now, event_id).0 is Ok,
    ensures
        book.nonces.contains_key(o.submission_nonce),
        book.nonces[o.submission_nonce].principal == principal,
        book.nonces[o.submission_nonce].house_id == o.house_id,
        now.before(book.nonces[o.submission_nonce].expires_at),
        !book.used_challenges.contains(o.challenge_id),
        !book.used_evidence.contains(o.evidence_id),
{
}

/// A new decision moves the presence sequence of its principal in its house one step on from
/// the sequence that the observation named, and moves no other.
pub proof fn sequence_moves_one_step(
    book: Book,
    principal: Identity,
    o: Observed,
    confirm: bool,
    request: Seq<u8>,
    now: Moment,
    event_id: u128,
    p: Identity,
    h: Seq<char>,
)
    requires
        !book.decisions.contains_key(o.observation_id),
        presence::committed(book, principal, o, confirm, request, now, event_id).0 is Ok,
    ensures
        ({
            let (answer, after) = presence::committed(book, principal, o, confirm, request, now, event_id);
            let decision = answer->Ok_0;
            &&& o.previous_presence_sequence == presence::current_sequence(book, principal, o.house_id)
            &&& decision.presence_sequence == o.previous_presence_sequence + 1
            &&& presence::current_sequence(after, principal, o.house_id) == decision.presence_sequence
            &&& (p, h) != (principal, o.house_id) ==> presence::current_sequence(after, p, h)
                == presence::current_sequence(book, p, h)
        }),
{
}

/// A direction that needs a confirmation never becomes an accepted transition, and any other
/// does.
pub proof fn uncertain_direction_is_not_accepted(
    book: Book,
    principal: Identity,
    o: Observed,
    confirm: bool,
    request: Seq<u8>,
    now: Moment,
    event_id: u128,
)
    requires
        !book.decisions.contains_key(o.observation_id),
        presence::committed(book, principal, o, confirm, request, now, event_id).0 is Ok,
    ensures
        ({
            let decision = presence::committed(
                book,
                principal,
                o,
                confirm,
                request,
                now,
                event_id,
            ).0->Ok_0;
            &&& (decision.decision == PresenceDecisionKind::Accepted) == !confirm
            &&& (decision.reason == PresenceDecisionReason::AmbiguousDirection) == confirm
        }),
{
}

/// An observation that comes with a nonce just granted, from the same principal at the same
/// house, before the nonce runs out, with a fresh challenge, fresh evidence and the current
/// sequence, is decided.
pub proof fn granted_nonce_admits(
    book: Book,
    principal: Identity,
    house_id: Seq<char>,
    now: Moment,
    first: u128,
    second: u128,
    o: Observed,
    confirm: bool,
    request: Seq<u8>,
    now2: Moment,
    event_id: u128,
)
    requires
        ({
            let (answer, after) = presence::granted(book, principal, house_id, now, first, second);
            &&& answer is Ok
            &&& o.submission_nonce == answer->Ok_0.nonce
            &&& o.house_id == house_id
            &&& now2.before(now.later(NONCE_SECONDS as int))
            &&& !book.decisions.contains_key(o.observation_id)
            &&& book.decisions.len() < MAX_RECORDED_OBSERVATIONS
            &&& !book.used_challenges.contains(o.challenge_id)
            &&& !book.used_evidence.contains(o.evidence_id)
            &&& o.previous_presence_sequence == presence::current_sequence(book, principal, house_id)
            &&& o.previous_presence_sequence < u64::MAX
        }),
    ensures
        ({
            let (answer, after) = presence::granted(book, principal, house_id, now, first, second);
            presence::committed(after, principal, o, confirm, request, now2, event_id).0 is Ok
        }),
{
    let after = presence::granted(book, principal, house_id, now, first, second).1;
    assert(after.decisions == book.decisions);
    assert(presence::current_sequence(after, principal, house_id) == presence::current_sequence(
        book,
        principal,
        house_id,
    ));
}

/// The ledger stays within its capacity when an observation is committed.
pub proof fn commit_keeps_bounds(
    book: Book,
    principal: Identity,
    o: Observed,
    confirm: bool,
    request: Seq<u8>,
    now: Moment,
    event_id: u128,
)
    requires
        bounded(book),
    ensures
        bounded(presence::committed(book, principal, o, confirm, request, now, event_id).1),
{
}

/// The ledger stays within its capacity when a nonce is granted.
pub proof fn grant_keeps_bounds(
    book: Book,
    principal: Identity,
    house_id: Seq<char>,
    now: Moment,
    first: u128,
    second: u128,
)
    requires
        bounded(book),
    ensures
        bounded(presence::granted(book, principal, house_id, now, first, second).1),
{
    let live = presence::live_nonces(book, now);
    assert(live.dom().subset_of(book.nonces.dom()));
    vstd::set_lib::lemma_len_subset(live.dom(), book.nonces.dom());
}

} // verus!
