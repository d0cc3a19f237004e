//! Per-user count of consecutive flagged messages.
//!
//! Every third violation of a user escalates and clears that user's count.
//! The count has no expiry: three violations escalate however far apart
//! they are in time.

use std::collections::HashMap;
use vstd::prelude::*;

verus! {

/// Number of violations that make up one cycle; the last of them escalates.
pub const VIOLATIONS_PER_ESCALATION: u8 = 3;

/// What the caller must do after a violation was recorded.
#[derive(Clone, Copy, Debug, PartialEq, Eq, Structural)]
pub enum EscalationDecision {
    /// The violation was counted; nothing more is owed.
    Continue,
    /// The threshold was reached and the count was reset.
    Escalate,
}

/// The abstract state of a tracker: a count for every user, zero for a user
/// that was never seen.
pub type Counts = Map<u64, nat>;

/// Every user has a count, and every count is below the cycle length.
pub open spec fn counts_valid(counts: Counts) -> bool {
    forall|user: u64|
        #![trigger counts.contains_key(user)]
        #![trigger counts[user]]
        counts.contains_key(user) && counts[user] < VIOLATIONS_PER_ESCALATION
}

/// The state in which no user has a pending violation.
pub open spec fn no_violations() -> Counts {
    Map::new(|user: u64| true, |user: u64| 0nat)
}

/// The decision taken for a violation of a user whose count is `count`.
pub open spec fn decision_at(count: nat) -> EscalationDecision {
    if count + 1 == VIOLATIONS_PER_ESCALATION {
        EscalationDecision::Escalate
    } else {
        EscalationDecision::Continue
    }
}

/// The count that follows `count` after one more violation.
pub open spec fn count_after(count: nat) -> nat {
    if count + 1 == VIOLATIONS_PER_ESCALATION {
        0
    } else {
        count + 1
    }
}

/// The state after one violation of `user`.
pub open spec fn record(counts: Counts, user: u64) -> Counts {
    counts.insert(user, count_after(counts[user]))
}

/// The decision taken for one violation of `user` in state `counts`.
pub open spec fn decide(counts: Counts, user: u64) -> EscalationDecision {
    decision_at(counts[user])
}

/// The state after `times` violations of `user` in a row.
pub open spec fn record_times(counts: Counts, user: u64, times: nat) -> Counts
    decreases times,
{
    if times == 0 {
        counts
    } else {
        record(record_times(counts, user, (times - 1) as nat), user)
    }
}

/// The state after the violations of `users`, in order.
pub open spec fn record_all(counts: Counts, users: Seq<u64>) -> Counts
    decreases users.len(),
{
    if users.len() == 0 {
        counts
    } else {
        record(record_all(counts, users.drop_last()), users.last())
    }
}

/// How often `user` occurs in `users`.
pub open spec fn occurrences(users: Seq<u64>, user: u64) -> nat
    decreases users.len(),
{
    if users.len() == 0 {
        0
    } else {
        occurrences(users.drop_last(), user) + if users.last() == user {
            1nat
        } else {
            0nat
        }
    }
}

/// The violation counts of all users. One tracker serves the whole
/// process; whoever shares it between tasks guards it with a single lock,
/// so that each call of [`ViolationTracker::record_violation`] is one
/// critical section.
pub struct ViolationTracker {
    counts: HashMap<u64, u8>,
}

impl View for ViolationTracker {
    type V = Counts;

    closed spec fn view(&self) -> Counts {
        Map::new(
            |user: u64| true,
            |user: u64|
                if self.counts@.contains_key(user) {
                    self.counts@[user] as nat
                } else {
                    0nat
                },
        )
    }
}

impl ViolationTracker {
    /// The invariant of a tracker: its state is valid. [`Self::new`]
    /// establishes it and every method keeps it.
    pub open spec fn wf(&self) -> bool {
        counts_valid(self@)
    }

    /// A tracker in which no user has a pending violation.
    pub fn new() -> (tracker: Self)
        ensures
            tracker@ == no_violations(),
            tracker.wf(),
    {
        let tracker = ViolationTracker { counts: HashMap::new() };
        assert(tracker@ =~= no_violations());
        tracker
    }

    /// The number of violations of `user` since the last escalation.
    pub fn count(&self, user: u64) -> (count: u8)
        requires
            self.wf(),
        ensures
            count == self@[user],
            count < VIOLATIONS_PER_ESCALATION,
    {
        broadcast use vstd::std_specs::hash::group_hash_axioms;

        assert(self@[user] < VIOLATIONS_PER_ESCALATION);
        match self.counts.get(&user) {
            Some(count) => *count,
            None => 0,
        }
    }

    /// Records one violation of `user`. The third violation in a cycle
    /// escalates and clears the count; every other one is counted. No
    /// other user's count changes.
    pub fn record_violation(&mut self, user: u64) -> (decision: EscalationDecision)
        requires
            old(self).wf(),
        ensures
            final(self).wf(),
            decision == decide(old(self)@, user),
            final(self)@ == record(old(self)@, user),
    {
        broadcast use vstd::std_specs::hash::group_hash_axioms;

        let current: u8 = self.count(user);
        let (next, decision): (u8, EscalationDecision) = if current + 1
            == VIOLATIONS_PER_ESCALATION {
            (0, EscalationDecision::Escalate)
        } else {
            (current + 1, EscalationDecision::Continue)
        };
        self.counts.insert(user, next);
        assert(self@ =~= record(old(self)@, user));
        proof {
            lemma_record_touches_one_user(old(self)@, user);
        }
        decision
    }
}

impl Default for ViolationTracker {
    /// A tracker in which no user has a pending violation.
    fn default() -> (tracker: Self)
        ensures
            tracker@ == no_violations(),
            tracker.wf(),
    {
        ViolationTracker::new()
    }
}

/// One violation keeps the state valid and changes no count but that of
/// its user.
pub proof fn lemma_record_touches_one_user(counts: Counts, user: u64)
    requires
        counts_valid(counts),
    ensures
        counts_valid(record(counts, user)),
        record(counts, user)[user] == count_after(counts[user]),
        forall|other: u64| other != user ==> #[trigger] record(counts, user)[other] == counts[other],
{
    assert(counts[user] < VIOLATIONS_PER_ESCALATION);
    assert forall|other: u64|
        #![trigger record(counts, user).contains_key(other)]
        #![trigger record(counts, user)[other]]
        record(counts, user).contains_key(other) && record(counts, user)[other]
            < VIOLATIONS_PER_ESCALATION by {
        assert(counts.contains_key(other));
    }
}

/// After `times` violations of one user in a row, that user's count has
/// advanced by `times` modulo the cycle length, and no other count has
/// changed.
pub proof fn lemma_record_times(counts: Counts, user: u64, times: nat)
    requires
        counts_valid(counts),
    ensures
        counts_valid(record_times(counts, user, times)),
        record_times(counts, user, times)[user] == (counts[user] + times)
            % (VIOLATIONS_PER_ESCALATION as nat),
        forall|other: u64|
            other != user ==> #[trigger] record_times(counts, user, times)[other] == counts[other],
    decreases times,
{
    assert(counts[user] < VIOLATIONS_PER_ESCALATION);
    if times > 0 {
        let before = record_times(counts, user, (times - 1) as nat);
        lemma_record_times(counts, user, (times - 1) as nat);
        lemma_record_touches_one_user(before, user);
    }
}

/// From a count of zero, three violations in a row are answered with
/// Continue, Continue, Escalate, and leave the state as it was.
pub proof fn lemma_three_violations_escalate(counts: Counts, user: u64)
    requires
        counts_valid(counts),
        counts[user] == 0,
    ensures
        decide(counts, user) == EscalationDecision::Continue,
        decide(record_times(counts, user, 1), user) == EscalationDecision::Continue,
        decide(record_times(counts, user, 2), user) == EscalationDecision::Escalate,
        record_times(counts, user, 3) == counts,
{
    lemma_record_times(counts, user, 1);
    lemma_record_times(counts, user, 2);
    lemma_record_times(counts, user, 3);
    assert(record_times(counts, user, 3) =~= counts);
}

/// The decisions for one user are periodic: whatever the state, three more
/// violations in a row lead back to the same state, and so to the same
/// decision.
pub proof fn lemma_decisions_periodic(counts: Counts, user: u64, times: nat)
    requires
        counts_valid(counts),
    ensures
        record_times(counts, user, times + VIOLATIONS_PER_ESCALATION as nat) == record_times(
            counts,
            user,
            times,
        ),
        decide(record_times(counts, user, times + VIOLATIONS_PER_ESCALATION as nat), user)
            == decide(record_times(counts, user, times), user),
{
    lemma_record_times(counts, user, times);
    lemma_record_times(counts, user, times + 3);
    assert(record_times(counts, user, times + 3) =~= record_times(counts, user, times));
}

/// A violation escalates exactly when it completes a cycle, that is, when
/// the number of violations of that user since a count of zero is a
/// multiple of the cycle length.
pub proof fn lemma_escalates_every_third(counts: Counts, user: u64, times: nat)
    requires
        counts_valid(counts),
        counts[user] == 0,
    ensures
        decide(record_times(counts, user, times), user) == EscalationDecision::Escalate <==> (
        times + 1) % (VIOLATIONS_PER_ESCALATION as nat) == 0,
{
    lemma_record_times(counts, user, times);
}

/// An escalation leaves its user's count at exactly zero, so that user's
/// next violation is counted and does not escalate again.
pub proof fn lemma_escalation_restarts_cycle(counts: Counts, user: u64)
    requires
        counts_valid(counts),
        decide(counts, user) == EscalationDecision::Escalate,
    ensures
        record(counts, user)[user] == 0,
        decide(record(counts, user), user) == EscalationDecision::Continue,
{
    lemma_record_touches_one_user(counts, user);
}

/// Violations of two different users commute: each is answered the same
/// whether or not the other came first, and the order does not show in the
/// final state.
pub proof fn lemma_users_independent(counts: Counts, first: u64, second: u64)
    requires
        counts_valid(counts),
        first != second,
    ensures
        record(counts, first)[second] == counts[second],
        decide(record(counts, first), second) == decide(counts, second),
        record(record(counts, first), second) == record(record(counts, second), first),
{
    lemma_record_touches_one_user(counts, first);
    lemma_record_touches_one_user(counts, second);
    assert(record(record(counts, first), second) =~= record(record(counts, second), first));
}

/// However the violations of `user` are interleaved with those of other
/// users, the count of `user` and the decision on its next violation are
/// what they would be had only its own violations been recorded.
pub proof fn lemma_interleaving_independent(counts: Counts, users: Seq<u64>, user: u64)
    requires
        counts_valid(counts),
    ensures
        counts_valid(record_all(counts, users)),
        record_all(counts, users)[user] == record_times(
            counts,
            user,
            occurrences(users, user),
        )[user],
        decide(record_all(counts, users), user) == decide(
            record_times(counts, user, occurrences(users, user)),
            user,
        ),
    decreases users.len(),
{
    if users.len() > 0 {
        let before = record_all(counts, users.drop_last());
        lemma_interleaving_independent(counts, users.drop_last(), user);
        lemma_record_touches_one_user(before, users.last());
        lemma_record_times(counts, user, occurrences(users.drop_last(), user));
        lemma_record_times(counts, user, occurrences(users, user));
    } else {
        lemma_record_times(counts, user, 0);
    }
}

} // verus!
