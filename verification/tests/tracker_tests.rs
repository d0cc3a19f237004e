use chat_moderation::tracker::{EscalationDecision, ViolationTracker, VIOLATIONS_PER_ESCALATION};

#[test]
fn cycle_length_is_three() {
    assert_eq!(VIOLATIONS_PER_ESCALATION, 3);
}

#[test]
fn fresh_tracker_counts_nothing() {
    let tracker = ViolationTracker::new();
    assert_eq!(tracker.count(0), 0);
    assert_eq!(tracker.count(42), 0);
    assert_eq!(tracker.count(u64::MAX), 0);
}

#[test]
fn three_violations_escalate() {
    let mut tracker = ViolationTracker::new();
    assert_eq!(tracker.record_violation(7), EscalationDecision::Continue);
    assert_eq!(tracker.record_violation(7), EscalationDecision::Continue);
    assert_eq!(tracker.record_violation(7), EscalationDecision::Escalate);
}

#[test]
fn fourth_violation_restarts_the_cycle() {
    let mut tracker = ViolationTracker::new();
    let decisions: Vec<EscalationDecision> = (0..7).map(|_| tracker.record_violation(7)).collect();
    assert_eq!(
        decisions,
        vec![
            EscalationDecision::Continue,
            EscalationDecision::Continue,
            EscalationDecision::Escalate,
            EscalationDecision::Continue,
            EscalationDecision::Continue,
            EscalationDecision::Escalate,
            EscalationDecision::Continue,
        ]
    );
}

#[test]
fn decisions_have_period_three() {
    let mut tracker = ViolationTracker::new();
    for call in 1..=300u32 {
        let expected = if call % 3 == 0 {
            EscalationDecision::Escalate
        } else {
            EscalationDecision::Continue
        };
        assert_eq!(tracker.record_violation(99), expected);
        assert_eq!(u32::from(tracker.count(99)), call % 3);
    }
}

#[test]
fn count_follows_each_violation() {
    let mut tracker = ViolationTracker::new();
    tracker.record_violation(5);
    assert_eq!(tracker.count(5), 1);
    tracker.record_violation(5);
    assert_eq!(tracker.count(5), 2);
    tracker.record_violation(5);
    assert_eq!(tracker.count(5), 0);
}

#[test]
fn escalation_leaves_count_at_zero() {
    let mut tracker = ViolationTracker::new();
    tracker.record_violation(11);
    tracker.record_violation(11);
    assert_eq!(tracker.record_violation(11), EscalationDecision::Escalate);
    assert_eq!(tracker.count(11), 0);
    assert_eq!(tracker.record_violation(11), EscalationDecision::Continue);
    assert_eq!(tracker.count(11), 1);
}

#[test]
fn users_do_not_affect_each_other() {
    let mut tracker = ViolationTracker::new();
    assert_eq!(tracker.record_violation(1), EscalationDecision::Continue);
    assert_eq!(tracker.record_violation(2), EscalationDecision::Continue);
    assert_eq!(tracker.count(1), 1);
    assert_eq!(tracker.count(2), 1);
    assert_eq!(tracker.record_violation(1), EscalationDecision::Continue);
    assert_eq!(tracker.count(2), 1);
    assert_eq!(tracker.record_violation(1), EscalationDecision::Escalate);
    assert_eq!(tracker.count(1), 0);
    assert_eq!(tracker.count(2), 1);
    assert_eq!(tracker.record_violation(2), EscalationDecision::Continue);
    assert_eq!(tracker.record_violation(2), EscalationDecision::Escalate);
    assert_eq!(tracker.count(1), 0);
}

#[test]
fn interleaving_matches_separate_trackers() {
    let calls: [u64; 14] = [3, 4, 3, 3, 4, 5, 4, 4, 3, 5, 5, 3, 4, 3];
    let mut shared = ViolationTracker::new();
    let mut alone_three = ViolationTracker::new();
    let mut alone_four = ViolationTracker::new();
    let mut alone_five = ViolationTracker::new();
    for user in calls {
        let decision = shared.record_violation(user);
        let expected = match user {
            3 => alone_three.record_violation(user),
            4 => alone_four.record_violation(user),
            _ => alone_five.record_violation(user),
        };
        assert_eq!(decision, expected);
    }
    assert_eq!(shared.count(3), alone_three.count(3));
    assert_eq!(shared.count(4), alone_four.count(4));
    assert_eq!(shared.count(5), alone_five.count(5));
}

#[test]
fn extreme_user_identifiers_are_tracked() {
    let mut tracker = ViolationTracker::new();
    assert_eq!(tracker.record_violation(0), EscalationDecision::Continue);
    assert_eq!(tracker.record_violation(u64::MAX), EscalationDecision::Continue);
    assert_eq!(tracker.record_violation(u64::MAX), EscalationDecision::Continue);
    assert_eq!(tracker.record_violation(u64::MAX), EscalationDecision::Escalate);
    assert_eq!(tracker.count(0), 1);
}
