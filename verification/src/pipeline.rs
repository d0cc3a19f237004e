//! The handling of one message, as a state machine.
//!
//! The work on a message alternates between decisions and operations on
//! the outside: reactions, the classifier, replies, time-outs. The
//! decisions are taken here. [`step`] takes the stage that the handling has
//! reached and what has just happened, and says what to do next. The
//! caller does it, and comes back with what came of it, until it is told to
//! finish.
//!
//! The order within one message is fixed: the reaction on a listed phrase,
//! then the screening of the author and the text, the warning reaction, the
//! count, and after every third violation the reply, the member lookup and
//! the time-out. A reaction that fails holds nothing up. A reply or a
//! lookup that fails ends the handling; what was counted stays counted.

use crate::matcher::{any_pattern_found, PatternMatcher};
use crate::perspective::{
    assess, verdict_of, AnalyzeCommentResponse, ClassifierError, Verdict, PROFANITY,
};
use crate::phrases::{phrase_listed, PhraseList};
use crate::score::Score;
use crate::tracker::{decide, record, Counts, EscalationDecision, ViolationTracker};
use serenity::model::Timestamp;
use vstd::prelude::*;

verus! {

/// The guild in which a listed phrase is answered with a reaction.
pub const GIF_GUILD: u64 = 316738004335067139;

/// The custom emoji that answers a listed phrase.
pub const GIF_EMOJI: u64 = 1171493411270967447;

/// The emoji that marks a flagged message.
pub const WARNING_EMOJI: char = '\u{203C}';

/// The text of the reply that goes with an escalation.
pub const WARNING_REPLY: &'static str = "Stop swearing. You need a 5-minute timeout.";

/// The length of a time-out, in seconds.
pub const TIMEOUT_SECONDS: i64 = 300;

/// The latest time, in seconds since the Unix epoch, that can still be
/// written in milliseconds; the earliest is its negative.
pub const LATEST_IN_MILLISECONDS: i64 = 9_223_372_036_854_775;

/// Whether the gateway library takes `seconds`, counted from the Unix
/// epoch, for a time that it can write.
pub uninterp spec fn timestamp_accepted(seconds: i64) -> bool;

/// A message as the gateway delivers it.
#[derive(Debug)]
pub struct InboundMessage {
    /// The user who wrote it.
    pub author: u64,
    /// The guild it was written in, if any.
    pub guild: Option<u64>,
    /// Its text.
    pub content: String,
    /// When it was written, in seconds since the Unix epoch.
    pub timestamp: i64,
}

/// What is fixed when the process starts and read by every handler.
pub struct Policy {
    /// The users whose messages are screened.
    pub eligible_users: Vec<u64>,
    /// The flagged patterns.
    pub patterns: PatternMatcher,
    /// The phrases that are answered with a reaction.
    pub gifs: PhraseList,
    /// The score at and above which the classifier flags a message.
    pub threshold: Score,
}

/// An emoji to react with.
#[derive(Debug, Clone, Copy, PartialEq, Eq, Structural)]
pub enum Emoji {
    /// A custom emoji, by its identifier.
    Custom(u64),
    /// A Unicode emoji.
    Unicode(char),
}

/// How far the handling of a message has come.
#[derive(Debug, Clone, Copy, PartialEq, Eq, Structural)]
pub enum Stage {
    /// The message has come in and nothing was done yet.
    Received,
    /// The reaction on a listed phrase is under way.
    GifReaction,
    /// The classifier was asked.
    Classification,
    /// The warning reaction is under way.
    WarningReaction,
    /// The warning reply is under way.
    Reply,
    /// The author is being looked up among the members of the guild.
    MemberLookup,
    /// The time-out is being imposed.
    Timeout,
    /// Nothing is left to do.
    Idle,
}

/// What has just happened.
#[derive(Debug)]
pub enum Event {
    /// The message has come in.
    Arrived,
    /// The operation that was asked for is over; `true` if it succeeded.
    Completed(bool),
    /// The classifier was asked, with this result.
    Classified(Result<AnalyzeCommentResponse, ClassifierError>),
}

/// What the caller is to do next.
#[derive(Debug, Clone, Copy, PartialEq, Eq, Structural)]
pub enum Action {
    /// React to the message with this emoji, then report `Completed`.
    React(Emoji),
    /// Ask the classifier about the text of the message, then report
    /// `Classified`.
    Classify,
    /// Reply to the message with [`WARNING_REPLY`], then report
    /// `Completed`.
    Reply,
    /// Look the author up among the members of the guild, then report
    /// `Completed`.
    FindMember,
    /// Bar the member from communicating until this time, in seconds since
    /// the Unix epoch, then report `Completed`.
    Timeout { until: i64 },
    /// Nothing: the handling of the message is over.
    Finish,
}

/// The stage to go to and the action to take.
#[derive(Debug, Clone, Copy, PartialEq, Eq, Structural)]
pub struct Transition {
    pub stage: Stage,
    pub action: Action,
}

/// A transition together with the violation counts that it leaves.
pub struct Outcome {
    pub stage: Stage,
    pub action: Action,
    pub counts: Counts,
}

/// Whether the author of `message` is among the users that are screened.
pub open spec fn is_eligible(message: InboundMessage, policy: Policy) -> bool {
    policy.eligible_users@.contains(message.author)
}

/// Whether `message` is answered with the reaction on a listed phrase.
pub open spec fn is_gif(message: InboundMessage, policy: Policy) -> bool {
    message.guild == Some(GIF_GUILD) && phrase_listed(policy.gifs@, message.content@)
}

/// When a time-out ends that is imposed for a message written at
/// `timestamp`: [`TIMEOUT_SECONDS`] later, if that can be written in
/// milliseconds.
pub open spec fn timeout_due(timestamp: i64) -> Option<i64> {
    let due = timestamp + TIMEOUT_SECONDS;
    if -LATEST_IN_MILLISECONDS <= due <= LATEST_IN_MILLISECONDS {
        Some(due as i64)
    } else {
        None
    }
}

/// The end of a time-out that is due at `due`, if there is such a time and
/// it was accepted.
pub open spec fn accepted_end(due: Option<i64>, accepted: bool) -> Option<i64> {
    if accepted {
        due
    } else {
        None
    }
}

/// The end of the time-out for a message written at `timestamp`, if there
/// is a time at which it is due and the gateway library accepts that time.
pub open spec fn timeout_end_of(timestamp: i64) -> Option<i64> {
    match timeout_due(timestamp) {
        Some(due) => accepted_end(Some(due), timestamp_accepted(due)),
        None => None,
    }
}

/// What follows once the member is found: the time-out until `until`, or
/// the end of the handling where there is no such time.
pub open spec fn barred(until: Option<i64>) -> Transition {
    match until {
        Some(until) => Transition { stage: Stage::Timeout, action: Action::Timeout { until } },
        None => finished(),
    }
}

/// The end of the handling.
pub open spec fn finished() -> Transition {
    Transition { stage: Stage::Idle, action: Action::Finish }
}

/// The warning reaction.
pub open spec fn warned() -> Transition {
    Transition {
        stage: Stage::WarningReaction,
        action: Action::React(Emoji::Unicode(WARNING_EMOJI)),
    }
}

/// The screening of a message: nothing for an author who is not eligible;
/// the warning where a flagged pattern is found; else the question to the
/// classifier.
pub open spec fn screened(message: InboundMessage, policy: Policy) -> Transition {
    if !is_eligible(message, policy) {
        finished()
    } else if any_pattern_found(policy.patterns@, message.content@) {
        warned()
    } else {
        Transition { stage: Stage::Classification, action: Action::Classify }
    }
}

/// `transition`, with the counts left as they are.
pub open spec fn keeping(transition: Transition, counts: Counts) -> Outcome {
    Outcome { stage: transition.stage, action: transition.action, counts }
}

/// The end of the handling, with the counts left as they are.
pub open spec fn halt(counts: Counts) -> Outcome {
    keeping(finished(), counts)
}

/// What follows from `event` at `stage`. An event that the stage does not
/// wait for ends the handling.
pub open spec fn next(
    stage: Stage,
    event: Event,
    message: InboundMessage,
    policy: Policy,
    counts: Counts,
) -> Outcome {
    match (stage, event) {
        (Stage::Received, Event::Arrived) => {
            if message.guild is None {
                halt(counts)
            } else if is_gif(message, policy) {
                Outcome {
                    stage: Stage::GifReaction,
                    action: Action::React(Emoji::Custom(GIF_EMOJI)),
                    counts,
                }
            } else {
                keeping(screened(message, policy), counts)
            }
        },
        (Stage::GifReaction, Event::Completed(_)) => keeping(screened(message, policy), counts),
        (Stage::Classification, Event::Classified(outcome)) => {
            if verdict_of(outcome, policy.threshold) is Flagged {
                keeping(warned(), counts)
            } else {
                halt(counts)
            }
        },
        (Stage::WarningReaction, Event::Completed(_)) => {
            match decide(counts, message.author) {
                EscalationDecision::Escalate => Outcome {
                    stage: Stage::Reply,
                    action: Action::Reply,
                    counts: record(counts, message.author),
                },
                EscalationDecision::Continue => halt(record(counts, message.author)),
            }
        },
        (Stage::Reply, Event::Completed(true)) => Outcome {
            stage: Stage::MemberLookup,
            action: Action::FindMember,
            counts,
        },
        (Stage::MemberLookup, Event::Completed(true)) => keeping(
            barred(timeout_end_of(message.timestamp)),
            counts,
        ),
        _ => halt(counts),
    }
}

/// The place of a stage in the order of the handling.
pub open spec fn rank(stage: Stage) -> nat {
    match stage {
        Stage::Received => 0,
        Stage::GifReaction => 1,
        Stage::Classification => 2,
        Stage::WarningReaction => 3,
        Stage::Reply => 4,
        Stage::MemberLookup => 5,
        Stage::Timeout => 6,
        Stage::Idle => 7,
    }
}

/// The handling of a message over a course of events: the stage that is
/// reached from `stage`, the actions that were asked for, one for each
/// event, and the counts that are left.
pub open spec fn run(
    stage: Stage,
    events: Seq<Event>,
    message: InboundMessage,
    policy: Policy,
    counts: Counts,
) -> (Stage, Seq<Action>, Counts)
    decreases events.len(),
{
    if events.len() == 0 {
        (stage, Seq::empty(), counts)
    } else {
        let before = run(stage, events.drop_last(), message, policy, counts);
        let last = next(before.0, events.last(), message, policy, before.2);
        (last.stage, before.1.push(last.action), last.counts)
    }
}

/// Whether `message` is flagged on its arrival: it comes from a guild, is
/// not answered as a listed phrase, its author is eligible, and a flagged
/// pattern is found in it.
pub open spec fn flagged_on_arrival(message: InboundMessage, policy: Policy) -> bool {
    &&& message.guild is Some
    &&& !is_gif(message, policy)
    &&& is_eligible(message, policy)
    &&& any_pattern_found(policy.patterns@, message.content@)
}

/// Where the handling of `message` stands once it has arrived and the
/// reaction to it is over, with or without success.
pub open spec fn after_reaction(
    message: InboundMessage,
    policy: Policy,
    counts: Counts,
    reacted: bool,
) -> Outcome {
    let arrived = next(Stage::Received, Event::Arrived, message, policy, counts);
    next(arrived.stage, Event::Completed(reacted), message, policy, arrived.counts)
}

/// Tests whether `user` is among `users`.
pub fn contains_user(users: &Vec<u64>, user: u64) -> (found: bool)
    ensures
        found == users@.contains(user),
{
    let mut i: usize = 0;
    while i < users.len()
        invariant
            i <= users.len(),
            forall|j: int| 0 <= j < i ==> users@[j] != user,
        decreases users.len() - i,
    {
        if users[i] == user {
            return true;
        }
        i += 1;
    }
    false
}

/// Asks the gateway library whether it can write the time `seconds`.
///
/// Calls `serenity::model::Timestamp::from_unix_timestamp` and reports
/// whether it returned `Ok`. That function multiplies its argument by a
/// thousand before anything else, hence the bounds. Nothing is claimed of
/// which times are accepted, only that the answer depends on the time
/// alone.
#[verifier::external_body]
fn timestamp_is_accepted(seconds: i64) -> (accepted: bool)
    requires
        -LATEST_IN_MILLISECONDS <= seconds <= LATEST_IN_MILLISECONDS,
    ensures
        accepted == timestamp_accepted(seconds),
{
    Timestamp::from_unix_timestamp(seconds).is_ok()
}

/// Computes when a time-out is due that is imposed for a message written
/// at `timestamp`.
pub fn due_time(timestamp: i64) -> (due: Option<i64>)
    ensures
        due == timeout_due(timestamp),
{
    if timestamp <= LATEST_IN_MILLISECONDS - TIMEOUT_SECONDS && timestamp
        >= -LATEST_IN_MILLISECONDS - TIMEOUT_SECONDS {
        Some(timestamp + TIMEOUT_SECONDS)
    } else {
        None
    }
}

/// The end of a time-out that is due at `due`: that time if there is one
/// and it was accepted, else none.
pub fn end_if_accepted(due: Option<i64>, accepted: bool) -> (until: Option<i64>)
    ensures
        until == accepted_end(due, accepted),
{
    if accepted {
        due
    } else {
        None
    }
}

/// Computes the end of the time-out for a message written at `timestamp`:
/// the time at which it is due, if there is one and the gateway library
/// accepts it.
pub fn timeout_end(timestamp: i64) -> (until: Option<i64>)
    ensures
        until == timeout_end_of(timestamp),
{
    match due_time(timestamp) {
        Some(due) => end_if_accepted(Some(due), timestamp_is_accepted(due)),
        None => None,
    }
}

/// The transition that follows once the member is found: to the time-out
/// until `until`, or to the end of the handling where there is no such
/// time.
pub fn bar_member(until: Option<i64>) -> (transition: Transition)
    ensures
        transition == barred(until),
{
    match until {
        Some(until) => Transition { stage: Stage::Timeout, action: Action::Timeout { until } },
        None => finish(),
    }
}

fn finish() -> (transition: Transition)
    ensures
        transition == finished(),
{
    Transition { stage: Stage::Idle, action: Action::Finish }
}

fn warning() -> (transition: Transition)
    ensures
        transition == warned(),
{
    Transition {
        stage: Stage::WarningReaction,
        action: Action::React(Emoji::Unicode(WARNING_EMOJI)),
    }
}

/// Screens a message: nothing is done for an author who is not eligible;
/// the warning follows where a flagged pattern is found; else the
/// classifier is asked.
pub fn screen(message: &InboundMessage, policy: &Policy) -> (transition: Transition)
    ensures
        transition == screened(*message, *policy),
{
    if !contains_user(&policy.eligible_users, message.author) {
        finish()
    } else if policy.patterns.is_match(message.content.as_str()) {
        warning()
    } else {
        Transition { stage: Stage::Classification, action: Action::Classify }
    }
}

/// Takes one step in the handling of `message`: from `stage`, on `event`,
/// to the stage and the action that are returned. A violation is recorded
/// in `tracker` in one step only, the one that follows the warning
/// reaction.
pub fn step(
    stage: Stage,
    event: Event,
    message: &InboundMessage,
    policy: &Policy,
    tracker: &mut ViolationTracker,
) -> (transition: Transition)
    requires
        old(tracker).wf(),
    ensures
        final(tracker).wf(),
        transition.stage == next(stage, event, *message, *policy, old(tracker)@).stage,
        transition.action == next(stage, event, *message, *policy, old(tracker)@).action,
        final(tracker)@ == next(stage, event, *message, *policy, old(tracker)@).counts,
{
    match stage {
        Stage::Received => match event {
            Event::Arrived => {
                match message.guild {
                    None => finish(),
                    Some(guild) => {
                        if guild == GIF_GUILD && policy.gifs.contains(message.content.as_str()) {
                            Transition {
                                stage: Stage::GifReaction,
                                action: Action::React(Emoji::Custom(GIF_EMOJI)),
                            }
                        } else {
                            screen(message, policy)
                        }
                    },
                }
            },
            _ => finish(),
        },
        Stage::GifReaction => match event {
            Event::Completed(_) => screen(message, policy),
            _ => finish(),
        },
        Stage::Classification => match event {
            Event::Classified(outcome) => {
                match assess(&outcome, policy.threshold) {
                    Verdict::Flagged(_) => warning(),
                    _ => finish(),
                }
            },
            _ => finish(),
        },
        Stage::WarningReaction => match event {
            Event::Completed(_) => {
                match tracker.record_violation(message.author) {
                    EscalationDecision::Escalate => Transition {
                        stage: Stage::Reply,
                        action: Action::Reply,
                    },
                    EscalationDecision::Continue => finish(),
                }
            },
            _ => finish(),
        },
        Stage::Reply => match event {
            Event::Completed(true) => Transition {
                stage: Stage::MemberLookup,
                action: Action::FindMember,
            },
            _ => finish(),
        },
        Stage::MemberLookup => match event {
            Event::Completed(true) => bar_member(timeout_end(message.timestamp)),
            _ => finish(),
        },
        Stage::Timeout => finish(),
        Stage::Idle => finish(),
    }
}

/// Every step moves the handling forward in the order of the stages, or
/// ends it; and the action is to finish exactly when it has ended.
pub proof fn lemma_stage_advances(
    stage: Stage,
    event: Event,
    message: InboundMessage,
    policy: Policy,
    counts: Counts,
)
    ensures
        ({
            let outcome = next(stage, event, message, policy, counts);
            &&& outcome.stage == Stage::Idle || rank(outcome.stage) > rank(stage)
            &&& outcome.action == Action::Finish <==> outcome.stage == Stage::Idle
        }),
{
}

/// A step changes the counts only after the warning reaction, and then by
/// one violation of the author.
pub proof fn lemma_counted_after_warning_only(
    stage: Stage,
    event: Event,
    message: InboundMessage,
    policy: Policy,
    counts: Counts,
)
    ensures
        ({
            let outcome = next(stage, event, message, policy, counts);
            if stage == Stage::WarningReaction && event is Completed {
                outcome.counts == record(counts, message.author)
            } else {
                outcome.counts == counts
            }
        }),
{
}

/// Only a score that reaches the threshold flags a message: where the
/// classifier failed, left the score out or scored below the threshold, the
/// handling ends with nothing done and nothing counted.
pub proof fn lemma_only_a_reached_threshold_flags(
    outcome: Result<AnalyzeCommentResponse, ClassifierError>,
    message: InboundMessage,
    policy: Policy,
    counts: Counts,
)
    ensures
        ({
            let after = next(
                Stage::Classification,
                Event::Classified(outcome),
                message,
                policy,
                counts,
            );
            &&& after.counts == counts
            &&& after.action == Action::React(Emoji::Unicode(WARNING_EMOJI)) <==> (outcome is Ok
                && outcome->Ok_0.score_value(PROFANITY@) is Some && outcome->Ok_0.score_value(
                PROFANITY@,
            )->0.reaches(policy.threshold))
            &&& after.action != Action::React(Emoji::Unicode(WARNING_EMOJI)) ==> after.action
                == Action::Finish
        }),
{
}

/// The handling of a message is over after seven events at most.
pub proof fn lemma_handling_ends(
    events: Seq<Event>,
    message: InboundMessage,
    policy: Policy,
    counts: Counts,
)
    ensures
        ({
            let reached = run(Stage::Received, events, message, policy, counts).0;
            reached == Stage::Idle || rank(reached) >= events.len()
        }),
        events.len() >= 7 ==> run(Stage::Received, events, message, policy, counts).0
            == Stage::Idle,
    decreases events.len(),
{
    if events.len() > 0 {
        lemma_handling_ends(events.drop_last(), message, policy, counts);
        let before = run(Stage::Received, events.drop_last(), message, policy, counts);
        lemma_stage_advances(before.0, events.last(), message, policy, before.2);
    }
}

/// A message of a user who is not eligible is never screened: whatever
/// happens, no warning reaction, no question to the classifier, no reply,
/// lookup or time-out is asked for, and no count changes. Unless the
/// message is answered as a listed phrase, nothing at all is asked for.
pub proof fn lemma_ineligible_never_screened(
    events: Seq<Event>,
    message: InboundMessage,
    policy: Policy,
    counts: Counts,
)
    requires
        !is_eligible(message, policy),
    ensures
        ({
            let (reached, actions, left) = run(Stage::Received, events, message, policy, counts);
            &&& left == counts
            &&& reached == Stage::Received || reached == Stage::GifReaction || reached
                == Stage::Idle
            &&& actions.len() == events.len()
            &&& forall|i: int|
                0 <= i < actions.len() ==> #[trigger] actions[i] == Action::Finish || actions[i]
                    == Action::React(Emoji::Custom(GIF_EMOJI))
            &&& !is_gif(message, policy) ==> (reached == Stage::Received || reached
                == Stage::Idle) && forall|i: int|
                0 <= i < actions.len() ==> #[trigger] actions[i] == Action::Finish
        }),
    decreases events.len(),
{
    if events.len() > 0 {
        lemma_ineligible_never_screened(events.drop_last(), message, policy, counts);
    }
}

/// A message that is flagged on its arrival is answered with the warning
/// reaction and then counted, whether or not the reaction succeeded. The
/// reply follows exactly where the count calls for an escalation.
pub proof fn lemma_flagged_message_counted(
    message: InboundMessage,
    policy: Policy,
    counts: Counts,
    reacted: bool,
)
    requires
        flagged_on_arrival(message, policy),
    ensures
        next(Stage::Received, Event::Arrived, message, policy, counts).action == Action::React(
            Emoji::Unicode(WARNING_EMOJI),
        ),
        after_reaction(message, policy, counts, reacted).counts == record(counts, message.author),
        after_reaction(message, policy, counts, reacted).action == match decide(
            counts,
            message.author,
        ) {
            EscalationDecision::Escalate => Action::Reply,
            EscalationDecision::Continue => Action::Finish,
        },
{
}

/// Three flagged messages of one user whose count was zero: each is
/// answered with the warning reaction, and whether the reactions succeed
/// does not count; the handling of the first two ends there; the third is
/// followed by the reply, the lookup, and, where its end can be written,
/// one time-out that ends [`TIMEOUT_SECONDS`] after the third message was
/// written; and the count is zero again.
pub proof fn lemma_third_flagged_message_escalates(
    first: InboundMessage,
    second: InboundMessage,
    third: InboundMessage,
    policy: Policy,
    counts: Counts,
    reacted: (bool, bool, bool),
)
    requires
        crate::tracker::counts_valid(counts),
        counts[first.author] == 0,
        first.author == second.author,
        second.author == third.author,
        flagged_on_arrival(first, policy),
        flagged_on_arrival(second, policy),
        flagged_on_arrival(third, policy),
    ensures
        ({
            let one = after_reaction(first, policy, counts, reacted.0);
            let two = after_reaction(second, policy, one.counts, reacted.1);
            let three = after_reaction(third, policy, two.counts, reacted.2);
            let replied = next(three.stage, Event::Completed(true), third, policy, three.counts);
            let found = next(replied.stage, Event::Completed(true), third, policy, replied.counts);
            let barred = next(found.stage, Event::Completed(true), third, policy, found.counts);
            &&& one.action == Action::Finish
            &&& two.action == Action::Finish
            &&& three.action == Action::Reply
            &&& replied.action == Action::FindMember
            &&& match timeout_end_of(third.timestamp) {
                Some(until) => until == third.timestamp + TIMEOUT_SECONDS && found.action
                    == (Action::Timeout { until }),
                None => found.action == Action::Finish,
            }
            &&& barred.action == Action::Finish
            &&& barred.counts[third.author] == 0
        }),
{
    let author = first.author;
    crate::tracker::lemma_record_times(counts, author, 1);
    crate::tracker::lemma_record_times(counts, author, 2);
    crate::tracker::lemma_record_times(counts, author, 3);
    lemma_flagged_message_counted(first, policy, counts, reacted.0);
    let one = after_reaction(first, policy, counts, reacted.0);
    lemma_flagged_message_counted(second, policy, one.counts, reacted.1);
    let two = after_reaction(second, policy, one.counts, reacted.1);
    lemma_flagged_message_counted(third, policy, two.counts, reacted.2);
}

} // verus!
