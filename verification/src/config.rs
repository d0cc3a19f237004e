//! What is read once when the process starts: the secrets and the three
//! lists.
//!
//! Each list is a text with one entry to a line. The list of eligible users
//! holds decimal user identifiers; a line that is not one is passed over.

use crate::matcher::PatternMatcher;
use crate::phrases::PhraseList;
use crate::pipeline::Policy;
use crate::score::Score;
use crate::text::{lines_of, split_lines};
use vstd::prelude::*;

verus! {

/// The name under which the gateway token is kept.
pub const DISCORD_TOKEN: &'static str = "DISCORD_TOKEN";

/// The name under which the classifier's API key is kept.
pub const GOOGLE_API_KEY: &'static str = "GOOGLE_API_KEY";

/// The secrets without which the process does not start.
#[derive(Debug)]
pub struct Secrets {
    pub discord_token: String,
    pub google_api_key: String,
}

/// A secret that is missing when the process starts.
#[derive(Debug, Clone, Copy, PartialEq, Eq, Structural)]
pub enum StartupConfigError {
    /// The gateway token was not found.
    MissingDiscordToken,
    /// The classifier's API key was not found.
    MissingGoogleApiKey,
}

impl StartupConfigError {
    /// The name of the secret that is missing.
    pub fn secret_name(&self) -> (name: &'static str)
        ensures
            name@ == match *self {
                StartupConfigError::MissingDiscordToken => DISCORD_TOKEN@,
                StartupConfigError::MissingGoogleApiKey => GOOGLE_API_KEY@,
            },
    {
        match self {
            StartupConfigError::MissingDiscordToken => DISCORD_TOKEN,
            StartupConfigError::MissingGoogleApiKey => GOOGLE_API_KEY,
        }
    }
}

/// Whether `c` is a decimal digit.
pub open spec fn is_digit(c: char) -> bool {
    '0' <= c && c <= '9'
}

/// The number that the decimal digits `digits` write.
pub open spec fn decimal_value(digits: Seq<char>) -> nat
    decreases digits.len(),
{
    if digits.len() == 0 {
        0
    } else {
        10 * decimal_value(digits.drop_last()) + ((digits.last() as u32) - ('0' as u32)) as nat
    }
}

/// The digits of a line that may begin with a plus sign.
pub open spec fn unsigned_part(line: Seq<char>) -> Seq<char> {
    if line.len() > 0 && line[0] == '+' {
        line.drop_first()
    } else {
        line
    }
}

/// The user identifier that `line` writes: one or more decimal digits,
/// with or without a plus sign before them, whose number fits in 64 bits.
/// Anything else, be it only a space, writes none.
pub open spec fn user_id_of(line: Seq<char>) -> Option<u64> {
    let digits = unsigned_part(line);
    if digits.len() > 0 && (forall|i: int| 0 <= i < digits.len() ==> is_digit(#[trigger] digits[i]))
        && decimal_value(digits) <= u64::MAX {
        Some(decimal_value(digits) as u64)
    } else {
        None
    }
}

/// The user identifiers that `lines` write, in order.
pub open spec fn user_ids_of(lines: Seq<Seq<char>>) -> Seq<u64> {
    lines.filter_map(|line: Seq<char>| user_id_of(line))
}

/// A number does not shrink when more digits are written behind it.
pub proof fn lemma_decimal_value_grows(digits: Seq<char>, upto: int)
    requires
        0 <= upto <= digits.len(),
    ensures
        decimal_value(digits.take(upto)) <= decimal_value(digits),
    decreases digits.len(),
{
    if upto < digits.len() {
        lemma_decimal_value_grows(digits.drop_last(), upto);
        assert(digits.drop_last().take(upto) =~= digits.take(upto));
    } else {
        assert(digits.take(upto) =~= digits);
    }
}

/// Hands the secrets on if both are there, and names the first that is
/// not.
pub fn require_secrets(discord_token: Option<String>, google_api_key: Option<String>) -> (secrets:
    Result<Secrets, StartupConfigError>)
    ensures
        match secrets {
            Ok(found) => discord_token == Some(found.discord_token) && google_api_key == Some(
                found.google_api_key,
            ),
            Err(StartupConfigError::MissingDiscordToken) => discord_token is None,
            Err(StartupConfigError::MissingGoogleApiKey) => discord_token is Some
                && google_api_key is None,
        },
{
    match discord_token {
        None => Err(StartupConfigError::MissingDiscordToken),
        Some(discord_token) => match google_api_key {
            None => Err(StartupConfigError::MissingGoogleApiKey),
            Some(google_api_key) => Ok(Secrets { discord_token, google_api_key }),
        },
    }
}

/// Reads a user identifier from a line.
pub fn parse_user_id(line: &Vec<char>) -> (id: Option<u64>)
    ensures
        id == user_id_of(line@),
{
    let first: usize = if line.len() > 0 && line[0] == '+' {
        1
    } else {
        0
    };
    let ghost digits = unsigned_part(line@);
    assert(digits =~= line@.skip(first as int));
    if first == line.len() {
        return None;
    }
    let mut value: u64 = 0;
    let mut i: usize = first;
    assert(digits.take(0) =~= Seq::<char>::empty());
    while i < line.len()
        invariant
            first <= i <= line.len(),
            digits == line@.skip(first as int),
            digits == unsigned_part(line@),
            forall|j: int| 0 <= j < i - first ==> is_digit(#[trigger] digits[j]),
            value == decimal_value(digits.take(i - first)),
        decreases line.len() - i,
    {
        let c = line[i];
        assert(c == digits[i - first]);
        if !('0' <= c && c <= '9') {
            assert(!is_digit(digits[i - first]));
            return None;
        }
        let digit: u64 = (c as u32 - '0' as u32) as u64;
        proof {
            let seen = digits.take(i - first + 1);
            assert(seen.drop_last() =~= digits.take(i - first));
            assert(seen.last() == c);
            lemma_decimal_value_grows(digits, i - first + 1);
        }
        if value > (u64::MAX - digit) / 10 {
            assert(decimal_value(digits.take(i - first + 1)) > u64::MAX);
            return None;
        }
        value = value * 10 + digit;
        i += 1;
    }
    assert(digits.take(i - first) =~= digits);
    Some(value)
}

/// Reads the list of eligible users: the identifiers that the lines of
/// `text` write.
pub fn parse_user_ids(text: &str) -> (ids: Vec<u64>)
    ensures
        ids@ == user_ids_of(lines_of(text@)),
{
    let lines = split_lines(text);
    let ghost texts = lines_of(text@);
    let mut ids: Vec<u64> = Vec::new();
    let mut i: usize = 0;
    assert(texts.take(0) =~= Seq::<Seq<char>>::empty());
    while i < lines.len()
        invariant
            i <= lines.len(),
            texts == lines_of(text@),
            texts.len() == lines.len(),
            forall|j: int| 0 <= j < lines.len() ==> (#[trigger] lines[j])@ == texts[j],
            ids@ == user_ids_of(texts.take(i as int)),
        decreases lines.len() - i,
    {
        proof {
            texts.lemma_filter_map_take_succ(|line: Seq<char>| user_id_of(line), i as int);
        }
        match parse_user_id(&lines[i]) {
            Some(id) => {
                ids.push(id);
            },
            None => {},
        }
        i += 1;
    }
    assert(texts.take(i as int) =~= texts);
    ids
}

/// Reads the policy from the three lists: the eligible users, the flagged
/// patterns and the phrases that are answered with a reaction, each with
/// one entry to a line.
pub fn load_policy(users: &str, patterns: &str, gifs: &str, threshold: Score) -> (policy: Policy)
    ensures
        policy.eligible_users@ == user_ids_of(lines_of(users@)),
        policy.patterns@ == lines_of(patterns@),
        policy.gifs@ == lines_of(gifs@),
        policy.threshold == threshold,
{
    Policy {
        eligible_users: parse_user_ids(users),
        patterns: PatternMatcher::from_chars(split_lines(patterns)),
        gifs: PhraseList::from_chars(split_lines(gifs)),
        threshold,
    }
}

} // verus!
