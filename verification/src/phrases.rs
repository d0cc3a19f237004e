//! Exact comparison of message text with a fixed list of phrases.
//!
//! This detector stands apart from the search for flagged patterns: it
//! keeps no count and flags nobody. A message is listed where its text,
//! without the whitespace around it, is not empty and is one of the
//! phrases, character for character.

use crate::text::{same_chars, texts_of, texts_of_chars, to_chars, trim, trimmed};
use vstd::prelude::*;

verus! {

/// Whether `text`, trimmed, is a phrase of `phrases` and not empty.
pub open spec fn phrase_listed(phrases: Seq<Seq<char>>, text: Seq<char>) -> bool {
    trimmed(text).len() > 0 && phrases.contains(trimmed(text))
}

/// A list of phrases, loaded once and used for every message.
pub struct PhraseList {
    phrases: Vec<Vec<char>>,
}

impl View for PhraseList {
    type V = Seq<Seq<char>>;

    /// The phrases, in order.
    closed spec fn view(&self) -> Seq<Seq<char>> {
        texts_of_chars(self.phrases@)
    }
}

impl PhraseList {
    /// The list of `phrases`.
    pub fn new(phrases: Vec<String>) -> (list: Self)
        ensures
            list@ == texts_of(phrases@),
    {
        let mut chars: Vec<Vec<char>> = Vec::new();
        let mut i: usize = 0;
        while i < phrases.len()
            invariant
                i <= phrases.len(),
                chars.len() == i,
                forall|j: int| 0 <= j < i ==> (#[trigger] chars[j])@ == phrases[j]@,
            decreases phrases.len() - i,
        {
            chars.push(to_chars(phrases[i].as_str()));
            i += 1;
        }
        assert(texts_of_chars(chars@) =~= texts_of(phrases@));
        PhraseList { phrases: chars }
    }

    /// The list of phrases that are given as lists of characters.
    pub fn from_chars(phrases: Vec<Vec<char>>) -> (list: Self)
        ensures
            list@ == texts_of_chars(phrases@),
    {
        PhraseList { phrases }
    }

    /// The number of phrases.
    pub fn len(&self) -> (len: usize)
        ensures
            len == self@.len(),
    {
        self.phrases.len()
    }

    /// Whether `text` is listed.
    pub fn contains(&self, text: &str) -> (listed: bool)
        ensures
            listed == phrase_listed(self@, text@),
    {
        let wanted = trim(text);
        if wanted.len() == 0 {
            return false;
        }
        let mut i: usize = 0;
        while i < self.phrases.len()
            invariant
                i <= self.phrases.len(),
                wanted@ == trimmed(text@),
                wanted@.len() > 0,
                self@.len() == self.phrases.len(),
                forall|j: int| 0 <= j < i ==> self@[j] != wanted@,
            decreases self.phrases.len() - i,
        {
            if same_chars(&self.phrases[i], &wanted) {
                assert(self@[i as int] == wanted@);
                return true;
            }
            i += 1;
        }
        false
    }
}

/// Whitespace around a text does not count.
pub proof fn lemma_listing_ignores_surrounding_whitespace(phrases: Seq<Seq<char>>, text: Seq<char>)
    ensures
        phrase_listed(phrases, text) == phrase_listed(phrases, trimmed(text)),
{
    crate::text::lemma_trimmed_idempotent(text);
}

} // verus!
