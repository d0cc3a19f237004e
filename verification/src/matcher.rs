//! Search of message text for a fixed list of flagged patterns.
//!
//! A pattern matches where it occurs as a substring of the text once the
//! whitespace is taken out of the text; the case of ASCII letters counts
//! on neither side. A pattern is not stripped of whitespace, and the empty
//! pattern occurs in every text.

use crate::text::{
    fold, fold_chars, fold_text, lemma_normalized_is_normal, lemma_normalized_joins, normalize,
    normalized, strip_whitespace, texts_of, texts_of_chars,
};
use vstd::prelude::*;

verus! {

/// Whether `needle` stands in `hay` at position `at`.
pub open spec fn occurs_at(hay: Seq<char>, needle: Seq<char>, at: int) -> bool {
    &&& 0 <= at
    &&& at + needle.len() <= hay.len()
    &&& hay.subrange(at, at + needle.len()) == needle
}

/// Whether `needle` is a substring of `hay`.
pub open spec fn occurs_in(hay: Seq<char>, needle: Seq<char>) -> bool {
    exists|at: int| occurs_at(hay, needle, at)
}

/// Whether `pattern` is found in `text`.
pub open spec fn pattern_found(pattern: Seq<char>, text: Seq<char>) -> bool {
    occurs_in(normalized(text), fold(pattern))
}

/// Whether any of `patterns` is found in `text`.
pub open spec fn any_pattern_found(patterns: Seq<Seq<char>>, text: Seq<char>) -> bool {
    exists|i: int| 0 <= i < patterns.len() && pattern_found(#[trigger] patterns[i], text)
}

/// Tests whether `needle` stands in `hay` at position `at`.
pub fn stands_at(hay: &Vec<char>, needle: &Vec<char>, at: usize) -> (found: bool)
    ensures
        found == occurs_at(hay@, needle@, at as int),
{
    if needle.len() > hay.len() || at > hay.len() - needle.len() {
        return false;
    }
    let mut k: usize = 0;
    while k < needle.len()
        invariant
            k <= needle.len(),
            at + needle.len() <= hay.len(),
            forall|j: int| 0 <= j < k ==> hay@[at + j] == needle@[j],
        decreases needle.len() - k,
    {
        if hay[at + k] != needle[k] {
            assert(hay@.subrange(at as int, at + needle.len())[k as int] != needle@[k as int]);
            return false;
        }
        k += 1;
    }
    assert(hay@.subrange(at as int, at + needle.len()) =~= needle@);
    true
}

/// Tests whether `needle` is a substring of `hay`. Stops at the first
/// position at which it stands.
pub fn occurs(hay: &Vec<char>, needle: &Vec<char>) -> (found: bool)
    ensures
        found == occurs_in(hay@, needle@),
{
    if needle.len() > hay.len() {
        return false;
    }
    let last: usize = hay.len() - needle.len();
    let mut at: usize = 0;
    loop
        invariant
            last == hay.len() - needle.len(),
            at <= last,
            forall|before: int| 0 <= before < at ==> !occurs_at(hay@, needle@, before),
        decreases last - at,
    {
        if stands_at(hay, needle, at) {
            return true;
        }
        if at == last {
            return false;
        }
        at += 1;
    }
}

/// A list of flagged patterns, prepared once and used for every message.
pub struct PatternMatcher {
    folded: Vec<Vec<char>>,
    given: Ghost<Seq<Seq<char>>>,
}

impl View for PatternMatcher {
    type V = Seq<Seq<char>>;

    /// The patterns as they were given, in order.
    closed spec fn view(&self) -> Seq<Seq<char>> {
        self.given@
    }
}

impl PatternMatcher {
    #[verifier::type_invariant]
    spec fn folded_in_step(self) -> bool {
        &&& self.folded.len() == self.given@.len()
        &&& forall|i: int|
            0 <= i < self.given@.len() ==> (#[trigger] self.folded[i])@ == fold(self.given@[i])
    }

    /// Prepares the matcher for `patterns`.
    pub fn new(patterns: Vec<String>) -> (matcher: Self)
        ensures
            matcher@ == texts_of(patterns@),
    {
        let mut folded: Vec<Vec<char>> = Vec::new();
        let mut i: usize = 0;
        while i < patterns.len()
            invariant
                i <= patterns.len(),
                folded.len() == i,
                forall|j: int| 0 <= j < i ==> (#[trigger] folded[j])@ == fold(patterns[j]@),
            decreases patterns.len() - i,
        {
            folded.push(fold_text(patterns[i].as_str()));
            i += 1;
        }
        PatternMatcher { folded, given: Ghost(texts_of(patterns@)) }
    }

    /// Prepares the matcher for patterns that are given as lists of
    /// characters.
    pub fn from_chars(patterns: Vec<Vec<char>>) -> (matcher: Self)
        ensures
            matcher@ == texts_of_chars(patterns@),
    {
        let mut folded: Vec<Vec<char>> = Vec::new();
        let mut i: usize = 0;
        while i < patterns.len()
            invariant
                i <= patterns.len(),
                folded.len() == i,
                forall|j: int| 0 <= j < i ==> (#[trigger] folded[j])@ == fold(patterns[j]@),
            decreases patterns.len() - i,
        {
            folded.push(fold_chars(&patterns[i]));
            i += 1;
        }
        PatternMatcher { folded, given: Ghost(texts_of_chars(patterns@)) }
    }

    /// The number of patterns.
    pub fn len(&self) -> (len: usize)
        ensures
            len == self@.len(),
    {
        proof {
            use_type_invariant(self);
        }
        self.folded.len()
    }

    /// Whether any pattern is found in `text`. Stops at the first pattern
    /// that is.
    pub fn is_match(&self, text: &str) -> (found: bool)
        ensures
            found == any_pattern_found(self@, text@),
    {
        proof {
            use_type_invariant(self);
        }
        let hay = normalize(text);
        let mut i: usize = 0;
        while i < self.folded.len()
            invariant
                i <= self.folded.len(),
                self.folded.len() == self@.len(),
                hay@ == normalized(text@),
                forall|j: int|
                    0 <= j < self@.len() ==> (#[trigger] self.folded[j])@ == fold(self@[j]),
                forall|j: int| 0 <= j < i ==> !pattern_found(#[trigger] self@[j], text@),
            decreases self.folded.len() - i,
        {
            if occurs(&hay, &self.folded[i]) {
                assert(pattern_found(self@[i as int], text@));
                return true;
            }
            i += 1;
        }
        false
    }
}

/// With no pattern, nothing is ever found.
pub proof fn lemma_no_patterns_no_match(text: Seq<char>)
    ensures
        !any_pattern_found(Seq::empty(), text),
{
}

/// Whitespace in the text does not count: a pattern is found in a text
/// exactly if it is found in the text without its whitespace.
pub proof fn lemma_match_ignores_whitespace(patterns: Seq<Seq<char>>, text: Seq<char>)
    ensures
        any_pattern_found(patterns, text) == any_pattern_found(patterns, strip_whitespace(text)),
{
    lemma_normalized_is_normal(text);
}

/// The case of ASCII letters does not count, neither in the text nor in a
/// pattern.
pub proof fn lemma_match_ignores_case(pattern: Seq<char>, text: Seq<char>)
    ensures
        pattern_found(pattern, text) == pattern_found(pattern, fold(text)),
        pattern_found(pattern, text) == pattern_found(fold(pattern), text),
{
    lemma_normalized_is_normal(text);
    lemma_normalized_is_normal(pattern);
}

/// A pattern is found wherever it stands in the text, whatever stands
/// before and behind it, word or not; and it may be spelled there in any
/// case and spaced out, as long as its searchable form is that of the
/// pattern.
pub proof fn lemma_found_within(
    pattern: Seq<char>,
    before: Seq<char>,
    spelled: Seq<char>,
    behind: Seq<char>,
)
    requires
        normalized(spelled) == fold(pattern),
    ensures
        pattern_found(pattern, before + spelled + behind),
{
    lemma_normalized_joins(before + spelled, behind);
    lemma_normalized_joins(before, spelled);
    let hay = normalized(before + spelled + behind);
    let at = normalized(before).len() as int;
    assert(hay.subrange(at, at + fold(pattern).len()) =~= fold(pattern));
    assert(occurs_at(hay, fold(pattern), at));
}

} // verus!
