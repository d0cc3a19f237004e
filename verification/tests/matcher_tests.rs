use chat_moderation::matcher::{occurs, stands_at, PatternMatcher};

fn chars(text: &str) -> Vec<char> {
    text.chars().collect()
}

fn matcher(patterns: &[&str]) -> PatternMatcher {
    PatternMatcher::new(patterns.iter().map(|pattern| pattern.to_string()).collect())
}

#[test]
fn spaced_out_capitals_match() {
    let matcher = matcher(&["damn", "heck"]);
    assert!(matcher.is_match("D A M N!"));
}

#[test]
fn substring_matches_without_word_boundary() {
    let matcher = matcher(&["dread"]);
    assert!(matcher.is_match("dreadnought"));
}

#[test]
fn empty_pattern_list_never_matches() {
    let matcher = matcher(&[]);
    assert_eq!(matcher.len(), 0);
    assert!(!matcher.is_match("D A M N!"));
    assert!(!matcher.is_match("dreadnought"));
    assert!(!matcher.is_match(""));
}

#[test]
fn second_pattern_matches() {
    let matcher = matcher(&["damn", "heck"]);
    assert_eq!(matcher.len(), 2);
    assert!(matcher.is_match("what the heck"));
    assert!(matcher.is_match("HECK"));
    assert!(matcher.is_match("h\te\nc\u{A0}k"));
}

#[test]
fn clean_text_does_not_match() {
    let matcher = matcher(&["damn", "heck"]);
    assert!(!matcher.is_match("hello there"));
    assert!(!matcher.is_match("dam"));
    assert!(!matcher.is_match("hec"));
    assert!(!matcher.is_match(""));
    assert!(!matcher.is_match("d.a.m.n"));
}

#[test]
fn words_run_together_once_whitespace_is_gone() {
    let matcher = matcher(&["damn"]);
    assert!(matcher.is_match("ma dam nice"));
}

#[test]
fn pattern_case_does_not_count() {
    let matcher = matcher(&["DaMn"]);
    assert!(matcher.is_match("damn"));
    assert!(matcher.is_match("DAMN"));
    assert!(matcher.is_match("well dAmN it"));
}

#[test]
fn only_ascii_letters_are_folded() {
    let matcher = matcher(&["\u{E9}t\u{E9}"]);
    assert!(matcher.is_match("\u{E9}T\u{E9}"));
    assert!(!matcher.is_match("\u{C9}t\u{C9}"));
}

#[test]
fn pattern_with_whitespace_is_never_found() {
    let matcher = matcher(&["oh no"]);
    assert!(!matcher.is_match("oh no"));
    assert!(!matcher.is_match("ohno"));
}

#[test]
fn empty_pattern_is_found_everywhere() {
    let matcher = matcher(&[""]);
    assert!(matcher.is_match("anything"));
    assert!(matcher.is_match(""));
}

#[test]
fn matcher_from_chars_matches_alike() {
    let matcher = PatternMatcher::from_chars(vec![chars("Damn"), chars("heck")]);
    assert_eq!(matcher.len(), 2);
    assert!(matcher.is_match("D A M N!"));
    assert!(matcher.is_match("oh Heck"));
    assert!(!matcher.is_match("fine"));
}

#[test]
fn occurs_finds_substrings() {
    assert!(occurs(&chars("dreadnought"), &chars("dread")));
    assert!(occurs(&chars("dreadnought"), &chars("nought")));
    assert!(occurs(&chars("dreadnought"), &chars("adno")));
    assert!(occurs(&chars("dreadnought"), &chars("dreadnought")));
    assert!(occurs(&chars("dreadnought"), &chars("")));
    assert!(occurs(&chars(""), &chars("")));
    assert!(!occurs(&chars("dreadnought"), &chars("dreads")));
    assert!(!occurs(&chars("dreadnought"), &chars("dreadnoughts")));
    assert!(!occurs(&chars(""), &chars("a")));
    assert!(!occurs(&chars("aab"), &chars("aba")));
    assert!(occurs(&chars("aaab"), &chars("aab")));
}

#[test]
fn stands_at_checks_one_position() {
    let hay = chars("abcabc");
    assert!(stands_at(&hay, &chars("abc"), 0));
    assert!(stands_at(&hay, &chars("abc"), 3));
    assert!(!stands_at(&hay, &chars("abc"), 1));
    assert!(!stands_at(&hay, &chars("abc"), 4));
    assert!(!stands_at(&hay, &chars("abc"), 7));
    assert!(stands_at(&hay, &chars(""), 6));
    assert!(!stands_at(&hay, &chars(""), 7));
    assert!(!stands_at(&hay, &chars("abcabca"), 0));
    assert!(!stands_at(&hay, &chars("c"), usize::MAX));
}
