use chat_moderation::phrases::PhraseList;

fn list(phrases: &[&str]) -> PhraseList {
    PhraseList::new(phrases.iter().map(|phrase| phrase.to_string()).collect())
}

#[test]
fn exact_phrase_is_listed() {
    let list = list(&["https://example.com/a.gif", "https://example.com/b.gif"]);
    assert_eq!(list.len(), 2);
    assert!(list.contains("https://example.com/a.gif"));
    assert!(list.contains("https://example.com/b.gif"));
}

#[test]
fn surrounding_whitespace_does_not_count() {
    let list = list(&["https://example.com/a.gif"]);
    assert!(list.contains("  https://example.com/a.gif\n"));
    assert!(list.contains("\thttps://example.com/a.gif"));
}

#[test]
fn anything_else_is_not_listed() {
    let list = list(&["https://example.com/a.gif"]);
    assert!(!list.contains("https://example.com/a.gi"));
    assert!(!list.contains("https://example.com/a.gif?"));
    assert!(!list.contains("HTTPS://EXAMPLE.COM/A.GIF"));
    assert!(!list.contains("look: https://example.com/a.gif"));
    assert!(!list.contains("https://example.com /a.gif"));
}

#[test]
fn empty_text_is_never_listed() {
    let list = list(&["", "x"]);
    assert!(!list.contains(""));
    assert!(!list.contains("   "));
    assert!(list.contains("x"));
}

#[test]
fn empty_list_lists_nothing() {
    let list = list(&[]);
    assert_eq!(list.len(), 0);
    assert!(!list.contains("x"));
    assert!(!list.contains(""));
}

#[test]
fn list_from_chars_lists_alike() {
    let list = PhraseList::from_chars(vec!["one".chars().collect(), "two".chars().collect()]);
    assert_eq!(list.len(), 2);
    assert!(list.contains("one"));
    assert!(list.contains(" two "));
    assert!(!list.contains("three"));
}
