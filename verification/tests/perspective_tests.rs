use chat_moderation::perspective::{
    accept_reply, analyze_comment, assess, AnalyzeCommentResponse, AttributeScores,
    ClassifierError, PerspectiveAttributeScore, PerspectiveScore, Verdict, ANALYZE_ENDPOINT,
    PROFANITY,
};
use chat_moderation::score::Score;

fn score(value: f32) -> Score {
    Score::from_bits(value.to_bits())
}

fn attribute(summary_score: Option<PerspectiveScore>) -> PerspectiveAttributeScore {
    PerspectiveAttributeScore {
        summary_score,
        span_scores: None,
        languages: None,
        client_token: None,
    }
}

fn summary(value: Option<f32>) -> Option<PerspectiveScore> {
    Some(PerspectiveScore { value: value.map(score), type_: Some("PROBABILITY".to_string()) })
}

fn response(entries: Vec<(&str, PerspectiveAttributeScore)>) -> AnalyzeCommentResponse {
    let mut scores = AttributeScores::new();
    for (name, entry) in entries {
        scores.insert(name.to_string(), entry);
    }
    AnalyzeCommentResponse {
        attribute_scores: Some(scores),
        languages: Some(vec!["en".to_string()]),
        client_token: None,
    }
}

#[test]
fn profanity_score_is_unpacked() {
    let response = response(vec![("PROFANITY", attribute(summary(Some(0.82))))]);
    let value = response.unpack_score_value("PROFANITY");
    assert_eq!(value.map(|score| f32::from_bits(score.bits)), Some(0.82f32));
}

#[test]
fn missing_attribute_gives_none() {
    let response = response(vec![("TOXICITY", attribute(summary(Some(0.82))))]);
    assert_eq!(response.unpack_score_value("PROFANITY"), None);
    let empty = response_without_entries();
    assert_eq!(empty.unpack_score_value("PROFANITY"), None);
}

fn response_without_entries() -> AnalyzeCommentResponse {
    response(vec![])
}

#[test]
fn missing_value_gives_none() {
    let response = response(vec![("PROFANITY", attribute(summary(None)))]);
    assert_eq!(response.unpack_score_value("PROFANITY"), None);
}

#[test]
fn missing_summary_score_gives_none() {
    let response = response(vec![("PROFANITY", attribute(None))]);
    assert_eq!(response.unpack_score_value("PROFANITY"), None);
}

#[test]
fn missing_attribute_scores_give_none() {
    let response =
        AnalyzeCommentResponse { attribute_scores: None, languages: None, client_token: None };
    assert_eq!(response.unpack_score_value("PROFANITY"), None);
}

#[test]
fn attribute_names_are_compared_exactly() {
    let response = response(vec![
        ("TOXICITY", attribute(summary(Some(0.25)))),
        ("PROFANITY", attribute(summary(Some(0.5)))),
        ("INSULT", attribute(summary(Some(0.75)))),
    ]);
    assert_eq!(response.unpack_score_value("TOXICITY"), Some(score(0.25)));
    assert_eq!(response.unpack_score_value("PROFANITY"), Some(score(0.5)));
    assert_eq!(response.unpack_score_value("INSULT"), Some(score(0.75)));
    assert_eq!(response.unpack_score_value("profanity"), None);
    assert_eq!(response.unpack_score_value("PROFANITY "), None);
    assert_eq!(response.unpack_score_value(""), None);
}

#[test]
fn later_entry_replaces_earlier_one() {
    let mut scores = AttributeScores::new();
    assert!(scores.get("PROFANITY").is_none());
    scores.insert("PROFANITY".to_string(), attribute(summary(Some(0.1))));
    scores.insert("OTHER".to_string(), attribute(summary(Some(0.2))));
    scores.insert("PROFANITY".to_string(), attribute(summary(Some(0.9))));
    let found = scores.get("PROFANITY").and_then(|entry| entry.summary_score.as_ref());
    assert_eq!(found.and_then(|summary| summary.value), Some(score(0.9)));
    let other = scores.get("OTHER").and_then(|entry| entry.summary_score.as_ref());
    assert_eq!(other.and_then(|summary| summary.value), Some(score(0.2)));
    assert!(scores.get("MISSING").is_none());
}

#[test]
fn call_asks_for_profanity_of_the_comment() {
    let call = analyze_comment("SECRET", "some text");
    assert_eq!(
        call.url,
        "https://commentanalyzer.googleapis.com/v1alpha1/comments:analyze?key=SECRET"
    );
    assert_eq!(call.request.comment.text, "some text");
    assert_eq!(call.request.comment.type_, None);
    assert_eq!(call.request.requested_attributes.len(), 1);
    assert_eq!(call.request.requested_attributes[0].name, "PROFANITY");
    assert_eq!(call.request.requested_attributes[0].options.score_type, None);
    assert_eq!(call.request.requested_attributes[0].options.score_threshold, None);
}

#[test]
fn call_keeps_key_and_comment_as_given() {
    let call = analyze_comment("", "");
    assert_eq!(call.url, ANALYZE_ENDPOINT);
    assert_eq!(call.request.comment.text, "");
    let call = analyze_comment("a b&c", "D A M N!\n\u{203C}");
    assert_eq!(call.url, format!("{}a b&c", ANALYZE_ENDPOINT));
    assert_eq!(call.request.comment.text, "D A M N!\n\u{203C}");
    assert_eq!(call.request.requested_attributes[0].name, PROFANITY);
}

#[test]
fn successful_reply_counts() {
    for status in [200u16, 201, 204, 299] {
        let reply = accept_reply(status, Some(response(vec![(
            "PROFANITY",
            attribute(summary(Some(0.82))),
        )])));
        let value = reply.map(|response| response.unpack_score_value("PROFANITY"));
        assert_eq!(value, Ok(Some(score(0.82))), "{}", status);
    }
}

#[test]
fn other_status_is_an_error() {
    for status in [0u16, 100, 199, 300, 301, 400, 403, 404, 429, 500, 503, u16::MAX] {
        let reply = accept_reply(status, Some(response(vec![(
            "PROFANITY",
            attribute(summary(Some(0.82))),
        )])));
        assert_eq!(reply.err(), Some(ClassifierError {}), "{}", status);
    }
}

#[test]
fn unreadable_body_is_an_error() {
    assert_eq!(accept_reply(200, None).err(), Some(ClassifierError {}));
    assert_eq!(accept_reply(500, None).err(), Some(ClassifierError {}));
}

#[test]
fn verdict_flags_at_and_above_the_threshold() {
    let threshold = Score::flagging_threshold();
    let high = Ok(response(vec![("PROFANITY", attribute(summary(Some(0.82))))]));
    assert_eq!(assess(&high, threshold), Verdict::Flagged(score(0.82)));
    let exact = Ok(response(vec![("PROFANITY", attribute(summary(Some(0.7))))]));
    assert_eq!(assess(&exact, threshold), Verdict::Flagged(score(0.7)));
    let low = Ok(response(vec![("PROFANITY", attribute(summary(Some(0.69))))]));
    assert_eq!(assess(&low, threshold), Verdict::Below(score(0.69)));
    let half = Score::from_bits(0.5f32.to_bits());
    assert_eq!(assess(&low, half), Verdict::Flagged(score(0.69)));
}

#[test]
fn verdict_without_score_does_not_flag() {
    let threshold = Score::flagging_threshold();
    let absent = Ok(response(vec![("TOXICITY", attribute(summary(Some(0.99))))]));
    assert_eq!(assess(&absent, threshold), Verdict::Absent);
    let valueless = Ok(response(vec![("PROFANITY", attribute(summary(None)))]));
    assert_eq!(assess(&valueless, threshold), Verdict::Absent);
    let failed = Err(ClassifierError {});
    assert_eq!(assess(&failed, threshold), Verdict::Failed);
    let nan = Ok(response(vec![("PROFANITY", attribute(summary(Some(f32::NAN))))]));
    assert!(matches!(assess(&nan, threshold), Verdict::Below(_)));
}
