//! The text classifier: what is asked of it and what it answers.
//!
//! The request and the answer travel as JSON over HTTP. Sending, receiving
//! and the JSON itself are the caller's part; this module says what is
//! sent, which answers count, and what a counted answer holds.

use crate::score::Score;
use vstd::prelude::*;
use vstd::string::StringExecFns;

verus! {

/// The address of the classifier, up to the API key that ends it.
pub const ANALYZE_ENDPOINT: &'static str =
    "https://commentanalyzer.googleapis.com/v1alpha1/comments:analyze?key=";

/// The attribute whose score decides whether a message is flagged.
pub const PROFANITY: &'static str = "PROFANITY";

/// How long the caller waits for the classifier, in seconds. A call that
/// takes longer has failed.
pub const CLASSIFIER_TIMEOUT_SECONDS: u64 = 5;

/// A score with the kind of score it is.
#[derive(Debug)]
pub struct PerspectiveScore {
    pub value: Option<Score>,
    pub type_: Option<String>,
}

/// The score of one stretch of the text.
#[derive(Debug)]
pub struct PerspectiveSpanScore {
    pub begin: Option<usize>,
    pub end: Option<usize>,
    pub score: Option<PerspectiveScore>,
}

/// What the classifier says of one attribute.
#[derive(Debug)]
pub struct PerspectiveAttributeScore {
    pub summary_score: Option<PerspectiveScore>,
    pub span_scores: Option<Vec<PerspectiveSpanScore>>,
    pub languages: Option<Vec<String>>,
    pub client_token: Option<String>,
}

/// The map from attribute names to entries that `entries` stands for: of
/// two entries under one name, the later one counts.
pub open spec fn scores_by_name(entries: Seq<(String, PerspectiveAttributeScore)>) -> Map<
    Seq<char>,
    PerspectiveAttributeScore,
>
    decreases entries.len(),
{
    if entries.len() == 0 {
        Map::empty()
    } else {
        scores_by_name(entries.drop_last()).insert(entries.last().0@, entries.last().1)
    }
}

/// The attribute scores of an answer, by attribute name. Each name has at
/// most one score.
#[derive(Debug)]
pub struct AttributeScores {
    entries: Vec<(String, PerspectiveAttributeScore)>,
}

impl View for AttributeScores {
    type V = Map<Seq<char>, PerspectiveAttributeScore>;

    closed spec fn view(&self) -> Map<Seq<char>, PerspectiveAttributeScore> {
        scores_by_name(self.entries@)
    }
}

impl AttributeScores {
    /// No scores.
    pub fn new() -> (scores: Self)
        ensures
            scores@ == Map::<Seq<char>, PerspectiveAttributeScore>::empty(),
    {
        AttributeScores { entries: Vec::new() }
    }

    /// Sets the score of the attribute `name`, in place of any earlier one.
    pub fn insert(&mut self, name: String, score: PerspectiveAttributeScore)
        ensures
            final(self)@ == old(self)@.insert(name@, score),
    {
        self.entries.push((name, score));
        assert(self.entries@.drop_last() =~= old(self).entries@);
    }

    /// The scores with their names, as a list that stands for the same
    /// map: a later entry replaces an earlier one of the same name.
    pub fn into_entries(self) -> (entries: Vec<(String, PerspectiveAttributeScore)>)
        ensures
            scores_by_name(entries@) == self@,
    {
        self.entries
    }

    /// The score of the attribute `name`, if there is one.
    pub fn get(&self, name: &str) -> (found: Option<&PerspectiveAttributeScore>)
        ensures
            match found {
                Some(score) => self@.contains_key(name@) && *score == self@[name@],
                None => !self@.contains_key(name@),
            },
    {
        let wanted: String = name.to_owned();
        let mut i: usize = self.entries.len();
        assert(self.entries@.take(i as int) =~= self.entries@);
        while i > 0
            invariant
                i <= self.entries.len(),
                wanted@ == name@,
                scores_by_name(self.entries@.take(i as int)).contains_key(name@)
                    == scores_by_name(self.entries@).contains_key(name@),
                scores_by_name(self.entries@).contains_key(name@) ==> scores_by_name(
                    self.entries@.take(i as int),
                )[name@] == scores_by_name(self.entries@)[name@],
            decreases i,
        {
            proof {
                let upto = self.entries@.take(i as int);
                assert(upto.drop_last() =~= self.entries@.take(i - 1));
                assert(upto.last() == self.entries@[i - 1]);
            }
            i -= 1;
            if self.entries[i].0 == wanted {
                return Some(&self.entries[i].1);
            }
        }
        proof {
            assert(self.entries@.take(0).len() == 0);
        }
        None
    }
}

/// The answer of the classifier. Fields that the classifier sends and that
/// are not listed here are ignored.
#[derive(Debug)]
pub struct AnalyzeCommentResponse {
    pub attribute_scores: Option<AttributeScores>,
    pub languages: Option<Vec<String>>,
    pub client_token: Option<String>,
}

impl AnalyzeCommentResponse {
    /// The summary score of the attribute `attribute_name`: present where
    /// the answer holds scores, among them an entry under that name, in it
    /// a summary score, and in that a value.
    pub open spec fn score_value(&self, attribute_name: Seq<char>) -> Option<Score> {
        match self.attribute_scores {
            Some(scores) => if scores@.contains_key(attribute_name) {
                match scores@[attribute_name].summary_score {
                    Some(summary) => summary.value,
                    None => None,
                }
            } else {
                None
            },
            None => None,
        }
    }

    /// The summary score of the attribute `attribute_name`, or `None` where
    /// the answer does not hold it. A missing score is no error.
    pub fn unpack_score_value(&self, attribute_name: &str) -> (value: Option<Score>)
        ensures
            value == self.score_value(attribute_name@),
    {
        let scores = match &self.attribute_scores {
            Some(scores) => scores,
            None => {
                return None;
            },
        };
        let attribute_score = match scores.get(attribute_name) {
            Some(attribute_score) => attribute_score,
            None => {
                return None;
            },
        };
        match &attribute_score.summary_score {
            Some(summary) => summary.value,
            None => None,
        }
    }
}

/// The comment that is sent for analysis.
#[derive(Debug)]
pub struct PerspectiveComment {
    pub text: String,
    pub type_: Option<String>,
}

/// How an attribute is to be scored. With nothing set the classifier
/// scores it in its usual way.
#[derive(Debug)]
pub struct PerspectiveAttributeOptions {
    pub score_type: Option<String>,
    pub score_threshold: Option<Score>,
}

/// An attribute that is asked for, with its options.
#[derive(Debug)]
pub struct RequestedAttribute {
    pub name: String,
    pub options: PerspectiveAttributeOptions,
}

/// What is sent to the classifier.
#[derive(Debug)]
pub struct AnalyzeCommentRequest {
    pub comment: PerspectiveComment,
    pub requested_attributes: Vec<RequestedAttribute>,
}

/// One call of the classifier: where the request goes and what it holds.
/// The request is sent as JSON by POST.
#[derive(Debug)]
pub struct AnalyzeCommentCall {
    pub url: String,
    pub request: AnalyzeCommentRequest,
}

/// That the classifier could not be asked or did not answer in a form that
/// counts: the network failed, the status was not a success, or the answer
/// was not the JSON that is expected. The caller does not try again.
#[derive(Debug, Clone, Copy, PartialEq, Eq, Structural)]
pub struct ClassifierError {}

/// What an attempt to classify a message has shown.
#[derive(Debug, Clone, Copy, PartialEq, Eq, Structural)]
pub enum Verdict {
    /// The classifier failed. The message is not flagged.
    Failed,
    /// The classifier answered without the score. The message is not
    /// flagged.
    Absent,
    /// The score does not reach the threshold. The message is not flagged.
    Below(Score),
    /// The score reaches the threshold. The message is flagged.
    Flagged(Score),
}

/// Whether `request` asks for the profanity score of `comment`, and for
/// nothing else.
pub open spec fn asks_for_profanity(request: AnalyzeCommentRequest, comment: Seq<char>) -> bool {
    &&& request.comment.text@ == comment
    &&& request.comment.type_ is None
    &&& request.requested_attributes@.len() == 1
    &&& request.requested_attributes@[0].name@ == PROFANITY@
    &&& request.requested_attributes@[0].options.score_type is None
    &&& request.requested_attributes@[0].options.score_threshold is None
}

/// Whether an answer with HTTP status `status` counts: the status is a
/// success and the body was read.
pub open spec fn reply_counts(status: u16, body: Option<AnalyzeCommentResponse>) -> bool {
    200 <= status < 300 && body is Some
}

/// The verdict that follows from what the classifier gave back.
pub open spec fn verdict_of(
    outcome: Result<AnalyzeCommentResponse, ClassifierError>,
    threshold: Score,
) -> Verdict {
    match outcome {
        Err(_) => Verdict::Failed,
        Ok(response) => match response.score_value(PROFANITY@) {
            None => Verdict::Absent,
            Some(score) => if score.reaches(threshold) {
                Verdict::Flagged(score)
            } else {
                Verdict::Below(score)
            },
        },
    }
}

/// Prepares the call that asks the classifier for the profanity score of
/// `comment`. The API key ends the address as it is given.
pub fn analyze_comment(google_api_key: &str, comment: &str) -> (call: AnalyzeCommentCall)
    ensures
        call.url@ == ANALYZE_ENDPOINT@ + google_api_key@,
        asks_for_profanity(call.request, comment@),
{
    let url = ANALYZE_ENDPOINT.to_owned().concat(google_api_key);
    let mut requested_attributes: Vec<RequestedAttribute> = Vec::new();
    requested_attributes.push(
        RequestedAttribute {
            name: PROFANITY.to_owned(),
            options: PerspectiveAttributeOptions { score_type: None, score_threshold: None },
        },
    );
    AnalyzeCommentCall {
        url,
        request: AnalyzeCommentRequest {
            comment: PerspectiveComment { text: comment.to_owned(), type_: None },
            requested_attributes,
        },
    }
}

/// Decides whether an answer counts. `body` is what was read from the
/// answer, or `None` where it was not the expected JSON.
pub fn accept_reply(status: u16, body: Option<AnalyzeCommentResponse>) -> (reply: Result<
    AnalyzeCommentResponse,
    ClassifierError,
>)
    ensures
        reply_counts(status, body) ==> reply == Ok::<AnalyzeCommentResponse, ClassifierError>(
            body->0,
        ),
        !reply_counts(status, body) ==> reply is Err,
{
    if 200 <= status && status < 300 {
        match body {
            Some(response) => Ok(response),
            None => Err(ClassifierError {  }),
        }
    } else {
        Err(ClassifierError {  })
    }
}

/// Reads the verdict from what the classifier gave back: flagged only
/// where the profanity score is there and reaches `threshold`.
pub fn assess(outcome: &Result<AnalyzeCommentResponse, ClassifierError>, threshold: Score) -> (verdict:
    Verdict)
    ensures
        verdict == verdict_of(*outcome, threshold),
{
    match outcome {
        Err(_) => Verdict::Failed,
        Ok(response) => match response.unpack_score_value(PROFANITY) {
            None => Verdict::Absent,
            Some(score) => if score.at_least(threshold) {
                Verdict::Flagged(score)
            } else {
                Verdict::Below(score)
            },
        },
    }
}

} // verus!
