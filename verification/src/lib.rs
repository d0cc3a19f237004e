//! Moderation rules for a chat community.
//!
//! Messages of a fixed set of users are screened for profanity, by a list
//! of flagged patterns and by the score of a text classifier. A flagged
//! message is answered with a warning reaction and counted against its
//! author, and every third one with a reply and a time-out of five minutes.
//! Apart from that, a message that is one of a fixed list of phrases is
//! answered with a reaction of its own.
//!
//! The library decides; it does not connect to anything. [`pipeline`] holds
//! the handling of one message as a state machine, which the caller drives
//! and whose actions the caller carries out. The other modules hold what
//! the pipeline decides with: [`tracker`] the violation counts, [`matcher`]
//! the search for flagged patterns, [`phrases`] the list of phrases,
//! [`perspective`] and [`score`] the classifier's side, [`text`] the
//! handling of characters, and [`config`] what is read at the start.

pub mod config;
pub mod matcher;
pub mod perspective;
pub mod phrases;
pub mod pipeline;
pub mod score;
pub mod text;
pub mod tracker;
