//! A speaker-attribution pattern engine.
//!
//! The engine attributes lines of dialogue in a text to a speaker identity
//! and improves its attributions over time from user corrections. It keeps,
//! per speaker, a [`types::SpeakerPattern`] record of when the speaker last
//! spoke, where in the text they tend to speak, and how long their lines tend
//! to be; a [`types::PatternStore`] maps speaker identities to those records.
//!
//! Four operations work on a store snapshot passed in by the caller:
//! confidence scoring for one candidate ([`calculate_confidence`]), folding a
//! confirmed observation into the store ([`store_pattern`]), picking the best
//! speaker for a new passage ([`detect_speaker`]), and applying accept/reject
//! feedback ([`update_from_feedback`]). All of them are pure: the caller owns
//! persistence, and the clock is a plain `now` argument in milliseconds.
//!
//! Graded quantities (signal strengths, confidence, chapter affinity,
//! dialogue-length averages) are fixed-point integers in thousandths: `1000`
//! stands for 1.0.

pub mod detector;
pub mod feedback;
pub mod laws;
pub mod model;
pub mod recorder;
pub mod scorer;
pub mod types;

pub use detector::detect_speaker;
pub use feedback::update_from_feedback;
pub use recorder::get_patterns;
pub use recorder::store_pattern;
pub use scorer::calculate_confidence;
pub use types::ChapterWeight;
pub use types::Context;
pub use types::PatternMatch;
pub use types::PatternStore;
pub use types::PositionCount;
pub use types::SpeakerPattern;
