//! Confidence scoring: a weighted sum of five independent signals about one
//! candidate speaker, clamped to the unit range.

use vstd::prelude::*;

use crate::types::PatternMatch;

verus! {

/// Weight of the recency signal, in thousandths.
pub const RECENT_WEIGHT: u64 = 300;

/// Weight of the chapter-frequency signal, in thousandths.
pub const CHAPTER_FREQUENCY_WEIGHT: u64 = 250;

/// Weight of the turn-taking signal, in thousandths.
pub const TURN_TAKING_WEIGHT: u64 = 200;

/// Weight of the name-mention signal, in thousandths.
pub const NAME_MENTION_WEIGHT: u64 = 100;

/// Weight of the dialogue-length signal, in thousandths.
pub const DIALOGUE_LENGTH_WEIGHT: u64 = 150;

/// The confidence reported when the signal bundle could not be read: a
/// fixed neutral value, not an error.
pub const NEUTRAL_CONFIDENCE: u64 = 500;

/// Scaling a fixed-point product back down by the unit, truncating toward
/// zero: two thousandths values multiply to millionths.
pub open spec fn scale_down(a: int) -> int {
    if a >= 0 {
        a / 1000
    } else {
        -((-a) / 1000)
    }
}

/// The confidence value for one signal bundle: each boolean signal
/// contributes its weight or nothing, each graded signal contributes its
/// value times its weight, and the sum is clamped to `0..=1000`. The graded
/// signals are not clamped on input, so the final clamp handles values
/// outside the expected unit range.
pub open spec fn confidence_value(m: PatternMatch) -> int {
    let sum = (if m.recent {
        RECENT_WEIGHT as int
    } else {
        0
    }) + scale_down(m.chapter_frequency * CHAPTER_FREQUENCY_WEIGHT) + (if m.turn_taking {
        TURN_TAKING_WEIGHT as int
    } else {
        0
    }) + (if m.name_mention {
        NAME_MENTION_WEIGHT as int
    } else {
        0
    }) + scale_down(m.dialogue_length_score * DIALOGUE_LENGTH_WEIGHT);
    if sum < 0 {
        0
    } else if sum > 1000 {
        1000
    } else {
        sum
    }
}

/// Scales a signed fixed-point product back down by the unit, truncating
/// toward zero.
fn scale_down_exec(a: i128) -> (r: i128)
    requires
        -0x40000000000000000000i128 <= a <= 0x40000000000000000000i128,
    ensures
        r == scale_down(a as int),
{
    if a >= 0 {
        ((a as u128) / 1000) as i128
    } else {
        let n = (-a) as u128;
        -((n / 1000) as i128)
    }
}

/// The confidence, in thousandths, that a candidate speaker uttered a
/// passage, given the five pre-extracted signals about the candidate.
///
/// A signal bundle that could not be read is handed in as `None` and yields
/// the fixed neutral confidence: by the engine's fallback policy, malformed
/// input is never an error.
pub fn calculate_confidence(signals: Option<&PatternMatch>) -> (confidence: u64)
    ensures
        confidence == match signals {
            Some(m) => confidence_value(*m),
            None => NEUTRAL_CONFIDENCE as int,
        },
        confidence <= 1000,
{
    match signals {
        None => NEUTRAL_CONFIDENCE,
        Some(m) => {
            let mut sum: i128 = 0;
            if m.recent {
                sum = sum + 300;
            }
            sum = sum + scale_down_exec((m.chapter_frequency as i128) * 250);
            if m.turn_taking {
                sum = sum + 200;
            }
            if m.name_mention {
                sum = sum + 100;
            }
            sum = sum + scale_down_exec((m.dialogue_length_score as i128) * 150);
            let clamped: i128 = if sum < 0 {
                0
            } else if sum > 1000 {
                1000
            } else {
                sum
            };
            clamped as u64
        },
    }
}

} // verus!
