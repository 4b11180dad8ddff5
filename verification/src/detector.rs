//! Picking the best-known speaker for a new passage: every known speaker is
//! scored against the passage's context and the strictly best score wins,
//! with ties resolved in favor of the record stored first.

use vstd::prelude::*;
use vstd::string::StrSliceExecFns;

use crate::model::affinity_weight;
use crate::model::detect_spec;
use crate::model::is_separator;
use crate::model::lemma_affinity_index_char;
use crate::model::lemma_position_index_char;
use crate::model::position_count;
use crate::model::speaker_points;
use crate::model::views_of;
use crate::model::word_count;
use crate::model::words_upto;
use crate::model::PatternModel;
use crate::types::optional_patterns_ref;
use crate::types::ChapterWeight;
use crate::types::PatternStore;
use crate::types::PositionCount;
use crate::types::SpeakerPattern;

verus! {

/// The number of maximal runs of non-separator characters in the text.
pub(crate) fn count_words(text: &str) -> (n: usize)
    ensures
        n == word_count(text@),
{
    let len = text.unicode_len();
    let mut i: usize = 0;
    let mut n: usize = 0;
    let mut after_separator = true;
    while i < len
        invariant
            len == text@.len(),
            i <= len,
            n <= i,
            n == words_upto(text@, i as int),
            after_separator == (i == 0 || is_separator(text@[i as int - 1])),
        decreases len - i,
    {
        let c = text.get_char(i);
        let separator = c == ' ' || c == '\t' || c == '\n' || c == '\r';
        if !separator && after_separator {
            n = n + 1;
        }
        after_separator = separator;
        i = i + 1;
    }
    n
}

/// The weight this speaker has accumulated in `chapter`, or zero.
fn affinity_weight_exec(entries: &Vec<ChapterWeight>, chapter: &String) -> (weight: u64)
    ensures
        weight == affinity_weight(views_of(entries@), chapter@),
{
    let ghost table = views_of(entries@);
    let mut i: usize = 0;
    while i < entries.len()
        invariant
            table == views_of(entries@),
            i <= entries@.len(),
            forall|k: int| 0 <= k < i ==> table[k].0 != chapter@,
        decreases entries@.len() - i,
    {
        if entries[i].chapter == *chapter {
            proof {
                assert(table[i as int].0 == chapter@);
                lemma_affinity_index_char(table, chapter@);
            }
            return entries[i].weight;
        }
        i += 1;
    }
    proof {
        lemma_affinity_index_char(table, chapter@);
    }
    0
}

/// The count this speaker has accumulated at (`chapter`, `position`), or
/// zero.
fn position_count_exec(entries: &Vec<PositionCount>, chapter: &String, position: usize) -> (count:
    u64)
    ensures
        count == position_count(views_of(entries@), chapter@, position as int),
{
    let ghost table = views_of(entries@);
    let mut i: usize = 0;
    while i < entries.len()
        invariant
            table == views_of(entries@),
            i <= entries@.len(),
            forall|k: int|
                0 <= k < i ==> !(table[k].0 == chapter@ && table[k].1 == position as int),
        decreases entries@.len() - i,
    {
        if entries[i].chapter == *chapter && entries[i].position == position {
            proof {
                assert(table[i as int].0 == chapter@ && table[i as int].1 == position as int);
                lemma_position_index_char(table, chapter@, position as int);
            }
            return entries[i].count;
        }
        i += 1;
    }
    proof {
        lemma_position_index_char(table, chapter@, position as int);
    }
    0
}

/// One speaker's score for the passage under detection, in thousandths.
fn speaker_points_exec(
    pattern: &SpeakerPattern,
    now: u64,
    chapter: &String,
    position: usize,
    words: usize,
) -> (points: u64)
    ensures
        points == speaker_points(pattern@, now, chapter@, position as int, words as int),
        points <= 1000,
{
    let elapsed = if now >= pattern.last_active {
        now - pattern.last_active
    } else {
        0
    };
    let recency: u64 = if elapsed < 300000 {
        400
    } else if elapsed < 3600000 {
        200
    } else {
        0
    };
    let weight = affinity_weight_exec(&pattern.chapter_affinity, chapter);
    let tenth = weight / 10;
    let affinity: u64 = if tenth < 300 {
        tenth
    } else {
        300
    };
    let count = position_count_exec(&pattern.position_frequency, chapter, position);
    let position_pts: u64 = if count == 0 {
        0
    } else {
        200
    };
    proof {
        if count > 0 {
            assert(count * 200 >= 200) by (nonlinear_arith)
                requires
                    count >= 1,
            ;
        }
    }
    let length_pts: u64 = if pattern.dialogue_length_avg > 0 && words > 0 {
        let observed: u128 = (words as u128) * 1000;
        let avg: u128 = pattern.dialogue_length_avg as u128;
        let difference: u128 = if observed >= avg {
            observed - avg
        } else {
            avg - observed
        };
        if difference >= observed {
            0
        } else {
            proof {
                vstd::arithmetic::div_mod::lemma_div_is_ordered(
                    difference as int * 1000,
                    observed as int * 1000,
                    observed as int,
                );
                vstd::arithmetic::div_mod::lemma_div_multiples_vanish(1000, observed as int);
                assert(observed as int * 1000 == observed as int * 1000int);
                vstd::arithmetic::div_mod::lemma_div_is_ordered(
                    1000 - difference as int * 1000 / observed as int,
                    1000,
                    10,
                );
            }
            let ratio = difference * 1000 / observed;
            ((1000 - ratio) / 10) as u64
        }
    } else {
        0
    };
    recency + affinity + position_pts + length_pts
}

/// The identity most likely to have spoken the passage, judged from the
/// accumulated patterns: every known speaker is scored and the strictly
/// best score wins, ties favoring the record stored first. An empty
/// store, or one where no speaker scores above zero, yields the default
/// identity, a signal that the caller should fall back to another
/// heuristic. A store that could not be read is handed in as `None` and
/// treated as empty.
pub fn detect_speaker(
    text: &str,
    chapter: &str,
    position: usize,
    store: Option<&PatternStore>,
    now: u64,
) -> (speaker: String)
    ensures
        speaker@ == detect_spec(
            optional_patterns_ref(store),
            now,
            chapter@,
            position as int,
            word_count(text@),
        ),
{
    let words = count_words(text);
    match store {
        None => "speaker1".to_owned(),
        Some(s) => {
            let chapter_owned = chapter.to_owned();
            let ghost patterns = s@;
            let mut best = "speaker1".to_owned();
            let mut best_points: u64 = 0;
            let mut i: usize = 0;
            let n = s.entries.len();
            while i < n
                invariant
                    n == s.entries@.len(),
                    patterns == s@,
                    i <= n,
                    chapter_owned@ == chapter@,
                    words == word_count(text@),
                    best@ == crate::model::best_upto(
                        patterns,
                        now,
                        chapter@,
                        position as int,
                        words as int,
                        i as int,
                    ).0,
                    best_points as int == crate::model::best_upto(
                        patterns,
                        now,
                        chapter@,
                        position as int,
                        words as int,
                        i as int,
                    ).1,
                decreases n - i,
            {
                let points = speaker_points_exec(&s.entries[i], now, &chapter_owned, position,
                    words);
                if points > best_points {
                    best_points = points;
                    best = s.entries[i].identity.clone();
                }
                i += 1;
            }
            best
        },
    }
}

} // verus!
