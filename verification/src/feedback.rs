//! Applying user feedback: one accepted identity is reinforced and every
//! rejected identity is aged by a fixed penalty.

use vstd::prelude::*;

use crate::detector::count_words;
use crate::model::accept_into;
use crate::model::accept_spec;
use crate::model::empty_pattern;
use crate::model::feedback_average;
use crate::model::feedback_spec;
use crate::model::lemma_average_bounded;
use crate::model::lemma_views_of_push;
use crate::model::lemma_views_of_replace;
use crate::model::observed_length;
use crate::model::penalize_one;
use crate::model::penalize_upto;
use crate::model::sat_sub_u64;
use crate::model::views_of;
use crate::model::word_count;
use crate::model::PatternModel;
use crate::model::REJECTION_PENALTY_MS;
use crate::recorder::find_speaker;
use crate::types::optional_names;
use crate::types::optional_patterns;
use crate::types::PatternStore;
use crate::types::SpeakerPattern;

verus! {

/// The slower exponential moving average used for explicit feedback.
fn feedback_average_exec(old_avg: u64, observed: u64) -> (avg: u64)
    ensures
        avg == feedback_average(old_avg, observed),
{
    if old_avg > 0 {
        let wide: u128 = (9 * (old_avg as u128) + (observed as u128)) / 10;
        proof {
            lemma_average_bounded(old_avg, observed);
        }
        wide as u64
    } else {
        observed
    }
}

/// Folds one round of user feedback into the store: the accepted identity's
/// record is reinforced (created at the passage's word count if new), then
/// every rejected identity that has a record is aged by the fixed penalty,
/// saturating at the epoch; a rejection never creates a record. A store or
/// rejection list that could not be read is handed in as `None` and treated
/// as empty.
pub fn update_from_feedback(
    passage: &str,
    accepted_speaker: &str,
    rejected_speakers: Option<Vec<String>>,
    store: Option<PatternStore>,
    now: u64,
) -> (updated: PatternStore)
    ensures
        updated@ == feedback_spec(
            optional_patterns(store),
            accepted_speaker@,
            optional_names(rejected_speakers),
            observed_length(word_count(passage@)),
            now,
        ),
{
    let words = count_words(passage);
    let wide: u128 = (words as u128) * 1000;
    let dialogue_length: u64 = if wide > u64::MAX as u128 {
        u64::MAX
    } else {
        wide as u64
    };
    proof {
        assert(dialogue_length == observed_length(words as int));
    }
    let mut updated = match store {
        Some(s) => s,
        None => PatternStore::new(),
    };
    let ghost before = updated@;
    let ghost entries_before = updated.entries@;
    let accepted_owned = accepted_speaker.to_owned();
    match find_speaker(&updated.entries, &accepted_owned) {
        Some(i) => {
            let mut entry = updated.entries.remove(i);
            let ghost prior = entry@;
            entry.last_active = now;
            entry.dialogue_length_avg = feedback_average_exec(
                entry.dialogue_length_avg,
                dialogue_length,
            );
            proof {
                assert(entry@ == accept_into(prior, dialogue_length, now));
            }
            updated.entries.insert(i, entry);
            proof {
                assert(updated.entries@ == entries_before.remove(i as int).insert(i as int, entry));
                lemma_views_of_replace(entries_before, i as int, entry);
                assert(updated@ =~= accept_spec(before, accepted_speaker@, dialogue_length, now));
            }
        },
        None => {
            let entry = SpeakerPattern {
                identity: accepted_owned,
                last_active: now,
                position_frequency: Vec::new(),
                common_followers: Vec::new(),
                common_preceders: Vec::new(),
                chapter_affinity: Vec::new(),
                dialogue_length_avg: dialogue_length,
            };
            proof {
                assert(views_of(entry.position_frequency@) =~= Seq::<
                    (Seq<char>, int, u64),
                >::empty());
                assert(views_of(entry.chapter_affinity@) =~= Seq::<(Seq<char>, u64)>::empty());
                assert(views_of(entry.common_followers@) =~= Seq::<Seq<char>>::empty());
                assert(views_of(entry.common_preceders@) =~= Seq::<Seq<char>>::empty());
                assert(entry@ == accept_into(
                    empty_pattern(accepted_speaker@),
                    dialogue_length,
                    now,
                ));
            }
            updated.entries.push(entry);
            proof {
                lemma_views_of_push(entries_before, entry);
                assert(updated@ =~= accept_spec(before, accepted_speaker@, dialogue_length, now));
            }
        },
    }
    let ghost accepted_base = updated@;
    let ghost names = optional_names(rejected_speakers);
    let rejected = match rejected_speakers {
        Some(v) => v,
        None => Vec::new(),
    };
    proof {
        assert(views_of(rejected@) =~= names);
    }
    let mut j: usize = 0;
    while j < rejected.len()
        invariant
            views_of(rejected@) == names,
            j <= rejected@.len(),
            updated@ == penalize_upto(accepted_base, names, j as int),
        decreases rejected@.len() - j,
    {
        let ghost current = updated@;
        match find_speaker(&updated.entries, &rejected[j]) {
            Some(i) => {
                let ghost inner_before = updated.entries@;
                let mut entry = updated.entries.remove(i);
                let ghost prior = entry@;
                entry.last_active = if entry.last_active >= REJECTION_PENALTY_MS {
                    entry.last_active - REJECTION_PENALTY_MS
                } else {
                    0
                };
                proof {
                    assert(entry@ == PatternModel {
                        last_active: sat_sub_u64(prior.last_active, REJECTION_PENALTY_MS),
                        ..prior
                    });
                }
                updated.entries.insert(i, entry);
                proof {
                    assert(updated.entries@ == inner_before.remove(i as int).insert(
                        i as int,
                        entry,
                    ));
                    lemma_views_of_replace(inner_before, i as int, entry);
                    assert(updated@ =~= penalize_one(current, names[j as int]));
                }
            },
            None => {
                proof {
                    assert(updated@ == penalize_one(current, names[j as int]));
                }
            },
        }
        j += 1;
    }
    proof {
        assert(updated@ == feedback_spec(
            before,
            accepted_speaker@,
            names,
            dialogue_length,
            now,
        ));
    }
    updated
}

} // verus!
