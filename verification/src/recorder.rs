//! Recording confirmed observations into the store, and looking a speaker's
//! record up.

use vstd::prelude::*;

use crate::model::bump_affinity;
use crate::model::bump_position;
use crate::model::has_speaker;
use crate::model::lemma_affinity_index_char;
use crate::model::lemma_average_bounded;
use crate::model::lemma_position_index_char;
use crate::model::lemma_store_index_char;
use crate::model::lemma_views_of_push;
use crate::model::lemma_views_of_replace;
use crate::model::record_into;
use crate::model::record_spec;
use crate::model::recording_average;
use crate::model::store_index;
use crate::model::stored_pattern;
use crate::model::views_of;
use crate::model::PatternModel;
use crate::types::optional_patterns;
use crate::types::optional_patterns_ref;
use crate::types::ChapterWeight;
use crate::types::PatternStore;
use crate::types::PositionCount;
use crate::types::SpeakerPattern;

verus! {

/// The index of the first record for `identity`, if the store has one.
pub(crate) fn find_speaker(entries: &Vec<SpeakerPattern>, identity: &String) -> (found: Option<
    usize,
>)
    ensures
        match found {
            Some(i) => 0 <= i < entries@.len() && store_index(views_of(entries@), identity@)
                == i,
            None => store_index(views_of(entries@), identity@) == -1,
        },
{
    let ghost patterns = views_of(entries@);
    let mut i: usize = 0;
    while i < entries.len()
        invariant
            i <= entries@.len(),
            patterns == views_of(entries@),
            forall|k: int| 0 <= k < i ==> patterns[k].identity != identity@,
        decreases entries@.len() - i,
    {
        if entries[i].identity == *identity {
            proof {
                assert(patterns[i as int].identity == identity@);
                lemma_store_index_char(patterns, identity@);
            }
            return Some(i);
        }
        i += 1;
    }
    proof {
        lemma_store_index_char(patterns, identity@);
    }
    None
}

/// Folds one observation at (`chapter`, `position`) into the tally.
fn bump_position_exec(entries: &mut Vec<PositionCount>, chapter: &String, position: usize)
    ensures
        views_of(final(entries)@) == bump_position(
            views_of(old(entries)@),
            chapter@,
            position as int,
        ),
{
    let ghost before = views_of(entries@);
    let mut i: usize = 0;
    let n = entries.len();
    while i < n
        invariant
            n == entries@.len(),
            entries@ == old(entries)@,
            before == views_of(entries@),
            i <= n,
            forall|k: int|
                0 <= k < i ==> !(before[k].0 == chapter@ && before[k].1 == position as int),
        decreases n - i,
    {
        if entries[i].chapter == *chapter && entries[i].position == position {
            proof {
                assert(before[i as int].0 == chapter@ && before[i as int].1 == position as int);
                lemma_position_index_char(before, chapter@, position as int);
            }
            let entry = entries.remove(i);
            let updated = PositionCount {
                chapter: entry.chapter,
                position: entry.position,
                count: if entry.count <= u64::MAX - 1 {
                    entry.count + 1
                } else {
                    u64::MAX
                },
            };
            entries.insert(i, updated);
            proof {
                lemma_views_of_replace(old(entries)@, i as int, updated);
                assert(views_of(entries@) =~= bump_position(before, chapter@, position as int));
            }
            return ;
        }
        i += 1;
    }
    proof {
        lemma_position_index_char(before, chapter@, position as int);
    }
    let appended = PositionCount { chapter: chapter.clone(), position, count: 1 };
    entries.push(appended);
    proof {
        lemma_views_of_push(old(entries)@, appended);
        assert(views_of(entries@) =~= bump_position(before, chapter@, position as int));
    }
}

/// Folds one confirmation in `chapter` into the affinity table.
fn bump_affinity_exec(entries: &mut Vec<ChapterWeight>, chapter: &String)
    ensures
        views_of(final(entries)@) == bump_affinity(views_of(old(entries)@), chapter@),
{
    let ghost before = views_of(entries@);
    let mut i: usize = 0;
    let n = entries.len();
    while i < n
        invariant
            n == entries@.len(),
            entries@ == old(entries)@,
            before == views_of(entries@),
            i <= n,
            forall|k: int| 0 <= k < i ==> before[k].0 != chapter@,
        decreases n - i,
    {
        if entries[i].chapter == *chapter {
            proof {
                assert(before[i as int].0 == chapter@);
                lemma_affinity_index_char(before, chapter@);
            }
            let entry = entries.remove(i);
            let updated = ChapterWeight {
                chapter: entry.chapter,
                weight: if entry.weight <= u64::MAX - 1000 {
                    entry.weight + 1000
                } else {
                    u64::MAX
                },
            };
            entries.insert(i, updated);
            proof {
                lemma_views_of_replace(old(entries)@, i as int, updated);
                assert(views_of(entries@) =~= bump_affinity(before, chapter@));
            }
            return ;
        }
        i += 1;
    }
    proof {
        lemma_affinity_index_char(before, chapter@);
    }
    let appended = ChapterWeight { chapter: chapter.clone(), weight: 1000 };
    entries.push(appended);
    proof {
        lemma_views_of_push(old(entries)@, appended);
        assert(views_of(entries@) =~= bump_affinity(before, chapter@));
    }
}

/// The exponential moving average used for recorded observations.
pub(crate) fn recording_average_exec(old_avg: u64, observed: u64) -> (avg: u64)
    ensures
        avg == recording_average(old_avg, observed),
{
    if old_avg > 0 {
        let wide: u128 = (8 * (old_avg as u128) + 2 * (observed as u128)) / 10;
        proof {
            lemma_average_bounded(old_avg, observed);
        }
        wide as u64
    } else {
        observed
    }
}

/// Folds one confirmed observation of a speaker into the store: the
/// speaker's record is created or updated exactly as the model's
/// `record_spec` says. A store that could not be read is handed in as
/// `None` and treated as empty.
pub fn store_pattern(
    identity: &str,
    chapter: &str,
    position: usize,
    dialogue_length: u64,
    store: Option<PatternStore>,
    now: u64,
) -> (updated: PatternStore)
    ensures
        updated@ == record_spec(
            optional_patterns(store),
            identity@,
            chapter@,
            position as int,
            dialogue_length,
            now,
        ),
{
    let mut updated = match store {
        Some(s) => s,
        None => PatternStore::new(),
    };
    let ghost before = updated@;
    let ghost entries_before = updated.entries@;
    let identity_owned = identity.to_owned();
    let chapter_owned = chapter.to_owned();
    match find_speaker(&updated.entries, &identity_owned) {
        Some(i) => {
            let mut entry = updated.entries.remove(i);
            let ghost prior = entry@;
            entry.identity = identity_owned;
            entry.last_active = now;
            bump_position_exec(&mut entry.position_frequency, &chapter_owned, position);
            bump_affinity_exec(&mut entry.chapter_affinity, &chapter_owned);
            entry.dialogue_length_avg = recording_average_exec(
                entry.dialogue_length_avg,
                dialogue_length,
            );
            proof {
                assert(entry@ == record_into(
                    prior,
                    identity@,
                    chapter@,
                    position as int,
                    dialogue_length,
                    now,
                ));
            }
            updated.entries.insert(i, entry);
            proof {
                assert(updated.entries@ == entries_before.remove(i as int).insert(i as int, entry));
                lemma_views_of_replace(entries_before, i as int, entry);
                assert(updated@ =~= before.update(i as int, entry@));
            }
        },
        None => {
            let mut position_frequency: Vec<PositionCount> = Vec::new();
            position_frequency.push(
                PositionCount { chapter: chapter_owned.clone(), position, count: 1 },
            );
            let mut chapter_affinity: Vec<ChapterWeight> = Vec::new();
            chapter_affinity.push(ChapterWeight { chapter: chapter_owned, weight: 1000 });
            let entry = SpeakerPattern {
                identity: identity_owned,
                last_active: now,
                position_frequency,
                common_followers: Vec::new(),
                common_preceders: Vec::new(),
                chapter_affinity,
                dialogue_length_avg: dialogue_length,
            };
            proof {
                assert(views_of(entry.position_frequency@) =~= Seq::empty().push(
                    (chapter@, position as int, 1u64),
                ));
                assert(views_of(entry.chapter_affinity@) =~= Seq::empty().push(
                    (chapter@, 1000u64),
                ));
                assert(views_of(entry.common_followers@) =~= Seq::<Seq<char>>::empty());
                assert(views_of(entry.common_preceders@) =~= Seq::<Seq<char>>::empty());
                assert(entry@ == record_into(
                    crate::model::empty_pattern(identity@),
                    identity@,
                    chapter@,
                    position as int,
                    dialogue_length,
                    now,
                ));
            }
            updated.entries.push(entry);
            proof {
                lemma_views_of_push(entries_before, entry);
                assert(updated@ =~= before.push(entry@));
            }
        },
    }
    proof {
        assert(updated@ =~= record_spec(
            before,
            identity@,
            chapter@,
            position as int,
            dialogue_length,
            now,
        ));
    }
    updated
}

/// The record stored for one speaker, or `None` if the speaker has no
/// record yet; absence is an answer, never an error. A store that could not
/// be read is handed in as `None` and treated as empty.
pub fn get_patterns<'a>(speaker: &str, store: Option<&'a PatternStore>) -> (pattern: Option<
    &'a SpeakerPattern,
>)
    ensures
        ({
            let patterns = optional_patterns_ref(store);
            match pattern {
                Some(p) => has_speaker(patterns, speaker@) && p@ == stored_pattern(
                    patterns,
                    speaker@,
                ),
                None => !has_speaker(patterns, speaker@),
            }
        }),
{
    match store {
        None => None,
        Some(s) => {
            let speaker_owned = speaker.to_owned();
            match find_speaker(&s.entries, &speaker_owned) {
                Some(i) => Some(&s.entries[i]),
                None => None,
            }
        },
    }
}

} // verus!
