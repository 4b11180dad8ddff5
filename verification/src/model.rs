//! The mathematical model of the engine: per-speaker records as ghost
//! values, and every operation of the engine as a function over them.
//!
//! The executable types in [`crate::types`] view into these models, and the
//! public functions promise to compute exactly what the model functions say.

use vstd::prelude::*;

verus! {

/// Milliseconds subtracted from a rejected speaker's last activity.
pub const REJECTION_PENALTY_MS: u64 = 86400000;

/// A speaker confirmed less than this many milliseconds ago counts as having
/// just spoken.
pub const RECENT_WINDOW_MS: u64 = 300000;

/// A speaker confirmed less than this many milliseconds ago counts as having
/// spoken this session.
pub const SESSION_WINDOW_MS: u64 = 3600000;

/// The model of one speaker's [`crate::types::SpeakerPattern`] record.
pub struct PatternModel {
    pub identity: Seq<char>,
    pub last_active: u64,
    /// (chapter, position, count) entries; the chapter and position form the
    /// key.
    pub position_frequency: Seq<(Seq<char>, int, u64)>,
    pub common_followers: Seq<Seq<char>>,
    pub common_preceders: Seq<Seq<char>>,
    /// (chapter, weight) entries; the weight is in thousandths.
    pub chapter_affinity: Seq<(Seq<char>, u64)>,
    pub dialogue_length_avg: u64,
}

/// The views of a sequence of viewable values, in order.
pub open spec fn views_of<T: View>(s: Seq<T>) -> Seq<<T as View>::V> {
    s.map_values(|x: T| x@)
}

/// Saturating addition on timestamps, counts and weights.
pub open spec fn sat_add_u64(a: u64, b: u64) -> u64 {
    if a + b > u64::MAX {
        u64::MAX
    } else {
        (a + b) as u64
    }
}

/// Saturating subtraction on timestamps: the rejection penalty never takes
/// `last_active` below the epoch.
pub open spec fn sat_sub_u64(a: u64, b: u64) -> u64 {
    if a >= b {
        (a - b) as u64
    } else {
        0
    }
}

/// A word count expressed in thousandths, saturating at the largest
/// representable value.
pub open spec fn observed_length(word_count: int) -> u64 {
    if word_count * 1000 > u64::MAX {
        u64::MAX
    } else {
        (word_count * 1000) as u64
    }
}

/// The exponential moving average used when a confirmed observation is
/// recorded: `new = old * 0.8 + observed * 0.2`, in thousandths with the
/// quotient truncated. An average of `0` means no prior observation, and the
/// observation is taken as is.
pub open spec fn recording_average(old_avg: u64, observed: u64) -> u64 {
    if old_avg > 0 {
        ((8 * old_avg + 2 * observed) / 10) as u64
    } else {
        observed
    }
}

/// The slower exponential moving average used for explicit feedback:
/// `new = old * 0.9 + observed * 0.1`.
pub open spec fn feedback_average(old_avg: u64, observed: u64) -> u64 {
    if old_avg > 0 {
        ((9 * old_avg + observed) / 10) as u64
    } else {
        observed
    }
}

/// The first index whose entry is keyed by (`chapter`, `position`), or `-1`.
pub open spec fn position_index(
    entries: Seq<(Seq<char>, int, u64)>,
    chapter: Seq<char>,
    position: int,
) -> int
    decreases entries.len(),
{
    if entries.len() == 0 {
        -1
    } else if entries[0].0 == chapter && entries[0].1 == position {
        0
    } else {
        let rest = position_index(entries.skip(1), chapter, position);
        if rest < 0 {
            -1
        } else {
            rest + 1
        }
    }
}

/// The count stored for (`chapter`, `position`), or `0` if none is.
pub open spec fn position_count(
    entries: Seq<(Seq<char>, int, u64)>,
    chapter: Seq<char>,
    position: int,
) -> u64 {
    let i = position_index(entries, chapter, position);
    if i >= 0 {
        entries[i].2
    } else {
        0
    }
}

/// The entries with the count for (`chapter`, `position`) one higher; a key
/// observed for the first time is appended with count `1`.
pub open spec fn bump_position(
    entries: Seq<(Seq<char>, int, u64)>,
    chapter: Seq<char>,
    position: int,
) -> Seq<(Seq<char>, int, u64)> {
    let i = position_index(entries, chapter, position);
    if i >= 0 {
        entries.update(i, (chapter, position, sat_add_u64(entries[i].2, 1)))
    } else {
        entries.push((chapter, position, 1u64))
    }
}

/// The first index whose entry is keyed by `chapter`, or `-1`.
pub open spec fn affinity_index(entries: Seq<(Seq<char>, u64)>, chapter: Seq<char>) -> int
    decreases entries.len(),
{
    if entries.len() == 0 {
        -1
    } else if entries[0].0 == chapter {
        0
    } else {
        let rest = affinity_index(entries.skip(1), chapter);
        if rest < 0 {
            -1
        } else {
            rest + 1
        }
    }
}

/// The weight accumulated for `chapter`, or `0` if none is.
pub open spec fn affinity_weight(entries: Seq<(Seq<char>, u64)>, chapter: Seq<char>) -> u64 {
    let i = affinity_index(entries, chapter);
    if i >= 0 {
        entries[i].1
    } else {
        0
    }
}

/// The entries with the weight for `chapter` higher by `1000` (one whole
/// confirmation); a chapter observed for the first time is appended.
pub open spec fn bump_affinity(entries: Seq<(Seq<char>, u64)>, chapter: Seq<char>) -> Seq<
    (Seq<char>, u64),
> {
    let i = affinity_index(entries, chapter);
    if i >= 0 {
        entries.update(i, (chapter, sat_add_u64(entries[i].1, 1000)))
    } else {
        entries.push((chapter, 1000u64))
    }
}

/// The first index whose record is for `identity`, or `-1`.
pub open spec fn store_index(store: Seq<PatternModel>, identity: Seq<char>) -> int
    decreases store.len(),
{
    if store.len() == 0 {
        -1
    } else if store[0].identity == identity {
        0
    } else {
        let rest = store_index(store.skip(1), identity);
        if rest < 0 {
            -1
        } else {
            rest + 1
        }
    }
}

/// Whether the store holds a record for `identity`.
pub open spec fn has_speaker(store: Seq<PatternModel>, identity: Seq<char>) -> bool {
    store_index(store, identity) >= 0
}

/// The record stored for `identity`; meaningful when `has_speaker` holds.
pub open spec fn stored_pattern(store: Seq<PatternModel>, identity: Seq<char>) -> PatternModel {
    store[store_index(store, identity)]
}

/// A record for `identity` with nothing observed yet.
pub open spec fn empty_pattern(identity: Seq<char>) -> PatternModel {
    PatternModel {
        identity: identity,
        last_active: 0,
        position_frequency: Seq::empty(),
        common_followers: Seq::empty(),
        common_preceders: Seq::empty(),
        chapter_affinity: Seq::empty(),
        dialogue_length_avg: 0,
    }
}

/// One confirmed observation folded into one record: the identity is set to
/// the call's identity, the speaker becomes active now, the position and
/// chapter tallies go up, and the length average moves toward the
/// observation.
pub open spec fn record_into(
    p: PatternModel,
    identity: Seq<char>,
    chapter: Seq<char>,
    position: int,
    dialogue_length: u64,
    now: u64,
) -> PatternModel {
    PatternModel {
        identity: identity,
        last_active: now,
        position_frequency: bump_position(p.position_frequency, chapter, position),
        chapter_affinity: bump_affinity(p.chapter_affinity, chapter),
        dialogue_length_avg: recording_average(p.dialogue_length_avg, dialogue_length),
        ..p
    }
}

/// One confirmed observation folded into the store: the identity's record is
/// updated in place, or appended if the identity is new.
pub open spec fn record_spec(
    store: Seq<PatternModel>,
    identity: Seq<char>,
    chapter: Seq<char>,
    position: int,
    dialogue_length: u64,
    now: u64,
) -> Seq<PatternModel> {
    let i = store_index(store, identity);
    if i >= 0 {
        store.update(i, record_into(store[i], identity, chapter, position, dialogue_length, now))
    } else {
        store.push(record_into(empty_pattern(identity), identity, chapter, position,
            dialogue_length, now))
    }
}

/// An explicit confirmation folded into one record: the speaker becomes
/// active now and the length average moves toward the observation, slowly.
pub open spec fn accept_into(p: PatternModel, dialogue_length: u64, now: u64) -> PatternModel {
    PatternModel {
        last_active: now,
        dialogue_length_avg: feedback_average(p.dialogue_length_avg, dialogue_length),
        ..p
    }
}

/// An explicit confirmation folded into the store; a first confirmation
/// creates the record.
pub open spec fn accept_spec(
    store: Seq<PatternModel>,
    identity: Seq<char>,
    dialogue_length: u64,
    now: u64,
) -> Seq<PatternModel> {
    let i = store_index(store, identity);
    if i >= 0 {
        store.update(i, accept_into(store[i], dialogue_length, now))
    } else {
        store.push(accept_into(empty_pattern(identity), dialogue_length, now))
    }
}

/// One rejection: the identity's record, if any, is aged by the fixed
/// penalty, saturating at the epoch. A rejection never creates a record.
pub open spec fn penalize_one(store: Seq<PatternModel>, identity: Seq<char>) -> Seq<
    PatternModel,
> {
    let i = store_index(store, identity);
    if i >= 0 {
        store.update(
            i,
            PatternModel {
                last_active: sat_sub_u64(store[i].last_active, REJECTION_PENALTY_MS),
                ..store[i]
            },
        )
    } else {
        store
    }
}

/// The first `n` rejections applied in order.
pub open spec fn penalize_upto(
    store: Seq<PatternModel>,
    rejected: Seq<Seq<char>>,
    n: int,
) -> Seq<PatternModel>
    decreases n,
{
    if n <= 0 {
        store
    } else {
        penalize_one(penalize_upto(store, rejected, n - 1), rejected[n - 1])
    }
}

/// One round of user feedback: the accepted identity is confirmed, then
/// every rejected identity is penalized.
pub open spec fn feedback_spec(
    store: Seq<PatternModel>,
    accepted: Seq<char>,
    rejected: Seq<Seq<char>>,
    dialogue_length: u64,
    now: u64,
) -> Seq<PatternModel> {
    penalize_upto(
        accept_spec(store, accepted, dialogue_length, now),
        rejected,
        rejected.len() as int,
    )
}

/// Points (in thousandths) for how recently a speaker was active: a tiered
/// contribution, not a smooth decay.
pub open spec fn recency_points(now: u64, last_active: u64) -> int {
    let elapsed = sat_sub_u64(now, last_active);
    if elapsed < RECENT_WINDOW_MS {
        400
    } else if elapsed < SESSION_WINDOW_MS {
        200
    } else {
        0
    }
}

/// Points for accumulated chapter affinity: a tenth of the stored weight,
/// saturating at 300 (affinity beyond 3.0 gives no further benefit).
pub open spec fn affinity_points(weight: u64) -> int {
    if weight / 10 < 300 {
        (weight / 10) as int
    } else {
        300
    }
}

/// Points for the position-frequency count: 200 per count, saturating at
/// 200 (one fifth of full weight per confirmation).
pub open spec fn position_points(count: u64) -> int {
    if count * 200 < 200 {
        count * 200
    } else {
        200
    }
}

/// Points for how well the passage's word count matches the speaker's
/// smoothed average: one tenth of `1 - |observed - avg| / observed`, floored
/// at zero. The denominator is the current passage's length, deliberately;
/// a speaker with no observed average, or an empty passage, contributes
/// nothing.
pub open spec fn length_points(avg: u64, word_count: int) -> int {
    if avg > 0 && word_count > 0 {
        let observed = word_count * 1000;
        let difference = if observed >= avg {
            observed - avg
        } else {
            avg - observed
        };
        if difference >= observed {
            0
        } else {
            (1000 - difference * 1000 / observed) / 10
        }
    } else {
        0
    }
}

/// A speaker's score for the passage under detection, in thousandths. The
/// four contributions saturate at 400 + 300 + 200 + 100, so the score never
/// exceeds 1000.
pub open spec fn speaker_points(
    p: PatternModel,
    now: u64,
    chapter: Seq<char>,
    position: int,
    word_count: int,
) -> int {
    recency_points(now, p.last_active) + affinity_points(
        affinity_weight(p.chapter_affinity, chapter),
    ) + position_points(position_count(p.position_frequency, chapter, position)) + length_points(
        p.dialogue_length_avg,
        word_count,
    )
}

/// The identity reported when no pattern suggests a speaker.
pub open spec fn default_speaker() -> Seq<char> {
    "speaker1"@
}

/// The best (identity, score) among the first `n` records: the default
/// identity at score zero to begin with, and a later record takes over only
/// with a strictly greater score, so ties favor the earliest record.
pub open spec fn best_upto(
    store: Seq<PatternModel>,
    now: u64,
    chapter: Seq<char>,
    position: int,
    word_count: int,
    n: int,
) -> (Seq<char>, int)
    decreases n,
{
    if n <= 0 {
        (default_speaker(), 0)
    } else {
        let prior = best_upto(store, now, chapter, position, word_count, n - 1);
        let points = speaker_points(store[n - 1], now, chapter, position, word_count);
        if points > prior.1 {
            (store[n - 1].identity, points)
        } else {
            prior
        }
    }
}

/// The identity detection reports for a passage: the best-scoring known
/// speaker, or the default identity for an empty store or one where no
/// speaker scores above zero.
pub open spec fn detect_spec(
    store: Seq<PatternModel>,
    now: u64,
    chapter: Seq<char>,
    position: int,
    word_count: int,
) -> Seq<char> {
    best_upto(store, now, chapter, position, word_count, store.len() as int).0
}

/// Whether a character separates words. Word counting splits on the common
/// ASCII whitespace characters.
pub open spec fn is_separator(c: char) -> bool {
    c == ' ' || c == '\t' || c == '\n' || c == '\r'
}

/// The number of words begun among the first `n` characters: a word begins
/// at a non-separator that is first in the text or preceded by a separator.
pub open spec fn words_upto(text: Seq<char>, n: int) -> int
    decreases n,
{
    if n <= 0 {
        0
    } else {
        words_upto(text, n - 1) + if !is_separator(text[n - 1]) && (n - 1 == 0 || is_separator(
            text[n - 2],
        )) {
            1int
        } else {
            0int
        }
    }
}

/// The number of maximal runs of non-separator characters in the text.
pub open spec fn word_count(text: Seq<char>) -> int {
    words_upto(text, text.len() as int)
}

/// `store_index` finds the first record for the identity, if one exists.
pub proof fn lemma_store_index_char(store: Seq<PatternModel>, identity: Seq<char>)
    ensures
        ({
            let i = store_index(store, identity);
            &&& (i == -1 || 0 <= i < store.len())
            &&& (i == -1 ==> forall|k: int|
                0 <= k < store.len() ==> store[k].identity != identity)
            &&& (i >= 0 ==> store[i].identity == identity && (forall|k: int|
                0 <= k < i ==> store[k].identity != identity))
        }),
    decreases store.len(),
{
    if store.len() == 0 {
    } else if store[0].identity == identity {
    } else {
        lemma_store_index_char(store.skip(1), identity);
        let rest = store_index(store.skip(1), identity);
        if rest == -1 {
            assert forall|k: int| 0 <= k < store.len() implies store[k].identity != identity by {
                if k > 0 {
                    assert(store.skip(1)[k - 1] == store[k]);
                }
            }
        } else {
            assert(store.skip(1)[rest] == store[rest + 1]);
            assert forall|k: int| 0 <= k < rest + 1 implies store[k].identity != identity by {
                if k > 0 {
                    assert(store.skip(1)[k - 1] == store[k]);
                }
            }
        }
    }
}

/// `position_index` finds the first entry for the key, if one exists.
pub proof fn lemma_position_index_char(
    entries: Seq<(Seq<char>, int, u64)>,
    chapter: Seq<char>,
    position: int,
)
    ensures
        ({
            let i = position_index(entries, chapter, position);
            &&& (i == -1 || 0 <= i < entries.len())
            &&& (i == -1 ==> forall|k: int|
                0 <= k < entries.len() ==> !(entries[k].0 == chapter && entries[k].1
                    == position))
            &&& (i >= 0 ==> entries[i].0 == chapter && entries[i].1 == position && (forall|
                k: int,
            |
                0 <= k < i ==> !(entries[k].0 == chapter && entries[k].1 == position)))
        }),
    decreases entries.len(),
{
    if entries.len() == 0 {
    } else if entries[0].0 == chapter && entries[0].1 == position {
    } else {
        lemma_position_index_char(entries.skip(1), chapter, position);
        let rest = position_index(entries.skip(1), chapter, position);
        if rest == -1 {
            assert forall|k: int| 0 <= k < entries.len() implies !(entries[k].0 == chapter
                && entries[k].1 == position) by {
                if k > 0 {
                    assert(entries.skip(1)[k - 1] == entries[k]);
                }
            }
        } else {
            assert(entries.skip(1)[rest] == entries[rest + 1]);
            assert forall|k: int| 0 <= k < rest + 1 implies !(entries[k].0 == chapter
                && entries[k].1 == position) by {
                if k > 0 {
                    assert(entries.skip(1)[k - 1] == entries[k]);
                }
            }
        }
    }
}

/// `affinity_index` finds the first entry for the chapter, if one exists.
pub proof fn lemma_affinity_index_char(entries: Seq<(Seq<char>, u64)>, chapter: Seq<char>)
    ensures
        ({
            let i = affinity_index(entries, chapter);
            &&& (i == -1 || 0 <= i < entries.len())
            &&& (i == -1 ==> forall|k: int| 0 <= k < entries.len() ==> entries[k].0 != chapter)
            &&& (i >= 0 ==> entries[i].0 == chapter && (forall|k: int|
                0 <= k < i ==> entries[k].0 != chapter))
        }),
    decreases entries.len(),
{
    if entries.len() == 0 {
    } else if entries[0].0 == chapter {
    } else {
        lemma_affinity_index_char(entries.skip(1), chapter);
        let rest = affinity_index(entries.skip(1), chapter);
        if rest == -1 {
            assert forall|k: int| 0 <= k < entries.len() implies entries[k].0 != chapter by {
                if k > 0 {
                    assert(entries.skip(1)[k - 1] == entries[k]);
                }
            }
        } else {
            assert(entries.skip(1)[rest] == entries[rest + 1]);
            assert forall|k: int| 0 <= k < rest + 1 implies entries[k].0 != chapter by {
                if k > 0 {
                    assert(entries.skip(1)[k - 1] == entries[k]);
                }
            }
        }
    }
}

/// Pushing a value onto a sequence pushes its view onto the view.
pub proof fn lemma_views_of_push<T: View>(s: Seq<T>, e: T)
    ensures
        views_of(s.push(e)) =~= views_of(s).push(e@),
{
    assert forall|i: int| 0 <= i < s.len() + 1 implies views_of(s.push(e))[i] == views_of(
        s,
    ).push(e@)[i] by {
        if i < s.len() {
            assert(s.push(e)[i] == s[i]);
        } else {
            assert(s.push(e)[i] == e);
        }
    }
}

/// Removing a value and inserting another at its place updates the view at
/// that place.
pub proof fn lemma_views_of_replace<T: View>(s: Seq<T>, i: int, e: T)
    requires
        0 <= i < s.len(),
    ensures
        views_of(s.remove(i).insert(i, e)) =~= views_of(s).update(i, e@),
{
    let replaced = s.remove(i).insert(i, e);
    assert(replaced.len() == s.len());
    assert forall|k: int| 0 <= k < s.len() implies views_of(replaced)[k] == views_of(s).update(
        i,
        e@,
    )[k] by {
        if k < i {
            assert(s.remove(i)[k] == s[k]);
            assert(replaced[k] == s[k]);
        } else if k == i {
            assert(replaced[k] == e);
        } else {
            assert(s.remove(i)[k - 1] == s[k]);
            assert(replaced[k] == s[k]);
        }
    }
}

/// The weighted averages stay within the range of their arguments, so they
/// fit the fixed-point type.
pub proof fn lemma_average_bounded(old_avg: u64, observed: u64)
    ensures
        recording_average(old_avg, observed) <= if old_avg >= observed {
            old_avg
        } else {
            observed
        },
        feedback_average(old_avg, observed) <= if old_avg >= observed {
            old_avg
        } else {
            observed
        },
        (8 * old_avg + 2 * observed) / 10 <= if old_avg >= observed {
            old_avg as int
        } else {
            observed as int
        },
        (9 * old_avg + observed) / 10 <= if old_avg >= observed {
            old_avg as int
        } else {
            observed as int
        },
{
    let m: int = if old_avg >= observed {
        old_avg as int
    } else {
        observed as int
    };
    vstd::arithmetic::div_mod::lemma_div_is_ordered(8 * old_avg + 2 * observed, 10 * m, 10);
    vstd::arithmetic::div_mod::lemma_div_is_ordered(9 * old_avg + observed, 10 * m, 10);
    vstd::arithmetic::div_mod::lemma_div_multiples_vanish(m, 10);
}

} // verus!
