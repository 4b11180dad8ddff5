//! Laws of the engine, stated over the model and proved once for all
//! inputs.

use vstd::prelude::*;

use crate::model::accept_spec;
use crate::model::affinity_weight;
use crate::model::bump_affinity;
use crate::model::bump_position;
use crate::model::default_speaker;
use crate::model::detect_spec;
use crate::model::empty_pattern;
use crate::model::feedback_average;
use crate::model::feedback_spec;
use crate::model::affinity_index;
use crate::model::has_speaker;
use crate::model::lemma_affinity_index_char;
use crate::model::lemma_position_index_char;
use crate::model::lemma_store_index_char;
use crate::model::penalize_one;
use crate::model::penalize_upto;
use crate::model::position_count;
use crate::model::position_index;
use crate::model::length_points;
use crate::model::record_into;
use crate::model::record_spec;
use crate::model::sat_add_u64;
use crate::model::sat_sub_u64;
use crate::model::store_index;
use crate::model::best_upto;
use crate::model::speaker_points;
use crate::model::stored_pattern;
use crate::model::PatternModel;
use crate::model::REJECTION_PENALTY_MS;
use crate::scorer::confidence_value;
use crate::types::PatternMatch;

verus! {

/// Law: the confidence value lies in the unit range for every signal
/// bundle, however far outside the expected range the graded signals are.
pub proof fn lemma_confidence_within_unit(signals: PatternMatch)
    ensures
        0 <= confidence_value(signals) <= 1000,
{
}

/// Law: with no pattern observed yet, detection reports the default
/// identity, whatever the passage and its context.
pub proof fn lemma_detect_empty_returns_default(
    now: u64,
    chapter: Seq<char>,
    position: int,
    words: int,
)
    ensures
        detect_spec(Seq::empty(), now, chapter, position, words) == default_speaker(),
{
}

/// Bumping a position tally raises the count stored at that key by one,
/// saturating at the largest representable count.
pub proof fn lemma_bump_position_count(
    entries: Seq<(Seq<char>, int, u64)>,
    chapter: Seq<char>,
    position: int,
)
    ensures
        position_count(bump_position(entries, chapter, position), chapter, position)
            == sat_add_u64(position_count(entries, chapter, position), 1),
{
    lemma_position_index_char(entries, chapter, position);
    let i = position_index(entries, chapter, position);
    if i >= 0 {
        let bumped = entries.update(i, (chapter, position, sat_add_u64(entries[i].2, 1)));
        lemma_position_index_char(bumped, chapter, position);
        assert(bumped[i].0 == chapter && bumped[i].1 == position);
        assert(position_index(bumped, chapter, position) == i);
    } else {
        let bumped = entries.push((chapter, position, 1u64));
        lemma_position_index_char(bumped, chapter, position);
        assert(bumped[entries.len() as int].0 == chapter);
        assert(position_index(bumped, chapter, position) == entries.len());
    }
}

/// Bumping a chapter affinity raises the weight stored for that chapter by
/// one whole confirmation, saturating at the largest representable weight.
pub proof fn lemma_bump_affinity_weight(entries: Seq<(Seq<char>, u64)>, chapter: Seq<char>)
    ensures
        affinity_weight(bump_affinity(entries, chapter), chapter) == sat_add_u64(
            affinity_weight(entries, chapter),
            1000,
        ),
{
    lemma_affinity_index_char(entries, chapter);
    let i = affinity_index(entries, chapter);
    if i >= 0 {
        let bumped = entries.update(i, (chapter, sat_add_u64(entries[i].1, 1000)));
        lemma_affinity_index_char(bumped, chapter);
        assert(bumped[i].0 == chapter);
        assert(affinity_index(bumped, chapter) == i);
    } else {
        let bumped = entries.push((chapter, 1000u64));
        lemma_affinity_index_char(bumped, chapter);
        assert(bumped[entries.len() as int].0 == chapter);
        assert(affinity_index(bumped, chapter) == entries.len());
    }
}

/// Recording an observation leaves the identity with a record whose
/// position and chapter tallies are one observation higher than before
/// (counting from zero for a new identity).
pub proof fn lemma_record_updates_tallies(
    store: Seq<PatternModel>,
    identity: Seq<char>,
    chapter: Seq<char>,
    position: int,
    dialogue_length: u64,
    now: u64,
)
    ensures
        ({
            let updated = record_spec(store, identity, chapter, position, dialogue_length, now);
            let prior_count = if has_speaker(store, identity) {
                position_count(stored_pattern(store, identity).position_frequency, chapter,
                    position)
            } else {
                0u64
            };
            let prior_weight = if has_speaker(store, identity) {
                affinity_weight(stored_pattern(store, identity).chapter_affinity, chapter)
            } else {
                0u64
            };
            &&& has_speaker(updated, identity)
            &&& position_count(
                stored_pattern(updated, identity).position_frequency,
                chapter,
                position,
            ) == sat_add_u64(prior_count, 1)
            &&& affinity_weight(stored_pattern(updated, identity).chapter_affinity, chapter)
                == sat_add_u64(prior_weight, 1000)
        }),
{
    lemma_store_index_char(store, identity);
    let i = store_index(store, identity);
    if i >= 0 {
        let renewed = record_into(store[i], identity, chapter, position, dialogue_length, now);
        let updated = store.update(i, renewed);
        lemma_store_index_char(updated, identity);
        assert(updated[i].identity == identity);
        assert(store_index(updated, identity) == i);
        lemma_bump_position_count(store[i].position_frequency, chapter, position);
        lemma_bump_affinity_weight(store[i].chapter_affinity, chapter);
    } else {
        let fresh = record_into(empty_pattern(identity), identity, chapter, position,
            dialogue_length, now);
        let updated = store.push(fresh);
        lemma_store_index_char(updated, identity);
        assert(updated[store.len() as int].identity == identity);
        assert(store_index(updated, identity) == store.len());
        lemma_bump_position_count(Seq::empty(), chapter, position);
        lemma_bump_affinity_weight(Seq::empty(), chapter);
    }
}

/// Law: recording is cumulative, not idempotent. A second observation with
/// identical inputs raises the position and chapter tallies again: they
/// never decrease, and below saturation the second observation adds exactly
/// one count and one confirmation weight on top of the first.
pub proof fn lemma_record_is_cumulative(
    store: Seq<PatternModel>,
    identity: Seq<char>,
    chapter: Seq<char>,
    position: int,
    dialogue_length: u64,
    first_now: u64,
    second_now: u64,
)
    ensures
        ({
            let once = record_spec(store, identity, chapter, position, dialogue_length,
                first_now);
            let twice = record_spec(once, identity, chapter, position, dialogue_length,
                second_now);
            let first_count = position_count(
                stored_pattern(once, identity).position_frequency,
                chapter,
                position,
            );
            let second_count = position_count(
                stored_pattern(twice, identity).position_frequency,
                chapter,
                position,
            );
            let first_weight = affinity_weight(
                stored_pattern(once, identity).chapter_affinity,
                chapter,
            );
            let second_weight = affinity_weight(
                stored_pattern(twice, identity).chapter_affinity,
                chapter,
            );
            &&& has_speaker(once, identity) && has_speaker(twice, identity)
            &&& second_count >= first_count >= 1
            &&& second_weight >= first_weight >= 1000
            &&& first_count < u64::MAX ==> second_count == first_count + 1
            &&& first_weight <= u64::MAX - 1000 ==> second_weight == first_weight + 1000
        }),
{
    lemma_record_updates_tallies(store, identity, chapter, position, dialogue_length, first_now);
    let once = record_spec(store, identity, chapter, position, dialogue_length, first_now);
    lemma_record_updates_tallies(once, identity, chapter, position, dialogue_length, second_now);
}

/// Law: one round of feedback with a single rejected identity ages that
/// identity's record by exactly the rejection penalty, saturating at the
/// epoch, and reinforces the accepted identity: its record becomes active
/// now and its length average follows the slow moving average, starting
/// from the passage's own length when no average existed.
pub proof fn lemma_feedback_single_rejection(
    store: Seq<PatternModel>,
    accepted: Seq<char>,
    rejected_identity: Seq<char>,
    dialogue_length: u64,
    now: u64,
)
    requires
        accepted != rejected_identity,
        has_speaker(store, rejected_identity),
    ensures
        ({
            let updated = feedback_spec(store, accepted, seq![rejected_identity],
                dialogue_length, now);
            let prior_avg = if has_speaker(store, accepted) {
                stored_pattern(store, accepted).dialogue_length_avg
            } else {
                0u64
            };
            &&& has_speaker(updated, rejected_identity)
            &&& stored_pattern(updated, rejected_identity).last_active == sat_sub_u64(
                stored_pattern(store, rejected_identity).last_active,
                REJECTION_PENALTY_MS,
            )
            &&& has_speaker(updated, accepted)
            &&& stored_pattern(updated, accepted).last_active == now
            &&& stored_pattern(updated, accepted).dialogue_length_avg == feedback_average(
                prior_avg,
                dialogue_length,
            )
        }),
{
    let rejected = seq![rejected_identity];
    let accepted_store = accept_spec(store, accepted, dialogue_length, now);
    assert(penalize_upto(accepted_store, rejected, 0) == accepted_store);
    assert(feedback_spec(store, accepted, rejected, dialogue_length, now) == penalize_one(
        accepted_store,
        rejected_identity,
    ));
    lemma_store_index_char(store, accepted);
    lemma_store_index_char(store, rejected_identity);
    let ia = store_index(store, accepted);
    let ir = store_index(store, rejected_identity);
    assert(forall|k: int|
        0 <= k < store.len() ==> accepted_store[k].identity == store[k].identity);
    lemma_store_index_char(accepted_store, rejected_identity);
    assert(store_index(accepted_store, rejected_identity) == ir);
    lemma_store_index_char(accepted_store, accepted);
    let ja = store_index(accepted_store, accepted);
    if ia >= 0 {
        assert(accepted_store[ia].identity == accepted);
    } else {
        assert(accepted_store[store.len() as int].identity == accepted);
    }
    assert(ja == if ia >= 0 {
        ia
    } else {
        store.len() as int
    });
    let aged = penalize_one(accepted_store, rejected_identity);
    assert(forall|k: int|
        0 <= k < accepted_store.len() ==> aged[k].identity == accepted_store[k].identity);
    lemma_store_index_char(aged, rejected_identity);
    assert(store_index(aged, rejected_identity) == ir);
    lemma_store_index_char(aged, accepted);
    assert(store_index(aged, accepted) == ja);
    assert(ja != ir);
    assert(accepted_store[ir] == store[ir]);
    assert(aged[ir].last_active == sat_sub_u64(store[ir].last_active, REJECTION_PENALTY_MS));
    assert(aged[ja] == accepted_store[ja]);
}

/// No two records in the store name one identity. Stores built by the
/// engine's own operations from an empty store always satisfy this.
pub open spec fn distinct_identities(store: Seq<PatternModel>) -> bool {
    forall|i: int, j: int|
        0 <= i < j < store.len() ==> store[i].identity != store[j].identity
}

/// Law: recording keeps the store's identities distinct; an observation
/// updates the one record for its identity or appends a record for an
/// identity the store did not have.
pub proof fn lemma_record_keeps_identities_distinct(
    store: Seq<PatternModel>,
    identity: Seq<char>,
    chapter: Seq<char>,
    position: int,
    dialogue_length: u64,
    now: u64,
)
    requires
        distinct_identities(store),
    ensures
        distinct_identities(
            record_spec(store, identity, chapter, position, dialogue_length, now),
        ),
{
    lemma_store_index_char(store, identity);
    let i = store_index(store, identity);
    let updated = record_spec(store, identity, chapter, position, dialogue_length, now);
    if i >= 0 {
        assert forall|a: int, b: int| 0 <= a < b < updated.len() implies updated[a].identity
            != updated[b].identity by {
            assert(updated[a].identity == store[a].identity);
            assert(updated[b].identity == store[b].identity);
        }
    } else {
        assert forall|a: int, b: int| 0 <= a < b < updated.len() implies updated[a].identity
            != updated[b].identity by {
            if b < store.len() {
            } else {
                assert(updated[b].identity == identity);
                assert(updated[a].identity == store[a].identity);
            }
        }
    }
}

/// Law: feedback keeps the store's identities distinct; the accepted
/// identity's record is updated or appended, and rejections only age
/// records that exist.
pub proof fn lemma_feedback_keeps_identities_distinct(
    store: Seq<PatternModel>,
    accepted: Seq<char>,
    rejected: Seq<Seq<char>>,
    dialogue_length: u64,
    now: u64,
)
    requires
        distinct_identities(store),
    ensures
        distinct_identities(feedback_spec(store, accepted, rejected, dialogue_length, now)),
{
    lemma_store_index_char(store, accepted);
    let accepted_store = accept_spec(store, accepted, dialogue_length, now);
    let i = store_index(store, accepted);
    if i >= 0 {
        assert forall|a: int, b: int| 0 <= a < b < accepted_store.len() implies
            accepted_store[a].identity != accepted_store[b].identity by {
            assert(accepted_store[a].identity == store[a].identity);
            assert(accepted_store[b].identity == store[b].identity);
        }
    } else {
        assert forall|a: int, b: int| 0 <= a < b < accepted_store.len() implies
            accepted_store[a].identity != accepted_store[b].identity by {
            if b < store.len() {
            } else {
                assert(accepted_store[b].identity == accepted);
                assert(accepted_store[a].identity == store[a].identity);
            }
        }
    }
    lemma_penalize_upto_keeps_identities_distinct(accepted_store, rejected,
        rejected.len() as int);
}

/// Aging one rejected identity leaves every record's identity in place.
proof fn lemma_penalize_one_keeps_identities_distinct(
    store: Seq<PatternModel>,
    identity: Seq<char>,
)
    requires
        distinct_identities(store),
    ensures
        distinct_identities(penalize_one(store, identity)),
{
    lemma_store_index_char(store, identity);
    let aged = penalize_one(store, identity);
    assert forall|a: int, b: int| 0 <= a < b < aged.len() implies aged[a].identity
        != aged[b].identity by {
        assert(aged[a].identity == store[a].identity);
        assert(aged[b].identity == store[b].identity);
    }
}

/// Aging any number of rejected identities leaves every record's identity
/// in place.
proof fn lemma_penalize_upto_keeps_identities_distinct(
    store: Seq<PatternModel>,
    rejected: Seq<Seq<char>>,
    n: int,
)
    requires
        distinct_identities(store),
    ensures
        distinct_identities(penalize_upto(store, rejected, n)),
    decreases n,
{
    if n > 0 {
        lemma_penalize_upto_keeps_identities_distinct(store, rejected, n - 1);
        lemma_penalize_one_keeps_identities_distinct(
            penalize_upto(store, rejected, n - 1),
            rejected[n - 1],
        );
    }
}

/// Law: a speaker's detection score lies in the unit range by
/// construction: the four contributions saturate at 400, 300, 200 and 100,
/// so no clamping is needed.
pub proof fn lemma_speaker_points_within_unit(
    p: PatternModel,
    now: u64,
    chapter: Seq<char>,
    position: int,
    words: int,
)
    ensures
        0 <= speaker_points(p, now, chapter, position, words) <= 1000,
{
    lemma_length_points_within_tenth(p.dialogue_length_avg, words);
}

/// The length-match contribution lies between 0 and 100.
proof fn lemma_length_points_within_tenth(avg: u64, words: int)
    ensures
        0 <= length_points(avg, words) <= 100,
{
    if avg > 0 && words > 0 {
        let observed = words * 1000;
        let difference: int = if observed >= avg {
            observed - avg
        } else {
            avg - observed
        };
        if difference < observed {
            vstd::arithmetic::div_mod::lemma_div_pos_is_pos(difference * 1000, observed);
            vstd::arithmetic::div_mod::lemma_div_is_ordered(
                difference * 1000,
                observed * 1000,
                observed,
            );
            vstd::arithmetic::div_mod::lemma_div_multiples_vanish(1000, observed);
            vstd::arithmetic::div_mod::lemma_div_pos_is_pos(
                1000 - difference * 1000 / observed,
                10,
            );
            vstd::arithmetic::div_mod::lemma_div_is_ordered(
                1000 - difference * 1000 / observed,
                1000,
                10,
            );
        }
    }
}

/// Law: detection reports a top score. No known speaker scores more than
/// the reported winner, and the winner is either the default identity (at
/// score zero or because the best score merely tied an earlier record) or a
/// record in the store that attains the reported score.
pub proof fn lemma_detect_reports_top_score(
    store: Seq<PatternModel>,
    now: u64,
    chapter: Seq<char>,
    position: int,
    words: int,
)
    ensures
        ({
            let winner = best_upto(store, now, chapter, position, words, store.len() as int);
            &&& forall|k: int|
                0 <= k < store.len() ==> speaker_points(store[k], now, chapter, position, words)
                    <= winner.1
            &&& winner == (default_speaker(), 0int) || exists|k: int|
                0 <= k < store.len() && store[k].identity == winner.0 && speaker_points(
                    store[k],
                    now,
                    chapter,
                    position,
                    words,
                ) == winner.1
        }),
{
    lemma_best_upto_bounds(store, now, chapter, position, words, store.len() as int);
}

/// The running best over a prefix bounds every score in the prefix and is
/// attained by a record in it, unless it is still the default.
proof fn lemma_best_upto_bounds(
    store: Seq<PatternModel>,
    now: u64,
    chapter: Seq<char>,
    position: int,
    words: int,
    n: int,
)
    requires
        0 <= n <= store.len(),
    ensures
        ({
            let winner = best_upto(store, now, chapter, position, words, n);
            &&& winner.1 >= 0
            &&& forall|k: int|
                0 <= k < n ==> speaker_points(store[k], now, chapter, position, words)
                    <= winner.1
            &&& winner == (default_speaker(), 0int) || exists|k: int|
                0 <= k < n && store[k].identity == winner.0 && speaker_points(
                    store[k],
                    now,
                    chapter,
                    position,
                    words,
                ) == winner.1
        }),
    decreases n,
{
    if n > 0 {
        lemma_best_upto_bounds(store, now, chapter, position, words, n - 1);
    }
}

/// Law: penalizing two different rejected identities commutes; the order in
/// which a feedback round walks its rejected set does not matter.
pub proof fn lemma_penalties_commute(
    store: Seq<PatternModel>,
    first: Seq<char>,
    second: Seq<char>,
)
    requires
        first != second,
    ensures
        penalize_one(penalize_one(store, first), second) == penalize_one(
            penalize_one(store, second),
            first,
        ),
{
    lemma_store_index_char(store, first);
    lemma_store_index_char(store, second);
    let i = store_index(store, first);
    let j = store_index(store, second);
    let aged_first = penalize_one(store, first);
    let aged_second = penalize_one(store, second);
    assert(forall|k: int|
        0 <= k < store.len() ==> aged_first[k].identity == store[k].identity);
    assert(forall|k: int|
        0 <= k < store.len() ==> aged_second[k].identity == store[k].identity);
    lemma_store_index_char(aged_first, second);
    lemma_store_index_char(aged_second, first);
    if i >= 0 {
        assert(aged_second[i].identity == first);
    }
    if j >= 0 {
        assert(aged_first[j].identity == second);
    }
    assert(store_index(aged_first, second) == j);
    assert(store_index(aged_second, first) == i);
    if i >= 0 && j >= 0 {
        assert(i != j);
        assert(aged_first[j] == store[j]);
        assert(aged_second[i] == store[i]);
        assert(penalize_one(aged_first, second) =~= penalize_one(aged_second, first));
    }
}

} // verus!
