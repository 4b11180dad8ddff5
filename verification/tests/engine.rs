//! Tests of the four engine operations against concrete stores.

use pattern_engine::calculate_confidence;
use pattern_engine::detect_speaker;
use pattern_engine::get_patterns;
use pattern_engine::store_pattern;
use pattern_engine::update_from_feedback;
use pattern_engine::ChapterWeight;
use pattern_engine::PatternMatch;
use pattern_engine::PatternStore;
use pattern_engine::SpeakerPattern;

const NOW: u64 = 1_700_000_000_000;
const DAY_MS: u64 = 86_400_000;

fn bare_pattern(identity: &str, last_active: u64, dialogue_length_avg: u64) -> SpeakerPattern {
    SpeakerPattern {
        identity: identity.to_string(),
        last_active,
        position_frequency: Vec::new(),
        common_followers: Vec::new(),
        common_preceders: Vec::new(),
        chapter_affinity: Vec::new(),
        dialogue_length_avg,
    }
}

fn affinity_of(pattern: &SpeakerPattern, chapter: &str) -> Option<u64> {
    pattern
        .chapter_affinity
        .iter()
        .find(|entry| entry.chapter == chapter)
        .map(|entry| entry.weight)
}

fn count_of(pattern: &SpeakerPattern, chapter: &str, position: usize) -> Option<u64> {
    pattern
        .position_frequency
        .iter()
        .find(|entry| entry.chapter == chapter && entry.position == position)
        .map(|entry| entry.count)
}

fn entry_of<'a>(store: &'a PatternStore, identity: &str) -> Option<&'a SpeakerPattern> {
    store.entries.iter().find(|entry| entry.identity == identity)
}

#[test]
fn test_calculate_confidence_high() {
    let signals = PatternMatch {
        recent: true,
        chapter_frequency: 900,
        turn_taking: true,
        name_mention: true,
        dialogue_length_score: 800,
    };
    let confidence = calculate_confidence(Some(&signals));
    // High confidence expected: 300 + 225 + 200 + 100 + 120 = 945
    assert!(confidence > 900);
    assert!(confidence <= 1000);
}

#[test]
fn test_calculate_confidence_low() {
    let signals = PatternMatch {
        recent: false,
        chapter_frequency: 100,
        turn_taking: false,
        name_mention: false,
        dialogue_length_score: 200,
    };
    let confidence = calculate_confidence(Some(&signals));
    // Low confidence expected: 0 + 25 + 0 + 0 + 30 = 55
    assert!(confidence < 200);
}

#[test]
fn test_calculate_confidence_invalid_json() {
    // A signal bundle that could not be read reaches the engine as `None`.
    let confidence = calculate_confidence(None);
    assert_eq!(confidence, 500);
}

#[test]
fn confidence_high_exact_value() {
    let signals = PatternMatch {
        recent: true,
        chapter_frequency: 900,
        turn_taking: true,
        name_mention: true,
        dialogue_length_score: 800,
    };
    assert_eq!(calculate_confidence(Some(&signals)), 945);
}

#[test]
fn confidence_low_exact_value() {
    let signals = PatternMatch {
        recent: false,
        chapter_frequency: 100,
        turn_taking: false,
        name_mention: false,
        dialogue_length_score: 200,
    };
    assert_eq!(calculate_confidence(Some(&signals)), 55);
}

#[test]
fn confidence_clamps_out_of_range_signals() {
    let high = PatternMatch {
        recent: true,
        chapter_frequency: 4000,
        turn_taking: true,
        name_mention: true,
        dialogue_length_score: 4000,
    };
    assert_eq!(calculate_confidence(Some(&high)), 1000);
    let low = PatternMatch {
        recent: false,
        chapter_frequency: -4000,
        turn_taking: false,
        name_mention: false,
        dialogue_length_score: 0,
    };
    assert_eq!(calculate_confidence(Some(&low)), 0);
}

#[test]
fn test_store_pattern_new() {
    let updated = store_pattern("speaker1", "chapter1", 5, 25_000, None, NOW);
    let pattern = entry_of(&updated, "speaker1").expect("record was created");
    assert_eq!(pattern.identity, "speaker1");
    assert!(pattern.last_active > 0);
    assert_eq!(pattern.dialogue_length_avg, 25_000);
}

#[test]
fn test_store_pattern_update() {
    let existing = bare_pattern("speaker1", 1000, 20_000);
    let store = PatternStore { entries: vec![existing] };
    let updated = store_pattern("speaker1", "chapter1", 5, 30_000, Some(store), NOW);
    let pattern = entry_of(&updated, "speaker1").expect("record kept");
    // Moving average: 20.0 * 0.8 + 30.0 * 0.2 = 22.0
    assert_eq!(pattern.dialogue_length_avg, 22_000);
    assert!(pattern.last_active > 1000);
}

#[test]
fn record_fills_position_and_chapter_tallies() {
    let updated = store_pattern("speaker1", "chapter1", 5, 25_000, None, NOW);
    let pattern = entry_of(&updated, "speaker1").expect("record was created");
    assert_eq!(pattern.last_active, NOW);
    assert_eq!(count_of(pattern, "chapter1", 5), Some(1));
    assert_eq!(affinity_of(pattern, "chapter1"), Some(1000));
    assert_eq!(count_of(pattern, "chapter1", 6), None);
    assert_eq!(affinity_of(pattern, "chapter2"), None);
}

#[test]
fn record_twice_accumulates_tallies() {
    let once = store_pattern("speaker1", "chapter1", 5, 25_000, None, NOW);
    let twice = store_pattern("speaker1", "chapter1", 5, 25_000, Some(once), NOW + 10);
    let pattern = entry_of(&twice, "speaker1").expect("record kept");
    assert_eq!(count_of(pattern, "chapter1", 5), Some(2));
    assert_eq!(affinity_of(pattern, "chapter1"), Some(2000));
    // 25.0 * 0.8 + 25.0 * 0.2 stays 25.0
    assert_eq!(pattern.dialogue_length_avg, 25_000);
    assert_eq!(twice.entries.len(), 1);
}

#[test]
fn test_get_patterns_existing() {
    let store = PatternStore { entries: vec![bare_pattern("speaker1", 12345, 25_000)] };
    let found = get_patterns("speaker1", Some(&store)).expect("record exists");
    assert_eq!(found.identity, "speaker1");
    assert_eq!(found.last_active, 12345);
}

#[test]
fn test_get_patterns_not_found() {
    let store = PatternStore { entries: Vec::new() };
    assert!(get_patterns("speaker1", Some(&store)).is_none());
}

#[test]
fn test_update_from_feedback_boost_accepted() {
    let passage = "Hello world this is a test";
    let updated = update_from_feedback(
        passage,
        "speaker1",
        Some(Vec::new()),
        Some(PatternStore { entries: Vec::new() }),
        NOW,
    );
    let pattern = entry_of(&updated, "speaker1").expect("record was created");
    assert_eq!(pattern.identity, "speaker1");
    // 6 words, in thousandths
    assert_eq!(pattern.dialogue_length_avg, 6000);
}

#[test]
fn test_update_from_feedback_penalize_rejected() {
    let store = PatternStore { entries: vec![bare_pattern("speaker2", NOW, 20_000)] };
    let rejected = vec!["speaker2".to_string()];
    let updated = update_from_feedback("test", "speaker1", Some(rejected), Some(store), NOW);
    let pattern = entry_of(&updated, "speaker2").expect("record kept");
    assert!(pattern.last_active < NOW);
}

#[test]
fn feedback_penalty_is_one_day_clamped_at_zero() {
    let store = PatternStore {
        entries: vec![bare_pattern("old", NOW, 0), bare_pattern("barely", 100, 0)],
    };
    let rejected = vec!["old".to_string(), "barely".to_string()];
    let updated = update_from_feedback("a passage", "fresh", Some(rejected), Some(store), NOW);
    assert_eq!(entry_of(&updated, "old").unwrap().last_active, NOW - DAY_MS);
    assert_eq!(entry_of(&updated, "barely").unwrap().last_active, 0);
}

#[test]
fn feedback_moves_average_slowly() {
    let store = PatternStore { entries: vec![bare_pattern("speaker1", 500, 20_000)] };
    let passage = "Hello world this is a test";
    let updated = update_from_feedback(passage, "speaker1", None, Some(store), NOW);
    let pattern = entry_of(&updated, "speaker1").expect("record kept");
    // 20.0 * 0.9 + 6.0 * 0.1 = 18.6
    assert_eq!(pattern.dialogue_length_avg, 18_600);
    assert_eq!(pattern.last_active, NOW);
}

#[test]
fn feedback_rejection_never_creates_a_record() {
    let store = PatternStore { entries: Vec::new() };
    let rejected = vec!["unknown".to_string()];
    let updated = update_from_feedback("text here", "accepted", Some(rejected), Some(store), NOW);
    assert!(entry_of(&updated, "unknown").is_none());
    assert_eq!(updated.entries.len(), 1);
}

#[test]
fn feedback_on_empty_passage_starts_average_at_zero() {
    let updated = update_from_feedback("", "speaker1", None, None, NOW);
    let pattern = entry_of(&updated, "speaker1").expect("record was created");
    assert_eq!(pattern.dialogue_length_avg, 0);
}

#[test]
fn test_detect_speaker_empty_patterns() {
    let store = PatternStore { entries: Vec::new() };
    let result = detect_speaker("test text", "chapter1", 5, Some(&store), NOW);
    assert_eq!(result, "speaker1");
}

#[test]
fn test_detect_speaker_scores() {
    let mut recent = bare_pattern("speaker_recent", NOW - 1000, 5000);
    recent
        .chapter_affinity
        .push(ChapterWeight { chapter: "chapter1".to_string(), weight: 10_000 });
    let old = bare_pattern("speaker_old", NOW - 10_000_000, 5000);
    let store = PatternStore { entries: vec![recent, old] };
    let result = detect_speaker("test text", "chapter1", 5, Some(&store), NOW);
    assert_eq!(result, "speaker_recent");
}

#[test]
fn detect_on_unreadable_store_returns_default() {
    assert_eq!(detect_speaker("some text", "chapter1", 0, None, NOW), "speaker1");
}

#[test]
fn detect_with_all_scores_zero_returns_default() {
    // One known speaker, long inactive, no tallies, no average: score 0,
    // which does not beat the default's starting score.
    let store = PatternStore { entries: vec![bare_pattern("quiet", 0, 0)] };
    assert_eq!(detect_speaker("test text", "chapter1", 5, Some(&store), NOW), "speaker1");
}

#[test]
fn detect_breaks_ties_in_store_order() {
    let first = bare_pattern("first", NOW - 1000, 0);
    let second = bare_pattern("second", NOW - 1000, 0);
    let store = PatternStore { entries: vec![first, second] };
    assert_eq!(detect_speaker("test text", "chapter1", 5, Some(&store), NOW), "first");
}

#[test]
fn detect_prefers_matching_length() {
    // Same recency; one average matches the passage length exactly.
    let matching = bare_pattern("matching", NOW - 1000, 2000);
    let off = bare_pattern("off", NOW - 1000, 9000);
    let store = PatternStore { entries: vec![off, matching] };
    // "test text" has 2 words
    assert_eq!(detect_speaker("test text", "chapter1", 5, Some(&store), NOW), "matching");
}

#[test]
fn rejection_order_does_not_matter() {
    let build = || PatternStore {
        entries: vec![bare_pattern("a", NOW, 5000), bare_pattern("b", NOW, 7000)],
    };
    let one_way = update_from_feedback(
        "a line",
        "c",
        Some(vec!["a".to_string(), "b".to_string()]),
        Some(build()),
        NOW,
    );
    let other_way = update_from_feedback(
        "a line",
        "c",
        Some(vec!["b".to_string(), "a".to_string()]),
        Some(build()),
        NOW,
    );
    for identity in ["a", "b", "c"] {
        let lhs = entry_of(&one_way, identity).unwrap();
        let rhs = entry_of(&other_way, identity).unwrap();
        assert_eq!(lhs.last_active, rhs.last_active);
        assert_eq!(lhs.dialogue_length_avg, rhs.dialogue_length_avg);
    }
}
