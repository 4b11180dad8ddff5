//! The data the engine works on: the per-call signal bundle, the per-speaker
//! pattern record, and the store that maps identities to records.

use vstd::prelude::*;

use crate::model::views_of;
use crate::model::PatternModel;

verus! {

/// The five independent signals a caller supplies when asking for a
/// confidence value about one candidate speaker. The bundle is ephemeral:
/// it is built by the caller from context the engine does not compute, and
/// is not persisted.
///
/// The two graded signals are fixed-point values in thousandths: `1000`
/// stands for 1.0. They are expected to lie in `0..=1000` but are not
/// clamped on input; the final confidence is clamped instead.
#[derive(Clone, Copy, Debug)]
pub struct PatternMatch {
    /// The candidate spoke recently in the text.
    pub recent: bool,
    /// How strongly the candidate dominates the current chapter, in
    /// thousandths.
    pub chapter_frequency: i64,
    /// An A-B-A turn-taking pattern suggests the candidate.
    pub turn_taking: bool,
    /// The candidate's name is mentioned in the narrative context.
    pub name_mention: bool,
    /// How well the passage's length matches the candidate's typical
    /// dialogue length, in thousandths.
    pub dialogue_length_score: i64,
}

/// Aggregate context about the text under attribution. Part of the record
/// shapes the engine exchanges with its host; no current operation consumes
/// it.
#[derive(Clone, Copy, Debug)]
pub struct Context {
    pub total_passages: usize,
    pub unique_speakers: usize,
    /// Average dialogue length over all passages, in thousandths of a word.
    pub avg_dialogue_length: u64,
}

/// One entry of a speaker's position-frequency table: how often the speaker
/// was confirmed at a structural position of a chapter. The chapter and the
/// position together form the key.
#[derive(Clone, Debug)]
pub struct PositionCount {
    pub chapter: String,
    pub position: usize,
    /// Number of confirmations at this position; only ever increases.
    pub count: u64,
}

impl View for PositionCount {
    type V = (Seq<char>, int, u64);

    open spec fn view(&self) -> (Seq<char>, int, u64) {
        (self.chapter@, self.position as int, self.count)
    }
}

/// One entry of a speaker's chapter-affinity table: the accumulated weight
/// of the speaker's confirmations in one chapter, in thousandths. The weight
/// only ever increases.
#[derive(Clone, Debug)]
pub struct ChapterWeight {
    pub chapter: String,
    /// Accumulated affinity, in thousandths: each confirmation adds `1000`.
    pub weight: u64,
}

impl View for ChapterWeight {
    type V = (Seq<char>, u64);

    open spec fn view(&self) -> (Seq<char>, u64) {
        (self.chapter@, self.weight)
    }
}

/// Everything the engine has learned about one speaker.
#[derive(Clone, Debug)]
pub struct SpeakerPattern {
    /// Opaque stable key naming the speaker.
    pub identity: String,
    /// Milliseconds since the epoch at the speaker's last confirmation.
    /// Feedback may artificially decrease it as a rejection penalty; only a
    /// confirmation increases it.
    pub last_active: u64,
    /// How often the speaker was confirmed at each (chapter, position) key.
    pub position_frequency: Vec<PositionCount>,
    /// Identities that tend to speak after this speaker. Present in the
    /// record shape for future use; no current operation fills or reads it.
    pub common_followers: Vec<String>,
    /// Identities that tend to speak before this speaker. Present in the
    /// record shape for future use; no current operation fills or reads it.
    pub common_preceders: Vec<String>,
    /// Accumulated confirmation weight per chapter.
    pub chapter_affinity: Vec<ChapterWeight>,
    /// Exponentially smoothed average word count of the speaker's confirmed
    /// dialogue, in thousandths of a word; `0` until the first observation.
    pub dialogue_length_avg: u64,
}

impl View for SpeakerPattern {
    type V = PatternModel;

    open spec fn view(&self) -> PatternModel {
        PatternModel {
            identity: self.identity@,
            last_active: self.last_active,
            position_frequency: views_of(self.position_frequency@),
            common_followers: views_of(self.common_followers@),
            common_preceders: views_of(self.common_preceders@),
            chapter_affinity: views_of(self.chapter_affinity@),
            dialogue_length_avg: self.dialogue_length_avg,
        }
    }
}

/// All accumulated speaker patterns, keyed by identity.
///
/// Entries keep their insertion order, and lookups take the first entry with
/// a matching identity; the engine never creates two entries for one
/// identity, so the first match is the only one. The order is observable:
/// detection breaks ties in favor of the earlier entry.
#[derive(Clone, Debug)]
pub struct PatternStore {
    pub entries: Vec<SpeakerPattern>,
}

impl View for PatternStore {
    type V = Seq<PatternModel>;

    open spec fn view(&self) -> Seq<PatternModel> {
        views_of(self.entries@)
    }
}

impl PatternStore {
    /// A store with no pattern observed yet.
    pub fn new() -> (store: PatternStore)
        ensures
            store@ == Seq::<PatternModel>::empty(),
    {
        let store = PatternStore { entries: Vec::new() };
        proof {
            assert(store@ =~= Seq::<PatternModel>::empty());
        }
        store
    }
}

/// The model of an owned store argument; a store that could not be read is
/// handed in as `None` and treated as empty.
pub open spec fn optional_patterns(store: Option<PatternStore>) -> Seq<PatternModel> {
    match store {
        Some(s) => s@,
        None => Seq::empty(),
    }
}

/// The model of a borrowed store argument; a store that could not be read is
/// handed in as `None` and treated as empty.
pub open spec fn optional_patterns_ref(store: Option<&PatternStore>) -> Seq<PatternModel> {
    match store {
        Some(s) => s@,
        None => Seq::empty(),
    }
}

/// The model of an identity-list argument; a list that could not be read is
/// handed in as `None` and treated as empty.
pub open spec fn optional_names(names: Option<Vec<String>>) -> Seq<Seq<char>> {
    match names {
        Some(v) => views_of(v@),
        None => Seq::empty(),
    }
}

} // verus!
