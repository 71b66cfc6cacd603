//! Lessons: a chart (notation plus tempo timeline) together with practice
//! goals and cumulative practice statistics.

use vstd::prelude::*;

use crate::events::NotatedEvent;
use crate::tempo::TempoMap;

verus! {

/// A practice target for a lesson.
#[derive(Clone, Debug, PartialEq)]
pub struct PracticeGoal {
    /// Target tempo, thousandths of a BPM.
    pub target_tempo_bpm_milli: u32,
    /// Accuracy to reach, thousandths (0..=1000).
    pub accuracy_threshold_permille: u32,
    pub description: String,
}

/// Cumulative statistics rolled up across practice runs.
#[derive(Clone, Debug, PartialEq)]
pub struct PracticeStatistics {
    /// Smoothed accuracy, thousandths (0..=1000).
    pub average_accuracy_permille: u32,
    pub highest_streak: u32,
    /// Unix timestamp (seconds) of the last practice, if any.
    pub last_practiced: Option<i64>,
}

impl PracticeStatistics {
    /// Fresh statistics: nothing practiced yet.
    pub fn new() -> (s: PracticeStatistics)
        ensures
            s.average_accuracy_permille == 0,
            s.highest_streak == 0,
            s.last_practiced is None,
    {
        PracticeStatistics { average_accuracy_permille: 0, highest_streak: 0, last_practiced: None }
    }
}

impl Default for PracticeStatistics {
    fn default() -> (s: PracticeStatistics)
        ensures
            s.average_accuracy_permille == 0,
            s.highest_streak == 0,
            s.last_practiced is None,
    {
        PracticeStatistics::new()
    }
}

/// A lesson: identity and metadata, the tempo timeline, and the notated
/// chart. The notation carries no ordering invariant: the matcher never
/// assumes it is sorted by beat.
#[derive(Clone, Debug, PartialEq)]
pub struct LessonDescriptor {
    pub id: String,
    pub title: String,
    pub description: String,
    pub difficulty: u8,
    pub default_tempo: TempoMap,
    pub notation: Vec<NotatedEvent>,
    pub goals: Vec<PracticeGoal>,
    pub stats: PracticeStatistics,
}

impl LessonDescriptor {
    /// A lesson is usable when its tempo timeline is well-formed.
    pub open spec fn wf(&self) -> bool {
        self.default_tempo.wf()
    }

    /// Assemble a lesson with no goals and fresh statistics.
    pub fn new(
        id: &str,
        title: &str,
        description: &str,
        difficulty: u8,
        default_tempo: TempoMap,
        notation: Vec<NotatedEvent>,
    ) -> (l: LessonDescriptor)
        ensures
            l.id@ == id@,
            l.title@ == title@,
            l.description@ == description@,
            l.difficulty == difficulty,
            l.default_tempo == default_tempo,
            l.notation@ == notation@,
            l.goals@.len() == 0,
            l.stats == (PracticeStatistics {
                average_accuracy_permille: 0,
                highest_streak: 0,
                last_practiced: None,
            }),
    {
        LessonDescriptor {
            id: id.to_owned(),
            title: title.to_owned(),
            description: description.to_owned(),
            difficulty,
            default_tempo,
            notation,
            goals: Vec::new(),
            stats: PracticeStatistics::new(),
        }
    }

    /// The largest notated beat, or zero for an empty chart: the natural end
    /// boundary of a whole-chart pass.
    pub fn max_beat(&self) -> (m: u64)
        ensures
            self.notation@.len() == 0 ==> m == 0,
            forall|i: int| 0 <= i < self.notation@.len() ==> self.notation@[i].event.beat <= m,
            self.notation@.len() > 0 ==> exists|i: int|
                0 <= i < self.notation@.len() && self.notation@[i].event.beat == m,
    {
        let mut m: u64 = 0;
        let mut i: usize = 0;
        let mut found: bool = false;
        let ghost n = self.notation@;
        while i < self.notation.len()
            invariant
                n == self.notation@,
                i <= n.len(),
                forall|k: int| 0 <= k < i ==> n[k].event.beat <= m,
                !found ==> m == 0,
                found ==> exists|k: int| 0 <= k < i && n[k].event.beat == m,
                i > 0 ==> found,
            decreases n.len() - i,
        {
            if !found || self.notation[i].event.beat > m {
                m = self.notation[i].event.beat;
                found = true;
            }
            i += 1;
        }
        m
    }
}

} // verus!
