//! Batch scoring: a post-hoc, positional comparison of a captured hit log
//! against the chart. Deliberately simpler than the live matcher: the i-th
//! expected entry is compared only to the i-th captured hit, regardless of
//! piece, under a fixed tolerance.

use vstd::prelude::*;

use crate::events::DrumEvent;
use crate::lesson::LessonDescriptor;
use crate::matcher::beat_distance;

verus! {

/// Micro-beats of tolerance for a positional pair in beat-space scoring.
pub const BATCH_TOLERANCE_MICROBEATS: u64 = 250_000;

/// Summary of a batch-scored run: matched fraction in thousandths, and how
/// many matched pairs were early or late.
#[derive(Clone, Copy, Debug, PartialEq, Eq, Structural)]
pub struct PerformanceReport {
    /// Matched entries per thousand chart entries (0..=1000).
    pub accuracy_permille: u32,
    pub early_hits: usize,
    pub late_hits: usize,
}

impl PerformanceReport {
    /// The report of an empty run: zero accuracy, nothing early or late.
    pub fn empty() -> (r: PerformanceReport)
        ensures
            r.accuracy_permille == 0,
            r.early_hits == 0,
            r.late_hits == 0,
    {
        PerformanceReport { accuracy_permille: 0, early_hits: 0, late_hits: 0 }
    }
}

/// Whether the i-th pair matches under timed scoring: the beat distance,
/// priced at `spb_micros` microseconds per beat, is under the 50 ms
/// tolerance. The comparison is exact (no intermediate rounding).
pub open spec fn pair_matched_timed(
    expected: NotatedEvent,
    actual: DrumEvent,
    spb_micros: int,
) -> bool {
    beat_distance(actual.beat as int, expected.event.beat as int) * spb_micros < 50_000_000_000
}

/// Whether the i-th pair matches under beat-space scoring: within a quarter
/// beat.
pub open spec fn pair_matched_plain(expected: NotatedEvent, actual: DrumEvent) -> bool {
    beat_distance(actual.beat as int, expected.event.beat as int) < 250_000
}

/// Number of matched pairs among the first `k`, under timed scoring.
pub open spec fn count_matched_timed(
    notation: Seq<NotatedEvent>,
    hits: Seq<DrumEvent>,
    spb_micros: int,
    k: int,
) -> int
    decreases k,
{
    if k <= 0 {
        0
    } else {
        count_matched_timed(notation, hits, spb_micros, k - 1) + (
        if k - 1 < hits.len() && pair_matched_timed(notation[k - 1], hits[k - 1], spb_micros) {
            1int
        } else {
            0int
        })
    }
}

/// Number of early pairs (matched, struck before the expectation) among the
/// first `k`, under timed scoring.
pub open spec fn count_early_timed(
    notation: Seq<NotatedEvent>,
    hits: Seq<DrumEvent>,
    spb_micros: int,
    k: int,
) -> int
    decreases k,
{
    if k <= 0 {
        0
    } else {
        count_early_timed(notation, hits, spb_micros, k - 1) + (
        if k - 1 < hits.len() && pair_matched_timed(notation[k - 1], hits[k - 1], spb_micros)
            && hits[k - 1].beat < notation[k - 1].event.beat {
            1int
        } else {
            0int
        })
    }
}

/// Number of late pairs (matched, struck after the expectation) among the
/// first `k`, under timed scoring.
pub open spec fn count_late_timed(
    notation: Seq<NotatedEvent>,
    hits: Seq<DrumEvent>,
    spb_micros: int,
    k: int,
) -> int
    decreases k,
{
    if k <= 0 {
        0
    } else {
        count_late_timed(notation, hits, spb_micros, k - 1) + (
        if k - 1 < hits.len() && pair_matched_timed(notation[k - 1], hits[k - 1], spb_micros)
            && hits[k - 1].beat > notation[k - 1].event.beat {
            1int
        } else {
            0int
        })
    }
}

/// Number of matched pairs among the first `k`, under beat-space scoring.
pub open spec fn count_matched_plain(
    notation: Seq<NotatedEvent>,
    hits: Seq<DrumEvent>,
    k: int,
) -> int
    decreases k,
{
    if k <= 0 {
        0
    } else {
        count_matched_plain(notation, hits, k - 1) + (
        if k - 1 < hits.len() && pair_matched_plain(notation[k - 1], hits[k - 1]) {
            1int
        } else {
            0int
        })
    }
}

/// Number of early pairs among the first `k`, under beat-space scoring.
pub open spec fn count_early_plain(notation: Seq<NotatedEvent>, hits: Seq<DrumEvent>, k: int) -> int
    decreases k,
{
    if k <= 0 {
        0
    } else {
        count_early_plain(notation, hits, k - 1) + (
        if k - 1 < hits.len() && pair_matched_plain(notation[k - 1], hits[k - 1]) && hits[k
            - 1].beat < notation[k - 1].event.beat {
            1int
        } else {
            0int
        })
    }
}

/// Number of late pairs among the first `k`, under beat-space scoring.
pub open spec fn count_late_plain(notation: Seq<NotatedEvent>, hits: Seq<DrumEvent>, k: int) -> int
    decreases k,
{
    if k <= 0 {
        0
    } else {
        count_late_plain(notation, hits, k - 1) + (
        if k - 1 < hits.len() && pair_matched_plain(notation[k - 1], hits[k - 1]) && hits[k
            - 1].beat > notation[k - 1].event.beat {
            1int
        } else {
            0int
        })
    }
}

/// Accuracy in thousandths: matched count scaled by 1000 over the chart
/// length. Zero for an empty chart, by definition, with no division.
pub open spec fn spec_accuracy_permille(matched: int, total: int) -> int {
    if total == 0 {
        0
    } else {
        matched * 1000 / total
    }
}

use crate::events::NotatedEvent;

/// The batch scoring engine.
#[derive(Clone, Copy, Debug)]
pub struct ScoringEngine;

impl ScoringEngine {
    /// Score with a seconds-per-beat value (given in microseconds per beat,
    /// as derived from the practice tempo): a pair matches when its timing
    /// error is under 50 ms. An empty chart yields the empty report.
    pub fn score_with_spb(
        &self,
        lesson: &LessonDescriptor,
        hits: &Vec<DrumEvent>,
        spb_micros: u64,
    ) -> (r: PerformanceReport)
        ensures
            r.accuracy_permille == spec_accuracy_permille(
                count_matched_timed(
                    lesson.notation@,
                    hits@,
                    spb_micros as int,
                    lesson.notation@.len() as int,
                ),
                lesson.notation@.len() as int,
            ),
            r.early_hits == count_early_timed(
                lesson.notation@,
                hits@,
                spb_micros as int,
                lesson.notation@.len() as int,
            ),
            r.late_hits == count_late_timed(
                lesson.notation@,
                hits@,
                spb_micros as int,
                lesson.notation@.len() as int,
            ),
            r.accuracy_permille <= 1000,
    {
        let ghost n = lesson.notation@;
        let ghost h = hits@;
        if lesson.notation.len() == 0 {
            return PerformanceReport::empty();
        }
        let total = lesson.notation.len();
        let mut matched: usize = 0;
        let mut early: usize = 0;
        let mut late: usize = 0;
        let mut k: usize = 0;
        while k < total
            invariant
                n == lesson.notation@,
                h == hits@,
                total == n.len(),
                k <= total,
                matched == count_matched_timed(n, h, spb_micros as int, k as int),
                early == count_early_timed(n, h, spb_micros as int, k as int),
                late == count_late_timed(n, h, spb_micros as int, k as int),
                matched <= k && early <= k && late <= k,
            decreases total - k,
        {
            if k < hits.len() {
                let expected = &lesson.notation[k];
                let actual = &hits[k];
                let dist: u64 = if actual.beat >= expected.event.beat {
                    actual.beat - expected.event.beat
                } else {
                    expected.event.beat - actual.beat
                };
                proof {
                    vstd::arithmetic::mul::lemma_mul_upper_bound(
                        dist as int,
                        0xffff_ffff_ffff_ffff,
                        spb_micros as int,
                        0xffff_ffff_ffff_ffff,
                    );
                }
                if (dist as u128) * (spb_micros as u128) < 50_000_000_000u128 {
                    matched += 1;
                    if actual.beat < expected.event.beat {
                        early += 1;
                    } else if actual.beat > expected.event.beat {
                        late += 1;
                    }
                }
            }
            k += 1;
        }
        let accuracy = accuracy_permille(matched, total);
        PerformanceReport { accuracy_permille: accuracy, early_hits: early, late_hits: late }
    }

    /// Score in beat space: a pair matches when the strike lands within a
    /// quarter beat of the expectation. An empty chart yields the empty
    /// report.
    pub fn score(&self, lesson: &LessonDescriptor, hits: &Vec<DrumEvent>) -> (r: PerformanceReport)
        ensures
            r.accuracy_permille == spec_accuracy_permille(
                count_matched_plain(lesson.notation@, hits@, lesson.notation@.len() as int),
                lesson.notation@.len() as int,
            ),
            r.early_hits == count_early_plain(
                lesson.notation@,
                hits@,
                lesson.notation@.len() as int,
            ),
            r.late_hits == count_late_plain(
                lesson.notation@,
                hits@,
                lesson.notation@.len() as int,
            ),
            r.accuracy_permille <= 1000,
    {
        let ghost n = lesson.notation@;
        let ghost h = hits@;
        if lesson.notation.len() == 0 {
            return PerformanceReport::empty();
        }
        let total = lesson.notation.len();
        let mut matched: usize = 0;
        let mut early: usize = 0;
        let mut late: usize = 0;
        let mut k: usize = 0;
        while k < total
            invariant
                n == lesson.notation@,
                h == hits@,
                total == n.len(),
                k <= total,
                matched == count_matched_plain(n, h, k as int),
                early == count_early_plain(n, h, k as int),
                late == count_late_plain(n, h, k as int),
                matched <= k && early <= k && late <= k,
            decreases total - k,
        {
            if k < hits.len() {
                let expected = &lesson.notation[k];
                let actual = &hits[k];
                let dist: u64 = if actual.beat >= expected.event.beat {
                    actual.beat - expected.event.beat
                } else {
                    expected.event.beat - actual.beat
                };
                if dist < BATCH_TOLERANCE_MICROBEATS {
                    matched += 1;
                    if actual.beat < expected.event.beat {
                        early += 1;
                    } else if actual.beat > expected.event.beat {
                        late += 1;
                    }
                }
            }
            k += 1;
        }
        let accuracy = accuracy_permille(matched, total);
        PerformanceReport { accuracy_permille: accuracy, early_hits: early, late_hits: late }
    }
}

/// The matched fraction in thousandths, rounded down.
fn accuracy_permille(matched: usize, total: usize) -> (r: u32)
    requires
        0 < total,
        matched <= total,
    ensures
        r == spec_accuracy_permille(matched as int, total as int),
        r <= 1000,
{
    proof {
        vstd::arithmetic::mul::lemma_mul_inequality(matched as int, total as int, 1000);
        vstd::arithmetic::mul::lemma_mul_is_commutative(matched as int, 1000);
        vstd::arithmetic::mul::lemma_mul_is_commutative(total as int, 1000);
        vstd::arithmetic::div_mod::lemma_div_is_ordered(
            (matched as int) * 1000,
            (total as int) * 1000,
            total as int,
        );
        vstd::arithmetic::div_mod::lemma_div_by_multiple(1000, total as int);
        vstd::arithmetic::mul::lemma_mul_nonnegative(matched as int, 1000);
        vstd::arithmetic::div_mod::lemma_div_pos_is_pos((matched as int) * 1000, total as int);
    }
    (((matched as u128) * 1000) / (total as u128)) as u32
}

} // verus!
