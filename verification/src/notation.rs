//! The notation editor's data model: a lesson under edit. Drawing is the
//! host's concern; the model only answers questions about the chart.

use vstd::prelude::*;
use vstd::pervasive::VecAdditionalExecFns;

use crate::events::DrumPiece;
use crate::events::NotatedEvent;
use crate::lesson::LessonDescriptor;
use crate::matcher::beat_distance;
use crate::tempo::BEAT;
use crate::tempo::MAX_BEAT_MICROS;

verus! {

/// How far (micro-beats) a click may land from an event and still select it.
pub const SELECT_THRESHOLD_MICROBEATS: u64 = 300_000;

/// Whether entry `i` passes the piece filter.
pub open spec fn selectable(
    notation: Seq<NotatedEvent>,
    piece_filter: Option<DrumPiece>,
    i: int,
) -> bool {
    &&& 0 <= i < notation.len()
    &&& (piece_filter matches Some(p) ==> notation[i].event.piece == p)
}

/// A beat position snapped to a grid of `step` micro-beats, half-way points
/// rounding up.
pub open spec fn spec_snap_beat(beat: int, step: int) -> int {
    (beat + step / 2) / step * step
}

/// A lesson under edit.
#[derive(Clone, Debug)]
pub struct NotationEditor {
    lesson: LessonDescriptor,
}

impl NotationEditor {
    /// View of the lesson under edit.
    pub closed spec fn view(&self) -> LessonDescriptor {
        self.lesson
    }

    /// Open a lesson for editing.
    pub fn new(lesson: LessonDescriptor) -> (e: NotationEditor)
        ensures
            e@ == lesson,
    {
        NotationEditor { lesson }
    }

    /// Replace the lesson under edit.
    pub fn set_lesson(&mut self, lesson: LessonDescriptor)
        ensures
            final(self)@ == lesson,
    {
        self.lesson = lesson;
    }

    /// Read the lesson under edit.
    pub fn lesson(&self) -> (l: &LessonDescriptor)
        ensures
            *l == self@,
    {
        &self.lesson
    }

    /// Edit the lesson in place.
    pub fn lesson_mut(&mut self) -> (l: &mut LessonDescriptor)
        ensures
            *l == old(self)@,
            final(self)@ == *final(l),
    {
        &mut self.lesson
    }

    /// Append a notated event to the chart.
    pub fn push_event(&mut self, event: NotatedEvent)
        ensures
            final(self)@.notation@ == old(self)@.notation@.push(event),
            final(self)@.id == old(self)@.id,
            final(self)@.title == old(self)@.title,
            final(self)@.description == old(self)@.description,
            final(self)@.difficulty == old(self)@.difficulty,
            final(self)@.default_tempo == old(self)@.default_tempo,
            final(self)@.goals == old(self)@.goals,
            final(self)@.stats == old(self)@.stats,
    {
        self.lesson.notation.push(event);
    }

    /// How many entries the chart holds.
    pub fn event_count(&self) -> (n: usize)
        ensures
            n == self@.notation@.len(),
    {
        self.lesson.notation.len()
    }

    /// The timeline span to draw, in micro-beats: one beat past the last
    /// notated beat, and at least sixteen beats.
    pub fn estimate_total_beats(&self) -> (m: u64)
        requires
            forall|i: int| 0 <= i < self@.notation@.len() ==> self@.notation@[i].event.beat
                <= crate::tempo::MAX_BEAT_MICROS,
        ensures
            m >= 16 * BEAT,
            forall|i: int| 0 <= i < self@.notation@.len() ==> self@.notation@[i].event.beat + BEAT
                <= m,
            m == 16 * BEAT || exists|i: int|
                0 <= i < self@.notation@.len() && m == self@.notation@[i].event.beat + BEAT,
    {
        let ghost n = self.lesson.notation@;
        let mut m: u64 = 16_000_000;
        let mut i: usize = 0;
        while i < self.lesson.notation.len()
            invariant
                n == self.lesson.notation@,
                i <= n.len(),
                forall|k: int| 0 <= k < n.len() ==> n[k].event.beat <= crate::tempo::MAX_BEAT_MICROS,
                m >= 16_000_000,
                forall|k: int| 0 <= k < i ==> n[k].event.beat + 1_000_000 <= m,
                m == 16_000_000 || exists|k: int|
                    0 <= k < i && m == n[k].event.beat + 1_000_000,
            decreases n.len() - i,
        {
            let candidate = self.lesson.notation[i].event.beat + 1_000_000;
            if candidate > m {
                m = candidate;
            }
            i += 1;
        }
        m
    }

    /// Snap one entry's beat to the grid of `snap_den` divisions per whole
    /// note (a quarter note counting as one beat).
    pub fn quantize_event(&mut self, index: usize, snap_den: u8)
        requires
            1 <= snap_den,
            index < old(self)@.notation@.len(),
            old(self)@.notation@[index as int].event.beat <= MAX_BEAT_MICROS,
        ensures
            final(self)@.notation@.len() == old(self)@.notation@.len(),
            final(self)@.notation@[index as int].event.beat == spec_snap_beat(
                old(self)@.notation@[index as int].event.beat as int,
                4_000_000int / snap_den as int,
            ),
            forall|i: int|
                0 <= i < old(self)@.notation@.len() && i != index ==> final(self)@.notation@[i]
                    == old(self)@.notation@[i],
            final(self)@.id == old(self)@.id,
            final(self)@.title == old(self)@.title,
            final(self)@.description == old(self)@.description,
            final(self)@.difficulty == old(self)@.difficulty,
            final(self)@.default_tempo == old(self)@.default_tempo,
            final(self)@.goals == old(self)@.goals,
            final(self)@.stats == old(self)@.stats,
    {
        proof {
            vstd::arithmetic::div_mod::lemma_div_is_ordered_by_denominator(
                4_000_000,
                snap_den as int,
                255,
            );
        }
        let step: u64 = 4_000_000 / (snap_den as u64);
        let mut entry = self.lesson.notation[index];
        entry.event.beat = snap_beat(entry.event.beat, step);
        self.lesson.notation.set(index, entry);
    }

    /// Snap every entry's beat to the grid of `snap_den` divisions per whole
    /// note.
    pub fn quantize_all(&mut self, snap_den: u8)
        requires
            1 <= snap_den,
            forall|i: int|
                0 <= i < old(self)@.notation@.len() ==> old(self)@.notation@[i].event.beat
                    <= MAX_BEAT_MICROS,
        ensures
            final(self)@.notation@.len() == old(self)@.notation@.len(),
            forall|i: int|
                0 <= i < old(self)@.notation@.len() ==> final(self)@.notation@[i].event.beat
                    == spec_snap_beat(
                    old(self)@.notation@[i].event.beat as int,
                    4_000_000int / snap_den as int,
                ),
            final(self)@.id == old(self)@.id,
            final(self)@.title == old(self)@.title,
            final(self)@.description == old(self)@.description,
            final(self)@.difficulty == old(self)@.difficulty,
            final(self)@.default_tempo == old(self)@.default_tempo,
            final(self)@.goals == old(self)@.goals,
            final(self)@.stats == old(self)@.stats,
    {
        let ghost orig = self.lesson.notation@;
        proof {
            vstd::arithmetic::div_mod::lemma_div_is_ordered_by_denominator(
                4_000_000,
                snap_den as int,
                255,
            );
        }
        let step: u64 = 4_000_000 / (snap_den as u64);
        let mut i: usize = 0;
        while i < self.lesson.notation.len()
            invariant
                i <= orig.len(),
                self.lesson.notation@.len() == orig.len(),
                1 <= snap_den,
                step == 4_000_000int / snap_den as int,
                1 <= step <= 4_000_000,
                forall|k: int| 0 <= k < orig.len() ==> orig[k].event.beat <= MAX_BEAT_MICROS,
                forall|k: int|
                    0 <= k < i ==> {
                        &&& self.lesson.notation@[k].event.beat == spec_snap_beat(
                            orig[k].event.beat as int,
                            step as int,
                        )
                        &&& self.lesson.notation@[k].event.piece == orig[k].event.piece
                        &&& self.lesson.notation@[k].event.articulation
                            == orig[k].event.articulation
                        &&& self.lesson.notation@[k].event.dynamic == orig[k].event.dynamic
                        &&& self.lesson.notation@[k].event.velocity == orig[k].event.velocity
                        &&& self.lesson.notation@[k].event.timing_offset
                            == orig[k].event.timing_offset
                        &&& self.lesson.notation@[k].duration_micros == orig[k].duration_micros
                        &&& self.lesson.notation@[k].tuplet == orig[k].tuplet
                    },
                forall|k: int| i <= k < orig.len() ==> self.lesson.notation@[k] == orig[k],
                self.lesson.id == old(self)@.id,
                self.lesson.title == old(self)@.title,
                self.lesson.description == old(self)@.description,
                self.lesson.difficulty == old(self)@.difficulty,
                self.lesson.default_tempo == old(self)@.default_tempo,
                self.lesson.goals == old(self)@.goals,
                self.lesson.stats == old(self)@.stats,
            decreases orig.len() - i,
        {
            proof {
                assert(self.lesson.notation@[i as int] == orig[i as int]);
            }
            let mut entry = self.lesson.notation[i];
            entry.event.beat = snap_beat(entry.event.beat, step);
            self.lesson.notation.set(i, entry);
            i += 1;
        }
    }
}

/// Snap a beat position to a `step` grid, half-way points rounding up.
fn snap_beat(beat: u64, step: u64) -> (r: u64)
    requires
        1 <= step <= 4_000_000,
        beat <= MAX_BEAT_MICROS,
    ensures
        r == spec_snap_beat(beat as int, step as int),
        r <= beat + step,
{
    proof {
        vstd::arithmetic::div_mod::lemma_fundamental_div_mod((beat + step / 2) as int, step as int);
        vstd::arithmetic::div_mod::lemma_mod_bound((beat + step / 2) as int, step as int);
        vstd::arithmetic::mul::lemma_mul_is_commutative(
            ((beat + step / 2) as int) / (step as int),
            step as int,
        );
    }
    (beat + step / 2) / step * step
}

/// Index of the chart entry nearest a clicked beat position, optionally held
/// to one piece; the earliest entry on a tie, and none when the nearest
/// candidate lies further than the selection threshold.
pub fn nearest_event_index(
    editor: &NotationEditor,
    beat: u64,
    piece_filter: Option<DrumPiece>,
) -> (r: Option<usize>)
    ensures
        r is None ==> forall|i: int|
            selectable(editor@.notation@, piece_filter, i) ==> beat_distance(
                editor@.notation@[i].event.beat as int,
                beat as int,
            ) > SELECT_THRESHOLD_MICROBEATS,
        r matches Some(i) ==> {
            &&& selectable(editor@.notation@, piece_filter, i as int)
            &&& beat_distance(editor@.notation@[i as int].event.beat as int, beat as int)
                <= SELECT_THRESHOLD_MICROBEATS
            &&& forall|j: int|
                selectable(editor@.notation@, piece_filter, j) ==> beat_distance(
                    editor@.notation@[i as int].event.beat as int,
                    beat as int,
                ) <= beat_distance(editor@.notation@[j].event.beat as int, beat as int)
            &&& forall|j: int|
                selectable(editor@.notation@, piece_filter, j) && j < i ==> beat_distance(
                    editor@.notation@[j].event.beat as int,
                    beat as int,
                ) > beat_distance(editor@.notation@[i as int].event.beat as int, beat as int)
        },
{
    let ghost n = editor@.notation@;
    let notation = &editor.lesson().notation;
    let mut best: Option<usize> = None;
    let mut best_dist: u64 = 0;
    let mut i: usize = 0;
    while i < notation.len()
        invariant
            n == notation@,
            n == editor@.notation@,
            i <= n.len(),
            best is None ==> forall|k: int| k < i ==> !selectable(n, piece_filter, k),
            best matches Some(b) ==> {
                &&& b < i
                &&& selectable(n, piece_filter, b as int)
                &&& best_dist == beat_distance(n[b as int].event.beat as int, beat as int)
                &&& forall|k: int|
                    k < i && selectable(n, piece_filter, k) ==> best_dist <= beat_distance(
                        n[k].event.beat as int,
                        beat as int,
                    )
                &&& forall|k: int|
                    k < b && selectable(n, piece_filter, k) ==> beat_distance(
                        n[k].event.beat as int,
                        beat as int,
                    ) > best_dist
            },
        decreases n.len() - i,
    {
        let ev = &notation[i];
        let passes = match piece_filter {
            Some(p) => ev.event.piece == p,
            None => true,
        };
        if passes {
            let d: u64 = if ev.event.beat >= beat {
                ev.event.beat - beat
            } else {
                beat - ev.event.beat
            };
            match best {
                None => {
                    best = Some(i);
                    best_dist = d;
                },
                Some(_) => {
                    if d < best_dist {
                        best = Some(i);
                        best_dist = d;
                    }
                },
            }
        }
        i += 1;
    }
    match best {
        Some(i) => {
            if best_dist <= SELECT_THRESHOLD_MICROBEATS {
                Some(i)
            } else {
                None
            }
        },
        None => None,
    }
}

} // verus!
