//! A simple in-order practice session over a lesson: the learner is expected
//! to strike the chart's entries one after the other.

use vstd::prelude::*;

use crate::events::DrumEvent;
use crate::lesson::LessonDescriptor;

verus! {

/// The flavour of a practice session.
#[derive(Clone, Copy, Debug, PartialEq, Eq, Structural)]
pub enum PracticeMode {
    Learn,
    Practice,
    Perform,
}

/// Progress through a lesson, strike by strike, in chart order.
#[derive(Clone, Debug)]
pub struct SessionState {
    pub lesson: LessonDescriptor,
    pub mode: PracticeMode,
    pub current_index: usize,
    pub completed: bool,
}

impl SessionState {
    /// Start a session at the first chart entry.
    pub fn new(lesson: LessonDescriptor, mode: PracticeMode) -> (s: SessionState)
        ensures
            s.lesson == lesson,
            s.mode == mode,
            s.current_index == 0,
            !s.completed,
    {
        SessionState { lesson, mode, current_index: 0, completed: false }
    }

    /// The next expected strike, or `None` when the chart is exhausted.
    pub fn expect_next(&self) -> (r: Option<&DrumEvent>)
        ensures
            self.current_index < self.lesson.notation@.len() ==> (r matches Some(e) && *e
                == self.lesson.notation@[self.current_index as int].event),
            self.current_index >= self.lesson.notation@.len() ==> r is None,
    {
        if self.current_index < self.lesson.notation.len() {
            Some(&self.lesson.notation[self.current_index].event)
        } else {
            None
        }
    }

    /// Register a live strike: when it hits the piece expected next, progress
    /// advances by one; the session completes once every entry is consumed.
    pub fn register_hit(&mut self, event: &DrumEvent)
        ensures
            final(self).lesson == old(self).lesson,
            final(self).mode == old(self).mode,
            final(self).current_index == (
            if old(self).current_index < old(self).lesson.notation@.len() && old(
                self,
            ).lesson.notation@[old(self).current_index as int].event.piece == event.piece {
                old(self).current_index + 1
            } else {
                old(self).current_index as int
            }),
            final(self).completed == (old(self).completed || final(self).current_index >= old(
                self,
            ).lesson.notation@.len()),
    {
        if self.current_index < self.lesson.notation.len() {
            if self.lesson.notation[self.current_index].event.piece == event.piece {
                self.current_index += 1;
            }
        }
        if self.current_index >= self.lesson.notation.len() {
            self.completed = true;
        }
    }
}

} // verus!
