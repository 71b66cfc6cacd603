//! The practice transport: a frame-driven state machine that owns the
//! playhead, the pre-roll countdown, the loop configuration, the per-entry
//! status table and the captured-hit log, and that drives the live matcher,
//! missed-event detection, loop wraparound and end-of-run scoring.
//!
//! The host calls a narrow surface once per frame: `tick(dt)` with the
//! wall-clock delta in microseconds, `feed_strike` for each decoded strike,
//! and the transport controls (`start`, `stop`, `reset`, `retry`,
//! `set_loop_region`). Settings are passed in explicitly as a
//! [`PracticeConfig`], never read from ambient state.

use vstd::prelude::*;

use crate::events::DrumArticulation;
use crate::events::DrumEvent;
use crate::events::DrumPiece;
use crate::lesson::LessonDescriptor;
use crate::matcher::beat_distance;
use crate::matcher::latency_microbeats;
use crate::matcher::mark_missed;
use crate::matcher::qualifies;
use crate::matcher::resolve_strike;
use crate::matcher::spec_classify;
use crate::matcher::spec_hit_beat;
use crate::matcher::spec_latency_microbeats;
use crate::matcher::spec_window_microbeats;
use crate::matcher::window_microbeats;
use crate::matcher::HitLabel;
use crate::scoring::count_early_timed;
use crate::scoring::count_late_timed;
use crate::scoring::count_matched_timed;
use crate::scoring::spec_accuracy_permille;
use crate::scoring::ScoringEngine;
use crate::analytics::SessionAnalytics;
use crate::session::PracticeMode;
use crate::session::SessionState;
use crate::tempo::segment_microbeats;
use crate::tempo::segment_to_microbeats;
use crate::tempo::spec_beat_at_time;
use crate::tempo::spec_bpm_at;
use crate::tempo::BEAT;
use crate::tempo::MAX_BEAT_MICROS;
use crate::tempo::MAX_TIME_MICROS;
use crate::tempo::MIN_BPM_MILLI;
use crate::tempo::MAX_BPM_MILLI;

verus! {

/// Largest playhead position the engine can reach: seven micro-beats per
/// microsecond of the largest instant, with headroom.
pub const MAX_PLAYHEAD_MICROS: u64 = 8_000_000_000_000_000;

/// Largest wall-clock delta one tick may carry, in microseconds.
pub const MAX_TICK_MICROS: u64 = 1_000_000_000;

/// Whether practice loops freely or counts passes toward a test run.
#[derive(Clone, Copy, Debug, PartialEq, Eq, Structural)]
pub enum PracticeUIMode {
    FreePlay,
    Test,
}

/// The settings the engine reads, passed in explicitly each call.
#[derive(Clone, Copy, Debug, PartialEq, Eq, Structural)]
pub struct PracticeConfig {
    /// Match window, thousandths of a percent of one beat.
    pub match_window_pct_milli: u32,
    /// On-time window, thousandths of a percent of one beat.
    pub on_time_pct_milli: u32,
    /// Millisecond cap on the match window.
    pub match_cap_ms: u32,
    /// Millisecond cap on the on-time window.
    pub on_time_cap_ms: u32,
    /// Input latency compensation, milliseconds.
    pub latency_ms: u32,
    /// Pre-roll length: one wall-clock second per configured beat.
    pub pre_roll_beats: u8,
    /// Whether each loop pass re-enters the pre-roll countdown.
    pub countdown_each_loop: bool,
    /// Passes to complete in a test run.
    pub passes_target: u8,
    /// Follow the lesson's tempo timeline instead of the fixed tempo.
    pub use_lesson_tempo: bool,
    /// The fixed practice tempo, thousandths of a BPM.
    pub fixed_bpm_milli: u32,
}

impl PracticeConfig {
    /// The bounds the engine relies on.
    pub open spec fn wf(&self) -> bool {
        MIN_BPM_MILLI <= self.fixed_bpm_milli <= MAX_BPM_MILLI
    }
}

/// What one tick reports back to the host: metronome clicks to sound, whether
/// a pass boundary was crossed, and whether the run finished.
#[derive(Clone, Copy, Debug, PartialEq, Eq, Structural)]
pub struct TickReport {
    pub clicks: u64,
    pub pass_completed: bool,
    pub finished: bool,
}

/// Metronome clicks owed when the playhead has reached `next_click`: one for
/// `next_click` itself and one per whole beat beyond it.
pub open spec fn spec_click_count(playhead: int, next_click: int) -> int {
    if playhead >= next_click {
        (playhead - next_click) / 1_000_000 + 1
    } else {
        0
    }
}

/// Where the click cursor stands after sounding the owed clicks.
pub open spec fn spec_next_click(playhead: int, next_click: int) -> int {
    next_click + spec_click_count(playhead, next_click) * 1_000_000
}

/// The smallest whole-beat boundary at or above `b`.
pub open spec fn ceil_to_beat(b: int) -> int {
    ((b + 999_999) / 1_000_000) * 1_000_000
}

/// The status table after missed-event detection at `playhead` with the given
/// window: unresolved entries whose window has been passed become `Missed`.
pub open spec fn missed_marked(
    notation: Seq<crate::events::NotatedEvent>,
    statuses: Seq<Option<HitLabel>>,
    playhead: int,
    window: int,
) -> Seq<Option<HitLabel>> {
    Seq::new(
        statuses.len(),
        |i: int|
            if statuses[i] is None && notation[i].event.beat + window < playhead {
                Some(HitLabel::Missed)
            } else {
                statuses[i]
            },
    )
}

/// A status table of the given length with nothing resolved.
pub open spec fn all_unresolved(len: nat) -> Seq<Option<HitLabel>> {
    Seq::new(len, |i: int| None)
}

/// The frame-driven practice transport.
#[derive(Clone, Debug)]
pub struct PracticeEngine {
    /// The in-order session, which owns the lesson under practice.
    pub session: SessionState,
    /// Strikes captured during the run, for batch scoring.
    pub hits: Vec<DrumEvent>,
    /// The batch scorer used at end of run.
    pub scoring: ScoringEngine,
    /// End-of-run analytics, set when a test run completes.
    pub analytics: Option<SessionAnalytics>,
    /// Whether the transport is running (pre-roll included).
    pub playing: bool,
    /// Playhead position, micro-beats.
    pub playhead: u64,
    /// Elapsed playing time, microseconds (advanced in lesson-tempo mode).
    pub elapsed_micros: u64,
    /// The next whole-beat boundary owing a metronome click, micro-beats.
    pub next_click: u64,
    /// Whether the pre-roll countdown is running.
    pub pre_roll_active: bool,
    /// Remaining pre-roll, microseconds of wall-clock time.
    pub pre_roll_remaining_micros: u64,
    /// Per-entry judgement, index-aligned with the lesson's notation.
    pub statuses: Vec<Option<HitLabel>>,
    /// Passes completed so far.
    pub loops_done: u8,
    /// Passes after which a test run stops.
    pub loop_total: u8,
    /// Largest notated beat: the whole-chart pass boundary.
    pub end_beat: u64,
    /// Free play or test.
    pub mode: PracticeUIMode,
    /// Whether an explicit A/B loop region is active.
    pub loop_use_region: bool,
    /// Loop region edges, micro-beats.
    pub loop_a: u64,
    pub loop_b: u64,
    /// Whether the end-of-run review is showing.
    pub review_active: bool,
}

impl PracticeEngine {
    /// The engine invariant: the status table is index-aligned with the
    /// notation, the lesson is well-formed, and every position the arithmetic
    /// touches stays within the documented machine limits.
    pub open spec fn wf(&self) -> bool {
        &&& self.statuses@.len() == self.session.lesson.notation@.len()
        &&& self.session.lesson.wf()
        &&& forall|i: int|
            0 <= i < self.session.lesson.notation@.len()
                ==> self.session.lesson.notation@[i].event.beat <= MAX_BEAT_MICROS
        &&& self.end_beat <= MAX_BEAT_MICROS
        &&& self.loop_a <= MAX_BEAT_MICROS
        &&& self.loop_b <= MAX_BEAT_MICROS
        &&& self.elapsed_micros <= MAX_TIME_MICROS
        &&& self.playhead <= MAX_PLAYHEAD_MICROS
        &&& (self.playing ==> self.playhead <= MAX_BEAT_MICROS)
        &&& self.next_click <= MAX_PLAYHEAD_MICROS + BEAT
    }

    /// The active pass boundary: the loop region's end when one is set, else
    /// the chart's largest notated beat.
    pub open spec fn spec_boundary(&self) -> int {
        if self.loop_use_region {
            if self.loop_a >= self.loop_b {
                self.loop_a as int
            } else {
                self.loop_b as int
            }
        } else {
            self.end_beat as int
        }
    }

    /// Where a pass starts: the loop region's start when one is set, else
    /// beat zero.
    pub open spec fn spec_loop_start(&self) -> int {
        if self.loop_use_region {
            if self.loop_a <= self.loop_b {
                self.loop_a as int
            } else {
                self.loop_b as int
            }
        } else {
            0
        }
    }

    /// Build an engine over a lesson: playhead at zero, nothing resolved, the
    /// whole-chart boundary at the largest notated beat.
    pub fn new(lesson: LessonDescriptor, mode: PracticeMode) -> (e: PracticeEngine)
        requires
            lesson.wf(),
            forall|i: int|
                0 <= i < lesson.notation@.len() ==> lesson.notation@[i].event.beat
                    <= MAX_BEAT_MICROS,
        ensures
            e.wf(),
            e.session.lesson == lesson,
            e.session.mode == mode,
            e.session.current_index == 0,
            !e.session.completed,
            e.hits@.len() == 0,
            e.analytics is None,
            !e.playing,
            e.playhead == 0,
            e.elapsed_micros == 0,
            e.next_click == 0,
            !e.pre_roll_active,
            e.statuses@ == all_unresolved(lesson.notation@.len()),
            e.loops_done == 0,
            e.loop_total == 1,
            forall|i: int| 0 <= i < lesson.notation@.len() ==> lesson.notation@[i].event.beat
                <= e.end_beat,
            e.mode == PracticeUIMode::FreePlay,
            !e.loop_use_region,
            e.loop_a == 0 && e.loop_b == 0,
            !e.review_active,
    {
        let end_beat = lesson.max_beat();
        let n = lesson.notation.len();
        let mut statuses: Vec<Option<HitLabel>> = Vec::new();
        let mut i: usize = 0;
        while i < n
            invariant
                i <= n,
                statuses@.len() == i,
                forall|k: int| 0 <= k < i ==> statuses@[k] is None,
            decreases n - i,
        {
            statuses.push(None);
            i += 1;
        }
        proof {
            assert(statuses@ =~= all_unresolved(lesson.notation@.len()));
        }
        PracticeEngine {
            session: SessionState::new(lesson, mode),
            hits: Vec::new(),
            scoring: ScoringEngine,
            analytics: None,
            playing: false,
            playhead: 0,
            elapsed_micros: 0,
            next_click: 0,
            pre_roll_active: false,
            pre_roll_remaining_micros: 0,
            statuses,
            loops_done: 0,
            loop_total: 1,
            end_beat,
            mode: PracticeUIMode::FreePlay,
            loop_use_region: false,
            loop_a: 0,
            loop_b: 0,
            review_active: false,
        }
    }

    /// Transport start: the playhead jumps to the pass start, elapsed time
    /// resets, the pre-roll countdown begins (one wall-clock second per
    /// configured beat), and the pass counter clears. In free play the pass
    /// target is unbounded; in a test it is the configured count.
    pub fn start(&mut self, cfg: &PracticeConfig)
        requires
            old(self).wf(),
        ensures
            final(self).wf(),
            final(self).playing,
            final(self).pre_roll_active,
            final(self).pre_roll_remaining_micros == cfg.pre_roll_beats * 1_000_000,
            final(self).playhead == old(self).spec_loop_start(),
            final(self).elapsed_micros == 0,
            final(self).next_click == ceil_to_beat(old(self).spec_loop_start()),
            final(self).loops_done == 0,
            final(self).loop_total == (
            if old(self).mode == PracticeUIMode::FreePlay {
                255int
            } else {
                cfg.passes_target as int
            }),
            !final(self).review_active,
            final(self).session == old(self).session,
            final(self).hits == old(self).hits,
            final(self).statuses == old(self).statuses,
            final(self).analytics == old(self).analytics,
            final(self).mode == old(self).mode,
            final(self).loop_use_region == old(self).loop_use_region,
            final(self).loop_a == old(self).loop_a,
            final(self).loop_b == old(self).loop_b,
            final(self).end_beat == old(self).end_beat,
    {
        self.playing = true;
        self.pre_roll_active = true;
        self.pre_roll_remaining_micros = (cfg.pre_roll_beats as u64) * 1_000_000;
        self.playhead = self.loop_start();
        self.elapsed_micros = 0;
        self.next_click = ceil_beat(self.playhead);
        self.loops_done = 0;
        self.loop_total = if self.mode == PracticeUIMode::FreePlay {
            255
        } else {
            cfg.passes_target
        };
        self.review_active = false;
    }

    /// Transport stop: playback pauses in place; nothing else changes.
    pub fn stop(&mut self)
        ensures
            *final(self) == (PracticeEngine { playing: false, ..*old(self) }),
    {
        self.playing = false;
    }

    /// Manual reset: the playhead returns to the pass start and the pass
    /// counter clears; judgements are kept.
    pub fn reset(&mut self)
        requires
            old(self).wf(),
        ensures
            final(self).wf(),
            final(self).playhead == old(self).spec_loop_start(),
            final(self).next_click == ceil_to_beat(old(self).spec_loop_start()),
            final(self).elapsed_micros == 0,
            final(self).loops_done == 0,
            final(self).statuses == old(self).statuses,
            final(self).hits == old(self).hits,
            final(self).session == old(self).session,
            final(self).playing == old(self).playing,
            final(self).mode == old(self).mode,
            final(self).loop_use_region == old(self).loop_use_region,
            final(self).loop_a == old(self).loop_a,
            final(self).loop_b == old(self).loop_b,
            final(self).end_beat == old(self).end_beat,
            final(self).loop_total == old(self).loop_total,
            final(self).review_active == old(self).review_active,
            final(self).analytics == old(self).analytics,
            final(self).pre_roll_active == old(self).pre_roll_active,
    {
        self.playhead = self.loop_start();
        self.next_click = ceil_beat(self.playhead);
        self.elapsed_micros = 0;
        self.loops_done = 0;
    }

    /// Retry: like a reset, but judgements, captured hits and the review are
    /// discarded too.
    pub fn retry(&mut self)
        requires
            old(self).wf(),
        ensures
            final(self).wf(),
            final(self).playhead == old(self).spec_loop_start(),
            final(self).next_click == ceil_to_beat(old(self).spec_loop_start()),
            final(self).elapsed_micros == 0,
            final(self).loops_done == 0,
            final(self).statuses@ == all_unresolved(old(self).statuses@.len()),
            final(self).hits@.len() == 0,
            !final(self).review_active,
            final(self).session == old(self).session,
            final(self).playing == old(self).playing,
            final(self).mode == old(self).mode,
            final(self).loop_use_region == old(self).loop_use_region,
            final(self).loop_a == old(self).loop_a,
            final(self).loop_b == old(self).loop_b,
            final(self).end_beat == old(self).end_beat,
            final(self).loop_total == old(self).loop_total,
            final(self).analytics == old(self).analytics,
            final(self).pre_roll_active == old(self).pre_roll_active,
    {
        self.playhead = self.loop_start();
        self.next_click = ceil_beat(self.playhead);
        self.elapsed_micros = 0;
        self.loops_done = 0;
        self.hits = Vec::new();
        self.clear_statuses();
        self.review_active = false;
    }

    /// Configure the A/B loop region; inverted edges are swapped so the end
    /// never precedes the start.
    pub fn set_loop_region(&mut self, enabled: bool, a: u64, b: u64)
        requires
            old(self).wf(),
            a <= MAX_BEAT_MICROS,
            b <= MAX_BEAT_MICROS,
        ensures
            final(self).wf(),
            final(self).loop_use_region == enabled,
            final(self).loop_a == (if a <= b {
                a as int
            } else {
                b as int
            }),
            final(self).loop_b == (if a <= b {
                b as int
            } else {
                a as int
            }),
            final(self).loop_a <= final(self).loop_b,
            *final(self) == (PracticeEngine {
                loop_use_region: enabled,
                loop_a: final(self).loop_a,
                loop_b: final(self).loop_b,
                ..*old(self)
            }),
    {
        self.loop_use_region = enabled;
        if a <= b {
            self.loop_a = a;
            self.loop_b = b;
        } else {
            self.loop_a = b;
            self.loop_b = a;
        }
    }

    /// The pass start as an executable value.
    fn loop_start(&self) -> (r: u64)
        ensures
            r == self.spec_loop_start(),
            r <= self.loop_a || r == 0,
    {
        if self.loop_use_region {
            if self.loop_a <= self.loop_b {
                self.loop_a
            } else {
                self.loop_b
            }
        } else {
            0
        }
    }

    /// The pass boundary as an executable value.
    fn boundary(&self) -> (r: u64)
        ensures
            r == self.spec_boundary(),
    {
        if self.loop_use_region {
            if self.loop_a >= self.loop_b {
                self.loop_a
            } else {
                self.loop_b
            }
        } else {
            self.end_beat
        }
    }

    /// Reset every judgement to unresolved.
    fn clear_statuses(&mut self)
        ensures
            final(self).statuses@ == all_unresolved(old(self).statuses@.len()),
            *final(self) == (PracticeEngine { statuses: final(self).statuses, ..*old(self) }),
    {
        let n = self.statuses.len();
        let mut fresh: Vec<Option<HitLabel>> = Vec::new();
        let mut i: usize = 0;
        while i < n
            invariant
                i <= n,
                fresh@.len() == i,
                forall|k: int| 0 <= k < i ==> fresh@[k] is None,
            decreases n - i,
        {
            fresh.push(None);
            i += 1;
        }
        proof {
            assert(fresh@ =~= all_unresolved(old(self).statuses@.len()));
        }
        self.statuses = fresh;
    }
}

impl PracticeEngine {
    /// Elapsed playing time after a tick of `dt`: advanced in lesson-tempo
    /// mode, untouched under a fixed tempo.
    pub open spec fn advanced_elapsed(&self, dt: int, cfg: &PracticeConfig) -> int {
        if cfg.use_lesson_tempo {
            self.elapsed_micros + dt
        } else {
            self.elapsed_micros as int
        }
    }

    /// Playhead after a tick of `dt`: re-derived from the tempo timeline in
    /// lesson-tempo mode, else advanced linearly at the fixed tempo.
    pub open spec fn advanced_playhead(&self, dt: int, cfg: &PracticeConfig) -> int {
        if cfg.use_lesson_tempo {
            spec_beat_at_time(self.session.lesson.default_tempo@, self.elapsed_micros + dt)
        } else {
            self.playhead + segment_microbeats(dt, cfg.fixed_bpm_milli as int)
        }
    }

    /// The tempo the tolerance windows are priced at after a tick of `dt`.
    pub open spec fn spec_bpm_used(&self, dt: int, cfg: &PracticeConfig) -> u32 {
        if cfg.use_lesson_tempo {
            spec_bpm_at(self.session.lesson.default_tempo@, self.elapsed_micros + dt)
        } else {
            cfg.fixed_bpm_milli
        }
    }

    /// The status table after this tick's missed-event detection: run only in
    /// a test, at the advanced playhead, with the match window priced at the
    /// tick's tempo.
    pub open spec fn spec_statuses_after_detection(&self, dt: int, cfg: &PracticeConfig) -> Seq<
        Option<HitLabel>,
    > {
        if self.mode == PracticeUIMode::Test {
            missed_marked(
                self.session.lesson.notation@,
                self.statuses@,
                self.advanced_playhead(dt, cfg),
                spec_window_microbeats(
                    cfg.match_window_pct_milli as int,
                    cfg.match_cap_ms as int,
                    self.spec_bpm_used(dt, cfg) as int,
                ),
            )
        } else {
            self.statuses@
        }
    }

    /// The pass counter after crossing a boundary (saturating).
    pub open spec fn spec_loops_after(&self) -> int {
        if self.loops_done == 255 {
            255
        } else {
            self.loops_done + 1
        }
    }

    /// Whether crossing a boundary loops another pass (free play always
    /// loops; a test loops until the pass target is met).
    pub open spec fn spec_loops_again(&self) -> bool {
        self.mode == PracticeUIMode::FreePlay || self.spec_loops_after() < self.loop_total
    }

    /// One scheduler tick of `dt_micros` wall-clock microseconds.
    ///
    /// Idle: nothing happens. Pre-roll: the countdown falls by `dt`, one
    /// click per whole second crossed, and play proper starts once it reaches
    /// zero. Playing: the playhead advances (fixed tempo or timeline), clicks
    /// sound at whole-beat boundaries, missed entries are marked (test mode),
    /// and at the pass boundary the engine either wraps to the pass start —
    /// clearing the status table, and re-entering pre-roll if configured — or,
    /// when a test's passes are all done, stops, scores the captured hits,
    /// and raises the review.
    pub fn tick(&mut self, dt_micros: u64, cfg: &PracticeConfig) -> (r: TickReport)
        requires
            old(self).wf(),
            cfg.wf(),
            dt_micros <= MAX_TICK_MICROS,
            old(self).elapsed_micros + dt_micros <= MAX_TIME_MICROS,
        ensures
            final(self).wf(),
            final(self).session == old(self).session,
            final(self).hits == old(self).hits,
            final(self).mode == old(self).mode,
            final(self).loop_use_region == old(self).loop_use_region,
            final(self).loop_a == old(self).loop_a,
            final(self).loop_b == old(self).loop_b,
            final(self).end_beat == old(self).end_beat,
            final(self).loop_total == old(self).loop_total,
            !old(self).playing ==> (*final(self) == *old(self) && r == (TickReport {
                clicks: 0,
                pass_completed: false,
                finished: false,
            })),
            (old(self).playing && old(self).pre_roll_active) ==> ({
                let before = old(self).pre_roll_remaining_micros as int;
                let after = if dt_micros >= before {
                    0int
                } else {
                    before - dt_micros
                };
                &&& final(self).pre_roll_remaining_micros == after
                &&& final(self).pre_roll_active == (after > 0)
                &&& r.clicks == before / 1_000_000 - after / 1_000_000
                &&& !r.pass_completed
                &&& !r.finished
                &&& final(self).playing
                &&& final(self).playhead == old(self).playhead
                &&& final(self).elapsed_micros == old(self).elapsed_micros
                &&& final(self).next_click == old(self).next_click
                &&& final(self).statuses == old(self).statuses
                &&& final(self).loops_done == old(self).loops_done
                &&& final(self).review_active == old(self).review_active
                &&& final(self).analytics == old(self).analytics
            }),
            (old(self).playing && !old(self).pre_roll_active) ==> ({
                let ph1 = old(self).advanced_playhead(dt_micros as int, cfg);
                let st1 = old(self).spec_statuses_after_detection(dt_micros as int, cfg);
                &&& r.clicks == spec_click_count(ph1, old(self).next_click as int)
                &&& (ph1 < old(self).spec_boundary() ==> {
                    &&& final(self).playhead == ph1
                    &&& final(self).elapsed_micros == old(self).advanced_elapsed(
                        dt_micros as int,
                        cfg,
                    )
                    &&& final(self).next_click == spec_next_click(
                        ph1,
                        old(self).next_click as int,
                    )
                    &&& final(self).statuses@ == st1
                    &&& final(self).loops_done == old(self).loops_done
                    &&& final(self).playing
                    &&& final(self).pre_roll_active == old(self).pre_roll_active
                    &&& final(self).review_active == old(self).review_active
                    &&& final(self).analytics == old(self).analytics
                    &&& !r.pass_completed
                    &&& !r.finished
                })
                &&& (ph1 >= old(self).spec_boundary() && old(self).spec_loops_again() ==> {
                    &&& final(self).playhead == old(self).spec_loop_start()
                    &&& final(self).elapsed_micros == 0
                    &&& final(self).next_click == ceil_to_beat(old(self).spec_loop_start())
                    &&& final(self).statuses@ == all_unresolved(old(self).statuses@.len())
                    &&& final(self).loops_done == old(self).spec_loops_after()
                    &&& final(self).playing
                    &&& final(self).pre_roll_active == cfg.countdown_each_loop
                    &&& (cfg.countdown_each_loop ==> final(self).pre_roll_remaining_micros
                        == cfg.pre_roll_beats * 1_000_000)
                    &&& final(self).review_active == old(self).review_active
                    &&& final(self).analytics == old(self).analytics
                    &&& r.pass_completed
                    &&& !r.finished
                })
                &&& (ph1 >= old(self).spec_boundary() && !old(self).spec_loops_again() ==> {
                    let len = old(self).session.lesson.notation@.len() as int;
                    let spb = 60_000_000_000int / cfg.fixed_bpm_milli as int;
                    &&& final(self).playhead == ph1
                    &&& final(self).elapsed_micros == old(self).advanced_elapsed(
                        dt_micros as int,
                        cfg,
                    )
                    &&& final(self).statuses@ == st1
                    &&& final(self).loops_done == old(self).spec_loops_after()
                    &&& !final(self).playing
                    &&& final(self).review_active
                    &&& (final(self).analytics matches Some(a) && {
                        &&& a.report.accuracy_permille == spec_accuracy_permille(
                            count_matched_timed(
                                old(self).session.lesson.notation@,
                                old(self).hits@,
                                spb,
                                len,
                            ),
                            len,
                        )
                        &&& a.report.early_hits == count_early_timed(
                            old(self).session.lesson.notation@,
                            old(self).hits@,
                            spb,
                            len,
                        )
                        &&& a.report.late_hits == count_late_timed(
                            old(self).session.lesson.notation@,
                            old(self).hits@,
                            spb,
                            len,
                        )
                    })
                    &&& r.pass_completed
                    &&& r.finished
                })
            }),
    {
        if !self.playing {
            return TickReport { clicks: 0, pass_completed: false, finished: false };
        }
        if self.pre_roll_active {
            let before = self.pre_roll_remaining_micros;
            let after: u64 = if dt_micros >= before {
                0
            } else {
                before - dt_micros
            };
            self.pre_roll_remaining_micros = after;
            if after == 0 {
                self.pre_roll_active = false;
            }
            return TickReport {
                clicks: before / 1_000_000 - after / 1_000_000,
                pass_completed: false,
                finished: false,
            };
        }
        // Advance the playhead.
        if cfg.use_lesson_tempo {
            self.elapsed_micros = self.elapsed_micros + dt_micros;
            self.playhead = self.session.lesson.default_tempo.beat_at_time(self.elapsed_micros);
        } else {
            let adv = segment_to_microbeats(dt_micros, cfg.fixed_bpm_milli);
            self.playhead = self.playhead + adv;
        }
        // Metronome clicks at whole-beat boundaries.
        let clicks: u64 = if self.playhead >= self.next_click {
            let owed = self.playhead - self.next_click;
            proof {
                vstd::arithmetic::div_mod::lemma_fundamental_div_mod(owed as int, 1_000_000);
                vstd::arithmetic::div_mod::lemma_mod_bound(owed as int, 1_000_000);
                vstd::arithmetic::mul::lemma_mul_is_commutative(
                    (owed as int) / 1_000_000,
                    1_000_000,
                );
                vstd::arithmetic::mul::lemma_mul_is_distributive_add_other_way(
                    1_000_000,
                    (owed as int) / 1_000_000,
                    1,
                );
            }
            let c = owed / 1_000_000 + 1;
            self.next_click = self.next_click + c * 1_000_000;
            c
        } else {
            0
        };
        // Missed-event detection (test mode only), at this tick's tempo.
        let bpm_used: u32 = if cfg.use_lesson_tempo {
            self.session.lesson.default_tempo.bpm_at(self.elapsed_micros)
        } else {
            cfg.fixed_bpm_milli
        };
        if self.mode == PracticeUIMode::Test {
            let window = window_microbeats(cfg.match_window_pct_milli, cfg.match_cap_ms, bpm_used);
            let ghost st0 = self.statuses@;
            mark_missed(&self.session.lesson.notation, &mut self.statuses, self.playhead, window);
            proof {
                assert(self.statuses@ =~= missed_marked(
                    self.session.lesson.notation@,
                    st0,
                    self.playhead as int,
                    window as int,
                ));
            }
        }
        // Pass boundary: wrap, or stop and score.
        let boundary = self.boundary();
        if self.playhead >= boundary {
            self.loops_done = if self.loops_done == 255 {
                255
            } else {
                self.loops_done + 1
            };
            if self.mode == PracticeUIMode::FreePlay || self.loops_done < self.loop_total {
                let start = self.loop_start();
                self.playhead = start;
                self.elapsed_micros = 0;
                self.next_click = ceil_beat(start);
                self.clear_statuses();
                if cfg.countdown_each_loop {
                    self.pre_roll_active = true;
                    self.pre_roll_remaining_micros = (cfg.pre_roll_beats as u64) * 1_000_000;
                }
                TickReport { clicks, pass_completed: true, finished: false }
            } else {
                self.playing = false;
                let spb = 60_000_000_000u64 / (cfg.fixed_bpm_milli as u64);
                let report = self.scoring.score_with_spb(&self.session.lesson, &self.hits, spb);
                self.analytics = Some(SessionAnalytics::new(report));
                self.review_active = true;
                TickReport { clicks, pass_completed: true, finished: true }
            }
        } else {
            TickReport { clicks, pass_completed: false, finished: false }
        }
    }
}

impl PracticeEngine {
    /// Feed one decoded strike (piece and velocity) into the matcher.
    ///
    /// The strike is latency-compensated at the current tempo (the timeline's
    /// tempo at the elapsed instant in lesson-tempo mode, else the fixed
    /// practice tempo), matched against the nearest unresolved expectation of
    /// the same piece within the tolerance window, and classified. A resolved entry gets its label
    /// written — entries already resolved are never overwritten — and the
    /// strike is advanced through the in-order session. Every strike, matched
    /// or not, is appended to the captured log: an unmatched strike resolves
    /// nothing and is no error, but stays informational for the batch scorer.
    pub fn feed_strike(&mut self, piece: DrumPiece, velocity: u8, cfg: &PracticeConfig) -> (r:
        Option<usize>)
        requires
            old(self).wf(),
            cfg.wf(),
        ensures
            final(self).wf(),
            final(self).playing == old(self).playing,
            final(self).playhead == old(self).playhead,
            final(self).elapsed_micros == old(self).elapsed_micros,
            final(self).next_click == old(self).next_click,
            final(self).pre_roll_active == old(self).pre_roll_active,
            final(self).pre_roll_remaining_micros == old(self).pre_roll_remaining_micros,
            final(self).loops_done == old(self).loops_done,
            final(self).loop_total == old(self).loop_total,
            final(self).end_beat == old(self).end_beat,
            final(self).mode == old(self).mode,
            final(self).loop_use_region == old(self).loop_use_region,
            final(self).loop_a == old(self).loop_a,
            final(self).loop_b == old(self).loop_b,
            final(self).review_active == old(self).review_active,
            final(self).analytics == old(self).analytics,
            final(self).session.lesson == old(self).session.lesson,
            final(self).session.mode == old(self).session.mode,
            forall|j: int|
                0 <= j < old(self).statuses@.len() && old(self).statuses@[j] is Some
                    ==> final(self).statuses@[j] == old(self).statuses@[j],
            ({
                let bpm = old(self).spec_bpm_used(0, cfg) as int;
                let latency = spec_latency_microbeats(cfg.latency_ms as int, bpm);
                let window = spec_window_microbeats(
                    cfg.match_window_pct_milli as int,
                    cfg.match_cap_ms as int,
                    bpm,
                );
                let on_time = spec_window_microbeats(
                    cfg.on_time_pct_milli as int,
                    cfg.on_time_cap_ms as int,
                    bpm,
                );
                let notation = old(self).session.lesson.notation@;
                let strike = (DrumEvent {
                    beat: spec_hit_beat(old(self).playhead as int, latency) as u64,
                    piece,
                    articulation: DrumArticulation::Normal,
                    dynamic: crate::events::dynamic_of_velocity(velocity),
                    velocity,
                    timing_offset: (crate::events::TimingOffset { micros: 0 }),
                });
                &&& final(self).hits@ == old(self).hits@.push(strike)
                &&& (r is None ==> {
                    &&& final(self).statuses@ == old(self).statuses@
                    &&& final(self).session == old(self).session
                    &&& forall|i: int|
                        !qualifies(
                            notation,
                            old(self).statuses@,
                            piece,
                            spec_hit_beat(old(self).playhead as int, latency),
                            window,
                            i,
                        )
                })
                &&& (r matches Some(i) ==> {
                    let hit_beat = spec_hit_beat(old(self).playhead as int, latency);
                    &&& qualifies(notation, old(self).statuses@, piece, hit_beat, window, i as int)
                    &&& (forall|j: int|
                        qualifies(
                            notation,
                            old(self).statuses@,
                            piece,
                            spec_hit_beat(old(self).playhead as int, latency),
                            window,
                            j,
                        ) ==> beat_distance(notation[i as int].event.beat as int, hit_beat)
                            <= beat_distance(notation[j].event.beat as int, hit_beat))
                    &&& (forall|j: int|
                        qualifies(
                            notation,
                            old(self).statuses@,
                            piece,
                            spec_hit_beat(old(self).playhead as int, latency),
                            window,
                            j,
                        ) && j < i ==> beat_distance(notation[j].event.beat as int, hit_beat)
                            > beat_distance(notation[i as int].event.beat as int, hit_beat))
                    &&& final(self).statuses@ == old(self).statuses@.update(
                        i as int,
                        Some(
                            spec_classify(hit_beat, notation[i as int].event.beat as int, on_time),
                        ),
                    )
                    &&& final(self).session.current_index == ({
                        let oi = old(self).session.current_index as int;
                        if oi < notation.len() && notation[oi].event.piece == piece {
                            oi + 1
                        } else {
                            oi
                        }
                    })
                    &&& final(self).session.completed == (old(self).session.completed
                        || final(self).session.current_index >= notation.len())
                })
            }),
    {
        let bpm: u32 = if cfg.use_lesson_tempo {
            self.session.lesson.default_tempo.bpm_at(self.elapsed_micros)
        } else {
            cfg.fixed_bpm_milli
        };
        let latency = latency_microbeats(cfg.latency_ms, bpm);
        let hit_beat: u64 = if self.playhead >= latency {
            self.playhead - latency
        } else {
            0
        };
        let window = window_microbeats(cfg.match_window_pct_milli, cfg.match_cap_ms, bpm);
        let on_time = window_microbeats(cfg.on_time_pct_milli, cfg.on_time_cap_ms, bpm);
        let resolved = resolve_strike(
            &self.session.lesson.notation,
            &mut self.statuses,
            piece,
            hit_beat,
            window,
            on_time,
        );
        let strike = DrumEvent::new(hit_beat, piece, velocity, DrumArticulation::Normal);
        match resolved {
            None => {
                self.hits.push(strike);
                None
            },
            Some(idx) => {
                self.session.register_hit(&strike);
                self.hits.push(strike);
                Some(idx)
            },
        }
    }
}

/// How many chart entries of a piece carry a given label: one line of the
/// end-of-run review's per-piece breakdown.
pub open spec fn spec_label_count(
    notation: Seq<crate::events::NotatedEvent>,
    statuses: Seq<Option<HitLabel>>,
    piece: DrumPiece,
    label: HitLabel,
    k: int,
) -> int
    decreases k,
{
    if k <= 0 {
        0
    } else {
        spec_label_count(notation, statuses, piece, label, k - 1) + (
        if notation[k - 1].event.piece == piece && statuses[k - 1] == Some(label) {
            1int
        } else {
            0int
        })
    }
}

/// Count the chart entries of `piece` currently labelled `label`.
pub fn piece_label_count(
    notation: &Vec<crate::events::NotatedEvent>,
    statuses: &Vec<Option<HitLabel>>,
    piece: DrumPiece,
    label: HitLabel,
) -> (c: usize)
    requires
        statuses@.len() == notation@.len(),
    ensures
        c == spec_label_count(notation@, statuses@, piece, label, notation@.len() as int),
{
    let ghost n = notation@;
    let ghost st = statuses@;
    let mut c: usize = 0;
    let mut i: usize = 0;
    while i < notation.len()
        invariant
            n == notation@,
            st == statuses@,
            statuses@.len() == notation@.len(),
            i <= n.len(),
            c == spec_label_count(n, st, piece, label, i as int),
            c <= i,
        decreases n.len() - i,
    {
        let hit = match statuses[i] {
            Some(l) => l == label && notation[i].event.piece == piece,
            None => false,
        };
        if hit {
            c += 1;
        }
        i += 1;
    }
    c
}

/// The smallest whole-beat boundary at or above `b`.
fn ceil_beat(b: u64) -> (r: u64)
    requires
        b <= MAX_PLAYHEAD_MICROS,
    ensures
        r == ceil_to_beat(b as int),
        b <= r <= b + BEAT,
{
    proof {
        vstd::arithmetic::div_mod::lemma_fundamental_div_mod((b + 999_999) as int, 1_000_000);
        vstd::arithmetic::div_mod::lemma_mod_bound((b + 999_999) as int, 1_000_000);
        vstd::arithmetic::mul::lemma_mul_is_commutative(
            ((b + 999_999) as int) / 1_000_000,
            1_000_000,
        );
    }
    ((b + 999_999) / 1_000_000) * 1_000_000
}

} // verus!
