use taal_core::events::DrumArticulation;
use taal_core::events::DrumEvent;
use taal_core::events::DrumPiece;
use taal_core::events::NotatedEvent;
use taal_core::lesson::LessonDescriptor;
use taal_core::matcher::HitLabel;
use taal_core::practice::piece_label_count;
use taal_core::practice::PracticeConfig;
use taal_core::practice::PracticeEngine;
use taal_core::practice::PracticeUIMode;
use taal_core::session::PracticeMode;
use taal_core::tempo::TempoMap;

fn snare(beat: u64, velocity: u8) -> NotatedEvent {
    NotatedEvent::new(
        DrumEvent::new(beat, DrumPiece::Snare, velocity, DrumArticulation::Normal),
        500_000,
    )
}

fn lesson_with(notation: Vec<NotatedEvent>, bpm_milli: u32) -> LessonDescriptor {
    let tempo = TempoMap::constant(bpm_milli).unwrap();
    LessonDescriptor::new("id", "Lesson", "desc", 1, tempo, notation)
}

fn config() -> PracticeConfig {
    PracticeConfig {
        match_window_pct_milli: 12_500,
        on_time_pct_milli: 7_500,
        match_cap_ms: 75,
        on_time_cap_ms: 40,
        latency_ms: 0,
        pre_roll_beats: 0,
        countdown_each_loop: false,
        passes_target: 2,
        use_lesson_tempo: false,
        fixed_bpm_milli: 120_000,
    }
}

#[test]
fn end_to_end_on_time_strike() {
    // One snare at beat zero, 120 BPM. A strike heard 0.02 beats in, with the
    // on-time window comfortably wider, earns OnTime.
    let mut engine = PracticeEngine::new(lesson_with(vec![snare(0, 96)], 120_000), PracticeMode::Learn);
    engine.playhead = 20_000;
    let got = engine.feed_strike(DrumPiece::Snare, 96, &config());
    assert_eq!(got, Some(0));
    assert_eq!(engine.statuses[0], Some(HitLabel::OnTime));
    assert_eq!(engine.hits.len(), 1);
    assert_eq!(engine.hits[0].beat, 20_000);
}

#[test]
fn end_to_end_late_strike_with_tight_window() {
    // The same strike under an on-time window tighter than 0.02 beats is
    // Late, since it came after the expectation.
    let mut engine = PracticeEngine::new(lesson_with(vec![snare(0, 96)], 120_000), PracticeMode::Learn);
    engine.playhead = 20_000;
    let mut cfg = config();
    cfg.on_time_pct_milli = 1_000; // 0.01 beats
    cfg.on_time_cap_ms = 5; // 0.01 beats at 120 BPM
    let got = engine.feed_strike(DrumPiece::Snare, 96, &cfg);
    assert_eq!(got, Some(0));
    assert_eq!(engine.statuses[0], Some(HitLabel::Late));
}

#[test]
fn latency_compensation_shifts_the_hit() {
    let mut engine = PracticeEngine::new(lesson_with(vec![snare(0, 96)], 120_000), PracticeMode::Learn);
    engine.playhead = 100_000;
    let mut cfg = config();
    cfg.latency_ms = 50; // 0.1 beats at 120 BPM
    let got = engine.feed_strike(DrumPiece::Snare, 96, &cfg);
    assert_eq!(got, Some(0));
    assert_eq!(engine.hits[0].beat, 0);
}

#[test]
fn loop_wraparound_two_passes() {
    // Explicit region 2.0..6.0, two passes, Test mode: the second boundary
    // crossing stops the run and produces a review; the status table is
    // cleared exactly once, between the passes.
    let mut engine = PracticeEngine::new(
        lesson_with(vec![snare(3_000_000, 96)], 120_000),
        PracticeMode::Practice,
    );
    engine.mode = PracticeUIMode::Test;
    engine.set_loop_region(true, 2_000_000, 6_000_000);
    let cfg = config();
    engine.start(&cfg);
    assert_eq!(engine.playhead, 2_000_000);
    // Pre-roll of zero beats expires on the first tick.
    let r = engine.tick(1, &cfg);
    assert_eq!(r.clicks, 0);
    assert!(!engine.pre_roll_active);
    // Resolve the snare, then cross the boundary: 2.5 s at 120 BPM is five
    // beats, carrying the playhead from 2.0 past 6.0.
    engine.playhead = 3_000_000;
    let got = engine.feed_strike(DrumPiece::Snare, 96, &cfg);
    assert_eq!(got, Some(0));
    assert_eq!(engine.statuses[0], Some(HitLabel::OnTime));
    engine.playhead = 2_000_000;
    let r1 = engine.tick(2_500_000, &cfg);
    assert!(r1.pass_completed);
    assert!(!r1.finished);
    assert_eq!(engine.loops_done, 1);
    assert_eq!(engine.playhead, 2_000_000);
    // The wrap cleared the table for the second pass.
    assert_eq!(engine.statuses[0], None);
    assert!(engine.playing);
    // Second crossing: the run stops and the review appears.
    let r2 = engine.tick(2_500_000, &cfg);
    assert!(r2.pass_completed);
    assert!(r2.finished);
    assert!(!engine.playing);
    assert!(engine.review_active);
    let analytics = engine.analytics.expect("review must carry a report");
    // One captured hit against a one-entry chart: a non-empty report.
    assert_eq!(engine.hits.len(), 1);
    assert!(analytics.report.accuracy_permille <= 1000);
}

#[test]
fn free_play_loops_forever() {
    let mut engine = PracticeEngine::new(lesson_with(vec![snare(1_000_000, 96)], 120_000), PracticeMode::Learn);
    let cfg = config();
    engine.start(&cfg);
    engine.tick(1, &cfg);
    for _ in 0..5 {
        let r = engine.tick(1_000_000, &cfg); // two beats per tick
        assert!(!r.finished);
        assert!(engine.playing);
    }
}

#[test]
fn missed_detection_runs_during_test_ticks() {
    // An expectation at beat 4.0: with the match window at 0.1 beats the
    // entry goes Missed only once the playhead passes 4.1.
    let mut engine = PracticeEngine::new(
        lesson_with(vec![snare(4_000_000, 96), snare(40_000_000, 96)], 120_000),
        PracticeMode::Practice,
    );
    engine.mode = PracticeUIMode::Test;
    let mut cfg = config();
    cfg.match_window_pct_milli = 10_000; // 0.1 beats
    cfg.match_cap_ms = 1_000_000; // the percentage is the tighter component
    engine.start(&cfg);
    engine.tick(1, &cfg);
    // 2.05 s at 120 BPM: the playhead lands exactly on 4.1 — not yet missed.
    let _ = engine.tick(2_049_999, &cfg);
    assert_eq!(engine.playhead, 4_099_998);
    assert_eq!(engine.statuses[0], None);
    let _ = engine.tick(2, &cfg);
    assert_eq!(engine.playhead, 4_100_002);
    assert_eq!(engine.statuses[0], Some(HitLabel::Missed));
}

#[test]
fn pre_roll_counts_wall_clock_seconds() {
    // Four configured beats pre-roll four wall-clock seconds, one click per
    // whole second crossed, whatever the tempo.
    let mut engine = PracticeEngine::new(lesson_with(vec![snare(1_000_000, 96)], 120_000), PracticeMode::Learn);
    let mut cfg = config();
    cfg.pre_roll_beats = 4;
    engine.start(&cfg);
    assert!(engine.pre_roll_active);
    assert_eq!(engine.pre_roll_remaining_micros, 4_000_000);
    let r = engine.tick(500_000, &cfg);
    assert_eq!(r.clicks, 1); // crossed 4.0
    assert!(engine.pre_roll_active);
    let r = engine.tick(1_000_000, &cfg);
    assert_eq!(r.clicks, 1); // crossed 3.0
    let r = engine.tick(2_500_000, &cfg);
    assert_eq!(r.clicks, 2); // crossed 2.0 and 1.0
    assert!(!engine.pre_roll_active);
    assert_eq!(engine.playhead, 0); // the playhead waits out the pre-roll
}

#[test]
fn metronome_clicks_at_beat_boundaries() {
    let mut engine = PracticeEngine::new(lesson_with(vec![snare(40_000_000, 96)], 120_000), PracticeMode::Learn);
    let cfg = config();
    engine.start(&cfg);
    engine.tick(1, &cfg); // expire the zero-length pre-roll
    // Half a second at 120 BPM is one beat: the first tick crosses beat 0
    // and lands past it.
    let r = engine.tick(500_000, &cfg);
    assert_eq!(engine.playhead, 1_000_000);
    assert_eq!(r.clicks, 2); // beats 0 and 1
    let r = engine.tick(200_000, &cfg);
    assert_eq!(r.clicks, 0);
    let r = engine.tick(400_000, &cfg);
    assert_eq!(r.clicks, 1); // beat 2
}

#[test]
fn reset_keeps_statuses_retry_clears_them() {
    let mut engine = PracticeEngine::new(lesson_with(vec![snare(0, 96)], 120_000), PracticeMode::Learn);
    let cfg = config();
    engine.playhead = 10_000;
    let _ = engine.feed_strike(DrumPiece::Snare, 96, &cfg);
    assert_eq!(engine.statuses[0], Some(HitLabel::OnTime));
    engine.reset();
    assert_eq!(engine.playhead, 0);
    assert_eq!(engine.statuses[0], Some(HitLabel::OnTime));
    assert_eq!(engine.hits.len(), 1);
    engine.retry();
    assert_eq!(engine.statuses[0], None);
    assert_eq!(engine.hits.len(), 0);
}

#[test]
fn loop_region_swaps_inverted_edges() {
    let mut engine = PracticeEngine::new(lesson_with(vec![snare(0, 96)], 120_000), PracticeMode::Learn);
    engine.set_loop_region(true, 6_000_000, 2_000_000);
    assert_eq!(engine.loop_a, 2_000_000);
    assert_eq!(engine.loop_b, 6_000_000);
    assert!(engine.loop_use_region);
}

#[test]
fn per_piece_review_counts() {
    let bass = NotatedEvent::new(
        DrumEvent::new(500_000, DrumPiece::Bass, 110, DrumArticulation::Normal),
        500_000,
    );
    let notation = vec![snare(0, 96), bass, snare(1_000_000, 96)];
    let statuses = vec![Some(HitLabel::OnTime), Some(HitLabel::Missed), Some(HitLabel::OnTime)];
    assert_eq!(piece_label_count(&notation, &statuses, DrumPiece::Snare, HitLabel::OnTime), 2);
    assert_eq!(piece_label_count(&notation, &statuses, DrumPiece::Bass, HitLabel::Missed), 1);
    assert_eq!(piece_label_count(&notation, &statuses, DrumPiece::Bass, HitLabel::OnTime), 0);
}

#[test]
fn countdown_each_loop_re_enters_pre_roll() {
    let mut engine = PracticeEngine::new(
        lesson_with(vec![snare(1_000_000, 96)], 120_000),
        PracticeMode::Learn,
    );
    let mut cfg = config();
    cfg.countdown_each_loop = true;
    cfg.pre_roll_beats = 2;
    engine.start(&cfg);
    // Expire the initial two-second pre-roll, then cross the boundary.
    let _ = engine.tick(2_000_000, &cfg);
    assert!(!engine.pre_roll_active);
    let r = engine.tick(1_000_000, &cfg);
    assert!(r.pass_completed);
    assert!(engine.pre_roll_active);
    assert_eq!(engine.pre_roll_remaining_micros, 2_000_000);
    assert_eq!(engine.playhead, 0);
}

#[test]
fn stop_pauses_in_place() {
    let mut engine = PracticeEngine::new(
        lesson_with(vec![snare(10_000_000, 96)], 120_000),
        PracticeMode::Learn,
    );
    let cfg = config();
    engine.start(&cfg);
    engine.tick(1, &cfg);
    engine.tick(500_000, &cfg);
    let at = engine.playhead;
    engine.stop();
    assert!(!engine.playing);
    assert_eq!(engine.playhead, at);
    // A tick while stopped changes nothing.
    let r = engine.tick(500_000, &cfg);
    assert_eq!(r.clicks, 0);
    assert_eq!(engine.playhead, at);
}

#[test]
fn unmatched_strike_is_still_captured() {
    // A strike far outside every window resolves nothing, raises no error,
    // and is still appended to the captured log for the batch scorer.
    let mut engine = PracticeEngine::new(lesson_with(vec![snare(0, 96)], 120_000), PracticeMode::Learn);
    engine.playhead = 9_000_000;
    let got = engine.feed_strike(DrumPiece::Snare, 96, &config());
    assert_eq!(got, None);
    assert_eq!(engine.statuses[0], None);
    assert_eq!(engine.hits.len(), 1);
    assert_eq!(engine.hits[0].beat, 9_000_000);
    // A wrong-piece strike likewise matches nothing but is captured.
    let got = engine.feed_strike(DrumPiece::Bass, 96, &config());
    assert_eq!(got, None);
    assert_eq!(engine.hits.len(), 2);
}
