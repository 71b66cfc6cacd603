use taal_core::analytics::SessionAnalytics;
use taal_core::events::DrumArticulation;
use taal_core::events::DrumEvent;
use taal_core::events::DrumPiece;
use taal_core::events::NotatedEvent;
use taal_core::lesson::LessonDescriptor;
use taal_core::lesson::PracticeStatistics;
use taal_core::matcher::classify_hit;
use taal_core::matcher::latency_microbeats;
use taal_core::matcher::mark_missed;
use taal_core::matcher::nearest_unresolved;
use taal_core::matcher::resolve_strike;
use taal_core::matcher::window_microbeats;
use taal_core::matcher::HitLabel;
use taal_core::scoring::PerformanceReport;
use taal_core::scoring::ScoringEngine;
use taal_core::session::PracticeMode;
use taal_core::session::SessionState;
use taal_core::tempo::TempoMap;

fn snare(beat: u64, velocity: u8) -> NotatedEvent {
    NotatedEvent::new(
        DrumEvent::new(beat, DrumPiece::Snare, velocity, DrumArticulation::Normal),
        500_000,
    )
}

fn one_snare_lesson() -> LessonDescriptor {
    let tempo = TempoMap::constant(120_000).unwrap();
    LessonDescriptor::new("id", "Lesson", "desc", 1, tempo, vec![snare(0, 96)])
}

#[test]
fn window_takes_the_tighter_component() {
    // 12.5 % of a beat is 125_000 micro-beats; the 75 ms cap at 240 BPM is
    // 300_000, so the percentage wins.
    assert_eq!(window_microbeats(12_500, 75, 240_000), 125_000);
    // At 40 BPM the cap converts to 50_000 micro-beats and wins: the window
    // in real time shrinks as tempo passes the cap threshold.
    assert_eq!(window_microbeats(12_500, 75, 40_000), 50_000);
}

#[test]
fn latency_converts_at_tempo() {
    // 30 ms at 120 BPM is 0.06 beats.
    assert_eq!(latency_microbeats(30, 120_000), 60_000);
    assert_eq!(latency_microbeats(0, 120_000), 0);
}

#[test]
fn classification_brackets() {
    assert_eq!(classify_hit(1_000_000, 1_010_000, 20_000), HitLabel::OnTime);
    assert_eq!(classify_hit(1_050_000, 1_000_000, 20_000), HitLabel::Late);
    assert_eq!(classify_hit(950_000, 1_000_000, 20_000), HitLabel::Early);
    // A dead-centre strike with a zero on-time window is not late.
    assert_eq!(classify_hit(1_000_000, 1_000_000, 0), HitLabel::Early);
}

#[test]
fn nearest_neighbor_tie_break() {
    // Two unmatched snare expectations at beats 1.0 and 1.2; a strike at 1.1
    // is equidistant. The matcher resolves the earlier chart entry, and does
    // so on every run.
    let notation = vec![snare(1_000_000, 96), snare(1_200_000, 96)];
    for _ in 0..10 {
        let statuses: Vec<Option<HitLabel>> = vec![None, None];
        let got = nearest_unresolved(&notation, &statuses, DrumPiece::Snare, 1_100_000, 200_000);
        assert_eq!(got, Some(0));
    }
}

#[test]
fn nearest_prefers_closer_entry() {
    let notation = vec![snare(1_000_000, 96), snare(1_150_000, 96)];
    let statuses: Vec<Option<HitLabel>> = vec![None, None];
    let got = nearest_unresolved(&notation, &statuses, DrumPiece::Snare, 1_100_000, 200_000);
    assert_eq!(got, Some(1));
}

#[test]
fn matcher_skips_other_pieces_and_resolved_entries() {
    let bass = NotatedEvent::new(
        DrumEvent::new(1_000_000, DrumPiece::Bass, 96, DrumArticulation::Normal),
        500_000,
    );
    let notation = vec![bass, snare(1_050_000, 96)];
    let statuses: Vec<Option<HitLabel>> = vec![None, Some(HitLabel::OnTime)];
    let got = nearest_unresolved(&notation, &statuses, DrumPiece::Snare, 1_000_000, 200_000);
    assert_eq!(got, None);
}

#[test]
fn resolved_entries_are_never_overwritten() {
    let notation = vec![snare(1_000_000, 96)];
    let mut statuses: Vec<Option<HitLabel>> = vec![None];
    let first = resolve_strike(&notation, &mut statuses, DrumPiece::Snare, 1_010_000, 100_000, 5_000);
    assert_eq!(first, Some(0));
    assert_eq!(statuses[0], Some(HitLabel::Late));
    // A second, even closer strike cannot take the entry over.
    let second =
        resolve_strike(&notation, &mut statuses, DrumPiece::Snare, 1_000_000, 100_000, 50_000);
    assert_eq!(second, None);
    assert_eq!(statuses[0], Some(HitLabel::Late));
}

#[test]
fn unmatched_strike_changes_nothing() {
    let notation = vec![snare(1_000_000, 96)];
    let mut statuses: Vec<Option<HitLabel>> = vec![None];
    let got = resolve_strike(&notation, &mut statuses, DrumPiece::Snare, 5_000_000, 100_000, 50_000);
    assert_eq!(got, None);
    assert_eq!(statuses[0], None);
}

#[test]
fn missed_detection_fires_only_past_the_window() {
    // An expectation at beat 4.0 with a 0.1-beat window becomes Missed once
    // the playhead passes 4.1, never before.
    let notation = vec![snare(4_000_000, 96)];
    let mut statuses: Vec<Option<HitLabel>> = vec![None];
    mark_missed(&notation, &mut statuses, 4_100_000, 100_000);
    assert_eq!(statuses[0], None);
    mark_missed(&notation, &mut statuses, 4_100_001, 100_000);
    assert_eq!(statuses[0], Some(HitLabel::Missed));
}

#[test]
fn missed_detection_leaves_resolved_entries() {
    let notation = vec![snare(1_000_000, 96), snare(2_000_000, 96)];
    let mut statuses: Vec<Option<HitLabel>> = vec![Some(HitLabel::OnTime), None];
    mark_missed(&notation, &mut statuses, 9_000_000, 100_000);
    assert_eq!(statuses[0], Some(HitLabel::OnTime));
    assert_eq!(statuses[1], Some(HitLabel::Missed));
}

#[test]
fn scoring_matches_hits() {
    let lesson = one_snare_lesson();
    let hits = vec![DrumEvent::new(100_000, DrumPiece::Snare, 90, DrumArticulation::Normal)];
    let engine = ScoringEngine;
    let report = engine.score(&lesson, &hits);
    assert!(report.accuracy_permille > 0);
}

#[test]
fn batch_scoring_empty_chart() {
    let tempo = TempoMap::constant(120_000).unwrap();
    let lesson = LessonDescriptor::new("id", "Lesson", "desc", 1, tempo, Vec::new());
    let engine = ScoringEngine;
    let report = engine.score(&lesson, &Vec::new());
    assert_eq!(report.accuracy_permille, 0);
    assert_eq!(report.early_hits, 0);
    assert_eq!(report.late_hits, 0);
    let report = engine.score_with_spb(&lesson, &Vec::new(), 500_000);
    assert_eq!(report.accuracy_permille, 0);
}

#[test]
fn batch_scoring_is_positional() {
    // Two entries; the strikes arrive swapped in time, so positional pairing
    // matches only pairs within tolerance of their own index.
    let tempo = TempoMap::constant(120_000).unwrap();
    let lesson = LessonDescriptor::new(
        "id",
        "Lesson",
        "desc",
        1,
        tempo,
        vec![snare(0, 96), snare(1_000_000, 96)],
    );
    let hits = vec![
        DrumEvent::new(1_000_000, DrumPiece::Snare, 96, DrumArticulation::Normal),
        DrumEvent::new(0, DrumPiece::Snare, 96, DrumArticulation::Normal),
    ];
    let engine = ScoringEngine;
    let report = engine.score(&lesson, &hits);
    assert_eq!(report.accuracy_permille, 0);
}

#[test]
fn batch_scoring_50ms_threshold() {
    // At 500_000 microseconds per beat, 0.099 beats is 49.5 ms (matched,
    // late) and 0.101 beats is 50.5 ms (unmatched).
    let tempo = TempoMap::constant(120_000).unwrap();
    let lesson = LessonDescriptor::new(
        "id",
        "Lesson",
        "desc",
        1,
        tempo,
        vec![snare(1_000_000, 96), snare(2_000_000, 96)],
    );
    let hits = vec![
        DrumEvent::new(1_099_000, DrumPiece::Snare, 96, DrumArticulation::Normal),
        DrumEvent::new(2_101_000, DrumPiece::Snare, 96, DrumArticulation::Normal),
    ];
    let engine = ScoringEngine;
    let report = engine.score_with_spb(&lesson, &hits, 500_000);
    assert_eq!(report.accuracy_permille, 500);
    assert_eq!(report.late_hits, 1);
    assert_eq!(report.early_hits, 0);
}

#[test]
fn analytics_updates_stats() {
    let mut stats = PracticeStatistics::new();
    let analytics = SessionAnalytics::new(PerformanceReport {
        accuracy_permille: 950,
        early_hits: 1,
        late_hits: 0,
    });
    analytics.update_statistics(&mut stats);
    assert!(stats.average_accuracy_permille > 0);
    assert_eq!(stats.highest_streak, 1);
}

#[test]
fn analytics_streak_floors_at_zero() {
    let mut stats = PracticeStatistics::new();
    let poor = SessionAnalytics::new(PerformanceReport {
        accuracy_permille: 100,
        early_hits: 0,
        late_hits: 0,
    });
    poor.update_statistics(&mut stats);
    assert_eq!(stats.highest_streak, 0);
    assert_eq!(stats.average_accuracy_permille, 50);
    let good = SessionAnalytics::new(PerformanceReport {
        accuracy_permille: 1000,
        early_hits: 0,
        late_hits: 0,
    });
    good.update_statistics(&mut stats);
    good.update_statistics(&mut stats);
    assert_eq!(stats.highest_streak, 2);
    let poor2 = SessionAnalytics::new(PerformanceReport {
        accuracy_permille: 900,
        early_hits: 0,
        late_hits: 0,
    });
    poor2.update_statistics(&mut stats);
    assert_eq!(stats.highest_streak, 1);
}

#[test]
fn session_tracks_completion() {
    let lesson = one_snare_lesson();
    let mut session = SessionState::new(lesson, PracticeMode::Learn);
    assert!(!session.completed);
    let hit = DrumEvent::new(0, DrumPiece::Snare, 96, DrumArticulation::Normal);
    session.register_hit(&hit);
    assert!(session.completed);
}

#[test]
fn session_ignores_wrong_piece() {
    let lesson = one_snare_lesson();
    let mut session = SessionState::new(lesson, PracticeMode::Practice);
    let wrong = DrumEvent::new(0, DrumPiece::Bass, 96, DrumArticulation::Normal);
    session.register_hit(&wrong);
    assert!(!session.completed);
    assert_eq!(session.current_index, 0);
    assert_eq!(session.expect_next().unwrap().piece, DrumPiece::Snare);
}
