use taal_core::error::DomainError;
use taal_core::events::DrumArticulation;
use taal_core::events::DrumDynamic;
use taal_core::events::DrumEvent;
use taal_core::events::DrumPiece;
use taal_core::events::NotatedEvent;
use taal_core::tempo::TempoEvent;
use taal_core::tempo::TempoMap;
use taal_core::tempo::TimeSignature;

#[test]
fn dynamic_from_velocity() {
    assert_eq!(DrumDynamic::from_velocity(10), DrumDynamic::Pianissimo);
    assert_eq!(DrumDynamic::from_velocity(55), DrumDynamic::MezzoPiano);
    assert_eq!(DrumDynamic::from_velocity(120), DrumDynamic::Fortissimo);
}

#[test]
fn dynamic_band_edges() {
    assert_eq!(DrumDynamic::from_velocity(0), DrumDynamic::Pianissimo);
    assert_eq!(DrumDynamic::from_velocity(20), DrumDynamic::Pianissimo);
    assert_eq!(DrumDynamic::from_velocity(21), DrumDynamic::Piano);
    assert_eq!(DrumDynamic::from_velocity(50), DrumDynamic::Piano);
    assert_eq!(DrumDynamic::from_velocity(80), DrumDynamic::MezzoPiano);
    assert_eq!(DrumDynamic::from_velocity(100), DrumDynamic::MezzoForte);
    assert_eq!(DrumDynamic::from_velocity(115), DrumDynamic::Forte);
    assert_eq!(DrumDynamic::from_velocity(116), DrumDynamic::Fortissimo);
    assert_eq!(DrumDynamic::from_velocity(127), DrumDynamic::Fortissimo);
}

#[test]
fn drum_event_new_sets_dynamic() {
    let event = DrumEvent::new(1_000_000, DrumPiece::Snare, 96, DrumArticulation::Normal);
    assert_eq!(event.dynamic, DrumDynamic::MezzoForte);
    assert_eq!(event.timing_offset.micros, 0);
}

#[test]
fn tempo_event_validation() {
    assert!(TempoEvent::new(-1_000_000, 120_000, (4, 4)).is_err());
    assert!(TempoEvent::new(0, 5_000, (4, 4)).is_err());
    assert!(TempoEvent::new(0, 120_000, (3, 5)).is_err());
    assert!(TempoEvent::new(0, 120_000, (4, 4)).is_ok());
}

#[test]
fn tempo_event_validation_reasons() {
    match TempoEvent::new(-1, 120_000, (4, 4)) {
        Err(DomainError::Validation(m)) => {
            assert_eq!(m, "tempo events cannot have negative time")
        }
        other => panic!("expected a validation failure, got {:?}", other),
    }
    match TempoEvent::new(0, 500_000, (4, 4)) {
        Err(DomainError::Validation(m)) => {
            assert_eq!(m, "tempo bpm must be between 10 and 400")
        }
        other => panic!("expected a validation failure, got {:?}", other),
    }
    match TempoEvent::new(0, 120_000, (0, 4)) {
        Err(DomainError::Validation(m)) => {
            assert_eq!(m, "time signature denominator must be power of two")
        }
        other => panic!("expected a validation failure, got {:?}", other),
    }
}

#[test]
fn tempo_map_queries() {
    let map = TempoMap::new(vec![
        TempoEvent::new(0, 120_000, (4, 4)).unwrap(),
        TempoEvent::new(10_000_000, 90_000, (3, 4)).unwrap(),
    ])
    .unwrap();
    assert_eq!(map.bpm_at(5_000_000), 120_000);
    assert_eq!(map.bpm_at(12_000_000), 90_000);
    assert_eq!(
        map.time_signature_at(12_000_000),
        TimeSignature { numerator: 3, denominator: 4 }
    );
}

#[test]
fn tempo_map_sorts_and_anchors() {
    // Events arrive out of order; the constructor sorts them.
    let map = TempoMap::new(vec![
        TempoEvent::new(10_000_000, 90_000, (4, 4)).unwrap(),
        TempoEvent::new(0, 120_000, (4, 4)).unwrap(),
    ])
    .unwrap();
    assert_eq!(map.events()[0].time_micros, 0);
    assert_eq!(map.events()[1].time_micros, 10_000_000);
    // A map whose earliest event is not at zero is refused.
    assert!(TempoMap::new(vec![TempoEvent::new(5_000_000, 120_000, (4, 4)).unwrap()]).is_err());
    // An empty map is refused.
    assert!(TempoMap::new(Vec::new()).is_err());
}

#[test]
fn beat_at_time_piecewise() {
    // 120 BPM for ten seconds (20 beats), then 90 BPM.
    let map = TempoMap::new(vec![
        TempoEvent::new(0, 120_000, (4, 4)).unwrap(),
        TempoEvent::new(10_000_000, 90_000, (3, 4)).unwrap(),
    ])
    .unwrap();
    assert_eq!(map.beat_at_time(0), 0);
    assert_eq!(map.beat_at_time(1_000_000), 2_000_000);
    assert_eq!(map.beat_at_time(10_000_000), 20_000_000);
    // Two more seconds at 90 BPM add three beats.
    assert_eq!(map.beat_at_time(12_000_000), 23_000_000);
}

#[test]
fn beat_at_time_monotone_samples() {
    let map = TempoMap::new(vec![
        TempoEvent::new(0, 200_000, (4, 4)).unwrap(),
        TempoEvent::new(3_000_000, 60_000, (4, 4)).unwrap(),
        TempoEvent::new(9_000_000, 400_000, (4, 4)).unwrap(),
    ])
    .unwrap();
    let mut last = 0u64;
    let mut t = 0u64;
    while t <= 15_000_000 {
        let b = map.beat_at_time(t);
        assert!(b >= last, "beat position fell from {} to {} at t={}", last, b, t);
        last = b;
        t += 137_531;
    }
}

#[test]
fn beat_time_round_trip_constant() {
    // At 120 BPM one beat is half a second; four beats take two seconds and
    // convert back exactly.
    let map = TempoMap::constant(120_000).unwrap();
    let t = map.duration_between_beats(0, 4_000_000);
    assert_eq!(t, 2_000_000);
    assert_eq!(map.beat_at_time(t), 4_000_000);
    // An awkward tempo rounds, but stays within seven micro-beats per beat.
    let map = TempoMap::constant(137_333).unwrap();
    let b = 7_500_000u64;
    let t = map.duration_between_beats(0, b);
    let back = map.beat_at_time(t);
    assert!(back <= b);
    assert!(b - back <= 7 * (b / 1_000_000 + 1));
}

#[test]
fn duration_between_beats_holds_last_tempo() {
    let map = TempoMap::constant(60_000).unwrap();
    // One beat per second at 60 BPM.
    assert_eq!(map.duration_between_beats(0, 1_000_000), 1_000_000);
    assert_eq!(map.duration_between_beats(2_000_000, 5_500_000), 3_500_000);
    // Inverted or empty ranges cost nothing.
    assert_eq!(map.duration_between_beats(5_000_000, 5_000_000), 0);
    assert_eq!(map.duration_between_beats(6_000_000, 5_000_000), 0);
}

#[test]
fn micros_per_beat_matches_tempo() {
    let e = TempoEvent::new(0, 120_000, (4, 4)).unwrap();
    assert_eq!(e.micros_per_beat(), 500_000);
    let e = TempoEvent::new(0, 10_000, (4, 4)).unwrap();
    assert_eq!(e.micros_per_beat(), 6_000_000);
}

#[test]
fn notated_event_carries_duration() {
    let event = DrumEvent::new(0, DrumPiece::Bass, 100, DrumArticulation::Normal);
    let notated = NotatedEvent::new(event, 500_000);
    assert_eq!(notated.duration_micros, 500_000);
    assert!(notated.tuplet.is_none());
    assert_eq!(notated.event, event);
}

#[test]
fn validation_error_carries_message() {
    let e = DomainError::validation("broken");
    assert_eq!(e.message(), "broken");
}

#[test]
fn beat_at_time_holds_last_tempo_indefinitely() {
    // Queries far beyond the last event keep the last tempo: 20 beats in the
    // first ten seconds at 120 BPM, then 1.5 beats per second at 90 BPM.
    let map = TempoMap::new(vec![
        TempoEvent::new(0, 120_000, (4, 4)).unwrap(),
        TempoEvent::new(10_000_000, 90_000, (3, 4)).unwrap(),
    ])
    .unwrap();
    assert_eq!(map.beat_at_time(1_000_000_000), 1_505_000_000);
    assert_eq!(map.bpm_at(1_000_000_000), 90_000);
}
