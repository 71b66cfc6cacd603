use taal_core::audio::load_mock_classifier;
use taal_core::audio::AudioBackend;
use taal_core::audio::NullBackend;
use taal_core::audio::StreamConfig;
use taal_core::events::DrumArticulation;
use taal_core::events::DrumEvent;
use taal_core::events::DrumPiece;
use taal_core::events::NotatedEvent;
use taal_core::export::ExportFormat;
use taal_core::export::MidiExporter;
use taal_core::export::NotationExporter;
use taal_core::lesson::LessonDescriptor;
use taal_core::midi::default_mapping;
use taal_core::midi::is_note_on;
use taal_core::midi::ordered_lanes;
use taal_core::midi::piece_for_note;
use taal_core::midi::studio_lanes;
use taal_core::notation::NotationEditor;
use taal_core::services::MarketplaceClient;
use taal_core::tempo::TempoMap;
use taal_core::transcriber::TranscriptionJob;
use taal_core::transcriber::TranscriptionPipeline;

fn one_snare_lesson() -> LessonDescriptor {
    let tempo = TempoMap::constant(120_000).unwrap();
    LessonDescriptor::new(
        "id",
        "Lesson",
        "desc",
        1,
        tempo,
        vec![NotatedEvent::new(
            DrumEvent::new(0, DrumPiece::Snare, 96, DrumArticulation::Normal),
            500_000,
        )],
    )
}

#[test]
fn null_backend_returns_config() {
    let backend = NullBackend;
    let config = StreamConfig { buffer_size: 128, ..Default::default() };
    let handle = backend.open_stream(&config).unwrap();
    assert_eq!(handle.config().buffer_size, 128);
}

#[test]
fn mock_classifier_loads() {
    assert!(load_mock_classifier("any/path.onnx").is_ok());
}

#[test]
fn midi_exporter_rejects_other_formats() {
    let exporter = MidiExporter;
    let lesson = one_snare_lesson();
    assert!(exporter.export(&lesson, ExportFormat::Json).is_err());
    assert!(exporter.export(&lesson, ExportFormat::MusicXml).is_err());
    assert!(exporter.export(&lesson, ExportFormat::Midi).is_ok());
}

#[test]
fn midi_exporter_writes_exact_bytes() {
    // One snare at beat 0, half a second long, at 120 BPM: note 38 on at
    // tick 0 with velocity 96, off 480 ticks (one beat) later.
    let exporter = MidiExporter;
    let lesson = one_snare_lesson();
    let bytes = exporter.export(&lesson, ExportFormat::Midi).unwrap();
    let expected: Vec<u8> = vec![
        // MThd, length 6, format 0, one track, 480 PPQ
        0x4d, 0x54, 0x68, 0x64, 0x00, 0x00, 0x00, 0x06, 0x00, 0x00, 0x00, 0x01, 0x01, 0xe0,
        // MTrk, body length 28
        0x4d, 0x54, 0x72, 0x6b, 0x00, 0x00, 0x00, 0x1c,
        // tempo meta: 500000 us per quarter note
        0x00, 0xff, 0x51, 0x03, 0x07, 0xa1, 0x20,
        // time signature meta: 4/4
        0x00, 0xff, 0x58, 0x04, 0x04, 0x02, 0x18, 0x08,
        // delta 0, note on channel 10, key 38, velocity 96
        0x00, 0x99, 0x26, 0x60,
        // delta 480, note off, key 38
        0x83, 0x60, 0x89, 0x26, 0x00,
        // end of track
        0x00, 0xff, 0x2f, 0x00,
    ];
    assert_eq!(bytes, expected);
}

#[test]
fn gm_note_mapping() {
    assert_eq!(MidiExporter::gm_note(DrumPiece::Bass), 36);
    assert_eq!(MidiExporter::gm_note(DrumPiece::Snare), 38);
    assert_eq!(MidiExporter::gm_note(DrumPiece::CrossStick), 38);
    assert_eq!(MidiExporter::gm_note(DrumPiece::HiHatClosed), 42);
    assert_eq!(MidiExporter::gm_note(DrumPiece::Splash), 37);
}

#[test]
fn default_mapping_round_trips() {
    let mapping = default_mapping();
    assert_eq!(mapping.len(), 9);
    assert_eq!(piece_for_note(&mapping, 38), Some(DrumPiece::Snare));
    assert_eq!(piece_for_note(&mapping, 36), Some(DrumPiece::Bass));
    assert_eq!(piece_for_note(&mapping, 13), None);
}

#[test]
fn note_on_status_decoding() {
    assert!(is_note_on(0x90));
    assert!(is_note_on(0x99));
    assert!(!is_note_on(0x80));
    assert!(!is_note_on(0x7f));
}

#[test]
fn lane_orders_cover_the_kit() {
    let studio = studio_lanes();
    assert_eq!(studio.len(), 9);
    assert_eq!(studio[0], DrumPiece::Snare);
    let highway = ordered_lanes();
    assert_eq!(highway.len(), 9);
    assert_eq!(highway[0], DrumPiece::Crash);
    assert_eq!(highway[8], DrumPiece::Bass);
}

#[test]
fn editor_tracks_event_count() {
    let editor = NotationEditor::new(one_snare_lesson());
    assert_eq!(editor.event_count(), 1);
}

#[test]
fn editor_pushes_events_and_estimates_span() {
    let mut editor = NotationEditor::new(one_snare_lesson());
    assert_eq!(editor.estimate_total_beats(), 16_000_000);
    editor.push_event(NotatedEvent::new(
        DrumEvent::new(20_000_000, DrumPiece::Bass, 110, DrumArticulation::Normal),
        500_000,
    ));
    assert_eq!(editor.event_count(), 2);
    assert_eq!(editor.estimate_total_beats(), 21_000_000);
}

#[test]
fn lesson_constructor() {
    let tempo = TempoMap::constant(120_000).unwrap();
    let event = NotatedEvent::new(
        DrumEvent::new(0, DrumPiece::Snare, 96, DrumArticulation::Normal),
        1_000_000,
    );
    let lesson =
        LessonDescriptor::new("id", "title", "desc", 3, tempo.clone(), vec![event.clone()]);
    assert_eq!(lesson.notation.len(), 1);
    assert_eq!(lesson.default_tempo, tempo);
    assert_eq!(lesson.difficulty, 3);
    assert_eq!(lesson.stats.highest_streak, 0);
}

#[test]
fn transcription_assembles_a_lesson() {
    let pipeline = TranscriptionPipeline::new();
    let job = TranscriptionJob {
        audio_path: String::from("groove.wav"),
        title: String::from("Groove"),
    };
    let velocities: Vec<u8> = vec![100, 80, 0, 90];
    let lesson = pipeline.transcribe_decoded(&job, 4_043, &velocities).unwrap();
    assert_eq!(lesson.id, "groove.wav");
    assert_eq!(lesson.title, "Groove");
    assert_eq!(lesson.notation.len(), 4);
    // 4043 samples: 100 BPM plus 4043 % 40 = 3 → 103 BPM.
    assert_eq!(lesson.default_tempo.events()[0].bpm_milli, 103_000);
    // Chunk 0 is bass on the downbeat; chunk 1 is snare on the off-eighth.
    assert_eq!(lesson.notation[0].event.piece, DrumPiece::Bass);
    assert_eq!(lesson.notation[0].event.beat, 0);
    assert_eq!(lesson.notation[1].event.piece, DrumPiece::Snare);
    assert_eq!(lesson.notation[1].event.beat, 500_000);
    // A silent chunk still yields a strike at the velocity floor.
    assert_eq!(lesson.notation[2].event.velocity, 1);
}

#[test]
fn transcription_of_empty_audio_reads_120_bpm() {
    let pipeline = TranscriptionPipeline::new();
    let job = TranscriptionJob { audio_path: String::from("x.wav"), title: String::from("X") };
    let lesson = pipeline.transcribe_decoded(&job, 0, &Vec::new()).unwrap();
    assert_eq!(lesson.default_tempo.events()[0].bpm_milli, 120_000);
    assert!(lesson.notation.is_empty());
}

#[test]
fn marketplace_client_keeps_endpoint() {
    let client = MarketplaceClient::new("https://example.com");
    assert_eq!(client.endpoint, "https://example.com");
}
