//! Transcription: turning decoded audio into a chart. The host decodes the
//! audio and summarises it (sample count and per-chunk strike velocities);
//! the estimation and quantization rules live here.

use vstd::prelude::*;

use crate::error::DomainError;
use crate::events::DrumArticulation;
use crate::events::DrumEvent;
use crate::events::DrumPiece;
use crate::events::NotatedEvent;
use crate::lesson::LessonDescriptor;
use crate::tempo::TempoMap;

verus! {

/// A transcription request: where the audio lives and what to call the
/// result.
#[derive(Clone, Debug, PartialEq, Eq)]
pub struct TranscriptionJob {
    pub audio_path: String,
    pub title: String,
}

/// The tempo a sample count maps to, thousandths of a BPM: the placeholder
/// estimate used until a real estimator lands. Empty audio reads as 120 BPM;
/// otherwise 100 BPM plus one per sample modulo forty.
pub open spec fn spec_estimated_bpm_milli(sample_count: int) -> int {
    if sample_count == 0 {
        120_000
    } else {
        100_000 + (sample_count % 40) * 1000
    }
}

/// Placeholder tempo estimator.
#[derive(Clone, Copy, Debug, Default)]
pub struct TempoEstimator;

impl TempoEstimator {
    /// Estimate a constant tempo map, in 4/4, from the decoded sample count.
    pub fn estimate(&self, sample_count: usize) -> (r: Result<TempoMap, DomainError>)
        ensures
            r matches Ok(m) && {
                &&& m.wf()
                &&& m@.len() == 1
                &&& m@[0].time_micros == 0
                &&& m@[0].bpm_milli == spec_estimated_bpm_milli(sample_count as int)
                &&& m@[0].signature == (crate::tempo::TimeSignature {
                    numerator: 4,
                    denominator: 4,
                })
            },
    {
        let bpm_milli: u32 = if sample_count == 0 {
            120_000
        } else {
            proof {
                vstd::arithmetic::div_mod::lemma_mod_bound(sample_count as int, 40);
            }
            100_000 + ((sample_count % 40) as u32) * 1000
        };
        TempoMap::constant(bpm_milli)
    }
}

/// The piece a chunk index quantizes to: bass on every fourth chunk, snare
/// elsewhere.
pub open spec fn spec_quantized_piece(index: int) -> DrumPiece {
    if index % 4 == 0 {
        DrumPiece::Bass
    } else {
        DrumPiece::Snare
    }
}

/// Placeholder quantizer: one eighth-note event per audio chunk.
#[derive(Clone, Copy, Debug, Default)]
pub struct SimpleQuantizer;

impl SimpleQuantizer {
    /// Quantize per-chunk strike velocities into notation: the i-th chunk
    /// becomes an event at beat i/2 (eighth notes), bass on every fourth
    /// chunk and snare elsewhere, each half a beat (250 ms at 120 BPM) long.
    pub fn quantize(&self, chunk_velocities: &Vec<u8>) -> (r: Vec<NotatedEvent>)
        requires
            chunk_velocities@.len() <= 1_000_000_000,
        ensures
            r@.len() == chunk_velocities@.len(),
            forall|i: int|
                0 <= i < r@.len() ==> {
                    &&& r@[i].event.beat == i * 500_000
                    &&& r@[i].event.piece == spec_quantized_piece(i)
                    &&& r@[i].event.velocity == (if chunk_velocities@[i] >= 1 {
                        chunk_velocities@[i]
                    } else {
                        1u8
                    })
                    &&& r@[i].duration_micros == 250_000
                    &&& r@[i].tuplet is None
                },
    {
        let mut out: Vec<NotatedEvent> = Vec::new();
        let mut i: usize = 0;
        while i < chunk_velocities.len()
            invariant
                i <= chunk_velocities@.len(),
                chunk_velocities@.len() <= 1_000_000_000,
                out@.len() == i,
                forall|k: int|
                    0 <= k < i ==> {
                        &&& out@[k].event.beat == k * 500_000
                        &&& out@[k].event.piece == spec_quantized_piece(k)
                        &&& out@[k].event.velocity == (if chunk_velocities@[k] >= 1 {
                            chunk_velocities@[k]
                        } else {
                            1u8
                        })
                        &&& out@[k].duration_micros == 250_000
                        &&& out@[k].tuplet is None
                    },
            decreases chunk_velocities@.len() - i,
        {
            let velocity: u8 = if chunk_velocities[i] >= 1 {
                chunk_velocities[i]
            } else {
                1
            };
            let piece = if i % 4 == 0 {
                DrumPiece::Bass
            } else {
                DrumPiece::Snare
            };
            let beat: u64 = (i as u64) * 500_000;
            let event = DrumEvent::new(beat, piece, velocity, DrumArticulation::Normal);
            out.push(NotatedEvent::new(event, 250_000));
            i += 1;
        }
        out
    }
}

/// The transcription pipeline: tempo estimation then quantization.
#[derive(Clone, Copy, Debug)]
pub struct TranscriptionPipeline {
    tempo: TempoEstimator,
    quantizer: SimpleQuantizer,
}

impl TranscriptionPipeline {
    /// Assemble the pipeline.
    pub fn new() -> (p: TranscriptionPipeline)
    {
        TranscriptionPipeline { tempo: TempoEstimator, quantizer: SimpleQuantizer }
    }

    /// Transcribe decoded audio — its sample count and per-chunk strike
    /// velocities — into a lesson titled after the job, with the estimated
    /// constant tempo and the quantized notation.
    pub fn transcribe_decoded(
        &self,
        job: &TranscriptionJob,
        sample_count: usize,
        chunk_velocities: &Vec<u8>,
    ) -> (r: Result<LessonDescriptor, DomainError>)
        requires
            chunk_velocities@.len() <= 1_000_000_000,
        ensures
            r matches Ok(l) && {
                &&& l.id@ == job.audio_path@
                &&& l.title@ == job.title@
                &&& l.difficulty == 1
                &&& l.wf()
                &&& l.default_tempo@.len() == 1
                &&& l.default_tempo@[0].time_micros == 0
                &&& l.default_tempo@[0].bpm_milli == spec_estimated_bpm_milli(sample_count as int)
                &&& l.default_tempo@[0].signature == (crate::tempo::TimeSignature {
                    numerator: 4,
                    denominator: 4,
                })
                &&& l.notation@.len() == chunk_velocities@.len()
                &&& forall|i: int|
                    0 <= i < l.notation@.len() ==> {
                        &&& l.notation@[i].event.beat == i * 500_000
                        &&& l.notation@[i].event.piece == spec_quantized_piece(i)
                        &&& l.notation@[i].event.velocity == (if chunk_velocities@[i] >= 1 {
                            chunk_velocities@[i]
                        } else {
                            1u8
                        })
                        &&& l.notation@[i].duration_micros == 250_000
                        &&& l.notation@[i].tuplet is None
                    }
            },
    {
        let tempo = self.tempo.estimate(sample_count)?;
        let events = self.quantizer.quantize(chunk_velocities);
        Ok(
            LessonDescriptor::new(
                job.audio_path.as_str(),
                job.title.as_str(),
                "Auto-generated transcription",
                1,
                tempo,
                events,
            ),
        )
    }
}

impl Default for TranscriptionPipeline {
    fn default() -> (p: TranscriptionPipeline)
    {
        TranscriptionPipeline::new()
    }
}

} // verus!
