//! Drum strike events and their notated form.
//!
//! Beat positions are millionths of a beat (a quarter note is 1_000_000),
//! durations are microseconds, and timing offsets are microseconds as well.

use vstd::prelude::*;

verus! {

/// A part of the drum kit that can be struck.
#[derive(Clone, Copy, Debug, PartialEq, Eq, Structural)]
pub enum DrumPiece {
    Crash,
    Ride,
    HiHatClosed,
    HiHatOpen,
    HiHatFoot,
    HighTom,
    LowTom,
    FloorTom,
    Snare,
    CrossStick,
    Bass,
    Splash,
    China,
}

/// How a strike is articulated.
#[derive(Clone, Copy, Debug, PartialEq, Eq, Structural)]
pub enum DrumArticulation {
    Normal,
    Flam,
    Drag,
    Rimshot,
    GhostNote,
}

/// Dynamic band, derived from MIDI velocity.
#[derive(Clone, Copy, Debug, PartialEq, Eq, Structural)]
pub enum DrumDynamic {
    Pianissimo,
    Piano,
    MezzoPiano,
    MezzoForte,
    Forte,
    Fortissimo,
}

/// The dynamic band that a MIDI velocity falls in.
pub open spec fn dynamic_of_velocity(velocity: u8) -> DrumDynamic {
    if velocity <= 20 {
        DrumDynamic::Pianissimo
    } else if velocity <= 50 {
        DrumDynamic::Piano
    } else if velocity <= 80 {
        DrumDynamic::MezzoPiano
    } else if velocity <= 100 {
        DrumDynamic::MezzoForte
    } else if velocity <= 115 {
        DrumDynamic::Forte
    } else {
        DrumDynamic::Fortissimo
    }
}

impl DrumDynamic {
    /// Map a MIDI velocity (0..=127) to its dynamic band.
    pub fn from_velocity(velocity: u8) -> (d: DrumDynamic)
        ensures
            d == dynamic_of_velocity(velocity),
    {
        if velocity <= 20 {
            DrumDynamic::Pianissimo
        } else if velocity <= 50 {
            DrumDynamic::Piano
        } else if velocity <= 80 {
            DrumDynamic::MezzoPiano
        } else if velocity <= 100 {
            DrumDynamic::MezzoForte
        } else if velocity <= 115 {
            DrumDynamic::Forte
        } else {
            DrumDynamic::Fortissimo
        }
    }
}

/// Offset from the quantized grid, in microseconds.
#[derive(Clone, Copy, Debug, PartialEq, Eq, Structural)]
pub struct TimingOffset {
    pub micros: i64,
}

impl TimingOffset {
    /// The zero offset.
    pub fn zero() -> (t: TimingOffset)
        ensures
            t.micros == 0,
    {
        TimingOffset { micros: 0 }
    }
}

/// One drum strike: a beat position (millionths of a beat), the piece struck,
/// the articulation, the dynamic band derived from the velocity, and the raw
/// MIDI velocity.
#[derive(Clone, Copy, Debug, PartialEq, Eq, Structural)]
pub struct DrumEvent {
    pub beat: u64,
    pub piece: DrumPiece,
    pub articulation: DrumArticulation,
    pub dynamic: DrumDynamic,
    pub velocity: u8,
    pub timing_offset: TimingOffset,
}

impl DrumEvent {
    /// Build a strike; the dynamic band is always recomputed from the
    /// velocity, never supplied independently.
    pub fn new(beat: u64, piece: DrumPiece, velocity: u8, articulation: DrumArticulation) -> (e:
        DrumEvent)
        ensures
            e.beat == beat,
            e.piece == piece,
            e.articulation == articulation,
            e.dynamic == dynamic_of_velocity(velocity),
            e.velocity == velocity,
            e.timing_offset.micros == 0,
    {
        DrumEvent {
            beat,
            piece,
            articulation,
            dynamic: DrumDynamic::from_velocity(velocity),
            velocity,
            timing_offset: TimingOffset::zero(),
        }
    }
}

/// A tuplet ratio: `numerator` notes in the time of `denominator`.
#[derive(Clone, Copy, Debug, PartialEq, Eq, Structural)]
pub struct Tuplet {
    pub numerator: u8,
    pub denominator: u8,
}

/// A strike as written in a chart: the event plus its notated duration
/// (microseconds) and an optional tuplet ratio.
#[derive(Clone, Copy, Debug, PartialEq, Eq, Structural)]
pub struct NotatedEvent {
    pub event: DrumEvent,
    pub duration_micros: u64,
    pub tuplet: Option<Tuplet>,
}

impl NotatedEvent {
    /// Notate an event with a duration and no tuplet.
    pub fn new(event: DrumEvent, duration_micros: u64) -> (n: NotatedEvent)
        ensures
            n.event == event,
            n.duration_micros == duration_micros,
            n.tuplet is None,
    {
        NotatedEvent { event, duration_micros, tuplet: None }
    }
}

} // verus!
