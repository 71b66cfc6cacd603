//! Decoded MIDI input: devices, the note-to-piece mapping, and the lane
//! orders the panels draw the kit in.

use vstd::prelude::*;

use crate::events::DrumPiece;

verus! {

/// A named MIDI input device.
#[derive(Clone, Debug, PartialEq, Eq)]
pub struct MidiDevice {
    pub name: String,
}

/// Whether a raw MIDI status byte is a note-on message (any channel).
pub open spec fn spec_is_note_on(status: u8) -> bool {
    status / 16 == 9
}

/// Recognise a note-on status byte.
pub fn is_note_on(status: u8) -> (b: bool)
    ensures
        b == spec_is_note_on(status),
{
    status / 16 == 9
}

/// The default General MIDI note for each mapped piece.
pub open spec fn spec_default_mapping() -> Seq<(DrumPiece, u8)> {
    seq![
        (DrumPiece::Snare, 38u8),
        (DrumPiece::Bass, 36u8),
        (DrumPiece::HiHatClosed, 42u8),
        (DrumPiece::HiHatOpen, 46u8),
        (DrumPiece::Crash, 49u8),
        (DrumPiece::Ride, 51u8),
        (DrumPiece::HighTom, 50u8),
        (DrumPiece::LowTom, 47u8),
        (DrumPiece::FloorTom, 41u8),
    ]
}

/// The default note-to-piece mapping table.
pub fn default_mapping() -> (m: Vec<(DrumPiece, u8)>)
    ensures
        m@ == spec_default_mapping(),
{
    let mut m: Vec<(DrumPiece, u8)> = Vec::new();
    m.push((DrumPiece::Snare, 38));
    m.push((DrumPiece::Bass, 36));
    m.push((DrumPiece::HiHatClosed, 42));
    m.push((DrumPiece::HiHatOpen, 46));
    m.push((DrumPiece::Crash, 49));
    m.push((DrumPiece::Ride, 51));
    m.push((DrumPiece::HighTom, 50));
    m.push((DrumPiece::LowTom, 47));
    m.push((DrumPiece::FloorTom, 41));
    proof {
        assert(m@ =~= spec_default_mapping());
    }
    m
}

/// The piece a mapping assigns to a note: the first pair carrying the note.
pub fn piece_for_note(mapping: &Vec<(DrumPiece, u8)>, note: u8) -> (r: Option<DrumPiece>)
    ensures
        r is None ==> forall|i: int| 0 <= i < mapping@.len() ==> mapping@[i].1 != note,
        r matches Some(p) ==> exists|i: int|
            {
                &&& 0 <= i < mapping@.len()
                &&& mapping@[i].1 == note
                &&& mapping@[i].0 == p
                &&& forall|j: int| 0 <= j < i ==> mapping@[j].1 != note
            },
{
    let mut i: usize = 0;
    while i < mapping.len()
        invariant
            i <= mapping@.len(),
            forall|j: int| 0 <= j < i ==> mapping@[j].1 != note,
        decreases mapping@.len() - i,
    {
        if mapping[i].1 == note {
            return Some(mapping[i].0);
        }
        i += 1;
    }
    None
}

/// The kit pieces in studio lane order: snare first.
pub fn studio_lanes() -> (l: Vec<DrumPiece>)
    ensures
        l@ == seq![
            DrumPiece::Snare,
            DrumPiece::Bass,
            DrumPiece::HiHatClosed,
            DrumPiece::HiHatOpen,
            DrumPiece::HighTom,
            DrumPiece::LowTom,
            DrumPiece::FloorTom,
            DrumPiece::Ride,
            DrumPiece::Crash,
        ],
{
    let mut l: Vec<DrumPiece> = Vec::new();
    l.push(DrumPiece::Snare);
    l.push(DrumPiece::Bass);
    l.push(DrumPiece::HiHatClosed);
    l.push(DrumPiece::HiHatOpen);
    l.push(DrumPiece::HighTom);
    l.push(DrumPiece::LowTom);
    l.push(DrumPiece::FloorTom);
    l.push(DrumPiece::Ride);
    l.push(DrumPiece::Crash);
    proof {
        assert(l@ =~= seq![
            DrumPiece::Snare,
            DrumPiece::Bass,
            DrumPiece::HiHatClosed,
            DrumPiece::HiHatOpen,
            DrumPiece::HighTom,
            DrumPiece::LowTom,
            DrumPiece::FloorTom,
            DrumPiece::Ride,
            DrumPiece::Crash,
        ]);
    }
    l
}

/// The kit pieces in highway lane order: cymbals at the top, bass at the
/// bottom.
pub fn ordered_lanes() -> (l: Vec<DrumPiece>)
    ensures
        l@ == seq![
            DrumPiece::Crash,
            DrumPiece::Ride,
            DrumPiece::HiHatOpen,
            DrumPiece::HiHatClosed,
            DrumPiece::Snare,
            DrumPiece::HighTom,
            DrumPiece::LowTom,
            DrumPiece::FloorTom,
            DrumPiece::Bass,
        ],
{
    let mut l: Vec<DrumPiece> = Vec::new();
    l.push(DrumPiece::Crash);
    l.push(DrumPiece::Ride);
    l.push(DrumPiece::HiHatOpen);
    l.push(DrumPiece::HiHatClosed);
    l.push(DrumPiece::Snare);
    l.push(DrumPiece::HighTom);
    l.push(DrumPiece::LowTom);
    l.push(DrumPiece::FloorTom);
    l.push(DrumPiece::Bass);
    proof {
        assert(l@ =~= seq![
            DrumPiece::Crash,
            DrumPiece::Ride,
            DrumPiece::HiHatOpen,
            DrumPiece::HiHatClosed,
            DrumPiece::Snare,
            DrumPiece::HighTom,
            DrumPiece::LowTom,
            DrumPiece::FloorTom,
            DrumPiece::Bass,
        ]);
    }
    l
}

} // verus!
