//! Chart export: formats, the exporter trait, and a verified writer for
//! single-track Standard MIDI Files (format 0, 480 ticks per quarter note).
//!
//! The byte layout is pinned down by spec functions: a fixed header chunk,
//! then one track chunk holding a tempo meta event, a 4/4 time-signature meta
//! event, the chart's note-on/note-off pairs in tick order as channel-10
//! events with variable-length deltas, and an end-of-track meta event.

use vstd::prelude::*;

use crate::error::DomainError;
use crate::events::DrumPiece;
use crate::lesson::LessonDescriptor;
use crate::sorting::insert_stable;
use crate::sorting::lemma_insert_at_found_position;
use crate::sorting::lemma_stable_sort_ensures;
use crate::sorting::sorted_by;
use crate::sorting::stable_sort;
use crate::tempo::MAX_BPM_MILLI;
use crate::tempo::MIN_BPM_MILLI;

verus! {

/// The formats a chart can be written to.
#[derive(Clone, Copy, Debug, PartialEq, Eq, Structural)]
pub enum ExportFormat {
    MusicXml,
    Midi,
    Json,
}

/// The formats a chart can be read from.
#[derive(Clone, Copy, Debug, PartialEq, Eq, Structural)]
pub enum ImportFormat {
    MusicXml,
}

/// An exporter turns a lesson into bytes in one of the formats.
pub trait NotationExporter {
    /// Encode the lesson, or report why the format cannot be served.
    fn export(&self, lesson: &LessonDescriptor, format: ExportFormat) -> Result<
        Vec<u8>,
        DomainError,
    >
        requires
            lesson.wf(),
            lesson.notation@.len() <= 100_000_000,
    ;
}

/// The General MIDI percussion key for a drum piece.
pub open spec fn spec_gm_note(piece: DrumPiece) -> u8 {
    match piece {
        DrumPiece::Bass => 36,
        DrumPiece::Snare => 38,
        DrumPiece::CrossStick => 38,
        DrumPiece::HiHatClosed => 42,
        DrumPiece::HiHatOpen => 46,
        DrumPiece::Ride => 51,
        DrumPiece::Crash => 49,
        DrumPiece::HighTom => 50,
        DrumPiece::LowTom => 47,
        DrumPiece::FloorTom => 41,
        _ => 37,
    }
}

/// One scheduled channel event: an absolute tick, note on or off, the key and
/// the velocity.
#[derive(Clone, Copy, Debug, PartialEq, Eq, Structural)]
pub struct MidiEventRec {
    pub tick: u32,
    pub on: bool,
    pub note: u8,
    pub velocity: u8,
}

/// Whether the scheduled events are in tick order.
pub open spec fn sorted_by_tick(es: Seq<MidiEventRec>) -> bool {
    forall|i: int, j: int| 0 <= i < j < es.len() ==> es[i].tick <= es[j].tick
}

/// The chart's scheduled events, two per notated entry (note on at the
/// entry's tick, note off after its duration, never shorter than 60 ticks),
/// in chart order, at tempo `bpm_milli`.
pub open spec fn spec_chart_events(
    notation: Seq<crate::events::NotatedEvent>,
    bpm_milli: int,
    k: int,
) -> Seq<MidiEventRec>
    decreases k,
{
    if k <= 0 {
        Seq::empty()
    } else {
        spec_chart_events(notation, bpm_milli, k - 1) + spec_entry_events(
            notation[k - 1],
            bpm_milli,
        )
    }
}

/// Clamp a tick count to what a 32-bit tick can carry.
pub open spec fn clamp_tick(v: int) -> int {
    if v > 0xffff_ffff {
        0xffff_ffff
    } else {
        v
    }
}

/// The two scheduled events of one notated entry. Ticks beyond the 32-bit
/// range saturate.
pub open spec fn spec_entry_events(e: crate::events::NotatedEvent, bpm_milli: int) -> Seq<
    MidiEventRec,
> {
    let start = clamp_tick(spec_start_tick(e.event.beat as int));
    let dur = spec_dur_ticks(e.duration_micros as int, bpm_milli);
    let dur_clamped = if dur >= 60 {
        dur
    } else {
        60int
    };
    let note = spec_gm_note(e.event.piece);
    let vel = if e.event.velocity >= 1 {
        e.event.velocity
    } else {
        1u8
    };
    seq![
        MidiEventRec { tick: start as u32, on: true, note, velocity: vel },
        MidiEventRec { tick: clamp_tick(start + dur_clamped) as u32, on: false, note, velocity: 64 },
    ]
}

/// The tick a beat position (micro-beats) falls on.
pub open spec fn spec_start_tick(beat: int) -> int {
    beat * 480 / 1_000_000
}

/// Ticks covered by a duration (microseconds) at `bpm_milli`.
pub open spec fn spec_dur_ticks(dur_micros: int, bpm_milli: int) -> int {
    dur_micros * bpm_milli * 480 / 60_000_000_000
}

/// Microseconds per quarter note at `bpm_milli`, as the tempo meta event
/// carries it.
pub open spec fn spec_us_per_qn(bpm_milli: int) -> int {
    60_000_000_000int / bpm_milli
}

/// A 32-bit big-endian quantity.
pub open spec fn be32(v: int) -> Seq<u8> {
    seq![
        (v / 0x1000000 % 256) as u8,
        (v / 0x10000 % 256) as u8,
        (v / 0x100 % 256) as u8,
        (v % 256) as u8,
    ]
}

/// A 16-bit big-endian quantity.
pub open spec fn be16(v: int) -> Seq<u8> {
    seq![(v / 0x100 % 256) as u8, (v % 256) as u8]
}

/// A MIDI variable-length quantity: seven bits per byte, most significant
/// first, the continuation bit set on all but the last byte.
pub open spec fn spec_varlen(v: int) -> Seq<u8>
    decreases v,
{
    if v < 0x80 {
        seq![(if v >= 0 { v } else { 0 }) as u8]
    } else {
        spec_varlen_prefix(v / 0x80) + seq![(v % 0x80) as u8]
    }
}

/// The continuation bytes of a variable-length quantity.
pub open spec fn spec_varlen_prefix(v: int) -> Seq<u8>
    decreases v,
{
    if v <= 0 {
        Seq::empty()
    } else if v < 0x80 {
        seq![(0x80 + v) as u8]
    } else {
        spec_varlen_prefix(v / 0x80) + seq![(0x80 + v % 0x80) as u8]
    }
}

/// The file's header chunk: "MThd", length 6, format 0, one track, 480 PPQ.
pub open spec fn spec_header_bytes() -> Seq<u8> {
    seq![0x4du8, 0x54u8, 0x68u8, 0x64u8] + be32(6) + be16(0) + be16(1) + be16(480)
}

/// The track's leading meta events: tempo, then a 4/4 time signature.
pub open spec fn spec_track_prefix(bpm_milli: int) -> Seq<u8> {
    seq![0x00u8, 0xffu8, 0x51u8, 0x03u8]
        + seq![
        (spec_us_per_qn(bpm_milli) / 0x10000 % 256) as u8,
        (spec_us_per_qn(bpm_milli) / 0x100 % 256) as u8,
        (spec_us_per_qn(bpm_milli) % 256) as u8,
    ] + seq![0x00u8, 0xffu8, 0x58u8, 0x04u8, 0x04u8, 0x02u8, 0x18u8, 0x08u8]
}

/// The channel events of the first `k` scheduled events, each a delta from
/// the previous event's tick (clamped at zero) and a three-byte channel-10
/// message.
pub open spec fn spec_events_bytes(es: Seq<MidiEventRec>, k: int) -> Seq<u8>
    decreases k,
{
    if k <= 0 {
        Seq::empty()
    } else {
        let prev: int = if k >= 2 {
            es[k - 2].tick as int
        } else {
            0
        };
        let delta: int = if es[k - 1].tick >= prev {
            es[k - 1].tick - prev
        } else {
            0
        };
        spec_events_bytes(es, k - 1) + spec_varlen(delta) + (
        if es[k - 1].on {
            seq![0x99u8, es[k - 1].note, es[k - 1].velocity]
        } else {
            seq![0x89u8, es[k - 1].note, 0u8]
        })
    }
}

/// The end-of-track meta event.
pub open spec fn spec_track_suffix() -> Seq<u8> {
    seq![0x00u8, 0xffu8, 0x2fu8, 0x00u8]
}

/// The whole track body for the given scheduled events.
pub open spec fn spec_track_body(es: Seq<MidiEventRec>, bpm_milli: int) -> Seq<u8> {
    spec_track_prefix(bpm_milli) + spec_events_bytes(es, es.len() as int) + spec_track_suffix()
}

/// The whole file for the given scheduled events: the header chunk, then one
/// "MTrk" chunk wrapping the track body.
pub open spec fn spec_smf_bytes(es: Seq<MidiEventRec>, bpm_milli: int) -> Seq<u8> {
    spec_header_bytes() + seq![0x4du8, 0x54u8, 0x72u8, 0x6bu8] + be32(
        spec_track_body(es, bpm_milli).len() as int,
    ) + spec_track_body(es, bpm_milli)
}

/// Append a 32-bit big-endian quantity.
fn push_be32(out: &mut Vec<u8>, v: u32)
    ensures
        final(out)@ == old(out)@ + be32(v as int),
{
    let ghost pre = out@;
    out.push((v / 0x1000000 % 256) as u8);
    out.push((v / 0x10000 % 256) as u8);
    out.push((v / 0x100 % 256) as u8);
    out.push((v % 256) as u8);
    proof {
        assert(out@ =~= pre + be32(v as int));
    }
}

/// Append a 16-bit big-endian quantity.
fn push_be16(out: &mut Vec<u8>, v: u16)
    ensures
        final(out)@ == old(out)@ + be16(v as int),
{
    let ghost pre = out@;
    out.push((v / 0x100 % 256) as u8);
    out.push((v % 256) as u8);
    proof {
        assert(out@ =~= pre + be16(v as int));
    }
}

/// Append the continuation bytes of a variable-length quantity.
fn push_varlen_prefix(out: &mut Vec<u8>, v: u32)
    ensures
        final(out)@ == old(out)@ + spec_varlen_prefix(v as int),
    decreases v,
{
    let ghost pre = out@;
    if v == 0 {
        proof {
            assert(out@ =~= pre + spec_varlen_prefix(v as int));
        }
    } else if v < 0x80 {
        out.push((0x80 + v) as u8);
        proof {
            assert(out@ =~= pre + spec_varlen_prefix(v as int));
        }
    } else {
        push_varlen_prefix(out, v / 0x80);
        out.push((0x80 + v % 0x80) as u8);
        proof {
            assert(out@ =~= pre + spec_varlen_prefix(v as int));
        }
    }
}

/// Append a variable-length quantity.
fn push_varlen(out: &mut Vec<u8>, v: u32)
    ensures
        final(out)@ == old(out)@ + spec_varlen(v as int),
{
    let ghost pre = out@;
    if v < 0x80 {
        out.push(v as u8);
        proof {
            assert(out@ =~= pre + spec_varlen(v as int));
        }
    } else {
        push_varlen_prefix(out, v / 0x80);
        out.push((v % 0x80) as u8);
        proof {
            assert(out@ =~= pre + spec_varlen(v as int));
        }
    }
}

/// Order on scheduled events: earlier tick first.
pub open spec fn tick_leq() -> spec_fn(MidiEventRec, MidiEventRec) -> bool {
    |a: MidiEventRec, b: MidiEventRec| a.tick <= b.tick
}

/// [`tick_leq`] is a total preorder, as the sorting lemmas ask.
proof fn lemma_tick_leq_props()
    ensures
        forall|a: MidiEventRec, b: MidiEventRec| #[trigger] tick_leq()(a, b) || tick_leq()(b, a),
        forall|a: MidiEventRec, b: MidiEventRec, c: MidiEventRec|
            #[trigger] tick_leq()(a, b) && #[trigger] tick_leq()(b, c) ==> tick_leq()(a, c),
{
}

/// Sort scheduled events by tick, ascending: the result is exactly the stable
/// sort of the input, so a note-off scheduled at the same tick as a later
/// entry's note-on keeps its place.
fn sort_events_by_tick(v: &mut Vec<MidiEventRec>)
    ensures
        final(v)@ == stable_sort(old(v)@, tick_leq()),
        final(v)@.len() == old(v)@.len(),
        sorted_by_tick(final(v)@),
        final(v)@.to_multiset() == old(v)@.to_multiset(),
{
    let ghost orig = v@;
    let ghost leq = tick_leq();
    proof {
        lemma_tick_leq_props();
        lemma_stable_sort_ensures(orig, leq);
    }
    if v.len() < 2 {
        proof {
            if orig.len() == 0 {
                assert(stable_sort(orig, leq) =~= orig);
            } else {
                assert(orig.drop_last() =~= Seq::<MidiEventRec>::empty());
                assert(stable_sort(Seq::<MidiEventRec>::empty(), leq)
                    == Seq::<MidiEventRec>::empty());
                assert(stable_sort(orig, leq) == insert_stable(
                    Seq::<MidiEventRec>::empty(),
                    orig.last(),
                    leq,
                ));
                assert(insert_stable(Seq::<MidiEventRec>::empty(), orig.last(), leq)
                    =~= seq![orig.last()]);
                assert(stable_sort(orig, leq) =~= orig);
            }
        }
        return ;
    }
    proof {
        assert(orig.take(1).drop_last() =~= Seq::<MidiEventRec>::empty());
        assert(stable_sort(Seq::<MidiEventRec>::empty(), leq) == Seq::<MidiEventRec>::empty());
        assert(orig.take(1).last() == orig[0]);
        assert(stable_sort(orig.take(1), leq) == insert_stable(
            Seq::<MidiEventRec>::empty(),
            orig[0],
            leq,
        ));
        assert(insert_stable(Seq::<MidiEventRec>::empty(), orig[0], leq) =~= seq![orig[0]]);
        assert(v@ =~= stable_sort(orig.take(1), leq) + orig.skip(1));
    }
    let mut i: usize = 1;
    while i < v.len()
        invariant
            1 <= i <= v@.len(),
            v@.len() == orig.len(),
            leq == tick_leq(),
            v@ == stable_sort(orig.take(i as int), leq) + orig.skip(i as int),
        decreases v@.len() - i,
    {
        let ghost pre = stable_sort(orig.take(i as int), leq);
        proof {
            lemma_tick_leq_props();
            lemma_stable_sort_ensures(orig.take(i as int), leq);
            assert(pre.len() == i);
            assert(v@[i as int] == orig.skip(i as int)[0]);
            assert(orig.skip(i as int)[0] == orig[i as int]);
            assert(forall|k: int| 0 <= k < i ==> v@[k] == pre[k]);
        }
        let key_tick = v[i].tick;
        let mut j: usize = 0;
        while j < i && v[j].tick <= key_tick
            invariant
                0 <= j <= i < v@.len(),
                forall|k: int| 0 <= k < j ==> v@[k].tick <= key_tick,
            decreases i - j,
        {
            j += 1;
        }
        let ghost before = v@;
        let e = v.remove(i);
        v.insert(j, e);
        proof {
            lemma_tick_leq_props();
            assert(e == orig[i as int]);
            assert(before.remove(i as int) =~= pre + orig.skip(i + 1));
            assert((pre + orig.skip(i + 1)).insert(j as int, e) =~= pre.insert(j as int, e)
                + orig.skip(i + 1));
            assert forall|k: int| 0 <= k < j implies leq(#[trigger] pre[k], e) by {
                assert(before[k] == pre[k]);
                assert(before[k].tick <= key_tick);
            }
            if j < i {
                assert(before[j as int] == pre[j as int]);
                assert(!leq(pre[j as int], e));
            }
            assert(sorted_by(pre, leq)) by {
                lemma_stable_sort_ensures(orig.take(i as int), leq);
            }
            lemma_insert_at_found_position(pre, e, leq, j as int);
            assert(orig.take(i + 1).drop_last() =~= orig.take(i as int));
            assert(orig.take(i + 1).last() == orig[i as int]);
            assert(stable_sort(orig.take(i + 1), leq) == insert_stable(pre, e, leq));
            assert(v@ =~= stable_sort(orig.take(i + 1), leq) + orig.skip(i + 1));
        }
        i += 1;
    }
    proof {
        lemma_tick_leq_props();
        assert(orig.take(orig.len() as int) =~= orig);
        assert(orig.skip(orig.len() as int) =~= Seq::<MidiEventRec>::empty());
        assert(v@ =~= stable_sort(orig, leq));
        lemma_stable_sort_ensures(orig, leq);
        assert forall|p: int, q: int| 0 <= p < q < v@.len() implies v@[p].tick
            <= v@[q].tick by {
            assert(leq(v@[p], v@[q]));
        }
    }
}

/// Exports a lesson as a single-track Standard MIDI File.
#[derive(Clone, Copy, Debug)]
pub struct MidiExporter;

impl MidiExporter {
    /// The General MIDI percussion key for a drum piece.
    pub fn gm_note(piece: DrumPiece) -> (n: u8)
        ensures
            n == spec_gm_note(piece),
    {
        match piece {
            DrumPiece::Bass => 36,
            DrumPiece::Snare | DrumPiece::CrossStick => 38,
            DrumPiece::HiHatClosed => 42,
            DrumPiece::HiHatOpen => 46,
            DrumPiece::Ride => 51,
            DrumPiece::Crash => 49,
            DrumPiece::HighTom => 50,
            DrumPiece::LowTom => 47,
            DrumPiece::FloorTom => 41,
            _ => 37,
        }
    }

    /// Write the lesson as a format-0 Standard MIDI File at 480 PPQ, at the
    /// tempo of the lesson's first tempo event. The bytes are exactly the
    /// header and track chunks of [`spec_smf_bytes`] over the chart's
    /// scheduled events, taken in tick order.
    pub fn export_midi(&self, lesson: &LessonDescriptor) -> (r: Vec<u8>)
        requires
            lesson.wf(),
            lesson.notation@.len() <= 100_000_000,
        ensures
            r@ == spec_smf_bytes(
                stable_sort(
                    spec_chart_events(
                        lesson.notation@,
                        lesson.default_tempo@[0].bpm_milli as int,
                        lesson.notation@.len() as int,
                    ),
                    tick_leq(),
                ),
                lesson.default_tempo@[0].bpm_milli as int,
            ),
    {
        let ghost n = lesson.notation@;
        proof {
            lesson.default_tempo.lemma_wf_view();
        }
        let bpm: u32 = lesson.default_tempo.events()[0].bpm_milli;
        let ghost bpmi = bpm as int;
        // Schedule two events per chart entry.
        let mut evs: Vec<MidiEventRec> = Vec::new();
        let mut k: usize = 0;
        while k < lesson.notation.len()
            invariant
                n == lesson.notation@,
                k <= n.len(),
                evs@ == spec_chart_events(n, bpmi, k as int),
                evs@.len() == 2 * k,
                MIN_BPM_MILLI <= bpm <= MAX_BPM_MILLI,
                bpmi == bpm as int,
            decreases n.len() - k,
        {
            let ghost pre = evs@;
            let entry = &lesson.notation[k];
            let start: u32 = start_tick(entry.event.beat);
            let dur: u32 = dur_ticks(entry.duration_micros, bpm);
            let dur_clamped: u32 = if dur >= 60 {
                dur
            } else {
                60
            };
            let end: u32 = if start <= u32::MAX - dur_clamped {
                start + dur_clamped
            } else {
                u32::MAX
            };
            let note = MidiExporter::gm_note(entry.event.piece);
            let vel: u8 = if entry.event.velocity >= 1 {
                entry.event.velocity
            } else {
                1
            };
            evs.push(MidiEventRec { tick: start, on: true, note, velocity: vel });
            evs.push(MidiEventRec { tick: end, on: false, note, velocity: 64 });
            proof {
                assert(evs@ =~= pre + spec_entry_events(n[k as int], bpmi));
            }
            k += 1;
        }
        sort_events_by_tick(&mut evs);
        // Header chunk.
        let mut out: Vec<u8> = Vec::new();
        out.push(0x4d);
        out.push(0x54);
        out.push(0x68);
        out.push(0x64);
        push_be32(&mut out, 6);
        push_be16(&mut out, 0);
        push_be16(&mut out, 1);
        push_be16(&mut out, 480);
        proof {
            assert(out@ =~= spec_header_bytes());
        }
        // Track body: tempo meta, time-signature meta, the events, end meta.
        let mut trk: Vec<u8> = Vec::new();
        let us_per_qn: u32 = (60_000_000_000u64 / (bpm as u64)) as u32;
        proof {
            vstd::arithmetic::div_mod::lemma_div_is_ordered_by_denominator(
                60_000_000_000,
                MIN_BPM_MILLI as int,
                bpmi,
            );
            vstd::arithmetic::div_mod::lemma_div_pos_is_pos(60_000_000_000, bpmi);
        }
        trk.push(0x00);
        trk.push(0xff);
        trk.push(0x51);
        trk.push(0x03);
        trk.push((us_per_qn / 0x10000 % 256) as u8);
        trk.push((us_per_qn / 0x100 % 256) as u8);
        trk.push((us_per_qn % 256) as u8);
        trk.push(0x00);
        trk.push(0xff);
        trk.push(0x58);
        trk.push(0x04);
        trk.push(0x04);
        trk.push(0x02);
        trk.push(0x18);
        trk.push(0x08);
        proof {
            assert(trk@ =~= spec_track_prefix(bpmi));
        }
        let ghost es = evs@;
        let mut last_tick: u32 = 0;
        let mut idx: usize = 0;
        while idx < evs.len()
            invariant
                es == evs@,
                idx <= es.len(),
                trk@ == spec_track_prefix(bpmi) + spec_events_bytes(es, idx as int),
                last_tick == (if idx >= 1 {
                    es[idx - 1].tick as int
                } else {
                    0int
                }),
                bpmi == bpm as int,
                trk@.len() <= 15 + 8 * idx,
            decreases es.len() - idx,
        {
            let ghost pre = trk@;
            let ev = &evs[idx];
            let delta: u32 = if ev.tick >= last_tick {
                ev.tick - last_tick
            } else {
                0
            };
            push_varlen(&mut trk, delta);
            proof {
                lemma_varlen_len(delta as int);
            }
            if ev.on {
                trk.push(0x99);
                trk.push(ev.note);
                trk.push(ev.velocity);
            } else {
                trk.push(0x89);
                trk.push(ev.note);
                trk.push(0);
            }
            last_tick = ev.tick;
            proof {
                assert(trk@ =~= pre + spec_varlen(delta as int) + (
                if es[idx as int].on {
                    seq![0x99u8, es[idx as int].note, es[idx as int].velocity]
                } else {
                    seq![0x89u8, es[idx as int].note, 0u8]
                }));
                assert(trk@ =~= spec_track_prefix(bpmi) + spec_events_bytes(es, idx + 1));
            }
            idx += 1;
        }
        trk.push(0x00);
        trk.push(0xff);
        trk.push(0x2f);
        trk.push(0x00);
        proof {
            assert(trk@ =~= spec_track_body(es, bpmi));
        }
        // Track chunk around the body.
        out.push(0x4d);
        out.push(0x54);
        out.push(0x72);
        out.push(0x6b);
        let ghost out_pre = out@;
        push_be32(&mut out, trk.len() as u32);
        let ghost body = trk@;
        out.append(&mut trk);
        proof {
            assert(out@ =~= spec_smf_bytes(es, bpmi));
        }
        out
    }
}

/// A variable-length quantity of a 32-bit value takes at most five bytes:
/// each continuation level strips seven bits.
proof fn lemma_varlen_len(v: int)
    requires
        0 <= v < 0x1_0000_0000,
    ensures
        spec_varlen(v).len() <= 5,
{
    if v >= 0x80 {
        let v1 = v / 0x80;
        vstd::arithmetic::div_mod::lemma_div_is_ordered(v, 0xffff_ffff, 0x80);
        assert(v1 < 0x2000000);
        assert(spec_varlen(v).len() == spec_varlen_prefix(v1).len() + 1);
        if v1 >= 0x80 {
            let v2 = v1 / 0x80;
            vstd::arithmetic::div_mod::lemma_div_is_ordered(v1, 0x1ffffff, 0x80);
            assert(v2 < 0x40000);
            assert(spec_varlen_prefix(v1).len() == spec_varlen_prefix(v2).len() + 1);
            if v2 >= 0x80 {
                let v3 = v2 / 0x80;
                vstd::arithmetic::div_mod::lemma_div_is_ordered(v2, 0x3ffff, 0x80);
                assert(v3 < 0x800);
                assert(spec_varlen_prefix(v2).len() == spec_varlen_prefix(v3).len() + 1);
                if v3 >= 0x80 {
                    let v4 = v3 / 0x80;
                    vstd::arithmetic::div_mod::lemma_div_is_ordered(v3, 0x7ff, 0x80);
                    assert(v4 < 0x80);
                    assert(spec_varlen_prefix(v3).len() == spec_varlen_prefix(v4).len() + 1);
                    assert(spec_varlen_prefix(v4).len() <= 1);
                } else {
                    assert(spec_varlen_prefix(v3).len() <= 1);
                }
            } else {
                assert(spec_varlen_prefix(v2).len() <= 1);
            }
        } else {
            assert(spec_varlen_prefix(v1).len() <= 1);
        }
    } else {
        assert(spec_varlen(v).len() == 1);
    }
}

impl NotationExporter for MidiExporter {
    /// Encode as MIDI; any other format is refused with a validation error.
    fn export(&self, lesson: &LessonDescriptor, format: ExportFormat) -> (r: Result<
        Vec<u8>,
        DomainError,
    >)
        ensures
            r is Ok <==> format == ExportFormat::Midi,
            r matches Err(e) ==> (e matches DomainError::Validation(m) && m@
                == "MidiExporter can only export MIDI"@),
            r matches Ok(bytes) ==> bytes@ == spec_smf_bytes(
                stable_sort(
                    spec_chart_events(
                        lesson.notation@,
                        lesson.default_tempo@[0].bpm_milli as int,
                        lesson.notation@.len() as int,
                    ),
                    tick_leq(),
                ),
                lesson.default_tempo@[0].bpm_milli as int,
            ),
    {
        if !(matches!(format, ExportFormat::Midi)) {
            return Err(DomainError::validation("MidiExporter can only export MIDI"));
        }
        Ok(self.export_midi(lesson))
    }
}

/// Ticks per beat position, saturating at the 32-bit range.
fn start_tick(beat: u64) -> (r: u32)
    ensures
        r == clamp_tick(spec_start_tick(beat as int)),
{
    proof {
        vstd::arithmetic::mul::lemma_mul_upper_bound(
            beat as int,
            0xffff_ffff_ffff_ffff,
            480,
            480,
        );
        vstd::arithmetic::mul::lemma_mul_nonnegative(beat as int, 480);
        vstd::arithmetic::div_mod::lemma_div_pos_is_pos((beat as int) * 480, 1_000_000);
    }
    let t: u128 = (beat as u128) * 480 / 1_000_000;
    if t > 0xffff_ffff {
        u32::MAX
    } else {
        t as u32
    }
}

/// Ticks per duration at a tempo, truncated to the 32-bit range as the
/// scheduled events carry them; durations beyond it saturate.
fn dur_ticks(dur_micros: u64, bpm_milli: u32) -> (r: u32)
    requires
        MIN_BPM_MILLI <= bpm_milli <= MAX_BPM_MILLI,
    ensures
        spec_dur_ticks(dur_micros as int, bpm_milli as int) <= 0xffff_ffff ==> r == spec_dur_ticks(
            dur_micros as int,
            bpm_milli as int,
        ),
        spec_dur_ticks(dur_micros as int, bpm_milli as int) > 0xffff_ffff ==> r == 0xffff_ffff,
        r >= 60 ==> spec_dur_ticks(dur_micros as int, bpm_milli as int) >= 60,
{
    proof {
        vstd::arithmetic::mul::lemma_mul_upper_bound(
            dur_micros as int,
            0xffff_ffff_ffff_ffff,
            bpm_milli as int,
            400_000,
        );
        vstd::arithmetic::mul::lemma_mul_nonnegative(dur_micros as int, bpm_milli as int);
        vstd::arithmetic::mul::lemma_mul_upper_bound(
            (dur_micros as int) * (bpm_milli as int),
            0xffff_ffff_ffff_ffff as int * 400_000,
            480,
            480,
        );
        vstd::arithmetic::mul::lemma_mul_nonnegative(
            (dur_micros as int) * (bpm_milli as int),
            480,
        );
        vstd::arithmetic::div_mod::lemma_div_pos_is_pos(
            (dur_micros as int) * (bpm_milli as int) * 480,
            60_000_000_000,
        );
    }
    let t: u128 = (dur_micros as u128) * (bpm_milli as u128) * 480 / 60_000_000_000;
    if t > 0xffff_ffff {
        u32::MAX
    } else {
        t as u32
    }
}

} // verus!
