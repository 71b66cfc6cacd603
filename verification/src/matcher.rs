//! Live hit matching: classify an incoming strike against the nearest
//! unresolved expectation of the same piece, within a tolerance window.
//!
//! The tolerance is the tighter of a percentage-of-beat window and a
//! millisecond cap converted at the current tempo, so the effective window in
//! real time shrinks as the tempo rises past the cap threshold. Matching is
//! greedy and single-pass: a resolved entry is never revisited, and among
//! equally distant candidates the earliest chart entry wins.

use vstd::prelude::*;
use vstd::pervasive::VecAdditionalExecFns;

use crate::events::DrumPiece;
use crate::events::NotatedEvent;

verus! {

/// Judgement of one expected chart entry; absence (`None` in the status
/// table) means "not yet resolved".
#[derive(Clone, Copy, Debug, PartialEq, Eq, Structural)]
pub enum HitLabel {
    OnTime,
    Late,
    Early,
    Missed,
}

/// Distance between two beat positions, in micro-beats.
pub open spec fn beat_distance(a: int, b: int) -> int {
    if a >= b {
        a - b
    } else {
        b - a
    }
}

/// The percentage component of a tolerance window: `pct_milli` thousandths of
/// a percent of one beat, in micro-beats.
pub open spec fn pct_window_microbeats(pct_milli: int) -> int {
    pct_milli * 10
}

/// The millisecond-cap component of a tolerance window, converted to
/// micro-beats at `bpm_milli` thousandths of a BPM.
pub open spec fn cap_window_microbeats(cap_ms: int, bpm_milli: int) -> int {
    cap_ms * bpm_milli / 60
}

/// The effective tolerance window: the tighter of the percentage window and
/// the converted millisecond cap.
pub open spec fn spec_window_microbeats(pct_milli: int, cap_ms: int, bpm_milli: int) -> int {
    if pct_window_microbeats(pct_milli) <= cap_window_microbeats(cap_ms, bpm_milli) {
        pct_window_microbeats(pct_milli)
    } else {
        cap_window_microbeats(cap_ms, bpm_milli)
    }
}

/// Compute the effective tolerance window in micro-beats.
pub fn window_microbeats(pct_milli: u32, cap_ms: u32, bpm_milli: u32) -> (w: u64)
    ensures
        w == spec_window_microbeats(pct_milli as int, cap_ms as int, bpm_milli as int),
{
    let pct: u64 = (pct_milli as u64) * 10;
    proof {
        vstd::arithmetic::mul::lemma_mul_upper_bound(
            cap_ms as int,
            0xffff_ffff,
            bpm_milli as int,
            0xffff_ffff,
        );
        vstd::arithmetic::mul::lemma_mul_nonnegative(cap_ms as int, bpm_milli as int);
        vstd::arithmetic::div_mod::lemma_div_pos_is_pos(
            (cap_ms as int) * (bpm_milli as int),
            60,
        );
    }
    let cap: u64 = (cap_ms as u64) * (bpm_milli as u64) / 60;
    if pct <= cap {
        pct
    } else {
        cap
    }
}

/// Beats of latency to subtract from the playhead, for a strike that arrived
/// `latency_ms` milliseconds late, at `bpm_milli` thousandths of a BPM.
pub open spec fn spec_latency_microbeats(latency_ms: int, bpm_milli: int) -> int {
    latency_ms * bpm_milli / 60
}

/// The latency-compensated beat a strike is heard at: the playhead minus the
/// compensation, floored at zero.
pub open spec fn spec_hit_beat(playhead: int, latency: int) -> int {
    if playhead >= latency {
        playhead - latency
    } else {
        0
    }
}

/// Compute the latency compensation in micro-beats.
pub fn latency_microbeats(latency_ms: u32, bpm_milli: u32) -> (r: u64)
    ensures
        r == spec_latency_microbeats(latency_ms as int, bpm_milli as int),
{
    proof {
        vstd::arithmetic::mul::lemma_mul_upper_bound(
            latency_ms as int,
            0xffff_ffff,
            bpm_milli as int,
            0xffff_ffff,
        );
        vstd::arithmetic::mul::lemma_mul_nonnegative(latency_ms as int, bpm_milli as int);
        vstd::arithmetic::div_mod::lemma_div_pos_is_pos(
            (latency_ms as int) * (bpm_milli as int),
            60,
        );
    }
    (latency_ms as u64) * (bpm_milli as u64) / 60
}

/// Whether chart entry `i` is a candidate for a strike on `piece` heard at
/// `hit_beat`: same piece, still unresolved, and within the window.
pub open spec fn qualifies(
    notation: Seq<NotatedEvent>,
    statuses: Seq<Option<HitLabel>>,
    piece: DrumPiece,
    hit_beat: int,
    window: int,
    i: int,
) -> bool {
    &&& 0 <= i < notation.len()
    &&& notation[i].event.piece == piece
    &&& statuses[i] is None
    &&& beat_distance(notation[i].event.beat as int, hit_beat) < window
}

/// The label a resolved strike earns: `OnTime` within the on-time window,
/// else `Late` when it came after the expectation, else `Early`.
pub open spec fn spec_classify(hit_beat: int, expected_beat: int, on_time_window: int) -> HitLabel {
    if beat_distance(expected_beat, hit_beat) < on_time_window {
        HitLabel::OnTime
    } else if hit_beat > expected_beat {
        HitLabel::Late
    } else {
        HitLabel::Early
    }
}

/// Classify a resolved strike against its expectation.
pub fn classify_hit(hit_beat: u64, expected_beat: u64, on_time_window: u64) -> (l: HitLabel)
    ensures
        l == spec_classify(hit_beat as int, expected_beat as int, on_time_window as int),
{
    let d: u64 = if expected_beat >= hit_beat {
        expected_beat - hit_beat
    } else {
        hit_beat - expected_beat
    };
    if d < on_time_window {
        HitLabel::OnTime
    } else if hit_beat > expected_beat {
        HitLabel::Late
    } else {
        HitLabel::Early
    }
}

/// Find the nearest qualifying chart entry for a strike: the unresolved entry
/// of the same piece within the window whose beat is closest to the strike's,
/// the earliest such entry on a tie.
pub fn nearest_unresolved(
    notation: &Vec<NotatedEvent>,
    statuses: &Vec<Option<HitLabel>>,
    piece: DrumPiece,
    hit_beat: u64,
    window: u64,
) -> (r: Option<usize>)
    requires
        statuses@.len() == notation@.len(),
    ensures
        r is None ==> forall|i: int|
            !qualifies(notation@, statuses@, piece, hit_beat as int, window as int, i),
        r matches Some(i) ==> {
            &&& qualifies(notation@, statuses@, piece, hit_beat as int, window as int, i as int)
            &&& forall|j: int|
                qualifies(notation@, statuses@, piece, hit_beat as int, window as int, j)
                    ==> beat_distance(notation@[i as int].event.beat as int, hit_beat as int)
                    <= beat_distance(notation@[j].event.beat as int, hit_beat as int)
            &&& forall|j: int|
                qualifies(notation@, statuses@, piece, hit_beat as int, window as int, j) && j
                    < i ==> beat_distance(notation@[j].event.beat as int, hit_beat as int)
                    > beat_distance(notation@[i as int].event.beat as int, hit_beat as int)
        },
{
    let ghost n = notation@;
    let ghost st = statuses@;
    let mut best: Option<usize> = None;
    let mut best_dist: u64 = 0;
    let mut i: usize = 0;
    while i < notation.len()
        invariant
            statuses@.len() == notation@.len(),
            n == notation@,
            st == statuses@,
            i <= n.len(),
            best is None ==> forall|k: int|
                k < i ==> !qualifies(n, st, piece, hit_beat as int, window as int, k),
            best matches Some(b) ==> {
                &&& b < i
                &&& qualifies(n, st, piece, hit_beat as int, window as int, b as int)
                &&& best_dist == beat_distance(n[b as int].event.beat as int, hit_beat as int)
                &&& forall|k: int|
                    k < i && qualifies(n, st, piece, hit_beat as int, window as int, k)
                        ==> best_dist <= beat_distance(n[k].event.beat as int, hit_beat as int)
                &&& forall|k: int|
                    k < b && qualifies(n, st, piece, hit_beat as int, window as int, k)
                        ==> beat_distance(n[k].event.beat as int, hit_beat as int) > best_dist
            },
        decreases n.len() - i,
    {
        let ev = &notation[i];
        if ev.event.piece == piece && statuses[i].is_none() {
            let d: u64 = if ev.event.beat >= hit_beat {
                ev.event.beat - hit_beat
            } else {
                hit_beat - ev.event.beat
            };
            if d < window {
                match best {
                    None => {
                        best = Some(i);
                        best_dist = d;
                    },
                    Some(_) => {
                        if d < best_dist {
                            best = Some(i);
                            best_dist = d;
                        }
                    },
                }
            }
        }
        i += 1;
    }
    best
}

/// Resolve a strike against the chart: find the nearest qualifying entry,
/// write its label, and leave every other entry untouched. Returns the index
/// resolved, or `None` when no entry qualifies (the strike is then merely
/// informational). A resolved entry is never overwritten by a later strike.
pub fn resolve_strike(
    notation: &Vec<NotatedEvent>,
    statuses: &mut Vec<Option<HitLabel>>,
    piece: DrumPiece,
    hit_beat: u64,
    match_window: u64,
    on_time_window: u64,
) -> (r: Option<usize>)
    requires
        old(statuses)@.len() == notation@.len(),
    ensures
        final(statuses)@.len() == old(statuses)@.len(),
        forall|j: int|
            0 <= j < old(statuses)@.len() && old(statuses)@[j] is Some ==> final(statuses)@[j]
                == old(statuses)@[j],
        r is None ==> {
            &&& final(statuses)@ == old(statuses)@
            &&& forall|i: int|
                !qualifies(
                    notation@,
                    old(statuses)@,
                    piece,
                    hit_beat as int,
                    match_window as int,
                    i,
                )
        },
        r matches Some(i) ==> {
            &&& qualifies(
                notation@,
                old(statuses)@,
                piece,
                hit_beat as int,
                match_window as int,
                i as int,
            )
            &&& forall|j: int|
                qualifies(notation@, old(statuses)@, piece, hit_beat as int, match_window as int, j)
                    ==> beat_distance(notation@[i as int].event.beat as int, hit_beat as int)
                    <= beat_distance(notation@[j].event.beat as int, hit_beat as int)
            &&& forall|j: int|
                qualifies(notation@, old(statuses)@, piece, hit_beat as int, match_window as int, j)
                    && j < i ==> beat_distance(notation@[j].event.beat as int, hit_beat as int)
                    > beat_distance(notation@[i as int].event.beat as int, hit_beat as int)
            &&& final(statuses)@ == old(statuses)@.update(
                i as int,
                Some(
                    spec_classify(
                        hit_beat as int,
                        notation@[i as int].event.beat as int,
                        on_time_window as int,
                    ),
                ),
            )
        },
{
    let found = nearest_unresolved(notation, statuses, piece, hit_beat, match_window);
    match found {
        None => None,
        Some(idx) => {
            let label = classify_hit(hit_beat, notation[idx].event.beat, on_time_window);
            statuses.set(idx, Some(label));
            Some(idx)
        },
    }
}

/// Mark every still-unresolved entry whose window the playhead has passed as
/// `Missed`. An entry at beat `b` is missed exactly once
/// `b + match_window < playhead`; nothing else changes.
pub fn mark_missed(
    notation: &Vec<NotatedEvent>,
    statuses: &mut Vec<Option<HitLabel>>,
    playhead: u64,
    match_window: u64,
)
    requires
        old(statuses)@.len() == notation@.len(),
    ensures
        final(statuses)@.len() == old(statuses)@.len(),
        forall|i: int|
            0 <= i < old(statuses)@.len() ==> final(statuses)@[i] == (
            if old(statuses)@[i] is None && notation@[i].event.beat + match_window < playhead {
                Some(HitLabel::Missed)
            } else {
                old(statuses)@[i]
            }),
{
    let ghost orig = statuses@;
    let mut i: usize = 0;
    while i < notation.len()
        invariant
            statuses@.len() == notation@.len() == orig.len(),
            i <= orig.len(),
            forall|k: int|
                0 <= k < i ==> statuses@[k] == (
                if orig[k] is None && notation@[k].event.beat + match_window < playhead {
                    Some(HitLabel::Missed)
                } else {
                    orig[k]
                }),
            forall|k: int| i <= k < orig.len() ==> statuses@[k] == orig[k],
        decreases orig.len() - i,
    {
        let unresolved = statuses[i].is_none();
        if unresolved {
            let beat = notation[i].event.beat;
            if match_window <= u64::MAX - beat && beat + match_window < playhead {
                statuses.set(i, Some(HitLabel::Missed));
            }
        }
        i += 1;
    }
}

} // verus!
