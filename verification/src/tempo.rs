//! Tempo timeline: piecewise-constant tempo and time-signature changes, with
//! conversion between elapsed time and musical beat position.
//!
//! Units: instants and durations are microseconds; tempo is thousandths of a
//! beat per minute; beat positions are millionths of a beat. One beat at
//! tempo `b` milli-BPM lasts `60_000_000_000 / b` microseconds, and a span of
//! `d` microseconds at that tempo covers `d * b / 60_000` micro-beats.

use vstd::prelude::*;

use crate::error::DomainError;
use crate::sorting::insert_stable;
use crate::sorting::lemma_insert_at_found_position;
use crate::sorting::lemma_stable_sort_ensures;
use crate::sorting::sorted_by;
use crate::sorting::stable_sort;

verus! {

/// Lowest accepted tempo, in thousandths of a BPM (10 BPM).
pub const MIN_BPM_MILLI: u32 = 10_000;

/// Highest accepted tempo, in thousandths of a BPM (400 BPM).
pub const MAX_BPM_MILLI: u32 = 400_000;

/// Micro-beats in one beat.
pub const BEAT: u64 = 1_000_000;

/// Largest instant (microseconds) the beat queries accept; roughly 31 years.
pub const MAX_TIME_MICROS: u64 = 1_000_000_000_000_000;

/// Largest beat position (micro-beats) the duration query accepts.
pub const MAX_BEAT_MICROS: u64 = 2_000_000_000_000_000;

/// A time signature, e.g. 4/4 or 3/4.
#[derive(Clone, Copy, Debug, PartialEq, Eq, Structural)]
pub struct TimeSignature {
    pub numerator: u8,
    pub denominator: u8,
}

/// Whether `d` is a power of two that fits in a `u8`.
pub open spec fn is_power_of_two_u8(d: u8) -> bool {
    d == 1 || d == 2 || d == 4 || d == 8 || d == 16 || d == 32 || d == 64 || d == 128
}

/// Runtime check matching [`is_power_of_two_u8`].
pub fn power_of_two_u8(d: u8) -> (b: bool)
    ensures
        b == is_power_of_two_u8(d),
{
    d == 1 || d == 2 || d == 4 || d == 8 || d == 16 || d == 32 || d == 64 || d == 128
}

/// One change point on the tempo timeline.
#[derive(Clone, Copy, Debug, PartialEq, Eq, Structural)]
pub struct TempoEvent {
    /// Microseconds from the start of the piece.
    pub time_micros: u64,
    /// Thousandths of a beat per minute.
    pub bpm_milli: u32,
    /// Time signature in force from this event on.
    pub signature: TimeSignature,
}

impl TempoEvent {
    /// The documented bounds on a tempo event's fields.
    pub open spec fn valid(self) -> bool {
        &&& MIN_BPM_MILLI <= self.bpm_milli <= MAX_BPM_MILLI
        &&& self.signature.numerator >= 1
        &&& is_power_of_two_u8(self.signature.denominator)
    }

    /// Validated construction: rejects a negative time, a tempo outside
    /// 10..=400 BPM, a zero beats-per-bar count, and a denominator that is
    /// not a power of two. Never clamps.
    pub fn new(time_micros: i64, bpm_milli: u32, signature: (u8, u8)) -> (r: Result<
        TempoEvent,
        DomainError,
    >)
        ensures
            r is Ok <==> {
                &&& time_micros >= 0
                &&& MIN_BPM_MILLI <= bpm_milli <= MAX_BPM_MILLI
                &&& signature.0 >= 1
                &&& is_power_of_two_u8(signature.1)
            },
            r matches Ok(e) ==> {
                &&& e.time_micros == time_micros
                &&& e.bpm_milli == bpm_milli
                &&& e.signature.numerator == signature.0
                &&& e.signature.denominator == signature.1
                &&& e.valid()
            },
            r matches Err(e) ==> e matches DomainError::Validation(m) && m@ == (
            if time_micros < 0 {
                "tempo events cannot have negative time"@
            } else if !(MIN_BPM_MILLI <= bpm_milli <= MAX_BPM_MILLI) {
                "tempo bpm must be between 10 and 400"@
            } else {
                "time signature denominator must be power of two"@
            }),
    {
        if time_micros < 0 {
            return Err(DomainError::validation("tempo events cannot have negative time"));
        }
        if bpm_milli < MIN_BPM_MILLI || bpm_milli > MAX_BPM_MILLI {
            return Err(DomainError::validation("tempo bpm must be between 10 and 400"));
        }
        if signature.0 == 0 || !power_of_two_u8(signature.1) {
            return Err(
                DomainError::validation("time signature denominator must be power of two"),
            );
        }
        Ok(
            TempoEvent {
                time_micros: time_micros as u64,
                bpm_milli,
                signature: TimeSignature { numerator: signature.0, denominator: signature.1 },
            },
        )
    }

    /// Microseconds in one beat at this event's tempo.
    pub fn micros_per_beat(&self) -> (r: u64)
        requires
            self.valid(),
        ensures
            r == 60_000_000_000int / self.bpm_milli as int,
            150_000 <= r <= 6_000_000,
    {
        proof {
            vstd::arithmetic::div_mod::lemma_div_is_ordered_by_denominator(
                60_000_000_000,
                10_000,
                self.bpm_milli as int,
            );
            vstd::arithmetic::div_mod::lemma_div_is_ordered_by_denominator(
                60_000_000_000,
                self.bpm_milli as int,
                400_000,
            );
        }
        60_000_000_000u64 / (self.bpm_milli as u64)
    }
}

/// Micro-beats covered by `dur` microseconds at `bpm` milli-BPM.
pub open spec fn segment_microbeats(dur: int, bpm: int) -> int {
    dur * bpm / 60_000
}

/// Microseconds taken by `mb` micro-beats at `bpm` milli-BPM.
pub open spec fn step_micros(mb: int, bpm: int) -> int {
    mb * 60_000 / bpm
}

/// Whether the events are ordered by time, ascending.
pub open spec fn sorted_by_time(s: Seq<TempoEvent>) -> bool {
    forall|i: int, j: int|
        0 <= i < j < s.len() ==> s[i].time_micros <= s[j].time_micros
}

/// Well-formedness of a tempo timeline: non-empty, anchored at time zero,
/// sorted by time, every event within the documented bounds.
pub open spec fn wf_events(s: Seq<TempoEvent>) -> bool {
    &&& s.len() > 0
    &&& s[0].time_micros == 0
    &&& sorted_by_time(s)
    &&& forall|i: int| 0 <= i < s.len() ==> s[i].valid()
}

/// Index of the latest event at or before instant `t` ("last event wins").
pub open spec fn cut(s: Seq<TempoEvent>, t: int) -> int
    decreases s.len(),
{
    if s.len() <= 1 {
        0
    } else if s[s.len() - 1].time_micros <= t {
        s.len() - 1
    } else {
        cut(s.drop_last(), t)
    }
}

/// The event in force at instant `t`.
pub open spec fn active_event(s: Seq<TempoEvent>, t: int) -> TempoEvent {
    s[cut(s, t)]
}

/// Basic facts about [`cut`]: it lands in range, at or before `t`, and the
/// next event (if any) is after `t`.
pub proof fn lemma_cut_properties(s: Seq<TempoEvent>, t: int)
    requires
        s.len() > 0,
        sorted_by_time(s),
        s[0].time_micros <= t,
    ensures
        0 <= cut(s, t) < s.len(),
        s[cut(s, t)].time_micros <= t,
        cut(s, t) < s.len() - 1 ==> s[cut(s, t) + 1].time_micros > t,
    decreases s.len(),
{
    if s.len() <= 1 {
    } else if s[s.len() - 1].time_micros <= t {
    } else {
        let d = s.drop_last();
        assert(d[0] == s[0]);
        lemma_cut_properties(d, t);
        assert(forall|i: int| 0 <= i < d.len() ==> d[i] == s[i]);
    }
}

/// The latest event at or before `t` is pinned down by its neighbours: if
/// `s[k]` is at or before `t` and the event after `k` (if any) is after `t`,
/// then `k` is the cut.
pub proof fn lemma_cut_characterization(s: Seq<TempoEvent>, t: int, k: int)
    requires
        sorted_by_time(s),
        0 <= k < s.len(),
        s[k].time_micros <= t,
        k == s.len() - 1 || s[k + 1].time_micros > t,
    ensures
        cut(s, t) == k,
    decreases s.len(),
{
    if s.len() <= 1 {
    } else if s[s.len() - 1].time_micros <= t {
        if k < s.len() - 1 {
            assert(s[k + 1].time_micros <= s[s.len() - 1].time_micros);
        }
    } else {
        let d = s.drop_last();
        assert(forall|i: int| 0 <= i < d.len() ==> d[i] == s[i]);
        lemma_cut_characterization(d, t, k);
    }
}

/// Order on tempo events: earlier time first.
pub open spec fn time_leq() -> spec_fn(TempoEvent, TempoEvent) -> bool {
    |a: TempoEvent, b: TempoEvent| a.time_micros <= b.time_micros
}

/// [`time_leq`] is a total preorder, as the sorting lemmas ask.
proof fn lemma_time_leq_props()
    ensures
        forall|a: TempoEvent, b: TempoEvent| #[trigger] time_leq()(a, b) || time_leq()(b, a),
        forall|a: TempoEvent, b: TempoEvent, c: TempoEvent|
            #[trigger] time_leq()(a, b) && #[trigger] time_leq()(b, c) ==> time_leq()(a, c),
{
}

/// Sort a list of tempo events by time, ascending: the result is exactly the
/// stable sort of the input, so events with equal times keep their order.
fn sort_events_by_time(v: &mut Vec<TempoEvent>)
    ensures
        final(v)@ == stable_sort(old(v)@, time_leq()),
        final(v)@.len() == old(v)@.len(),
        sorted_by_time(final(v)@),
        final(v)@.to_multiset() == old(v)@.to_multiset(),
{
    let ghost orig = v@;
    let ghost leq = time_leq();
    proof {
        lemma_time_leq_props();
        lemma_stable_sort_ensures(orig, leq);
    }
    if v.len() < 2 {
        proof {
            if orig.len() == 0 {
                assert(stable_sort(orig, leq) =~= orig);
            } else {
                assert(orig.drop_last() =~= Seq::<TempoEvent>::empty());
                assert(stable_sort(Seq::<TempoEvent>::empty(), leq)
                    == Seq::<TempoEvent>::empty());
                assert(stable_sort(orig, leq) == insert_stable(
                    Seq::<TempoEvent>::empty(),
                    orig.last(),
                    leq,
                ));
                assert(insert_stable(Seq::<TempoEvent>::empty(), orig.last(), leq)
                    =~= seq![orig.last()]);
                assert(stable_sort(orig, leq) =~= orig);
            }
        }
        return ;
    }
    proof {
        assert(orig.take(1).drop_last() =~= Seq::<TempoEvent>::empty());
        assert(stable_sort(Seq::<TempoEvent>::empty(), leq) == Seq::<TempoEvent>::empty());
        assert(orig.take(1).last() == orig[0]);
        assert(stable_sort(orig.take(1), leq) == insert_stable(
            Seq::<TempoEvent>::empty(),
            orig[0],
            leq,
        ));
        assert(insert_stable(Seq::<TempoEvent>::empty(), orig[0], leq) =~= seq![orig[0]]);
        assert(v@ =~= stable_sort(orig.take(1), leq) + orig.skip(1));
    }
    let mut i: usize = 1;
    while i < v.len()
        invariant
            1 <= i <= v@.len(),
            v@.len() == orig.len(),
            leq == time_leq(),
            v@ == stable_sort(orig.take(i as int), leq) + orig.skip(i as int),
        decreases v@.len() - i,
    {
        let ghost pre = stable_sort(orig.take(i as int), leq);
        proof {
            lemma_time_leq_props();
            lemma_stable_sort_ensures(orig.take(i as int), leq);
            assert(pre.len() == i);
            assert(v@[i as int] == orig.skip(i as int)[0]);
            assert(orig.skip(i as int)[0] == orig[i as int]);
            assert(forall|k: int| 0 <= k < i ==> v@[k] == pre[k]);
        }
        let key_time = v[i].time_micros;
        let mut j: usize = 0;
        while j < i && v[j].time_micros <= key_time
            invariant
                0 <= j <= i < v@.len(),
                forall|k: int| 0 <= k < j ==> v@[k].time_micros <= key_time,
            decreases i - j,
        {
            j += 1;
        }
        let ghost before = v@;
        let e = v.remove(i);
        v.insert(j, e);
        proof {
            lemma_time_leq_props();
            assert(e == orig[i as int]);
            assert(before.remove(i as int) =~= pre + orig.skip(i + 1));
            assert((pre + orig.skip(i + 1)).insert(j as int, e) =~= pre.insert(j as int, e)
                + orig.skip(i + 1));
            assert forall|k: int| 0 <= k < j implies leq(#[trigger] pre[k], e) by {
                assert(before[k] == pre[k]);
                assert(before[k].time_micros <= key_time);
            }
            if j < i {
                assert(before[j as int] == pre[j as int]);
                assert(!leq(pre[j as int], e));
            }
            assert(sorted_by(pre, leq)) by {
                lemma_stable_sort_ensures(orig.take(i as int), leq);
            }
            lemma_insert_at_found_position(pre, e, leq, j as int);
            assert(orig.take(i + 1).drop_last() =~= orig.take(i as int));
            assert(orig.take(i + 1).last() == orig[i as int]);
            assert(stable_sort(orig.take(i + 1), leq) == insert_stable(pre, e, leq));
            assert(v@ =~= stable_sort(orig.take(i + 1), leq) + orig.skip(i + 1));
        }
        i += 1;
    }
    proof {
        lemma_time_leq_props();
        assert(orig.take(orig.len() as int) =~= orig);
        assert(orig.skip(orig.len() as int) =~= Seq::<TempoEvent>::empty());
        assert(v@ =~= stable_sort(orig, leq));
        lemma_stable_sort_ensures(orig, leq);
        assert forall|p: int, q: int|
            0 <= p < q < v@.len() implies v@[p].time_micros <= v@[q].time_micros by {
            assert(leq(v@[p], v@[q]));
        }
    }
}

/// `cut` is non-decreasing in the instant queried.
pub proof fn lemma_cut_monotone(s: Seq<TempoEvent>, t1: int, t2: int)
    requires
        s.len() > 0,
        sorted_by_time(s),
        s[0].time_micros <= t1,
        t1 <= t2,
    ensures
        cut(s, t1) <= cut(s, t2),
    decreases s.len(),
{
    if s.len() <= 1 {
    } else if s[s.len() - 1].time_micros <= t1 {
        lemma_cut_properties(s, t1);
    } else if s[s.len() - 1].time_micros <= t2 {
        lemma_cut_properties(s, t1);
    } else {
        let d = s.drop_last();
        assert(d[0] == s[0]);
        lemma_cut_monotone(d, t1, t2);
    }
}

/// A span of time at a bounded tempo covers a proportional, bounded number of
/// micro-beats: at most seven per microsecond.
pub proof fn lemma_segment_bound(dur: int, bpm: int)
    requires
        0 <= dur,
        0 < bpm <= 400_000,
    ensures
        0 <= segment_microbeats(dur, bpm) <= 7 * dur,
{
    vstd::arithmetic::div_mod::lemma_div_pos_is_pos(dur * bpm, 60_000);
    vstd::arithmetic::mul::lemma_mul_nonnegative(dur, bpm);
    vstd::arithmetic::mul::lemma_mul_inequality(bpm, 420_000, dur);
    vstd::arithmetic::mul::lemma_mul_is_commutative(dur, bpm);
    vstd::arithmetic::mul::lemma_mul_is_commutative(dur, 420_000);
    assert(dur * bpm <= dur * 420_000);
    vstd::arithmetic::div_mod::lemma_div_is_ordered(dur * bpm, dur * 420_000, 60_000);
    assert(dur * 420_000 == (7 * dur) * 60_000) by {
        vstd::arithmetic::mul::lemma_mul_is_associative(7, dur, 60_000);
        vstd::arithmetic::mul::lemma_mul_is_commutative(dur, 60_000);
    }
    vstd::arithmetic::div_mod::lemma_div_by_multiple(7 * dur, 60_000);
}

/// `segment_microbeats` is non-decreasing in the duration.
pub proof fn lemma_segment_monotone(d1: int, d2: int, bpm: int)
    requires
        0 <= d1 <= d2,
        0 < bpm,
    ensures
        segment_microbeats(d1, bpm) <= segment_microbeats(d2, bpm),
{
    vstd::arithmetic::mul::lemma_mul_inequality(d1, d2, bpm);
    vstd::arithmetic::div_mod::lemma_div_is_ordered(d1 * bpm, d2 * bpm, 60_000);
}

/// Micro-beats accumulated over the timeline segments up to and including the
/// one that ends at event `j` (each segment floored on its own, as the player
/// computes them).
pub open spec fn beats_of_segments(s: Seq<TempoEvent>, j: int) -> int
    decreases j,
{
    if j <= 0 {
        0
    } else {
        beats_of_segments(s, j - 1) + segment_microbeats(
            s[j].time_micros - s[j - 1].time_micros,
            s[j - 1].bpm_milli as int,
        )
    }
}

/// The beat position reached at instant `t`: the whole segments before `t`,
/// plus the partial segment at the tempo in force at `t`.
pub open spec fn spec_beat_at_time(s: Seq<TempoEvent>, t: int) -> int {
    let c = cut(s, t);
    beats_of_segments(s, c) + segment_microbeats(
        t - s[c].time_micros,
        s[c].bpm_milli as int,
    )
}

/// The duration, in microseconds, of walking from beat `cursor` to beat `end`
/// in one-beat steps, where each step is priced at the tempo in force at the
/// accumulated instant `acc`.
pub open spec fn spec_duration_from(s: Seq<TempoEvent>, cursor: int, end: int, acc: int) -> int
    decreases end - cursor,
{
    if cursor >= end {
        acc
    } else {
        let step = if end - cursor < 1_000_000 {
            end - cursor
        } else {
            1_000_000
        };
        spec_duration_from(
            s,
            cursor + step,
            end,
            acc + step_micros(step, spec_bpm_at(s, acc) as int),
        )
    }
}

/// Whole-segment beat sums only grow as more segments are taken in.
pub proof fn lemma_beats_of_segments_monotone(s: Seq<TempoEvent>, j1: int, j2: int)
    requires
        wf_events(s),
        0 <= j1 <= j2 < s.len(),
    ensures
        beats_of_segments(s, j1) <= beats_of_segments(s, j2),
    decreases j2 - j1,
{
    if j1 < j2 {
        lemma_beats_of_segments_monotone(s, j1, j2 - 1);
        lemma_segment_bound(
            s[j2].time_micros - s[j2 - 1].time_micros,
            s[j2 - 1].bpm_milli as int,
        );
    }
}

/// LAW: the beat position is non-decreasing in the instant queried, for any
/// well-formed tempo timeline, including across tempo-change boundaries.
pub proof fn lemma_beat_at_time_monotone(s: Seq<TempoEvent>, t1: int, t2: int)
    requires
        wf_events(s),
        0 <= t1 <= t2,
    ensures
        spec_beat_at_time(s, t1) <= spec_beat_at_time(s, t2),
{
    let c1 = cut(s, t1);
    let c2 = cut(s, t2);
    lemma_cut_properties(s, t1);
    lemma_cut_properties(s, t2);
    lemma_cut_monotone(s, t1, t2);
    if c1 == c2 {
        lemma_segment_monotone(
            t1 - s[c1].time_micros,
            t2 - s[c1].time_micros,
            s[c1].bpm_milli as int,
        );
    } else {
        // Up to the end of segment c1, then through whole segments, then the
        // tail segment at c2.
        assert(s[c1 + 1].time_micros > t1);
        lemma_segment_monotone(
            t1 - s[c1].time_micros,
            s[c1 + 1].time_micros - s[c1].time_micros,
            s[c1].bpm_milli as int,
        );
        assert(beats_of_segments(s, c1 + 1) == beats_of_segments(s, c1) + segment_microbeats(
            s[c1 + 1].time_micros - s[c1].time_micros,
            s[c1].bpm_milli as int,
        ));
        lemma_beats_of_segments_monotone(s, c1 + 1, c2);
        lemma_segment_bound(t2 - s[c2].time_micros, s[c2].bpm_milli as int);
    }
}

/// Number of one-beat steps the duration walk takes from `cursor` to `end`.
pub open spec fn duration_steps(cursor: int, end: int) -> int
    decreases end - cursor,
{
    if cursor >= end {
        0
    } else {
        let step = if end - cursor < 1_000_000 {
            end - cursor
        } else {
            1_000_000
        };
        1 + duration_steps(cursor + step, end)
    }
}

/// The step count is at most one per whole beat, plus one for the partial
/// step.
pub proof fn lemma_duration_steps_bound(cursor: int, end: int)
    requires
        cursor <= end,
    ensures
        0 <= duration_steps(cursor, end) <= (end - cursor) / 1_000_000 + 1,
        (end - cursor) % 1_000_000 == 0 ==> duration_steps(cursor, end) == (end - cursor)
            / 1_000_000,
    decreases end - cursor,
{
    if cursor >= end {
        assert(duration_steps(cursor, end) == 0);
    } else {
        let step = if end - cursor < 1_000_000 {
            end - cursor
        } else {
            1_000_000
        };
        lemma_duration_steps_bound(cursor + step, end);
        if end - cursor < 1_000_000 {
            assert((end - cursor) / 1_000_000 == 0 || (end - cursor) % 1_000_000 == 0) by {
                vstd::arithmetic::div_mod::lemma_basic_div(end - cursor, 1_000_000);
            }
        } else {
            assert((end - cursor - 1_000_000) / 1_000_000 == (end - cursor) / 1_000_000 - 1
                && (end - cursor - 1_000_000) % 1_000_000 == (end - cursor) % 1_000_000) by {
                vstd::arithmetic::div_mod::lemma_hoist_over_denominator(
                    end - cursor - 1_000_000,
                    1,
                    1_000_000nat,
                );
                vstd::arithmetic::div_mod::lemma_mod_add_multiples_vanish(
                    end - cursor - 1_000_000,
                    1_000_000,
                );
            }
        }
    }
}

/// On a single-segment timeline the accumulated duration, scaled by the
/// tempo, sits within one tempo-unit per step of the exact product.
proof fn lemma_duration_product_bounds(s: Seq<TempoEvent>, cursor: int, end: int, acc: int)
    requires
        wf_events(s),
        s.len() == 1,
        0 <= cursor <= end,
        0 <= acc,
    ensures
        spec_duration_from(s, cursor, end, acc) * (s[0].bpm_milli as int) <= acc * (
        s[0].bpm_milli as int) + (end - cursor) * 60_000,
        spec_duration_from(s, cursor, end, acc) * (s[0].bpm_milli as int) >= acc * (
        s[0].bpm_milli as int) + (end - cursor) * 60_000 - duration_steps(cursor, end) * (
        s[0].bpm_milli as int),
        spec_duration_from(s, cursor, end, acc) >= acc,
    decreases end - cursor,
{
    let bpm = s[0].bpm_milli as int;
    if cursor >= end {
    } else {
        let step = if end - cursor < 1_000_000 {
            end - cursor
        } else {
            1_000_000
        };
        assert(cut(s, acc) == 0);
        let step_us = step_micros(step, bpm);
        assert(step_us * bpm <= step * 60_000 && step_us * bpm > step * 60_000 - bpm && step_us
            >= 0) by {
            vstd::arithmetic::div_mod::lemma_fundamental_div_mod(step * 60_000, bpm);
            vstd::arithmetic::div_mod::lemma_mod_bound(step * 60_000, bpm);
            vstd::arithmetic::mul::lemma_mul_nonnegative(step, 60_000);
            vstd::arithmetic::div_mod::lemma_div_pos_is_pos(step * 60_000, bpm);
            vstd::arithmetic::mul::lemma_mul_is_commutative(step_us, bpm);
        }
        lemma_duration_product_bounds(s, cursor + step, end, acc + step_us);
        let t = spec_duration_from(s, cursor, end, acc);
        assert(t == spec_duration_from(s, cursor + step, end, acc + step_us));
        assert((acc + step_us) * bpm == acc * bpm + step_us * bpm) by {
            vstd::arithmetic::mul::lemma_mul_is_distributive_add_other_way(
                bpm,
                acc,
                step_us,
            );
        }
        assert((end - cursor - step) * 60_000 == (end - cursor) * 60_000 - step * 60_000) by {
            vstd::arithmetic::mul::lemma_mul_is_distributive_sub_other_way(
                60_000,
                end - cursor,
                step,
            );
        }
        assert(duration_steps(cursor, end) * bpm == duration_steps(cursor + step, end) * bpm
            + bpm) by {
            vstd::arithmetic::mul::lemma_mul_is_distributive_add_other_way(
                bpm,
                duration_steps(cursor + step, end),
                1,
            );
        }
    }
}

/// LAW: on a constant-tempo timeline, converting a beat position to a
/// duration and back lands within seven micro-beats per whole beat (plus one
/// partial step) below the original position, and never above it.
pub proof fn lemma_beat_time_round_trip(s: Seq<TempoEvent>, b: int)
    requires
        wf_events(s),
        s.len() == 1,
        0 <= b,
    ensures
        spec_beat_at_time(s, spec_duration_from(s, 0, b, 0)) <= b,
        spec_beat_at_time(s, spec_duration_from(s, 0, b, 0)) >= b - 7 * (b / 1_000_000 + 1),
{
    let bpm = s[0].bpm_milli as int;
    let t = spec_duration_from(s, 0, b, 0);
    let n = duration_steps(0, b);
    lemma_duration_product_bounds(s, 0, b, 0);
    lemma_duration_steps_bound(0, b);
    assert(cut(s, t) == 0);
    let r = spec_beat_at_time(s, t);
    assert(r == t * bpm / 60_000);
    // Upper bound: t * bpm <= b * 60_000, so r <= b.
    assert(r <= b) by {
        vstd::arithmetic::div_mod::lemma_div_is_ordered(t * bpm, b * 60_000, 60_000);
        vstd::arithmetic::div_mod::lemma_div_by_multiple(b, 60_000);
        vstd::arithmetic::mul::lemma_mul_is_commutative(b, 60_000);
    }
    // Lower bound: t * bpm >= (b - 7n) * 60_000, so r >= b - 7n >= the bound.
    assert(n * bpm <= (7 * n) * 60_000) by {
        vstd::arithmetic::mul::lemma_mul_inequality(bpm, 420_000, n);
        vstd::arithmetic::mul::lemma_mul_is_commutative(n, bpm);
        vstd::arithmetic::mul::lemma_mul_is_commutative(n, 420_000);
        vstd::arithmetic::mul::lemma_mul_is_associative(7, n, 60_000);
    }
    assert((b - 7 * n) * 60_000 == b * 60_000 - (7 * n) * 60_000) by {
        vstd::arithmetic::mul::lemma_mul_is_distributive_sub_other_way(60_000, b, 7 * n);
    }
    if b - 7 * n >= 0 {
        assert(r >= b - 7 * n) by {
            vstd::arithmetic::div_mod::lemma_div_is_ordered(
                (b - 7 * n) * 60_000,
                t * bpm,
                60_000,
            );
            vstd::arithmetic::div_mod::lemma_div_by_multiple(b - 7 * n, 60_000);
            vstd::arithmetic::mul::lemma_mul_is_commutative(b - 7 * n, 60_000);
        }
    } else {
        assert(r >= 0) by {
            vstd::arithmetic::mul::lemma_mul_nonnegative(t, bpm);
            vstd::arithmetic::div_mod::lemma_div_pos_is_pos(t * bpm, 60_000);
        }
    }
    assert(n <= b / 1_000_000 + 1);
    assert(7 * n <= 7 * (b / 1_000_000 + 1)) by {
        vstd::arithmetic::mul::lemma_mul_inequality(n, b / 1_000_000 + 1, 7);
        vstd::arithmetic::mul::lemma_mul_is_commutative(n, 7);
        vstd::arithmetic::mul::lemma_mul_is_commutative(b / 1_000_000 + 1, 7);
    }
}

/// A validated, immutable tempo timeline. Queries are total for any instant:
/// past the last event the last tempo holds indefinitely.
#[derive(Clone, Debug, PartialEq)]
pub struct TempoMap {
    events: Vec<TempoEvent>,
}

/// The tempo (milli-BPM) in force at instant `t` on timeline `s`.
pub open spec fn spec_bpm_at(s: Seq<TempoEvent>, t: int) -> u32 {
    active_event(s, t).bpm_milli
}

impl TempoMap {
    /// The timeline invariant every constructed map satisfies: the view is a
    /// well-formed event list.
    pub closed spec fn wf(&self) -> bool {
        wf_events(self.events@)
    }

    /// View of the underlying event list.
    pub closed spec fn view(&self) -> Seq<TempoEvent> {
        self.events@
    }

    /// What [`TempoMap::wf`] means of the view.
    pub proof fn lemma_wf_view(&self)
        requires
            self.wf(),
        ensures
            wf_events(self@),
    {
    }

    /// Validated construction. The list is sorted by time first; it must be
    /// non-empty, every event must be within bounds, and the earliest event
    /// must sit exactly at time zero.
    pub fn new(events: Vec<TempoEvent>) -> (r: Result<TempoMap, DomainError>)
        ensures
            r is Ok <==> {
                &&& events@.len() > 0
                &&& (forall|i: int| 0 <= i < events@.len() ==> events@[i].valid())
                &&& (exists|i: int| 0 <= i < events@.len() && events@[i].time_micros == 0)
            },
            r matches Ok(m) ==> {
                &&& m.wf()
                &&& m@ == stable_sort(events@, time_leq())
                &&& m@.to_multiset() == events@.to_multiset()
                &&& m@.len() == events@.len()
            },
            r matches Err(e) ==> e matches DomainError::Validation(msg) && msg@ == (
            if events@.len() == 0 {
                "tempo map requires at least one event"@
            } else if !(forall|i: int| 0 <= i < events@.len() ==> events@[i].valid()) {
                "tempo map holds an event outside the documented bounds"@
            } else {
                "tempo map must start at time 0"@
            }),
    {
        let ghost orig = events@;
        if events.len() == 0 {
            return Err(DomainError::validation("tempo map requires at least one event"));
        }
        let mut k: usize = 0;
        while k < events.len()
            invariant
                k <= events@.len(),
                events@ == orig,
                forall|i: int| 0 <= i < k ==> events@[i].valid(),
            decreases events@.len() - k,
        {
            let e = events[k];
            if e.bpm_milli < MIN_BPM_MILLI || e.bpm_milli > MAX_BPM_MILLI
                || e.signature.numerator == 0 || !power_of_two_u8(e.signature.denominator) {
                return Err(
                    DomainError::validation("tempo map holds an event outside the documented bounds"),
                );
            }
            k += 1;
        }
        let mut sorted = events;
        sort_events_by_time(&mut sorted);
        proof {
            vstd::seq_lib::to_multiset_len::<TempoEvent>(sorted@);
            vstd::seq_lib::to_multiset_len::<TempoEvent>(orig);
            assert forall|i: int| 0 <= i < sorted@.len() implies sorted@[i].valid() by {
                vstd::seq_lib::to_multiset_contains::<TempoEvent>(sorted@, sorted@[i]);
                vstd::seq_lib::to_multiset_contains::<TempoEvent>(orig, sorted@[i]);
                assert(sorted@.contains(sorted@[i]));
                assert(orig.contains(sorted@[i]));
            }
        }
        if sorted[0].time_micros != 0 {
            proof {
                assert forall|i: int|
                    0 <= i < orig.len() implies orig[i].time_micros != 0 by {
                    vstd::seq_lib::to_multiset_contains::<TempoEvent>(orig, orig[i]);
                    vstd::seq_lib::to_multiset_contains::<TempoEvent>(sorted@, orig[i]);
                    assert(orig.contains(orig[i]));
                    if orig[i].time_micros == 0 {
                        assert(sorted@.contains(orig[i]));
                        let w = choose|w: int|
                            0 <= w < sorted@.len() && sorted@[w] == orig[i];
                        assert(sorted@[0].time_micros <= sorted@[w].time_micros);
                    }
                }
            }
            return Err(DomainError::validation("tempo map must start at time 0"));
        }
        proof {
            let w = choose|w: int| 0 <= w < orig.len() && orig[w] == sorted@[0];
            vstd::seq_lib::to_multiset_contains::<TempoEvent>(orig, sorted@[0]);
            vstd::seq_lib::to_multiset_contains::<TempoEvent>(sorted@, sorted@[0]);
            assert(sorted@.contains(sorted@[0]));
        }
        Ok(TempoMap { events: sorted })
    }

    /// A single-event map at the given tempo, in 4/4.
    pub fn constant(bpm_milli: u32) -> (r: Result<TempoMap, DomainError>)
        ensures
            r is Ok <==> MIN_BPM_MILLI <= bpm_milli <= MAX_BPM_MILLI,
            r matches Ok(m) ==> {
                &&& m.wf()
                &&& m@.len() == 1
                &&& m@[0].time_micros == 0
                &&& m@[0].bpm_milli == bpm_milli
                &&& m@[0].signature == (TimeSignature { numerator: 4, denominator: 4 })
            },
            r is Err ==> (r matches Err(e) && e matches DomainError::Validation(_)),
    {
        let e = TempoEvent::new(0, bpm_milli, (4, 4))?;
        let mut events: Vec<TempoEvent> = Vec::new();
        events.push(e);
        let ghost evs = events@;
        proof {
            assert(evs.len() == 1);
            assert(evs[0] == e);
            assert(forall|i: int| 0 <= i < evs.len() ==> evs[i].valid());
            assert(evs[0].time_micros == 0);
        }
        match TempoMap::new(events) {
            Ok(m) => {
                proof {
                    vstd::seq_lib::to_multiset_contains::<TempoEvent>(m@, m@[0]);
                    vstd::seq_lib::to_multiset_contains::<TempoEvent>(evs, m@[0]);
                    assert(m@.contains(m@[0]));
                    assert(evs.contains(m@[0]));
                    assert(m@[0] == e);
                }
                Ok(m)
            },
            Err(err) => Err(err),
        }
    }

    /// The underlying events, sorted by time.
    pub fn events(&self) -> (r: &Vec<TempoEvent>)
        ensures
            r@ == self@,
    {
        &self.events
    }

    /// Index of the event in force at `time_micros` ("last event wins").
    fn active_index(&self, time_micros: u64) -> (r: usize)
        requires
            self.wf(),
        ensures
            r == cut(self@, time_micros as int),
    {
        let mut idx: usize = 0;
        let mut i: usize = 1;
        while i < self.events.len() && self.events[i].time_micros <= time_micros
            invariant
                self.wf(),
                idx == i - 1,
                1 <= i <= self@.len(),
                self@[idx as int].time_micros <= time_micros,
            decreases self@.len() - i,
        {
            idx = i;
            i += 1;
        }
        proof {
            lemma_cut_characterization(self@, time_micros as int, idx as int);
        }
        idx
    }

    /// The tempo (milli-BPM) in force at the given instant.
    pub fn bpm_at(&self, time_micros: u64) -> (r: u32)
        requires
            self.wf(),
        ensures
            r == spec_bpm_at(self@, time_micros as int),
            MIN_BPM_MILLI <= r <= MAX_BPM_MILLI,
    {
        let i = self.active_index(time_micros);
        proof {
            lemma_cut_properties(self@, time_micros as int);
        }
        self.events[i].bpm_milli
    }

    /// The time signature in force at the given instant.
    pub fn time_signature_at(&self, time_micros: u64) -> (r: TimeSignature)
        requires
            self.wf(),
        ensures
            r == active_event(self@, time_micros as int).signature,
    {
        let i = self.active_index(time_micros);
        proof {
            lemma_cut_properties(self@, time_micros as int);
        }
        self.events[i].signature
    }

    /// The beat position (micro-beats) reached at the given instant: the
    /// integral of the tempo over the elapsed segments.
    pub fn beat_at_time(&self, time_micros: u64) -> (b: u64)
        requires
            self.wf(),
            time_micros <= MAX_TIME_MICROS,
        ensures
            b == spec_beat_at_time(self@, time_micros as int),
            b <= 7 * time_micros,
    {
        let ghost s = self@;
        let t = time_micros;
        let mut prev_time: u64 = 0;
        let mut accum: u64 = 0;
        let mut cur: usize = 0;
        let mut i: usize = 1;
        proof {
            assert(beats_of_segments(s, 0) == 0);
        }
        while i < self.events.len() && self.events[i].time_micros <= t
            invariant
                self.wf(),
                s == self@,
                time_micros <= MAX_TIME_MICROS,
                t == time_micros,
                cur == i - 1,
                1 <= i <= s.len(),
                prev_time == s[cur as int].time_micros,
                prev_time <= t,
                accum == beats_of_segments(s, cur as int),
                accum <= 7 * prev_time,
            decreases s.len() - i,
        {
            let seg = segment_to_microbeats(
                self.events[i].time_micros - prev_time,
                self.events[cur].bpm_milli,
            );
            proof {
                lemma_segment_bound(
                    s[i as int].time_micros - prev_time,
                    s[cur as int].bpm_milli as int,
                );
            }
            accum = accum + seg;
            prev_time = self.events[i].time_micros;
            cur = i;
            i += 1;
        }
        proof {
            lemma_cut_characterization(s, t as int, cur as int);
            lemma_segment_bound(t - prev_time, s[cur as int].bpm_milli as int);
        }
        accum + segment_to_microbeats(t - prev_time, self.events[cur].bpm_milli)
    }

    /// Microseconds between two beat positions, accumulated in one-beat steps
    /// priced at the tempo in force at each step's start. Zero when
    /// `end_beat <= start_beat`.
    pub fn duration_between_beats(&self, start_beat: u64, end_beat: u64) -> (d: u64)
        requires
            self.wf(),
            end_beat <= MAX_BEAT_MICROS,
        ensures
            d == spec_duration_from(self@, start_beat as int, end_beat as int, 0),
    {
        let ghost s = self@;
        let mut cursor = start_beat;
        let mut acc: u64 = 0;
        while cursor < end_beat
            invariant
                self.wf(),
                s == self@,
                end_beat <= MAX_BEAT_MICROS,
                start_beat <= cursor,
                cursor <= end_beat || (cursor == start_beat && acc == 0),
                acc <= 6 * (cursor - start_beat),
                spec_duration_from(s, start_beat as int, end_beat as int, 0)
                    == spec_duration_from(s, cursor as int, end_beat as int, acc as int),
            decreases end_beat - cursor,
        {
            let rem = end_beat - cursor;
            let step: u64 = if rem < 1_000_000 {
                rem
            } else {
                1_000_000
            };
            let bpm = self.bpm_at(acc);
            proof {
                assert(step * 60_000 <= 1_000_000 * 60_000) by {
                    vstd::arithmetic::mul::lemma_mul_inequality(step as int, 1_000_000, 60_000);
                }
                vstd::arithmetic::div_mod::lemma_div_is_ordered_by_denominator(
                    (step * 60_000) as int,
                    10_000,
                    bpm as int,
                );
                assert((step * 60_000) as int / 10_000int == 6 * step) by {
                    assert(step * 60_000 == (6 * step) * 10_000) by {
                        vstd::arithmetic::mul::lemma_mul_is_associative(6, step as int, 10_000);
                    }
                    vstd::arithmetic::div_mod::lemma_div_by_multiple(6 * step, 10_000);
                }
                vstd::arithmetic::div_mod::lemma_div_pos_is_pos(
                    (step * 60_000) as int,
                    bpm as int,
                );
            }
            let step_us = step * 60_000 / (bpm as u64);
            acc = acc + step_us;
            cursor = cursor + step;
        }
        acc
    }
}

/// Micro-beats covered by `dur` microseconds at `bpm` milli-BPM; the widened
/// product avoids any overflow.
pub(crate) fn segment_to_microbeats(dur: u64, bpm: u32) -> (r: u64)
    requires
        dur <= MAX_TIME_MICROS,
        bpm <= MAX_BPM_MILLI,
    ensures
        r == segment_microbeats(dur as int, bpm as int),
        r <= 7 * dur,
{
    proof {
        lemma_segment_bound(dur as int, if bpm == 0 { 1 } else { bpm as int });
        if bpm == 0 {
            vstd::arithmetic::mul::lemma_mul_by_zero_is_zero(dur as int);
        }
    }
    (((dur as u128) * (bpm as u128)) / 60_000) as u64
}

} // verus!
