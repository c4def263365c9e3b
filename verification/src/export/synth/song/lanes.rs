//! The points of automation lanes. Values are integers in a unit of each lane's own.

use crate::analysis::frame::{NoteEvent, ProgramFrame};
use crate::analysis::program::VoiceId;
use super::automation::{
    envelope_end, envelope_spans, find_envelope_end, keeps_volume_lane, moving_volumes,
    sampled_spans, volume_at, volume_moves, MAX_VOLUME_LANE_POINTS,
};
use super::decimation::{
    as_places, furthest, kept_between, kept_samples, kept_samples_restore_the_series, line_restores,
    lines_restore, moderate, must_split, rdp_indices, MAX_SAMPLE,
};
use super::super::notes::{ticks, to_ticks};
use super::super::ownership::{timeline_fits, PhysicalVoiceOwnership};
use super::super::tracks::{SynthNote, TrackPlan};
use vstd::prelude::*;

verus! {

/// What a lane follows frame by frame.
#[derive(Debug, Clone, Copy, PartialEq, Eq, Structural)]
pub enum Sampled {
    /// The pulse width of a voice, in hundredths.
    PulseWidth,
    /// The frequency of the voice that rings or syncs another.
    SourceFrequency,
    /// The level that an envelope ends a frame with, in hundredths.
    EnvelopeLevel,
    /// The volume of the chip, in hundredths.
    Volume,
}

/// What a lane follows at a frame; nothing behind the end of the trace.
pub open spec fn sample_at(kind: Sampled, states: Seq<ProgramFrame>, v: int, f: int) -> i64 {
    if 0 <= f < states.len() {
        match kind {
            Sampled::PulseWidth => (100 * states[f].voices@[v].pulse_width) as i64,
            Sampled::SourceFrequency => states[f].voices@[(v + 2) % 3].freq as i64,
            Sampled::EnvelopeLevel => (100 * states[f].digital_voices@[v].end_level) as i64,
            Sampled::Volume => (100 * states[f].volume) as i64,
        }
    } else {
        0
    }
}

/// How far a lane may be off what it follows: a hundredth of its range, but exactly
/// one step for a frequency.
pub open spec fn tolerance(kind: Sampled) -> i64 {
    match kind {
        Sampled::PulseWidth => 4095,
        Sampled::SourceFrequency => 1,
        Sampled::EnvelopeLevel => 255,
        Sampled::Volume => 15,
    }
}

/// How far a lane may be off what it follows.
pub fn lane_tolerance(kind: Sampled) -> (r: i64)
    ensures
        r == tolerance(kind),
{
    match kind {
        Sampled::PulseWidth => 4095,
        Sampled::SourceFrequency => 1,
        Sampled::EnvelopeLevel => 255,
        Sampled::Volume => 15,
    }
}

/// What a lane follows over some frames.
pub open spec fn samples(
    kind: Sampled,
    states: Seq<ProgramFrame>,
    v: int,
    start: u32,
    end: u32,
) -> Seq<i64> {
    Seq::new((end - start) as nat, |i: int| sample_at(kind, states, v, start + i))
}

/// Samples what a lane follows over some frames.
pub fn sample_frames(
    kind: Sampled,
    states: &[ProgramFrame],
    voice: VoiceId,
    start: u32,
    end: u32,
) -> (r: Vec<i64>)
    requires
        voice.valid(),
        start <= end,
    ensures
        r@ == samples(kind, states@, voice.0 - 1, start, end),
        moderate(r@),
{
    let v: usize = voice.to_index();
    let mut out: Vec<i64> = Vec::new();
    let mut f: u32 = start;
    while f < end
        invariant
            start <= f <= end,
            voice.valid(),
            v == voice.0 - 1,
            out@.len() == f - start,
            forall|i: int|
                0 <= i < out@.len() ==> #[trigger] out@[i] == sample_at(
                    kind,
                    states@,
                    v as int,
                    start + i,
                ) && 0 <= out@[i] <= 6_553_500,
        decreases end - f,
    {
        let value: i64 = if (f as usize) < states.len() {
            let s: &ProgramFrame = &states[f as usize];
            match kind {
                Sampled::PulseWidth => 100 * s.voices[v].pulse_width as i64,
                Sampled::SourceFrequency => s.voices[(v + 2) % 3].freq as i64,
                Sampled::EnvelopeLevel => 100 * s.digital_voices[v].end_level as i64,
                Sampled::Volume => 100 * s.volume as i64,
            }
        } else {
            0
        };
        out.push(value);
        f += 1;
    }
    assert(out@ =~= samples(kind, states@, voice.0 - 1, start, end));
    out
}

/// A point of a lane.
#[derive(Debug, Clone, Copy, PartialEq, Eq)]
pub struct LanePoint {
    pub tick: u32,
    pub value: i64,
    /// The samples between which a curve leads on to the next point; without one the
    /// value is held.
    pub curve: Option<(usize, usize)>,
}

/// Samples of a lane from a frame on.
#[derive(Debug)]
pub struct LaneSpan {
    pub start: u32,
    pub values: Vec<i64>,
    /// Of each kept sample, whether one curve reaches the second kept sample after it,
    /// the third, and so on. What is not told does not fit.
    pub fits: Vec<Vec<bool>>,
}

/// The first place from `d` on, below `most`, at which a row does not hold.
pub open spec fn holds_until(row: Seq<bool>, most: int, d: int) -> int
    decreases most - d,
{
    if d >= most || d >= row.len() || !row[d] {
        d
    } else {
        holds_until(row, most, d + 1)
    }
}

/// What is told of a kept sample.
pub open spec fn row_of(fits: Seq<Vec<bool>>, i: int) -> Seq<bool> {
    if 0 <= i < fits.len() {
        fits[i]@
    } else {
        Seq::empty()
    }
}

/// The kept sample at which the curve from the `i`-th of `n` ends: the next one, or a
/// later one if all curves up to it fit.
pub open spec fn curve_end(fits: Seq<Vec<bool>>, n: int, i: int) -> int {
    let most = n - (i + 2);
    if most <= 0 {
        i + 1
    } else {
        i + 1 + holds_until(row_of(fits, i), most, 0)
    }
}

proof fn held_is_bounded(row: Seq<bool>, most: int, d: int)
    requires
        0 <= d <= most,
    ensures
        d <= holds_until(row, most, d) <= most,
    decreases most - d,
{
    if !(d >= most || d >= row.len() || !row[d]) {
        held_is_bounded(row, most, d + 1);
    }
}

proof fn curve_end_is_later(fits: Seq<Vec<bool>>, n: int, i: int)
    requires
        0 <= i < n - 1,
    ensures
        i < curve_end(fits, n, i) < n,
{
    if n - (i + 2) > 0 {
        held_is_bounded(row_of(fits, i), n - (i + 2), 0);
    }
}

fn find_curve_end(fits: &Vec<Vec<bool>>, n: usize, i: usize) -> (r: usize)
    requires
        i + 1 < n,
    ensures
        r == curve_end(fits@, n as int, i as int),
        i < r < n,
{
    let most: usize = n - i - 2;
    let mut d: usize = 0;
    if i < fits.len() {
        let ghost row = row_of(fits@, i as int);
        while d < most && d < fits[i].len() && fits[i][d]
            invariant
                i < fits@.len(),
                row == fits@[i as int]@,
                d <= most,
                most + i + 2 == n,
                holds_until(row, most as int, 0) == holds_until(row, most as int, d as int),
            decreases most - d,
        {
            d += 1;
        }
    }
    proof {
        held_is_bounded(row_of(fits@, i as int), most as int, 0);
    }
    i + 1 + d
}

/// A point at a sample of a span.
pub open spec fn point_at(
    start: u32,
    values: Seq<i64>,
    place: int,
    curve: Option<(usize, usize)>,
    tpr: u32,
) -> LanePoint {
    LanePoint { tick: ticks(start + place, tpr as int), value: values[place], curve }
}

/// The points of a span from its `i`-th kept sample on.
pub open spec fn points_from(
    start: u32,
    values: Seq<i64>,
    fits: Seq<Vec<bool>>,
    places: Seq<int>,
    tpr: u32,
    i: int,
) -> Seq<LanePoint>
    decreases places.len() - i,
{
    if i < 0 || i >= places.len() {
        Seq::empty()
    } else if i + 1 >= places.len() {
        seq![point_at(start, values, places[i], None, tpr)]
    } else {
        let next = curve_end(fits, places.len() as int, i);
        if i < next < places.len() {
            seq![
                point_at(
                    start,
                    values,
                    places[i],
                    Some((places[i] as usize, places[next] as usize)),
                    tpr,
                ),
            ] + points_from(start, values, fits, places, tpr, next)
        } else {
            Seq::empty()
        }
    }
}

/// The points of a span: of the samples that lines need, those that curves need too.
pub open spec fn span_points(
    start: u32,
    values: Seq<i64>,
    fits: Seq<Vec<bool>>,
    epsilon: i64,
    tpr: u32,
) -> Seq<LanePoint> {
    points_from(start, values, fits, kept_samples(values, epsilon), tpr, 0)
}

proof fn kept_between_are_inside(values: Seq<i64>, epsilon: i64, lo: int, hi: int)
    ensures
        forall|k: int|
            0 <= k < kept_between(values, epsilon, lo, hi).len() ==> lo < #[trigger] kept_between(
                values,
                epsilon,
                lo,
                hi,
            )[k] < hi,
    decreases hi - lo,
{
    if epsilon >= 0 && must_split(values, epsilon, lo, hi) {
        let s = furthest(values, lo, hi, hi);
        if lo < s < hi {
            kept_between_are_inside(values, epsilon, lo, s);
            kept_between_are_inside(values, epsilon, s, hi);
            let left = kept_between(values, epsilon, lo, s);
            let right = kept_between(values, epsilon, s, hi);
            let all = kept_between(values, epsilon, lo, hi);
            assert(all == left.push(s) + right);
            assert forall|k: int| 0 <= k < all.len() implies lo < #[trigger] all[k] < hi by {
                if k < left.len() {
                    assert(all[k] == left[k]);
                } else if k > left.len() {
                    assert(all[k] == right[k - left.len() - 1]);
                }
            }
        }
    }
}

proof fn kept_are_inside(values: Seq<i64>, epsilon: i64)
    ensures
        forall|k: int|
            0 <= k < kept_samples(values, epsilon).len() ==> 0 <= #[trigger] kept_samples(
                values,
                epsilon,
            )[k] < values.len(),
{
    let n = values.len() as int;
    if n > 2 {
        kept_between_are_inside(values, epsilon, 0, n - 1);
        let inner = kept_between(values, epsilon, 0, n - 1);
        let all = kept_samples(values, epsilon);
        assert forall|k: int| 0 <= k < all.len() implies 0 <= #[trigger] all[k] < n by {
            if 0 < k < all.len() - 1 {
                assert(all[k] == inner[k - 1]);
            }
        }
    }
}

/// Whether the ticks of a span can be counted, and its values are within bounds.
pub open spec fn span_fits(start: u32, values: Seq<i64>) -> bool {
    moderate(values) && start + values.len() <= u32::MAX
}

/// Appends the points of a span to a lane.
fn push_span_points(
    out: &mut Vec<LanePoint>,
    start: u32,
    values: &[i64],
    fits: &Vec<Vec<bool>>,
    epsilon: i64,
    tpr: u32,
)
    requires
        span_fits(start, values@),
        0 <= epsilon <= MAX_SAMPLE,
    ensures
        final(out)@ == old(out)@ + span_points(start, values@, fits@, epsilon, tpr),
{
    let places: Vec<usize> = rdp_indices(values, epsilon);
    let ghost kept = kept_samples(values@, epsilon);
    proof {
        assert(as_places(places@) == kept);
        assert(kept.len() == places@.len());
        kept_are_inside(values@, epsilon);
    }
    let n: usize = places.len();
    let ghost all = span_points(start, values@, fits@, epsilon, tpr);
    let ghost before = out@;
    let mut i: usize = 0;
    assert(before + Seq::<LanePoint>::empty() =~= before);
    while i < n
        invariant
            i <= n == places@.len(),
            span_fits(start, values@),
            kept == as_places(places@),
            kept.len() == n,
            forall|j: int| 0 <= j < n ==> 0 <= #[trigger] kept[j] < values@.len(),
            before + all == out@ + points_from(start, values@, fits@, kept, tpr, i as int),
        decreases n - i,
    {
        let a: usize = places[i];
        assert(kept[i as int] == a);
        let tick: u32 = to_ticks(start + a as u32, tpr);
        let ghost done = out@;
        if i + 1 == n {
            let p: LanePoint = LanePoint { tick, value: values[a], curve: None };
            out.push(p);
            proof {
                assert(points_from(start, values@, fits@, kept, tpr, i as int) =~= seq![p]);
                assert(points_from(start, values@, fits@, kept, tpr, n as int) =~= Seq::<
                    LanePoint,
                >::empty());
                assert(out@ + points_from(start, values@, fits@, kept, tpr, n as int) =~= done
                    + points_from(start, values@, fits@, kept, tpr, i as int));
            }
            i = n;
        } else {
            let next: usize = find_curve_end(fits, n, i);
            assert(kept[next as int] == places@[next as int]);
            let p: LanePoint = LanePoint { tick, value: values[a], curve: Some((a, places[next])) };
            out.push(p);
            proof {
                assert(points_from(start, values@, fits@, kept, tpr, i as int) == seq![p]
                    + points_from(start, values@, fits@, kept, tpr, next as int));
                assert(out@ + points_from(start, values@, fits@, kept, tpr, next as int) =~= done
                    + points_from(start, values@, fits@, kept, tpr, i as int));
            }
            i = next;
        }
    }
    assert(points_from(start, values@, fits@, kept, tpr, i as int) =~= Seq::<LanePoint>::empty());
    assert(out@ =~= before + all);
}

/// The points of the first `k` spans of a lane.
pub open spec fn lane_points(spans: Seq<LaneSpan>, epsilon: i64, tpr: u32, k: int) -> Seq<LanePoint>
    decreases k,
{
    if k <= 0 {
        Seq::empty()
    } else {
        let s = spans[k - 1];
        lane_points(spans, epsilon, tpr, k - 1) + span_points(
            s.start,
            s.values@,
            s.fits@,
            epsilon,
            tpr,
        )
    }
}

/// Whether a sample is further from the first one of a lane than `epsilon`.
pub open spec fn strays(spans: Seq<LaneSpan>, epsilon: i64, s: int, i: int) -> bool {
    let d = spans[s].values@[i] - spans[0].values@[0];
    d > epsilon || -d > epsilon
}

/// Whether a lane moves at all.
pub open spec fn lane_moves(spans: Seq<LaneSpan>, epsilon: i64) -> bool {
    exists|s: int, i: int|
        0 <= s < spans.len() && 0 <= i < spans[s].values@.len() && #[trigger] strays(
            spans,
            epsilon,
            s,
            i,
        )
}

/// Whether every span of a lane has samples that can be lined up.
pub open spec fn spans_fit(spans: Seq<LaneSpan>) -> bool {
    forall|s: int|
        0 <= s < spans.len() ==> (#[trigger] spans[s]).values@.len() > 0 && span_fits(
            spans[s].start,
            spans[s].values@,
        )
}

fn span_strays(spans: &[LaneSpan], epsilon: i64, s: usize) -> (r: bool)
    requires
        spans_fit(spans@),
        s < spans@.len(),
        0 <= epsilon <= MAX_SAMPLE,
    ensures
        r == exists|i: int|
            0 <= i < spans@[s as int].values@.len() && #[trigger] strays(
                spans@,
                epsilon,
                s as int,
                i,
            ),
{
    assert(spans@[0].values@.len() > 0);
    assert(-MAX_SAMPLE <= spans@[0].values@[0] <= MAX_SAMPLE);
    let base: i64 = spans[0].values[0];
    let mut i: usize = 0;
    while i < spans[s].values.len()
        invariant
            spans_fit(spans@),
            s < spans@.len(),
            i <= spans@[s as int].values@.len(),
            base == spans@[0].values@[0],
            -MAX_SAMPLE <= base <= MAX_SAMPLE,
            forall|j: int| 0 <= j < i ==> !#[trigger] strays(spans@, epsilon, s as int, j),
        decreases spans@[s as int].values@.len() - i,
    {
        assert(span_fits(spans@[s as int].start, spans@[s as int].values@));
        assert(-MAX_SAMPLE <= spans@[s as int].values@[i as int] <= MAX_SAMPLE);
        let d: i64 = spans[s].values[i] - base;
        if d > epsilon || -d > epsilon {
            assert(strays(spans@, epsilon, s as int, i as int));
            return true;
        }
        i += 1;
    }
    false
}

/// Puts a lane together, unless it does not move by more than `epsilon`.
pub fn build_param_lane(spans: &[LaneSpan], epsilon: i64, tpr: u32) -> (r: Option<Vec<LanePoint>>)
    requires
        spans_fit(spans@),
        0 <= epsilon <= MAX_SAMPLE,
    ensures
        match r {
            Some(points) => points@ == lane_points(spans@, epsilon, tpr, spans@.len() as int)
                && points@.len() >= 2 && lane_moves(spans@, epsilon),
            None => !lane_moves(spans@, epsilon) || lane_points(
                spans@,
                epsilon,
                tpr,
                spans@.len() as int,
            ).len() < 2,
        },
{
    let mut points: Vec<LanePoint> = Vec::new();
    let mut moved: bool = false;
    let mut k: usize = 0;
    while k < spans.len()
        invariant
            k <= spans@.len(),
            spans_fit(spans@),
            0 <= epsilon <= MAX_SAMPLE,
            points@ == lane_points(spans@, epsilon, tpr, k as int),
            moved == exists|s: int, i: int|
                0 <= s < k && 0 <= i < spans@[s].values@.len() && #[trigger] strays(
                    spans@,
                    epsilon,
                    s,
                    i,
                ),
        decreases spans@.len() - k,
    {
        assert(span_fits(spans@[k as int].start, spans@[k as int].values@));
        let here: bool = span_strays(spans, epsilon, k);
        push_span_points(
            &mut points,
            spans[k].start,
            spans[k].values.as_slice(),
            &spans[k].fits,
            epsilon,
            tpr,
        );
        if here {
            moved = true;
        }
        k += 1;
    }
    if moved && points.len() >= 2 {
        Some(points)
    } else {
        None
    }
}

/// A point that ends a span.
pub open spec fn closing_point(frame: int, value: i64, tpr: u32) -> LanePoint {
    LanePoint { tick: ticks(frame, tpr as int), value, curve: None }
}

/// What is told of the curves of a span.
pub open spec fn fits_of(fits: Seq<Vec<Vec<bool>>>, k: int) -> Seq<Vec<bool>> {
    if 0 <= k < fits.len() {
        fits[k]@
    } else {
        Seq::empty()
    }
}

/// The points of the first `k` spans of a lane that follows the envelope of a voice
/// and is silent after each of them.
pub open spec fn envelope_points(
    spans: Seq<(u32, u32)>,
    states: Seq<ProgramFrame>,
    v: int,
    fits: Seq<Vec<Vec<bool>>>,
    tpr: u32,
    k: int,
) -> Seq<LanePoint>
    decreases k,
{
    if k <= 0 {
        Seq::empty()
    } else {
        let (start, end) = spans[k - 1];
        (envelope_points(spans, states, v, fits, tpr, k - 1) + span_points(
            start,
            samples(Sampled::EnvelopeLevel, states, v, start, end),
            fits_of(fits, k - 1),
            255,
            tpr,
        )).push(closing_point(end as int, 0, tpr))
    }
}

/// Whether spans are not empty.
pub open spec fn are_ranges(spans: Seq<(u32, u32)>) -> bool {
    forall|i: int| 0 <= i < spans.len() ==> (#[trigger] spans[i]).0 < spans[i].1
}

proof fn sampled_spans_are_ranges(
    timeline: Seq<(usize, usize)>,
    notes: Seq<SynthNote>,
    own: PhysicalVoiceOwnership,
    frames: u32,
    frame_count: u32,
    k: int,
)
    ensures
        are_ranges(sampled_spans(timeline, notes, own, frames, frame_count, k)),
    decreases k,
{
    if k > 0 {
        sampled_spans_are_ranges(timeline, notes, own, frames, frame_count, k - 1);
    }
}

/// Puts the lane together that plays the measured envelopes of a track. `fits` tells
/// of each span which curves fit.
pub fn build_envelope_lane(
    plan: &TrackPlan,
    notes: &[SynthNote],
    own: &PhysicalVoiceOwnership,
    states: &[ProgramFrame],
    frame_count: u32,
    fits: &[Vec<Vec<bool>>],
    tpr: u32,
) -> (r: Option<Vec<LanePoint>>)
    requires
        own.wf(),
        plan.voice.valid(),
        timeline_fits(plan.timeline@, notes@),
        states@.len() <= u32::MAX,
    ensures
        ({
            let spans = sampled_spans(
                plan.timeline@,
                notes@,
                *own,
                states@.len() as u32,
                frame_count,
                plan.timeline@.len() as int,
            );
            match r {
                Some(points) => spans.len() > 0 && points@ == envelope_points(
                    spans,
                    states@,
                    plan.voice.0 - 1,
                    fits@,
                    tpr,
                    spans.len() as int,
                ),
                None => spans.len() == 0,
            }
        }),
{
    let spans: Vec<(u32, u32)> = envelope_spans(plan, notes, own, states.len() as u32, frame_count);
    proof {
        sampled_spans_are_ranges(
            plan.timeline@,
            notes@,
            *own,
            states@.len() as u32,
            frame_count,
            plan.timeline@.len() as int,
        );
    }
    let untold: Vec<Vec<bool>> = Vec::new();
    assert(untold@ =~= Seq::<Vec<bool>>::empty());
    let mut points: Vec<LanePoint> = Vec::new();
    let mut k: usize = 0;
    while k < spans.len()
        invariant
            k <= spans@.len(),
            plan.voice.valid(),
            untold@ == Seq::<Vec<bool>>::empty(),
            are_ranges(spans@),
            points@ == envelope_points(
                spans@,
                states@,
                plan.voice.0 - 1,
                fits@,
                tpr,
                k as int,
            ),
        decreases spans@.len() - k,
    {
        let (start, end) = spans[k];
        assert(spans@[k as int].0 < spans@[k as int].1);
        let values: Vec<i64> = sample_frames(
            Sampled::EnvelopeLevel,
            states,
            plan.voice,
            start,
            end,
        );
        let told: &Vec<Vec<bool>> = if k < fits.len() {
            &fits[k]
        } else {
            &untold
        };
        assert(told@ == fits_of(fits@, k as int));
        push_span_points(&mut points, start, values.as_slice(), told, 255, tpr);
        points.push(LanePoint { tick: to_ticks(end, tpr), value: 0, curve: None });
        k += 1;
    }
    if spans.len() > 0 {
        Some(points)
    } else {
        None
    }
}

/// The points of a lane that follows the volume of the chip.
pub open spec fn volume_points(
    states: Seq<ProgramFrame>,
    frame_count: u32,
    fits: Seq<Vec<bool>>,
    tpr: u32,
) -> Seq<LanePoint> {
    span_points(0, samples(Sampled::Volume, states, 0, 0, frame_count), fits, 15, tpr)
}

/// The lane that follows the volume of the chip: none if the volume does not move, or
/// moves so often that it plays samples.
pub open spec fn volume_lane(
    states: Seq<ProgramFrame>,
    frame_count: u32,
    fits: Seq<Vec<bool>>,
    tpr: u32,
) -> Option<Seq<LanePoint>> {
    let points = volume_points(states, frame_count, fits, tpr);
    if volume_moves(states, frame_count) && 2 <= points.len() <= MAX_VOLUME_LANE_POINTS {
        Some(points)
    } else {
        None
    }
}

/// Whether the lane that follows the volume of the chip is dropped because it needs
/// more points than one that shapes the mix.
pub open spec fn volume_lane_dropped(
    states: Seq<ProgramFrame>,
    frame_count: u32,
    fits: Seq<Vec<bool>>,
    tpr: u32,
) -> bool {
    volume_moves(states, frame_count) && volume_points(states, frame_count, fits, tpr).len()
        > MAX_VOLUME_LANE_POINTS
}

/// A volume that moves has a lane unless it is dropped for its points, and a dropped
/// lane is not there.
pub proof fn moving_volumes_are_kept_or_dropped(
    states: Seq<ProgramFrame>,
    frame_count: u32,
    fits: Seq<Vec<bool>>,
    tpr: u32,
)
    ensures
        volume_lane_dropped(states, frame_count, fits, tpr) <==> volume_moves(states, frame_count)
            && volume_lane(states, frame_count, fits, tpr) is None,
{
    if volume_moves(states, frame_count) {
        let values = samples(Sampled::Volume, states, 0, 0, frame_count);
        let places = kept_samples(values, 15);
        let f = choose|f: int|
            0 <= f < frame_count && #[trigger] volume_at(states, f) != volume_at(states, 0);
        assert(f != 0);
        assert(places.len() >= 2);
        let next = curve_end(fits, places.len() as int, 0);
        curve_end_is_later(fits, places.len() as int, 0);
        let rest = points_from(0, values, fits, places, tpr, next);
        if next + 1 < places.len() {
            curve_end_is_later(fits, places.len() as int, next);
        }
        assert(rest.len() >= 1);
    }
}

fn moving_volume_points(
    states: &[ProgramFrame],
    frame_count: u32,
    fits: &Vec<Vec<bool>>,
    tpr: u32,
) -> (r: Option<Vec<LanePoint>>)
    ensures
        match r {
            Some(p) => volume_moves(states@, frame_count) && p@ == volume_points(
                states@,
                frame_count,
                fits@,
                tpr,
            ),
            None => !volume_moves(states@, frame_count),
        },
{
    match moving_volumes(states, frame_count) {
        None => None,
        Some(_) => {
            let values: Vec<i64> = sample_frames(
                Sampled::Volume,
                states,
                VoiceId(1),
                0,
                frame_count,
            );
            let mut points: Vec<LanePoint> = Vec::new();
            push_span_points(&mut points, 0, values.as_slice(), fits, 15, tpr);
            assert(points@ =~= volume_points(states@, frame_count, fits@, tpr));
            Some(points)
        },
    }
}

/// Puts the lane together that follows the volume of the chip, unless it does not
/// move or moves so often that it plays samples.
pub fn build_master_volume_lane(
    states: &[ProgramFrame],
    frame_count: u32,
    fits: &Vec<Vec<bool>>,
    tpr: u32,
) -> (r: Option<Vec<LanePoint>>)
    ensures
        match r {
            Some(p) => volume_lane(states@, frame_count, fits@, tpr) == Some(p@),
            None => volume_lane(states@, frame_count, fits@, tpr) is None,
        },
{
    match moving_volume_points(states, frame_count, fits, tpr) {
        Some(points) => if keeps_volume_lane(points.len()) {
            Some(points)
        } else {
            None
        },
        None => None,
    }
}

/// Tells whether the lane that follows the volume of the chip is dropped because it
/// needs more points than one that shapes the mix.
pub fn drops_volume_lane(
    states: &[ProgramFrame],
    frame_count: u32,
    fits: &Vec<Vec<bool>>,
    tpr: u32,
) -> (r: bool)
    ensures
        r == volume_lane_dropped(states@, frame_count, fits@, tpr),
{
    match moving_volume_points(states, frame_count, fits, tpr) {
        Some(points) => points.len() > MAX_VOLUME_LANE_POINTS,
        None => false,
    }
}

/// The notes among the first `k` entries of a timeline whose vibrato sets in late.
pub open spec fn late_notes(timeline: Seq<(usize, usize)>, late: Seq<bool>, k: int) -> Seq<usize>
    decreases k,
{
    if k <= 0 {
        Seq::empty()
    } else if late[k - 1] {
        late_notes(timeline, late, k - 1).push(timeline[k - 1].1)
    } else {
        late_notes(timeline, late, k - 1)
    }
}

/// The frames over which a note bends the pitch of its track, and whether the pitch
/// is centred behind them: it is not where the next such note follows at once.
pub open spec fn bend_of(
    bent: Seq<usize>,
    notes: Seq<SynthNote>,
    own: PhysicalVoiceOwnership,
    frames: u32,
    frame_count: u32,
    i: int,
) -> (u32, u32, bool) {
    let event = notes[bent[i] as int].event;
    let end = envelope_end(event, own, frames, frame_count);
    (
        event.start_frame,
        end,
        i + 1 >= bent.len() || notes[bent[i + 1] as int].event.start_frame != end,
    )
}

/// The spans over which the first `k` of some notes bend the pitch of their track.
pub open spec fn bends(
    bent: Seq<usize>,
    notes: Seq<SynthNote>,
    own: PhysicalVoiceOwnership,
    frames: u32,
    frame_count: u32,
    k: int,
) -> Seq<(u32, u32, bool)>
    decreases k,
{
    if k <= 0 {
        Seq::empty()
    } else {
        let before = bends(bent, notes, own, frames, frame_count, k - 1);
        let b = bend_of(bent, notes, own, frames, frame_count, k - 1);
        if b.1 > b.0 {
            before.push(b)
        } else {
            before
        }
    }
}

/// The spans over which the pitch of a track is bent by vibrato that sets in late.
pub open spec fn track_bends(
    timeline: Seq<(usize, usize)>,
    notes: Seq<SynthNote>,
    own: PhysicalVoiceOwnership,
    late: Seq<bool>,
    frames: u32,
    frame_count: u32,
) -> Seq<(u32, u32, bool)> {
    let bent = late_notes(timeline, late, timeline.len() as int);
    bends(bent, notes, own, frames, frame_count, bent.len() as int)
}

fn find_late_notes(plan: &TrackPlan, late: &[bool]) -> (r: Vec<usize>)
    requires
        late@.len() == plan.timeline@.len(),
    ensures
        r@ == late_notes(plan.timeline@, late@, plan.timeline@.len() as int),
{
    let mut out: Vec<usize> = Vec::new();
    let mut k: usize = 0;
    while k < plan.timeline.len()
        invariant
            k <= plan.timeline@.len() == late@.len(),
            out@ == late_notes(plan.timeline@, late@, k as int),
        decreases plan.timeline@.len() - k,
    {
        if late[k] {
            out.push(plan.timeline[k].1);
        }
        k += 1;
    }
    out
}

/// Whether a note is one of a list, with a voice of the chip.
pub open spec fn valid_place(i: usize, notes: Seq<SynthNote>) -> bool {
    i < notes.len() && notes[i as int].event.voice.valid()
}

/// Whether notes are among those of a list, with voices of the chip.
pub open spec fn valid_places(list: Seq<usize>, notes: Seq<SynthNote>) -> bool {
    forall|i: int| 0 <= i < list.len() ==> #[trigger] valid_place(list[i], notes)
}

proof fn late_notes_are_valid(
    timeline: Seq<(usize, usize)>,
    notes: Seq<SynthNote>,
    late: Seq<bool>,
    k: int,
)
    requires
        timeline_fits(timeline, notes),
        k <= timeline.len(),
    ensures
        valid_places(late_notes(timeline, late, k), notes),
    decreases k,
{
    if k > 0 {
        late_notes_are_valid(timeline, notes, late, k - 1);
        assert(valid_place(timeline[k - 1].1, notes));
    }
}

/// Finds the spans over which the pitch of a track is bent by vibrato that sets in
/// late, and behind which of them it is centred.
pub fn pitch_spans(
    plan: &TrackPlan,
    notes: &[SynthNote],
    own: &PhysicalVoiceOwnership,
    late: &[bool],
    frames: u32,
    frame_count: u32,
) -> (r: Vec<(u32, u32, bool)>)
    requires
        own.wf(),
        timeline_fits(plan.timeline@, notes@),
        late@.len() == plan.timeline@.len(),
    ensures
        r@ == track_bends(plan.timeline@, notes@, *own, late@, frames, frame_count),
{
    let bent: Vec<usize> = find_late_notes(plan, late);
    proof {
        late_notes_are_valid(plan.timeline@, notes@, late@, plan.timeline@.len() as int);
    }
    let mut out: Vec<(u32, u32, bool)> = Vec::new();
    let mut k: usize = 0;
    while k < bent.len()
        invariant
            k <= bent@.len(),
            own.wf(),
            valid_places(bent@, notes@),
            out@ == bends(bent@, notes@, *own, frames, frame_count, k as int),
        decreases bent@.len() - k,
    {
        assert(valid_place(bent@[k as int], notes@));
        let event: &NoteEvent = &notes[bent[k]].event;
        let end: u32 = find_envelope_end(event, own, frames, frame_count);
        let start: u32 = event.start_frame;
        let closes: bool = if k + 1 < bent.len() {
            assert(valid_place(bent@[k + 1], notes@));
            notes[bent[k + 1]].event.start_frame != end
        } else {
            true
        };
        if end > start {
            out.push((start, end, closes));
        }
        k += 1;
    }
    out
}

/// The middle of the range of a track's pitch, in millionths.
pub const PITCH_CENTRE: i64 = 500_000;

/// How far a lane of a track's pitch may be off, in millionths.
pub const PITCH_TOLERANCE: i64 = 100;

/// The points of the first `k` spans of a lane that bends the pitch of a track.
pub open spec fn bend_points(
    spans: Seq<(u32, u32, bool)>,
    values: Seq<LaneSpan>,
    tpr: u32,
    k: int,
) -> Seq<LanePoint>
    decreases k,
{
    if k <= 0 {
        Seq::empty()
    } else {
        let s = values[k - 1];
        let points = bend_points(spans, values, tpr, k - 1) + span_points(
            spans[k - 1].0,
            s.values@,
            s.fits@,
            PITCH_TOLERANCE,
            tpr,
        );
        if spans[k - 1].2 {
            points.push(closing_point(spans[k - 1].1 as int, PITCH_CENTRE, tpr))
        } else {
            points
        }
    }
}

/// Whether the samples of a lane are those of its spans.
pub open spec fn sampled_for(values: Seq<LaneSpan>, spans: Seq<(u32, u32, bool)>) -> bool {
    values.len() == spans.len() && forall|i: int|
        0 <= i < spans.len() ==> (#[trigger] values[i]).values@.len() == spans[i].1 - spans[i].0
            && moderate(values[i].values@)
}

/// Puts the lane together that bends the pitch of a track where vibrato sets in late.
/// `values` holds the pitch over the spans of [`pitch_spans`], in millionths of its
/// range.
pub fn build_delayed_vibrato_pitch_lane(
    plan: &TrackPlan,
    notes: &[SynthNote],
    own: &PhysicalVoiceOwnership,
    late: &[bool],
    frames: u32,
    frame_count: u32,
    values: &[LaneSpan],
    tpr: u32,
) -> (r: Option<Vec<LanePoint>>)
    requires
        own.wf(),
        timeline_fits(plan.timeline@, notes@),
        late@.len() == plan.timeline@.len(),
        sampled_for(
            values@,
            track_bends(plan.timeline@, notes@, *own, late@, frames, frame_count),
        ),
    ensures
        ({
            let spans = track_bends(plan.timeline@, notes@, *own, late@, frames, frame_count);
            match r {
                Some(points) => spans.len() > 0 && points@ == bend_points(
                    spans,
                    values@,
                    tpr,
                    spans.len() as int,
                ),
                None => spans.len() == 0,
            }
        }),
{
    let spans: Vec<(u32, u32, bool)> = pitch_spans(plan, notes, own, late, frames, frame_count);
    let mut points: Vec<LanePoint> = Vec::new();
    let mut k: usize = 0;
    while k < spans.len()
        invariant
            k <= spans@.len(),
            sampled_for(values@, spans@),
            points@ == bend_points(spans@, values@, tpr, k as int),
        decreases spans@.len() - k,
    {
        assert(values@[k as int].values@.len() == spans@[k as int].1 - spans@[k as int].0);
        push_span_points(
            &mut points,
            spans[k].0,
            values[k].values.as_slice(),
            &values[k].fits,
            PITCH_TOLERANCE,
            tpr,
        );
        if spans[k].2 {
            points.push(
                LanePoint { tick: to_ticks(spans[k].1, tpr), value: PITCH_CENTRE, curve: None },
            );
        }
        k += 1;
    }
    if spans.len() > 0 {
        Some(points)
    } else {
        None
    }
}

/// Whether the points of a span lead on to each other: the curve of each ends at the
/// sample where the next one stands, and the last one is held.
pub open spec fn lead_on(points: Seq<LanePoint>) -> bool {
    &&& points.len() > 0 ==> points.last().curve is None
    &&& forall|k: int| 0 <= k < points.len() - 1 ==> #[trigger] leads_on(points, k)
}

/// Whether the curve of a point ends where the curve of the next one starts.
pub open spec fn leads_on(points: Seq<LanePoint>, k: int) -> bool {
    points[k].curve matches Some(c) && c.0 < c.1 && (points[k + 1].curve matches Some(d) ==> d.0
        == c.1)
}

proof fn places_ascend(values: Seq<i64>, epsilon: i64, places: Seq<int>, i: int, j: int)
    requires
        lines_restore(values, epsilon, places),
        0 <= i < j < places.len(),
    ensures
        places[i] < places[j],
    decreases j - i,
{
    assert(line_restores(values, epsilon, places, j - 1));
    if i < j - 1 {
        places_ascend(values, epsilon, places, i, j - 1);
    }
}

proof fn points_lead_on(
    start: u32,
    values: Seq<i64>,
    fits: Seq<Vec<bool>>,
    epsilon: i64,
    tpr: u32,
    i: int,
)
    requires
        0 <= epsilon,
        0 < values.len() <= u32::MAX,
        0 <= i < kept_samples(values, epsilon).len(),
    ensures
        ({
            let places = kept_samples(values, epsilon);
            let points = points_from(start, values, fits, places, tpr, i);
            &&& points.len() > 0
            &&& lead_on(points)
            &&& points[0].curve matches Some(c) ==> c.0 == places[i]
            &&& points[0].tick == ticks(start + places[i], tpr as int)
            &&& points.last().tick == ticks(start + places.last(), tpr as int)
        }),
    decreases kept_samples(values, epsilon).len() - i,
{
    let places = kept_samples(values, epsilon);
    let points = points_from(start, values, fits, places, tpr, i);
    kept_samples_restore_the_series(values, epsilon);
    kept_are_inside(values, epsilon);
    if i + 1 < places.len() {
        let next = curve_end(fits, places.len() as int, i);
        curve_end_is_later(fits, places.len() as int, i);
        points_lead_on(start, values, fits, epsilon, tpr, next);
        places_ascend(values, epsilon, places, i, next);
        let rest = points_from(start, values, fits, places, tpr, next);
        assert(points == seq![points[0]] + rest);
        assert(points.last() == rest.last());
        assert(0 <= places[i] < values.len() && 0 <= places[next] < values.len());
        assert forall|k: int| 0 <= k < points.len() - 1 implies #[trigger] leads_on(points, k) by {
            if k > 0 {
                assert(leads_on(rest, k - 1));
                assert(points[k] == rest[k - 1] && points[k + 1] == rest[k]);
            } else {
                assert(points[1] == rest[0]);
            }
        }
    }
}

/// The points of a span cover it: the first one stands at its first sample and the
/// last one, which is held, at its last, and the curve of every other one ends where
/// the next one stands.
pub proof fn span_points_cover_the_span(
    start: u32,
    values: Seq<i64>,
    fits: Seq<Vec<bool>>,
    epsilon: i64,
    tpr: u32,
)
    requires
        0 <= epsilon,
        0 < values.len() <= u32::MAX,
    ensures
        span_points(start, values, fits, epsilon, tpr).len() > 0,
        span_points(start, values, fits, epsilon, tpr)[0].tick == ticks(start as int, tpr as int),
        span_points(start, values, fits, epsilon, tpr).last().tick == ticks(
            start + values.len() - 1,
            tpr as int,
        ),
        lead_on(span_points(start, values, fits, epsilon, tpr)),
{
    kept_samples_restore_the_series(values, epsilon);
    points_lead_on(start, values, fits, epsilon, tpr, 0);
}

} // verus!
