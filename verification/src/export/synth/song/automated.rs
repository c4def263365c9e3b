//! What a lane owes to the trace: its points are samples, its spans are notes, and it
//! is left out only where nothing moves.

use crate::analysis::frame::{NoteEvent, ProgramFrame};
use crate::analysis::patch::Patch;
use super::automation::{
    envelope_end, envelope_steps, kept_points, lane_kinds, needs_measured_envelope, sampled_spans,
    valid_ranges, volume_moves, AutomationPoint, LaneKind,
};
use super::decimation::{
    deviation, furthest, kept_between, kept_samples, kept_samples_restore_the_series, line_restores,
    must_split,
};
use super::lanes::{
    bend_of, bend_points, curve_end, envelope_points, lane_moves, late_notes, points_from, samples,
    span_points, strays, tolerance, volume_lane, LanePoint, LaneSpan, Sampled,
};
use super::super::articulation::automatable;
use super::super::ownership::{first_after, PhysicalVoiceOwnership};
use super::super::tracks::{SynthNote, TrackPlan};
use vstd::prelude::*;

verus! {

/// Of a list of ranges just those stay that begin before they end.
pub proof fn only_empty_ranges_are_dropped(ranges: Seq<(u32, u32)>)
    ensures
        forall|i: int|
            0 <= i < ranges.len() && (#[trigger] ranges[i]).0 < ranges[i].1 ==> valid_ranges(
                ranges,
            ).contains(ranges[i]),
        forall|j: int|
            0 <= j < valid_ranges(ranges).len() ==> (#[trigger] valid_ranges(ranges)[j]).0
                < valid_ranges(ranges)[j].1 && ranges.contains(valid_ranges(ranges)[j]),
        valid_ranges(ranges).len() <= ranges.len(),
    decreases ranges.len(),
{
    if ranges.len() > 0 {
        let rest = ranges.drop_last();
        only_empty_ranges_are_dropped(rest);
        let kept = valid_ranges(ranges);
        assert forall|i: int|
            0 <= i < ranges.len() && (#[trigger] ranges[i]).0 < ranges[i].1 implies kept.contains(
            ranges[i],
        ) by {
            if i < rest.len() {
                assert(rest[i] == ranges[i]);
                let j = choose|j: int|
                    0 <= j < valid_ranges(rest).len() && valid_ranges(rest)[j] == rest[i];
                assert(kept[j] == ranges[i]);
            } else {
                assert(kept[kept.len() - 1] == ranges[i]);
            }
        }
        assert forall|j: int| 0 <= j < kept.len() implies (#[trigger] kept[j]).0 < kept[j].1
            && ranges.contains(kept[j]) by {
            if j < valid_ranges(rest).len() {
                assert(kept[j] == valid_ranges(rest)[j]);
                let i = choose|i: int| 0 <= i < rest.len() && rest[i] == kept[j];
                assert(ranges[i] == kept[j]);
            } else {
                assert(ranges[ranges.len() - 1] == kept[j]);
            }
        }
    }
}

/// A lane reads the chip frame by frame: pulse widths, envelope levels and volumes in
/// hundredths, and for a coupled voice the frequency of the voice before it. Behind the
/// end of the trace there is nothing. A lane may be off by a hundredth of its range.
pub proof fn lanes_read_the_chip(states: Seq<ProgramFrame>, v: int, start: u32, end: u32, i: int)
    requires
        0 <= v < 3,
        start <= end,
        0 <= i < end - start,
    ensures
        samples(Sampled::PulseWidth, states, v, start, end).len() == end - start,
        start + i < states.len() ==> ({
            let state = states[start + i];
            &&& samples(Sampled::PulseWidth, states, v, start, end)[i] == 100
                * state.voices@[v].pulse_width
            &&& samples(Sampled::EnvelopeLevel, states, v, start, end)[i] == 100
                * state.digital_voices@[v].end_level
            &&& samples(Sampled::Volume, states, v, start, end)[i] == 100 * state.volume
            &&& samples(Sampled::SourceFrequency, states, v, start, end)[i] == state.voices@[if v
                == 0 {
                2
            } else {
                v - 1
            }].freq
        }),
        start + i >= states.len() ==> forall|kind: Sampled|
            samples(kind, states, v, start, end)[i] == 0,
        tolerance(Sampled::PulseWidth) == 100 * 4095 / 100,
        tolerance(Sampled::EnvelopeLevel) == 100 * 255 / 100,
        tolerance(Sampled::Volume) == 100 * 15 / 100,
        tolerance(Sampled::SourceFrequency) == 1,
{
}

/// Whether a point stands for the sample at some place of a span.
pub open spec fn stands_for(
    p: LanePoint,
    start: u32,
    values: Seq<i64>,
    place: int,
    tpr: u32,
) -> bool {
    &&& 0 <= place < values.len()
    &&& p.value == values[place]
    &&& (start + place) * tpr <= u32::MAX ==> p.tick == (start + place) * tpr
    &&& (start + place) * tpr > u32::MAX ==> p.tick == u32::MAX
    &&& p.curve matches Some(c) ==> c.0 == place && place < c.1 < values.len()
}

proof fn later_points_are_samples(
    start: u32,
    values: Seq<i64>,
    fits: Seq<Vec<bool>>,
    places: Seq<int>,
    tpr: u32,
    i: int,
    k: int,
)
    requires
        0 < values.len() <= u32::MAX,
        forall|a: int| 0 <= a < places.len() ==> 0 <= #[trigger] places[a] < values.len(),
        forall|a: int, b: int|
            0 <= a < b < places.len() ==> #[trigger] places[a] < #[trigger] places[b],
        0 <= i,
        0 <= k < points_from(start, values, fits, places, tpr, i).len(),
    ensures
        exists|place: int| #[trigger]
            stands_for(
                points_from(start, values, fits, places, tpr, i)[k],
                start,
                values,
                place,
                tpr,
            ),
    decreases places.len() - i,
{
    let points = points_from(start, values, fits, places, tpr, i);
    if i + 1 >= places.len() {
        assert(stands_for(points[0], start, values, places[i], tpr));
    } else {
        let next = curve_end(fits, places.len() as int, i);
        if k == 0 {
            assert(stands_for(points[0], start, values, places[i], tpr));
        } else {
            later_points_are_samples(start, values, fits, places, tpr, next, k - 1);
            assert(points[k] == points_from(start, values, fits, places, tpr, next)[k - 1]);
        }
    }
}

proof fn places_ascend(places: Seq<int>, a: int, b: int)
    requires
        0 <= a < b < places.len(),
        forall|k: int| 0 <= k < places.len() - 1 ==> (#[trigger] places[k]) < places[k + 1],
    ensures
        places[a] < places[b],
    decreases b - a,
{
    assert(places[b - 1] < places[b - 1 + 1]);
    if a < b - 1 {
        places_ascend(places, a, b - 1);
    }
}

/// Every point of a span is a sample of it: at the tick of a frame, with the value of that
/// frame, and with a curve that leads from there to a later frame. The first and the last
/// frame of a span have points.
pub proof fn points_are_samples(
    start: u32,
    values: Seq<i64>,
    fits: Seq<Vec<bool>>,
    epsilon: i64,
    tpr: u32,
    k: int,
)
    requires
        0 <= epsilon,
        0 < values.len() <= u32::MAX,
        0 <= k < span_points(start, values, fits, epsilon, tpr).len(),
    ensures
        exists|place: int| #[trigger]
            stands_for(
                span_points(start, values, fits, epsilon, tpr)[k],
                start,
                values,
                place,
                tpr,
            ),
        span_points(start, values, fits, epsilon, tpr)[0].value == values[0],
{
    let places = kept_samples(values, epsilon);
    kept_samples_restore_the_series(values, epsilon);
    assert forall|a: int| 0 <= a < places.len() - 1 implies (#[trigger] places[a]) < places[a
        + 1] by {
        assert(line_restores(values, epsilon, places, a));
    }
    assert forall|a: int, b: int| 0 <= a < b < places.len() implies #[trigger] places[a]
        < #[trigger] places[b] by {
        places_ascend(places, a, b);
    }
    assert forall|a: int| 0 <= a < places.len() implies 0 <= #[trigger] places[a]
        < values.len() by {
        if a > 0 {
            places_ascend(places, 0, a);
        }
        if a < places.len() - 1 {
            places_ascend(places, a, places.len() - 1);
        }
    }
    later_points_are_samples(start, values, fits, places, tpr, 0, k);
}

/// A lane moves just where some sample of it lies further from the first one than it may
/// be off.
pub proof fn lanes_move_with_their_samples(spans: Seq<LaneSpan>, epsilon: i64)
    requires
        spans.len() > 0,
        spans[0].values@.len() > 0,
    ensures
        (forall|s: int, i: int|
            #![trigger spans[s].values@[i]]
            0 <= s < spans.len() && 0 <= i < spans[s].values@.len() ==> -epsilon
                <= spans[s].values@[i] - spans[0].values@[0] <= epsilon) <==> !lane_moves(
            spans,
            epsilon,
        ),
{
    assert forall|s: int, i: int|
        #![trigger spans[s].values@[i]]
        0 <= s < spans.len() && 0 <= i < spans[s].values@.len() && !lane_moves(
            spans,
            epsilon,
        ) implies -epsilon <= spans[s].values@[i] - spans[0].values@[0] <= epsilon by {
        assert(!strays(spans, epsilon, s, i));
    }
}

/// The last point that is kept of a lane so far is the point at hand, or the lane holds:
/// both points hold their values, and these lie at most a hundredth of the range apart.
/// Of two points at one tick the later one is kept.
pub proof fn held_points_stay_near(points: Seq<AutomationPoint>, k: int)
    requires
        0 < k <= points.len() <= usize::MAX,
    ensures
        ({
            let kept = kept_points(points, k);
            let before = kept_points(points, k - 1);
            let here = points[k - 1];
            &&& kept.len() > 0
            &&& kept.last() == k - 1 || {
                let last = points[kept.last() as int];
                &&& last.step && here.step && last.tick != here.tick
                &&& -10_000 <= last.value - here.value <= 10_000
                &&& kept == before
            }
            &&& before.len() == 0 ==> kept.last() == 0
            &&& before.len() > 0 ==> {
                let last = points[before.last() as int];
                &&& last.tick == here.tick ==> kept.last() == k - 1 && kept.len() == before.len()
                &&& last.tick != here.tick && !(last.step && here.step && -10_000 <= last.value
                    - here.value <= 10_000) ==> kept.last() == k - 1 && kept.len() == before.len()
                    + 1
                &&& last.tick != here.tick && last.step && here.step && -10_000 <= last.value
                    - here.value <= 10_000 ==> kept == before
            }
        }),
    decreases k,
{
    if k > 1 {
        held_points_stay_near(points, k - 1);
    }
}

/// An envelope parameter steps at each entry of a timeline whose value lies more than a
/// tenth of a thousandth from the last step, and at the first one that has a value at all.
/// It steps nowhere else, and it steps at the tick at which the note starts.
pub proof fn envelopes_step_where_they_change(
    timeline: Seq<(usize, usize)>,
    notes: Seq<SynthNote>,
    values: Seq<Option<u32>>,
    tpr: u32,
    k: int,
)
    requires
        0 < k <= timeline.len(),
    ensures
        ({
            let before = envelope_steps(timeline, notes, values, tpr, k - 1);
            let steps = envelope_steps(timeline, notes, values, tpr, k);
            let s = timeline[k - 1].0;
            let start = notes[timeline[k - 1].1 as int].event.start_frame;
            let valued = s < values.len() && values[s as int] is Some;
            &&& !valued ==> steps == before
            &&& valued ==> steps.len() > 0 && {
                let value = values[s as int]->0;
                let moved = before.len() == 0 || values[before.last().1 as int] is None
                    || value - values[before.last().1 as int]->0 > 1_000
                    || values[before.last().1 as int]->0 - value > 1_000;
                &&& !moved ==> steps == before
                &&& moved ==> steps.len() == before.len() + 1 && steps.last().1 == s
                    && (start * tpr <= u32::MAX ==> steps.last().0 == start * tpr)
            }
        }),
{
}

/// An envelope is followed until its voice is silent or the trace ends, at the longest, and
/// never beyond the next start of its voice.
pub proof fn envelopes_end_before_the_next_start(
    event: NoteEvent,
    own: PhysicalVoiceOwnership,
    frames: u32,
    frame_count: u32,
)
    ensures
        ({
            let end = envelope_end(event, own, frames, frame_count);
            let next = first_after(own.starts_on(event.voice), event.start_frame);
            &&& end <= frames
            &&& event.sound_end matches Some(f) ==> end <= f
            &&& next matches Some(f) ==> end <= f
            &&& event.sound_end is Some && next is None && end < frames ==> end
                == event.sound_end->0
            &&& event.sound_end is Some && end < frames && end < event.sound_end->0 ==> next
                == Some(end)
            &&& end == frames || next == Some(end) || event.sound_end == Some(end)
                || event.sound_end is None
        }),
{
}

/// The spans of a track's envelopes are those of its notes, from each start to the end of
/// its envelope; a note that ends where it starts has none.
pub proof fn envelopes_are_sampled_over_their_notes(
    timeline: Seq<(usize, usize)>,
    notes: Seq<SynthNote>,
    own: PhysicalVoiceOwnership,
    frames: u32,
    frame_count: u32,
    k: int,
)
    requires
        0 <= k <= timeline.len(),
    ensures
        ({
            let spans = sampled_spans(timeline, notes, own, frames, frame_count, k);
            &&& spans.len() <= k
            &&& forall|i: int|
                #![trigger timeline[i]]
                0 <= i < k ==> {
                    let event = notes[timeline[i].1 as int].event;
                    let end = envelope_end(event, own, frames, frame_count);
                    event.start_frame < end ==> spans.contains((event.start_frame, end))
                }
            &&& forall|j: int| 0 <= j < spans.len() ==> (#[trigger] spans[j]).0 < spans[j].1
        }),
    decreases k,
{
    if k > 0 {
        envelopes_are_sampled_over_their_notes(timeline, notes, own, frames, frame_count, k - 1);
        let before = sampled_spans(timeline, notes, own, frames, frame_count, k - 1);
        let spans = sampled_spans(timeline, notes, own, frames, frame_count, k);
        assert forall|i: int|
            #![trigger timeline[i]]
            0 <= i < k implies {
                let event = notes[timeline[i].1 as int].event;
                let end = envelope_end(event, own, frames, frame_count);
                event.start_frame < end ==> spans.contains((event.start_frame, end))
            } by {
            let event = notes[timeline[i].1 as int].event;
            let end = envelope_end(event, own, frames, frame_count);
            if event.start_frame < end {
                if i < k - 1 {
                    let j = choose|j: int|
                        0 <= j < before.len() && before[j] == (event.start_frame, end);
                    assert(spans[j] == (event.start_frame, end));
                } else {
                    assert(spans[spans.len() - 1] == (event.start_frame, end));
                }
            }
        }
        assert forall|j: int| 0 <= j < spans.len() implies (#[trigger] spans[j]).0 < spans[j].1 by {
            if j < before.len() {
                assert(spans[j] == before[j]);
            }
        }
    }
}

/// A track has a lane for each thing that its sound can move, and for nothing else.
pub proof fn tracks_have_the_lanes_of_their_sound(
    plan: TrackPlan,
    patches: Seq<Patch>,
    late_vibrato: bool,
    scripted_pulse: bool,
    measured_envelope: bool,
)
    ensures
        ({
            let kinds = lane_kinds(plan, patches, late_vibrato, scripted_pulse, measured_envelope);
            let shape = plan.shape.view();
            &&& kinds.contains(LaneKind::TrackPitch) <==> late_vibrato
            &&& kinds.contains(LaneKind::PulseWidth) <==> shape.waveform is Pulse
                && !shape.is_noise && !scripted_pulse
            &&& kinds.contains(LaneKind::FilterCutoff) <==> shape.filter_kind is Some
            &&& kinds.contains(LaneKind::SourceFrequency) <==> shape.has_ring || shape.has_sync
            &&& kinds.contains(LaneKind::AmplifierLevel(1)) <==> measured_envelope
            &&& kinds.contains(LaneKind::Attack) <==> !measured_envelope
            &&& kinds.contains(LaneKind::Decay) <==> !measured_envelope
            &&& kinds.contains(LaneKind::Sustain) <==> !measured_envelope
            &&& kinds.contains(LaneKind::Release) <==> !measured_envelope
            &&& plan.drum_drop && measured_envelope ==> kinds.contains(LaneKind::AmplifierLevel(2))
            &&& kinds.contains(LaneKind::AmplifierLevel(2)) ==> measured_envelope && (plan.drum_drop
                || plan.waveform_program is None && plan.segments@.len() > 0
                && plan.segments@[0].patch is Some)
        }),
{
    let kinds = lane_kinds(plan, patches, late_vibrato, scripted_pulse, measured_envelope);
    let n = kinds.len() as int;
    if measured_envelope {
        if kinds[n - 1] == LaneKind::AmplifierLevel(2) {
            assert(kinds[n - 2] == LaneKind::AmplifierLevel(1));
        } else {
            assert(kinds[n - 1] == LaneKind::AmplifierLevel(1));
        }
    } else {
        assert(kinds[n - 1] == LaneKind::Release);
        assert(kinds[n - 2] == LaneKind::Sustain);
        assert(kinds[n - 3] == LaneKind::Decay);
        assert(kinds[n - 4] == LaneKind::Attack);
    }
    let shape = plan.shape.view();
    let a: int = if late_vibrato {
        1
    } else {
        0
    };
    let b: int = if !shape.is_noise && shape.waveform is Pulse && !scripted_pulse {
        a + 1
    } else {
        a
    };
    let c: int = if shape.filter_kind is Some {
        b + 1
    } else {
        b
    };
    if late_vibrato {
        assert(kinds[0] == LaneKind::TrackPitch);
    }
    if b > a {
        assert(kinds[a] == LaneKind::PulseWidth);
    }
    if c > b {
        assert(kinds[b] == LaneKind::FilterCutoff);
    }
    if shape.has_ring || shape.has_sync {
        assert(kinds[c] == LaneKind::SourceFrequency);
    }
}

/// The envelope of a track is measured as soon as one of its notes is not a plain one or
/// cannot be told by parameters.
pub proof fn one_note_makes_an_envelope_measured(
    timeline: Seq<(usize, usize)>,
    notes: Seq<SynthNote>,
    states: Seq<ProgramFrame>,
    plain: Seq<bool>,
    k: int,
)
    requires
        0 <= k < timeline.len(),
    ensures
        !plain[k] ==> needs_measured_envelope(timeline, notes, states, plain),
        !automatable(notes[timeline[k].1 as int].event, states) ==> needs_measured_envelope(
            timeline,
            notes,
            states,
            plain,
        ),
        (forall|i: int|
            #![trigger timeline[i]]
            0 <= i < timeline.len() ==> plain[i] && automatable(
                notes[timeline[i].1 as int].event,
                states,
            )) ==> !needs_measured_envelope(timeline, notes, states, plain),
{
    let _ = timeline[k];
}

/// Every envelope closes: behind the points of a span a lane falls to nothing at its end.
pub proof fn envelopes_fall_at_their_end(
    spans: Seq<(u32, u32)>,
    states: Seq<ProgramFrame>,
    v: int,
    fits: Seq<Vec<Vec<bool>>>,
    tpr: u32,
    k: int,
)
    requires
        0 < k <= spans.len(),
    ensures
        ({
            let points = envelope_points(spans, states, v, fits, tpr, k);
            let end = spans[k - 1].1;
            &&& points.len() > envelope_points(spans, states, v, fits, tpr, k - 1).len()
            &&& points.last().value == 0
            &&& points.last().curve is None
            &&& end * tpr <= u32::MAX ==> points.last().tick == end * tpr
        }),
{
}

/// The volume of a tune moves just where two frames of it differ; a lane of it has from 2
/// up to 512 points.
pub proof fn volumes_move_where_frames_differ(
    states: Seq<ProgramFrame>,
    frame_count: u32,
    fits: Seq<Vec<bool>>,
    tpr: u32,
)
    requires
        frame_count <= states.len(),
    ensures
        (forall|a: int, b: int|
            0 <= a < frame_count && 0 <= b < frame_count ==> (#[trigger] states[a]).volume == (
            #[trigger] states[b]).volume) <==> !volume_moves(states, frame_count),
        volume_lane(states, frame_count, fits, tpr) matches Some(points) ==> 2 <= points.len()
            <= 512 && volume_moves(states, frame_count),
{
    assert forall|a: int, b: int|
        0 <= a < frame_count && 0 <= b < frame_count && !volume_moves(
            states,
            frame_count,
        ) implies (#[trigger] states[a]).volume == (#[trigger] states[b]).volume by {
        assert(super::automation::volume_at(states, a) == super::automation::volume_at(states, 0));
        assert(super::automation::volume_at(states, b) == super::automation::volume_at(states, 0));
    }
    if forall|a: int, b: int|
        0 <= a < frame_count && 0 <= b < frame_count ==> (#[trigger] states[a]).volume == (
        #[trigger] states[b]).volume {
        assert forall|f: int| 0 <= f < frame_count implies #[trigger]
            super::automation::volume_at(states, f) == super::automation::volume_at(states, 0) by {
            assert(states[f].volume == states[0].volume);
        }
    }
}

/// The notes that are bent late are those that are marked, in the order of the timeline.
pub proof fn marked_notes_are_bent(timeline: Seq<(usize, usize)>, late: Seq<bool>, k: int)
    requires
        0 < k <= timeline.len(),
        timeline.len() == late.len(),
    ensures
        late[k - 1] ==> late_notes(timeline, late, k) == late_notes(timeline, late, k - 1).push(
            timeline[k - 1].1,
        ),
        !late[k - 1] ==> late_notes(timeline, late, k) == late_notes(timeline, late, k - 1),
        late_notes(timeline, late, 0).len() == 0,
{
}

/// A bend starts with its note and ends with its envelope. It returns to the middle there,
/// unless the next bent note follows at once.
pub proof fn bends_return_to_the_middle(
    bent: Seq<usize>,
    notes: Seq<SynthNote>,
    own: PhysicalVoiceOwnership,
    frames: u32,
    frame_count: u32,
    values: Seq<LaneSpan>,
    spans: Seq<(u32, u32, bool)>,
    tpr: u32,
    i: int,
    k: int,
)
    requires
        0 <= i < bent.len(),
        0 < k <= spans.len(),
        values.len() == spans.len(),
    ensures
        ({
            let b = bend_of(bent, notes, own, frames, frame_count, i);
            let event = notes[bent[i] as int].event;
            &&& b.0 == event.start_frame
            &&& b.1 == envelope_end(event, own, frames, frame_count)
            &&& i + 1 == bent.len() ==> b.2
            &&& i + 1 < bent.len() ==> (b.2 <==> notes[bent[i + 1] as int].event.start_frame != b.1)
        }),
        ({
            let points = bend_points(spans, values, tpr, k);
            spans[k - 1].2 ==> points.len() > 0 && points.last().value == 500_000
                && points.last().curve is None && (spans[k - 1].1 * tpr <= u32::MAX
                ==> points.last().tick == spans[k - 1].1 * tpr)
        }),
{
}

/// A sample that is left out lies near the line between the kept ones around it, by no more
/// than a lane may be off.
pub proof fn dropped_samples_lie_near_a_line(values: Seq<i64>, epsilon: i64, k: int, m: int)
    requires
        0 <= epsilon,
        values.len() > 0,
        0 <= k < kept_samples(values, epsilon).len() - 1,
        kept_samples(values, epsilon)[k] < m < kept_samples(values, epsilon)[k + 1],
    ensures
        ({
            let a = kept_samples(values, epsilon)[k];
            let b = kept_samples(values, epsilon)[k + 1];
            let off = (values[m] - values[a]) * (b - a) - (values[b] - values[a]) * (m - a);
            -(epsilon * (b - a)) <= off <= epsilon * (b - a)
        }),
{
    let places = kept_samples(values, epsilon);
    kept_samples_restore_the_series(values, epsilon);
    assert(line_restores(values, epsilon, places, k));
    assert(deviation(values, places[k], places[k + 1], m) <= epsilon * (places[k + 1] - places[k]));
}

/// A series that one line restores is kept by its two ends alone.
pub proof fn straight_series_are_kept_by_their_ends(values: Seq<i64>, epsilon: i64)
    requires
        0 <= epsilon,
        values.len() > 2,
        forall|m: int|
            0 < m < values.len() - 1 ==> -(epsilon * (values.len() - 1)) <= ((#[trigger] values[m])
                - values[0]) * (values.len() - 1) - (values[values.len() - 1] - values[0]) * m
                <= epsilon * (values.len() - 1),
    ensures
        kept_samples(values, epsilon) == seq![0int, values.len() - 1],
{
    let n = values.len() as int;
    if must_split(values, epsilon, 0, n - 1) {
        let m = furthest(values, 0, n - 1, n - 1);
        furthest_is_inside(values, epsilon, n);
        let _ = values[m];
        assert(m - 0 == m);
    }
    assert(kept_between(values, epsilon, 0, n - 1) =~= Seq::empty());
}

proof fn furthest_is_inside(values: Seq<i64>, epsilon: i64, n: int)
    requires
        0 <= epsilon,
        n == values.len(),
        n > 2,
        must_split(values, epsilon, 0, n - 1),
    ensures
        0 < furthest(values, 0, n - 1, n - 1) < n - 1,
{
    furthest_stays_inside(values, 0, n - 1, n - 1);
    let m = furthest(values, 0, n - 1, n - 1);
    if m == 0 {
        assert((values[0] - values[0]) * (n - 1 - 0) == 0) by (nonlinear_arith);
        assert((values[n - 1] - values[0]) * (0 - 0) == 0) by (nonlinear_arith);
        assert(epsilon * (n - 1 - 0) >= 0) by (nonlinear_arith)
            requires
                epsilon >= 0,
                n > 2,
        ;
    }
}

proof fn furthest_stays_inside(values: Seq<i64>, lo: int, hi: int, m: int)
    requires
        lo < hi,
        m <= hi,
    ensures
        lo <= furthest(values, lo, hi, m),
        furthest(values, lo, hi, m) < m || furthest(values, lo, hi, m) == lo,
    decreases m - lo,
{
    if m > lo + 1 {
        furthest_stays_inside(values, lo, hi, m - 1);
    }
}

} // verus!
