//! What of a track is automated, where, and with how many points.

use crate::analysis::frame::{NoteEvent, ProgramFrame};
use crate::analysis::patch::Patch;
use super::super::articulation::{
    articulation_is_automatable, authored_end, authored_note_end_frame, automatable,
};
use super::super::emission::segments_fit;
use super::super::notes::{event_fits, ticks, to_ticks};
use super::super::ownership::{first_after, timeline_fits, PhysicalVoiceOwnership};
use super::super::timbre::{is_sid_percussion, tuned_percussion, Waveform};
use super::super::tracks::{SynthNote, TrackPlan};
use vstd::prelude::*;

verus! {

/// The ranges of a list that are not empty.
pub open spec fn valid_ranges(ranges: Seq<(u32, u32)>) -> Seq<(u32, u32)>
    decreases ranges.len(),
{
    if ranges.len() == 0 {
        Seq::empty()
    } else if ranges.last().1 > ranges.last().0 {
        valid_ranges(ranges.drop_last()).push(ranges.last())
    } else {
        valid_ranges(ranges.drop_last())
    }
}

/// Whether a range reaches from the earliest start to the latest end of a list.
pub open spec fn spans_all(range: (u32, u32), ranges: Seq<(u32, u32)>) -> bool {
    &&& forall|i: int|
        0 <= i < ranges.len() ==> range.0 <= (#[trigger] ranges[i]).0 && ranges[i].1 <= range.1
    &&& exists|i: int| 0 <= i < ranges.len() && (#[trigger] ranges[i]).0 == range.0
    &&& exists|i: int| 0 <= i < ranges.len() && (#[trigger] ranges[i]).1 == range.1
}

/// The ranges over which an automated value is sampled: those that are not
/// empty, or the one that spans them if the value moves between notes too.
pub fn collapse_spans(ranges: &[(u32, u32)], continuous: bool) -> (r: Vec<(u32, u32)>)
    ensures
        !continuous ==> r@ == valid_ranges(ranges@),
        continuous && valid_ranges(ranges@).len() == 0 ==> r@.len() == 0,
        continuous && valid_ranges(ranges@).len() > 0 ==> r@.len() == 1 && spans_all(
            r@[0],
            valid_ranges(ranges@),
        ),
{
    let mut valid: Vec<(u32, u32)> = Vec::new();
    let mut i: usize = 0;
    assert(ranges@.take(0) =~= Seq::<(u32, u32)>::empty());
    while i < ranges.len()
        invariant
            i <= ranges@.len(),
            valid@ == valid_ranges(ranges@.take(i as int)),
        decreases ranges@.len() - i,
    {
        assert(ranges@.take(i + 1).drop_last() =~= ranges@.take(i as int));
        if ranges[i].1 > ranges[i].0 {
            valid.push(ranges[i]);
        }
        i += 1;
    }
    assert(ranges@.take(ranges@.len() as int) =~= ranges@);
    if !continuous || valid.len() == 0 {
        return valid;
    }
    let mut start: u32 = valid[0].0;
    let mut end: u32 = valid[0].1;
    let mut k: usize = 1;
    let ghost mut first: int = 0;
    let ghost mut last: int = 0;
    while k < valid.len()
        invariant
            1 <= k <= valid@.len(),
            0 <= first < k,
            0 <= last < k,
            valid@[first].0 == start,
            valid@[last].1 == end,
            forall|j: int| 0 <= j < k ==> start <= (#[trigger] valid@[j]).0 && valid@[j].1 <= end,
        decreases valid@.len() - k,
    {
        if valid[k].0 < start {
            start = valid[k].0;
            proof {
                first = k as int;
            }
        }
        if valid[k].1 > end {
            end = valid[k].1;
            proof {
                last = k as int;
            }
        }
        k += 1;
    }
    let mut out: Vec<(u32, u32)> = Vec::new();
    out.push((start, end));
    assert(spans_all((start, end), valid@)) by {
        assert(valid@[first].0 == start);
        assert(valid@[last].1 == end);
    }
    out
}

/// A point of a lane. Its value is counted in millionths of the range.
#[derive(Debug, Clone, Copy, PartialEq, Eq, Structural)]
pub struct AutomationPoint {
    pub tick: u32,
    pub value: u32,
    /// Whether the value holds until the next point.
    pub step: bool,
}

/// How far two values may lie apart to count as the same, in millionths.
pub const AUTOMATION_TOLERANCE: u32 = 10_000;

/// Whether two values count as the same.
pub open spec fn near(a: u32, b: u32) -> bool {
    -AUTOMATION_TOLERANCE <= a - b <= AUTOMATION_TOLERANCE
}

/// Whether a point adds nothing to a lane that ends with another one.
pub open spec fn is_redundant(previous: AutomationPoint, p: AutomationPoint) -> bool {
    previous.step && p.step && near(previous.value, p.value)
}

/// The places of the first `k` points that are kept: of points at one tick the
/// last, and of held values that stay the same the first.
pub open spec fn kept_points(points: Seq<AutomationPoint>, k: int) -> Seq<usize>
    decreases k,
{
    if k <= 0 {
        Seq::empty()
    } else {
        let before = kept_points(points, k - 1);
        let here = points[k - 1];
        if before.len() == 0 {
            before.push((k - 1) as usize)
        } else {
            let previous = points[before.last() as int];
            if previous.tick == here.tick {
                before.drop_last().push((k - 1) as usize)
            } else if is_redundant(previous, here) {
                before
            } else {
                before.push((k - 1) as usize)
            }
        }
    }
}

/// Finds the points of a lane that have to be kept.
pub fn compact_points(points: &[AutomationPoint]) -> (r: Vec<usize>)
    ensures
        r@ == kept_points(points@, points@.len() as int),
{
    let mut kept: Vec<usize> = Vec::new();
    let mut k: usize = 0;
    while k < points.len()
        invariant
            k <= points@.len(),
            kept@ == kept_points(points@, k as int),
            forall|i: int| 0 <= i < kept@.len() ==> #[trigger] kept@[i] < k,
        decreases points@.len() - k,
    {
        let here: AutomationPoint = points[k];
        let count: usize = kept.len();
        if count == 0 {
            kept.push(k);
        } else {
            let at: usize = kept[count - 1];
            let previous: AutomationPoint = points[at];
            if previous.tick == here.tick {
                kept.pop();
                kept.push(k);
            } else {
                let apart: u32 = if previous.value > here.value {
                    previous.value - here.value
                } else {
                    here.value - previous.value
                };
                if !(previous.step && here.step && apart <= AUTOMATION_TOLERANCE) {
                    kept.push(k);
                }
            }
        }
        k += 1;
    }
    kept
}

/// The points that are kept ascend, neighbours lie at different ticks, and the
/// first and the last tick of the lane are kept, the last unless its value only
/// holds on.
pub proof fn compaction_keeps_the_contour(points: Seq<AutomationPoint>, k: int)
    requires
        0 <= k <= points.len() <= usize::MAX,
    ensures
        ({
            let kept = kept_points(points, k);
            &&& kept.len() <= k
            &&& k > 0 <==> kept.len() > 0
            &&& forall|i: int| 0 <= i < kept.len() ==> #[trigger] kept[i] < k
            &&& forall|i: int, j: int|
                0 <= i < j < kept.len() ==> #[trigger] kept[i] < #[trigger] kept[j]
            &&& forall|i: int|
                0 <= i < kept.len() - 1 ==> points[(#[trigger] kept[i]) as int].tick
                    != points[kept[i + 1] as int].tick
            &&& k > 0 ==> points[kept[0] as int].tick == points[0].tick
            &&& k > 0 ==> kept.last() == k - 1 || is_redundant(
                points[kept.last() as int],
                points[k - 1],
            )
        }),
    decreases k,
{
    if k > 0 {
        compaction_keeps_the_contour(points, k - 1);
        let before = kept_points(points, k - 1);
        let kept = kept_points(points, k);
        assert forall|i: int| 0 <= i < kept.len() - 1 implies points[(#[trigger] kept[i]) as int].tick
            != points[kept[i + 1] as int].tick by {
            if i < before.len() - 1 {
                assert(points[before[i] as int].tick != points[before[i + 1] as int].tick);
            }
        }
    }
}

/// How far two envelope values may lie apart to count as the same, in ten
/// millionths.
pub const ENVELOPE_TOLERANCE: u64 = 1_000;

/// Whether an envelope value differs from the one before it.
pub open spec fn is_step(last: Option<u32>, value: u32) -> bool {
    match last {
        Some(l) => l - value > ENVELOPE_TOLERANCE || value - l > ENVELOPE_TOLERANCE,
        None => true,
    }
}

/// The steps of an envelope parameter over the first `k` entries of a timeline:
/// the ticks at which it changes, with the segments whose value it takes. The
/// segments hold values in ten millionths, or none.
pub open spec fn envelope_steps(
    timeline: Seq<(usize, usize)>,
    notes: Seq<SynthNote>,
    values: Seq<Option<u32>>,
    tpr: u32,
    k: int,
) -> Seq<(u32, usize)>
    decreases k,
{
    if k <= 0 {
        Seq::empty()
    } else {
        let before = envelope_steps(timeline, notes, values, tpr, k - 1);
        let (s, n) = timeline[k - 1];
        let last = if before.len() > 0 {
            values[before.last().1 as int]
        } else {
            None
        };
        if s < values.len() && values[s as int] is Some && is_step(last, values[s as int]->0) {
            before.push((ticks(notes[n as int].event.start_frame as int, tpr as int), s))
        } else {
            before
        }
    }
}

/// Finds the steps of an envelope parameter; none if it never changes.
pub fn build_adsr_lane(
    plan: &TrackPlan,
    notes: &[SynthNote],
    values: &[Option<u32>],
    tpr: u32,
) -> (r: Option<Vec<(u32, usize)>>)
    requires
        timeline_fits(plan.timeline@, notes@),
    ensures
        ({
            let steps = envelope_steps(
                plan.timeline@,
                notes@,
                values@,
                tpr,
                plan.timeline@.len() as int,
            );
            match r {
                Some(v) => v@ == steps && steps.len() >= 2,
                None => steps.len() < 2,
            }
        }),
{
    let mut steps: Vec<(u32, usize)> = Vec::new();
    let mut last: Option<u32> = None;
    let mut k: usize = 0;
    while k < plan.timeline.len()
        invariant
            k <= plan.timeline@.len(),
            timeline_fits(plan.timeline@, notes@),
            steps@ == envelope_steps(plan.timeline@, notes@, values@, tpr, k as int),
            last == (if steps@.len() > 0 {
                values@[steps@.last().1 as int]
            } else {
                None
            }),
        decreases plan.timeline@.len() - k,
    {
        let (s, n) = plan.timeline[k];
        assert(plan.timeline@[k as int].1 < notes@.len());
        if s < values.len() {
            if let Some(value) = values[s] {
                let moved: bool = match last {
                    Some(l) => {
                        let apart: u32 = if l > value {
                            l - value
                        } else {
                            value - l
                        };
                        apart as u64 > ENVELOPE_TOLERANCE
                    },
                    None => true,
                };
                if moved {
                    steps.push((to_ticks(notes[n].event.start_frame, tpr), s));
                    last = Some(value);
                }
            }
        }
        k += 1;
    }
    if steps.len() >= 2 {
        Some(steps)
    } else {
        None
    }
}

/// The frame at which the measured envelope of a note ends: where it has faded,
/// or else its authored end, within the trace, and no later than it loses its
/// voice.
pub open spec fn envelope_end(
    event: NoteEvent,
    own: PhysicalVoiceOwnership,
    frames: u32,
    frame_count: u32,
) -> u32 {
    let written = match event.sound_end {
        Some(f) => f,
        None => authored_end(event, frame_count),
    };
    let traced = if written < frames {
        written
    } else {
        frames
    };
    match first_after(own.starts_on(event.voice), event.start_frame) {
        Some(f) => if f < traced {
            f
        } else {
            traced
        },
        None => traced,
    }
}

/// Finds the frame at which the measured envelope of a note ends.
pub fn find_envelope_end(
    event: &NoteEvent,
    own: &PhysicalVoiceOwnership,
    frames: u32,
    frame_count: u32,
) -> (r: u32)
    requires
        own.wf(),
        event.voice.valid(),
    ensures
        r == envelope_end(*event, *own, frames, frame_count),
{
    let mut end: u32 = match event.sound_end {
        Some(f) => f,
        None => authored_note_end_frame(event, frame_count),
    };
    if end > frames {
        end = frames;
    }
    if let Some(f) = own.end(event) {
        if f < end {
            end = f;
        }
    }
    end
}

/// The spans of the first `k` entries of a timeline over which their envelopes
/// are sampled.
pub open spec fn sampled_spans(
    timeline: Seq<(usize, usize)>,
    notes: Seq<SynthNote>,
    own: PhysicalVoiceOwnership,
    frames: u32,
    frame_count: u32,
    k: int,
) -> Seq<(u32, u32)>
    decreases k,
{
    if k <= 0 {
        Seq::empty()
    } else {
        let before = sampled_spans(timeline, notes, own, frames, frame_count, k - 1);
        let event = notes[timeline[k - 1].1 as int].event;
        let end = envelope_end(event, own, frames, frame_count);
        if end > event.start_frame {
            before.push((event.start_frame, end))
        } else {
            before
        }
    }
}

/// Finds the spans over which the envelopes of a track are sampled.
pub fn envelope_spans(
    plan: &TrackPlan,
    notes: &[SynthNote],
    own: &PhysicalVoiceOwnership,
    frames: u32,
    frame_count: u32,
) -> (r: Vec<(u32, u32)>)
    requires
        own.wf(),
        timeline_fits(plan.timeline@, notes@),
    ensures
        r@ == sampled_spans(
            plan.timeline@,
            notes@,
            *own,
            frames,
            frame_count,
            plan.timeline@.len() as int,
        ),
{
    let mut spans: Vec<(u32, u32)> = Vec::new();
    let mut k: usize = 0;
    while k < plan.timeline.len()
        invariant
            k <= plan.timeline@.len(),
            own.wf(),
            timeline_fits(plan.timeline@, notes@),
            spans@ == sampled_spans(plan.timeline@, notes@, *own, frames, frame_count, k as int),
        decreases plan.timeline@.len() - k,
    {
        assert(plan.timeline@[k as int].1 < notes@.len());
        let event: &NoteEvent = &notes[plan.timeline[k].1].event;
        let end: u32 = find_envelope_end(event, own, frames, frame_count);
        if end > event.start_frame {
            spans.push((event.start_frame, end));
        }
        k += 1;
    }
    spans
}

/// The range of frames of each note of a timeline.
pub fn note_ranges(plan: &TrackPlan, notes: &[SynthNote], frame_count: u32) -> (r: Vec<(u32, u32)>)
    requires
        timeline_fits(plan.timeline@, notes@),
    ensures
        r@ == Seq::new(
            plan.timeline@.len(),
            |k: int|
                {
                    let event = notes@[plan.timeline@[k].1 as int].event;
                    (event.start_frame, authored_end(event, frame_count))
                },
        ),
{
    let mut out: Vec<(u32, u32)> = Vec::new();
    let mut k: usize = 0;
    while k < plan.timeline.len()
        invariant
            k <= plan.timeline@.len(),
            timeline_fits(plan.timeline@, notes@),
            out@.len() == k,
            forall|j: int|
                0 <= j < k ==> #[trigger] out@[j] == ({
                    let event = notes@[plan.timeline@[j].1 as int].event;
                    (event.start_frame, authored_end(event, frame_count))
                }),
        decreases plan.timeline@.len() - k,
    {
        assert(plan.timeline@[k as int].1 < notes@.len());
        let event: &NoteEvent = &notes[plan.timeline[k].1].event;
        out.push((event.start_frame, authored_note_end_frame(event, frame_count)));
        k += 1;
    }
    assert(out@ =~= Seq::new(
        plan.timeline@.len(),
        |k: int|
            {
                let event = notes@[plan.timeline@[k].1 as int].event;
                (event.start_frame, authored_end(event, frame_count))
            },
    ));
    out
}

/// What a lane of a track automates.
#[derive(Debug, Clone, Copy, PartialEq, Eq, Structural)]
pub enum LaneKind {
    /// The pitch of the track, for vibrato that sets in late.
    TrackPitch,
    PulseWidth,
    FilterCutoff,
    /// The frequency of the oscillator that rings or syncs the first one.
    SourceFrequency,
    /// The level of an amplifier, counted from one.
    AmplifierLevel(u16),
    Attack,
    Decay,
    Sustain,
    Release,
}

/// Whether a track has two amplifiers: one for the body of a drum and one for
/// its noise.
pub open spec fn has_two_amplifiers(plan: TrackPlan, patches: Seq<Patch>) -> bool {
    plan.drum_drop || (plan.segments@.len() > 0 && (plan.segments@[0].patch matches Some(p)
        && tuned_percussion(patches[p as int])) && plan.waveform_program is None)
}

/// The number of a track's amplifiers.
pub fn plan_amplifier_count(plan: &TrackPlan, patches: &[Patch]) -> (r: u16)
    requires
        segments_fit(plan.segments@, patches@),
    ensures
        r == if has_two_amplifiers(*plan, patches@) {
            2u16
        } else {
            1
        },
{
    let mut percussion: bool = false;
    if plan.segments.len() > 0 {
        assert(plan.segments@[0].patch matches Some(p) ==> p < patches@.len());
        if let Some(p) = plan.segments[0].patch {
            percussion = is_sid_percussion(&patches[p]) && plan.waveform_program.is_none();
        }
    }
    if plan.drum_drop || percussion {
        2
    } else {
        1
    }
}

/// The lanes that a track may have, in their order. The register of a pulse is
/// left alone where a script of the instrument moves it.
pub open spec fn lane_kinds(
    plan: TrackPlan,
    patches: Seq<Patch>,
    late_vibrato: bool,
    scripted_pulse: bool,
    measured_envelope: bool,
) -> Seq<LaneKind> {
    let shape = plan.shape.view();
    let pitch = if late_vibrato {
        seq![LaneKind::TrackPitch]
    } else {
        Seq::empty()
    };
    let pulse = if !shape.is_noise && shape.waveform == Waveform::Pulse && !scripted_pulse {
        pitch.push(LaneKind::PulseWidth)
    } else {
        pitch
    };
    let filter = if shape.filter_kind is Some {
        pulse.push(LaneKind::FilterCutoff)
    } else {
        pulse
    };
    let source = if shape.has_ring || shape.has_sync {
        filter.push(LaneKind::SourceFrequency)
    } else {
        filter
    };
    if measured_envelope {
        if has_two_amplifiers(plan, patches) {
            source.push(LaneKind::AmplifierLevel(1)).push(LaneKind::AmplifierLevel(2))
        } else {
            source.push(LaneKind::AmplifierLevel(1))
        }
    } else {
        source.push(LaneKind::Attack).push(LaneKind::Decay).push(LaneKind::Sustain).push(
            LaneKind::Release,
        )
    }
}

/// Decides which lanes a track may have.
pub fn plan_lane_kinds(
    plan: &TrackPlan,
    patches: &[Patch],
    late_vibrato: bool,
    scripted_pulse: bool,
    measured_envelope: bool,
) -> (r: Vec<LaneKind>)
    requires
        segments_fit(plan.segments@, patches@),
    ensures
        r@ == lane_kinds(*plan, patches@, late_vibrato, scripted_pulse, measured_envelope),
{
    let mut out: Vec<LaneKind> = Vec::new();
    if late_vibrato {
        out.push(LaneKind::TrackPitch);
    }
    assert(out@ =~= if late_vibrato {
        seq![LaneKind::TrackPitch]
    } else {
        Seq::empty()
    });
    if !plan.shape.is_noise && plan.shape.waveform == Waveform::Pulse && !scripted_pulse {
        out.push(LaneKind::PulseWidth);
    }
    if plan.shape.filter_kind.is_some() {
        out.push(LaneKind::FilterCutoff);
    }
    if plan.shape.has_ring || plan.shape.has_sync {
        out.push(LaneKind::SourceFrequency);
    }
    if measured_envelope {
        out.push(LaneKind::AmplifierLevel(1));
        if plan_amplifier_count(plan, patches) == 2 {
            out.push(LaneKind::AmplifierLevel(2));
        }
    } else {
        out.push(LaneKind::Attack);
        out.push(LaneKind::Decay);
        out.push(LaneKind::Sustain);
        out.push(LaneKind::Release);
    }
    out
}

/// Whether the notes of a track have envelopes that the target's own envelope
/// does not play: some note is not a plain one, or cannot be automated.
pub open spec fn needs_measured_envelope(
    timeline: Seq<(usize, usize)>,
    notes: Seq<SynthNote>,
    states: Seq<ProgramFrame>,
    plain: Seq<bool>,
) -> bool {
    exists|k: int|
        0 <= k < timeline.len() && (!plain[k] || !automatable(
            notes[(#[trigger] timeline[k]).1 as int].event,
            states,
        ))
}

/// Tells whether a track plays its measured envelopes. `plain` tells of each
/// entry of the timeline whether its envelope is an ordinary one.
pub fn plan_uses_measured_envelope(
    plan: &TrackPlan,
    notes: &[SynthNote],
    states: &[ProgramFrame],
    plain: &[bool],
) -> (r: bool)
    requires
        plain@.len() == plan.timeline@.len(),
        timeline_fits(plan.timeline@, notes@),
        forall|k: int|
            0 <= k < plan.timeline@.len() ==> event_fits(
                notes@[(#[trigger] plan.timeline@[k]).1 as int].event,
                states@,
            ),
    ensures
        r == needs_measured_envelope(plan.timeline@, notes@, states@, plain@),
{
    let mut k: usize = 0;
    while k < plan.timeline.len()
        invariant
            k <= plan.timeline@.len(),
            plain@.len() == plan.timeline@.len(),
            timeline_fits(plan.timeline@, notes@),
            forall|k: int|
                0 <= k < plan.timeline@.len() ==> event_fits(
                    notes@[(#[trigger] plan.timeline@[k]).1 as int].event,
                    states@,
                ),
            forall|j: int|
                0 <= j < k ==> plain@[j] && automatable(
                    notes@[(#[trigger] plan.timeline@[j]).1 as int].event,
                    states@,
                ),
        decreases plan.timeline@.len() - k,
    {
        assert(plan.timeline@[k as int].1 < notes@.len());
        let event: &NoteEvent = &notes[plan.timeline[k].1].event;
        assert(event_fits(*event, states@));
        if !plain[k] || !articulation_is_automatable(event, states) {
            assert(!plain@[k as int] || !automatable(
                notes@[plan.timeline@[k as int].1 as int].event,
                states@,
            ));
            return true;
        }
        k += 1;
    }
    false
}

/// The most points that a lane for the volume may have; with more it plays
/// samples.
pub const MAX_VOLUME_LANE_POINTS: usize = 512;

/// The volume of the chip at a frame; none behind the end.
pub open spec fn volume_at(states: Seq<ProgramFrame>, f: int) -> u8 {
    if 0 <= f < states.len() {
        states[f].volume
    } else {
        0
    }
}

/// Whether the volume moves within a number of frames.
pub open spec fn volume_moves(states: Seq<ProgramFrame>, frame_count: u32) -> bool {
    exists|f: int| 0 <= f < frame_count && #[trigger] volume_at(states, f) != volume_at(states, 0)
}

/// The volumes of a number of frames, if they move.
pub fn moving_volumes(states: &[ProgramFrame], frame_count: u32) -> (r: Option<Vec<u8>>)
    ensures
        match r {
            Some(v) => volume_moves(states@, frame_count) && v@ == Seq::new(
                frame_count as nat,
                |f: int| volume_at(states@, f),
            ),
            None => !volume_moves(states@, frame_count),
        },
{
    let mut out: Vec<u8> = Vec::new();
    let mut moves: bool = false;
    let mut f: u32 = 0;
    while f < frame_count
        invariant
            f <= frame_count,
            out@.len() == f,
            forall|g: int| 0 <= g < f ==> #[trigger] out@[g] == volume_at(states@, g),
            moves == exists|g: int|
                0 <= g < f && #[trigger] volume_at(states@, g) != volume_at(states@, 0),
        decreases frame_count - f,
    {
        let volume: u8 = if (f as usize) < states.len() {
            states[f as usize].volume
        } else {
            0
        };
        assert(volume == volume_at(states@, f as int));
        out.push(volume);
        assert(out@[0] == volume_at(states@, 0));
        if volume != out[0] {
            moves = true;
        }
        f += 1;
    }
    if moves {
        assert(out@ =~= Seq::new(frame_count as nat, |f: int| volume_at(states@, f)));
        Some(out)
    } else {
        None
    }
}

/// Whether a lane for the volume is worth having: it has two points at least and
/// not too many.
pub fn keeps_volume_lane(points: usize) -> (r: bool)
    ensures
        r == (2 <= points <= MAX_VOLUME_LANE_POINTS),
{
    2 <= points && points <= MAX_VOLUME_LANE_POINTS
}

} // verus!
