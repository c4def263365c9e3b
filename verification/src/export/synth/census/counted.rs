//! What the counts of a census mean, frame by frame, voice by voice and note by note.

use crate::analysis::frame::{Effect, EffectSpan, EnvelopeEvent, EnvelopeEventKind, ProgramFrame};
use crate::analysis::patch::Patch;
use crate::header::SidModel;
use super::frames::{
    combines, events_of, frame_totals, mask_frames, test_changes, totals, voice_totals,
    volume_changes,
};
use super::notes::{
    all_notes, authored_of, first_sound, flags_set, note_totals, overrides, plan_totals, spans_of,
};
use super::report::percentage;
use super::super::articulation::articulation_of;
use super::super::song::PatternView;
use super::super::tracks::{Segment, SynthNote, TrackPlan};
use super::{
    capability, contour_exported, lane_patterns, musical_patterns, points_of, policies, reported,
    worst_of, NativeCensus, Osc3Target, Provenance,
};
use vstd::prelude::*;

verus! {

/// One more event of a kind makes one more to count of that kind, and none of another.
pub proof fn every_envelope_event_counts(
    events: Seq<EnvelopeEvent>,
    e: EnvelopeEvent,
    kind: EnvelopeEventKind,
)
    ensures
        e.kind == kind ==> events_of(events.push(e), kind) == events_of(events, kind) + 1,
        e.kind != kind ==> events_of(events.push(e), kind) == events_of(events, kind),
        events_of(Seq::empty(), kind) == 0,
        events_of(events, kind) <= events.len(),
    decreases events.len(),
{
    assert(events.push(e).drop_last() =~= events);
    if events.len() > 0 {
        every_envelope_event_counts(events.drop_last(), events.last(), kind);
    }
}

/// A waveform is combined just where two or more of its four bits are set.
pub proof fn combined_waveforms_have_two_bits(s: ProgramFrame, v: int)
    requires
        0 <= v < 3,
    ensures
        ({
            let bits = s.voices@[v].waveform / 16;
            combines(s.voices@[v]) <==> bits % 2 + bits / 2 % 2 + bits / 4 % 2 + bits / 8 >= 2
        }),
{
}

/// What one voice of one frame adds to the counts: coupling counts as active where the chip
/// shows its effect, a combination counts by whether it is exact, and a voice counts as
/// sounding without a key, or silent under one, by its level.
pub proof fn voices_are_counted_by_what_they_do(s: ProgramFrame, v: int)
    requires
        0 <= v < 3,
    ensures
        ({
            let t = voice_totals(s, v);
            let voice = s.voices@[v];
            let digital = s.digital_voices@[v];
            let source = s.digital_voices@[if v == 0 {
                2
            } else {
                v - 1
            }];
            let triangle = voice.waveform / 16 % 2 == 1;
            &&& t.sync_active == 1 <==> voice.sync && digital.sync_resets > 0
            &&& t.sync_inactive == 1 <==> voice.sync && digital.sync_resets == 0
            &&& t.sync_active + t.sync_inactive <= 1
            &&& t.ring_active == 1 <==> voice.ring_mod && triangle && source.source_msb_edges > 0
            &&& t.ring_inactive == 1 <==> voice.ring_mod && !(triangle && source.source_msb_edges
                > 0)
            &&& t.ring_active + t.ring_inactive <= 1
            &&& t.combined_exact == 1 <==> combines(voice) && digital.combined_waveform_exact
            &&& t.combined_fallback == 1 <==> combines(voice) && !digital.combined_waveform_exact
            &&& t.combined_exact + t.combined_fallback <= 1
            &&& t.gate_off_nonzero == 1 <==> !voice.gate && digital.level != 0
            &&& t.gate_on_zero == 1 <==> voice.gate && digital.level == 0
            &&& t.gate_off_nonzero + t.gate_on_zero <= 1
            &&& t.active_cycles == digital.active_cycles
            &&& t.attack_entries == events_of(digital.events@, EnvelopeEventKind::EnteredAttack)
            &&& t.release_entries == events_of(digital.events@, EnvelopeEventKind::EnteredRelease)
            &&& t.reached_zero == events_of(digital.events@, EnvelopeEventKind::ReachedZero)
            &&& t.blips == 1 <==> t.attack_entries > 0 && t.release_entries > 0
                && digital.peak_level == 0 && events_of(
                digital.events@,
                EnvelopeEventKind::LeftZero,
            ) == 0
            &&& t.blips <= 1
            &&& t.filter_routed == 0 && t.combined_waveforms == 0 && t.sync_attacks == 0
                && t.inexact_voices == 0
        }),
{
}

/// What one frame adds to the counts: once for a filter that a voice runs through, once for
/// a combined waveform, once for each voice that is keyed under sync, and what its voices
/// add, if the state of the chip is known exactly; else its three voices count as unknown.
pub proof fn frames_are_counted_by_their_voices(s: ProgramFrame)
    ensures
        ({
            let t = frame_totals(s);
            let a = voice_totals(s, 0);
            let b = voice_totals(s, 1);
            let c = voice_totals(s, 2);
            &&& t.filter_routed == 1 <==> exists|v: int|
                0 <= v < 3 && #[trigger] s.filter.routing@[v]
            &&& t.filter_routed <= 1
            &&& t.combined_waveforms == 1 <==> exists|v: int|
                0 <= v < 3 && combines(#[trigger] s.voices@[v])
            &&& t.combined_waveforms <= 1
            &&& t.sync_attacks == (if s.voices@[0].sync && s.voices@[0].gate {
                1int
            } else {
                0
            }) + (if s.voices@[1].sync && s.voices@[1].gate {
                1int
            } else {
                0
            }) + (if s.voices@[2].sync && s.voices@[2].gate {
                1int
            } else {
                0
            })
            &&& !s.digital_state_exact ==> t.inexact_voices == 3 && t.sync_active == 0
                && t.sync_inactive == 0 && t.ring_active == 0 && t.ring_inactive == 0
                && t.combined_exact == 0 && t.combined_fallback == 0 && t.gate_off_nonzero == 0
                && t.gate_on_zero == 0 && t.active_cycles == 0 && t.attack_entries == 0
                && t.release_entries == 0 && t.reached_zero == 0 && t.blips == 0
            &&& s.digital_state_exact ==> {
                &&& t.inexact_voices == 0
                &&& t.sync_active == a.sync_active + b.sync_active + c.sync_active
                &&& t.sync_inactive == a.sync_inactive + b.sync_inactive + c.sync_inactive
                &&& t.ring_active == a.ring_active + b.ring_active + c.ring_active
                &&& t.ring_inactive == a.ring_inactive + b.ring_inactive + c.ring_inactive
                &&& t.combined_exact == a.combined_exact + b.combined_exact + c.combined_exact
                &&& t.combined_fallback == a.combined_fallback + b.combined_fallback
                    + c.combined_fallback
                &&& t.gate_off_nonzero == a.gate_off_nonzero + b.gate_off_nonzero
                    + c.gate_off_nonzero
                &&& t.gate_on_zero == a.gate_on_zero + b.gate_on_zero + c.gate_on_zero
                &&& t.active_cycles == a.active_cycles + b.active_cycles + c.active_cycles
                &&& t.attack_entries == a.attack_entries + b.attack_entries + c.attack_entries
                &&& t.release_entries == a.release_entries + b.release_entries + c.release_entries
                &&& t.reached_zero == a.reached_zero + b.reached_zero + c.reached_zero
                &&& t.blips == a.blips + b.blips + c.blips
            }
        }),
{
    let _ = s.filter.routing@[0];
    let _ = s.voices@[0];
    if frame_totals(s).filter_routed == 1 {
        assert(s.filter.routing@[0] || s.filter.routing@[1] || s.filter.routing@[2]);
    }
    if frame_totals(s).combined_waveforms == 1 {
        assert(combines(s.voices@[0]) || combines(s.voices@[1]) || combines(s.voices@[2]));
    }
    if exists|v: int| 0 <= v < 3 && #[trigger] s.filter.routing@[v] {
        let v = choose|v: int| 0 <= v < 3 && #[trigger] s.filter.routing@[v];
        assert(v == 0 || v == 1 || v == 2);
    }
    if exists|v: int| 0 <= v < 3 && combines(#[trigger] s.voices@[v]) {
        let v = choose|v: int| 0 <= v < 3 && combines(#[trigger] s.voices@[v]);
        assert(v == 0 || v == 1 || v == 2);
    }
}

/// Each frame of a trace adds its own counts to those of the frames before it.
pub proof fn counts_add_up_over_frames(states: Seq<ProgramFrame>, k: int)
    requires
        0 <= k < states.len(),
    ensures
        ({
            let a = totals(states, k);
            let b = frame_totals(states[k]);
            let t = totals(states, k + 1);
            &&& t.filter_routed == a.filter_routed + b.filter_routed
            &&& t.combined_waveforms == a.combined_waveforms + b.combined_waveforms
            &&& t.sync_attacks == a.sync_attacks + b.sync_attacks
            &&& t.inexact_voices == a.inexact_voices + b.inexact_voices
            &&& t.sync_active == a.sync_active + b.sync_active
            &&& t.sync_inactive == a.sync_inactive + b.sync_inactive
            &&& t.ring_active == a.ring_active + b.ring_active
            &&& t.ring_inactive == a.ring_inactive + b.ring_inactive
            &&& t.combined_exact == a.combined_exact + b.combined_exact
            &&& t.combined_fallback == a.combined_fallback + b.combined_fallback
            &&& t.gate_off_nonzero == a.gate_off_nonzero + b.gate_off_nonzero
            &&& t.gate_on_zero == a.gate_on_zero + b.gate_on_zero
            &&& t.active_cycles == a.active_cycles + b.active_cycles
            &&& t.attack_entries == a.attack_entries + b.attack_entries
            &&& t.release_entries == a.release_entries + b.release_entries
            &&& t.reached_zero == a.reached_zero + b.reached_zero
            &&& t.blips == a.blips + b.blips
        }),
        totals(states, 0).active_cycles == 0,
        totals(states, 0).inexact_voices == 0,
        totals(states, 0).filter_routed == 0,
{
}

/// The volume counts as changed once for each frame that differs from the one before it, so
/// not at all where it stays; and so do the test bits, for each voice.
pub proof fn changes_are_counted_between_frames(states: Seq<ProgramFrame>, k: int)
    requires
        1 <= k < states.len(),
    ensures
        states[k].volume == states[k - 1].volume ==> volume_changes(states, k + 1)
            == volume_changes(states, k),
        states[k].volume != states[k - 1].volume ==> volume_changes(states, k + 1)
            == volume_changes(states, k) + 1,
        volume_changes(states, 1) == 0,
        test_changes(states, 1) == 0,
        test_changes(states, k + 1) == test_changes(states, k) + (if states[k].voices@[0].test
            != states[k - 1].voices@[0].test {
            1int
        } else {
            0
        }) + (if states[k].voices@[1].test != states[k - 1].voices@[1].test {
            1int
        } else {
            0
        }) + (if states[k].voices@[2].test != states[k - 1].voices@[2].test {
            1int
        } else {
            0
        }),
{
}

/// A selection of waveforms counts once for each voice that plays it, exactly or not.
pub proof fn selections_are_counted_per_voice(
    states: Seq<ProgramFrame>,
    k: int,
    mask: int,
    exact: bool,
)
    requires
        0 <= k < states.len(),
    ensures
        mask_frames(states, 0, mask, exact) == 0,
        mask_frames(states, k + 1, mask, exact) == mask_frames(states, k, mask, exact) + (if
        states[k].voices@[0].waveform / 16 == mask
            && states[k].digital_voices@[0].combined_waveform_exact == exact {
            1int
        } else {
            0
        }) + (if states[k].voices@[1].waveform / 16 == mask
            && states[k].digital_voices@[1].combined_waveform_exact == exact {
            1int
        } else {
            0
        }) + (if states[k].voices@[2].waveform / 16 == mask
            && states[k].digital_voices@[2].combined_waveform_exact == exact {
            1int
        } else {
            0
        }),
{
}

/// Spans and patches count once each where they show what is counted.
pub proof fn spans_and_patches_count_once(
    effects: Seq<EffectSpan>,
    e: EffectSpan,
    effect: Effect,
    patches: Seq<Patch>,
    p: Patch,
)
    ensures
        e.effect == effect ==> spans_of(effects.push(e), effect) == spans_of(effects, effect) + 1,
        e.effect != effect ==> spans_of(effects.push(e), effect) == spans_of(effects, effect),
        spans_of(Seq::empty(), effect) == 0,
        p.authored_effects ==> authored_of(patches.push(p)) == authored_of(patches) + 1,
        !p.authored_effects ==> authored_of(patches.push(p)) == authored_of(patches),
        authored_of(Seq::empty()) == 0,
{
    assert(effects.push(e).drop_last() =~= effects);
    assert(patches.push(p).drop_last() =~= patches);
}

/// What a note adds to the counts. Its velocity is either measured or not; a note that is
/// released and sounds on has just one kind of tail; a note whose sound never ended is
/// counted as cut off.
pub proof fn notes_are_counted_once(note: SynthNote, states: Seq<ProgramFrame>)
    ensures
        ({
            let t = note_totals(note, states);
            let a = articulation_of(note.event, states);
            let end = note.event.end_frame;
            let sound = note.event.sound_end;
            &&& t.measured_velocity + t.static_velocity == 1
            &&& t.measured_velocity == 1 <==> a.exact && a.peak_level >= 1
            &&& t.retriggers == a.retriggers
            &&& t.censored == 1 <==> end is Some && sound is None
            &&& t.censored <= 1
            &&& t.extended == 1 <==> end is Some && sound is Some && end->0 < sound->0
            &&& t.extended <= 1
            &&& t.stable_tails + t.moving_tails + t.changed_tails == t.extended
            &&& t.censored + t.extended <= 1
            &&& t.ring_mod == 1 <==> (note.characteristics matches Some(c) && c.ring_mod)
            &&& t.hard_sync == 1 <==> (note.characteristics matches Some(c) && c.hard_sync)
            &&& t.ring_mod <= 1 && t.hard_sync <= 1
            &&& t.moving_tails == 1 ==> exists|f: int|
                end->0 <= f && f + 1 < sound->0 && (#[trigger] states[f]).voices@[note.event.voice.0
                    - 1].freq != states[f + 1].voices@[note.event.voice.0 - 1].freq
            &&& t.stable_tails == 1 && sound->0 <= states.len() ==> forall|f: int|
                end->0 <= f && f + 1 < sound->0 ==> (#[trigger] states[f]).voices@[note.event.voice.0
                    - 1].freq == states[f + 1].voices@[note.event.voice.0 - 1].freq
        }),
{
}

/// Each note adds its own counts to those of the notes before it.
pub proof fn counts_add_up_over_notes(notes: Seq<SynthNote>, states: Seq<ProgramFrame>, k: int)
    requires
        0 <= k < notes.len(),
    ensures
        ({
            let a = all_notes(notes, states, k);
            let b = note_totals(notes[k], states);
            let t = all_notes(notes, states, k + 1);
            &&& t.measured_velocity == a.measured_velocity + b.measured_velocity
            &&& t.static_velocity == a.static_velocity + b.static_velocity
            &&& t.retriggers == a.retriggers + b.retriggers
            &&& t.censored == a.censored + b.censored
            &&& t.extended == a.extended + b.extended
            &&& t.stable_tails == a.stable_tails + b.stable_tails
            &&& t.moving_tails == a.moving_tails + b.moving_tails
            &&& t.changed_tails == a.changed_tails + b.changed_tails
            &&& t.ring_mod == a.ring_mod + b.ring_mod
            &&& t.hard_sync == a.hard_sync + b.hard_sync
        }),
{
}

/// The velocities of all notes are measured or not, and the tails of all extended notes are
/// of one of three kinds.
pub proof fn note_counts_are_complete(notes: Seq<SynthNote>, states: Seq<ProgramFrame>, k: int)
    requires
        0 <= k <= notes.len(),
    ensures
        ({
            let t = all_notes(notes, states, k);
            &&& t.measured_velocity + t.static_velocity == k
            &&& t.stable_tails + t.moving_tails + t.changed_tails == t.extended
            &&& t.extended + t.censored <= k
        }),
    decreases k,
{
    if k > 0 {
        note_counts_are_complete(notes, states, k - 1);
        notes_are_counted_once(notes[k - 1], states);
    }
}

/// The first sound of a track is that of its first segment that has one.
pub proof fn first_sounds_come_first(segments: Seq<Segment>, s: int, t: int)
    requires
        0 <= s <= t < segments.len(),
    ensures
        (forall|i: int| s <= i < t ==> (#[trigger] segments[i]).patch is None)
            && segments[t].patch is Some ==> first_sound(segments, s) == segments[t].patch,
        (forall|i: int| s <= i < segments.len() ==> (#[trigger] segments[i]).patch is None)
            ==> first_sound(segments, s) is None,
    decreases segments.len() - s,
{
    let _ = segments[s];
    if s < t {
        first_sounds_come_first(segments, s + 1, t);
    } else if s + 1 < segments.len() {
        first_sounds_come_first(segments, s + 1, s + 1);
    }
}

/// Flags count where they are set, and frequencies where they are not zero.
pub proof fn flags_and_frequencies_count_once(
    flags: Seq<bool>,
    frequencies: Seq<u16>,
    i: int,
    j: int,
)
    requires
        0 <= i < flags.len(),
        0 <= j < frequencies.len(),
    ensures
        flags[i] ==> flags_set(flags, i + 1) == flags_set(flags, i) + 1,
        !flags[i] ==> flags_set(flags, i + 1) == flags_set(flags, i),
        flags_set(flags, 0) == 0,
        frequencies[j] != 0 ==> overrides(frequencies, j + 1) == overrides(frequencies, j) + 1,
        frequencies[j] == 0 ==> overrides(frequencies, j + 1) == overrides(frequencies, j),
        overrides(frequencies, 0) == 0,
{
}

/// What a track adds to the counts: all its notes as percussion, or as raw, or neither; one
/// program, whose noise is seeded or poisoned; and its notes that are bent late.
pub proof fn tracks_are_counted_once(
    plan: TrackPlan,
    late: Seq<bool>,
    notes: Seq<SynthNote>,
    patches: Seq<Patch>,
    states: Seq<ProgramFrame>,
)
    ensures
        ({
            let t = plan_totals(plan, late, notes, patches, states);
            let n = plan.timeline@.len();
            &&& t.percussion == 0 || t.percussion == n
            &&& t.raw == 0 || t.raw == n
            &&& t.percussion == 0 || t.raw == 0
            &&& plan.drum_drop ==> t.percussion == n && t.raw == 0
            &&& !plan.drum_drop && (forall|s: int|
                0 <= s < plan.segments@.len() ==> (#[trigger] plan.segments@[s]).patch is None)
                ==> t.raw == n && t.percussion == 0
            &&& plan.waveform_program is Some ==> t.programs == 1 && t.seeded + t.poisoned == 1
            &&& plan.waveform_program is None ==> t.programs == 0 && t.seeded + t.poisoned == 0
                && t.override_steps == 0
            &&& t.late_vibrato == flags_set(late, late.len() as int)
        }),
{
    if !plan.drum_drop && forall|s: int|
        0 <= s < plan.segments@.len() ==> (#[trigger] plan.segments@[s]).patch is None {
        if plan.segments@.len() > 0 {
            first_sounds_come_first(plan.segments@, 0, 0);
        }
    }
}

/// A percentage is the nearest whole one, and the even one of two that are as near; of
/// nothing it is none.
pub proof fn percentages_are_nearest(part: nat, whole: nat)
    ensures
        whole == 0 ==> percentage(part, whole) == 0,
        whole > 0 ==> 2 * (100 * part - percentage(part, whole) * whole) <= whole,
        whole > 0 ==> 2 * (percentage(part, whole) * whole - 100 * part) <= whole,
        whole > 0 && (2 * (100 * part - percentage(part, whole) * whole) == whole || 2 * (
        percentage(part, whole) * whole - 100 * part) == whole) ==> percentage(part, whole) % 2
            == 0,
{
    if whole > 0 {
        let x = 100 * part;
        let q = x / whole;
        let r = x % whole;
        vstd::arithmetic::div_mod::lemma_fundamental_div_mod(x as int, whole as int);
        assert(whole * q == q * whole) by (nonlinear_arith);
        assert((q + 1) * whole == q * whole + whole) by (nonlinear_arith);
    }
}

/// The worst of some deviations is none below any that counts, and one of them if there is
/// one.
pub proof fn the_worst_deviation_is_reported(worst: Seq<u32>, i: int)
    requires
        0 <= i < worst.len(),
    ensures
        worst_of(worst) == 0 || worst.contains(worst_of(worst)),
        0 < worst[i] <= 0x7F80_0000 ==> worst[i] <= worst_of(worst),
    decreases worst.len(),
{
    reveal_with_fuel(worst_of, 2);
    let rest = worst.drop_last();
    if rest.len() > 0 {
        let j = if i < rest.len() {
            i
        } else {
            0
        };
        the_worst_deviation_is_reported(rest, j);
        if rest.contains(worst_of(rest)) {
            let m = choose|m: int| 0 <= m < rest.len() && rest[m] == worst_of(rest);
            assert(worst[m] == worst_of(rest));
            assert(worst.contains(worst_of(rest)));
        }
        if i < rest.len() {
            assert(rest[i] == worst[i]);
        }
    }
    assert(worst[worst.len() - 1] == worst.last());
    assert(worst.contains(worst.last()));
}

/// A pattern counts as musical if it has notes, and as a lane if it only has automation; the
/// points of a pattern are those of its lanes.
pub proof fn patterns_are_counted_by_what_they_hold(
    patterns: Seq<PatternView>,
    lanes: Seq<usize>,
    points: Seq<usize>,
    k: int,
    l: int,
)
    requires
        0 <= k < patterns.len(),
        0 <= l < lanes.len(),
    ensures
        patterns[k].notes.len() != 0 ==> musical_patterns(patterns, k + 1) == musical_patterns(
            patterns,
            k,
        ) + 1 && lane_patterns(patterns, k + 1) == lane_patterns(patterns, k),
        patterns[k].notes.len() == 0 ==> musical_patterns(patterns, k + 1) == musical_patterns(
            patterns,
            k,
        ),
        patterns[k].notes.len() == 0 && patterns[k].automation.len() != 0 ==> lane_patterns(
            patterns,
            k + 1,
        ) == lane_patterns(patterns, k) + 1,
        patterns[k].notes.len() == 0 && patterns[k].automation.len() == 0 ==> lane_patterns(
            patterns,
            k + 1,
        ) == lane_patterns(patterns, k),
        musical_patterns(patterns, 0) == 0,
        lane_patterns(patterns, 0) == 0,
        points_of(lanes, points, l + 1) == points_of(lanes, points, l) + points[lanes[l] as int],
        points_of(lanes, points, 0) == 0,
{
}

/// What came from the player itself is reported as such, what was measured or put right
/// after the trace as that, and what nobody knows as unsupported.
pub proof fn provenance_is_reported_honestly(p: Provenance)
    ensures
        reported(p) is AuthoredVerified <==> p is AuthoredVerified,
        reported(p) is AuthoredDecoded <==> p is AuthoredDecoded,
        reported(p) is AuthoredPartial <==> p is AuthoredPartial,
        reported(p) is TraceMeasured <==> p is TraceMeasured || p is RenderMeasured,
        reported(p) is TraceCorrected <==> p is TraceCorrected,
        reported(p) is Unsupported <==> p is Unsupported || p is Unknown,
        reported(p) is Inferred <==> p is Inferred || p is Approximated || p is ExactEmulation,
{
}

/// A tune counts as structured just where a structure was recovered from its player, and as
/// decoded where the player was read without one.
pub proof fn capability_follows_what_was_recovered(native: Option<NativeCensus>)
    ensures
        capability(native) is Absent <==> native is None,
        capability(native) is Structured <==> (native matches Some(n) && n.recovered_structure is Some),
        capability(native) is Decoded <==> (native matches Some(n) && n.recovered_structure is None),
{
}

/// What the third oscillator drives is exported only with enough confidence and only where a
/// track can show it.
pub proof fn contours_need_confidence_and_a_track(
    target: Osc3Target,
    confidence: u8,
    plans: Seq<TrackPlan>,
    dropped: bool,
    p: int,
)
    requires
        0 <= p < plans.len(),
    ensures
        confidence < 70 ==> !contour_exported(
            target,
            confidence,
            plans,
            dropped,
        ),
        target is Other ==> !contour_exported(target, confidence, plans, dropped),
        target is Volume && dropped ==> !contour_exported(target, confidence, plans, dropped),
        confidence >= 70 ==> {
            &&& target is Pitch ==> contour_exported(target, confidence, plans, dropped)
            &&& target is Volume && !dropped ==> contour_exported(
                target,
                confidence,
                plans,
                dropped,
            )
            &&& target is PulseWidth && plans[p].shape.waveform is Pulse ==> contour_exported(
                target,
                confidence,
                plans,
                dropped,
            )
            &&& target is FilterCutoff && plans[p].shape.filter_kind is Some ==> contour_exported(
                target,
                confidence,
                plans,
                dropped,
            )
        },
        (forall|i: int| 0 <= i < plans.len() ==> !((#[trigger] plans[i]).shape.waveform is Pulse))
            && target is PulseWidth ==> !contour_exported(target, confidence, plans, dropped),
        (forall|i: int| 0 <= i < plans.len() ==> (#[trigger] plans[i]).shape.filter_kind is None)
            && target is FilterCutoff ==> !contour_exported(target, confidence, plans, dropped),
{
    let _ = plans[p];
}

/// A combination is listed just where it was played: once for what was exact and once for
/// what was not, each with its count. A single waveform is none.
pub proof fn played_combinations_are_listed(model: SidModel, counts: Seq<u64>, k: int, i: int)
    requires
        0 <= k < 16,
        counts.len() == 32,
        0 <= i < policies(model, counts, k).len(),
    ensures
        ({
            let a = policies(model, counts, k);
            let b = policies(model, counts, k + 1);
            let bits = k % 2 + k / 2 % 2 + k / 4 % 2 + k / 8 % 2;
            &&& bits < 2 ==> b == a
            &&& bits >= 2 ==> b.len() == a.len() + (if counts[k] > 0 {
                1int
            } else {
                0
            }) + (if counts[k + 16] > 0 {
                1int
            } else {
                0
            })
            &&& b.take(a.len() as int) == a
            &&& a[i].1 > 0
        }),
        policies(model, counts, 0).len() == 0,
    decreases k,
{
    let a = policies(model, counts, k);
    let b = policies(model, counts, k + 1);
    assert(b.take(a.len() as int) =~= a);
    if k > 0 {
        let c = policies(model, counts, k - 1);
        if i < c.len() {
            played_combinations_are_listed(model, counts, k - 1, i);
            assert(a.take(c.len() as int)[i] == a[i]);
        }
    }
}

} // verus!
