//! What is counted over the notes, the tracks and the effects of a tune.

use crate::analysis::frame::{Effect, EffectSpan, NoteEvent, ProgramFrame};
use crate::analysis::patch::Patch;
use super::frames::one_if;
use super::super::articulation::{
    articulation_is_automatable, articulation_of, attacks_countable, automatable,
    chip_articulation, frequency_moves, moves_in_frequency, release_waveform_is_stable,
    stable_release, ChipArticulation,
};
use super::super::emission::segments_fit;
use super::super::naming::{is_raw, plan_is_raw};
use super::super::oscillator::{
    noise_frequencies, noise_poisoned, plan_noise_state_poisoned, program_noise_frequencies,
};
use super::super::ownership::{plans_fit, timeline_fits};
use super::super::timbre::{is_sid_percussion, optional_view, tuned_percussion};
use super::super::tracks::{Segment, SynthNote, TrackPlan};
use vstd::prelude::*;

verus! {

/// How many spans show an effect.
pub open spec fn spans_of(effects: Seq<EffectSpan>, effect: Effect) -> nat
    decreases effects.len(),
{
    if effects.len() == 0 {
        0
    } else {
        spans_of(effects.drop_last(), effect) + one_if(effects.last().effect == effect)
    }
}

/// Counts the spans that show an effect.
pub fn count_spans(effects: &[EffectSpan], effect: Effect) -> (r: usize)
    ensures
        r == spans_of(effects@, effect),
{
    let mut n: usize = 0;
    let mut i: usize = 0;
    assert(effects@.take(0) =~= Seq::<EffectSpan>::empty());
    while i < effects.len()
        invariant
            i <= effects@.len(),
            n <= i,
            n == spans_of(effects@.take(i as int), effect),
        decreases effects@.len() - i,
    {
        assert(effects@.take(i + 1).drop_last() =~= effects@.take(i as int));
        if effects[i].effect == effect {
            n += 1;
        }
        i += 1;
    }
    assert(effects@.take(effects@.len() as int) =~= effects@);
    n
}

/// How many sounds carry effects of the driver itself.
pub open spec fn authored_of(patches: Seq<Patch>) -> nat
    decreases patches.len(),
{
    if patches.len() == 0 {
        0
    } else {
        authored_of(patches.drop_last()) + one_if(patches.last().authored_effects)
    }
}

/// Counts the sounds that carry effects of the driver itself.
pub fn count_authored(patches: &[Patch]) -> (r: usize)
    ensures
        r == authored_of(patches@),
{
    let mut n: usize = 0;
    let mut i: usize = 0;
    assert(patches@.take(0) =~= Seq::<Patch>::empty());
    while i < patches.len()
        invariant
            i <= patches@.len(),
            n <= i,
            n == authored_of(patches@.take(i as int)),
        decreases patches@.len() - i,
    {
        assert(patches@.take(i + 1).drop_last() =~= patches@.take(i as int));
        if patches[i].authored_effects {
            n += 1;
        }
        i += 1;
    }
    assert(patches@.take(patches@.len() as int) =~= patches@);
    n
}

/// What is counted over notes.
pub struct NoteTotals {
    pub measured_velocity: nat,
    pub static_velocity: nat,
    pub retriggers: nat,
    pub censored: nat,
    pub extended: nat,
    pub stable_tails: nat,
    pub moving_tails: nat,
    pub changed_tails: nat,
    pub ring_mod: nat,
    pub hard_sync: nat,
}

/// Whether a note sounds on behind its release.
pub open spec fn sounds_on(event: NoteEvent) -> bool {
    event.end_frame is Some && event.sound_end is Some && event.sound_end->0 > event.end_frame->0
}

/// Whether the frequency of a note moves behind its release.
pub open spec fn tail_moves(event: NoteEvent, states: Seq<ProgramFrame>) -> bool {
    event.sound_end->0 <= states.len() && frequency_moves(
        states,
        event.voice.0 - 1,
        event.end_frame->0 as int,
        event.sound_end->0 as int,
    )
}

/// What a note adds.
pub open spec fn note_totals(note: SynthNote, states: Seq<ProgramFrame>) -> NoteTotals {
    let a = articulation_of(note.event, states);
    let measured = a.exact && a.peak_level > 0;
    let on = sounds_on(note.event);
    let stable = stable_release(note.event, states);
    NoteTotals {
        measured_velocity: one_if(measured),
        static_velocity: one_if(!measured),
        retriggers: a.retriggers as nat,
        censored: one_if(note.event.end_frame is Some && note.event.sound_end is None),
        extended: one_if(on),
        stable_tails: one_if(on && stable && !tail_moves(note.event, states)),
        moving_tails: one_if(on && stable && tail_moves(note.event, states)),
        changed_tails: one_if(on && !stable),
        ring_mod: one_if(note.characteristics is Some && note.characteristics->0.ring_mod),
        hard_sync: one_if(note.characteristics is Some && note.characteristics->0.hard_sync),
    }
}

/// What the first `k` notes add up to.
pub open spec fn all_notes(notes: Seq<SynthNote>, states: Seq<ProgramFrame>, k: int) -> NoteTotals
    decreases k,
{
    if k <= 0 {
        NoteTotals {
            measured_velocity: 0,
            static_velocity: 0,
            retriggers: 0,
            censored: 0,
            extended: 0,
            stable_tails: 0,
            moving_tails: 0,
            changed_tails: 0,
            ring_mod: 0,
            hard_sync: 0,
        }
    } else {
        let a = all_notes(notes, states, k - 1);
        let b = note_totals(notes[k - 1], states);
        NoteTotals {
            measured_velocity: a.measured_velocity + b.measured_velocity,
            static_velocity: a.static_velocity + b.static_velocity,
            retriggers: a.retriggers + b.retriggers,
            censored: a.censored + b.censored,
            extended: a.extended + b.extended,
            stable_tails: a.stable_tails + b.stable_tails,
            moving_tails: a.moving_tails + b.moving_tails,
            changed_tails: a.changed_tails + b.changed_tails,
            ring_mod: a.ring_mod + b.ring_mod,
            hard_sync: a.hard_sync + b.hard_sync,
        }
    }
}

/// What is counted over notes.
#[derive(Debug, Clone, Copy, PartialEq, Eq, Structural)]
pub struct NoteCensus {
    /// Notes whose level was measured.
    pub measured_velocity: u64,
    /// Notes whose level is the driver's.
    pub static_velocity: u64,
    /// Attacks beyond the first of each note.
    pub retriggers: u64,
    /// Released notes whose end was not observed.
    pub censored: u64,
    /// Notes that sound on behind their release.
    pub extended: u64,
    pub stable_tails: u64,
    pub moving_tails: u64,
    /// Tails whose waveform changes.
    pub changed_tails: u64,
    pub ring_mod: u64,
    pub hard_sync: u64,
}

impl NoteCensus {
    /// The counts as numbers.
    pub open spec fn view(self) -> NoteTotals {
        NoteTotals {
            measured_velocity: self.measured_velocity as nat,
            static_velocity: self.static_velocity as nat,
            retriggers: self.retriggers as nat,
            censored: self.censored as nat,
            extended: self.extended as nat,
            stable_tails: self.stable_tails as nat,
            moving_tails: self.moving_tails as nat,
            changed_tails: self.changed_tails as nat,
            ring_mod: self.ring_mod as nat,
            hard_sync: self.hard_sync as nat,
        }
    }
}

/// Whether the notes of a tune are on voices that exist, with attacks that can be
/// counted.
pub open spec fn notes_fit(notes: Seq<SynthNote>, states: Seq<ProgramFrame>) -> bool {
    forall|k: int|
        0 <= k < notes.len() ==> (#[trigger] notes[k]).event.voice.valid() && attacks_countable(
            notes[k].event,
            states,
        )
}

/// Counts over the notes of a tune.
pub fn count_notes(notes: &[SynthNote], states: &[ProgramFrame]) -> (r: NoteCensus)
    requires
        notes@.len() <= u32::MAX,
        notes_fit(notes@, states@),
    ensures
        r.view() == all_notes(notes@, states@, notes@.len() as int),
{
    let mut c: NoteCensus = NoteCensus {
        measured_velocity: 0,
        static_velocity: 0,
        retriggers: 0,
        censored: 0,
        extended: 0,
        stable_tails: 0,
        moving_tails: 0,
        changed_tails: 0,
        ring_mod: 0,
        hard_sync: 0,
    };
    let mut k: usize = 0;
    while k < notes.len()
        invariant
            k <= notes@.len() <= u32::MAX,
            notes_fit(notes@, states@),
            c.view() == all_notes(notes@, states@, k as int),
            c.measured_velocity <= k && c.static_velocity <= k && c.censored <= k && c.extended <= k,
            c.stable_tails <= k && c.moving_tails <= k && c.changed_tails <= k,
            c.ring_mod <= k && c.hard_sync <= k,
            c.retriggers <= k * 0xFFFF_FFFF,
        decreases notes@.len() - k,
    {
        let note: &SynthNote = &notes[k];
        assert(notes@[k as int].event.voice.valid());
        let a: ChipArticulation = chip_articulation(&note.event, states);
        let ghost here = note_totals(*note, states@);
        if a.exact && a.peak_level > 0 {
            c.measured_velocity += 1;
        } else {
            c.static_velocity += 1;
        }
        c.retriggers += a.retriggers as u64;
        if let Some(release) = note.event.end_frame {
            match note.event.sound_end {
                None => {
                    c.censored += 1;
                },
                Some(sound_end) => {
                    if sound_end > release {
                        c.extended += 1;
                        if release_waveform_is_stable(&note.event, states) {
                            let moving: bool = if sound_end as usize <= states.len() {
                                moves_in_frequency(
                                    states,
                                    note.event.voice.to_index(),
                                    release as usize,
                                    sound_end as usize,
                                )
                            } else {
                                false
                            };
                            if moving {
                                c.moving_tails += 1;
                            } else {
                                c.stable_tails += 1;
                            }
                        } else {
                            c.changed_tails += 1;
                        }
                    }
                },
            }
        }
        if let Some(ch) = &note.characteristics {
            if ch.ring_mod {
                c.ring_mod += 1;
            }
            if ch.hard_sync {
                c.hard_sync += 1;
            }
        }
        k += 1;
    }
    c
}

/// The first sound of a track.
pub open spec fn first_sound(segments: Seq<Segment>, s: int) -> Option<usize>
    decreases segments.len() - s,
{
    if s < 0 || s >= segments.len() {
        None
    } else if segments[s].patch is Some {
        segments[s].patch
    } else {
        first_sound(segments, s + 1)
    }
}

fn find_first_sound(segments: &[Segment]) -> (r: Option<usize>)
    ensures
        r == first_sound(segments@, 0),
        r matches Some(p) ==> exists|s: int|
            0 <= s < segments@.len() && #[trigger] segments@[s].patch == Some(p),
{
    let mut s: usize = 0;
    while s < segments.len()
        invariant
            s <= segments@.len(),
            first_sound(segments@, 0) == first_sound(segments@, s as int),
        decreases segments@.len() - s,
    {
        if let Some(p) = segments[s].patch {
            assert(segments@[s as int].patch == Some(p));
            return Some(p);
        }
        s += 1;
    }
    None
}

/// How many of the first `k` flags are set.
pub open spec fn flags_set(flags: Seq<bool>, k: int) -> nat
    decreases k,
{
    if k <= 0 {
        0
    } else {
        flags_set(flags, k - 1) + one_if(flags[k - 1])
    }
}

/// How many of the first `k` steps have a frequency of their own.
pub open spec fn overrides(frequencies: Seq<u16>, k: int) -> nat
    decreases k,
{
    if k <= 0 {
        0
    } else {
        overrides(frequencies, k - 1) + one_if(frequencies[k - 1] > 0)
    }
}

/// How many of the first `k` notes of a timeline can be automated.
pub open spec fn automated(
    timeline: Seq<(usize, usize)>,
    notes: Seq<SynthNote>,
    states: Seq<ProgramFrame>,
    k: int,
) -> nat
    decreases k,
{
    if k <= 0 {
        0
    } else {
        automated(timeline, notes, states, k - 1) + one_if(
            automatable(notes[timeline[k - 1].1 as int].event, states),
        )
    }
}

/// What is counted over tracks.
pub struct PlanTotals {
    pub late_vibrato: nat,
    pub percussion: nat,
    pub raw: nat,
    pub programs: nat,
    pub override_steps: nat,
    pub seeded: nat,
    pub poisoned: nat,
    pub automated: nat,
}

/// Whether the notes of a track are percussion.
pub open spec fn percussive(plan: TrackPlan, patches: Seq<Patch>) -> bool {
    plan.drum_drop || (first_sound(plan.segments@, 0) matches Some(p) && tuned_percussion(
        patches[p as int],
    ))
}

/// What a track adds. `late` tells of each of its notes whether its vibrato sets
/// in late.
pub open spec fn plan_totals(
    plan: TrackPlan,
    late: Seq<bool>,
    notes: Seq<SynthNote>,
    patches: Seq<Patch>,
    states: Seq<ProgramFrame>,
) -> PlanTotals {
    let n = plan.timeline@.len();
    let v = plan.voice.0 - 1;
    let program = plan.waveform_program is Some;
    let poisoned = noise_poisoned(plan.timeline@, notes, states, v);
    PlanTotals {
        late_vibrato: flags_set(late, late.len() as int),
        percussion: if percussive(plan, patches) {
            n
        } else {
            0
        },
        raw: if !percussive(plan, patches) && is_raw(plan.segments@) {
            n
        } else {
            0
        },
        programs: one_if(program),
        override_steps: if program {
            overrides(
                noise_frequencies(
                    optional_view(plan.waveform_program),
                    plan.timeline@,
                    notes,
                    states,
                    v,
                ),
                16,
            )
        } else {
            0
        },
        seeded: one_if(program && !poisoned),
        poisoned: one_if(program && poisoned),
        automated: automated(plan.timeline@, notes, states, n as int),
    }
}

/// Both counts together.
pub open spec fn plan_sum(a: PlanTotals, b: PlanTotals) -> PlanTotals {
    PlanTotals {
        late_vibrato: a.late_vibrato + b.late_vibrato,
        percussion: a.percussion + b.percussion,
        raw: a.raw + b.raw,
        programs: a.programs + b.programs,
        override_steps: a.override_steps + b.override_steps,
        seeded: a.seeded + b.seeded,
        poisoned: a.poisoned + b.poisoned,
        automated: a.automated + b.automated,
    }
}

/// What the first `k` tracks add up to.
pub open spec fn all_plans(
    plans: Seq<TrackPlan>,
    late: Seq<Vec<bool>>,
    notes: Seq<SynthNote>,
    patches: Seq<Patch>,
    states: Seq<ProgramFrame>,
    k: int,
) -> PlanTotals
    decreases k,
{
    if k <= 0 {
        PlanTotals {
            late_vibrato: 0,
            percussion: 0,
            raw: 0,
            programs: 0,
            override_steps: 0,
            seeded: 0,
            poisoned: 0,
            automated: 0,
        }
    } else {
        plan_sum(
            all_plans(plans, late, notes, patches, states, k - 1),
            plan_totals(plans[k - 1], late[k - 1]@, notes, patches, states),
        )
    }
}

/// Whether counts fit their fields.
pub open spec fn plans_counted(t: PlanTotals) -> bool {
    &&& t.late_vibrato <= usize::MAX
    &&& t.percussion <= usize::MAX
    &&& t.raw <= usize::MAX
    &&& t.programs <= usize::MAX
    &&& t.override_steps <= usize::MAX
    &&& t.seeded <= usize::MAX
    &&& t.poisoned <= usize::MAX
    &&& t.automated <= u64::MAX
}

/// What is counted over tracks.
#[derive(Debug, Clone, Copy, PartialEq, Eq, Structural)]
pub struct PlanCensus {
    /// Notes whose vibrato becomes a lane of their track's pitch.
    pub late_vibrato: usize,
    pub percussion: usize,
    /// Notes of tracks without a sound.
    pub raw: usize,
    /// Tracks that play a waveform program.
    pub programs: usize,
    /// Program steps with a frequency of their own.
    pub override_steps: usize,
    pub seeded: usize,
    pub poisoned: usize,
    /// Notes whose envelope can be automated.
    pub automated: u64,
}

impl PlanCensus {
    /// The counts as numbers.
    pub open spec fn view(self) -> PlanTotals {
        PlanTotals {
            late_vibrato: self.late_vibrato as nat,
            percussion: self.percussion as nat,
            raw: self.raw as nat,
            programs: self.programs as nat,
            override_steps: self.override_steps as nat,
            seeded: self.seeded as nat,
            poisoned: self.poisoned as nat,
            automated: self.automated as nat,
        }
    }
}

fn count_flags(flags: &[bool]) -> (r: usize)
    ensures
        r == flags_set(flags@, flags@.len() as int),
{
    let mut n: usize = 0;
    let mut i: usize = 0;
    while i < flags.len()
        invariant
            i <= flags@.len(),
            n <= i,
            n == flags_set(flags@, i as int),
        decreases flags@.len() - i,
    {
        if flags[i] {
            n += 1;
        }
        i += 1;
    }
    n
}

fn count_overrides(frequencies: &[u16]) -> (r: usize)
    ensures
        r == overrides(frequencies@, frequencies@.len() as int),
        r <= frequencies@.len(),
{
    let mut n: usize = 0;
    let mut i: usize = 0;
    while i < frequencies.len()
        invariant
            i <= frequencies@.len(),
            n <= i,
            n == overrides(frequencies@, i as int),
        decreases frequencies@.len() - i,
    {
        if frequencies[i] > 0 {
            n += 1;
        }
        i += 1;
    }
    n
}

fn count_automated(plan: &TrackPlan, notes: &[SynthNote], states: &[ProgramFrame]) -> (r: u64)
    requires
        timeline_fits(plan.timeline@, notes@),
        notes_fit(notes@, states@),
    ensures
        r == automated(plan.timeline@, notes@, states@, plan.timeline@.len() as int),
{
    let mut n: u64 = 0;
    let mut t: usize = 0;
    while t < plan.timeline.len()
        invariant
            t <= plan.timeline@.len(),
            n <= t,
            timeline_fits(plan.timeline@, notes@),
            notes_fit(notes@, states@),
            n == automated(plan.timeline@, notes@, states@, t as int),
        decreases plan.timeline@.len() - t,
    {
        assert(plan.timeline@[t as int].1 < notes@.len());
        let at: usize = plan.timeline[t].1;
        assert(notes@[at as int].event.voice.valid());
        if articulation_is_automatable(&notes[at].event, states) {
            n += 1;
        }
        t += 1;
    }
    n
}

fn count_plan(
    plan: &TrackPlan,
    late: &[bool],
    notes: &[SynthNote],
    patches: &[Patch],
    states: &[ProgramFrame],
) -> (r: PlanCensus)
    requires
        plan.voice.valid(),
        timeline_fits(plan.timeline@, notes@),
        notes_fit(notes@, states@),
        segments_fit(plan.segments@, patches@),
    ensures
        r.view() == plan_totals(*plan, late@, notes@, patches@, states@),
{
    let n: usize = plan.timeline.len();
    let mut percussion: bool = plan.drum_drop;
    if let Some(p) = find_first_sound(plan.segments.as_slice()) {
        proof {
            let s = choose|s: int|
                0 <= s < plan.segments@.len() && #[trigger] plan.segments@[s].patch == Some(p);
            assert(plan.segments@[s].patch == Some(p));
            assert(p < patches@.len());
        }
        if is_sid_percussion(&patches[p]) {
            percussion = true;
        }
    }
    let raw: bool = plan_is_raw(plan);
    let program: bool = plan.waveform_program.is_some();
    let mut override_steps: usize = 0;
    let mut poisoned: bool = false;
    if program {
        let frequencies: Vec<u16> = program_noise_frequencies(plan, notes, states);
        override_steps = count_overrides(frequencies.as_slice());
        poisoned = plan_noise_state_poisoned(plan, notes, states);
    }
    PlanCensus {
        late_vibrato: count_flags(late),
        percussion: if percussion {
            n
        } else {
            0
        },
        raw: if !percussion && raw {
            n
        } else {
            0
        },
        programs: if program {
            1
        } else {
            0
        },
        override_steps,
        seeded: if program && !poisoned {
            1
        } else {
            0
        },
        poisoned: if program && poisoned {
            1
        } else {
            0
        },
        automated: count_automated(plan, notes, states),
    }
}

proof fn plans_grow(
    plans: Seq<TrackPlan>,
    late: Seq<Vec<bool>>,
    notes: Seq<SynthNote>,
    patches: Seq<Patch>,
    states: Seq<ProgramFrame>,
    k: int,
    n: int,
)
    requires
        0 <= k <= n,
        plans_counted(all_plans(plans, late, notes, patches, states, n)),
    ensures
        plans_counted(all_plans(plans, late, notes, patches, states, k)),
    decreases n - k,
{
    if k < n {
        plans_grow(plans, late, notes, patches, states, k, n - 1);
    }
}

/// Counts over the tracks of a song. `late` tells of each note of each track
/// whether its vibrato sets in late.
pub fn count_plans(
    plans: &[TrackPlan],
    late: &[Vec<bool>],
    notes: &[SynthNote],
    patches: &[Patch],
    states: &[ProgramFrame],
) -> (r: PlanCensus)
    requires
        plans_fit(plans@, notes@),
        notes_fit(notes@, states@),
        forall|p: int|
            0 <= p < plans@.len() ==> segments_fit((#[trigger] plans@[p]).segments@, patches@),
        late@.len() == plans@.len(),
        plans_counted(
            all_plans(plans@, late@, notes@, patches@, states@, plans@.len() as int),
        ),
    ensures
        r.view() == all_plans(plans@, late@, notes@, patches@, states@, plans@.len() as int),
{
    let mut c: PlanCensus = PlanCensus {
        late_vibrato: 0,
        percussion: 0,
        raw: 0,
        programs: 0,
        override_steps: 0,
        seeded: 0,
        poisoned: 0,
        automated: 0,
    };
    let mut p: usize = 0;
    while p < plans.len()
        invariant
            p <= plans@.len(),
            plans_fit(plans@, notes@),
            notes_fit(notes@, states@),
            forall|p: int|
                0 <= p < plans@.len() ==> segments_fit((#[trigger] plans@[p]).segments@, patches@),
            late@.len() == plans@.len(),
            plans_counted(
                all_plans(plans@, late@, notes@, patches@, states@, plans@.len() as int),
            ),
            c.view() == all_plans(plans@, late@, notes@, patches@, states@, p as int),
        decreases plans@.len() - p,
    {
        assert(plans@[p as int].voice.valid());
        let here: PlanCensus = count_plan(&plans[p], late[p].as_slice(), notes, patches, states);
        proof {
            plans_grow(
                plans@,
                late@,
                notes@,
                patches@,
                states@,
                p + 1,
                plans@.len() as int,
            );
        }
        c.late_vibrato = c.late_vibrato + here.late_vibrato;
        c.percussion = c.percussion + here.percussion;
        c.raw = c.raw + here.raw;
        c.programs = c.programs + here.programs;
        c.override_steps = c.override_steps + here.override_steps;
        c.seeded = c.seeded + here.seeded;
        c.poisoned = c.poisoned + here.poisoned;
        c.automated = c.automated + here.automated;
        p += 1;
    }
    c
}

/// Every note is counted once by its level, and every note that sounds on behind
/// its release once by its tail.
pub proof fn note_counts_partition(notes: Seq<SynthNote>, states: Seq<ProgramFrame>, k: int)
    requires
        0 <= k <= notes.len(),
    ensures
        all_notes(notes, states, k).measured_velocity + all_notes(notes, states, k).static_velocity
            == k,
        all_notes(notes, states, k).stable_tails + all_notes(notes, states, k).moving_tails
            + all_notes(notes, states, k).changed_tails == all_notes(notes, states, k).extended,
    decreases k,
{
    if k > 0 {
        note_counts_partition(notes, states, k - 1);
    }
}

} // verus!
