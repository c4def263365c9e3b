use sid_analyzer::analysis::frame::{FilterMode, NoteEvent, ProgramFrame, VoiceFrame};
use sid_analyzer::analysis::patch::{AuthoredPwm, Patch, PatchVoiceProfile, RoleTags};
use sid_analyzer::analysis::program::VoiceId;
use sid_analyzer::export::synth::emission::{
    write_track, EmissionOptions, EventInput, TrackInput,
};
use sid_analyzer::export::synth::instruments::select::plan_authored_pwm;
use sid_analyzer::export::synth::naming::{plan_base_name, plan_name, plan_timbre};
use sid_analyzer::export::synth::notes::{choose_vibrato, PitchMeasures, Vibrato, VibratoShape};
use sid_analyzer::export::synth::ownership::PhysicalVoiceOwnership;
use sid_analyzer::export::synth::tracks::{build_track_plans, SynthNote, TrackPlan};
use sid_analyzer::trace::Adsr;

const STEADY: Adsr = Adsr {
    attack: 0,
    decay: 8,
    sustain: 15,
    release: 8,
};

const LOW_PASS: FilterMode = FilterMode {
    low_pass: true,
    band_pass: false,
    high_pass: false,
};

fn profile(filtered: bool, arpeggio: Option<Vec<i8>>) -> PatchVoiceProfile {
    PatchVoiceProfile {
        voice: VoiceId(1),
        filter_routed: filtered,
        filter_mode: LOW_PASS,
        ring_mod: false,
        hard_sync: false,
        waveform_loop: None,
        arpeggio_loop: arpeggio,
    }
}

fn lead(id: u16, profile: PatchVoiceProfile) -> Patch {
    Patch {
        id,
        adsr: STEADY,
        waveform: 0x41,
        role_tags: RoleTags {
            lead: true,
            ..RoleTags::default()
        },
        authored_effects: false,
        authored_pwm: None,
        voices: vec![profile],
    }
}

fn heard(start: u32, midi: u8, patch_id: Option<u16>) -> SynthNote {
    SynthNote {
        event: NoteEvent {
            voice: VoiceId(1),
            start_frame: start,
            end_frame: Some(start + 10),
            sound_end: None,
            midi,
            millicents: 0,
            velocity: 127,
        },
        patch_id,
        characteristics: None,
        has_vibrato: false,
    }
}

fn gated(pitches: &[u8]) -> Vec<ProgramFrame> {
    pitches
        .iter()
        .map(|&pitch| {
            let mut state = ProgramFrame::default();
            state.voices[0] = VoiceFrame {
                freq: 1000,
                pitch: Some(pitch),
                gate: true,
                waveform: 0x40,
                ..VoiceFrame::default()
            };
            state
        })
        .collect()
}

fn single_plan(notes: &[SynthNote], patches: &[Patch], states: &[ProgramFrame]) -> TrackPlan {
    let mut plans = build_track_plans(notes, patches, states, states.len() as u32);
    assert_eq!(plans.len(), 1);
    plans.remove(0)
}

#[test]
fn every_note_is_in_one_track() {
    let patches = vec![lead(0, profile(false, None)), lead(1, profile(true, None))];
    let notes = vec![
        heard(0, 60, Some(0)),
        heard(10, 62, Some(1)),
        heard(20, 64, Some(0)),
        heard(30, 65, None),
    ];
    let states = gated(&[60; 40]);
    let plans = build_track_plans(&notes, &patches, &states, 40);
    let mut found: Vec<usize> = plans
        .iter()
        .flat_map(|plan| plan.timeline.iter().map(|entry| entry.1))
        .collect();
    found.sort_unstable();
    assert_eq!(found, vec![0, 1, 2, 3]);
    let ids: Vec<u32> = plans.iter().map(|plan| plan.instrument_id).collect();
    assert_eq!(ids, (1..=plans.len() as u32).collect::<Vec<u32>>());
}

#[test]
fn a_track_is_named_after_its_role_and_its_sound() {
    let patches = vec![lead(0, profile(true, Some(vec![0, 4, 7])))];
    let notes = vec![heard(0, 60, Some(0))];
    let plan = single_plan(&notes, &patches, &gated(&[60; 10]));
    assert_eq!(plan_timbre(&plan, &patches), "pulse lowpass arp");
    assert_eq!(plan_base_name(&plan, &patches), "V1 Lead");
    assert_eq!(plan_name(&plan, &patches), "V1 Lead pulse lowpass arp · i1");
}

#[test]
fn a_track_without_a_sound_is_raw() {
    let notes = vec![heard(0, 60, None)];
    let plan = single_plan(&notes, &[], &gated(&[60; 10]));
    assert_eq!(plan_base_name(&plan, &[]), "V1 raw");
    assert_eq!(plan_name(&plan, &[]), "V1 raw · i1");
}

#[test]
fn a_pulse_program_runs_only_if_a_note_agrees_and_none_disagrees() {
    let mut patch = lead(0, profile(false, None));
    let pwm = AuthoredPwm {
        period_frames: 2,
        step: 32,
    };
    patch.authored_pwm = Some(pwm);
    let patches = vec![patch];
    let notes = vec![heard(0, 60, Some(0)), heard(10, 62, Some(0))];
    let plan = single_plan(&notes, &patches, &gated(&[60; 20]));
    assert_eq!(plan_authored_pwm(&plan, &patches, &[None, Some(true)]), Some(pwm));
    assert_eq!(plan_authored_pwm(&plan, &patches, &[Some(true), Some(false)]), None);
    assert_eq!(plan_authored_pwm(&plan, &patches, &[None, None]), None);
}

#[test]
fn a_track_is_written_note_by_note() {
    let patches = vec![lead(0, profile(false, None))];
    let notes = vec![heard(0, 60, Some(0)), heard(10, 62, Some(0))];
    let mut states = gated(&[60; 10]);
    states.extend(gated(&[62; 10]));
    let plan = single_plan(&notes, &patches, &states);
    let ownership = PhysicalVoiceOwnership::from_plans(std::slice::from_ref(&plan), &notes);
    let unmeasured = |verdict: Option<bool>, pitch: u8| EventInput {
        measures: PitchMeasures {
            slide: None,
            vibrato: None,
            chirp_on_note: None,
            chirp_on_plateau: None,
        },
        verdict,
        pitches: vec![Some(pitch); 10],
    };
    let mut input = TrackInput {
        plan: &plan,
        events: &notes,
        patches: &patches,
        inputs: &[unmeasured(Some(true), 60), unmeasured(Some(true), 62)],
        states: &states,
        effects: &[],
        ownership: &ownership,
        options: EmissionOptions {
            frame_count: 20,
            ticks_per_frame: 24,
            forward_gate: true,
            arpeggiator: false,
        },
    };
    let written = write_track(&input);
    let starts: Vec<(u32, u32)> = written.notes.iter().map(|n| (n.start, n.pitch)).collect();
    assert_eq!(starts, vec![(0, 60), (240, 62)]);
    assert_eq!((written.events_degraded, written.events_silent), (0, 0));

    // A proposal that disagrees is replaced by what the chip played.
    let refuted = [unmeasured(Some(false), 60), unmeasured(Some(true), 62)];
    input.inputs = &refuted;
    let written = write_track(&input);
    assert_eq!(written.events_degraded, 1);
    assert_eq!(written.notes[0].pitch, 60);
}

fn vibrato(depth: f32, delay: f32) -> Vibrato {
    Vibrato {
        depth: depth.to_bits(),
        rate: 6.0f32.to_bits(),
        delay: delay.to_bits(),
        shape: VibratoShape::Triangle,
    }
}

#[test]
fn an_authored_vibrato_has_to_miss_by_less() {
    let measured = vibrato(0.5, 0.0);
    let authored = vibrato(0.25, 0.0);
    let score = |cents: f32| Some(cents.to_bits());
    let choose = |m, a| choose_vibrato(Some(measured), Some(authored), m, a);
    assert_eq!(choose(score(8.0), score(4.0)), Some(authored));
    assert_eq!(choose(score(4.0), score(4.0)), Some(measured));
    assert_eq!(choose(score(4.0), None), Some(measured));
    assert_eq!(choose_vibrato(None, Some(authored), None, None), Some(authored));
    let late = vibrato(0.5, 100.0);
    assert_eq!(
        choose_vibrato(Some(late), Some(authored), score(8.0), score(4.0)),
        Some(late)
    );
}
