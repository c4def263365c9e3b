use sid_analyzer::analysis::frame::{
    EnvelopeEvent, EnvelopeEventKind, FilterFrame, FilterMode, NoteEvent, ProgramFrame, VoiceFrame,
};
use sid_analyzer::analysis::patch::{
    DrumSubclass, NoteCharacteristics, Patch, PatchVoiceProfile, RoleTags,
};
use sid_analyzer::analysis::program::{SystemClock, VoiceId};
use sid_analyzer::export::synth::cutoff::{
    cutoff_value_to_hz, filter_leak, FilterReading, CUTOFF_MIN,
};
use sid_analyzer::export::synth::effects::{master_chain, EffectUnit, MasterState, MASTER_VOLUME};
use sid_analyzer::export::synth::envelope::adsr_to_times;
use sid_analyzer::export::synth::fraction::Fraction;
use sid_analyzer::export::synth::instruments::refine::{
    add_output_lowpass, enforce_measured_oscillators, find_common_seed, find_static_source,
    measure_hardware, HardwareEvidence,
};
use sid_analyzer::export::synth::instruments::select::{
    active_voices, authored_pwm_script, generic_pulse_instrument, plan_detune_cents,
    plan_mix_trim, plan_output_cutoff, shared_filter_spec, MixTrim, DETUNE_LIMIT,
    DRUM_OUTPUT_FILTER_MIN_NOTES,
};
use sid_analyzer::export::synth::instruments::{
    EnvelopeSetting, Instrument, ModuleId, Parameters, Port, SidSource, Treatment,
};
use sid_analyzer::export::synth::oscillator::{
    program_noise_frequencies, SidOscillator, SID_NOISE_SEED,
};
use sid_analyzer::export::synth::song::automation::plan_uses_measured_envelope;
use sid_analyzer::export::synth::tempo::default_ticks_per_frame;
use sid_analyzer::export::synth::timbre::{
    adopt_patch, alternation_seq, combined_secondary_waveform, combined_waveform_support,
    filter_kind, observed_waveform_program, shape_of, shape_program, timbre_compatible,
    use_generic_percussion, waveform_string, FilterKind, InstrumentRole, MergeShape, Waveform,
};
use sid_analyzer::export::synth::tracks::{Segment, SynthNote, TrackPlan};
use sid_analyzer::header::SidModel;
use sid_analyzer::trace::{Adsr, RegisterWrite, SidRegister, SubFrameOffset};

const NO_MODE: FilterMode = FilterMode {
    low_pass: false,
    band_pass: false,
    high_pass: false,
};

fn ev_at(start: u32) -> NoteEvent {
    NoteEvent {
        voice: VoiceId::from_index(0),
        start_frame: start,
        end_frame: Some(start + 10),
        sound_end: None,
        midi: 60,
        millicents: 0,
        velocity: 100,
    }
}

fn heard(event: NoteEvent) -> SynthNote {
    SynthNote {
        event,
        patch_id: None,
        characteristics: None,
        has_vibrato: false,
    }
}

fn plain_shape() -> MergeShape {
    MergeShape {
        is_noise: false,
        waveform: Waveform::Pulse,
        authored_pwm: None,
        secondary_waveform: None,
        has_ring: false,
        has_sync: false,
        filter_kind: None,
        waveform_program: None,
        waveform_loop: None,
        tonal_arp: None,
    }
}

fn probe_plan(timeline: Vec<(usize, usize)>) -> TrackPlan {
    TrackPlan {
        instrument_id: 3,
        voice: VoiceId::from_index(0),
        shape: plain_shape(),
        drum_drop: false,
        waveform_program: None,
        segments: Vec::new(),
        timeline,
    }
}

fn blank_states(count: usize) -> Vec<ProgramFrame> {
    (0..count).map(|_| ProgramFrame::default()).collect()
}

fn voice_with_ctrl(freq: u16, ctrl: u8) -> VoiceFrame {
    VoiceFrame {
        freq,
        gate: ctrl & 1 != 0,
        waveform: ctrl & 0xF0,
        ..VoiceFrame::default()
    }
}

#[test]
fn set_seq_programs_per_frame_masks() {
    let mut p = SidOscillator::tonal(0x1, 2048, SidModel::Mos6581, SystemClock::Pal);
    p.set_seq(&[0x1, 0x8, 0x0]);
    assert_eq!(p.seq_len, 3);
    assert_eq!(&p.seq_steps[..4], &[1, 8, 0, 0]);
    assert_eq!(p.noise_seed, SID_NOISE_SEED);
}

#[test]
fn set_seq_frequency_overrides_only_selected_steps() {
    let mut p = SidOscillator::tonal(0x1, 2048, SidModel::Mos6581, SystemClock::Pal);
    p.set_seq_frequencies(&[0, 0x684C, 0, 0x1234, 0, 0, 0, 0, 0, 0, 0, 0, 0, 0, 0, 0]);
    assert_eq!(p.seq_freq_mask, 0b1010);
    assert_eq!(p.seq_freqs[0], 0);
    assert_eq!(p.seq_freqs[1], 0x684C);
    assert_eq!(p.seq_freqs[3], 0x1234);
}

#[test]
fn set_seq_loops_the_waveform_sequence() {
    let mut p = SidOscillator::tonal(0x1, 2048, SidModel::Mos6581, SystemClock::Pal);
    p.set_seq(&[0x1, 0x8]);
    assert_eq!(p.seq_len, 2);
    assert!(p.seq_loop, "a repeating alternation loops for the whole note");
}

#[test]
fn noise_step_frequency_uses_plan_median_and_tonal_steps_inherit() {
    let notes = vec![heard(ev_at(0)), heard(ev_at(10)), heard(ev_at(20))];
    let mut plan = probe_plan(vec![(0, 0), (0, 1), (0, 2)]);
    plan.waveform_program = Some(vec![0x1, 0x8]);
    let mut states = blank_states(32);
    for state in &mut states {
        state.voices[0] = voice_with_ctrl(0x1000, 0x41);
    }
    for (frame, frequency) in [(1usize, 0x1000), (11, 0x3000), (21, 0x2000)] {
        states[frame].voices[0] = voice_with_ctrl(frequency, 0x81);
    }
    let frequencies = program_noise_frequencies(&plan, &notes, &states);
    assert_eq!(frequencies[0], 0, "tonal step inherits note pitch");
    assert_eq!(frequencies[1], 0x2000);
}

#[test]
fn role_drives_instrument_identity() {
    // Bass: mono, bass-named, the second category.
    let bass = InstrumentRole::from_role_tags(&RoleTags {
        bass: true,
        ..RoleTags::default()
    });
    assert_eq!(bass.name(), Some("Bass"));
    assert_eq!(bass.category(), 2);
    assert_eq!(bass.allocation_mode(), "Mono");
    assert_eq!(bass.max_voices(), 1);

    // Drum subclass names the instrument.
    let kick = InstrumentRole::from_role_tags(&RoleTags {
        percussive: true,
        drum_subclass: Some(DrumSubclass::Kick),
        ..RoleTags::default()
    });
    assert_eq!(kick.name(), Some("Kick"));
    assert_eq!(kick.category(), 1);

    // Pad keeps polyphony for overlapping sustained voices.
    let pad = InstrumentRole::from_role_tags(&RoleTags {
        pad: true,
        ..RoleTags::default()
    });
    assert_eq!(pad.name(), Some("Pad"));
    assert_eq!(pad.category(), 3);
    assert_eq!(pad.allocation_mode(), "Polyphonic");
    assert_eq!(pad.max_voices(), 4);

    // A resolved drum subclass wins over a co-occurring melodic tag.
    let both = InstrumentRole::from_role_tags(&RoleTags {
        percussive: true,
        drum_subclass: Some(DrumSubclass::Snare),
        bass: true,
        ..RoleTags::default()
    });
    assert!(matches!(both, InstrumentRole::Drum(DrumSubclass::Snare)));

    // Untagged falls back to no role name and no category.
    let untagged = InstrumentRole::from_role_tags(&RoleTags::default());
    assert_eq!(untagged.name(), None);
    assert_eq!(untagged.category(), 0);
    assert_eq!(untagged.allocation_mode(), "Polyphonic");
    assert_eq!(untagged.max_voices(), 4);
}

#[test]
fn default_ticks_per_frame_follows_clock() {
    assert_eq!(default_ticks_per_frame(SystemClock::Pal), 40);
    assert_eq!(default_ticks_per_frame(SystemClock::Ntsc), 33);
}

/// A patch on the first voice carrying only the fields that adoption reads.
fn adoption_patch(id: u16, waveform: u8, adsr: Adsr, filter_routed: bool) -> Patch {
    Patch {
        id,
        adsr,
        waveform,
        role_tags: RoleTags::default(),
        authored_effects: false,
        authored_pwm: None,
        voices: vec![PatchVoiceProfile {
            voice: VoiceId(1),
            filter_routed,
            filter_mode: NO_MODE,
            ring_mod: false,
            hard_sync: false,
            waveform_loop: None,
            arpeggio_loop: None,
        }],
    }
}

fn note_chars(dominant_waveform: u8, adsr: Adsr, filter_routed: bool) -> NoteCharacteristics {
    NoteCharacteristics {
        dominant_waveform,
        starting_adsr: adsr,
        filter_routed,
        ring_mod: false,
        hard_sync: false,
        waveform_program: None,
    }
}

const PAD_ADSR: Adsr = Adsr {
    attack: 2,
    decay: 8,
    sustain: 10,
    release: 6,
};

#[test]
fn timbre_gate_matches_close_pulse_leads() {
    let patch = adoption_patch(0, 0x40, PAD_ADSR, false);
    let profile = patch.profile(VoiceId(1)).unwrap();
    // Same pulse waveform, envelope drifting within tolerance → compatible.
    let near = note_chars(
        0x40,
        Adsr {
            attack: 3,
            decay: 10,
            sustain: 9,
            release: 8,
        },
        false,
    );
    assert!(timbre_compatible(&near, &patch, profile));
    // Pulse+triangle combined byte shares the pulse bit → still compatible.
    let combined = note_chars(0x50, PAD_ADSR, false);
    assert!(timbre_compatible(&combined, &patch, profile));
}

#[test]
fn timbre_gate_rejects_mismatched_timbre() {
    let patch = adoption_patch(0, 0x40, PAD_ADSR, false);
    let profile = patch.profile(VoiceId(1)).unwrap();
    // A noise one-shot must never adopt a pulse lead.
    let noise = note_chars(0x80, Adsr::default(), false);
    assert!(!timbre_compatible(&noise, &patch, profile));
    // Pure triangle shares no waveform-select bit with pulse.
    let tri = note_chars(0x10, PAD_ADSR, false);
    assert!(!timbre_compatible(&tri, &patch, profile));
    // A filtered note against a dry patch is an audibly different timbre.
    let filtered = note_chars(0x40, PAD_ADSR, true);
    assert!(!timbre_compatible(&filtered, &patch, profile));
    // A percussive envelope (no sustain, no release tail) is too far off.
    let plucky = note_chars(
        0x40,
        Adsr {
            attack: 2,
            decay: 8,
            sustain: 0,
            release: 0,
        },
        false,
    );
    assert!(!timbre_compatible(&plucky, &patch, profile));
}

#[test]
fn adopt_patch_picks_nearest_compatible_and_guards() {
    let far = adoption_patch(1, 0x40, PAD_ADSR, false);
    let near = adoption_patch(2, 0x40, PAD_ADSR, false);
    let near_profile = near.profile(VoiceId(1)).unwrap();
    let far_profile = far.profile(VoiceId(1)).unwrap();
    let note = note_chars(0x40, PAD_ADSR, false);

    // Among compatible candidates the temporally nearest wins (patch 2).
    let ev = ev_at(100);
    let assigned = vec![
        (10u32, 1u16, &far, far_profile),
        (105u32, 2u16, &near, near_profile),
    ];
    assert_eq!(adopt_patch(&ev, Some(&note), &assigned), Some(2));

    // A note with no characteristics can't be judged → stays raw.
    assert_eq!(adopt_patch(&ev, None, &assigned), None);

    // Every candidate beyond the distance backstop → no adoption.
    let stranded = vec![(u32::MAX, 1u16, &far, far_profile)];
    assert_eq!(adopt_patch(&ev, Some(&note), &stranded), None);

    // A lone incompatible candidate (noise patch) is rejected, not forced.
    let noise_patch = adoption_patch(3, 0x80, Adsr::default(), false);
    let noise_profile = noise_patch.profile(VoiceId(1)).unwrap();
    let only_noise = vec![(100u32, 3u16, &noise_patch, noise_profile)];
    assert_eq!(adopt_patch(&ev, Some(&note), &only_noise), None);
}

/// A minimal voice profile carrying only a waveform loop.
fn alt_profile(waveform_loop: Vec<u8>) -> PatchVoiceProfile {
    PatchVoiceProfile {
        voice: VoiceId(2),
        filter_routed: false,
        filter_mode: NO_MODE,
        ring_mod: false,
        hard_sync: false,
        waveform_loop: Some(waveform_loop),
        arpeggio_loop: None,
    }
}

#[test]
fn alternation_seq_preserves_the_detected_period() {
    // tri (0x10) ↔ noise (0x80) → a two-step tri/noise sequence.
    assert_eq!(
        alternation_seq(alt_profile(vec![0x10, 0x80]).waveform_loop.as_deref()),
        Some(vec![0x1, 0x8])
    );
    // Held frames are part of the period, not duplicate values to discard.
    assert_eq!(
        alternation_seq(
            alt_profile(vec![0x10, 0x10, 0x80, 0x80])
                .waveform_loop
                .as_deref()
        ),
        Some(vec![0x1, 0x1, 0x8, 0x8])
    );
    // Silent frames do not count as an audible class but keep their timing
    // when two audible masks establish a real alternation.
    assert_eq!(
        alternation_seq(alt_profile(vec![0x80, 0x00, 0x20]).waveform_loop.as_deref()),
        Some(vec![0x8, 0x0, 0x2])
    );
    // Combined bytes keep their full mask (pulse ↔ pulse+tri = {0x4, 0x5}).
    assert_eq!(
        alternation_seq(alt_profile(vec![0x40, 0x50]).waveform_loop.as_deref()),
        Some(vec![0x4, 0x5])
    );
    // Three distinct classes are expressible — a 3-step sequence.
    assert_eq!(
        alternation_seq(alt_profile(vec![0x40, 0x10, 0x20]).waveform_loop.as_deref()),
        Some(vec![0x4, 0x1, 0x2])
    );
    // An overlong representative window falls back to its distinct audible masks.
    let mut nemesis = vec![0x10, 0x10];
    for _ in 0..10 {
        nemesis.extend([0x80, 0x10]);
    }
    assert_eq!(alternation_seq(Some(&nemesis)), Some(vec![0x1, 0x8]));
}

#[test]
fn alternation_seq_rejects_non_alternating() {
    // A constant mask is not an alternation.
    assert_eq!(
        alternation_seq(alt_profile(vec![0x40, 0x40]).waveform_loop.as_deref()),
        None
    );
    // A single waveform gated on/off (one non-silent class) is not either.
    assert_eq!(
        alternation_seq(alt_profile(vec![0x40, 0x00]).waveform_loop.as_deref()),
        None
    );
    // No loop at all.
    assert_eq!(alternation_seq(None), None);
}

#[test]
fn repeating_waveform_program_is_part_of_the_merge_shape() {
    let patch = adoption_patch(0, 0x10, PAD_ADSR, false);
    let static_profile = alt_profile(vec![0x10, 0x10]);
    let daglish_profile = alt_profile(vec![0x10, 0x10, 0x80, 0x80]);

    let static_shape = shape_of(Some(&patch), Some(&static_profile), None);
    let daglish_shape = shape_of(Some(&patch), Some(&daglish_profile), None);

    assert!(!static_shape.same(&daglish_shape));
    assert_eq!(
        daglish_shape.waveform_loop,
        shape_program(Some(&[0x1, 0x1, 0x8, 0x8]))
    );
}

#[test]
fn observed_program_wins_over_generic_percussion() {
    let mut patch = adoption_patch(0, 0x40, PAD_ADSR, false);
    patch.role_tags = RoleTags {
        percussive: true,
        drum_subclass: Some(DrumSubclass::Snare),
        ..RoleTags::default()
    };
    let static_profile = alt_profile(vec![0x40, 0x40]);
    assert!(use_generic_percussion(&patch, &static_profile, None));

    let observed = alt_profile(vec![0x10, 0x80]);
    assert_eq!(observed_waveform_program(&observed), Some(vec![0x1, 0x8]));
    assert!(!use_generic_percussion(&patch, &observed, None));
    assert!(!use_generic_percussion(
        &patch,
        &static_profile,
        Some(&[0x1, 0x8]),
    ));
}

/// The coloring lives on the master bus, not per instrument.
#[test]
fn instrument_has_no_per_voice_coloring() {
    let inst = generic_pulse_instrument(1, VoiceId(1), SidModel::Mos6581, SystemClock::Pal);
    assert!(
        inst.effects.is_empty(),
        "coloring is on the master bus, not per instrument"
    );
    assert_eq!(inst.treatment, Treatment::Faithful);
    for m in &inst.modules {
        if let Parameters::SidOscillator(p) = &m.parameters {
            assert!(!p.mos8580);
            assert_eq!(p.clock, SystemClock::Pal);
        }
    }
}

/// The master-bus chain colours the summed voices, then contains reconstructed
/// peaks with a look-ahead limiter.
#[test]
fn master_chain_is_tube_then_eq_then_limiter() {
    let chain = master_chain();
    let id = |k: usize| format!("{}-{}", chain[k].unit.prefix(), chain[k].number);
    assert_eq!(chain.len(), 3);
    assert_eq!(chain[0].unit.kind(), "distortion");
    assert_eq!(id(0), "dst-1");
    assert_eq!(chain[1].unit.kind(), "eq");
    assert_eq!(id(1), "equ-1");
    assert_eq!(chain[2].unit.kind(), "limiter");
    assert_eq!(id(2), "lmt-1");
    if let EffectUnit::Limiter(params) = &chain[2].unit {
        assert_eq!(params.ceiling, -5_000_000);
    } else {
        panic!("third master effect must be the limiter");
    }
    // The default project state ships the chain on the master bus.
    let global = MasterState::default();
    assert_eq!(global.effects.len(), 3);
    assert_eq!(global.volume, MASTER_VOLUME);
}

#[test]
fn adsr_table_maps_nibbles_to_seconds() {
    // Attack nibble 0 = 2 ms, decay/release = 3× their column.
    let a = adsr_to_times(
        Adsr {
            attack: 0,
            decay: 0,
            sustain: 15,
            release: 0,
        },
        0,
        10_000,
    );
    assert_eq!(a.attack, 2);
    assert_eq!(a.decay, 6);
    assert_eq!(a.release, 6);
    assert_eq!(a.sustain, 15);

    // Top nibble: 8000 ms attack; decay/release would be 24 s but clamp to the
    // 10 s cap. Sustain 0.
    let b = adsr_to_times(
        Adsr {
            attack: 15,
            decay: 15,
            sustain: 0,
            release: 15,
        },
        0,
        10_000,
    );
    assert_eq!(b.attack, 8_000);
    assert_eq!(b.decay, 10_000);
    assert_eq!(b.release, 10_000);
    assert_eq!(b.sustain, 0);
}

#[test]
fn clean_normal_adsr_uses_static_recipe_while_delay_bug_stays_measured() {
    let notes = vec![heard(NoteEvent {
        sound_end: Some(10),
        ..ev_at(0)
    })];
    let plan = probe_plan(vec![(0, 0)]);
    let mut states = blank_states(12);
    for state in &mut states {
        state.digital_state_exact = true;
        state.digital_voices[0].peak_level = 255;
    }
    states[0].digital_voices[0].events.push(EnvelopeEvent {
        offset: 1,
        kind: EnvelopeEventKind::EnteredAttack,
    });
    states[0].digital_voices[0].first_nonzero = Some(2);
    states[10].digital_voices[0].events.push(EnvelopeEvent {
        offset: 1,
        kind: EnvelopeEventKind::ReachedZero,
    });
    assert!(!plan_uses_measured_envelope(&plan, &notes, &states, &[true]));

    states[0].digital_voices[0].first_nonzero = None;
    states[0].digital_voices[0].end_level = 0;
    assert!(plan_uses_measured_envelope(&plan, &notes, &states, &[false]));
    // An envelope that never sounds cannot be automated either.
    let silent = vec![heard(ev_at(0))];
    assert!(plan_uses_measured_envelope(&plan, &silent, &states, &[true]));
}

fn ev_cents(start: u32, millicents: i32) -> NoteEvent {
    NoteEvent {
        millicents,
        ..ev_at(start)
    }
}

#[test]
fn plan_detune_cents_takes_the_median_and_clamps() {
    // Consistently detuned voice: median of the per-note cents, not the mean
    // (the +30 outlier does not drag it).
    let notes = vec![
        heard(ev_cents(0, 18_000)),
        heard(ev_cents(100, 20_000)),
        heard(ev_cents(200, 30_000)),
    ];
    let plan = probe_plan(vec![(0, 0), (1, 1), (0, 2)]);
    assert_eq!(plan_detune_cents(&plan, &notes), 2 * 20_000);

    // Empty plan → no detune.
    assert_eq!(plan_detune_cents(&probe_plan(Vec::new()), &[]), 0);

    // Out-of-range cents clamp to the module's ±100 ct limit.
    let big = vec![heard(ev_cents(0, 250_000))];
    assert_eq!(
        plan_detune_cents(&probe_plan(vec![(0, 0)]), &big),
        DETUNE_LIMIT
    );
    assert_eq!(DETUNE_LIMIT, 2 * 100_000);
}

#[test]
fn an_even_count_of_detunings_gives_the_mean_of_the_middle_two() {
    let notes = vec![
        heard(ev_cents(0, 7)),
        heard(ev_cents(10, -3)),
        heard(ev_cents(20, 4)),
        heard(ev_cents(30, 90)),
    ];
    let plan = probe_plan(vec![(0, 0), (0, 1), (0, 2), (0, 3)]);
    assert_eq!(plan_detune_cents(&plan, &notes), 4 + 7);
}

fn reset_write(value: u8, offset: u32) -> RegisterWrite {
    RegisterWrite {
        reg: SidRegister(4),
        value,
        offset: SubFrameOffset(offset),
    }
}

fn seed_of(instrument: &Instrument) -> u32 {
    instrument
        .modules
        .iter()
        .find_map(|module| match &module.parameters {
            Parameters::SidOscillator(params) => Some(params.noise_seed),
            _ => None,
        })
        .expect("instrument has SID oscillator")
}

#[test]
fn test_reset_policy_uses_the_measured_deterministic_noise_seed() {
    let notes = vec![heard(ev_at(0))];
    let plan = probe_plan(vec![(0, 0)]);
    let mut states = blank_states(10);
    states[0].digital_state_exact = true;
    states[0].digital_voices[0].noise_shift_register = 0x123456;
    states[0].register_writes = vec![reset_write(0x48, 1), reset_write(0x41, 2)];
    let mut instrument =
        generic_pulse_instrument(3, VoiceId(1), SidModel::Mos6581, SystemClock::Pal);
    let seed = find_common_seed(&plan, &notes, &states, &[true]);
    let evidence = HardwareEvidence {
        exact: false,
        sync_active: false,
        ring_active: false,
    };
    enforce_measured_oscillators(&mut instrument, seed, evidence, None);
    assert_eq!(seed_of(&instrument), 0x123456);
    // Without a reset the oscillator keeps its own seed.
    assert_eq!(find_common_seed(&plan, &notes, &states, &[false]), None);
}

fn sync_source(states: &[ProgramFrame]) -> Option<u16> {
    let first = states[0].voices[2].freq;
    if states.iter().all(|s| s.voices[2].freq == first) {
        Some(first)
    } else {
        None
    }
}

#[test]
fn silent_sync_modulator_uses_the_measured_physical_source_frequency() {
    let notes = vec![heard(ev_at(0))];
    let plan = probe_plan(vec![(0, 0)]);
    let mut states = blank_states(10);
    for state in &mut states {
        state.digital_state_exact = true;
        state.voices[0].sync = true;
        state.digital_voices[0].sync_resets = 1;
        state.voices[2].freq = 0x2345;
        state.digital_voices[2].source_msb_edges = 1;
    }
    let mut source = SidSource::simple(0x4, 2048, SidModel::Mos6581, SystemClock::Pal);
    source.hard_sync = true;
    let mut instrument = Instrument::build(
        3,
        "Sync".to_string(),
        InstrumentRole::Untagged,
        source,
        EnvelopeSetting::Adsr(PAD_ADSR),
        None,
        Some(1),
        0,
        None,
    );
    let evidence = measure_hardware(&plan, &notes, &states);
    assert!(evidence.exact && evidence.sync_active && !evidence.ring_active);
    let found = find_static_source(&[sync_source(&states)]);
    enforce_measured_oscillators(&mut instrument, None, evidence, found);
    let source = instrument
        .modules
        .iter()
        .find(|module| module.id == ModuleId::Sid2)
        .expect("source module");
    let Parameters::SidOscillator(params) = &source.parameters else {
        panic!("source is SID oscillator");
    };
    assert_eq!(params.freq_reg, 0x2345);
    assert!(!params.track_pitch);
}

#[test]
fn shared_filter_accepts_note_boundary_routing_and_rejects_dynamic_cutoff() {
    let notes = vec![heard(ev_at(0)), heard(ev_at(10))];
    let mut filtered = probe_plan(vec![(0, 0)]);
    filtered.shape.filter_kind = Some(FilterKind::Lowpass);
    let dry = probe_plan(vec![(0, 1)]);
    let mut states = blank_states(20);
    // Registers 0, 128, $71 and $1F: cutoff 128 << 3, resonance 7, low pass.
    let lowpass = FilterMode {
        low_pass: true,
        ..NO_MODE
    };
    let routed = FilterFrame {
        cutoff: 128 << 3,
        resonance: 7,
        mode: lowpass,
        routing: [true, false, false],
    };
    let unrouted = FilterFrame {
        routing: [false, false, false],
        ..routed
    };
    for state in &mut states[..10] {
        state.filter = routed;
    }
    for state in &mut states[10..] {
        state.filter = unrouted;
    }

    let plans = [filtered, dry];
    let found = shared_filter_spec(&plans, &notes, &states).expect("one static filter");
    assert_eq!((found.cutoff, found.resonance), (128 << 3, 7));

    states[5].filter = FilterFrame {
        cutoff: 129 << 3,
        ..routed
    };
    assert!(shared_filter_spec(&plans, &notes, &states).is_none());
}

fn plan_on(voice_index: usize) -> TrackPlan {
    TrackPlan {
        instrument_id: 1,
        voice: VoiceId::from_index(voice_index),
        ..probe_plan(Vec::new())
    }
}

fn one_segment() -> Segment {
    Segment {
        patch: Some(0),
        profile: Some(0),
        events: Vec::new(),
    }
}

#[test]
fn mix_volume_divides_headroom_across_active_voices() {
    // Three distinct voices → the headroom budget split three ways.
    let three = [plan_on(0), plan_on(1), plan_on(2)];
    assert_eq!(active_voices(&three), 3);
    // Many tracks but only two distinct voices (patch-split) → divided by 2, not
    // by the track count — same-voice tracks never overlap.
    let two = [plan_on(0), plan_on(0), plan_on(0), plan_on(2)];
    assert_eq!(active_voices(&two), 2);
    // A single active voice keeps the full budget.
    let one = [plan_on(1)];
    assert_eq!(active_voices(&one), 1);

    let mut drum_drop = plan_on(0);
    drum_drop.drum_drop = true;
    assert_eq!(
        plan_mix_trim(&drum_drop, &[]),
        MixTrim {
            role: 350,
            triangle_pulse: false
        }
    );
    assert_eq!(plan_output_cutoff(&drum_drop, &[]), Some(2_000));

    let mut corrected =
        generic_pulse_instrument(1, VoiceId(1), SidModel::Mos6581, SystemClock::Pal);
    add_output_lowpass(&mut corrected, 2_000);
    assert!(corrected
        .modules
        .iter()
        .any(|module| module.id.name() == "flt-2"));
    assert!(corrected.connections.iter().any(|connection| {
        connection.from == ModuleId::Flt2
            && connection.from_port.name() == "out"
            && connection.to == ModuleId::Out1
            && connection.to_port == Port::In
    }));

    let mut triangle_pulse = plan_on(0);
    triangle_pulse.shape.secondary_waveform = Some(Waveform::Triangle);
    assert_eq!(
        plan_mix_trim(&triangle_pulse, &[]),
        MixTrim {
            role: 1_000,
            triangle_pulse: true
        }
    );

    let mut lead_patch = adoption_patch(0, 0x40, PAD_ADSR, false);
    lead_patch.role_tags.lead = true;
    let mut lead = plan_on(0);
    lead.segments.push(one_segment());
    assert_eq!(plan_mix_trim(&lead, &[lead_patch]).role, 700);

    let mut arp_patch = adoption_patch(1, 0x40, PAD_ADSR, false);
    arp_patch.role_tags.lead = true;
    arp_patch.voices[0].arpeggio_loop = Some(vec![0, 4, 7]);
    let mut arp = plan_on(0);
    arp.segments.push(one_segment());
    let arp_patches = [arp_patch];
    assert_eq!(plan_mix_trim(&arp, &arp_patches).role, 450);
    assert_eq!(plan_output_cutoff(&arp, &arp_patches), Some(4_000));

    let mut drum_patch = adoption_patch(2, 0x40, PAD_ADSR, false);
    drum_patch.role_tags.drum_subclass = Some(DrumSubclass::PercMetallic);
    let mut drum = plan_on(0);
    drum.timeline = vec![(0, 0); DRUM_OUTPUT_FILTER_MIN_NOTES];
    drum.segments.push(one_segment());
    let drum_patches = [drum_patch];
    assert_eq!(plan_mix_trim(&drum, &drum_patches).role, 750);
    assert_eq!(plan_output_cutoff(&drum, &drum_patches), Some(1_800));
}

#[test]
fn waveform_priority_is_pulse_then_saw_then_triangle() {
    assert_eq!(waveform_string(0x40), "pulse");
    assert_eq!(waveform_string(0x20), "sawtooth");
    assert_eq!(waveform_string(0x10), "triangle");
    // tri|saw|pulse all set → pulse wins.
    assert_eq!(waveform_string(0x70), "pulse");
    // tri|saw set → sawtooth wins.
    assert_eq!(waveform_string(0x30), "sawtooth");
    // none set → pulse fallback.
    assert_eq!(waveform_string(0x00), "pulse");
}

#[test]
fn combined_secondary_waveform_pairs_dominant_with_next_bit() {
    // Single tonal waveforms → no second oscillator.
    assert_eq!(combined_secondary_waveform(0x40), None);
    assert_eq!(combined_secondary_waveform(0x20), None);
    assert_eq!(combined_secondary_waveform(0x10), None);
    // pulse+triangle (0x50) and pulse+saw (0x60): pulse is the primary bit.
    assert_eq!(combined_secondary_waveform(0x50), Some("triangle"));
    assert_eq!(combined_secondary_waveform(0x60), Some("sawtooth"));
    // saw+triangle (0x30): sawtooth is the primary bit.
    assert_eq!(combined_secondary_waveform(0x30), Some("triangle"));
    // pulse+saw+triangle (0x70): the two highest-priority bits (pulse, saw).
    assert_eq!(combined_secondary_waveform(0x70), Some("sawtooth"));
    // Noise present → handled by the noise source, never a summed oscillator.
    assert_eq!(combined_secondary_waveform(0xD0), None);
    assert_eq!(combined_secondary_waveform(0x80), None);
}

#[test]
fn every_combined_waveform_class_has_a_model_policy() {
    let masks: Vec<u8> = (1u8..=15).filter(|mask| mask.count_ones() >= 2).collect();
    assert_eq!(masks.len(), 11);
    for model in [SidModel::Mos6581, SidModel::Mos8580] {
        for &mask in &masks {
            assert_ne!(
                combined_waveform_support(model, mask, false),
                "not_combined"
            );
        }
    }
}

#[test]
fn filter_modes_give_one_kind() {
    let mode = |low_pass, band_pass, high_pass| FilterMode {
        low_pass,
        band_pass,
        high_pass,
    };
    assert_eq!(filter_kind(mode(true, false, false)).name(), "lowpass");
    assert_eq!(filter_kind(mode(true, false, true)).name(), "notch");
    assert_eq!(filter_kind(mode(false, true, true)).name(), "bandpass");
    assert_eq!(filter_kind(mode(false, false, true)).name(), "highpass");
    assert_eq!(filter_kind(mode(false, false, false)).name(), "lowpass");
}

#[test]
fn noise_source_is_the_sid_oscillator_noise_bit() {
    let instrument = Instrument::build(
        1,
        "Noise".to_string(),
        InstrumentRole::Untagged,
        SidSource::simple(0x8, 2048, SidModel::Mos6581, SystemClock::Pal),
        EnvelopeSetting::Adsr(PAD_ADSR),
        None,
        None,
        0,
        None,
    );
    let m = instrument
        .modules
        .iter()
        .find(|m| m.id.name() == "sid-1")
        .expect("a source");
    match &m.parameters {
        Parameters::SidOscillator(p) => assert_eq!(p.mask, 0x8),
        _ => panic!("noise source must be a SID oscillator"),
    }
}

#[test]
fn every_wire_of_a_built_instrument_has_both_ends() {
    let instrument = generic_pulse_instrument(1, VoiceId(2), SidModel::Mos8580, SystemClock::Ntsc);
    for wire in &instrument.connections {
        assert!(instrument.modules.iter().any(|m| m.id == wire.from));
        assert!(instrument.modules.iter().any(|m| m.id == wire.to));
    }
    assert!(instrument
        .connections
        .iter()
        .any(|wire| wire.to == ModuleId::Out1));
}

/// The raster rate of a PAL machine.
fn pal_calls_per_second() -> f64 {
    985_248.0 / (312.0 * 63.0)
}

#[test]
fn authored_pwm_script_regenerates_driver_staircase() {
    // Step every two PAL raster calls, +64 per step, base pw at the bounce floor
    // ($800) → phase origin 0.
    let rate = format!("{}", pal_calls_per_second() as f32 / 2.0);
    assert_eq!(rate, "25.062271");
    let script = authored_pwm_script(0x40, 2048, &rate);
    assert_eq!(
        script,
        "let steps_per_sec = 25.062271\n\
         let step_units = 64\n\
         let band_floor = 2048\n\
         let band_span = 1536\n\
         let origin_units = 0\n\
         let base_pw = 2048\n\
         let t = floor(age * steps_per_sec)\n\
         let x = origin_units + step_units * t\n\
         let tri = band_span - abs((x % (2 * band_span)) - band_span)\n\
         out = band_floor + tri - base_pw"
    );

    // The script's formula across a full bounce cycle: it must reflect at $E00 and
    // $800, exactly like the driver.
    let pw_at = |age: f32| {
        let t = (age * 25.0).floor();
        let x = 64.0 * t;
        2048.0 + 1536.0 - ((x % 3072.0) - 1536.0).abs()
    };
    assert_eq!(pw_at(0.0), 2048.0, "starts at the base pw");
    assert_eq!(pw_at(0.04), 2048.0 + 64.0, "one step after 1 period");
    // 24 steps → +1536 = the $E00 ceiling; the next step reflects down.
    assert_eq!(pw_at(24.0 * 0.04), 3584.0, "peaks at the bounce ceiling");
    assert_eq!(pw_at(25.0 * 0.04), 3584.0 - 64.0, "reflects downward");
    assert_eq!(pw_at(48.0 * 0.04), 2048.0, "returns to the floor");
}

#[test]
fn authored_pwm_script_offsets_from_mid_band_base() {
    // A base pw inside the band starts the triangle mid-phase: the offset is still
    // 0 at note-on (script output = pw - base_pw).
    let rate = format!("{}", pal_calls_per_second() as f32);
    let script = authored_pwm_script(0x20, 2816, &rate);
    assert!(script.contains("let origin_units = 768"), "{script}");
    assert!(script.contains("let step_units = 32"), "{script}");
    assert!(script.contains("let base_pw = 2816"), "{script}");
    assert!(
        script.ends_with("out = band_floor + tri - base_pw"),
        "{script}"
    );
}

#[test]
fn authored_pwm_script_uses_cia_call_rate() {
    let calls_per_second = 985_248.0_f64 / 9_828.0;
    let rate = format!("{}", calls_per_second as f32 / 2.0);
    let script = authored_pwm_script(0x40, 2048, &rate);
    let expected = format!("let steps_per_sec = {}", calls_per_second as f32 / 2.0);
    assert!(script.starts_with(&expected), "{script}");
}

fn value_of(fraction: Fraction) -> f64 {
    fraction.num as f64 / fraction.den as f64
}

fn hertz(register: u32, model: SidModel) -> f64 {
    value_of(cutoff_value_to_hz(2 * register, model))
}

fn fspec(min: u16, max: u16, resonance: u8, mode: FilterMode) -> FilterReading {
    FilterReading::from_state(min, max, resonance, mode, SidModel::Mos6581)
}

#[test]
fn filter_spec_maps_cutoff_midpoint_resonance_and_mode() {
    // The middle of [0, 2047] is 1023.5, which on the measured curve of the first chip
    // sits in the dip between 6000 and 4600 hertz.
    let spec = fspec(
        0,
        2047,
        15,
        FilterMode {
            low_pass: true,
            ..NO_MODE
        },
    );
    assert_eq!(spec.kind, FilterKind::Lowpass);
    // The full resonance maps to the capped ceiling, not full scale.
    assert!((value_of(spec.resonance) - 0.2).abs() < 1e-6);
    assert!((value_of(spec.cutoff) - 5300.0).abs() < 10.0);
    // Low-pass and high-pass together are a notch.
    let notch = fspec(
        0,
        0,
        0,
        FilterMode {
            low_pass: true,
            high_pass: true,
            ..NO_MODE
        },
    );
    assert_eq!(notch.kind, FilterKind::Notch);
    // A band-pass beats a high-pass.
    let bp = fspec(
        0,
        0,
        0,
        FilterMode {
            band_pass: true,
            high_pass: true,
            ..NO_MODE
        },
    );
    assert_eq!(bp.kind, FilterKind::Bandpass);
    let hp = fspec(
        0,
        0,
        0,
        FilterMode {
            high_pass: true,
            ..NO_MODE
        },
    );
    assert_eq!(hp.kind, FilterKind::Highpass);
    // No mode is taken for a low-pass, and the cutoff does not fall below its floor.
    let none = fspec(0, 0, 0, NO_MODE);
    assert_eq!(none.kind, FilterKind::Lowpass);
    assert!(value_of(none.cutoff) >= CUTOFF_MIN as f64);
}

#[test]
fn filter_leak_is_bounded_to_low_cutoff_6581_lowpass() {
    let leak = |hz: u64, kind: FilterKind, model: SidModel| {
        value_of(filter_leak(Fraction { num: hz, den: 1 }, kind, model))
    };
    assert!((leak(420, FilterKind::Lowpass, SidModel::Mos6581) - 0.4).abs() < 1e-6);
    assert_eq!(leak(2000, FilterKind::Lowpass, SidModel::Mos6581), 0.0);
    assert_eq!(leak(420, FilterKind::Bandpass, SidModel::Mos6581), 0.0);
    assert_eq!(leak(420, FilterKind::Lowpass, SidModel::Mos8580), 0.0);
    // Halfway between the two, half of it leaks.
    assert!((leak(1210, FilterKind::Lowpass, SidModel::Mos6581) - 0.2).abs() < 1e-6);
}

#[test]
fn cutoff_curve_matches_resid_measured_points() {
    // Measured registers get their measured cutoffs.
    assert!((hertz(256, SidModel::Mos6581) - 250.0).abs() < 0.5);
    assert!((hertz(768, SidModel::Mos6581) - 1600.0).abs() < 0.5);
    assert!((hertz(1280, SidModel::Mos6581) - 9500.0).abs() < 0.5);
    // The first chip is dark across the lower registers.
    assert!(hertz(256, SidModel::Mos6581) < 400.0);
    // The dip: 1023 is brighter than 1024.
    assert!(hertz(1023, SidModel::Mos6581) > hertz(1024, SidModel::Mos6581));
    // Between two measured registers the cutoff is on the line.
    let mid = hertz(320, SidModel::Mos6581);
    assert!((mid - 275.0).abs() < 1.0, "interp {mid} not ~275 Hz");
    // The later chip is brighter.
    assert!((hertz(256, SidModel::Mos8580) - 1600.0).abs() < 0.5);
    assert!(hertz(256, SidModel::Mos8580) > hertz(256, SidModel::Mos6581));
    // Any other chip is taken for the first.
    assert_eq!(hertz(768, SidModel::Both), hertz(768, SidModel::Mos6581));
    assert_eq!(hertz(768, SidModel::Unknown), hertz(768, SidModel::Mos6581));
    // Registers past the end get the cutoff of the last.
    assert!(hertz(0, SidModel::Mos6581) >= 20.0);
    assert!((hertz(3000, SidModel::Mos6581) - 18000.0).abs() < 0.5);
}
