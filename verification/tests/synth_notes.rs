use sid_analyzer::analysis::frame::{
    overlapping_span, Effect, EffectSpan, EnvelopeEvent, EnvelopeEventKind, NoteEvent,
    ProgramFrame, VoiceFrame,
};
use sid_analyzer::analysis::program::VoiceId;
use sid_analyzer::export::synth::articulation::{
    chip_articulation, gate_on_end, gate_on_start, NoteLevel,
};
use sid_analyzer::export::synth::emission::{push_event, EmissionOptions, EventInput};
use sid_analyzer::export::synth::fidelity::{note_is_bent, note_span};
use sid_analyzer::export::synth::measures::{
    onset_chirp, slide_destination, vibrato_is_audible, SlideMeasure, VibratoMeasure,
};
use sid_analyzer::export::synth::notes::{
    bake_pitch_runs, baked_frames, build_note, drop_ungated_notes, expand_arpeggio, extend_release_tail,
    push_expressive_notes, Glide, Note, PitchMeasures, Vibrato, VibratoShape,
};
use sid_analyzer::export::synth::ownership::PhysicalVoiceOwnership;
use sid_analyzer::export::synth::pitch::{collect_pitches, pitch_plateaus};
use sid_analyzer::export::synth::song::lanes::{
    build_delayed_vibrato_pitch_lane, LaneSpan, PITCH_CENTRE,
};
use sid_analyzer::export::synth::timbre::shape_of;
use sid_analyzer::export::synth::tracks::{SynthNote, TrackPlan};

/// The nearest semitone of a register value on a PAL machine.
fn midi_of(freq: u16) -> u32 {
    let hz = f64::from(freq) * 985_248.0 / 16_777_216.0;
    (69.0 + 12.0 * (hz / 440.0).log2()).round() as u32
}

fn pitch_of(freq: u16) -> Option<u8> {
    if freq == 0 {
        None
    } else {
        Some(midi_of(freq) as u8)
    }
}

/// One frame per entry, with the given frequency on a voice.
fn states_with_freqs(voice_index: usize, freqs: &[u16]) -> Vec<ProgramFrame> {
    freqs
        .iter()
        .map(|&f| {
            let mut s = ProgramFrame::default();
            s.voices[voice_index].freq = f;
            s.voices[voice_index].pitch = pitch_of(f);
            s
        })
        .collect()
}

/// The same with a full control byte: `0x41` = gated pulse, `0x81` = gated noise.
fn gated_states_with_ctrl(voice_index: usize, frames: &[(u16, u8)]) -> Vec<ProgramFrame> {
    frames
        .iter()
        .map(|&(freq, ctrl)| {
            let mut s = ProgramFrame::default();
            s.voices[voice_index] = VoiceFrame {
                freq,
                pitch: pitch_of(freq),
                gate: ctrl & 1 != 0,
                waveform: ctrl & 0xF0,
                ..VoiceFrame::default()
            };
            s
        })
        .collect()
}

fn gates(gates: &[bool]) -> Vec<ProgramFrame> {
    gates
        .iter()
        .map(|&g| {
            let mut s = ProgramFrame::default();
            s.voices[0].gate = g;
            s
        })
        .collect()
}

fn ev_at(start: u32) -> NoteEvent {
    NoteEvent {
        voice: VoiceId::from_index(0),
        start_frame: start,
        end_frame: Some(start + 10),
        sound_end: None,
        midi: 60,
        millicents: 0,
        velocity: 100,
    }
}

fn melodic_event(end: u32, midi: u8) -> NoteEvent {
    NoteEvent {
        end_frame: Some(end),
        midi,
        ..ev_at(0)
    }
}

fn span(effect: Effect, voice_index: usize, start: u32, end: u32) -> EffectSpan {
    EffectSpan {
        effect,
        voice: Some(VoiceId::from_index(voice_index)),
        start_frame: start,
        end_frame: end,
    }
}

const NOTHING: PitchMeasures = PitchMeasures {
    slide: None,
    vibrato: None,
    chirp_on_note: None,
    chirp_on_plateau: None,
};

/// A measured glide from some semitones away.
fn glide(semitones: f32, ms: f32) -> Glide {
    Glide::Measured {
        from: semitones.to_bits(),
        time: ms.to_bits(),
    }
}

/// The pitches that the chip plays during a note while its voice is not making
/// noise; its released register moves until `tail_end`.
fn bake_pitches(
    event: &NoteEvent,
    states: &[ProgramFrame],
    cents: f64,
    tail_end: u32,
) -> Vec<Option<u8>> {
    let (start, end) = baked_frames(event, states, states.len() as u32, tail_end);
    states[start as usize..end as usize]
        .iter()
        .map(|s| {
            let v = &s.voices[0];
            if v.freq == 0 || v.waveform & 0x80 != 0 {
                return None;
            }
            let hz = f64::from(v.freq) * 985_248.0 / 16_777_216.0;
            Some((69.0 + 12.0 * (hz / 440.0).log2() - cents / 100.0).round() as u8)
        })
        .collect()
}

fn options(frame_count: u32) -> EmissionOptions {
    EmissionOptions {
        frame_count,
        ticks_per_frame: 40,
        forward_gate: true,
        arpeggiator: false,
    }
}

#[test]
fn measured_release_extends_to_envelope_zero_but_not_trace_end() {
    let mut event = NoteEvent {
        sound_end: Some(12),
        ..ev_at(0)
    };
    let frames: Vec<(u16, u8)> = (0..14)
        .map(|frame| (0x2000, if frame < 10 { 0x41 } else { 0x40 }))
        .collect();
    let mut states = gated_states_with_ctrl(0, &frames);
    for (frame, state) in states.iter_mut().enumerate() {
        state.digital_state_exact = true;
        state.digital_voices[0].peak_level = 200;
        state.digital_voices[0].end_level = if frame < 12 { 200 } else { 0 };
        state.digital_voices[0].level = if frame < 12 { 200 } else { 0 };
        state.digital_voices[0].active_cycles = u64::from(frame < 12);
    }
    let mut notes = vec![build_note(0, &event, 40, states.len() as u32, &states)];
    extend_release_tail(&mut notes, 0, &event, &states, 40, None);
    assert_eq!(notes[0].duration, 12 * 40);

    states[12].digital_voices[0].active_cycles = 1;
    states[12].digital_voices[0].level = 1;
    states[13].digital_voices[0].active_cycles = 1;
    states[13].digital_voices[0].level = 1;
    // The sound does not end within the frames.
    event.sound_end = None;
    let mut censored = vec![build_note(0, &event, 40, states.len() as u32, &states)];
    extend_release_tail(&mut censored, 0, &event, &states, 40, None);
    assert_eq!(censored[0].duration, 10 * 40);
}

fn attack() -> EnvelopeEvent {
    EnvelopeEvent {
        offset: 0,
        kind: EnvelopeEventKind::EnteredAttack,
    }
}

fn exact_states(count: usize) -> Vec<ProgramFrame> {
    (0..count)
        .map(|_| ProgramFrame {
            digital_state_exact: true,
            ..ProgramFrame::default()
        })
        .collect()
}

#[test]
fn legato_started_note_keeps_its_mid_note_retrigger() {
    let mut states = exact_states(12);
    // The only attack is mid-note (frame 5): the note started legato.
    states[5].digital_voices[0].events.push(attack());
    let event = ev_at(0);
    assert_eq!(chip_articulation(&event, &states).retriggers, 1);
    // A gated note (attack in its start frame) still subtracts its onset.
    states[0].digital_voices[0].events.push(attack());
    assert_eq!(chip_articulation(&event, &states).retriggers, 1);
}

#[test]
fn row_leading_gate_onset_is_not_a_retrigger() {
    let mut states = exact_states(12);
    // Row frame precedes the key: the onset attack lands at offset 2, inside the
    // lead window — not a retrigger.
    states[2].digital_voices[0].events.push(attack());
    assert_eq!(chip_articulation(&ev_at(0), &states).retriggers, 0);
    // The same attack on a voice already gate-high at the start (true legato) IS a
    // retrigger.
    states[0].voices[0].gate = true;
    assert_eq!(chip_articulation(&ev_at(0), &states).retriggers, 1);
}

fn vibrato(delay: f32) -> Vibrato {
    Vibrato {
        depth: 0.2_f32.to_bits(),
        rate: 6.0_f32.to_bits(),
        delay: delay.to_bits(),
        shape: VibratoShape::Triangle,
    }
}

#[test]
fn measured_vibrato_onset_delay_lowers_to_track_pitch_automation() {
    let event = ev_at(0);
    let freqs = [
        4000u16, 4000, 4000, 4000, 3950, 3950, 4050, 4050, 3950, 3950,
    ];
    let states = states_with_freqs(0, &freqs);
    let effects = [span(Effect::Vibrato, 0, 0, freqs.len() as u32 - 1)];
    let measures = PitchMeasures {
        vibrato: Some(vibrato(3.0 * 1000.0 / 50.1245)),
        ..NOTHING
    };
    let mut notes = Vec::new();
    push_expressive_notes(
        &mut notes,
        &event,
        &states,
        &effects,
        &measures,
        freqs.len() as u32,
        40,
        false,
    );
    assert_eq!(notes.len(), 1);
    assert!(notes[0].vibrato.is_none());

    // The pitch of the track follows the wobble instead.
    let heard = [SynthNote {
        event,
        patch_id: None,
        characteristics: None,
        has_vibrato: true,
    }];
    let plan = TrackPlan {
        instrument_id: 3,
        voice: VoiceId::from_index(0),
        shape: shape_of(None, None, None),
        drum_drop: false,
        waveform_program: None,
        segments: Vec::new(),
        timeline: vec![(0, 0)],
    };
    let own = PhysicalVoiceOwnership::from_plans(std::slice::from_ref(&plan), &heard);
    let values: Vec<i64> = freqs
        .iter()
        .map(|&f| (500_000.0 + 500_000.0 * (f64::from(f) / 4000.0).log2()) as i64)
        .collect();
    let span = LaneSpan {
        start: 0,
        values,
        fits: Vec::new(),
    };
    let lane = build_delayed_vibrato_pitch_lane(
        &plan,
        &heard,
        &own,
        &[true],
        freqs.len() as u32,
        freqs.len() as u32,
        &[span],
        40,
    )
    .expect("a stable prefix needs the exact pitch fallback");
    assert!(lane.len() >= 3);
    assert_eq!(lane.first().unwrap().tick, 0);
    assert_eq!(lane.last().unwrap().tick, 10 * 40);
    assert_eq!(lane.last().unwrap().value, PITCH_CENTRE);
    assert!(note_is_bent(&plan, &heard, &[true], 10, 9));
    assert!(!note_is_bent(&plan, &heard, &[true], 10, 10));
    assert_eq!(note_span(&notes[0], 40).frames, 10);
}

#[test]
fn zero_delay_vibrato_keeps_the_structured_expression() {
    let event = ev_at(0);
    let freqs = [
        4000u16, 4050, 4000, 3950, 4000, 4050, 4000, 3950, 4000, 4050,
    ];
    let states = states_with_freqs(0, &freqs);
    let effects = [span(Effect::Vibrato, 0, 0, freqs.len() as u32 - 1)];
    let measures = PitchMeasures {
        vibrato: Some(vibrato(0.0)),
        ..NOTHING
    };
    let mut notes = Vec::new();
    push_expressive_notes(
        &mut notes,
        &event,
        &states,
        &effects,
        &measures,
        freqs.len() as u32,
        40,
        false,
    );
    let vibrato = notes[0]
        .vibrato
        .as_ref()
        .expect("zero-delay vibrato is target-native");
    assert_eq!(f32::from_bits(vibrato.delay), 0.0);
}

#[test]
fn bake_pitch_runs_coalesces_and_holds_through_noise() {
    // 4 frames at A, one 1-frame noise interleave (a stab attack), 4 frames at B:
    // two legato-tied runs — the noise frame extends A's run instead of chopping
    // the melody.
    let a = 2000u16;
    let b = 4000u16;
    let mut frames = vec![(a, 0x41u8); 4];
    frames.push((a, 0x81));
    frames.extend([(b, 0x41); 4]);
    let states = gated_states_with_ctrl(0, &frames);
    let event = melodic_event(9, midi_of(a) as u8);
    let mut notes = Vec::new();
    bake_pitch_runs(&mut notes, &event, &bake_pitches(&event, &states, 0.0, 0), 40, 9, &states);
    assert_eq!(notes.len(), 2, "two pitch runs");
    assert_eq!(notes[0].pitch, midi_of(a));
    assert_eq!(notes[0].duration, 5 * 40, "noise frame extends the A run");
    assert_eq!(notes[1].pitch, midi_of(b));
    assert!(
        !notes[0].legato && notes[1].legato,
        "the second run is a legato continuation"
    );
}

#[test]
fn bake_pitch_runs_compensates_instrument_detune() {
    // The chip plays ~+40 ct above MIDI 60; a +40 ct-detuned instrument renders
    // pitch+detune, so the bake must pick 60.
    let hz = 440.0 * ((60.40 - 69.0) / 12.0f64).exp2();
    let raw = (hz * 16_777_216.0 / 985_248.0).round() as u16;
    let states = gated_states_with_ctrl(0, &[(raw, 0x41); 6]);
    let event = melodic_event(6, 60);
    let mut notes = Vec::new();
    bake_pitch_runs(&mut notes, &event, &bake_pitches(&event, &states, 40.0, 0), 40, 6, &states);
    assert_eq!(notes.len(), 1);
    assert_eq!(notes[0].pitch, 60);
}

#[test]
fn bake_pitch_runs_renders_the_moving_release_tail() {
    // 4 gated frames at A, then the driver steps the released register down (B,
    // then C): the bake extends through the moving tail.
    let a = 4000u16;
    let b = 3500u16;
    let c = 3000u16;
    let mut frames = vec![(a, 0x41u8); 4];
    frames.extend([(b, 0x40); 3]);
    frames.extend([(c, 0x40); 3]);
    let mut states = gated_states_with_ctrl(0, &frames);
    for state in &mut states[4..] {
        state.digital_voices[0].active_cycles = 1;
    }
    let event = melodic_event(6, midi_of(a) as u8);
    let mut notes = Vec::new();
    bake_pitch_runs(&mut notes, &event, &bake_pitches(&event, &states, 0.0, 10), 40, 10, &states);
    assert_eq!(notes.len(), 3, "gated run + two tail runs");
    assert_eq!(notes[1].pitch, midi_of(b));
    assert_eq!(notes[2].pitch, midi_of(c));
    assert!(!notes[0].legato && notes[1].legato && notes[2].legato);

    // Parking after the key: no tail, the bake still ends at note-off.
    let mut frames = vec![(a, 0x41u8); 4];
    frames.extend([(b, 0x40); 6]);
    let states = gated_states_with_ctrl(0, &frames);
    let mut notes = Vec::new();
    bake_pitch_runs(&mut notes, &event, &bake_pitches(&event, &states, 0.0, 0), 40, 10, &states);
    assert_eq!(notes.len(), 1);
    assert_eq!(notes[0].pitch, midi_of(a));
    assert_eq!(notes[0].duration, 4 * 40);
}

#[test]
fn drop_ungated_keeps_moving_tail_notes_drops_parking_rows() {
    let a = 4000u16;
    let mk = |start_frame: u32| Note {
        id: 0,
        start: start_frame * 40,
        duration: 3 * 40,
        pitch: 60,
        velocity: NoteLevel::Measured(255),
        vibrato: None,
        glide: None,
        legato: false,
    };

    // A run note living entirely in the released descent survives.
    let mut frames = vec![(a, 0x41u8); 4];
    frames.extend([(3500, 0x40); 3]);
    frames.extend([(3000, 0x40); 3]);
    let mut states = gated_states_with_ctrl(0, &frames);
    for state in &mut states[4..] {
        state.digital_voices[0].active_cycles = 1;
    }
    let mut notes = vec![mk(4)];
    let silent = drop_ungated_notes(&mut notes, 0, 40, &states, 0);
    assert_eq!(notes.len(), 1, "a moving-tail note is content");
    assert!(!silent);

    // The same note over a parked released register is dropped.
    let mut frames = vec![(a, 0x41u8); 4];
    frames.extend([(3500, 0x40); 6]);
    let states = gated_states_with_ctrl(0, &frames);
    let mut notes = vec![mk(4)];
    let silent = drop_ungated_notes(&mut notes, 0, 40, &states, 0);
    assert!(notes.is_empty(), "a parking row is not a note");
    assert!(silent);
}

/// Emits one note whose proposal was judged as given.
fn emit(
    event: &NoteEvent,
    states: &[ProgramFrame],
    arpeggio: Option<&[i8]>,
    percussion: bool,
    faithful: bool,
) -> (Vec<Note>, bool, bool) {
    let input = EventInput {
        measures: NOTHING,
        verdict: Some(faithful),
        pitches: bake_pitches(event, states, 0.0, 0),
    };
    let mut notes = Vec::new();
    let (degraded, silent) = push_event(
        &mut notes,
        event,
        arpeggio,
        percussion,
        &input,
        states,
        &[],
        None,
        &options(states.len() as u32),
    );
    (notes, degraded, silent)
}

#[test]
fn push_melodic_event_degrades_a_wrong_proposal_to_the_bake() {
    // The event claims MIDI 65 but the chip holds ~60 the whole note: the proposal
    // fails verification and the bake re-emits the chip's pitch.
    let held = 2000u16;
    let states = gated_states_with_ctrl(0, &[(held, 0x41); 10]);
    let wrong = midi_of(held) as u8 + 5;
    let (notes, degraded, _) = emit(&melodic_event(10, wrong), &states, None, false, false);
    assert!(degraded);
    assert_eq!(notes.len(), 1);
    assert_eq!(
        notes[0].pitch,
        midi_of(held),
        "bake replaces the wrong pitch with the chip's"
    );
}

#[test]
fn push_melodic_event_keeps_a_faithful_proposal() {
    let held = 2000u16;
    let states = gated_states_with_ctrl(0, &[(held, 0x41); 10]);
    let event = melodic_event(10, midi_of(held) as u8);
    let (notes, degraded, _) = emit(&event, &states, None, false, true);
    assert!(!degraded);
    assert_eq!(notes.len(), 1);
    assert_eq!(notes[0].pitch, midi_of(held));
}

#[test]
fn overlapping_span_matches_effect_voice_and_range() {
    let v0 = VoiceId::from_index(0);
    let v1 = VoiceId::from_index(1);
    let spans = [
        span(Effect::Vibrato, 0, 10, 20),
        span(Effect::Portamento, 0, 30, 40),
        span(Effect::Vibrato, 1, 10, 20),
    ];
    // Matches effect + voice + overlapping range.
    let hit = overlapping_span(&spans, Effect::Vibrato, v0, 15, 25).unwrap();
    assert_eq!(hit.start_frame, 10);
    // Wrong voice is rejected even with overlap.
    assert_eq!(
        overlapping_span(&spans, Effect::Portamento, v1, 30, 40),
        None
    );
    // A note ending before the span starts does not overlap (half-open end).
    assert_eq!(overlapping_span(&spans, Effect::Vibrato, v0, 0, 10), None);
    // Touching the inclusive span end still overlaps.
    assert!(overlapping_span(&spans, Effect::Vibrato, v0, 20, 30).is_some());
}

#[test]
fn pitch_plateaus_single_pitch_yields_one_plateau() {
    let states = states_with_freqs(0, &[3000; 10]);
    let plateaus = pitch_plateaus(&states, 0, 0, 10);
    assert_eq!(plateaus.len(), 1);
    assert_eq!(plateaus[0].len, 10);
}

#[test]
fn pitch_plateaus_splits_two_sustained_pitches() {
    // Six frames an octave apart each → two distinct MIDI plateaus.
    let mut freqs = vec![2000u16; 6];
    freqs.extend([4000u16; 6]);
    let states = states_with_freqs(0, &freqs);
    let plateaus = pitch_plateaus(&states, 0, 0, 12);
    assert_eq!(plateaus.len(), 2);
    assert_ne!(plateaus[0].pitch, plateaus[1].pitch);
    assert_eq!(plateaus[0].len, 6);
    assert_eq!(plateaus[1].len, 6);
}

#[test]
fn pitch_plateaus_absorbs_short_transient_between_pitches() {
    // A,A,A,A,A,A, C (1-frame transient), B×6 → the lone C frame merges into the
    // preceding A plateau; the result is two plateaus, not three.
    let mut freqs = vec![2000u16; 6];
    freqs.push(8000);
    freqs.extend([4000u16; 6]);
    let states = states_with_freqs(0, &freqs);
    let plateaus = pitch_plateaus(&states, 0, 0, 13);
    assert_eq!(plateaus.len(), 2);
    assert_eq!(
        plateaus[0].len, 7,
        "transient frame folded into first plateau"
    );
    assert_eq!(plateaus[1].len, 6);
}

#[test]
fn pitch_plateaus_folds_short_leading_run_forward() {
    // Two transient leading frames before a long plateau fold forward into it
    // rather than surviving as their own plateau.
    let mut freqs = vec![8000u16; 2];
    freqs.extend([4000u16; 8]);
    let states = states_with_freqs(0, &freqs);
    let plateaus = pitch_plateaus(&states, 0, 0, 10);
    assert_eq!(plateaus.len(), 1);
    assert_eq!(plateaus[0].start, 0);
    assert_eq!(plateaus[0].len, 10);
}

#[test]
fn pitch_plateaus_does_not_fabricate_plateau_from_leading_transients() {
    // Four distinct 1-frame pitches (a slide), then a 6-frame sustain. Their lengths
    // sum past the sustain minimum, but none sustains on its own, so only the hold
    // is an anchor → one plateau, never a phantom leading note.
    let mut freqs = vec![1000u16, 1200, 1400, 1600];
    freqs.extend([4000u16; 6]);
    let states = states_with_freqs(0, &freqs);
    let plateaus = pitch_plateaus(&states, 0, 0, freqs.len() as u32);
    assert_eq!(
        plateaus.len(),
        1,
        "transient frames must not accumulate into their own plateau"
    );
    assert_eq!(plateaus[0].len, freqs.len() as u32);
}

#[test]
fn plateaus_tile_a_note_without_gaps() {
    let mut freqs = vec![2000u16; 5];
    freqs.extend([0u16; 2]);
    freqs.extend([4000u16; 7]);
    freqs.extend([3000u16; 3]);
    let states = states_with_freqs(0, &freqs);
    assert_eq!(
        collect_pitches(&states, 0, 4, 8),
        vec![pitch_of(2000), None, None, pitch_of(4000)]
    );
    let plateaus = pitch_plateaus(&states, 0, 0, freqs.len() as u32);
    let mut next = 0;
    for p in &plateaus {
        assert_eq!(p.start, next);
        assert!(plateaus.len() == 1 || p.len >= 4);
        next = p.start + p.len;
    }
    assert_eq!(next, freqs.len() as u32);
}

#[test]
fn a_silent_note_is_one_plateau_without_pitch() {
    let states = states_with_freqs(0, &[0; 10]);
    let plateaus = pitch_plateaus(&states, 0, 2, 9);
    assert_eq!(plateaus.len(), 1);
    assert_eq!((plateaus[0].start, plateaus[0].len), (2, 7));
    assert_eq!(plateaus[0].pitch, None);
    // Past the end of the trace there is no pitch either.
    assert_eq!(pitch_plateaus(&states, 0, 20, 24).len(), 1);
    assert!(pitch_plateaus(&states, 0, 4, 4).is_empty(), "no frames");
    assert!(pitch_plateaus(&states, 0, 5, 4).is_empty());

    // Such a note is written as it was gated, without a glide.
    let event = melodic_event(10, 60);
    let measures = PitchMeasures {
        chirp_on_plateau: Some(glide(3.0, 20.0)),
        ..NOTHING
    };
    let mut notes = Vec::new();
    push_expressive_notes(&mut notes, &event, &states, &[], &measures, 10, 40, false);
    assert_eq!(notes.len(), 1);
    assert_eq!(notes[0].pitch, 60);
    assert_eq!(notes[0].glide, None);
}

/// The notes of a note covering all of `freqs`, with what was measured of it.
fn run_expressive(
    freqs: &[u16],
    spans: &[EffectSpan],
    measures: &PitchMeasures,
    percussion: bool,
) -> Vec<Note> {
    let states = states_with_freqs(0, freqs);
    let end = freqs.len() as u32;
    let event = melodic_event(end, midi_of(freqs[0]) as u8);
    let mut notes = Vec::new();
    push_expressive_notes(
        &mut notes, &event, &states, spans, measures, end, 40, percussion,
    );
    notes
}

#[test]
fn portamento_into_legato_run_composes_glide_and_keeps_later_pitch() {
    // Onset slide 1500→2000, hold A=2000 six frames, step to B=4000 six frames. The
    // slide rides the first note; B survives as a tied note.
    let freqs = [
        1500u16, 1800, 2000, 2000, 2000, 2000, 2000, 2000, 4000, 4000, 4000, 4000, 4000, 4000,
    ];
    let spans = [span(Effect::Portamento, 0, 0, 2)];
    let measures = PitchMeasures {
        slide: Some((midi_of(2000) as u8, glide(-4.98, 39.9))),
        ..NOTHING
    };
    let notes = run_expressive(&freqs, &spans, &measures, false);
    assert_eq!(notes.len(), 2, "A and B both survive as tied notes");
    assert_eq!(notes[0].pitch, midi_of(2000));
    assert_eq!(notes[1].pitch, midi_of(4000));
    assert!(notes[0].glide.is_some(), "onset slide rides the first note");
    assert!(!notes[0].legato, "first note carries the attack");
    assert!(notes[1].legato, "second note is a legato continuation");
    assert_eq!(notes[0].start, 0);
}

#[test]
fn portamento_through_note_renders_as_one_falling_glide() {
    // A lead starts at the top pitch and then slides continuously down for the
    // note's whole length. The top and bottom dwell long enough to be plateau
    // anchors, so without the slide-through guard the note splits in two.
    let top = 6675u16; // G4
    let bottom = 4700u16; // ~D4, ~6 semitones down (melodic, not a drum drop)
    let freqs = [
        top, top, top, top, top, // sustained onset anchor
        6300, 5900, 5500, 5100, // transient sliding frames
        bottom, bottom, bottom, bottom, bottom, // sustained tail anchor
    ];
    // Control: with no portamento span the two anchors split into two notes.
    assert_eq!(
        run_expressive(&freqs, &[], &NOTHING, false).len(),
        2,
        "unguarded: the two anchors split"
    );
    // Guarded: a portamento span over the slide → one note gliding onset→tail.
    let spans = [span(Effect::Portamento, 0, 0, 13)];
    let measures = PitchMeasures {
        slide: Some((midi_of(bottom) as u8, glide(6.07, 259.4))),
        ..NOTHING
    };
    let notes = run_expressive(&freqs, &spans, &measures, false);
    assert_eq!(notes.len(), 1, "slide-through note is not split");
    assert_eq!(
        notes[0].pitch,
        midi_of(bottom),
        "repitched to the fall destination"
    );
    let Some(Glide::Fall { semitones, .. }) = notes[0].glide else {
        panic!("carries a fall glide");
    };
    assert_eq!(
        u32::from(semitones),
        midi_of(top) - notes[0].pitch,
        "glide starts at the onset pitch"
    );
    assert!(!notes[0].legato, "single note does not tie");
}

#[test]
fn percussion_hit_renders_the_onset_pitch_drop() {
    // A tom or snare hit, then a fast downward pitch sweep. No portamento span is
    // detected on so short a hit, so only the percussion path can render the drop.
    let onset = 5000u16;
    let tail = 4000u16; // ~4 semitones down
    let freqs = [onset, onset, onset, onset, onset, tail];
    // Non-percussion: no chirp, no legato run → plain note at the onset.
    let plain = run_expressive(&freqs, &[], &NOTHING, false);
    assert_eq!(plain.len(), 1);
    assert_eq!(
        plain[0].pitch,
        midi_of(onset),
        "melodic note keeps its onset"
    );
    assert!(plain[0].glide.is_none());
    // Percussion: the same hit goes down to the tail with a glide.
    let perc = run_expressive(&freqs, &[], &NOTHING, true);
    assert_eq!(perc.len(), 1, "one hit, not split");
    assert_eq!(
        perc[0].pitch,
        midi_of(tail),
        "repitched to the bottom of the sweep"
    );
    assert!(perc[0].glide.is_some(), "carries the onset pitch-drop");
}

#[test]
fn short_hard_restart_dip_keeps_onset_pitch() {
    // A 4-frame F5 note opened by a 2-frame hard-restart dip to D#5. The dip is the
    // longest frame-run, but the note's pitch is its F5 onset.
    let f5 = 0x2E72u16; // MIDI 77
    let ds5 = 0x295Eu16; // MIDI 75
    let freqs = [f5, ds5, ds5, f5];
    let event = melodic_event(4, midi_of(f5) as u8);
    let plateaus = pitch_plateaus(&states_with_freqs(0, &freqs), 0, 0, 4);
    let dip = plateaus[0].pitch.expect("the note has a pitch");
    assert_eq!(u32::from(dip), midi_of(ds5));
    let measured = |pitches: &[u16]| PitchMeasures {
        chirp_on_plateau: onset_chirp(&event, dip, &fine_pitches(pitches))
            .map(|chirp| glide(chirp.from as f32 / 1e6, 20.0 * chirp.frames as f32)),
        ..NOTHING
    };
    let notes = run_expressive(&freqs, &[], &measured(&freqs), false);
    // Had the pitch stayed down, the attack would have settled on the lower pitch.
    let settled = run_expressive(&freqs, &[], &measured(&[f5, ds5, ds5, ds5]), false);
    assert_eq!(settled[0].pitch, midi_of(ds5));
    assert!(settled[0].glide.is_some());
    assert_eq!(notes.len(), 1);
    assert_eq!(
        notes[0].pitch,
        midi_of(f5),
        "kept the F5 onset, not the dip"
    );
    assert!(
        notes[0].glide.is_none(),
        "no phantom onset chirp onto the dip"
    );
}

#[test]
fn arpeggio_subnotes_tie_under_one_attack() {
    // A 6-frame held note arpeggiating [0,3,7]; each frame is a distinct pitch, so
    // six sub-notes. They share one attack → all later ones tie.
    let event = melodic_event(6, 60);
    let mut notes = Vec::new();
    expand_arpeggio(&mut notes, &event, &[0, 3, 7], 40, 100, &[]);
    assert_eq!(notes.len(), 6, "one sub-note per frame");
    assert_eq!(
        notes.iter().map(|n| n.pitch).collect::<Vec<_>>(),
        vec![60, 63, 67, 60, 63, 67]
    );
    assert!(!notes[0].legato, "the first sub-note carries the attack");
    assert!(
        notes[1..].iter().all(|n| n.legato),
        "every later sub-note is a legato continuation under one attack"
    );
}

/// A note clustered into an arpeggio patch but which the chip does not actually
/// arpeggiate must not gain a phantom chord step.
#[test]
fn phantom_arp_step_degrades_to_the_held_pitch() {
    // The chip holds one steady gated frequency for the whole note.
    let freq = 1900u16;
    let held = midi_of(freq);
    let states = gated_states_with_ctrl(0, &[(freq, 0x41); 12]);
    let event = melodic_event(12, held as u8);
    // An authored arp with a far `+20` step the chip never plays.
    let (notes, degraded, _) = emit(&event, &states, Some(&[0, 20]), false, false);
    assert!(degraded, "phantom expansion degrades");
    assert!(
        notes.iter().all(|n| n.pitch == held),
        "the bake plays the chip's held pitch, not phantom chord tones: {:?}",
        notes.iter().map(|n| n.pitch).collect::<Vec<_>>()
    );
}

/// An authored row the chip never gates emits nothing: there is no attack to
/// reproduce, and the retuned release tail is the previous note's business.
#[test]
fn ungated_authored_row_is_dropped_silently() {
    // Ungated the whole span; the freq register parks at ~MIDI 54.
    let states = gated_states_with_ctrl(0, &[(3240, 0x40); 4]);
    let event = melodic_event(4, 54);
    let (notes, degraded, silent) = emit(&event, &states, None, false, true);
    assert!(notes.is_empty(), "an ungated row must not become a note");
    assert!(silent);
    assert!(!degraded);
}

/// A real arpeggio whose expansion matches the trace keeps the expansion.
#[test]
fn faithful_arp_expansion_survives_the_gate() {
    // The chip cycles base / base+octave per frame, exactly the offsets.
    let base_freq = 2000u16;
    let octave = base_freq * 2;
    let frames: Vec<(u16, u8)> = (0..12)
        .map(|f| ([base_freq, octave][f % 2], 0x41))
        .collect();
    let states = gated_states_with_ctrl(0, &frames);
    let event = melodic_event(12, midi_of(base_freq) as u8);
    let (notes, degraded, _) = emit(&event, &states, Some(&[0, 12]), false, true);
    assert!(!degraded);
    assert_eq!(notes.len(), 12, "per-frame expansion kept");
    assert_eq!(notes[0].pitch, midi_of(base_freq));
    assert_eq!(notes[1].pitch, midi_of(octave));
}

#[test]
fn gate_on_end_clamps_staccato_keeps_legato() {
    // Staccato: on for 3 frames, then off — clamps to the note-off.
    let stac = gates(&[
        true, true, true, false, false, false, false, false, false, false, false,
    ]);
    assert_eq!(
        gate_on_end(&stac, 0, 0, 11),
        3,
        "staccato clamps to gate-off"
    );
    // Legato: held the whole row — full length kept.
    let leg = gates(&[true; 11]);
    assert_eq!(
        gate_on_end(&leg, 0, 0, 11),
        11,
        "held note keeps full length"
    );
    // Hard-restart: a one-frame dip is a re-attack, not a note-off.
    let hr = gates(&[
        true, true, true, false, true, true, true, true, true, true, true,
    ]);
    assert_eq!(
        gate_on_end(&hr, 0, 0, 11),
        11,
        "one-frame dip is not a note-off"
    );
    // The note's start can precede the real key-on; earlier frames are skipped.
    let pre = gates(&[
        false, false, true, true, true, false, false, false, false, false, false,
    ]);
    assert_eq!(
        gate_on_end(&pre, 0, 0, 11),
        5,
        "skips pre-gate, clamps at gate-off"
    );
}

#[test]
fn gate_on_start_snaps_to_gate_within_window() {
    // Authored start leads the key-on by 2 frames — snap forward to it.
    let lead = gates(&[false, false, true, true, true, true, true, true]);
    assert_eq!(
        gate_on_start(&lead, 0, 0, 8),
        2,
        "snaps to the first gate-high frame"
    );
    // Already gate-high at start (legato/held) — unchanged.
    let held = gates(&[true; 8]);
    assert_eq!(gate_on_start(&held, 0, 0, 8), 0, "gate-high start is kept");
    // The key-on lands past the lead window — the start is trusted as authored.
    let far = gates(&[false, false, false, false, true, true, true, true]);
    assert_eq!(
        gate_on_start(&far, 0, 0, 8),
        0,
        "a lead beyond the window keeps the authored start"
    );
}

/// A drum body is judged by the trace, not by the plan's floor.
#[test]
fn drum_body_is_judged_by_the_trace_not_the_floor() {
    // The chip holds MIDI ~54 for this hit: an emitted 54 body passes…
    let high = 3240u16; // ≈ MIDI 54
    let states = gated_states_with_ctrl(0, &[(high, 0x41); 8]);
    let event = melodic_event(8, midi_of(high) as u8);
    let (notes, degraded, _) = emit(&event, &states, None, true, true);
    assert!(!degraded);
    assert_eq!(notes[0].pitch, midi_of(high), "trace-backed body kept");

    // …while an emitted 54 body over a chip that holds the kick floor (~34) plays
    // the floor pitch: the proposal already repitches to the traced body, and the
    // bake would give the same pitches.
    let low = 992u16; // ≈ MIDI 34
    let states = gated_states_with_ctrl(0, &[(low, 0x41); 8]);
    for faithful in [true, false] {
        let (notes, _, _) = emit(&event, &states, None, true, faithful);
        assert!(
            notes.iter().all(|n| n.pitch == midi_of(low)),
            "the emitted body must be the chip's pitch: {:?}",
            notes.iter().map(|n| n.pitch).collect::<Vec<_>>()
        );
    }
}

#[test]
fn portamento_up_down_gesture_is_not_repitched_to_its_peak() {
    // A pitch gesture that rises to 4000 then falls back, never sustaining.
    let freqs = [
        2000u16, 2400, 2800, 3200, 3600, 4000, 3600, 3200, 2800, 2400, 2000,
    ];
    let spans = [span(Effect::Portamento, 0, 0, 5)]; // the up-slide only
    let measures = PitchMeasures {
        slide: Some((midi_of(4000) as u8, glide(-12.0, 99.75))),
        ..NOTHING
    };
    let notes = run_expressive(&freqs, &spans, &measures, false);
    assert_eq!(notes.len(), 1, "an unsettled gesture stays a single note");
    assert!(notes[0].glide.is_none(), "no glide onto the unsettled peak");
    assert_ne!(
        notes[0].pitch,
        midi_of(4000),
        "note must not be pitched to the gesture's peak"
    );
}

#[test]
fn chirp_rides_first_note_when_no_portamento() {
    // A note opening with a fast chirp and no portamento span gets a glide.
    let freqs = [8000u16, 8000, 4000, 4000, 4000, 4000, 4000, 4000];
    let chirp = glide(12.0, 39.9);
    let measures = PitchMeasures {
        chirp_on_note: None,
        chirp_on_plateau: Some(chirp),
        ..NOTHING
    };
    let notes = run_expressive(&freqs, &[], &measures, false);
    assert_eq!(notes.len(), 1);
    assert_eq!(notes[0].glide, Some(chirp), "chirp emitted as an onset glide");
}

#[test]
fn held_notes_keep_their_authored_length() {
    let states = gated_states_with_ctrl(0, &[(2000, 0x41); 10]);
    let note = build_note(7, &ev_at(0), 40, 10, &states);
    assert_eq!((note.id, note.start, note.duration), (7, 0, 400));
    assert_eq!(note.velocity, NoteLevel::Velocity(100));
}

/// The pitch of each frame in millionths of a semitone.
fn fine_pitches(freqs: &[u16]) -> Vec<Option<i64>> {
    freqs
        .iter()
        .map(|&f| {
            let hz = f64::from(f) * 985_248.0 / 16_777_216.0;
            if hz > 0.0 {
                Some(((69.0 + 12.0 * (hz / 440.0).log2()) * 1e6) as i64)
            } else {
                None
            }
        })
        .collect()
}

#[test]
fn onset_chirp_detects_fast_settle() {
    // Open an octave high (8000), settle to 4000 by frame 2.
    let freqs = [8000u16, 8000, 4000, 4000, 4000, 4000, 4000, 4000];
    let settled = midi_of(4000) as u8;
    let chirp = onset_chirp(&ev_at(0), settled, &fine_pitches(&freqs)).expect("a chirp");
    assert!(chirp.from > 1_000_000, "chirp opens above pitch");
    assert_eq!(chirp.frames, 2);
}

#[test]
fn onset_chirp_none_when_note_opens_at_pitch() {
    let settled = midi_of(4000) as u8;
    assert!(onset_chirp(&ev_at(0), settled, &fine_pitches(&[4000; 8])).is_none());
}

#[test]
fn onset_chirp_none_when_pitch_never_settles() {
    // A long monotonic slide (never within the chirp window) is not a chirp.
    let settled = midi_of(4000) as u8;
    assert!(onset_chirp(&ev_at(0), settled, &fine_pitches(&[8000; 12])).is_none());
}

#[test]
fn a_dip_that_swings_back_is_no_chirp() {
    let f5 = 0x2E72u16;
    let ds5 = 0x295Eu16;
    let pitches = fine_pitches(&[f5, ds5, ds5, f5]);
    assert!(onset_chirp(&ev_at(0), midi_of(ds5) as u8, &pitches).is_none());
    // Cut before it swings back, it settles.
    assert!(onset_chirp(&melodic_event(3, 77), midi_of(ds5) as u8, &pitches).is_some());
}

#[test]
fn faint_movements_are_no_effects() {
    let measure = |excursion, reversals| VibratoMeasure {
        excursion,
        frames: 16,
        reversals,
        delay_frames: 0,
        shape: VibratoShape::Triangle,
    };
    assert!(vibrato_is_audible(&measure(100_000, 8)));
    assert!(!vibrato_is_audible(&measure(99_999, 8)));
    assert!(!vibrato_is_audible(&measure(100_000, 0)));
    let slide = |from| SlideMeasure {
        dest: Some(60),
        from,
        frames: 3,
    };
    assert_eq!(slide_destination(&slide(-12_000_000)), Some(60));
    assert_eq!(slide_destination(&slide(49_999)), None);
    assert_eq!(slide_destination(&slide(50_000)), Some(60));
}
