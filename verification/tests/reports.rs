use sid_analyzer::analysis::frame::{
    Effect, EffectSpan, EnvelopeEvent, EnvelopeEventKind, NoteEvent, ProgramFrame,
};
use sid_analyzer::analysis::patch::Patch;
use sid_analyzer::analysis::program::{AnalyzedSidProgram, ChipSignals, SystemClock, VoiceId};
use sid_analyzer::export::synth::census::frames::{
    count_frames, count_masks, count_test_changes, count_volume_changes,
};
use sid_analyzer::export::synth::census::notes::{count_notes, count_spans};
use sid_analyzer::export::synth::census::{
    collect_census, exports_contour, list_policies, native_census, native_field_provenance,
    Census, ContinuousComplexity, FieldEvidence, FieldProvenance, NativeCapability,
    NativeExtraction, NoteFidelity, Osc3Attribution, Osc3Target, Provenance,
};
use sid_analyzer::export::synth::emission::ONE_BITS;
use sid_analyzer::export::synth::instruments::select::{InstrumentInput, SoundInput};
use sid_analyzer::export::synth::lowering::{
    CandidateId, CandidateRenderEvaluation, CapabilityError, StateDomain, TargetCapabilities,
};
use sid_analyzer::export::synth::options::{
    EnhancementAmount, Refusal, SynthOptions, SynthStyle,
};
use sid_analyzer::export::synth::ownership::PhysicalVoiceOwnership;
use sid_analyzer::export::synth::project::{
    finish_census, write_selected_synth, write_synth, write_synth_quiet, write_synth_source,
    write_synth_with_options, ExportFigures, SynthSource, WriteError,
};
use sid_analyzer::export::synth::routing::{apply_shared_filter_routing, ReturnBus, FULL_LEVEL};
use sid_analyzer::export::synth::song::assembly::TrackMaterial;
use sid_analyzer::export::synth::song::lanes::build_master_volume_lane;
use sid_analyzer::export::synth::song::SongNote;
use sid_analyzer::export::synth::timbre::{FilterKind, MergeShape, Waveform};
use sid_analyzer::export::synth::tracks::{build_track_plans, SynthNote, TrackPlan};
use sid_analyzer::export::text::{write_text, FrameRow, VoiceCell};
use sid_analyzer::header::SidModel;
use sid_analyzer::trace::{
    Adsr, ChipCycle, CpuCycles, FrameIndex, FrameTrace, RegisterRead, RegisterWrite, SidRegister,
    SubFrameOffset, Trace,
};

fn cell(gate: bool, note: Option<&str>) -> VoiceCell {
    VoiceCell {
        gate,
        note: note.map(str::to_string),
        freq: "1CD6".to_string(),
        waveform: "..P.".to_string(),
        adsr: Adsr {
            attack: 0,
            decay: 9,
            sustain: 10,
            release: 15,
        },
        pulse_width: "800".to_string(),
    }
}

fn row(frame: u32, gate: bool) -> FrameRow {
    FrameRow {
        frame: FrameIndex(frame),
        voices: [cell(gate, Some("A-4")), cell(false, Some("C-2")), cell(gate, None)],
        cutoff: "3FF".to_string(),
        resonance: "7".to_string(),
        mode: "L..".to_string(),
        volume: "F".to_string(),
    }
}

#[test]
fn a_table_names_notes_where_they_start() {
    let text = write_text(&[row(0, true), row(1, true), row(12, false)]);
    let lines: Vec<&str> = text.lines().collect();
    assert_eq!(lines.len(), 4);
    assert!(lines[0].starts_with("Frame | Note Freq Wave ADSR PW |"));
    assert_eq!(
        lines[1],
        "    0 | A-4 1CD6 ..P. 09AF 800 | --- 1CD6 ..P. 09AF 800 | --- 1CD6 ..P. 09AF 800 | 3FF 7 L.. | F"
    );
    assert!(lines[2].starts_with("    1 | ... 1CD6"));
    assert!(lines[3].starts_with("   12 | --- 1CD6"));
}

fn trace() -> Trace {
    let write = |reg: u8| RegisterWrite {
        reg: SidRegister(reg),
        value: 1,
        offset: SubFrameOffset(0),
    };
    let read = |reg: u8| RegisterRead {
        reg: SidRegister(reg),
        value: 1,
        offset: SubFrameOffset(0),
    };
    let frame = |index: u32, writes: Vec<RegisterWrite>, reads: Vec<RegisterRead>| FrameTrace {
        frame: FrameIndex(index),
        start_cycle: ChipCycle(0),
        duration: CpuCycles(0),
        overrun: CpuCycles(0),
        end_cycle: ChipCycle(0),
        writes,
        reads,
    };
    Trace {
        sid_model: SidModel::Mos6581,
        init_writes: vec![write(0)],
        init_reads: vec![read(0x1B)],
        init_duration: CpuCycles(0),
        init_overrun: CpuCycles(0),
        timing_exact: true,
        frames: vec![
            frame(0, vec![write(4), write(5)], vec![read(0x1B), read(0x1C)]),
            frame(1, vec![], vec![read(0x1B), read(0x19)]),
        ],
    }
}

#[test]
fn reads_of_the_third_voice_are_its_two_registers() {
    let t = trace();
    assert_eq!(t.total_writes(), 3);
    assert_eq!(t.osc3_read_count() + t.env3_read_count(), 4);
    assert_eq!(t.env3_read_count(), 1);
    let per_frame = t.voice3_reads_per_frame();
    assert_eq!(per_frame, vec![2, 1]);
    // The reads before the first call are not in any of the calls.
    assert_eq!(
        per_frame.iter().sum::<u32>() as usize + 1,
        t.osc3_read_count() + t.env3_read_count()
    );
}

#[test]
fn envelope_bytes_come_back() {
    for (ad, sr) in [(0x00, 0xFF), (0x9A, 0x3C), (0xF1, 0x08)] {
        let adsr = Adsr::from_bytes(ad, sr);
        assert_eq!(adsr.to_bytes(), (ad, sr));
    }
    assert_eq!(Adsr::from_bytes(0x2B, 0xF0).text(), "2BF0");
    assert!(SidRegister(0x18).label().is_some());
    assert!(SidRegister(0x40).label().is_none());
}

fn ev_at(start: u32) -> NoteEvent {
    NoteEvent {
        voice: VoiceId::from_index(0),
        start_frame: start,
        end_frame: Some(start + 10),
        sound_end: None,
        midi: 60,
        millicents: 0,
        velocity: 100,
    }
}

fn heard(event: NoteEvent) -> SynthNote {
    SynthNote {
        event,
        patch_id: None,
        characteristics: None,
        has_vibrato: false,
    }
}

fn states(count: usize) -> Vec<ProgramFrame> {
    (0..count)
        .map(|k| {
            let mut s = ProgramFrame::default();
            s.digital_state_exact = true;
            s.volume = 15;
            s.voices[0].freq = 0x2000;
            s.voices[0].pitch = Some(60);
            s.voices[0].gate = k % 20 < 10;
            s.voices[0].waveform = 0x40;
            s
        })
        .collect()
}

#[test]
fn frames_are_counted_by_what_they_show() {
    let mut frames = states(40);
    frames[3].filter.routing[1] = true;
    frames[5].voices[0].waveform = 0x50;
    frames[7].volume = 3;
    frames[9].voices[2].test = true;
    frames[0].digital_voices[0].events.push(EnvelopeEvent {
        offset: 0,
        kind: EnvelopeEventKind::EnteredAttack,
    });
    frames[1].digital_voices[0].active_cycles = 9;
    frames[2].digital_state_exact = false;
    let found = count_frames(&frames);
    assert_eq!(found.filter_routed, 1);
    assert_eq!(found.combined_waveforms, 1);
    assert_eq!(found.attack_entries, 1);
    assert_eq!(found.active_cycles, 9);
    assert_eq!(found.inexact_voices, 3);
    assert_eq!(count_volume_changes(&frames), 2);
    assert_eq!(count_test_changes(&frames), 2);
    let masks = count_masks(&frames);
    // The combination is not modelled exactly.
    assert_eq!(masks[16 + 5], 1);
    let policies = list_policies(SidModel::Mos6581, &masks);
    assert_eq!(policies.iter().map(|(_, n)| n).sum::<u64>(), 1);
}

#[test]
fn every_note_has_a_measured_or_a_static_velocity() {
    let mut frames = states(40);
    for frame in &mut frames[..10] {
        frame.digital_voices[0].peak_level = 120;
    }
    let notes = vec![heard(ev_at(0)), heard(ev_at(20))];
    let found = count_notes(&notes, &frames);
    assert_eq!(found.measured_velocity + found.static_velocity, 2);
    assert_eq!(found.measured_velocity, 1);
}

#[test]
fn spans_are_counted_by_effect() {
    let span = |effect| EffectSpan {
        effect,
        voice: None,
        start_frame: 0,
        end_frame: 1,
    };
    let effects = [span(Effect::Vibrato), span(Effect::Arpeggio), span(Effect::Vibrato)];
    assert_eq!(count_spans(&effects, Effect::Vibrato), 2);
    assert_eq!(count_spans(&effects, Effect::Portamento), 0);
}

fn extraction(recovered_structure: Option<&str>) -> NativeExtraction {
    NativeExtraction {
        driver: "Driver".to_string(),
        extractor: "Extractor".to_string(),
        validation: r#"{"frames": 40}"#.to_string(),
        fields: vec![
            FieldEvidence {
                field: "pitch".to_string(),
                provenance: Provenance::RenderMeasured,
                samples: 90,
                mismatches: 2,
            },
            FieldEvidence {
                field: "pulse width".to_string(),
                provenance: Provenance::Unknown,
                samples: 0,
                mismatches: 0,
            },
        ],
        recovered_structure: recovered_structure.map(str::to_string),
    }
}

#[test]
fn the_evidence_of_a_decoder_is_reported_field_by_field() {
    let native = native_census(Some(extraction(Some("[]")))).expect("a decoder ran");
    assert_eq!(native.driver, "Driver");
    assert_eq!(native.extractor, "Extractor");
    assert_eq!(native.validation, r#"{"frames": 40}"#);
    assert_eq!(native.recovered_structure.as_deref(), Some("[]"));
    let told: Vec<(&str, FieldProvenance, usize, usize)> = native
        .provenance
        .iter()
        .map(|e| (e.field.as_str(), e.provenance, e.samples, e.mismatches))
        .collect();
    assert_eq!(
        told,
        vec![
            ("pitch", FieldProvenance::TraceMeasured, 90, 2),
            ("pulse width", FieldProvenance::Unsupported, 0, 0),
        ]
    );
    assert!(native_census(None).is_none());
}

/// The census of a tune without notes whose chip volume moves.
fn volume_census(volumes: &[u8], target: Osc3Target, native: Option<NativeExtraction>) -> Census {
    let mut frames = states(volumes.len());
    for (frame, &volume) in frames.iter_mut().zip(volumes) {
        frame.volume = volume;
    }
    let plans: [TrackPlan; 0] = [];
    let ownership = PhysicalVoiceOwnership::from_plans(&plans, &[]);
    let attribution = Osc3Attribution {
        target,
        confidence_percent: 90,
        ..osc3()
    };
    let fits = Vec::new();
    let lane = build_master_volume_lane(&frames, volumes.len() as u32, &fits, 40);
    let census = collect_census(
        &[],
        &[],
        &[],
        &frames,
        &fits,
        40,
        &plans,
        &[],
        &ownership,
        0,
        SidModel::Mos6581,
        attribution,
        native,
        SynthOptions::default(),
    );
    assert!(!census.d418_digi_dropped || lane.is_none(), "a dropped lane is not there");
    census
}

#[test]
fn a_swelling_volume_keeps_its_lane_however_often_it_changes() {
    // Up to full volume and down again, a step a frame.
    let swell: Vec<u8> = (0..600u32)
        .map(|frame| {
            let step = (frame % 30) as u8;
            if step <= 15 { step } else { 30 - step }
        })
        .collect();
    let census = volume_census(&swell, Osc3Target::Volume, None);
    assert_eq!(census.d418_volume_changes, 599);
    assert!(!census.d418_digi_dropped);
    assert_eq!(census.osc3_contours_exported, 1);
    assert!(!census.stderr_summary("").contains("volume lane dropped"));
}

#[test]
fn a_hammered_volume_loses_its_lane() {
    let hammered: Vec<u8> = (0..600u32).map(|frame| (frame % 2 * 15) as u8).collect();
    let census = volume_census(&hammered, Osc3Target::Volume, None);
    assert!(census.d418_digi_dropped);
    assert_eq!(census.osc3_contours_exported, 0);
    assert!(census.stderr_summary("").contains("volume lane dropped"));

    let still = volume_census(&[15; 600], Osc3Target::Volume, Some(extraction(Some("[]"))));
    assert_eq!(still.d418_volume_changes, 0);
    assert!(!still.d418_digi_dropped, "a volume that never moves has nothing to drop");
    assert_eq!(still.summary().native, NativeCapability::Structured);
}

#[test]
fn a_census_is_empty_where_only_a_complete_export_tells() {
    let census = volume_census(&[15; 4], Osc3Target::Other, None);
    assert_eq!((census.d418_pcm_streams, census.d418_pcm_events), (0, 0));
    assert_eq!(census.serialized_size, 0);
    let fidelity = &census.note_fidelity;
    assert_eq!((fidelity.notes_ok, fidelity.notes_fail), (0, 0));
    assert_eq!((fidelity.events_degraded, fidelity.notes_unverifiable), (0, 0));
    assert_eq!(fidelity.mean_cents, 0);
    assert!(fidelity.worst.is_empty());
    assert_eq!(fidelity.uncovered_gated_frames, [0, 0, 0]);
    assert_eq!(census.continuous_program.occurrences, 0);
    assert!(census.chip_programs.is_empty());
}

#[test]
fn provenance_of_fields_is_never_better_than_the_source() {
    assert_eq!(
        native_field_provenance(Provenance::AuthoredVerified),
        FieldProvenance::AuthoredVerified
    );
    assert_eq!(
        native_field_provenance(Provenance::Unsupported),
        FieldProvenance::Unsupported
    );
}

fn plan(filtered: bool) -> TrackPlan {
    TrackPlan {
        instrument_id: 1,
        voice: VoiceId(1),
        shape: MergeShape {
            is_noise: false,
            waveform: Waveform::Pulse,
            authored_pwm: None,
            secondary_waveform: None,
            has_ring: false,
            has_sync: false,
            filter_kind: if filtered { Some(FilterKind::Lowpass) } else { None },
            waveform_program: None,
            waveform_loop: None,
            tonal_arp: None,
        },
        drum_drop: false,
        waveform_program: None,
        segments: Vec::new(),
        timeline: Vec::new(),
    }
}

#[test]
fn filtered_tracks_are_sent_through_the_shared_filter() {
    let leak = 0.25_f32.to_bits();
    let routing = apply_shared_filter_routing(&[plan(true), plan(false)], leak);
    assert_eq!(routing.sends[0].len(), 2);
    assert_eq!(routing.sends[0][0].level, FULL_LEVEL);
    assert_eq!(f32::from_bits(FULL_LEVEL), 1.0);
    assert_eq!(f32::from_bits(routing.sends[0][1].level), 0.25);
    assert!(routing.sends[1].is_empty());
    assert_eq!(routing.busses, vec![ReturnBus::Filter, ReturnBus::Leak]);
    let dry = apply_shared_filter_routing(&[plan(true)], 0.0_f32.to_bits());
    assert_eq!(dry.busses, vec![ReturnBus::Filter]);
    assert_eq!(dry.next_bus, 1);
}

#[test]
fn a_contour_of_the_third_oscillator_needs_confidence() {
    let plans = [plan(true)];
    assert!(exports_contour(Osc3Target::FilterCutoff, 70, &plans, false));
    assert!(!exports_contour(Osc3Target::FilterCutoff, 69, &plans, false));
    assert!(!exports_contour(Osc3Target::FilterCutoff, 90, &[plan(false)], false));
}

fn osc3() -> Osc3Attribution {
    Osc3Attribution {
        target: Osc3Target::Other,
        label: "none".to_string(),
        reads: 0,
        evidence: 0,
        confidence_percent: 0,
    }
}

fn sound_input() -> InstrumentInput {
    InstrumentInput {
        sound: SoundInput {
            pulse_range: (2048, 2048),
            pulse_start: None,
            filter: None,
            neighbour: None,
            noise: None,
            script: None,
            detune: 0,
        },
        measured_envelope: false,
        resets: vec![false, false],
        silent_sources: vec![],
    }
}

fn material() -> TrackMaterial {
    TrackMaterial {
        name: "Lead".to_string(),
        base_name: "Lead".to_string(),
        instrument: 1,
        voice_index: 0,
        processor: None,
        notes: vec![SongNote {
            id: 0,
            start: 0,
            duration: 400,
            pitch: 60,
            velocity: ONE_BITS,
            track: None,
            vibrato: None,
            glide: None,
            legato: false,
        }],
        blocks: None,
        lanes: vec![],
    }
}

const DESCRIPTORS: &str = r#"{"modules": {"sid_oscillator": {}, "envelope": {}}}"#;

fn program() -> AnalyzedSidProgram {
    AnalyzedSidProgram {
        frame_count: 40,
        voices: Vec::new(),
        chip: ChipSignals {
            cutoff_points: 0,
            resonance_points: 0,
            filter_mode_points: 0,
            routing_points: 0,
            edges: Vec::new(),
            digi: Vec::new(),
        },
        events: Vec::new(),
        regions: Vec::new(),
        definitions: Vec::new(),
        occurrences: Vec::new(),
        continuous: Vec::new(),
        reuse_groups: Vec::new(),
        interpretations: Vec::new(),
        dependencies: Vec::new(),
    }
}

fn figures() -> ExportFigures {
    ExportFigures {
        serialized_size: 4096,
        pcm_streams: 2,
        pcm_events: 30,
        complexity: ContinuousComplexity {
            occurrences: 1,
            reusable_groups: 1,
            serialized_size: 9,
        },
        fidelity: NoteFidelity {
            notes_ok: 7,
            notes_fail: 1,
            events_degraded: 0,
            notes_unverifiable: 0,
            mean_cents: 0,
            worst: vec![],
            uncovered_gated_frames: [1, 2, 3],
        },
        chip_programs: r#"{"programs": 3}"#.to_string(),
    }
}

#[test]
fn a_project_is_put_together_and_reported_on() {
    let frames = states(40);
    let notes = vec![heard(ev_at(0)), heard(ev_at(20))];
    let patches: [Patch; 0] = [];
    let plans = build_track_plans(&notes, &patches, &frames, 40);
    assert_eq!(plans.len(), 1, "two raw notes of one voice share a track");
    assert_eq!(plans[0].timeline.len(), 2);
    let ownership = PhysicalVoiceOwnership::from_plans(&plans, &notes);
    let inputs = [sound_input()];
    let late = [vec![false, false]];
    let materials = [material()];
    let still = Vec::new();
    let source = SynthSource {
        name: "Title",
        author: "Author",
        model: SidModel::Mos6581,
        clock: SystemClock::Pal,
        notes: &notes,
        patches: &patches,
        effects: &[],
        states: &frames,
        plans: &plans,
        ownership: &ownership,
        inputs: &inputs,
        late_vibrato: &late,
        materials: &materials,
        structured: false,
        length: 1_600,
        ticks_per_frame: 40,
        volume_fits: &still,
        volume_lane: None,
        lane_kinds: &[],
        lane_points: &[],
        filter_leak: 0,
    };
    let native = extraction(None);
    let program = program();
    let mut written = write_synth(&program, DESCRIPTORS, &[], &source, osc3(), Some(native))
        .expect("covered");
    assert!(written.selection.render.uncovered.is_empty());
    let census = &mut written.project.census;
    assert_eq!(census.song.patterns, 1);
    assert_eq!(census.native.as_ref().map(|n| n.provenance.len()), Some(2));
    finish_census(census, figures());
    assert_eq!(census.serialized_size, 4096);
    assert_eq!(census.chip_programs, r#"{"programs": 3}"#);

    // A quiet export is the same but for the report.
    let mut quiet =
        write_synth_quiet(&program, DESCRIPTORS, &[], &source, osc3(), Some(extraction(None)))
            .expect("covered");
    finish_census(&mut quiet.project.census, figures());
    assert_eq!(format!("{:?}", quiet.project), format!("{:?}", written.project));
    assert_eq!(format!("{:?}", quiet.selection), format!("{:?}", written.selection));
    let census = &written.project.census;

    let report = census.stderr_summary("notes agree");
    assert!(report.starts_with("fidelity census: 40 frames · 1 instruments · 1 tracks · 2 notes"));
    assert!(report.contains("automation points · 4096 bytes"));
    assert!(report.contains("PCM 2 streams/30 events"));
    assert!(report.ends_with("notes agree"));
    let summary = census.summary();
    assert_eq!(summary.notes_total, 2);
    assert_eq!(summary.notes_ok, 7);
    assert_eq!(summary.uncovered_gated_frames, 6);
    assert_eq!(summary.native, NativeCapability::Decoded);
    assert_eq!(summary.native_driver.as_deref(), Some("Driver"));

    let modern = SynthOptions {
        style: SynthStyle::ModernAnalog,
        ..SynthOptions::default()
    };
    let restyled =
        write_synth_with_options(&program, DESCRIPTORS, &[], &source, osc3(), None, modern)
            .expect("nothing against it")
            .project;
    assert_ne!(restyled.master.volume, written.project.master.volume);
    assert_eq!(restyled.census.summary().native, NativeCapability::Absent);

    let both = SynthOptions {
        enhancement: EnhancementAmount::new(5).ok(),
        ..modern
    };
    assert!(matches!(
        write_synth_source(&source, osc3(), None, both),
        Err(Refusal::EnhancedModern)
    ));
    assert!(matches!(
        write_synth_with_options(&program, DESCRIPTORS, &[], &source, osc3(), None, both),
        Err(WriteError::Refused(Refusal::EnhancedModern))
    ));
    assert!(matches!(
        write_synth_quiet(&program, "{}", &[], &source, osc3(), None),
        Err(WriteError::Capability(CapabilityError::MissingModules))
    ));
    assert!(matches!(
        write_synth_quiet(&program, "", &[], &source, osc3(), None),
        Err(WriteError::Capability(CapabilityError::Json(_)))
    ));

    // If every rendering misses the budget, nothing represents the program.
    let capabilities = TargetCapabilities::from_pinned_mirrors(DESCRIPTORS).expect("valid");
    let evaluations: Vec<CandidateRenderEvaluation> = (0..64)
        .map(|k| CandidateRenderEvaluation {
            candidate: CandidateId(k),
            within_audio_budget: false,
        })
        .collect();
    let refused = write_selected_synth(
        &program,
        &capabilities,
        &[],
        &evaluations,
        &source,
        osc3(),
        None,
        SynthOptions::default(),
    );
    let Err(Refusal::Uncovered(domains)) = refused else {
        panic!("uncovered");
    };
    assert!(domains.contains(StateDomain::Pitch));
}

#[test]
fn percentages_in_a_report_are_rounded_like_printed_numbers() {
    for (routed, total) in [(1, 8), (3, 8), (1, 40), (5, 40), (7, 32), (20, 32)] {
        let mut frames = states(total);
        for frame in &mut frames[..routed] {
            frame.filter.routing[0] = true;
        }
        let notes: Vec<SynthNote> = vec![];
        let plans: [TrackPlan; 0] = [];
        let ownership = PhysicalVoiceOwnership::from_plans(&plans, &notes);
        let still = Vec::new();
        let source = SynthSource {
            name: "",
            author: "",
            model: SidModel::Mos6581,
            clock: SystemClock::Pal,
            notes: &notes,
            patches: &[],
            effects: &[],
            states: &frames,
            plans: &plans,
            ownership: &ownership,
            inputs: &[],
            late_vibrato: &[],
            materials: &[],
            structured: false,
            length: 0,
            ticks_per_frame: 40,
            volume_fits: &still,
            volume_lane: None,
            lane_kinds: &[],
            lane_points: &[],
            filter_leak: 0,
        };
        let project = write_synth_source(&source, osc3(), None, SynthOptions::default())
            .expect("compatible");
        let report = project.census.stderr_summary("");
        let percent = format!("{:.0}%", 100.0 * routed as f64 / total as f64);
        assert!(
            report.contains(&format!("{routed} filter-routed ({percent})")),
            "{report}"
        );
    }
}
