use sid_analyzer::analysis::program::{
    AnalyzedSidProgram, ChipSignals, ContinuousOccurrence, ContinuousOccurrenceId, EnvPhase,
    EnvelopePoint, EventTimestampQuality, OscillatorCheckpoint, SidBusAccess, SidBusEvent,
    SidBusEventId, SidCallId, SidChipId, TopologyEdgeKind, VoiceId, VoiceSignals,
};
use sid_analyzer::export::synth::lowering::evidence::{
    cross_voice_edge_count, envelope_points, noise_start_recipes, onset_programs,
    oscillator_start_recipes, NoiseStartPolicy, OscillatorStartPolicy,
};
use sid_analyzer::export::synth::lowering::{
    apply_render_gate, compile, select_automatic, BehaviorCapability, CandidateRenderEvaluation,
    CapabilityError, Coverage, RejectionReason, RenderRequirement, StateBudget, StateDomain,
    TargetCapabilities,
};
use sid_analyzer::trace::SidRegister;

const DESCRIPTORS: &str = r#"{"version": 1, "modules": {"sid_oscillator": {}, "envelope": {"attack": [0, 10]}, "filter": {}}}"#;

fn write(id: u64, call: u64, register: u8, value: u8) -> SidBusEvent {
    SidBusEvent {
        id: SidBusEventId(id),
        call: SidCallId(call),
        chip: SidChipId(0),
        access: SidBusAccess::Write,
        register: Some(SidRegister(register)),
        value,
        timestamp_quality: EventTimestampQuality::Exact,
    }
}

fn program() -> AnalyzedSidProgram {
    let level = |level, phase| EnvelopePoint { level, phase };
    AnalyzedSidProgram {
        frame_count: 4,
        voices: vec![VoiceSignals {
            voice: VoiceId(1),
            envelope: vec![
                level(0, EnvPhase::Release),
                level(90, EnvPhase::Attack),
                level(40, EnvPhase::DecaySustain),
            ],
            waveform: vec![0x40, 0x40, 0x80],
        }],
        chip: ChipSignals {
            cutoff_points: 2,
            resonance_points: 0,
            filter_mode_points: 0,
            routing_points: 0,
            edges: vec![TopologyEdgeKind::Sync, TopologyEdgeKind::Mix],
            digi: Vec::new(),
        },
        events: vec![
            write(1, 1, 0, 0x34),
            write(2, 1, 1, 0x12),
            write(3, 1, 4, 0x41),
            write(4, 2, 4, 0x40),
        ],
        regions: Vec::new(),
        definitions: Vec::new(),
        occurrences: Vec::new(),
        continuous: vec![ContinuousOccurrence {
            id: ContinuousOccurrenceId(1),
            voice: Some(VoiceId(1)),
            continues_previous: false,
            continued: true,
            start: 0,
            oscillator: OscillatorCheckpoint {
                accumulator: 0,
                sync_resets: 0,
                test_or_reset: true,
                noise_poisoned: false,
                noise_shift_register: 0,
            },
            control: 0x41,
        }],
        reuse_groups: Vec::new(),
        interpretations: Vec::new(),
        dependencies: Vec::new(),
    }
}

#[test]
fn capabilities_are_the_listed_modules() {
    let capabilities = TargetCapabilities::from_pinned_mirrors(DESCRIPTORS).expect("valid");
    assert_eq!(capabilities.modules.len(), 3);
    assert!(capabilities.supports_module("sid_oscillator"));
    assert!(capabilities.supports_module("filter"));
    assert!(!capabilities.supports_module("version"));
    assert!(!capabilities.supports_behavior(BehaviorCapability::PhaseReset));
    let verified = capabilities.with_verified_behavior(BehaviorCapability::PhaseReset);
    assert!(verified.supports_behavior(BehaviorCapability::PhaseReset));
    assert!(!verified.supports_behavior(BehaviorCapability::GateRetrigger));
}

#[test]
fn unreadable_descriptors_are_refused() {
    assert!(matches!(
        TargetCapabilities::from_pinned_mirrors("{\"modules\":"),
        Err(CapabilityError::Json(_))
    ));
    for text in ["{}", "[1, 2]", "{\"modules\": [\"filter\"]}"] {
        assert!(matches!(
            TargetCapabilities::from_pinned_mirrors(text),
            Err(CapabilityError::MissingModules)
        ));
    }
}

#[test]
fn a_coverage_holds_what_was_inserted() {
    let mut coverage = Coverage::new();
    assert!(coverage.is_empty());
    coverage.insert(StateDomain::Filter);
    coverage.insert(StateDomain::Pitch);
    coverage.insert(StateDomain::Filter);
    assert!(coverage.contains(StateDomain::Filter));
    assert!(!coverage.contains(StateDomain::Digi));
    assert_eq!(
        coverage.domains(),
        vec![StateDomain::Pitch, StateDomain::Filter]
    );
    for k in 0..12 {
        assert_eq!(StateDomain::at(k).index(), k);
    }
}

#[test]
fn a_note_starts_with_the_writes_of_its_call() {
    let found = onset_programs(&program());
    assert_eq!(found.len(), 1);
    assert_eq!(found[0].trigger, SidBusEventId(3));
    assert_eq!(
        found[0].writes,
        vec![SidBusEventId(1), SidBusEventId(2), SidBusEventId(3)]
    );
    assert_eq!(found[0].initial_registers.0[0], 0);
}

#[test]
fn a_reset_oscillator_starts_by_its_reset() {
    let p = program();
    let oscillators = oscillator_start_recipes(&p);
    assert_eq!(oscillators.len(), 1);
    assert_eq!(oscillators[0].policy, OscillatorStartPolicy::TestReset);
    assert!(noise_start_recipes(&p)
        .iter()
        .all(|n| n.policy != NoiseStartPolicy::LegatoContinued));
    assert_eq!(cross_voice_edge_count(&p), 1);
    assert_eq!(envelope_points(&p), 3);
}

#[test]
fn compiling_covers_every_required_domain() {
    let capabilities = TargetCapabilities::from_pinned_mirrors(DESCRIPTORS).expect("valid");
    let plan = compile(&program(), &capabilities, StateBudget::default(), &[]);
    assert!(plan.uncovered.is_empty());
    assert_eq!(plan.decisions.len(), plan.candidates.len());
    for domain in plan.required.domains() {
        let chosen = plan.selected.get(domain).expect("selected");
        let at = plan
            .candidates
            .iter()
            .position(|c| c.id == chosen)
            .expect("a candidate");
        assert!(plan.candidates[at].coverage.contains(domain));
        assert!(plan.decisions[at].accepted);
        assert!(plan.decisions[at].rejected.is_empty());
    }
    // Something that the target cannot do was rejected for that.
    assert!(plan.decisions.iter().any(|d| d
        .rejected
        .iter()
        .any(|r| matches!(r, RejectionReason::MissingRequirement(_)))));
}

#[test]
fn an_unrendered_program_uses_the_baseline() {
    let capabilities = TargetCapabilities::from_pinned_mirrors(DESCRIPTORS).expect("valid");
    let chosen = select_automatic(
        &program(),
        &capabilities,
        StateBudget::default(),
        &[],
        &[],
    );
    assert!(chosen.render.uncovered.is_empty());
    for domain in chosen.state.required.domains() {
        let id = chosen.render.selected.get(domain).expect("selected");
        let candidate = chosen
            .state
            .candidates
            .iter()
            .find(|c| c.id == id)
            .expect("a candidate");
        assert_eq!(candidate.render_requirement, RenderRequirement::PinnedBaseline);
    }
}

#[test]
fn renders_that_miss_the_budget_are_rejected() {
    let capabilities = TargetCapabilities::from_pinned_mirrors(DESCRIPTORS).expect("valid");
    let plan = compile(&program(), &capabilities, StateBudget::default(), &[]);
    let evaluations: Vec<CandidateRenderEvaluation> = plan
        .candidates
        .iter()
        .map(|c| CandidateRenderEvaluation {
            candidate: c.id,
            within_audio_budget: false,
        })
        .collect();
    let gated = apply_render_gate(&plan, &evaluations);
    assert_eq!(gated.decisions.len(), plan.candidates.len());
    for (decision, candidate) in gated.decisions.iter().zip(&plan.candidates) {
        assert_eq!(decision.accepted, decision.rejection.is_none());
        if candidate.render_requirement == RenderRequirement::Required {
            assert!(!decision.accepted);
        }
    }
}

#[test]
fn the_scope_of_every_candidate_lists_each_voice_once_in_order() {
    let mut program = program();
    let signals = program.voices[0].clone();
    program.voices = [3, 1, 3, 2, 1]
        .iter()
        .map(|&number| VoiceSignals {
            voice: VoiceId(number),
            ..signals.clone()
        })
        .collect();
    let capabilities = TargetCapabilities::from_pinned_mirrors(DESCRIPTORS).expect("valid");
    let plan = compile(&program, &capabilities, StateBudget::default(), &[]);
    assert!(!plan.candidates.is_empty());
    for candidate in &plan.candidates {
        assert_eq!(candidate.scope.voices, vec![VoiceId(1), VoiceId(2), VoiceId(3)]);
    }
}
