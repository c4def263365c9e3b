use sid_analyzer::analysis::patch::DrumSubclass;
use sid_analyzer::analysis::program::{SystemClock, VoiceId};
use sid_analyzer::export::synth::effects::{EffectUnit, MasterState};
use sid_analyzer::export::synth::enhance::{
    compressor_module, distortion_module, enhance_instrument, enhance_master, EnhancementCurve,
};
use sid_analyzer::export::synth::instruments::select::generic_pulse_instrument;
use sid_analyzer::export::synth::instruments::{Parameters, Treatment};
use sid_analyzer::export::synth::lowering::{Coverage, StateDomain};
use sid_analyzer::export::synth::modern::{
    global_state, lane_target, remap_automation, restyle_instrument, SecondaryRecipe, VoiceRecipe,
    Wavetable, MODERN_MASTER_VOLUME,
};
use sid_analyzer::export::synth::options::{
    EnhancementAmount, Refusal, SynthOptions, SynthStyle,
};
use sid_analyzer::export::synth::song::automation::LaneKind;
use sid_analyzer::export::synth::song::Pattern;
use sid_analyzer::export::synth::timbre::InstrumentRole;
use sid_analyzer::header::SidModel;

#[test]
fn amount_is_strictly_bounded() {
    assert!(EnhancementAmount::new(0).is_err());
    assert_eq!(EnhancementAmount::new(1).expect("minimum").get(), 1);
    assert_eq!(EnhancementAmount::new(10).expect("maximum").get(), 10);
    assert!(EnhancementAmount::new(11).is_err());
}

#[test]
fn amounts_are_read_from_numerals() {
    assert_eq!("7".parse::<EnhancementAmount>().expect("an amount").get(), 7);
    assert_eq!("+10".parse::<EnhancementAmount>().expect("an amount").get(), 10);
    for text in ["", "0", "11", "256", "ten", "-1", " 5"] {
        let error = text.parse::<EnhancementAmount>().unwrap_err();
        assert_eq!(error.message(), "enhance level must be an integer from 1 to 10");
    }
}

fn curve(amount: u8) -> EnhancementCurve {
    EnhancementCurve::from_amount(EnhancementAmount::new(amount).expect("amount"))
}

#[test]
fn stronger_amount_increases_wet_processing() {
    let low = distortion_module(InstrumentRole::Bass, curve(1));
    let high = distortion_module(InstrumentRole::Bass, curve(10));
    assert!(low.drive < high.drive);
    assert!(low.mix < high.mix);
}

#[test]
fn every_step_drives_harder() {
    for amount in 1..10 {
        let weaker = distortion_module(InstrumentRole::Lead, curve(amount));
        let stronger = distortion_module(InstrumentRole::Lead, curve(amount + 1));
        assert!(weaker.drive < stronger.drive);
        assert!(weaker.mix < stronger.mix);
    }
}

#[test]
fn level_five_keeps_the_original_recipe_boundary() {
    let curve = curve(5);
    assert_eq!(curve.strength, 500);
    assert_eq!(curve.upper, 0);
    assert_eq!(curve.ambience, 500);

    let distortion = distortion_module(InstrumentRole::Bass, curve);
    assert_eq!(distortion.drive, 310_000);
    assert_eq!(distortion.mix, 140_000);

    let compressor = compressor_module(InstrumentRole::Bass, curve);
    assert_eq!(compressor.threshold, -12_000_000);
    assert_eq!(compressor.ratio, 2_200_000);
    assert_eq!(compressor.makeup, 400_000);
    assert_eq!(compressor.mix, 340_000);
}

#[test]
fn upper_range_adds_body_without_maxing_compression_or_ambience() {
    let curve = curve(10);
    assert_eq!(curve.upper, 1_000);
    assert_eq!(curve.ambience, 720);

    let compressor = compressor_module(InstrumentRole::Bass, curve);
    assert!(compressor.threshold > -18_000_000);
    assert!(compressor.ratio < 3_400_000);
    assert!(compressor.mix < 680_000);
    assert_eq!(compressor.makeup, 1_800_000);

    let mut global = MasterState::default();
    enhance_master(
        &mut global.effects,
        EnhancementAmount::new(10).expect("amount"),
    );
    let EffectUnit::Distortion(distortion) = &global.effects[0].unit else {
        panic!("master distortion parameters");
    };
    assert_eq!(distortion.drive, 420_000);
    assert_eq!(distortion.mix, 680_000);
    assert_eq!(distortion.tone, 820_000);
}

#[test]
fn an_enhanced_instrument_says_so() {
    let mut instrument =
        generic_pulse_instrument(1, VoiceId(1), SidModel::Mos6581, SystemClock::Pal);
    assert_eq!(instrument.treatment.description(), "sid-analyzer v0 export.");
    enhance_instrument(
        &mut instrument,
        InstrumentRole::Lead,
        false,
        EnhancementAmount::new(3).expect("amount"),
    );
    assert!(!instrument.effects.is_empty());
    assert_eq!(instrument.treatment, Treatment::Enhanced(3));
    assert_eq!(
        instrument.treatment.description(),
        "sid-analyzer faithful export with enhancement level 3."
    );
}

#[test]
fn modern_profile_recipes_remain_role_specific() {
    let bass = VoiceRecipe::bass();
    let pad = VoiceRecipe::pad();
    let kick = VoiceRecipe::drum(DrumSubclass::Kick);

    assert!(matches!(bass.secondary, SecondaryRecipe::Sub { .. }));
    assert!(matches!(
        pad.secondary,
        SecondaryRecipe::Wavetable {
            table: Wavetable::Warm,
            ..
        }
    ));
    assert_eq!(Wavetable::Warm.name(), "warm");
    assert!(matches!(kick.secondary, SecondaryRecipe::Noise { .. }));
    assert!(bass.filter.cutoff < pad.filter.cutoff);
}

#[test]
fn pulse_width_automation_is_retained_for_modern_oscillator() {
    let mut patterns = vec![Pattern {
        id: 0,
        name: String::new(),
        length: 1,
        notes: Vec::new(),
        automation: vec![0, 1],
        next_note_id: 0,
        processors: Vec::new(),
        note_graph: None,
    }];
    let kinds = [Some(LaneKind::PulseWidth), Some(LaneKind::SourceFrequency)];
    let before = lane_target(LaneKind::PulseWidth, false).expect("a module");
    assert_eq!((before.module, before.parameter), ("sid_oscillator", "pw_reg"));

    remap_automation(&mut patterns, &kinds);

    assert_eq!(patterns[0].automation, vec![0]);
    let target = lane_target(LaneKind::PulseWidth, true).expect("expected module target");
    assert_eq!(target.module, "oscillator");
    assert_eq!(target.parameter, "pulse_width");
}

#[test]
fn a_restyled_instrument_is_wired_and_has_no_chip_source() {
    let mut instrument =
        generic_pulse_instrument(1, VoiceId(1), SidModel::Mos8580, SystemClock::Pal);
    restyle_instrument(&mut instrument, VoiceRecipe::pad());
    assert_eq!(instrument.treatment, Treatment::Modern);
    assert!(!instrument
        .modules
        .iter()
        .any(|m| matches!(m.parameters, Parameters::SidOscillator(_))));
    for wire in &instrument.connections {
        assert!(instrument.modules.iter().any(|m| m.id == wire.from));
        assert!(instrument.modules.iter().any(|m| m.id == wire.to));
    }
    assert_eq!(global_state().volume, MODERN_MASTER_VOLUME);
    let places: Vec<(u16, u16)> = global_state().effects.iter().map(|e| (e.x, e.y)).collect();
    assert_eq!(places, vec![(1260, 40), (200, 0), (400, 0)]);
}

#[test]
fn refusals_tell_why() {
    let faithful = SynthOptions::default();
    assert!(faithful.are_compatible());
    let both = SynthOptions {
        style: SynthStyle::ModernAnalog,
        enhancement: EnhancementAmount::new(4).ok(),
        ..faithful
    };
    assert!(!both.are_compatible());
    assert_eq!(
        Refusal::EnhancedModern.message(),
        "enhancement cannot be combined with the modern analog style"
    );
    let mut uncovered = Coverage::new();
    assert_eq!(uncovered.text(), "{}");
    uncovered.insert(StateDomain::Filter);
    uncovered.insert(StateDomain::Pitch);
    assert_eq!(
        Refusal::Uncovered(uncovered).message(),
        "no state/render-valid representation covers {Pitch, Filter}"
    );
}
