//! Layered analog sounds for the same music. Numbers are held in millionths.

use crate::analysis::patch::{DrumSubclass, Patch};
use crate::chars::{from_chars, to_chars};
use crate::numerals::push_text;
use super::effects::{
    Chorus, Compressor, Delay, DelayMode, EffectUnit, Equalizer, Limiter, MasterEffect,
    MasterState, Reverb,
};
use super::emission::{segments_fit, track_arpeggio};
use super::instruments::select::instrument_views;
use super::instruments::{
    has_module, is_wired, module_views, wire, Connection, Instrument, InstrumentView, Module,
    ModuleId, ModuleView, Parameters, ParametersView, Port, Treatment,
};
use super::naming::{plan_arpeggiated, plan_role, role_of};
use super::song::automation::LaneKind;
use super::song::{pattern_views, Pattern, PatternView};
use super::timbre::{InstrumentRole, Waveform};
use super::tracks::TrackPlan;
use vstd::prelude::*;

verus! {

/// The waveform of an analog oscillator.
#[derive(Debug, Clone, Copy, PartialEq, Eq, Structural)]
pub enum AnalogWave {
    Sawtooth,
    Triangle,
    Pulse,
    Sine,
    Square,
}

impl AnalogWave {
    /// What the target calls the waveform.
    pub open spec fn label(self) -> Seq<char> {
        match self {
            AnalogWave::Sawtooth => "sawtooth"@,
            AnalogWave::Triangle => "triangle"@,
            AnalogWave::Pulse => "pulse"@,
            AnalogWave::Sine => "sine"@,
            AnalogWave::Square => "square"@,
        }
    }

    /// What the target calls the waveform.
    pub fn name(self) -> (r: &'static str)
        ensures
            r@ == self.label(),
    {
        match self {
            AnalogWave::Sawtooth => "sawtooth",
            AnalogWave::Triangle => "triangle",
            AnalogWave::Pulse => "pulse",
            AnalogWave::Sine => "sine",
            AnalogWave::Square => "square",
        }
    }
}

/// The analog waveform that stands for one of the chip.
pub open spec fn analog_wave(source: Waveform) -> AnalogWave {
    match source {
        Waveform::Pulse => AnalogWave::Pulse,
        Waveform::Triangle => AnalogWave::Triangle,
        _ => AnalogWave::Sawtooth,
    }
}

/// The analog waveform that stands for one of the chip.
pub fn modern_waveform(source: Waveform) -> (r: AnalogWave)
    ensures
        r == analog_wave(source),
{
    match source {
        Waveform::Pulse => AnalogWave::Pulse,
        Waveform::Triangle => AnalogWave::Triangle,
        _ => AnalogWave::Sawtooth,
    }
}

/// How the first layer of a sound is set.
#[derive(Debug, Clone, Copy, PartialEq, Eq, Structural)]
pub struct OscillatorRecipe {
    pub waveform: AnalogWave,
    /// In semitones.
    pub octave: i64,
    pub unison: i64,
    pub unison_detune: i64,
    pub unison_spread: i64,
    pub level: i64,
}

/// A table of waveforms.
#[derive(Debug, Clone, Copy, PartialEq, Eq, Structural)]
pub enum Wavetable {
    Basic,
    Digital,
    Harmonics,
    Warm,
}

impl Wavetable {
    /// What the target calls the table.
    pub open spec fn label(self) -> Seq<char> {
        match self {
            Wavetable::Basic => "basic"@,
            Wavetable::Digital => "digital"@,
            Wavetable::Harmonics => "harmonics"@,
            Wavetable::Warm => "warm"@,
        }
    }

    /// What the target calls the table.
    pub fn name(self) -> (r: &'static str)
        ensures
            r@ == self.label(),
    {
        match self {
            Wavetable::Basic => "basic",
            Wavetable::Digital => "digital",
            Wavetable::Harmonics => "harmonics",
            Wavetable::Warm => "warm",
        }
    }
}

/// How the second layer of a sound is set.
#[derive(Debug, Clone, Copy, PartialEq, Eq, Structural)]
pub enum SecondaryRecipe {
    Wavetable { table: Wavetable, position: i64, octave: i64, detune: i64, level: i64 },
    /// A triangle an octave below.
    Sub { level: i64 },
    Noise { level: i64 },
}

impl SecondaryRecipe {
    /// The module of the second layer.
    pub open spec fn module(self) -> ModuleId {
        match self {
            SecondaryRecipe::Wavetable { .. } => ModuleId::Wtb1,
            SecondaryRecipe::Sub { .. } => ModuleId::Sub1,
            SecondaryRecipe::Noise { .. } => ModuleId::Nse1,
        }
    }

    /// The module of the second layer.
    pub fn module_id(&self) -> (r: ModuleId)
        ensures
            r == self.module(),
    {
        match self {
            SecondaryRecipe::Wavetable { .. } => ModuleId::Wtb1,
            SecondaryRecipe::Sub { .. } => ModuleId::Sub1,
            SecondaryRecipe::Noise { .. } => ModuleId::Nse1,
        }
    }
}

/// How the low-pass of a sound is set.
#[derive(Debug, Clone, Copy, PartialEq, Eq, Structural)]
pub struct FilterRecipe {
    pub cutoff: i64,
    pub resonance: i64,
    pub drive: i64,
    pub key_track: i64,
}

/// Which effects a sound gets.
#[derive(Debug, Clone, Copy, PartialEq, Eq, Structural)]
pub enum EffectRecipe {
    Bass,
    Lead,
    Arp,
    Pad,
    Stab,
    Bell,
    Drum,
    Utility,
}

/// How a sound is made.
#[derive(Debug, Clone, Copy, PartialEq, Eq, Structural)]
pub struct VoiceRecipe {
    pub primary: OscillatorRecipe,
    pub secondary: SecondaryRecipe,
    pub filter: FilterRecipe,
    pub effects: EffectRecipe,
    pub volume_trim: i64,
}

/// An oscillator at its own octave.
pub open spec fn analog(
    waveform: AnalogWave,
    unison: i64,
    unison_detune: i64,
    unison_spread: i64,
    level: i64,
) -> OscillatorRecipe {
    OscillatorRecipe { waveform, octave: 0, unison, unison_detune, unison_spread, level }
}

/// A low-pass.
pub open spec fn lowpass(cutoff: i64, resonance: i64, drive: i64, key_track: i64) -> FilterRecipe {
    FilterRecipe { cutoff, resonance, drive, key_track }
}

/// The recipe of a bass.
pub open spec fn bass_recipe() -> VoiceRecipe {
    VoiceRecipe {
        primary: analog(AnalogWave::Sawtooth, 2_000_000, 7_000_000, 180_000, 720_000),
        secondary: SecondaryRecipe::Sub { level: 420_000 },
        filter: lowpass(880_000_000, 180_000, 1_800_000, 480_000),
        effects: EffectRecipe::Bass,
        volume_trim: 1_000_000,
    }
}

/// The recipe of a lead.
pub open spec fn lead_recipe(source: Waveform) -> VoiceRecipe {
    VoiceRecipe {
        primary: analog(analog_wave(source), 3_000_000, 12_000_000, 620_000, 600_000),
        secondary: SecondaryRecipe::Wavetable {
            table: Wavetable::Digital,
            position: 360_000,
            octave: 0,
            detune: 7_000_000,
            level: 320_000,
        },
        filter: lowpass(3_600_000_000, 270_000, 1_350_000, 320_000),
        effects: EffectRecipe::Lead,
        volume_trim: 900_000,
    }
}

/// The recipe of a lead that plays arpeggios.
pub open spec fn arp_recipe(source: Waveform) -> VoiceRecipe {
    VoiceRecipe {
        primary: analog(analog_wave(source), 2_000_000, 9_000_000, 450_000, 580_000),
        secondary: SecondaryRecipe::Wavetable {
            table: Wavetable::Harmonics,
            position: 580_000,
            octave: 1_000_000,
            detune: -5_000_000i64,
            level: 230_000,
        },
        filter: lowpass(4_800_000_000, 160_000, 1_150_000, 380_000),
        effects: EffectRecipe::Arp,
        volume_trim: 820_000,
    }
}

/// The recipe of a pad.
pub open spec fn pad_recipe() -> VoiceRecipe {
    VoiceRecipe {
        primary: analog(AnalogWave::Sawtooth, 4_000_000, 18_000_000, 820_000, 460_000),
        secondary: SecondaryRecipe::Wavetable {
            table: Wavetable::Warm,
            position: 420_000,
            octave: 0,
            detune: -8_000_000i64,
            level: 340_000,
        },
        filter: lowpass(2_200_000_000, 200_000, 1_250_000, 500_000),
        effects: EffectRecipe::Pad,
        volume_trim: 760_000,
    }
}

/// The recipe of a stab.
pub open spec fn stab_recipe() -> VoiceRecipe {
    VoiceRecipe {
        primary: analog(AnalogWave::Sawtooth, 2_000_000, 10_000_000, 360_000, 620_000),
        secondary: SecondaryRecipe::Wavetable {
            table: Wavetable::Basic,
            position: 720_000,
            octave: 1_000_000,
            detune: 0,
            level: 200_000,
        },
        filter: lowpass(2_800_000_000, 340_000, 1_550_000, 440_000),
        effects: EffectRecipe::Stab,
        volume_trim: 860_000,
    }
}

/// The recipe of a bell.
pub open spec fn bell_recipe() -> VoiceRecipe {
    VoiceRecipe {
        primary: analog(AnalogWave::Triangle, 1_000_000, 0, 0, 580_000),
        secondary: SecondaryRecipe::Wavetable {
            table: Wavetable::Harmonics,
            position: 780_000,
            octave: 1_000_000,
            detune: 3_000_000,
            level: 300_000,
        },
        filter: lowpass(6_200_000_000, 120_000, 1_000_000, 240_000),
        effects: EffectRecipe::Bell,
        volume_trim: 800_000,
    }
}

/// The recipe of a drum from its waveform, octave, noise, cutoff, resonance and
/// volume.
pub open spec fn struck(
    waveform: AnalogWave,
    octave: i64,
    noise: i64,
    cutoff: i64,
    resonance: i64,
    volume_trim: i64,
) -> VoiceRecipe {
    VoiceRecipe {
        primary: OscillatorRecipe { octave, ..analog(waveform, 1_000_000, 0, 0, 560_000) },
        secondary: SecondaryRecipe::Noise { level: noise },
        filter: lowpass(cutoff, resonance, 1_450_000, 180_000),
        effects: EffectRecipe::Drum,
        volume_trim,
    }
}

/// The recipe of a drum.
pub open spec fn drum_recipe(subclass: DrumSubclass) -> VoiceRecipe {
    match subclass {
        DrumSubclass::Kick => struck(
            AnalogWave::Sine,
            -24_000_000i64,
            100_000,
            1_500_000_000,
            100_000,
            1_050_000,
        ),
        DrumSubclass::Tom => struck(
            AnalogWave::Triangle,
            -12_000_000i64,
            160_000,
            2_200_000_000,
            180_000,
            960_000,
        ),
        DrumSubclass::Snare => struck(
            AnalogWave::Triangle,
            0,
            720_000,
            7_200_000_000,
            240_000,
            880_000,
        ),
        DrumSubclass::HihatClosed => struck(
            AnalogWave::Square,
            12_000_000,
            920_000,
            11_000_000_000,
            160_000,
            700_000,
        ),
        DrumSubclass::HihatOpen => struck(
            AnalogWave::Square,
            12_000_000,
            880_000,
            10_500_000_000,
            140_000,
            720_000,
        ),
        DrumSubclass::PercMetallic => struck(
            AnalogWave::Square,
            0,
            600_000,
            8_600_000_000,
            360_000,
            780_000,
        ),
    }
}

/// The recipe of a sound without a role.
pub open spec fn plain_recipe(source: Waveform) -> VoiceRecipe {
    VoiceRecipe {
        primary: analog(analog_wave(source), 2_000_000, 6_000_000, 200_000, 620_000),
        secondary: SecondaryRecipe::Wavetable {
            table: Wavetable::Basic,
            position: 500_000,
            octave: 0,
            detune: -4_000_000i64,
            level: 240_000,
        },
        filter: lowpass(3_200_000_000, 180_000, 1_250_000, 300_000),
        effects: EffectRecipe::Utility,
        volume_trim: 860_000,
    }
}

fn layer(
    waveform: AnalogWave,
    unison: i64,
    unison_detune: i64,
    unison_spread: i64,
    level: i64,
) -> (r: OscillatorRecipe)
    ensures
        r == analog(waveform, unison, unison_detune, unison_spread, level),
{
    OscillatorRecipe { waveform, octave: 0, unison, unison_detune, unison_spread, level }
}

fn low(cutoff: i64, resonance: i64, drive: i64, key_track: i64) -> (r: FilterRecipe)
    ensures
        r == lowpass(cutoff, resonance, drive, key_track),
{
    FilterRecipe { cutoff, resonance, drive, key_track }
}

fn strike(
    waveform: AnalogWave,
    octave: i64,
    noise: i64,
    cutoff: i64,
    resonance: i64,
    volume_trim: i64,
) -> (r: VoiceRecipe)
    ensures
        r == struck(waveform, octave, noise, cutoff, resonance, volume_trim),
{
    VoiceRecipe {
        primary: OscillatorRecipe {
            waveform,
            octave,
            unison: 1_000_000,
            unison_detune: 0,
            unison_spread: 0,
            level: 560_000,
        },
        secondary: SecondaryRecipe::Noise { level: noise },
        filter: low(cutoff, resonance, 1_450_000, 180_000),
        effects: EffectRecipe::Drum,
        volume_trim,
    }
}

impl VoiceRecipe {
    /// The recipe of a bass.
    pub fn bass() -> (r: VoiceRecipe)
        ensures
            r == bass_recipe(),
    {
        VoiceRecipe {
            primary: layer(AnalogWave::Sawtooth, 2_000_000, 7_000_000, 180_000, 720_000),
            secondary: SecondaryRecipe::Sub { level: 420_000 },
            filter: low(880_000_000, 180_000, 1_800_000, 480_000),
            effects: EffectRecipe::Bass,
            volume_trim: 1_000_000,
        }
    }

    /// The recipe of a lead.
    pub fn lead(source: Waveform) -> (r: VoiceRecipe)
        ensures
            r == lead_recipe(source),
    {
        VoiceRecipe {
            primary: layer(modern_waveform(source), 3_000_000, 12_000_000, 620_000, 600_000),
            secondary: SecondaryRecipe::Wavetable {
                table: Wavetable::Digital,
                position: 360_000,
                octave: 0,
                detune: 7_000_000,
                level: 320_000,
            },
            filter: low(3_600_000_000, 270_000, 1_350_000, 320_000),
            effects: EffectRecipe::Lead,
            volume_trim: 900_000,
        }
    }

    /// The recipe of a lead that plays arpeggios.
    pub fn arp_lead(source: Waveform) -> (r: VoiceRecipe)
        ensures
            r == arp_recipe(source),
    {
        VoiceRecipe {
            primary: layer(modern_waveform(source), 2_000_000, 9_000_000, 450_000, 580_000),
            secondary: SecondaryRecipe::Wavetable {
                table: Wavetable::Harmonics,
                position: 580_000,
                octave: 1_000_000,
                detune: -5_000_000,
                level: 230_000,
            },
            filter: low(4_800_000_000, 160_000, 1_150_000, 380_000),
            effects: EffectRecipe::Arp,
            volume_trim: 820_000,
        }
    }

    /// The recipe of a pad.
    pub fn pad() -> (r: VoiceRecipe)
        ensures
            r == pad_recipe(),
    {
        VoiceRecipe {
            primary: layer(AnalogWave::Sawtooth, 4_000_000, 18_000_000, 820_000, 460_000),
            secondary: SecondaryRecipe::Wavetable {
                table: Wavetable::Warm,
                position: 420_000,
                octave: 0,
                detune: -8_000_000,
                level: 340_000,
            },
            filter: low(2_200_000_000, 200_000, 1_250_000, 500_000),
            effects: EffectRecipe::Pad,
            volume_trim: 760_000,
        }
    }

    /// The recipe of a stab.
    pub fn stab() -> (r: VoiceRecipe)
        ensures
            r == stab_recipe(),
    {
        VoiceRecipe {
            primary: layer(AnalogWave::Sawtooth, 2_000_000, 10_000_000, 360_000, 620_000),
            secondary: SecondaryRecipe::Wavetable {
                table: Wavetable::Basic,
                position: 720_000,
                octave: 1_000_000,
                detune: 0,
                level: 200_000,
            },
            filter: low(2_800_000_000, 340_000, 1_550_000, 440_000),
            effects: EffectRecipe::Stab,
            volume_trim: 860_000,
        }
    }

    /// The recipe of a bell.
    pub fn bell() -> (r: VoiceRecipe)
        ensures
            r == bell_recipe(),
    {
        VoiceRecipe {
            primary: layer(AnalogWave::Triangle, 1_000_000, 0, 0, 580_000),
            secondary: SecondaryRecipe::Wavetable {
                table: Wavetable::Harmonics,
                position: 780_000,
                octave: 1_000_000,
                detune: 3_000_000,
                level: 300_000,
            },
            filter: low(6_200_000_000, 120_000, 1_000_000, 240_000),
            effects: EffectRecipe::Bell,
            volume_trim: 800_000,
        }
    }

    /// The recipe of a drum.
    pub fn drum(subclass: DrumSubclass) -> (r: VoiceRecipe)
        ensures
            r == drum_recipe(subclass),
    {
        match subclass {
            DrumSubclass::Kick => strike(
                AnalogWave::Sine,
                -24_000_000,
                100_000,
                1_500_000_000,
                100_000,
                1_050_000,
            ),
            DrumSubclass::Tom => strike(
                AnalogWave::Triangle,
                -12_000_000,
                160_000,
                2_200_000_000,
                180_000,
                960_000,
            ),
            DrumSubclass::Snare => strike(
                AnalogWave::Triangle,
                0,
                720_000,
                7_200_000_000,
                240_000,
                880_000,
            ),
            DrumSubclass::HihatClosed => strike(
                AnalogWave::Square,
                12_000_000,
                920_000,
                11_000_000_000,
                160_000,
                700_000,
            ),
            DrumSubclass::HihatOpen => strike(
                AnalogWave::Square,
                12_000_000,
                880_000,
                10_500_000_000,
                140_000,
                720_000,
            ),
            DrumSubclass::PercMetallic => strike(
                AnalogWave::Square,
                0,
                600_000,
                8_600_000_000,
                360_000,
                780_000,
            ),
        }
    }

    /// The recipe of a sound without a role.
    pub fn untagged(source: Waveform) -> (r: VoiceRecipe)
        ensures
            r == plain_recipe(source),
    {
        VoiceRecipe {
            primary: layer(modern_waveform(source), 2_000_000, 6_000_000, 200_000, 620_000),
            secondary: SecondaryRecipe::Wavetable {
                table: Wavetable::Basic,
                position: 500_000,
                octave: 0,
                detune: -4_000_000,
                level: 240_000,
            },
            filter: low(3_200_000_000, 180_000, 1_250_000, 300_000),
            effects: EffectRecipe::Utility,
            volume_trim: 860_000,
        }
    }
}

/// The recipe of a track, by its role.
pub open spec fn recipe_of(plan: TrackPlan, patches: Seq<Patch>) -> VoiceRecipe {
    let shape = plan.shape.view();
    match role_of(plan.segments@, patches) {
        InstrumentRole::Bass => bass_recipe(),
        InstrumentRole::Lead => if track_arpeggio(plan.segments@, patches) is Some {
            arp_recipe(shape.waveform)
        } else {
            lead_recipe(shape.waveform)
        },
        InstrumentRole::Pad => pad_recipe(),
        InstrumentRole::Stab => stab_recipe(),
        InstrumentRole::Bell => bell_recipe(),
        InstrumentRole::Drum(subclass) => drum_recipe(subclass),
        InstrumentRole::Untagged => if plan.drum_drop || shape.is_noise {
            drum_recipe(DrumSubclass::PercMetallic)
        } else {
            plain_recipe(shape.waveform)
        },
    }
}

/// Chooses the recipe of a track.
pub fn choose_recipe(plan: &TrackPlan, patches: &[Patch]) -> (r: VoiceRecipe)
    requires
        segments_fit(plan.segments@, patches@),
    ensures
        r == recipe_of(*plan, patches@),
{
    match plan_role(plan, patches) {
        InstrumentRole::Bass => VoiceRecipe::bass(),
        InstrumentRole::Lead => if plan_arpeggiated(plan, patches) {
            VoiceRecipe::arp_lead(plan.shape.waveform)
        } else {
            VoiceRecipe::lead(plan.shape.waveform)
        },
        InstrumentRole::Pad => VoiceRecipe::pad(),
        InstrumentRole::Stab => VoiceRecipe::stab(),
        InstrumentRole::Bell => VoiceRecipe::bell(),
        InstrumentRole::Drum(subclass) => VoiceRecipe::drum(subclass),
        InstrumentRole::Untagged => if plan.drum_drop || plan.shape.is_noise {
            VoiceRecipe::drum(DrumSubclass::PercMetallic)
        } else {
            VoiceRecipe::untagged(plan.shape.waveform)
        },
    }
}

/// The effects of a recipe.
pub open spec fn recipe_effects(e: EffectRecipe) -> Seq<EffectUnit> {
    match e {
        EffectRecipe::Bass => seq![
            squeeze(-16_000_000, 3_200_000, 7_000_000, 130_000_000, 1_000_000, 780_000),
        ],
        EffectRecipe::Lead => seq![
            swirl(340_000, 420_000, 320_000, 3_000_000),
            repeats(280_000, 240_000, 340_000, DelayMode::PingPong),
        ],
        EffectRecipe::Arp => seq![
            swirl(220_000, 250_000, 480_000, 2_000_000),
            repeats(360_000, 300_000, 240_000, DelayMode::PingPong),
        ],
        EffectRecipe::Pad => seq![EffectUnit::Ensemble, hall(420_000, 620_000, 760_000, 900_000)],
        EffectRecipe::Stab => seq![
            swirl(180_000, 220_000, 280_000, 2_000_000),
            hall(180_000, 340_000, 580_000, 720_000),
        ],
        EffectRecipe::Bell => seq![
            repeats(320_000, 260_000, 450_000, DelayMode::Stereo),
            hall(340_000, 550_000, 820_000, 880_000),
        ],
        EffectRecipe::Drum => seq![
            squeeze(-14_000_000, 4_000_000, 4_000_000, 95_000_000, 1_200_000, 880_000),
        ],
        EffectRecipe::Utility => seq![swirl(160_000, 180_000, 250_000, 2_000_000)],
    }
}

/// A compressor.
pub open spec fn squeeze(
    threshold: int,
    ratio: i64,
    attack: i64,
    release: i64,
    makeup: i64,
    mix: i64,
) -> EffectUnit {
    EffectUnit::Compressor(
        Compressor { threshold: threshold as i64, ratio, attack, release, makeup, mix },
    )
}

/// A chorus.
pub open spec fn swirl(depth: i64, mix: i64, rate: i64, voices: i64) -> EffectUnit {
    EffectUnit::Chorus(Chorus { depth, mix, rate, voices })
}

/// A delay.
pub open spec fn repeats(feedback: i64, mix: i64, time: i64, mode: DelayMode) -> EffectUnit {
    EffectUnit::Delay(Delay { feedback, mix, time, mode })
}

/// A reverb.
pub open spec fn hall(mix: i64, decay: i64, room_size: i64, width: i64) -> EffectUnit {
    EffectUnit::Reverb(Reverb { mix, decay, room_size, width })
}

fn compressor_module(
    threshold: i64,
    ratio: i64,
    attack: i64,
    release: i64,
    makeup: i64,
    mix: i64,
) -> (r: EffectUnit)
    ensures
        r == squeeze(threshold as int, ratio, attack, release, makeup, mix),
{
    EffectUnit::Compressor(Compressor { threshold, ratio, attack, release, makeup, mix })
}

fn chorus_module(depth: i64, mix: i64, rate: i64, voices: i64) -> (r: EffectUnit)
    ensures
        r == swirl(depth, mix, rate, voices),
{
    EffectUnit::Chorus(Chorus { depth, mix, rate, voices })
}

fn delay_module(feedback: i64, mix: i64, time: i64, mode: DelayMode) -> (r: EffectUnit)
    ensures
        r == repeats(feedback, mix, time, mode),
{
    EffectUnit::Delay(Delay { feedback, mix, time, mode })
}

fn reverb_module(mix: i64, decay: i64, room_size: i64, width: i64) -> (r: EffectUnit)
    ensures
        r == hall(mix, decay, room_size, width),
{
    EffectUnit::Reverb(Reverb { mix, decay, room_size, width })
}

/// Chooses the effects of a recipe.
pub fn effect_modules(recipe: EffectRecipe) -> (r: Vec<EffectUnit>)
    ensures
        r@ == recipe_effects(recipe),
{
    let mut out: Vec<EffectUnit> = Vec::new();
    match recipe {
        EffectRecipe::Bass => {
            out.push(
                compressor_module(
                    -16_000_000,
                    3_200_000,
                    7_000_000,
                    130_000_000,
                    1_000_000,
                    780_000,
                ),
            );
        },
        EffectRecipe::Lead => {
            out.push(chorus_module(340_000, 420_000, 320_000, 3_000_000));
            out.push(delay_module(280_000, 240_000, 340_000, DelayMode::PingPong));
        },
        EffectRecipe::Arp => {
            out.push(chorus_module(220_000, 250_000, 480_000, 2_000_000));
            out.push(delay_module(360_000, 300_000, 240_000, DelayMode::PingPong));
        },
        EffectRecipe::Pad => {
            out.push(EffectUnit::Ensemble);
            out.push(reverb_module(420_000, 620_000, 760_000, 900_000));
        },
        EffectRecipe::Stab => {
            out.push(chorus_module(180_000, 220_000, 280_000, 2_000_000));
            out.push(reverb_module(180_000, 340_000, 580_000, 720_000));
        },
        EffectRecipe::Bell => {
            out.push(delay_module(320_000, 260_000, 450_000, DelayMode::Stereo));
            out.push(reverb_module(340_000, 550_000, 820_000, 880_000));
        },
        EffectRecipe::Drum => {
            out.push(
                compressor_module(
                    -14_000_000,
                    4_000_000,
                    4_000_000,
                    95_000_000,
                    1_200_000,
                    880_000,
                ),
            );
        },
        EffectRecipe::Utility => {
            out.push(chorus_module(160_000, 180_000, 250_000, 2_000_000));
        },
    }
    assert(out@ =~= recipe_effects(recipe));
    out
}

/// The modules that a restyled instrument keeps.
#[derive(Debug, Clone, Copy, PartialEq, Eq, Structural)]
pub enum Kept {
    Envelope,
    Amplifier,
    Output,
}

/// Whether a module is of a kind that is kept.
pub open spec fn is_kept(m: ModuleView, kind: Kept) -> bool {
    match kind {
        Kept::Envelope => m.parameters is Envelope,
        Kept::Amplifier => m.parameters is Amplifier,
        Kept::Output => m.parameters is StereoOutput,
    }
}

/// Where the module of a kind with the given number stands.
pub open spec fn kept_place(kind: Kept, n: int) -> (u32, u32) {
    match kind {
        Kept::Envelope => (530, (280 + 110 * n) as u32),
        Kept::Amplifier => (760, (150 * n) as u32),
        Kept::Output => (1030, 80),
    }
}

/// The modules of a kind among the first `k`, at their places.
pub open spec fn kept_modules(modules: Seq<ModuleView>, kind: Kept, k: int) -> Seq<ModuleView>
    decreases k,
{
    if k <= 0 {
        Seq::empty()
    } else {
        let before = kept_modules(modules, kind, k - 1);
        if is_kept(modules[k - 1], kind) {
            let place = kept_place(kind, before.len() as int);
            before.push(ModuleView { x: place.0, y: place.1, ..modules[k - 1] })
        } else {
            before
        }
    }
}

/// The last module of a list, if there is one.
pub open spec fn last_only(modules: Seq<ModuleView>) -> Seq<ModuleView> {
    if modules.len() == 0 {
        modules
    } else {
        seq![modules.last()]
    }
}

/// The modules that come before those that are kept.
pub open spec fn layer_modules(r: VoiceRecipe) -> Seq<ModuleView> {
    seq![
        ModuleView {
            id: ModuleId::Osc1,
            x: 30,
            y: 20,
            parameters: ParametersView::Oscillator(r.primary),
        },
        ModuleView {
            id: r.secondary.module(),
            x: 30,
            y: 160,
            parameters: ParametersView::Secondary(r.secondary),
        },
        ModuleView {
            id: ModuleId::Mix1,
            x: 250,
            y: 80,
            parameters: ParametersView::LayerMixer,
        },
        ModuleView {
            id: ModuleId::Flt1,
            x: 500,
            y: 80,
            parameters: ParametersView::ModernFilter(r.filter),
        },
    ]
}

/// Both layers through one filter and one amplifier.
pub open spec fn layered_connections(second: ModuleId) -> Seq<Connection> {
    seq![
        wire(ModuleId::Osc1, Port::Out, ModuleId::Mix1, Port::In1),
        wire(second, Port::Out, ModuleId::Mix1, Port::In2),
        wire(ModuleId::Mix1, Port::Out, ModuleId::Flt1, Port::In),
        wire(ModuleId::Flt1, Port::Out, ModuleId::Amp1, Port::In),
        wire(ModuleId::Env1, Port::Out, ModuleId::Amp1, Port::Cv),
        wire(ModuleId::Amp1, Port::Out, ModuleId::Out1, Port::In),
    ]
}

/// Each layer through an amplifier of its own.
pub open spec fn dual_path_connections() -> Seq<Connection> {
    seq![
        wire(ModuleId::Osc1, Port::Out, ModuleId::Flt1, Port::In),
        wire(ModuleId::Flt1, Port::Out, ModuleId::Amp1, Port::In),
        wire(ModuleId::Env1, Port::Out, ModuleId::Amp1, Port::Cv),
        wire(ModuleId::Nse1, Port::Out, ModuleId::Amp2, Port::In),
        wire(ModuleId::Env2, Port::Out, ModuleId::Amp2, Port::Cv),
        wire(ModuleId::Amp1, Port::Out, ModuleId::Mix1, Port::In1),
        wire(ModuleId::Amp2, Port::Out, ModuleId::Mix1, Port::In2),
        wire(ModuleId::Mix1, Port::Out, ModuleId::Out1, Port::In),
    ]
}

/// The instrument of a recipe: two layers, a mixer and a filter before the
/// envelopes, the amplifiers and the output that it had.
pub open spec fn restyled(i: InstrumentView, r: VoiceRecipe) -> InstrumentView {
    let n = i.modules.len() as int;
    let envelopes = kept_modules(i.modules, Kept::Envelope, n);
    let amplifiers = kept_modules(i.modules, Kept::Amplifier, n);
    let output = last_only(kept_modules(i.modules, Kept::Output, n));
    InstrumentView {
        name: i.name + " · Modern Analog"@,
        modules: layer_modules(r) + envelopes + amplifiers + output,
        connections: if amplifiers.len() >= 2 && envelopes.len() >= 2 && r.secondary is Noise {
            dual_path_connections()
        } else {
            layered_connections(r.secondary.module())
        },
        effects: recipe_effects(r.effects),
        treatment: Treatment::Modern,
        ..i
    }
}

fn joined(from: ModuleId, from_port: Port, to: ModuleId, to_port: Port) -> (r: Connection)
    ensures
        r == wire(from, from_port, to, to_port),
{
    Connection { from, from_port, to, to_port }
}

fn connect_layers(second: ModuleId) -> (r: Vec<Connection>)
    ensures
        r@ == layered_connections(second),
{
    let mut out: Vec<Connection> = Vec::new();
    out.push(joined(ModuleId::Osc1, Port::Out, ModuleId::Mix1, Port::In1));
    out.push(joined(second, Port::Out, ModuleId::Mix1, Port::In2));
    out.push(joined(ModuleId::Mix1, Port::Out, ModuleId::Flt1, Port::In));
    out.push(joined(ModuleId::Flt1, Port::Out, ModuleId::Amp1, Port::In));
    out.push(joined(ModuleId::Env1, Port::Out, ModuleId::Amp1, Port::Cv));
    out.push(joined(ModuleId::Amp1, Port::Out, ModuleId::Out1, Port::In));
    assert(out@ =~= layered_connections(second));
    out
}

fn connect_dual_paths() -> (r: Vec<Connection>)
    ensures
        r@ == dual_path_connections(),
{
    let mut out: Vec<Connection> = Vec::new();
    out.push(joined(ModuleId::Osc1, Port::Out, ModuleId::Flt1, Port::In));
    out.push(joined(ModuleId::Flt1, Port::Out, ModuleId::Amp1, Port::In));
    out.push(joined(ModuleId::Env1, Port::Out, ModuleId::Amp1, Port::Cv));
    out.push(joined(ModuleId::Nse1, Port::Out, ModuleId::Amp2, Port::In));
    out.push(joined(ModuleId::Env2, Port::Out, ModuleId::Amp2, Port::Cv));
    out.push(joined(ModuleId::Amp1, Port::Out, ModuleId::Mix1, Port::In1));
    out.push(joined(ModuleId::Amp2, Port::Out, ModuleId::Mix1, Port::In2));
    out.push(joined(ModuleId::Mix1, Port::Out, ModuleId::Out1, Port::In));
    assert(out@ =~= dual_path_connections());
    out
}

fn push_all(out: &mut Vec<Module>, more: Vec<Module>)
    ensures
        module_views(final(out)@) == module_views(old(out)@) + module_views(more@),
{
    let ghost added = more@;
    let ghost start = out@;
    let mut rest: Vec<Module> = more;
    let ghost mut done: int = 0;
    while rest.len() > 0
        invariant
            0 <= done <= added.len(),
            rest@ == added.skip(done),
            module_views(out@) == module_views(start) + module_views(added.take(done)),
        decreases rest@.len(),
    {
        let ghost before = out@;
        let m: Module = rest.remove(0);
        let ghost v = m.view();
        out.push(m);
        proof {
            assert(module_views(out@) =~= module_views(before).push(v));
            assert(module_views(added.take(done + 1)) =~= module_views(added.take(done)).push(v));
            assert(rest@ =~= added.skip(done + 1));
            done = done + 1;
        }
    }
    assert(added.take(done) =~= added);
}

/// The most modules that an instrument is restyled with: their places have to fit
/// the canvas.
pub const MAX_MODULES: usize = 20_000_000;

proof fn kept_count(modules: Seq<ModuleView>, kind: Kept, k: int)
    requires
        0 <= k <= modules.len(),
    ensures
        kept_modules(modules, kind, k).len() <= k,
    decreases k,
{
    if k > 0 {
        kept_count(modules, kind, k - 1);
    }
}

/// Restyles an instrument.
pub fn restyle_instrument(instrument: &mut Instrument, recipe: VoiceRecipe)
    requires
        old(instrument).modules@.len() <= MAX_MODULES,
    ensures
        final(instrument).view() == restyled(old(instrument).view(), recipe),
{
    let ghost before = instrument.view();
    let count: usize = instrument.modules.len();
    let mut rest: Vec<Module> = Vec::new();
    std::mem::swap(&mut instrument.modules, &mut rest);
    let mut envelopes: Vec<Module> = Vec::new();
    let mut amplifiers: Vec<Module> = Vec::new();
    let mut output: Vec<Module> = Vec::new();
    let mut k: usize = 0;
    assert(module_views(envelopes@) =~= Seq::<ModuleView>::empty());
    assert(module_views(amplifiers@) =~= Seq::<ModuleView>::empty());
    assert(module_views(output@) =~= last_only(Seq::<ModuleView>::empty()));
    while k < count
        invariant
            k <= count <= MAX_MODULES,
            count == before.modules.len(),
            rest@.len() == count - k,
            forall|x: int|
                0 <= x < rest@.len() ==> (#[trigger] rest@[x]).view() == before.modules[k + x],
            module_views(envelopes@) == kept_modules(before.modules, Kept::Envelope, k as int),
            module_views(amplifiers@) == kept_modules(before.modules, Kept::Amplifier, k as int),
            module_views(output@) == last_only(
                kept_modules(before.modules, Kept::Output, k as int),
            ),
        decreases count - k,
    {
        let ghost left = rest@;
        let mut m: Module = rest.remove(0);
        let ghost v = m.view();
        proof {
            assert(v == before.modules[k + 0]);
            assert forall|x: int| 0 <= x < rest@.len() implies (#[trigger] rest@[x]).view()
                == before.modules[k + 1 + x] by {
                assert(rest@[x] == left[x + 1]);
            }
            kept_count(before.modules, Kept::Envelope, k as int);
            kept_count(before.modules, Kept::Amplifier, k as int);
        }
        let ghost e = module_views(envelopes@);
        let ghost a = module_views(amplifiers@);
        let kind: Option<Kept> = match &m.parameters {
            Parameters::Envelope(_) => Some(Kept::Envelope),
            Parameters::Amplifier => Some(Kept::Amplifier),
            Parameters::StereoOutput => Some(Kept::Output),
            _ => None,
        };
        match kind {
            Some(Kept::Envelope) => {
                m.x = 530;
                m.y = 280 + 110 * envelopes.len() as u32;
                let ghost placed = m.view();
                envelopes.push(m);
                assert(module_views(envelopes@) =~= e.push(placed));
            },
            Some(Kept::Amplifier) => {
                m.x = 760;
                m.y = 150 * amplifiers.len() as u32;
                let ghost placed = m.view();
                amplifiers.push(m);
                assert(module_views(amplifiers@) =~= a.push(placed));
            },
            Some(Kept::Output) => {
                m.x = 1030;
                m.y = 80;
                let ghost placed = m.view();
                output = Vec::new();
                output.push(m);
                assert(module_views(output@) =~= seq![placed]);
            },
            None => {},
        }
        k += 1;
    }
    let dual: bool = amplifiers.len() >= 2 && envelopes.len() >= 2;
    let noise: bool = match recipe.secondary {
        SecondaryRecipe::Noise { .. } => true,
        _ => false,
    };
    assert(module_views(amplifiers@).len() == amplifiers@.len());
    assert(module_views(envelopes@).len() == envelopes@.len());
    let mut modules: Vec<Module> = Vec::new();
    modules.push(
        Module {
            id: ModuleId::Osc1,
            x: 30,
            y: 20,
            parameters: Parameters::Oscillator(recipe.primary),
        },
    );
    modules.push(
        Module {
            id: recipe.secondary.module_id(),
            x: 30,
            y: 160,
            parameters: Parameters::Secondary(recipe.secondary),
        },
    );
    modules.push(Module { id: ModuleId::Mix1, x: 250, y: 80, parameters: Parameters::LayerMixer });
    modules.push(
        Module {
            id: ModuleId::Flt1,
            x: 500,
            y: 80,
            parameters: Parameters::ModernFilter(recipe.filter),
        },
    );
    assert(module_views(modules@) =~= layer_modules(recipe));
    push_all(&mut modules, envelopes);
    push_all(&mut modules, amplifiers);
    push_all(&mut modules, output);
    let connections: Vec<Connection> = if dual && noise {
        connect_dual_paths()
    } else {
        connect_layers(recipe.secondary.module_id())
    };
    let mut name: Vec<char> = to_chars(instrument.name.as_str());
    push_text(&mut name, " · Modern Analog");
    instrument.modules = modules;
    instrument.connections = connections;
    instrument.effects = effect_modules(recipe.effects);
    instrument.treatment = Treatment::Modern;
    instrument.name = from_chars(name.as_slice());
    assert(instrument.view() =~= restyled(before, recipe));
}

/// The instruments of a song in the modern style.
pub open spec fn modern_instruments(
    plans: Seq<TrackPlan>,
    patches: Seq<Patch>,
    instruments: Seq<InstrumentView>,
) -> Seq<InstrumentView> {
    Seq::new(
        instruments.len(),
        |i: int|
            if i < plans.len() {
                restyled(instruments[i], recipe_of(plans[i], patches))
            } else if plans.len() == 0 && i == 0 {
                restyled(instruments[i], plain_recipe(Waveform::Pulse))
            } else {
                instruments[i]
            },
    )
}

/// Restyles the instruments of a song: each by the recipe of its track, or the
/// only one as a plain pulse if there is no track.
pub fn apply_modern_analog(plans: &[TrackPlan], patches: &[Patch], instruments: &mut Vec<Instrument>)
    requires
        forall|p: int|
            0 <= p < plans@.len() ==> segments_fit((#[trigger] plans@[p]).segments@, patches@),
        forall|i: int|
            0 <= i < old(instruments)@.len() ==> (#[trigger] old(instruments)@[i]).modules@.len()
                <= MAX_MODULES,
    ensures
        instrument_views(final(instruments)@) == modern_instruments(
            plans@,
            patches@,
            instrument_views(old(instruments)@),
        ),
{
    let ghost before = instruments@;
    let ghost wanted = modern_instruments(plans@, patches@, instrument_views(before));
    if plans.len() == 0 {
        if instruments.len() > 0 {
            restyle_instrument(&mut instruments[0], VoiceRecipe::untagged(Waveform::Pulse));
        }
        assert(instrument_views(instruments@) =~= wanted);
        return;
    }
    let mut i: usize = 0;
    while i < plans.len() && i < instruments.len()
        invariant
            i <= plans@.len(),
            i <= instruments@.len(),
            plans@.len() > 0,
            instruments@.len() == before.len(),
            wanted == modern_instruments(plans@, patches@, instrument_views(before)),
            forall|p: int|
                0 <= p < plans@.len() ==> segments_fit((#[trigger] plans@[p]).segments@, patches@),
            forall|i: int|
                0 <= i < before.len() ==> (#[trigger] before[i]).modules@.len() <= MAX_MODULES,
            forall|j: int| 0 <= j < i ==> (#[trigger] instruments@[j]).view() == wanted[j],
            forall|j: int| i <= j < before.len() ==> #[trigger] instruments@[j] == before[j],
        decreases instruments@.len() - i,
    {
        assert(instruments@[i as int] == before[i as int]);
        let recipe: VoiceRecipe = choose_recipe(&plans[i], patches);
        restyle_instrument(&mut instruments[i], recipe);
        i += 1;
    }
    assert(instrument_views(instruments@) =~= wanted);
}

/// The chain on the sum of a modern mix.
pub open spec fn modern_chain() -> Seq<MasterEffect> {
    seq![
        MasterEffect {
            unit: squeeze(-12_000_000, 2_400_000, 12_000_000, 180_000_000, 1_500_000, 1_000_000),
            number: 1,
            x: 1260,
            y: 40,
        },
        MasterEffect {
            unit: EffectUnit::Equalizer(
                Equalizer {
                    low_freq: 95_000_000,
                    low_gain: 1_400_000,
                    mid_freq: 1_800_000_000,
                    mid_gain: -800_000i64,
                    mid_q: 720_000,
                    high_freq: 8_500_000_000,
                    high_gain: 1_100_000,
                },
            ),
            number: 1,
            x: 200,
            y: 0,
        },
        MasterEffect {
            unit: EffectUnit::Limiter(
                Limiter { ceiling: -600_000i64, look_ahead: 3_000_000, release: 90_000_000 },
            ),
            number: 1,
            x: 400,
            y: 0,
        },
    ]
}

/// The volume of the sum of a modern mix.
pub const MODERN_MASTER_VOLUME: i64 = 1_150_000;

/// The volume of a modern mix, and the effects on it.
pub fn global_state() -> (r: MasterState)
    ensures
        r.volume == MODERN_MASTER_VOLUME,
        r.effects@ == modern_chain(),
{
    let mut effects: Vec<MasterEffect> = Vec::new();
    effects.push(
        MasterEffect {
            unit: compressor_module(
                -12_000_000,
                2_400_000,
                12_000_000,
                180_000_000,
                1_500_000,
                1_000_000,
            ),
            number: 1,
            x: 1260,
            y: 40,
        },
    );
    effects.push(
        MasterEffect {
            unit: EffectUnit::Equalizer(
                Equalizer {
                    low_freq: 95_000_000,
                    low_gain: 1_400_000,
                    mid_freq: 1_800_000_000,
                    mid_gain: -800_000,
                    mid_q: 720_000,
                    high_freq: 8_500_000_000,
                    high_gain: 1_100_000,
                },
            ),
            number: 1,
            x: 200,
            y: 0,
        },
    );
    effects.push(
        MasterEffect {
            unit: EffectUnit::Limiter(
                Limiter { ceiling: -600_000, look_ahead: 3_000_000, release: 90_000_000 },
            ),
            number: 1,
            x: 400,
            y: 0,
        },
    );
    assert(effects@ =~= modern_chain());
    MasterState { volume: MODERN_MASTER_VOLUME, effects }
}

/// What a lane of a module is bound to.
#[derive(Debug, Clone, Copy)]
pub struct LaneTarget {
    pub module: &'static str,
    pub parameter: &'static str,
}

/// What the target calls the module of a lane, or nothing if the lane moves the
/// pitch of its track.
pub open spec fn lane_module(kind: LaneKind, modern: bool) -> Option<Seq<char>> {
    match kind {
        LaneKind::TrackPitch => None,
        LaneKind::PulseWidth => Some(
            if modern {
                "oscillator"@
            } else {
                "sid_oscillator"@
            },
        ),
        LaneKind::SourceFrequency => Some("sid_oscillator"@),
        LaneKind::FilterCutoff => Some("filter"@),
        LaneKind::AmplifierLevel(_) => Some("amplifier"@),
        _ => Some("envelope"@),
    }
}

/// What the target calls the parameter of a lane.
pub open spec fn lane_parameter(kind: LaneKind, modern: bool) -> Seq<char> {
    match kind {
        LaneKind::TrackPitch => "pitch"@,
        LaneKind::PulseWidth => if modern {
            "pulse_width"@
        } else {
            "pw_reg"@
        },
        LaneKind::SourceFrequency => "freq_reg"@,
        LaneKind::FilterCutoff => "cutoff"@,
        LaneKind::AmplifierLevel(_) => "level"@,
        LaneKind::Attack => "attack"@,
        LaneKind::Decay => "decay"@,
        LaneKind::Sustain => "sustain"@,
        LaneKind::Release => "release"@,
    }
}

/// Finds what a lane is bound to; a lane that moves the pitch of its track is
/// bound to no module.
pub fn lane_target(kind: LaneKind, modern: bool) -> (r: Option<LaneTarget>)
    ensures
        match r {
            Some(t) => lane_module(kind, modern) == Some(t.module@) && t.parameter@
                == lane_parameter(kind, modern),
            None => lane_module(kind, modern) is None,
        },
{
    match kind {
        LaneKind::TrackPitch => None,
        LaneKind::PulseWidth => if modern {
            Some(LaneTarget { module: "oscillator", parameter: "pulse_width" })
        } else {
            Some(LaneTarget { module: "sid_oscillator", parameter: "pw_reg" })
        },
        LaneKind::SourceFrequency => Some(
            LaneTarget { module: "sid_oscillator", parameter: "freq_reg" },
        ),
        LaneKind::FilterCutoff => Some(LaneTarget { module: "filter", parameter: "cutoff" }),
        LaneKind::AmplifierLevel(_) => Some(LaneTarget { module: "amplifier", parameter: "level" }),
        LaneKind::Attack => Some(LaneTarget { module: "envelope", parameter: "attack" }),
        LaneKind::Decay => Some(LaneTarget { module: "envelope", parameter: "decay" }),
        LaneKind::Sustain => Some(LaneTarget { module: "envelope", parameter: "sustain" }),
        LaneKind::Release => Some(LaneTarget { module: "envelope", parameter: "release" }),
    }
}

/// The lanes of a pattern that a modern sound still follows: all but those of the
/// oscillator that rings or syncs.
pub open spec fn followed_lanes(lanes: Seq<usize>, kinds: Seq<Option<LaneKind>>) -> Seq<usize>
    decreases lanes.len(),
{
    if lanes.len() == 0 {
        Seq::empty()
    } else {
        let before = followed_lanes(lanes.drop_last(), kinds);
        let l = lanes.last();
        if l < kinds.len() && kinds[l as int] == Some(LaneKind::SourceFrequency) {
            before
        } else {
            before.push(l)
        }
    }
}

/// The patterns of a song in the modern style.
pub open spec fn remapped(patterns: Seq<PatternView>, kinds: Seq<Option<LaneKind>>) -> Seq<
    PatternView,
> {
    Seq::new(
        patterns.len(),
        |i: int|
            PatternView {
                automation: followed_lanes(patterns[i].automation, kinds),
                ..patterns[i]
            },
    )
}

/// Drops the lanes that a modern sound does not follow. `kinds` tells what each
/// lane of the song automates; a lane of the whole mix has no kind.
pub fn remap_automation(patterns: &mut Vec<Pattern>, kinds: &[Option<LaneKind>])
    ensures
        pattern_views(final(patterns)@) == remapped(pattern_views(old(patterns)@), kinds@),
{
    let ghost before = patterns@;
    let ghost wanted = remapped(pattern_views(before), kinds@);
    let mut i: usize = 0;
    while i < patterns.len()
        invariant
            i <= patterns@.len(),
            patterns@.len() == before.len(),
            wanted == remapped(pattern_views(before), kinds@),
            forall|j: int| 0 <= j < i ==> (#[trigger] patterns@[j]).view() == wanted[j],
            forall|j: int| i <= j < before.len() ==> #[trigger] patterns@[j] == before[j],
        decreases patterns@.len() - i,
    {
        let ghost lanes = before[i as int].automation@;
        assert(patterns@[i as int] == before[i as int]);
        let mut kept: Vec<usize> = Vec::new();
        let mut l: usize = 0;
        assert(lanes.take(0) =~= Seq::<usize>::empty());
        while l < patterns[i].automation.len()
            invariant
                i < patterns@.len(),
                patterns@[i as int].automation@ == lanes,
                l <= lanes.len(),
                kept@ == followed_lanes(lanes.take(l as int), kinds@),
            decreases lanes.len() - l,
        {
            assert(lanes.take(l + 1).drop_last() =~= lanes.take(l as int));
            let here: usize = patterns[i].automation[l];
            let mut dropped: bool = false;
            if here < kinds.len() {
                if let Some(LaneKind::SourceFrequency) = kinds[here] {
                    dropped = true;
                }
            }
            if !dropped {
                kept.push(here);
            }
            l += 1;
        }
        assert(lanes.take(lanes.len() as int) =~= lanes);
        patterns[i].automation = kept;
        assert(patterns@[i as int].view() =~= wanted[i as int]);
        i += 1;
    }
    assert(pattern_views(patterns@) =~= wanted);
}

/// Whether the modules of an instrument are called after what they are: envelopes,
/// amplifiers and the output have the names kept for them, and the first of each
/// is there.
pub open spec fn conventional(modules: Seq<ModuleView>) -> bool {
    &&& forall|k: int|
        0 <= k < modules.len() ==> {
            &&& is_kept(#[trigger] modules[k], Kept::Envelope) <==> modules[k].id == ModuleId::Env1
                || modules[k].id == ModuleId::Env2
            &&& is_kept(modules[k], Kept::Amplifier) <==> modules[k].id == ModuleId::Amp1
                || modules[k].id == ModuleId::Amp2
            &&& is_kept(modules[k], Kept::Output) <==> modules[k].id == ModuleId::Out1
        }
    &&& has_module(modules, ModuleId::Env1)
    &&& has_module(modules, ModuleId::Amp1)
    &&& has_module(modules, ModuleId::Out1)
}

proof fn kept_are_listed(modules: Seq<ModuleView>, kind: Kept, k: int)
    requires
        0 <= k <= modules.len(),
        forall|i: int, j: int|
            0 <= i < j < modules.len() ==> (#[trigger] modules[i]).id != (#[trigger] modules[j]).id,
    ensures
        forall|a: int|
            0 <= a < kept_modules(modules, kind, k).len() ==> exists|j: int|
                0 <= j < k && is_kept(#[trigger] modules[j], kind) && modules[j].id == (
                #[trigger] kept_modules(modules, kind, k)[a]).id,
        forall|j: int|
            0 <= j < k && is_kept(#[trigger] modules[j], kind) ==> has_module(
                kept_modules(modules, kind, k),
                modules[j].id,
            ),
        forall|a: int, b: int|
            0 <= a < b < kept_modules(modules, kind, k).len() ==> (#[trigger] kept_modules(
                modules,
                kind,
                k,
            )[a]).id != (#[trigger] kept_modules(modules, kind, k)[b]).id,
    decreases k,
{
    if k > 0 {
        kept_are_listed(modules, kind, k - 1);
        let before = kept_modules(modules, kind, k - 1);
        let now = kept_modules(modules, kind, k);
        assert forall|a: int| 0 <= a < now.len() implies exists|j: int|
            0 <= j < k && is_kept(#[trigger] modules[j], kind) && modules[j].id == (
            #[trigger] now[a]).id by {
            if a < before.len() {
                assert(now[a] == before[a]);
                let j = choose|j: int|
                    0 <= j < k - 1 && is_kept(#[trigger] modules[j], kind) && modules[j].id
                        == before[a].id;
                assert(is_kept(modules[j], kind));
            } else {
                assert(is_kept(modules[k - 1], kind));
            }
        }
        assert forall|j: int| 0 <= j < k && is_kept(#[trigger] modules[j], kind) implies has_module(
            now,
            modules[j].id,
        ) by {
            if j < k - 1 {
                assert(has_module(before, modules[j].id));
                let a = choose|a: int|
                    0 <= a < before.len() && (#[trigger] before[a]).id == modules[j].id;
                assert(now[a].id == modules[j].id);
            } else {
                assert(now[now.len() - 1].id == modules[j].id);
            }
        }
        assert forall|a: int, b: int| 0 <= a < b < now.len() implies (#[trigger] now[a]).id != (
        #[trigger] now[b]).id by {
            assert(now[a] == before[a]);
            if b < before.len() {
                assert(now[b] == before[b]);
            } else {
                let j = choose|j: int|
                    0 <= j < k - 1 && is_kept(#[trigger] modules[j], kind) && modules[j].id
                        == before[a].id;
                assert(modules[j].id != modules[k - 1].id);
            }
        }
    }
}

/// Restyling a wired instrument whose modules are called after what they are gives
/// a wired instrument, whatever the recipe.
pub proof fn restyled_instruments_are_wired(i: InstrumentView, r: VoiceRecipe)
    requires
        is_wired(i.modules, i.connections),
        conventional(i.modules),
    ensures
        is_wired(restyled(i, r).modules, restyled(i, r).connections),
{
    let n = i.modules.len() as int;
    let head = layer_modules(r);
    let e = kept_modules(i.modules, Kept::Envelope, n);
    let a = kept_modules(i.modules, Kept::Amplifier, n);
    let all_out = kept_modules(i.modules, Kept::Output, n);
    let o = last_only(all_out);
    let m = restyled(i, r).modules;
    let c = restyled(i, r).connections;
    kept_are_listed(i.modules, Kept::Envelope, n);
    kept_are_listed(i.modules, Kept::Amplifier, n);
    kept_are_listed(i.modules, Kept::Output, n);
    assert forall|k: int| 0 <= k < e.len() implies (#[trigger] e[k]).id == ModuleId::Env1 || e[k].id
        == ModuleId::Env2 by {
        let j = choose|j: int|
            0 <= j < n && is_kept(#[trigger] i.modules[j], Kept::Envelope) && i.modules[j].id
                == e[k].id;
    }
    assert forall|k: int| 0 <= k < a.len() implies (#[trigger] a[k]).id == ModuleId::Amp1 || a[k].id
        == ModuleId::Amp2 by {
        let j = choose|j: int|
            0 <= j < n && is_kept(#[trigger] i.modules[j], Kept::Amplifier) && i.modules[j].id
                == a[k].id;
    }
    assert forall|k: int| 0 <= k < all_out.len() implies (#[trigger] all_out[k]).id
        == ModuleId::Out1 by {
        let j = choose|j: int|
            0 <= j < n && is_kept(#[trigger] i.modules[j], Kept::Output) && i.modules[j].id
                == all_out[k].id;
    }
    let je = choose|j: int| 0 <= j < n && (#[trigger] i.modules[j]).id == ModuleId::Env1;
    let ja = choose|j: int| 0 <= j < n && (#[trigger] i.modules[j]).id == ModuleId::Amp1;
    let jo = choose|j: int| 0 <= j < n && (#[trigger] i.modules[j]).id == ModuleId::Out1;
    assert(is_kept(i.modules[je], Kept::Envelope));
    assert(is_kept(i.modules[ja], Kept::Amplifier));
    assert(is_kept(i.modules[jo], Kept::Output));
    assert(has_module(e, ModuleId::Env1));
    assert(has_module(a, ModuleId::Amp1));
    assert(has_module(all_out, ModuleId::Out1));
    assert(o.len() == 1 && o[0].id == ModuleId::Out1);
    assert(m =~= head + e + a + o);
    assert forall|x: int, y: int| 0 <= x < y < m.len() implies (#[trigger] m[x]).id != (
    #[trigger] m[y]).id by {
        let h = head.len() as int;
        let he = h + e.len();
        let ha = he + a.len();
        if x < h {
            assert(m[x] == head[x]);
        } else if x < he {
            assert(m[x] == e[x - h]);
        } else if x < ha {
            assert(m[x] == a[x - he]);
        }
        if y < h {
            assert(m[y] == head[y]);
        } else if y < he {
            assert(m[y] == e[y - h]);
        } else if y < ha {
            assert(m[y] == a[y - he]);
        } else {
            assert(m[y] == o[y - ha]);
        }
    }
    let xe = choose|k: int| 0 <= k < e.len() && (#[trigger] e[k]).id == ModuleId::Env1;
    let xa = choose|k: int| 0 <= k < a.len() && (#[trigger] a[k]).id == ModuleId::Amp1;
    assert(m[head.len() + xe].id == ModuleId::Env1);
    assert(m[head.len() + e.len() + xa].id == ModuleId::Amp1);
    assert(m[m.len() - 1].id == ModuleId::Out1);
    assert(m[0] == head[0] && m[1] == head[1] && m[2] == head[2] && m[3] == head[3]);
    assert(has_module(m, ModuleId::Osc1));
    assert(has_module(m, r.secondary.module()));
    assert(has_module(m, ModuleId::Mix1));
    assert(has_module(m, ModuleId::Flt1));
    assert(has_module(m, ModuleId::Env1));
    assert(has_module(m, ModuleId::Amp1));
    assert(has_module(m, ModuleId::Out1));
    if a.len() >= 2 && e.len() >= 2 && r.secondary is Noise {
        assert(e[0].id != e[1].id);
        assert(a[0].id != a[1].id);
        let h = head.len() as int;
        let he = h + e.len();
        assert(m[h] == e[0] && m[h + 1] == e[1]);
        assert(m[he] == a[0] && m[he + 1] == a[1]);
        assert(has_module(m, ModuleId::Env2));
        assert(has_module(m, ModuleId::Amp2));
        assert(c[7].to == ModuleId::Out1);
    } else {
        assert(c[5].to == ModuleId::Out1);
    }
}

} // verus!
