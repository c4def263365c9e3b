//! Effects of the target, and the chain on the sum of all tracks. Numbers are
//! held in millionths.

use vstd::prelude::*;

verus! {

/// One, in millionths.
pub const UNIT: i64 = 1_000_000;

/// A saturation.
#[derive(Debug, Clone, Copy, PartialEq, Eq, Structural)]
pub struct Distortion {
    pub bit_depth: i64,
    pub drive: i64,
    pub mix: i64,
    pub tone: i64,
}

/// A three-band equalizer; frequencies in hertz, gains in decibels.
#[derive(Debug, Clone, Copy, PartialEq, Eq, Structural)]
pub struct Equalizer {
    pub low_freq: i64,
    pub low_gain: i64,
    pub mid_freq: i64,
    pub mid_gain: i64,
    pub mid_q: i64,
    pub high_freq: i64,
    pub high_gain: i64,
}

/// A compressor; levels in decibels, times in milliseconds.
#[derive(Debug, Clone, Copy, PartialEq, Eq, Structural)]
pub struct Compressor {
    pub threshold: i64,
    pub ratio: i64,
    pub attack: i64,
    pub release: i64,
    pub makeup: i64,
    pub mix: i64,
}

/// A limiter; its ceiling in decibels, times in milliseconds.
#[derive(Debug, Clone, Copy, PartialEq, Eq, Structural)]
pub struct Limiter {
    pub ceiling: i64,
    pub look_ahead: i64,
    pub release: i64,
}

/// A chorus.
#[derive(Debug, Clone, Copy, PartialEq, Eq, Structural)]
pub struct Chorus {
    pub depth: i64,
    pub mix: i64,
    pub rate: i64,
    pub voices: i64,
}

/// How the echoes of a delay are spread.
#[derive(Debug, Clone, Copy, PartialEq, Eq, Structural)]
pub enum DelayMode {
    PingPong,
    Stereo,
}

/// A delay; its time in seconds.
#[derive(Debug, Clone, Copy, PartialEq, Eq, Structural)]
pub struct Delay {
    pub feedback: i64,
    pub mix: i64,
    pub time: i64,
    pub mode: DelayMode,
}

/// A reverb.
#[derive(Debug, Clone, Copy, PartialEq, Eq, Structural)]
pub struct Reverb {
    pub mix: i64,
    pub decay: i64,
    pub room_size: i64,
    pub width: i64,
}

/// An effect of the target.
#[derive(Debug, Clone, Copy, PartialEq, Eq, Structural)]
pub enum EffectUnit {
    Distortion(Distortion),
    Equalizer(Equalizer),
    Compressor(Compressor),
    Limiter(Limiter),
    Chorus(Chorus),
    /// A chorus of several lines, always set alike.
    Ensemble,
    Delay(Delay),
    Reverb(Reverb),
}

impl EffectUnit {
    /// What the target calls the effect.
    pub open spec fn label(self) -> Seq<char> {
        match self {
            EffectUnit::Distortion(_) => "distortion"@,
            EffectUnit::Equalizer(_) => "eq"@,
            EffectUnit::Compressor(_) => "compressor"@,
            EffectUnit::Limiter(_) => "limiter"@,
            EffectUnit::Chorus(_) => "chorus"@,
            EffectUnit::Ensemble => "ensemble_chorus"@,
            EffectUnit::Delay(_) => "delay"@,
            EffectUnit::Reverb(_) => "reverb"@,
        }
    }

    /// What the target calls the effect.
    pub fn kind(&self) -> (r: &'static str)
        ensures
            r@ == self.label(),
    {
        match self {
            EffectUnit::Distortion(_) => "distortion",
            EffectUnit::Equalizer(_) => "eq",
            EffectUnit::Compressor(_) => "compressor",
            EffectUnit::Limiter(_) => "limiter",
            EffectUnit::Chorus(_) => "chorus",
            EffectUnit::Ensemble => "ensemble_chorus",
            EffectUnit::Delay(_) => "delay",
            EffectUnit::Reverb(_) => "reverb",
        }
    }

    /// The stem of the module's name.
    pub open spec fn stem(self) -> Seq<char> {
        match self {
            EffectUnit::Distortion(_) => "dst"@,
            EffectUnit::Equalizer(_) => "equ"@,
            EffectUnit::Compressor(_) => "cmp"@,
            EffectUnit::Limiter(_) => "lmt"@,
            EffectUnit::Chorus(_) => "chr"@,
            EffectUnit::Ensemble => "enc"@,
            EffectUnit::Delay(_) => "dly"@,
            EffectUnit::Reverb(_) => "rev"@,
        }
    }

    /// The stem of the module's name.
    pub fn prefix(&self) -> (r: &'static str)
        ensures
            r@ == self.stem(),
    {
        match self {
            EffectUnit::Distortion(_) => "dst",
            EffectUnit::Equalizer(_) => "equ",
            EffectUnit::Compressor(_) => "cmp",
            EffectUnit::Limiter(_) => "lmt",
            EffectUnit::Chorus(_) => "chr",
            EffectUnit::Ensemble => "enc",
            EffectUnit::Delay(_) => "dly",
            EffectUnit::Reverb(_) => "rev",
        }
    }
}

/// An effect on the sum of all tracks: the number behind its name's stem, and its
/// place on the canvas.
#[derive(Debug, Clone, Copy, PartialEq, Eq, Structural)]
pub struct MasterEffect {
    pub unit: EffectUnit,
    pub number: u8,
    pub x: u16,
    pub y: u16,
}

/// The chain that colours a faithful mix: a light saturation, an equalizer, and a
/// limiter.
pub open spec fn faithful_chain() -> Seq<MasterEffect> {
    seq![
        MasterEffect {
            unit: EffectUnit::Distortion(
                Distortion {
                    bit_depth: 8_000_000,
                    drive: 250_000,
                    mix: 500_000,
                    tone: 1_000_000,
                },
            ),
            number: 1,
            x: 0,
            y: 0,
        },
        MasterEffect {
            unit: EffectUnit::Equalizer(
                Equalizer {
                    low_freq: 120_000_000,
                    low_gain: -3_000_000i64,
                    mid_freq: 1_200_000_000,
                    mid_gain: 5_000_000,
                    mid_q: 700_000,
                    high_freq: 3_000_000_000,
                    high_gain: 8_000_000,
                },
            ),
            number: 1,
            x: 200,
            y: 0,
        },
        MasterEffect {
            unit: EffectUnit::Limiter(
                Limiter { ceiling: -5_000_000i64, look_ahead: 3_000_000, release: 100_000_000 },
            ),
            number: 1,
            x: 400,
            y: 0,
        },
    ]
}

/// Builds the chain that colours a faithful mix.
pub fn master_chain() -> (r: Vec<MasterEffect>)
    ensures
        r@ == faithful_chain(),
{
    let mut out: Vec<MasterEffect> = Vec::new();
    out.push(
        MasterEffect {
            unit: EffectUnit::Distortion(
                Distortion {
                    bit_depth: 8_000_000,
                    drive: 250_000,
                    mix: 500_000,
                    tone: 1_000_000,
                },
            ),
            number: 1,
            x: 0,
            y: 0,
        },
    );
    out.push(
        MasterEffect {
            unit: EffectUnit::Equalizer(
                Equalizer {
                    low_freq: 120_000_000,
                    low_gain: -3_000_000i64,
                    mid_freq: 1_200_000_000,
                    mid_gain: 5_000_000,
                    mid_q: 700_000,
                    high_freq: 3_000_000_000,
                    high_gain: 8_000_000,
                },
            ),
            number: 1,
            x: 200,
            y: 0,
        },
    );
    out.push(
        MasterEffect {
            unit: EffectUnit::Limiter(
                Limiter { ceiling: -5_000_000i64, look_ahead: 3_000_000, release: 100_000_000 },
            ),
            number: 1,
            x: 400,
            y: 0,
        },
    );
    assert(out@ =~= faithful_chain());
    out
}

/// The volume of the sum of all tracks, and the effects on it.
#[derive(Debug)]
pub struct MasterState {
    /// In millionths.
    pub volume: i64,
    pub effects: Vec<MasterEffect>,
}

/// The volume of the sum of a faithful mix.
pub const MASTER_VOLUME: i64 = 800_000;

impl Default for MasterState {
    fn default() -> (r: MasterState)
        ensures
            r.volume == MASTER_VOLUME,
            r.effects@ == faithful_chain(),
    {
        MasterState { volume: MASTER_VOLUME, effects: master_chain() }
    }
}

} // verus!
