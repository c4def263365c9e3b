//! Enhancing a faithful export with effects. Numbers are held in millionths,
//! positions between two settings in thousandths.

use crate::analysis::patch::{DrumSubclass, Patch};
use super::effects::{
    Chorus, Compressor, Delay, DelayMode, Distortion, EffectUnit, Equalizer, MasterEffect, Reverb,
};
use super::emission::{segments_fit, track_arpeggio};
use super::instruments::select::instrument_views;
use super::instruments::{Instrument, InstrumentView, Treatment};
use super::naming::{plan_arpeggiated, plan_role, role_of};
use super::options::EnhancementAmount;
use super::timbre::InstrumentRole;
use super::tracks::TrackPlan;
use vstd::prelude::*;

verus! {

/// How an amount of enhancement acts, in thousandths.
#[derive(Debug, Clone, Copy, PartialEq, Eq, Structural)]
pub struct EnhancementCurve {
    /// The amount itself.
    pub strength: i64,
    /// How far the amount is beyond the middle.
    pub upper: i64,
    /// How much room and width it gives.
    pub ambience: i64,
}

/// How an amount of enhancement acts.
pub open spec fn curve_of(level: u8) -> EnhancementCurve {
    if level <= 5 {
        EnhancementCurve {
            strength: (100 * level) as i64,
            upper: 0,
            ambience: (100 * level) as i64,
        }
    } else {
        EnhancementCurve {
            strength: (100 * level) as i64,
            upper: (200 * (level - 5)) as i64,
            ambience: (500 + 44 * (level - 5)) as i64,
        }
    }
}

/// Whether the numbers of a curve are parts of one.
pub open spec fn curve_fits(c: EnhancementCurve) -> bool {
    0 <= c.strength <= 1000 && 0 <= c.upper <= 1000 && 0 <= c.ambience <= 1000
}

impl EnhancementCurve {
    /// How an amount of enhancement acts.
    pub fn from_amount(amount: EnhancementAmount) -> (r: EnhancementCurve)
        ensures
            r == curve_of(amount.level()),
            curve_fits(r),
    {
        let level: i64 = amount.get() as i64;
        if level <= 5 {
            EnhancementCurve { strength: 100 * level, upper: 0, ambience: 100 * level }
        } else {
            EnhancementCurve {
                strength: 100 * level,
                upper: 200 * (level - 5),
                ambience: 500 + 44 * (level - 5),
            }
        }
    }
}

/// A part of a number, in thousandths.
pub open spec fn part(x: int, p: int) -> int {
    x * p / 1000
}

/// The number at a position between two others.
pub open spec fn between(from: int, to: int, p: int) -> int {
    from + part(to - from, p)
}

/// A number that grows with the strength, and beyond the middle moves from one
/// setting to another.
pub open spec fn staged(current: int, middle: int, top: int, upper: int) -> int {
    if upper > 0 {
        between(middle, top, upper)
    } else {
        current
    }
}

/// Numbers that can be blended without overflow.
pub open spec fn moderate(x: int) -> bool {
    -10_000_000_000 <= x <= 10_000_000_000
}

proof fn part_bounds(x: int, p: int)
    requires
        0 <= p <= 1000,
    ensures
        x >= 0 ==> 0 <= part(x, p) <= x,
        x <= 0 ==> x <= part(x, p) <= 0,
{
    assert(x >= 0 ==> 0 <= x * p <= 1000 * x) by (nonlinear_arith)
        requires
            0 <= p <= 1000,
    ;
    assert(x <= 0 ==> 1000 * x <= x * p <= 0) by (nonlinear_arith)
        requires
            0 <= p <= 1000,
    ;
}

fn take_part(x: i64, p: i64) -> (r: i64)
    requires
        0 <= p <= 1000,
        -20_000_000_000 <= x <= 20_000_000_000,
    ensures
        r == part(x as int, p as int),
        x >= 0 ==> 0 <= r <= x,
        x <= 0 ==> x <= r <= 0,
{
    proof {
        part_bounds(x as int, p as int);
        assert(-20_000_000_000_000 <= x * p <= 20_000_000_000_000) by (nonlinear_arith)
            requires
                0 <= p <= 1000,
                -20_000_000_000 <= x <= 20_000_000_000,
        ;
    }
    let product: i64 = x * p;
    if product >= 0 {
        product / 1000
    } else {
        -((-product + 999) / 1000)
    }
}

fn blend(from: i64, to: i64, p: i64) -> (r: i64)
    requires
        0 <= p <= 1000,
        moderate(from as int),
        moderate(to as int),
    ensures
        r == between(from as int, to as int, p as int),
        from <= to ==> from <= r <= to,
        to <= from ==> to <= r <= from,
{
    from + take_part(to - from, p)
}

fn stage(current: i64, middle: i64, top: i64, upper: i64) -> (r: i64)
    requires
        0 <= upper <= 1000,
        moderate(middle as int),
        moderate(top as int),
    ensures
        r == staged(current as int, middle as int, top as int, upper as int),
{
    if upper > 0 {
        blend(middle, top, upper)
    } else {
        current
    }
}

/// Whether a drum has a low body.
pub open spec fn low_drum(role: InstrumentRole) -> bool {
    role == InstrumentRole::Drum(DrumSubclass::Kick) || role == InstrumentRole::Drum(
        DrumSubclass::Tom,
    )
}

fn is_low_drum(role: InstrumentRole) -> (r: bool)
    ensures
        r == low_drum(role),
{
    match role {
        InstrumentRole::Drum(DrumSubclass::Kick) => true,
        InstrumentRole::Drum(DrumSubclass::Tom) => true,
        _ => false,
    }
}

/// How a role is saturated: drive, mix and tone at full strength, and what the
/// upper half adds to drive and mix.
#[derive(Debug, Clone, Copy, PartialEq, Eq, Structural)]
pub struct Warmth {
    pub drive: i64,
    pub mix: i64,
    pub tone: i64,
    pub upper_drive: i64,
    pub upper_mix: i64,
}

/// How a role is saturated.
pub open spec fn warmth_of(role: InstrumentRole) -> Warmth {
    let (drive, mix, tone, upper_drive, upper_mix) = match role {
        InstrumentRole::Bass => (620_000i64, 280_000i64, 480_000i64, 180_000i64, 100_000i64),
        InstrumentRole::Lead => (460_000, 160_000, 640_000, 120_000, 70_000),
        InstrumentRole::Pad => (380_000, 120_000, 560_000, 80_000, 50_000),
        InstrumentRole::Stab => (520_000, 200_000, 600_000, 120_000, 70_000),
        InstrumentRole::Bell => (300_000, 80_000, 720_000, 80_000, 50_000),
        InstrumentRole::Drum(_) => if low_drum(role) {
            (680_000, 280_000, 440_000, 180_000, 100_000)
        } else {
            (560_000, 220_000, 660_000, 120_000, 70_000)
        },
        InstrumentRole::Untagged => (420_000, 140_000, 580_000, 100_000, 60_000),
    };
    Warmth { drive, mix, tone, upper_drive, upper_mix }
}

fn role_warmth(role: InstrumentRole) -> (r: Warmth)
    ensures
        r == warmth_of(role),
        0 <= r.drive <= 1_000_000 && 0 <= r.mix <= 1_000_000,
        0 <= r.upper_drive <= 1_000_000 && 0 <= r.upper_mix <= 1_000_000,
{
    let (drive, mix, tone, upper_drive, upper_mix): (i64, i64, i64, i64, i64) = match role {
        InstrumentRole::Bass => (620_000, 280_000, 480_000, 180_000, 100_000),
        InstrumentRole::Lead => (460_000, 160_000, 640_000, 120_000, 70_000),
        InstrumentRole::Pad => (380_000, 120_000, 560_000, 80_000, 50_000),
        InstrumentRole::Stab => (520_000, 200_000, 600_000, 120_000, 70_000),
        InstrumentRole::Bell => (300_000, 80_000, 720_000, 80_000, 50_000),
        InstrumentRole::Drum(_) => if is_low_drum(role) {
            (680_000, 280_000, 440_000, 180_000, 100_000)
        } else {
            (560_000, 220_000, 660_000, 120_000, 70_000)
        },
        InstrumentRole::Untagged => (420_000, 140_000, 580_000, 100_000, 60_000),
    };
    Warmth { drive, mix, tone, upper_drive, upper_mix }
}

/// The saturation of a role.
pub open spec fn saturation(role: InstrumentRole, c: EnhancementCurve) -> Distortion {
    let w = warmth_of(role);
    Distortion {
        bit_depth: 16_000_000,
        drive: (part(w.drive as int, c.strength as int) + part(
            w.upper_drive as int,
            c.upper as int,
        )) as i64,
        mix: (part(w.mix as int, c.strength as int) + part(w.upper_mix as int, c.upper as int)) as i64,
        tone: w.tone,
    }
}

/// Sets the saturation of a role.
pub fn distortion_module(role: InstrumentRole, curve: EnhancementCurve) -> (r: Distortion)
    requires
        curve_fits(curve),
    ensures
        r == saturation(role, curve),
{
    let w: Warmth = role_warmth(role);
    Distortion {
        bit_depth: 16_000_000,
        drive: take_part(w.drive, curve.strength) + take_part(w.upper_drive, curve.upper),
        mix: take_part(w.mix, curve.strength) + take_part(w.upper_mix, curve.upper),
        tone: w.tone,
    }
}

/// How a role is compressed at full strength.
#[derive(Debug, Clone, Copy, PartialEq, Eq, Structural)]
pub struct Grip {
    pub threshold: i64,
    pub ratio: i64,
    pub attack: i64,
    pub release: i64,
    pub mix: i64,
    pub upper_makeup: i64,
}

/// How a role is compressed at full strength.
pub open spec fn grip_of(role: InstrumentRole) -> Grip {
    let (threshold, ratio, attack, release, mix, upper_makeup) = match role {
        InstrumentRole::Bass => (
            -18_000_000i64,
            3_400_000i64,
            18_000_000i64,
            170_000_000i64,
            680_000i64,
            1_800_000i64,
        ),
        InstrumentRole::Lead => (
            -14_000_000i64,
            2_400_000,
            16_000_000,
            150_000_000,
            460_000,
            1_200_000,
        ),
        InstrumentRole::Pad => (-12_000_000i64, 2_000_000, 30_000_000, 240_000_000, 360_000, 800_000),
        InstrumentRole::Stab => (
            -16_000_000i64,
            3_000_000,
            8_000_000,
            120_000_000,
            580_000,
            1_400_000,
        ),
        InstrumentRole::Bell => (-12_000_000i64, 2_000_000, 24_000_000, 220_000_000, 300_000, 700_000),
        InstrumentRole::Drum(_) => if low_drum(role) {
            (-18_000_000i64, 4_000_000, 18_000_000, 130_000_000, 720_000, 2_000_000)
        } else {
            (-16_000_000i64, 3_600_000, 8_000_000, 110_000_000, 660_000, 1_500_000)
        },
        InstrumentRole::Untagged => (
            -14_000_000i64,
            2_200_000,
            20_000_000,
            170_000_000,
            380_000,
            1_000_000,
        ),
    };
    Grip { threshold, ratio, attack, release, mix, upper_makeup }
}

fn role_grip(role: InstrumentRole) -> (r: Grip)
    ensures
        r == grip_of(role),
        -18_000_000 <= r.threshold <= -12_000_000,
        2_000_000 <= r.ratio <= 4_000_000,
        0 <= r.mix <= 1_000_000,
        0 <= r.upper_makeup <= 2_000_000,
{
    let (threshold, ratio, attack, release, mix, upper_makeup): (i64, i64, i64, i64, i64, i64) =
        match role {
        InstrumentRole::Bass => (
            -18_000_000,
            3_400_000,
            18_000_000,
            170_000_000,
            680_000,
            1_800_000,
        ),
        InstrumentRole::Lead => (
            -14_000_000,
            2_400_000,
            16_000_000,
            150_000_000,
            460_000,
            1_200_000,
        ),
        InstrumentRole::Pad => (-12_000_000, 2_000_000, 30_000_000, 240_000_000, 360_000, 800_000),
        InstrumentRole::Stab => (
            -16_000_000,
            3_000_000,
            8_000_000,
            120_000_000,
            580_000,
            1_400_000,
        ),
        InstrumentRole::Bell => (-12_000_000, 2_000_000, 24_000_000, 220_000_000, 300_000, 700_000),
        InstrumentRole::Drum(_) => if is_low_drum(role) {
            (-18_000_000, 4_000_000, 18_000_000, 130_000_000, 720_000, 2_000_000)
        } else {
            (-16_000_000, 3_600_000, 8_000_000, 110_000_000, 660_000, 1_500_000)
        },
        InstrumentRole::Untagged => (
            -14_000_000,
            2_200_000,
            20_000_000,
            170_000_000,
            380_000,
            1_000_000,
        ),
    };
    Grip { threshold, ratio, attack, release, mix, upper_makeup }
}

/// The compression of a role. Up to the middle it grows with the strength; beyond
/// it threshold, ratio and mix move part of the way to their full settings.
pub open spec fn compression(role: InstrumentRole, c: EnhancementCurve) -> Compressor {
    let g = grip_of(role);
    let threshold_at_five = between(-6_000_000, g.threshold as int, 500);
    let ratio_at_five = between(1_000_000, g.ratio as int, 500);
    Compressor {
        threshold: staged(
            between(-6_000_000, g.threshold as int, c.strength as int),
            threshold_at_five,
            between(threshold_at_five, g.threshold as int, 550),
            c.upper as int,
        ) as i64,
        ratio: staged(
            between(1_000_000, g.ratio as int, c.strength as int),
            ratio_at_five,
            between(ratio_at_five, g.ratio as int, 650),
            c.upper as int,
        ) as i64,
        attack: g.attack,
        release: g.release,
        makeup: staged(
            part(800_000, c.strength as int),
            400_000,
            g.upper_makeup as int,
            c.upper as int,
        ) as i64,
        mix: staged(
            part(g.mix as int, c.strength as int),
            part(g.mix as int, 500),
            part(g.mix as int, 820),
            c.upper as int,
        ) as i64,
    }
}

/// Sets the compression of a role.
pub fn compressor_module(role: InstrumentRole, curve: EnhancementCurve) -> (r: Compressor)
    requires
        curve_fits(curve),
    ensures
        r == compression(role, curve),
{
    let g: Grip = role_grip(role);
    let threshold_at_five: i64 = blend(-6_000_000, g.threshold, 500);
    let ratio_at_five: i64 = blend(1_000_000, g.ratio, 500);
    let threshold: i64 = stage(
        blend(-6_000_000, g.threshold, curve.strength),
        threshold_at_five,
        blend(threshold_at_five, g.threshold, 550),
        curve.upper,
    );
    let ratio: i64 = stage(
        blend(1_000_000, g.ratio, curve.strength),
        ratio_at_five,
        blend(ratio_at_five, g.ratio, 650),
        curve.upper,
    );
    let makeup: i64 = stage(take_part(800_000, curve.strength), 400_000, g.upper_makeup, curve.upper);
    let mix: i64 = stage(
        take_part(g.mix, curve.strength),
        take_part(g.mix, 500),
        take_part(g.mix, 820),
        curve.upper,
    );
    Compressor { threshold, ratio, attack: g.attack, release: g.release, makeup, mix }
}

/// A chorus whose depth lies between two settings.
pub open spec fn widening(
    from: int,
    to: int,
    mix: int,
    rate: i64,
    voices: i64,
    c: EnhancementCurve,
) -> EffectUnit {
    EffectUnit::Chorus(
        Chorus {
            depth: between(from, to, c.ambience as int) as i64,
            mix: part(mix, c.ambience as int) as i64,
            rate,
            voices,
        },
    )
}

fn widen(from: i64, to: i64, mix: i64, rate: i64, voices: i64, curve: EnhancementCurve) -> (r:
    EffectUnit)
    requires
        curve_fits(curve),
        moderate(from as int),
        moderate(to as int),
        moderate(mix as int),
    ensures
        r == widening(from as int, to as int, mix as int, rate, voices, curve),
{
    EffectUnit::Chorus(
        Chorus {
            depth: blend(from, to, curve.ambience),
            mix: take_part(mix, curve.ambience),
            rate,
            voices,
        },
    )
}

/// A delay of the ambience.
pub open spec fn echo(
    mix: int,
    feedback: i64,
    time: i64,
    mode: DelayMode,
    c: EnhancementCurve,
) -> EffectUnit {
    EffectUnit::Delay(Delay { feedback, mix: part(mix, c.ambience as int) as i64, time, mode })
}

fn delay_module(mix: i64, feedback: i64, time: i64, mode: DelayMode, curve: EnhancementCurve) -> (r:
    EffectUnit)
    requires
        curve_fits(curve),
        moderate(mix as int),
    ensures
        r == echo(mix as int, feedback, time, mode, curve),
{
    EffectUnit::Delay(Delay { feedback, mix: take_part(mix, curve.ambience), time, mode })
}

/// A reverb of the ambience.
pub open spec fn space(
    mix: int,
    decay: i64,
    room_size: i64,
    width: i64,
    c: EnhancementCurve,
) -> EffectUnit {
    EffectUnit::Reverb(Reverb { mix: part(mix, c.ambience as int) as i64, decay, room_size, width })
}

fn reverb_module(mix: i64, decay: i64, room_size: i64, width: i64, curve: EnhancementCurve) -> (r:
    EffectUnit)
    requires
        curve_fits(curve),
        moderate(mix as int),
    ensures
        r == space(mix as int, decay, room_size, width, curve),
{
    EffectUnit::Reverb(Reverb { mix: take_part(mix, curve.ambience), decay, room_size, width })
}

/// How much room a drum gets.
pub open spec fn drum_room(subclass: DrumSubclass) -> i64 {
    match subclass {
        DrumSubclass::Kick => 40_000,
        DrumSubclass::Tom => 100_000,
        DrumSubclass::Snare => 140_000,
        DrumSubclass::HihatClosed => 70_000,
        DrumSubclass::HihatOpen => 110_000,
        DrumSubclass::PercMetallic => 120_000,
    }
}

/// The effects that an enhanced instrument gets, in their order.
pub open spec fn enhancement(
    role: InstrumentRole,
    arpeggiated: bool,
    level: u8,
) -> Seq<EffectUnit> {
    let c = curve_of(level);
    let voices: i64 = if level >= 7 {
        3_000_000
    } else {
        2_000_000
    };
    let base = seq![
        EffectUnit::Distortion(saturation(role, c)),
        EffectUnit::Compressor(compression(role, c)),
    ];
    match role {
        InstrumentRole::Bass => base,
        InstrumentRole::Lead => if arpeggiated {
            base.push(echo(160_000, 300_000, 180_000, DelayMode::PingPong, c)).push(
                space(100_000, 380_000, 460_000, 820_000, c),
            )
        } else {
            base.push(widening(120_000, 340_000, 180_000, 320_000, voices, c)).push(
                echo(120_000, 220_000, 120_000, DelayMode::Stereo, c),
            ).push(space(130_000, 420_000, 520_000, 860_000, c))
        },
        InstrumentRole::Pad => base.push(
            widening(180_000, 420_000, 240_000, 240_000, voices, c),
        ).push(space(240_000, 620_000, 740_000, 940_000, c)),
        InstrumentRole::Stab => base.push(space(120_000, 300_000, 420_000, 760_000, c)),
        InstrumentRole::Bell => base.push(
            echo(180_000, 260_000, 280_000, DelayMode::Stereo, c),
        ).push(space(220_000, 660_000, 720_000, 920_000, c)),
        InstrumentRole::Drum(subclass) => base.push(
            space(drum_room(subclass) as int, 240_000, 300_000, 680_000, c),
        ),
        InstrumentRole::Untagged => base.push(
            widening(100_000, 240_000, 100_000, 280_000, 2_000_000, c),
        ).push(space(90_000, 340_000, 440_000, 760_000, c)),
    }
}

/// Chooses the effects that an enhanced instrument gets.
pub fn enhancement_effects(
    role: InstrumentRole,
    arpeggiated: bool,
    amount: EnhancementAmount,
) -> (r: Vec<EffectUnit>)
    ensures
        r@ == enhancement(role, arpeggiated, amount.level()),
{
    let curve: EnhancementCurve = EnhancementCurve::from_amount(amount);
    let voices: i64 = if amount.get() >= 7 {
        3_000_000
    } else {
        2_000_000
    };
    let mut effects: Vec<EffectUnit> = Vec::new();
    effects.push(EffectUnit::Distortion(distortion_module(role, curve)));
    effects.push(EffectUnit::Compressor(compressor_module(role, curve)));
    assert(effects@ =~= seq![
        EffectUnit::Distortion(saturation(role, curve)),
        EffectUnit::Compressor(compression(role, curve)),
    ]);
    match role {
        InstrumentRole::Bass => {},
        InstrumentRole::Lead => {
            if arpeggiated {
                effects.push(delay_module(160_000, 300_000, 180_000, DelayMode::PingPong, curve));
                effects.push(reverb_module(100_000, 380_000, 460_000, 820_000, curve));
            } else {
                effects.push(widen(120_000, 340_000, 180_000, 320_000, voices, curve));
                effects.push(delay_module(120_000, 220_000, 120_000, DelayMode::Stereo, curve));
                effects.push(reverb_module(130_000, 420_000, 520_000, 860_000, curve));
            }
        },
        InstrumentRole::Pad => {
            effects.push(widen(180_000, 420_000, 240_000, 240_000, voices, curve));
            effects.push(reverb_module(240_000, 620_000, 740_000, 940_000, curve));
        },
        InstrumentRole::Stab => {
            effects.push(reverb_module(120_000, 300_000, 420_000, 760_000, curve));
        },
        InstrumentRole::Bell => {
            effects.push(delay_module(180_000, 260_000, 280_000, DelayMode::Stereo, curve));
            effects.push(reverb_module(220_000, 660_000, 720_000, 920_000, curve));
        },
        InstrumentRole::Drum(subclass) => {
            let room: i64 = match subclass {
                DrumSubclass::Kick => 40_000,
                DrumSubclass::Tom => 100_000,
                DrumSubclass::Snare => 140_000,
                DrumSubclass::HihatClosed => 70_000,
                DrumSubclass::HihatOpen => 110_000,
                DrumSubclass::PercMetallic => 120_000,
            };
            effects.push(reverb_module(room, 240_000, 300_000, 680_000, curve));
        },
        InstrumentRole::Untagged => {
            effects.push(widen(100_000, 240_000, 100_000, 280_000, 2_000_000, curve));
            effects.push(reverb_module(90_000, 340_000, 440_000, 760_000, curve));
        },
    }
    effects
}

/// An instrument with effects.
pub open spec fn enhanced(
    i: InstrumentView,
    role: InstrumentRole,
    arpeggiated: bool,
    level: u8,
) -> InstrumentView {
    InstrumentView {
        effects: i.effects + enhancement(role, arpeggiated, level),
        treatment: Treatment::Enhanced(level),
        ..i
    }
}

/// Gives an instrument the effects of its role.
pub fn enhance_instrument(
    instrument: &mut Instrument,
    role: InstrumentRole,
    arpeggiated: bool,
    amount: EnhancementAmount,
)
    ensures
        final(instrument).view() == enhanced(
            old(instrument).view(),
            role,
            arpeggiated,
            amount.level(),
        ),
{
    let ghost before = instrument.view();
    let effects: Vec<EffectUnit> = enhancement_effects(role, arpeggiated, amount);
    let mut k: usize = 0;
    while k < effects.len()
        invariant
            k <= effects@.len(),
            effects@ == enhancement(role, arpeggiated, amount.level()),
            instrument.view() == (InstrumentView {
                effects: before.effects + effects@.take(k as int),
                ..before
            }),
        decreases effects@.len() - k,
    {
        let ghost prior = instrument.view();
        instrument.effects.push(effects[k]);
        assert(prior.effects.push(effects@[k as int]) =~= before.effects + effects@.take(k + 1));
        assert(instrument.view() =~= (InstrumentView {
            effects: before.effects + effects@.take(k + 1),
            ..before
        }));
        k += 1;
    }
    assert(effects@.take(effects@.len() as int) =~= effects@);
    instrument.treatment = Treatment::Enhanced(amount.get());
    assert(instrument.view() =~= enhanced(before, role, arpeggiated, amount.level()));
}

/// The instruments of an enhanced song.
pub open spec fn enhanced_instruments(
    plans: Seq<TrackPlan>,
    patches: Seq<Patch>,
    instruments: Seq<InstrumentView>,
    level: u8,
) -> Seq<InstrumentView> {
    Seq::new(
        instruments.len(),
        |i: int|
            if i < plans.len() {
                enhanced(
                    instruments[i],
                    role_of(plans[i].segments@, patches),
                    track_arpeggio(plans[i].segments@, patches) is Some,
                    level,
                )
            } else if plans.len() == 0 && i == 0 {
                enhanced(instruments[i], InstrumentRole::Untagged, false, level)
            } else {
                instruments[i]
            },
    )
}

/// Gives the instruments of a song their effects: each those of its track's role,
/// or the only one those of no role if there is no track.
pub fn enhance_instruments(
    plans: &[TrackPlan],
    patches: &[Patch],
    instruments: &mut Vec<Instrument>,
    amount: EnhancementAmount,
)
    requires
        forall|p: int|
            0 <= p < plans@.len() ==> segments_fit((#[trigger] plans@[p]).segments@, patches@),
    ensures
        instrument_views(final(instruments)@) == enhanced_instruments(
            plans@,
            patches@,
            instrument_views(old(instruments)@),
            amount.level(),
        ),
{
    let ghost before = instruments@;
    let ghost wanted = enhanced_instruments(
        plans@,
        patches@,
        instrument_views(before),
        amount.level(),
    );
    if plans.len() == 0 {
        if instruments.len() > 0 {
            enhance_instrument(&mut instruments[0], InstrumentRole::Untagged, false, amount);
        }
        assert(instrument_views(instruments@) =~= wanted);
        return;
    }
    let mut i: usize = 0;
    while i < plans.len() && i < instruments.len()
        invariant
            i <= plans@.len(),
            i <= instruments@.len(),
            plans@.len() > 0,
            instruments@.len() == before.len(),
            wanted == enhanced_instruments(
                plans@,
                patches@,
                instrument_views(before),
                amount.level(),
            ),
            forall|p: int|
                0 <= p < plans@.len() ==> segments_fit((#[trigger] plans@[p]).segments@, patches@),
            forall|j: int| 0 <= j < i ==> (#[trigger] instruments@[j]).view() == wanted[j],
            forall|j: int| i <= j < before.len() ==> #[trigger] instruments@[j] == before[j],
        decreases instruments@.len() - i,
    {
        assert(instruments@[i as int] == before[i as int]);
        let role: InstrumentRole = plan_role(&plans[i], patches);
        let arpeggiated: bool = plan_arpeggiated(&plans[i], patches);
        enhance_instrument(&mut instruments[i], role, arpeggiated, amount);
        i += 1;
    }
    assert(instrument_views(instruments@) =~= wanted);
}

/// How the sum of all tracks is equalized.
pub open spec fn master_equalizer(c: EnhancementCurve) -> Equalizer {
    Equalizer {
        low_freq: 105_000_000,
        low_gain: staged(
            part(1_400_000, c.strength as int),
            700_000,
            2_600_000,
            c.upper as int,
        ) as i64,
        mid_freq: staged(420_000_000, 420_000_000, 260_000_000, c.upper as int) as i64,
        mid_gain: staged(
            part(-500_000, c.strength as int),
            -250_000,
            800_000,
            c.upper as int,
        ) as i64,
        mid_q: 720_000,
        high_freq: 7_800_000_000,
        high_gain: staged(
            part(700_000, c.strength as int),
            350_000,
            650_000,
            c.upper as int,
        ) as i64,
    }
}

/// How the sum of all tracks is compressed.
pub open spec fn master_compressor(c: EnhancementCurve) -> Compressor {
    Compressor {
        threshold: staged(
            between(-8_000_000, -15_000_000, c.strength as int),
            -11_500_000,
            -13_000_000,
            c.upper as int,
        ) as i64,
        ratio: staged(
            between(1_200_000, 2_400_000, c.strength as int),
            1_800_000,
            2_100_000,
            c.upper as int,
        ) as i64,
        attack: 24_000_000,
        release: 190_000_000,
        makeup: part(900_000, c.upper as int) as i64,
        mix: staged(part(520_000, c.strength as int), 260_000, 380_000, c.upper as int) as i64,
    }
}

/// The saturation of the sum, driven harder beyond the middle.
pub open spec fn driven(d: Distortion, c: EnhancementCurve) -> Distortion {
    Distortion {
        bit_depth: d.bit_depth,
        drive: between(d.drive as int, 420_000, c.upper as int) as i64,
        mix: between(d.mix as int, 680_000, c.upper as int) as i64,
        tone: between(d.tone as int, 820_000, c.upper as int) as i64,
    }
}

/// The place of the first saturation in a chain.
pub open spec fn first_distortion(chain: Seq<MasterEffect>, i: int) -> int
    decreases chain.len() - i,
{
    if i < 0 || i >= chain.len() || chain[i].unit is Distortion {
        i
    } else {
        first_distortion(chain, i + 1)
    }
}

/// The place of the first limiter in a chain, or its end.
pub open spec fn first_limiter(chain: Seq<MasterEffect>, i: int) -> int
    decreases chain.len() - i,
{
    if i < 0 || i >= chain.len() || chain[i].unit is Limiter {
        i
    } else {
        first_limiter(chain, i + 1)
    }
}

/// The chain with its first saturation driven harder beyond the middle.
pub open spec fn warmed(chain: Seq<MasterEffect>, c: EnhancementCurve) -> Seq<MasterEffect> {
    let d = first_distortion(chain, 0);
    if c.upper > 0 && d < chain.len() {
        chain.update(
            d,
            MasterEffect {
                unit: EffectUnit::Distortion(driven(chain[d].unit->Distortion_0, c)),
                ..chain[d]
            },
        )
    } else {
        chain
    }
}

/// The chain with an equalizer and a compressor before its limiter.
pub open spec fn enhanced_chain(chain: Seq<MasterEffect>, c: EnhancementCurve) -> Seq<MasterEffect> {
    let warm = warmed(chain, c);
    let at = first_limiter(warm, 0);
    warm.insert(
        at,
        MasterEffect {
            unit: EffectUnit::Equalizer(master_equalizer(c)),
            number: 2,
            x: 400,
            y: 0,
        },
    ).insert(
        at + 1,
        MasterEffect {
            unit: EffectUnit::Compressor(master_compressor(c)),
            number: 1,
            x: 600,
            y: 0,
        },
    )
}

/// Whether the saturations of a chain can be driven without overflow.
pub open spec fn drivable(chain: Seq<MasterEffect>) -> bool {
    forall|i: int|
        0 <= i < chain.len() ==> ((#[trigger] chain[i]).unit matches EffectUnit::Distortion(d)
            ==> moderate(d.drive as int) && moderate(d.mix as int) && moderate(d.tone as int))
}

fn equalize_master(curve: EnhancementCurve) -> (r: Equalizer)
    requires
        curve_fits(curve),
    ensures
        r == master_equalizer(curve),
{
    Equalizer {
        low_freq: 105_000_000,
        low_gain: stage(take_part(1_400_000, curve.strength), 700_000, 2_600_000, curve.upper),
        mid_freq: stage(420_000_000, 420_000_000, 260_000_000, curve.upper),
        mid_gain: stage(take_part(-500_000, curve.strength), -250_000, 800_000, curve.upper),
        mid_q: 720_000,
        high_freq: 7_800_000_000,
        high_gain: stage(take_part(700_000, curve.strength), 350_000, 650_000, curve.upper),
    }
}

fn compress_master(curve: EnhancementCurve) -> (r: Compressor)
    requires
        curve_fits(curve),
    ensures
        r == master_compressor(curve),
{
    Compressor {
        threshold: stage(
            blend(-8_000_000, -15_000_000, curve.strength),
            -11_500_000,
            -13_000_000,
            curve.upper,
        ),
        ratio: stage(
            blend(1_200_000, 2_400_000, curve.strength),
            1_800_000,
            2_100_000,
            curve.upper,
        ),
        attack: 24_000_000,
        release: 190_000_000,
        makeup: take_part(900_000, curve.upper),
        mix: stage(take_part(520_000, curve.strength), 260_000, 380_000, curve.upper),
    }
}

/// Enhances the chain on the sum of all tracks.
pub fn enhance_master(chain: &mut Vec<MasterEffect>, amount: EnhancementAmount)
    requires
        drivable(old(chain)@),
        old(chain)@.len() + 2 <= usize::MAX,
    ensures
        final(chain)@ == enhanced_chain(old(chain)@, curve_of(amount.level())),
{
    let curve: EnhancementCurve = EnhancementCurve::from_amount(amount);
    let ghost before = chain@;
    if curve.upper > 0 {
        let mut d: usize = 0;
        let mut found: Option<Distortion> = None;
        while d < chain.len() && found.is_none()
            invariant
                chain@ == before,
                d <= chain@.len(),
                match found {
                    Some(u) => d < chain@.len() && first_distortion(before, 0) == d
                        && before[d as int].unit == EffectUnit::Distortion(u),
                    None => first_distortion(before, 0) == first_distortion(before, d as int),
                },
            decreases chain@.len() - d, (if found is None {
                1int
            } else {
                0
            }),
        {
            if let EffectUnit::Distortion(u) = chain[d].unit {
                found = Some(u);
            } else {
                d += 1;
            }
        }
        if let Some(u) = found {
            let old_effect: MasterEffect = chain[d];
            chain.set(
                d,
                MasterEffect {
                    unit: EffectUnit::Distortion(
                        Distortion {
                            bit_depth: u.bit_depth,
                            drive: blend(u.drive, 420_000, curve.upper),
                            mix: blend(u.mix, 680_000, curve.upper),
                            tone: blend(u.tone, 820_000, curve.upper),
                        },
                    ),
                    number: old_effect.number,
                    x: old_effect.x,
                    y: old_effect.y,
                },
            );
        }
    }
    assert(chain@ =~= warmed(before, curve));
    let ghost warm = chain@;
    let mut at: usize = 0;
    let mut limited: bool = false;
    while at < chain.len() && !limited
        invariant
            chain@ == warm,
            at <= chain@.len(),
            limited ==> at < chain@.len() && first_limiter(warm, 0) == at,
            !limited ==> first_limiter(warm, 0) == first_limiter(warm, at as int),
        decreases chain@.len() - at, (if limited {
            0int
        } else {
            1
        }),
    {
        if let EffectUnit::Limiter(_) = chain[at].unit {
            limited = true;
        } else {
            at += 1;
        }
    }
    chain.insert(
        at,
        MasterEffect {
            unit: EffectUnit::Equalizer(equalize_master(curve)),
            number: 2,
            x: 400,
            y: 0,
        },
    );
    chain.insert(
        at + 1,
        MasterEffect {
            unit: EffectUnit::Compressor(compress_master(curve)),
            number: 1,
            x: 600,
            y: 0,
        },
    );
}

/// Enhancing never makes the saturation weaker: a stronger amount drives and mixes
/// a role's saturation no less.
pub proof fn stronger_amounts_saturate_more(role: InstrumentRole, low: u8, high: u8)
    requires
        1 <= low <= high <= 10,
    ensures
        saturation(role, curve_of(low)).drive <= saturation(role, curve_of(high)).drive,
        saturation(role, curve_of(low)).mix <= saturation(role, curve_of(high)).mix,
{
    let w = warmth_of(role);
    let a = curve_of(low);
    let b = curve_of(high);
    assert forall|x: int, p: int, q: int|
        0 <= x && 0 <= p <= q <= 1000 implies #[trigger] part(x, p) <= #[trigger] part(x, q) <= x by {
        part_bounds(x, q);
        assert(x * p <= x * q) by (nonlinear_arith)
            requires
                0 <= x,
                p <= q,
        ;
    }
    part_bounds(w.drive as int, a.strength as int);
    part_bounds(w.mix as int, a.strength as int);
    part_bounds(w.upper_drive as int, a.upper as int);
    part_bounds(w.upper_mix as int, a.upper as int);
}

} // verus!
