//! The times of the chip's envelopes.

use crate::trace::Adsr;
use vstd::prelude::*;

verus! {

/// How long an attack takes, in milliseconds.
pub open spec fn attack_time(nibble: u8) -> u32 {
    match nibble % 16 {
        0 => 2,
        1 => 8,
        2 => 16,
        3 => 24,
        4 => 38,
        5 => 56,
        6 => 68,
        7 => 80,
        8 => 100,
        9 => 250,
        10 => 500,
        11 => 800,
        12 => 1000,
        13 => 3000,
        14 => 5000,
        _ => 8000,
    }
}

fn attack_ms(nibble: u8) -> (r: u32)
    ensures
        r == attack_time(nibble),
        2 <= r <= 8000,
{
    match nibble % 16 {
        0 => 2,
        1 => 8,
        2 => 16,
        3 => 24,
        4 => 38,
        5 => 56,
        6 => 68,
        7 => 80,
        8 => 100,
        9 => 250,
        10 => 500,
        11 => 800,
        12 => 1000,
        13 => 3000,
        14 => 5000,
        _ => 8000,
    }
}

/// An envelope of the target: times in milliseconds, and the level that is held in
/// fifteenths.
#[derive(Debug, Clone, Copy, PartialEq, Eq, Structural)]
pub struct EnvelopeTimes {
    pub attack: u32,
    pub decay: u32,
    pub sustain: u8,
    pub release: u32,
}

/// A time within the target's bounds.
pub open spec fn bounded(time: u32, min: u32, max: u32) -> u32 {
    if time < min {
        min
    } else if time > max {
        max
    } else {
        time
    }
}

fn bound(time: u32, min: u32, max: u32) -> (r: u32)
    ensures
        r == bounded(time, min, max),
{
    if time < min {
        min
    } else if time > max {
        max
    } else {
        time
    }
}

/// The envelope of the target that stands for one of the chip. Decay and release
/// take three times as long as an attack.
pub open spec fn times_of(adsr: Adsr, min: u32, max: u32) -> EnvelopeTimes {
    EnvelopeTimes {
        attack: bounded(attack_time(adsr.attack), min, max),
        decay: bounded((3 * attack_time(adsr.decay)) as u32, min, max),
        sustain: adsr.sustain % 16,
        release: bounded((3 * attack_time(adsr.release)) as u32, min, max),
    }
}

/// Finds the envelope of the target that stands for one of the chip. `min` and `max`
/// are the shortest and the longest time that the target knows.
pub fn adsr_to_times(adsr: Adsr, min: u32, max: u32) -> (r: EnvelopeTimes)
    ensures
        r == times_of(adsr, min, max),
{
    EnvelopeTimes {
        attack: bound(attack_ms(adsr.attack), min, max),
        decay: bound(3 * attack_ms(adsr.decay), min, max),
        sustain: adsr.sustain % 16,
        release: bound(3 * attack_ms(adsr.release), min, max),
    }
}

/// A greater nibble is a longer time. A decay or a release takes three times as long as the
/// attack of the same nibble, as far as the target's bounds allow, and nothing lies outside
/// of them.
pub proof fn envelopes_keep_their_proportions(a: u8, b: u8, min: u32, max: u32)
    requires
        a < 16,
        b < 16,
        min <= max,
    ensures
        a < b ==> attack_time(a) < attack_time(b),
        ({
            let t = times_of(Adsr { attack: a, decay: a, sustain: b, release: a }, min, max);
            &&& t.sustain == b
            &&& min <= t.attack <= max && min <= t.decay <= max && min <= t.release <= max
            &&& t.decay == t.release
            &&& min <= t.attack && min < t.attack < max && t.decay < max ==> t.decay == 3 * t.attack
            &&& min == 0 && max == u32::MAX ==> t.decay == 3 * t.attack && t.attack == attack_time(a)
        }),
{
}

/// The envelope of the target has its own time for each nibble of the chip's.
pub proof fn each_nibble_has_its_time(adsr: Adsr)
    requires
        adsr.attack < 16 && adsr.decay < 16 && adsr.sustain < 16 && adsr.release < 16,
    ensures
        ({
            let t = times_of(adsr, 0, u32::MAX);
            &&& t.attack == attack_time(adsr.attack)
            &&& t.decay == 3 * attack_time(adsr.decay)
            &&& t.release == 3 * attack_time(adsr.release)
            &&& t.sustain == adsr.sustain
            &&& adsr.attack == 0 <==> t.attack == 2
            &&& adsr.attack == 8 <==> t.attack == 100
            &&& adsr.attack == 12 <==> t.attack == 1000
            &&& adsr.attack == 15 <==> t.attack == 8000
        }),
{
}

} // verus!
