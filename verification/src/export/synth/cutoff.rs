//! The measured filter of the chip, in exact fractions.

use crate::analysis::frame::FilterMode;
use crate::header::SidModel;
use super::fraction::Fraction;
use super::timbre::{filter_kind, kind_of_mode, FilterKind};
use vstd::prelude::*;

verus! {

/// The lowest cutoff of the target, in hertz.
pub const CUTOFF_MIN: u64 = 20;

/// The highest cutoff of the target, in hertz.
pub const CUTOFF_MAX: u64 = 20_000;

/// The highest value of the cutoff register.
pub const CUTOFF_REGISTER_MAX: u32 = 2047;

/// The cutoff up to which most of a signal leaks past the filter, in hertz.
pub const LEAK_FULL: u64 = 420;

/// The cutoff from which on nothing leaks, in hertz.
pub const LEAK_END: u64 = 2000;

/// Five times the range of cutoffs in which less and less leaks.
pub const LEAK_SCALE: u64 = 7900;

// Measured cutoff curves: Copyright (C) 2004 Dag Lem, GPL-2.0-or-later.
/// Register values with their measured cutoffs in hertz. Every chip but the later one
/// is taken for the first, whose curve dips in the middle.
pub open spec fn measured(model: SidModel) -> Seq<(u32, u32)> {
    if model == SidModel::Mos8580 {
        seq![
            (0u32, 0u32),
            (128, 800),
            (256, 1600),
            (384, 2500),
            (512, 3300),
            (640, 4100),
            (768, 4800),
            (896, 5600),
            (1024, 6500),
            (1152, 7500),
            (1280, 8400),
            (1408, 9200),
            (1536, 9800),
            (1664, 10500),
            (1792, 11000),
            (1920, 11700),
            (2047, 12500),
        ]
    } else {
        seq![
            (0u32, 220u32),
            (128, 230),
            (256, 250),
            (384, 300),
            (512, 420),
            (640, 780),
            (768, 1600),
            (832, 2300),
            (896, 3200),
            (960, 4300),
            (992, 5000),
            (1008, 5400),
            (1016, 5700),
            (1023, 6000),
            (1024, 4600),
            (1032, 4800),
            (1056, 5300),
            (1088, 6000),
            (1120, 6600),
            (1152, 7200),
            (1280, 9500),
            (1408, 12000),
            (1536, 14500),
            (1664, 16000),
            (1792, 17100),
            (1920, 17700),
            (2047, 18000),
        ]
    }
}

fn cutoff_table(model: SidModel) -> (r: Vec<(u32, u32)>)
    ensures
        r@ == measured(model),
{
    let table: Vec<(u32, u32)> = if model == SidModel::Mos8580 {
        vec![
            (0, 0),
            (128, 800),
            (256, 1600),
            (384, 2500),
            (512, 3300),
            (640, 4100),
            (768, 4800),
            (896, 5600),
            (1024, 6500),
            (1152, 7500),
            (1280, 8400),
            (1408, 9200),
            (1536, 9800),
            (1664, 10500),
            (1792, 11000),
            (1920, 11700),
            (2047, 12500),
        ]
    } else {
        vec![
            (0, 220),
            (128, 230),
            (256, 250),
            (384, 300),
            (512, 420),
            (640, 780),
            (768, 1600),
            (832, 2300),
            (896, 3200),
            (960, 4300),
            (992, 5000),
            (1008, 5400),
            (1016, 5700),
            (1023, 6000),
            (1024, 4600),
            (1032, 4800),
            (1056, 5300),
            (1088, 6000),
            (1120, 6600),
            (1152, 7200),
            (1280, 9500),
            (1408, 12000),
            (1536, 14500),
            (1664, 16000),
            (1792, 17100),
            (1920, 17700),
            (2047, 18000),
        ]
    };
    assert(table@ =~= measured(model));
    table
}

/// Whether the register values of a table ascend.
spec fn ascending(table: Seq<(u32, u32)>) -> bool {
    forall|i: int, j: int| 0 <= i < j < table.len() ==> (#[trigger] table[i]).0 < (#[trigger] table[j]).0
}

proof fn registers_ascend(model: SidModel)
    ensures
        ascending(measured(model)),
        measured(model).len() >= 2,
        measured(model)[0].0 == 0,
        measured(model).last().0 == CUTOFF_REGISTER_MAX,
        forall|i: int| 0 <= i < measured(model).len() ==> (#[trigger] measured(model)[i]).1 <= 18_000,
{
    assert(forall|i: int|
        0 <= i < measured(model).len() - 1 ==> (#[trigger] measured(model)[i]).0 < measured(model)[i
            + 1].0);
    assert forall|i: int, j: int| 0 <= i < j < measured(model).len() implies (
    #[trigger] measured(model)[i]).0 < (#[trigger] measured(model)[j]).0 by {
        steps_ascend(measured(model), i, j);
    }
}

proof fn steps_ascend(table: Seq<(u32, u32)>, i: int, j: int)
    requires
        0 <= i < j < table.len(),
        forall|k: int| 0 <= k < table.len() - 1 ==> (#[trigger] table[k]).0 < table[k + 1].0,
    ensures
        table[i].0 < table[j].0,
    decreases j - i,
{
    if i + 1 < j {
        steps_ascend(table, i, j - 1);
        assert(table[j - 1].0 < table[j - 1 + 1].0);
    }
}

/// Whether twice a register value lies behind one entry of a table and not behind the
/// next.
pub open spec fn lies_behind(table: Seq<(u32, u32)>, twice: int, i: int) -> bool {
    &&& 0 <= i < table.len() - 1
    &&& i == 0 || 2 * table[i].0 < twice
    &&& twice <= 2 * table[i + 1].0
}

/// The cutoff on the line between two entries of a table.
pub open spec fn on_line(a: (u32, u32), b: (u32, u32), twice: int) -> Fraction {
    let den = 2 * (b.0 - a.0);
    Fraction { num: (a.1 * den + (b.1 - a.1) * (twice - 2 * a.0)) as u64, den: den as u64 }
}

/// A cutoff within the range of the target.
pub open spec fn in_range(f: Fraction) -> Fraction {
    if f.num < CUTOFF_MIN * f.den {
        Fraction { num: CUTOFF_MIN, den: 1 }
    } else if f.num > CUTOFF_MAX * f.den {
        Fraction { num: CUTOFF_MAX, den: 1 }
    } else {
        f
    }
}

/// Twice a register value, or twice the greatest one.
pub open spec fn within_register(twice: u32) -> int {
    if twice > 2 * CUTOFF_REGISTER_MAX {
        2 * CUTOFF_REGISTER_MAX as int
    } else {
        twice as int
    }
}

/// Whether a fraction is the measured cutoff of twice a register value.
pub open spec fn is_cutoff(r: Fraction, twice: u32, model: SidModel) -> bool {
    exists|i: int| #[trigger]
        lies_behind(measured(model), within_register(twice), i) && r == in_range(
            on_line(measured(model)[i], measured(model)[i + 1], within_register(twice)),
        )
}

proof fn line_is_bounded(a: (u32, u32), b: (u32, u32), twice: int)
    requires
        a.0 < b.0 <= CUTOFF_REGISTER_MAX,
        a.1 <= 18_000,
        b.1 <= 18_000,
        2 * a.0 <= twice <= 2 * b.0,
    ensures
        0 <= a.1 * (2 * (b.0 - a.0)) + (b.1 - a.1) * (twice - 2 * a.0) <= 18_000 * (2 * (b.0 - a.0)),
        0 < 2 * (b.0 - a.0) <= 4094,
        on_line(a, b, twice).den == 2 * (b.0 - a.0),
        on_line(a, b, twice).num == a.1 * (2 * (b.0 - a.0)) + (b.1 - a.1) * (twice - 2 * a.0),
{
    let den = 2 * (b.0 - a.0);
    let t = twice - 2 * a.0;
    assert(0 <= a.1 * den + (b.1 - a.1) * t <= 18_000 * den) by (nonlinear_arith)
        requires
            0 <= a.1 <= 18_000,
            0 <= b.1 <= 18_000,
            0 <= t <= den,
    ;
}

/// The measured cutoff of twice a register value. A register between two measured
/// ones gets a cutoff on the line between theirs.
pub fn cutoff_value_to_hz(twice: u32, model: SidModel) -> (r: Fraction)
    ensures
        is_cutoff(r, twice, model),
        0 < r.den <= 4094,
        CUTOFF_MIN * r.den <= r.num <= CUTOFF_MAX * r.den,
{
    let table: Vec<(u32, u32)> = cutoff_table(model);
    let x: u32 = if twice > 2 * CUTOFF_REGISTER_MAX {
        2 * CUTOFF_REGISTER_MAX
    } else {
        twice
    };
    proof {
        registers_ascend(model);
        assert(x == within_register(twice));
    }
    let mut i: usize = 0;
    while x > 2 * table[i + 1].0
        invariant
            table@ == measured(model),
            ascending(table@),
            table@.len() >= 2,
            table@.last().0 == CUTOFF_REGISTER_MAX,
            x <= 2 * CUTOFF_REGISTER_MAX,
            0 <= i < table@.len() - 1,
            i == 0 || 2 * table@[i as int].0 < x,
            forall|k: int| 0 <= k < table@.len() ==> (#[trigger] table@[k]).0 <= CUTOFF_REGISTER_MAX,
        decreases table@.len() - i,
    {
        assert(i + 1 < table@.len() - 1);
        i += 1;
    }
    let a: (u32, u32) = table[i];
    let b: (u32, u32) = table[i + 1];
    proof {
        assert(a.0 < b.0);
        line_is_bounded(a, b, x as int);
        assert(lies_behind(measured(model), x as int, i as int));
    }
    let den: i64 = 2 * (b.0 as i64 - a.0 as i64);
    assert(a.1 * den <= 18_000 * 4094 && (b.1 - a.1) * (x - 2 * a.0) <= 18_000 * 4094 && (b.1 - a.1)
        * (x - 2 * a.0) >= -18_000 * 4094) by (nonlinear_arith)
        requires
            0 <= a.1 <= 18_000,
            0 <= b.1 <= 18_000,
            0 < den <= 4094,
            0 <= x - 2 * a.0 <= 4094,
    ;
    let num: u64 = (a.1 as i64 * den + (b.1 as i64 - a.1 as i64) * (x as i64 - 2 * a.0 as i64)) as u64;
    let line: Fraction = Fraction { num, den: den as u64 };
    assert(line == on_line(a, b, x as int));
    if line.num < CUTOFF_MIN * line.den {
        Fraction { num: CUTOFF_MIN, den: 1 }
    } else if line.num > CUTOFF_MAX * line.den {
        Fraction { num: CUTOFF_MAX, den: 1 }
    } else {
        line
    }
}

proof fn whole_cutoffs_in_range(line: Fraction, hertz: int)
    requires
        line.den > 0,
        line.num == hertz * line.den,
        0 <= hertz <= 18_000,
    ensures
        in_range(line).num == (if hertz < CUTOFF_MIN {
            CUTOFF_MIN as int
        } else {
            hertz
        }) * in_range(line).den,
{
    let den = line.den as int;
    assert(hertz * den < 20 * den <==> hertz < 20) by (nonlinear_arith)
        requires
            den > 0,
    ;
    assert(hertz * den <= 20_000 * den) by (nonlinear_arith)
        requires
            den > 0,
            hertz <= 18_000,
    ;
}

proof fn lines_meet_their_ends(a: (u32, u32), b: (u32, u32), twice: int)
    requires
        a.0 < b.0 <= CUTOFF_REGISTER_MAX,
        a.1 <= 18_000,
        b.1 <= 18_000,
        twice == 2 * a.0 || twice == 2 * b.0,
    ensures
        on_line(a, b, twice).den > 0,
        twice == 2 * a.0 ==> on_line(a, b, twice).num == a.1 * on_line(a, b, twice).den,
        twice == 2 * b.0 ==> on_line(a, b, twice).num == b.1 * on_line(a, b, twice).den,
{
    line_is_bounded(a, b, twice);
    let den = 2 * (b.0 - a.0);
    if twice == 2 * a.0 {
        assert(a.1 * den + (b.1 - a.1) * 0 == a.1 * den) by (nonlinear_arith);
    } else {
        assert(a.1 * den + (b.1 - a.1) * den == b.1 * den) by (nonlinear_arith);
    }
}

proof fn measured_registers_end_lines(table: Seq<(u32, u32)>, i: int, k: int)
    requires
        ascending(table),
        0 <= i < table.len(),
        lies_behind(table, 2 * table[i].0, k),
        table[0].0 == 0,
    ensures
        k == i || k + 1 == i,
{
    if k + 1 < i {
        assert(table[k + 1].0 < table[i].0);
    }
    if k > i {
        assert(table[i].0 < table[k].0);
    }
}

/// At a register that was measured, the cutoff is the measured one, as far as the
/// target has it.
pub proof fn measured_cutoffs_are_kept(r: Fraction, model: SidModel, i: int)
    requires
        0 <= i < measured(model).len(),
        is_cutoff(r, (2 * measured(model)[i].0) as u32, model),
    ensures
        ({
            let hertz = measured(model)[i].1;
            r.num == (if hertz < CUTOFF_MIN {
                CUTOFF_MIN as int
            } else {
                hertz as int
            }) * r.den
        }),
{
    registers_ascend(model);
    measured_line_is_kept(measured(model), r, i);
}

proof fn measured_line_is_kept(table: Seq<(u32, u32)>, r: Fraction, i: int)
    requires
        ascending(table),
        table.len() >= 2,
        table[0].0 == 0,
        table.last().0 == CUTOFF_REGISTER_MAX,
        forall|i: int| 0 <= i < table.len() ==> (#[trigger] table[i]).1 <= 18_000,
        0 <= i < table.len(),
        exists|k: int| #[trigger]
            lies_behind(table, within_register((2 * table[i].0) as u32), k) && r == in_range(
                on_line(table[k], table[k + 1], within_register((2 * table[i].0) as u32)),
            ),
    ensures
        r.num == (if table[i].1 < CUTOFF_MIN {
            CUTOFF_MIN as int
        } else {
            table[i].1 as int
        }) * r.den,
{
    let twice = 2 * table[i].0;
    if i < table.len() - 1 {
        assert(table[i].0 < table[table.len() - 1].0);
    }
    assert(within_register(twice as u32) == twice);
    let k = choose|k: int| #[trigger]
        lies_behind(table, twice, k) && r == in_range(on_line(table[k], table[k + 1], twice));
    measured_registers_end_lines(table, i, k);
    if k + 1 < table.len() - 1 {
        assert(table[k + 1].0 < table[table.len() - 1].0);
    }
    lines_meet_their_ends(table[k], table[k + 1], twice);
    whole_cutoffs_in_range(on_line(table[k], table[k + 1], twice), table[i].1 as int);
}

/// How much of a signal leaks past a filter: at most two fifths.
pub open spec fn leak_of(cutoff: Fraction, kind: FilterKind, model: SidModel) -> Fraction {
    if model != SidModel::Mos6581 || kind != FilterKind::Lowpass || cutoff.num >= LEAK_END
        * cutoff.den {
        Fraction { num: 0, den: 1 }
    } else if cutoff.num <= LEAK_FULL * cutoff.den {
        Fraction { num: 2, den: 5 }
    } else {
        Fraction {
            num: (2 * (LEAK_END * cutoff.den - cutoff.num)) as u64,
            den: (LEAK_SCALE * cutoff.den) as u64,
        }
    }
}

/// How much of a signal leaks past a filter. Only the low-pass of the first chip
/// leaks, and the less the higher it is set.
pub fn filter_leak(cutoff: Fraction, kind: FilterKind, model: SidModel) -> (r: Fraction)
    requires
        0 < cutoff.den <= 0x1_0000_0000,
    ensures
        r == leak_of(cutoff, kind, model),
        r.den > 0,
        5 * r.num <= 2 * r.den,
{
    if model != SidModel::Mos6581 || kind != FilterKind::Lowpass || cutoff.num >= LEAK_END
        * cutoff.den {
        Fraction { num: 0, den: 1 }
    } else if cutoff.num <= LEAK_FULL * cutoff.den {
        Fraction { num: 2, den: 5 }
    } else {
        Fraction {
            num: 2 * (LEAK_END * cutoff.den - cutoff.num),
            den: LEAK_SCALE * cutoff.den,
        }
    }
}

/// A filter as the chip's registers set it.
#[derive(Debug, Clone, Copy, PartialEq, Eq, Structural)]
pub struct FilterReading {
    pub cutoff: Fraction,
    pub resonance: Fraction,
    pub kind: FilterKind,
    pub leak: Fraction,
}

impl FilterReading {
    /// Reads a filter: the middle of its cutoffs, a fifth of its resonance out of
    /// fifteen, its kind, and what leaks past it.
    pub fn from_state(
        min_cutoff: u16,
        max_cutoff: u16,
        resonance: u8,
        mode: FilterMode,
        model: SidModel,
    ) -> (r: FilterReading)
        ensures
            is_cutoff(r.cutoff, (min_cutoff + max_cutoff) as u32, model),
            r.resonance == (Fraction {
                num: if resonance < 75 {
                    resonance as u64
                } else {
                    75
                },
                den: 75,
            }),
            r.kind == kind_of_mode(mode),
            r.leak == leak_of(r.cutoff, r.kind, model),
    {
        let cutoff: Fraction = cutoff_value_to_hz(min_cutoff as u32 + max_cutoff as u32, model);
        let kind: FilterKind = filter_kind(mode);
        let num: u64 = if resonance < 75 {
            resonance as u64
        } else {
            75
        };
        FilterReading {
            cutoff,
            resonance: Fraction { num, den: 75 },
            kind,
            leak: filter_leak(cutoff, kind, model),
        }
    }
}

/// A cutoff lies between those that were measured on both sides of its register, at the share
/// of the way that the register has come, and within what the target has.
pub proof fn cutoffs_lie_between_measurements(r: Fraction, twice: u32, model: SidModel)
    requires
        is_cutoff(r, twice, model),
        twice <= 4094,
    ensures
        r.den > 0,
        20 * r.den <= r.num <= 20_000 * r.den,
        exists|i: int| #[trigger]
            lies_behind(measured(model), twice as int, i) && {
                let a = measured(model)[i];
                let b = measured(model)[i + 1];
                let share = (b.1 - a.1) * (twice - 2 * a.0);
                let span = 2 * (b.0 - a.0);
                20 * r.den < r.num < 20_000 * r.den ==> r.den == span && r.num - a.1 * span == share
            },
{
    registers_ascend(model);
    let table = measured(model);
    let i = choose|i: int| #[trigger]
        lies_behind(table, within_register(twice), i) && r == in_range(
            on_line(table[i], table[i + 1], within_register(twice)),
        );
    let a = table[i];
    let b = table[i + 1];
    let den = 2 * (b.0 - a.0);
    assert(lies_behind(table, twice as int, i));
    let at = twice - 2 * a.0;
    assert(a.0 < b.0);
    assert(0 <= at <= den);
    let num = a.1 * den + (b.1 - a.1) * at;
    assert(0 <= num <= 18_000 * den) by (nonlinear_arith)
        requires
            0 <= a.1 <= 18_000,
            0 <= b.1 <= 18_000,
            0 <= at <= den,
            num == a.1 * den + (b.1 - a.1) * at,
    ;
}

/// Only the earlier chip leaks past a lowpass: two fifths up to 420 hertz, nothing from 2000
/// hertz on, and between the two in proportion to what is left of the way.
pub proof fn low_cutoffs_leak(cutoff: Fraction, kind: FilterKind, model: SidModel)
    requires
        0 < cutoff.den <= 1_000_000,
        cutoff.num <= 1_000_000_000_000,
    ensures
        ({
            let r = leak_of(cutoff, kind, model);
            &&& r.den > 0
            &&& 5 * r.num <= 2 * r.den
            &&& !(model is Mos6581) || !(kind is Lowpass) ==> r.num == 0
            &&& model is Mos6581 && kind is Lowpass ==> {
                &&& cutoff.num <= 420 * cutoff.den ==> 5 * r.num == 2 * r.den
                &&& cutoff.num >= 2000 * cutoff.den <==> r.num == 0
                &&& 420 * cutoff.den < cutoff.num < 2000 * cutoff.den ==> 5 * r.num * 1580
                    * cutoff.den == 2 * r.den * (2000 * cutoff.den - cutoff.num)
            }
        }),
{
    let d = cutoff.den as int;
    let n = cutoff.num as int;
    if model is Mos6581 && kind is Lowpass && 420 * d < n < 2000 * d {
        assert(5 * (2 * (2000 * d - n)) * 1580 * d == 2 * (7900 * d) * (2000 * d - n))
            by (nonlinear_arith);
    }
}

} // verus!
