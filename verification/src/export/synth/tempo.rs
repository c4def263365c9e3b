//! How frames become ticks.

use crate::analysis::program::SystemClock;
use super::fraction::Fraction;
use vstd::arithmetic::power2::{
    lemma2_to64, lemma_pow2_pos, lemma_pow2_strictly_increases, lemma_pow2_unfold, pow2,
};
use vstd::prelude::*;

verus! {

/// How many onsets a tempo is measured from at least.
pub const MIN_TEMPO_ONSETS: usize = 16;

/// The shortest beat, in frames.
pub const MIN_BEAT_FRAMES: usize = 10;

/// The longest beat, in frames.
pub const MAX_BEAT_FRAMES: usize = 100;

/// The least number of ticks in a frame.
pub const MIN_TICKS_PER_FRAME: u32 = 16;

/// The greatest number of ticks in a frame.
pub const MAX_TICKS_PER_FRAME: u32 = 96;

/// The ticks in a row of the grid: a sixteenth note.
pub const GRID_TICKS_PER_ROW: u32 = 240;

/// How many ticks a frame of a clock has if no tempo was found.
pub open spec fn plain_scale(clock: SystemClock) -> u32 {
    match clock {
        SystemClock::Pal => 40,
        SystemClock::Ntsc => 33,
    }
}

/// How many ticks a frame of a clock has if no tempo was found.
pub fn default_ticks_per_frame(clock: SystemClock) -> (r: u32)
    ensures
        r == plain_scale(clock),
{
    match clock {
        SystemClock::Pal => 40,
        SystemClock::Ntsc => 33,
    }
}

/// How frames become ticks, and the grid of the editor.
#[derive(Debug, Clone, Copy, PartialEq, Eq, Structural)]
pub struct TimeBase {
    pub ticks_per_frame: u32,
    pub grid_ticks_per_row: u32,
    pub grid_rows: u32,
}

/// How frames become ticks: by the scale of the measured tempo within its bounds,
/// or else by the clock's.
pub open spec fn scale_of(clock: SystemClock, scale: Option<i64>) -> u32 {
    match scale {
        Some(s) => if s < MIN_TICKS_PER_FRAME {
            MIN_TICKS_PER_FRAME
        } else if s > MAX_TICKS_PER_FRAME {
            MAX_TICKS_PER_FRAME
        } else {
            s as u32
        },
        None => plain_scale(clock),
    }
}

/// How many rows cover some frames; a length that does not fit is cut, and there
/// is one row at least.
pub open spec fn rows_of(frame_count: u32, ticks_per_frame: u32) -> int {
    let ticks = if frame_count * ticks_per_frame > u32::MAX {
        u32::MAX as int
    } else {
        frame_count * ticks_per_frame
    };
    let rows = (ticks + GRID_TICKS_PER_ROW - 1) / GRID_TICKS_PER_ROW as int;
    if rows < 1 {
        1
    } else if rows > 65535 {
        65535
    } else {
        rows
    }
}

/// Decides how frames become ticks. `scale` is the number of ticks in a frame that
/// the measured tempo asks for.
pub fn derive_time_base(clock: SystemClock, scale: Option<i64>, frame_count: u32) -> (r: TimeBase)
    ensures
        r.ticks_per_frame == scale_of(clock, scale),
        r.grid_ticks_per_row == GRID_TICKS_PER_ROW,
        r.grid_rows == rows_of(frame_count, scale_of(clock, scale)),
        MIN_TICKS_PER_FRAME <= r.ticks_per_frame <= MAX_TICKS_PER_FRAME,
        1 <= r.grid_rows <= 65535,
{
    let ticks_per_frame: u32 = match scale {
        Some(s) => if s < MIN_TICKS_PER_FRAME as i64 {
            MIN_TICKS_PER_FRAME
        } else if s > MAX_TICKS_PER_FRAME as i64 {
            MAX_TICKS_PER_FRAME
        } else {
            s as u32
        },
        None => default_ticks_per_frame(clock),
    };
    assert(frame_count * ticks_per_frame <= u32::MAX * 96) by (nonlinear_arith)
        requires
            frame_count <= u32::MAX,
            ticks_per_frame <= 96,
    ;
    let product: u64 = frame_count as u64 * ticks_per_frame as u64;
    let ticks: u64 = if product > u32::MAX as u64 {
        u32::MAX as u64
    } else {
        product
    };
    let rows: u64 = (ticks + (GRID_TICKS_PER_ROW as u64 - 1)) / GRID_TICKS_PER_ROW as u64;
    let grid_rows: u32 = if rows < 1 {
        1
    } else if rows > 65535 {
        65535
    } else {
        rows as u32
    };
    TimeBase { ticks_per_frame, grid_ticks_per_row: GRID_TICKS_PER_ROW, grid_rows }
}

/// The slowest tempo that is left as it is, in beats per minute.
pub const BPM_FOLD_MIN: u64 = 75;

/// The tempo from which on tempos are halved, in beats per minute.
pub const BPM_FOLD_MAX: u64 = 150;

/// The tempo of a tune without beats.
pub const PLAIN_BPM: u64 = 125;

/// Whether one tempo is another by a number of octaves up.
pub open spec fn is_doubled(r: Fraction, bpm: Fraction, octaves: nat) -> bool {
    r.num == bpm.num * pow2(octaves) && r.den == bpm.den
}

/// Whether one tempo is another by a number of octaves down.
pub open spec fn is_halved(r: Fraction, bpm: Fraction, octaves: nat) -> bool {
    r.num == bpm.num && r.den == bpm.den * pow2(octaves)
}

/// Whether a tempo is another one, by whole octaves, in the usual range.
pub open spec fn is_folded(r: Fraction, bpm: Fraction) -> bool {
    &&& BPM_FOLD_MIN * r.den <= r.num < BPM_FOLD_MAX * r.den
    &&& exists|k: nat|
        #![trigger is_doubled(r, bpm, k)]
        #![trigger is_halved(r, bpm, k)]
        is_doubled(r, bpm, k) || is_halved(r, bpm, k)
}

/// Folds a tempo by octaves into the usual range.
pub fn fold_bpm(bpm: Fraction) -> (r: Fraction)
    requires
        0 < bpm.den <= u64::MAX / 150,
        bpm.num <= u64::MAX / 2,
    ensures
        bpm.num == 0 ==> r == (Fraction { num: PLAIN_BPM, den: 1 }),
        bpm.num > 0 ==> is_folded(r, bpm),
{
    if bpm.num == 0 {
        return Fraction { num: PLAIN_BPM, den: 1 };
    }
    let mut num: u64 = bpm.num;
    let mut den: u64 = bpm.den;
    let ghost mut k: nat = 0;
    proof {
        lemma2_to64();
    }
    while num < BPM_FOLD_MIN * den
        invariant
            0 < num,
            den == bpm.den,
            0 < den <= u64::MAX / 150,
            num == bpm.num * pow2(k),
            k == 0 || num < BPM_FOLD_MAX * den,
        decreases BPM_FOLD_MAX * den - num,
    {
        proof {
            lemma_pow2_unfold(k + 1);
            assert(bpm.num * pow2(k) * 2 == bpm.num * (2 * pow2(k))) by (nonlinear_arith);
            k = k + 1;
        }
        num = num * 2;
    }
    let raised: Fraction = Fraction { num, den };
    if num < BPM_FOLD_MAX * den {
        assert(is_doubled(raised, bpm, k));
        return raised;
    }
    assert(k == 0 && num == bpm.num);
    let ghost mut j: nat = 0;
    while num >= BPM_FOLD_MAX * den
        invariant
            num == bpm.num <= u64::MAX / 2,
            0 < den <= u64::MAX / 150,
            den == bpm.den * pow2(j),
            BPM_FOLD_MIN * den <= num,
        decreases num - den,
    {
        proof {
            lemma_pow2_unfold(j + 1);
            assert(bpm.den * pow2(j) * 2 == bpm.den * (2 * pow2(j))) by (nonlinear_arith);
            j = j + 1;
        }
        den = den * 2;
    }
    let lowered: Fraction = Fraction { num, den };
    assert(is_halved(lowered, bpm, j));
    lowered
}

/// The quotient of two numbers, rounded to the nearest whole one.
pub open spec fn rounded(num: int, den: int) -> int {
    (2 * num + den) / (2 * den)
}

/// The ticks of a frame for beats of some frames: a beat has 960 ticks, and the tempo
/// is folded into the usual range. `folded` is that tempo.
pub open spec fn ticks_of(rate: Fraction, folded: Fraction) -> int {
    let ticks = rounded(
        folded.num * (16 * rate.den),
        folded.den * (rate.num as int),
    );
    if ticks > i64::MAX {
        i64::MAX as int
    } else {
        ticks
    }
}

/// The tempo of beats of some frames.
pub open spec fn beat_tempo(rate: Fraction, frames: u32) -> Fraction {
    Fraction { num: (60 * rate.num) as u64, den: (rate.den * frames) as u64 }
}

/// Finds how many ticks a frame has for beats of some frames. `rate` is the number of
/// frames in a second.
pub fn measure_scale(rate: Fraction, frames: u32) -> (r: i64)
    requires
        0 < rate.num <= u64::MAX / 120,
        0 < rate.den,
        0 < frames,
        rate.den * frames <= u64::MAX / 150,
    ensures
        exists|folded: Fraction| #[trigger]
            is_folded(folded, beat_tempo(rate, frames)) && r == ticks_of(rate, folded),
{
    assert(0 < rate.den * frames) by (nonlinear_arith)
        requires
            0 < rate.den,
            0 < frames,
    ;
    assert(rate.den <= rate.den * frames) by (nonlinear_arith)
        requires
            0 < rate.den,
            0 < frames,
    ;
    let tempo: Fraction = Fraction { num: 60 * rate.num, den: rate.den * frames as u64 };
    assert(tempo == beat_tempo(rate, frames));
    let folded: Fraction = fold_bpm(tempo);
    let a: u128 = folded.num as u128;
    let b: u128 = 16 * rate.den as u128;
    let c: u128 = folded.den as u128;
    let d: u128 = rate.num as u128;
    assert(a * b <= 0x1_0000_0000_0000_0000 * 0x2000_0000_0000_0000) by (nonlinear_arith)
        requires
            0 <= a < 0x1_0000_0000_0000_0000,
            0 <= b <= 0x2000_0000_0000_0000,
    ;
    assert(0 < c * d <= 0x1_0000_0000_0000_0000 * 0x400_0000_0000_0000) by (nonlinear_arith)
        requires
            0 < c < 0x1_0000_0000_0000_0000,
            0 < d <= 0x400_0000_0000_0000,
    ;
    let num: u128 = a * b;
    let den: u128 = c * d;
    let ticks: u128 = (2 * num + den) / (2 * den);
    assert(is_folded(folded, beat_tempo(rate, frames)));
    assert(ticks == rounded(folded.num * (16 * rate.den), folded.den * (rate.num as int)));
    if ticks > i64::MAX as u128 {
        i64::MAX
    } else {
        ticks as i64
    }
}

proof fn doubling_outgrows(n: int, i: nat, j: nat)
    requires
        n > 0,
        i < j,
    ensures
        2 * (n * pow2(i)) <= n * pow2(j),
        n * pow2(i) > 0,
{
    lemma_pow2_pos(i);
    lemma_pow2_unfold(i + 1);
    if i + 1 < j {
        lemma_pow2_strictly_increases(i + 1, j);
    }
    assert(n * pow2(i) > 0 && 2 * (n * pow2(i)) <= n * pow2(j)) by (nonlinear_arith)
        requires
            n > 0,
            pow2(i) > 0,
            2 * pow2(i) <= pow2(j),
    ;
}

/// A tempo folds to one tempo only.
pub proof fn folding_is_unique(bpm: Fraction, a: Fraction, b: Fraction)
    requires
        bpm.num > 0,
        bpm.den > 0,
        is_folded(a, bpm),
        is_folded(b, bpm),
    ensures
        a == b,
{
    let i = choose|i: nat|
        #![trigger is_doubled(a, bpm, i)]
        #![trigger is_halved(a, bpm, i)]
        is_doubled(a, bpm, i) || is_halved(a, bpm, i);
    let j = choose|j: nat|
        #![trigger is_doubled(b, bpm, j)]
        #![trigger is_halved(b, bpm, j)]
        is_doubled(b, bpm, j) || is_halved(b, bpm, j);
    lemma2_to64();
    if is_doubled(a, bpm, i) {
        if is_doubled(b, bpm, j) {
            if i < j {
                doubling_outgrows(bpm.num as int, i, j);
            } else if j < i {
                doubling_outgrows(bpm.num as int, j, i);
            }
        } else {
            opposite_folds_meet(bpm, a, i, b, j);
        }
    } else {
        if is_doubled(b, bpm, j) {
            opposite_folds_meet(bpm, b, j, a, i);
        } else {
            if i < j {
                doubling_outgrows(bpm.den as int, i, j);
            } else if j < i {
                doubling_outgrows(bpm.den as int, j, i);
            }
        }
    }
}

proof fn opposite_folds_meet(bpm: Fraction, up: Fraction, i: nat, down: Fraction, j: nat)
    requires
        bpm.num > 0,
        bpm.den > 0,
        is_doubled(up, bpm, i),
        is_halved(down, bpm, j),
        BPM_FOLD_MIN * up.den <= up.num < BPM_FOLD_MAX * up.den,
        BPM_FOLD_MIN * down.den <= down.num < BPM_FOLD_MAX * down.den,
    ensures
        up == down,
{
    lemma2_to64();
    let n = bpm.num as int;
    let d = bpm.den as int;
    assert(n * pow2(0) == n && d * pow2(0) == d) by (nonlinear_arith)
        requires
            pow2(0) == 1,
    ;
    if i > 0 {
        doubling_outgrows(bpm.num as int, 0, i);
        if j > 0 {
            doubling_outgrows(bpm.den as int, 0, j);
        }
    } else if j > 0 {
        doubling_outgrows(bpm.den as int, 0, j);
    }
}

/// A tempo and twice that tempo fold to the same one, so that a beat taken for half a
/// beat makes no difference.
pub proof fn octaves_fold_alike(bpm: Fraction, a: Fraction, double: Fraction, b: Fraction)
    requires
        bpm.num > 0,
        bpm.den > 0,
        double.num == 2 * bpm.num,
        double.den == bpm.den,
        is_folded(a, bpm),
        is_folded(b, double),
    ensures
        a.num * b.den == b.num * a.den,
{
    let i = choose|i: nat|
        #![trigger is_doubled(a, bpm, i)]
        #![trigger is_halved(a, bpm, i)]
        is_doubled(a, bpm, i) || is_halved(a, bpm, i);
    let j = choose|j: nat|
        #![trigger is_doubled(b, double, j)]
        #![trigger is_halved(b, double, j)]
        is_doubled(b, double, j) || is_halved(b, double, j);
    lemma2_to64();
    lemma_pow2_unfold(j + 1);
    lemma_pow2_pos(i);
    lemma_pow2_pos(j);
    let n = bpm.num as int;
    let d = bpm.den as int;
    if is_doubled(b, double, j) {
        assert(b.num == n * pow2(j + 1)) by (nonlinear_arith)
            requires
                b.num == 2 * n * pow2(j),
                pow2(j + 1) == 2 * pow2(j),
        ;
        assert(is_doubled(b, bpm, j + 1));
        folding_is_unique(bpm, a, b);
    } else if j > 0 {
        let k = (j - 1) as nat;
        lemma_pow2_unfold(j);
        let half = Fraction { num: bpm.num, den: (bpm.den * pow2(k)) as u64 };
        assert(b.den == 2 * (d * pow2(k))) by (nonlinear_arith)
            requires
                b.den == d * pow2(j),
                pow2(j) == 2 * pow2(k),
        ;
        assert(is_halved(half, bpm, k));
        assert(is_folded(half, bpm));
        folding_is_unique(bpm, a, half);
        assert(a.num * b.den == b.num * a.den) by (nonlinear_arith)
            requires
                a.num == n,
                b.num == 2 * n,
                a.den == d * pow2(k),
                b.den == 2 * (d * pow2(k)),
        ;
    } else {
        assert(d * pow2(0) == d && n * pow2(1) == 2 * n) by (nonlinear_arith)
            requires
                pow2(0) == 1,
                pow2(1) == 2,
        ;
        assert(is_doubled(b, bpm, 1));
        folding_is_unique(bpm, a, b);
    }
}

/// How many notes start at a frame.
pub open spec fn starts_at(onsets: Seq<u32>, f: int) -> nat
    decreases onsets.len(),
{
    if onsets.len() == 0 {
        0
    } else {
        starts_at(onsets.drop_last(), f) + (if onsets.last() == f {
            1nat
        } else {
            0
        })
    }
}

/// How many notes start at a frame of the trace.
pub open spec fn pulse(onsets: Seq<u32>, n: int, f: int) -> nat {
    if 0 <= f < n {
        starts_at(onsets, f)
    } else {
        0
    }
}

/// The onsets around a frame, in halves: those at the frame count whole, those
/// beside it half.
pub open spec fn smoothed(onsets: Seq<u32>, n: int, f: int) -> nat {
    2 * pulse(onsets, n, f) + pulse(onsets, n, f - 1) + pulse(onsets, n, f + 1)
}

/// How well the first `k` frames agree with those a lag later, in quarters.
pub open spec fn agreement(onsets: Seq<u32>, n: int, lag: int, k: int) -> nat
    decreases k,
{
    if k <= 0 {
        0
    } else {
        agreement(onsets, n, lag, k - 1) + smoothed(onsets, n, k - 1) * smoothed(
            onsets,
            n,
            k - 1 + lag,
        )
    }
}

/// How well the onsets agree with themselves a lag later, in quarters.
pub open spec fn autocorrelation(onsets: Seq<u32>, n: int, lag: int) -> nat {
    agreement(onsets, n, lag, n - lag)
}

/// The longest beat that a trace can show.
pub open spec fn longest_beat(n: int) -> int {
    if n / 2 < MAX_BEAT_FRAMES {
        n / 2
    } else {
        MAX_BEAT_FRAMES as int
    }
}

/// Whether a tempo can be measured at all.
pub open spec fn measurable(onsets: Seq<u32>, n: int) -> bool {
    onsets.len() >= MIN_TEMPO_ONSETS && n >= 2 && longest_beat(n) > MIN_BEAT_FRAMES
}

/// Whether a lag is the beat among those up to `last`: the shortest one with the
/// best agreement.
pub open spec fn is_beat(onsets: Seq<u32>, n: int, last: int, lag: int) -> bool {
    &&& MIN_BEAT_FRAMES <= lag <= last
    &&& autocorrelation(onsets, n, lag) > 0
    &&& forall|l: int|
        MIN_BEAT_FRAMES <= l <= last ==> (#[trigger] autocorrelation(onsets, n, l)
            <= autocorrelation(onsets, n, lag)) && (l < lag ==> autocorrelation(onsets, n, l)
            < autocorrelation(onsets, n, lag))
}

proof fn few_starts(onsets: Seq<u32>, f: int)
    ensures
        starts_at(onsets, f) <= onsets.len(),
    decreases onsets.len(),
{
    if onsets.len() > 0 {
        few_starts(onsets.drop_last(), f);
    }
}

fn count_starts(onsets: &[u32], n: usize) -> (r: Vec<u64>)
    requires
        onsets@.len() <= u32::MAX,
    ensures
        r@.len() == n,
        forall|f: int| 0 <= f < n ==> #[trigger] r@[f] == starts_at(onsets@, f),
{
    let mut out: Vec<u64> = Vec::new();
    let mut i: usize = 0;
    while i < n
        invariant
            i <= n,
            out@.len() == i,
            forall|f: int| 0 <= f < i ==> #[trigger] out@[f] == 0,
        decreases n - i,
    {
        out.push(0);
        i += 1;
    }
    let mut k: usize = 0;
    assert(onsets@.take(0) =~= Seq::<u32>::empty());
    while k < onsets.len()
        invariant
            k <= onsets@.len() <= u32::MAX,
            out@.len() == n,
            forall|f: int| 0 <= f < n ==> #[trigger] out@[f] == starts_at(onsets@.take(k as int), f),
        decreases onsets@.len() - k,
    {
        let at: usize = onsets[k] as usize;
        assert(onsets@.take(k + 1).drop_last() =~= onsets@.take(k as int));
        if at < n {
            proof {
                few_starts(onsets@.take(k as int), at as int);
            }
            let before: u64 = out[at];
            out.set(at, before + 1);
        }
        k += 1;
    }
    assert(onsets@.take(onsets@.len() as int) =~= onsets@);
    out
}

fn smooth(onsets: &[u32], n: usize) -> (r: Vec<u64>)
    requires
        onsets@.len() <= u32::MAX,
    ensures
        r@.len() == n,
        forall|f: int|
            0 <= f < n ==> #[trigger] r@[f] == smoothed(onsets@, n as int, f) && r@[f]
                <= 0x4_0000_0000,
{
    let counts: Vec<u64> = count_starts(onsets, n);
    let mut out: Vec<u64> = Vec::new();
    let mut f: usize = 0;
    while f < n
        invariant
            f <= n,
            onsets@.len() <= u32::MAX,
            counts@.len() == n,
            forall|f: int| 0 <= f < n ==> #[trigger] counts@[f] == starts_at(onsets@, f),
            out@.len() == f,
            forall|g: int|
                0 <= g < f ==> #[trigger] out@[g] == smoothed(onsets@, n as int, g) && out@[g]
                    <= 0x4_0000_0000,
        decreases n - f,
    {
        proof {
            few_starts(onsets@, f as int);
            few_starts(onsets@, f - 1);
            few_starts(onsets@, f + 1);
        }
        let left: u64 = if f > 0 {
            counts[f - 1]
        } else {
            0
        };
        let right: u64 = if f + 1 < n {
            counts[f + 1]
        } else {
            0
        };
        out.push(2 * counts[f] + left + right);
        f += 1;
    }
    out
}

fn correlate(signal: &[u64], lag: usize, Ghost(onsets): Ghost<Seq<u32>>) -> (r: u128)
    requires
        signal@.len() <= u32::MAX,
        lag <= signal@.len(),
        forall|f: int|
            0 <= f < signal@.len() ==> #[trigger] signal@[f] == smoothed(
                onsets,
                signal@.len() as int,
                f,
            ) && signal@[f] <= 0x4_0000_0000,
    ensures
        r == autocorrelation(onsets, signal@.len() as int, lag as int),
{
    let ghost n = signal@.len() as int;
    let mut total: u128 = 0;
    let mut i: usize = 0;
    while i < signal.len() - lag
        invariant
            i <= signal@.len() - lag,
            signal@.len() <= u32::MAX,
            lag <= signal@.len(),
            n == signal@.len(),
            forall|f: int|
                0 <= f < signal@.len() ==> #[trigger] signal@[f] == smoothed(onsets, n, f)
                    && signal@[f] <= 0x4_0000_0000,
            total == agreement(onsets, n, lag as int, i as int),
            total <= i * 0x10_0000_0000_0000_0000,
        decreases signal@.len() - lag - i,
    {
        let a: u64 = signal[i];
        let b: u64 = signal[i + lag];
        assert(a * b <= 0x10_0000_0000_0000_0000) by (nonlinear_arith)
            requires
                a <= 0x4_0000_0000,
                b <= 0x4_0000_0000,
        ;
        total += a as u128 * b as u128;
        i += 1;
    }
    total
}

/// Estimates the beat, in frames: the lag at which the onsets of the notes agree
/// best with themselves.
pub fn detect_frames_per_beat(onsets: &[u32], frame_count: u32) -> (r: Option<u32>)
    requires
        onsets@.len() <= u32::MAX,
    ensures
        match r {
            Some(lag) => measurable(onsets@, frame_count as int) && is_beat(
                onsets@,
                frame_count as int,
                longest_beat(frame_count as int),
                lag as int,
            ),
            None => !measurable(onsets@, frame_count as int) || forall|l: int|
                MIN_BEAT_FRAMES <= l <= longest_beat(frame_count as int)
                    ==> #[trigger] autocorrelation(onsets@, frame_count as int, l) == 0,
        },
{
    if onsets.len() < MIN_TEMPO_ONSETS || frame_count < 2 {
        return None;
    }
    let n: usize = frame_count as usize;
    let last: usize = if n / 2 < MAX_BEAT_FRAMES {
        n / 2
    } else {
        MAX_BEAT_FRAMES
    };
    if last <= MIN_BEAT_FRAMES {
        return None;
    }
    let signal: Vec<u64> = smooth(onsets, n);
    let mut best: usize = 0;
    let mut best_score: u128 = 0;
    let mut lag: usize = MIN_BEAT_FRAMES;
    while lag <= last
        invariant
            n == frame_count,
            signal@.len() == n,
            MIN_BEAT_FRAMES <= lag <= last + 1,
            last <= n / 2,
            last <= MAX_BEAT_FRAMES,
            forall|f: int|
                0 <= f < n ==> #[trigger] signal@[f] == smoothed(onsets@, n as int, f) && signal@[f]
                    <= 0x4_0000_0000,
            best_score > 0 ==> is_beat(onsets@, n as int, lag - 1, best as int) && best_score
                == autocorrelation(onsets@, n as int, best as int),
            best_score == 0 ==> forall|l: int|
                MIN_BEAT_FRAMES <= l < lag ==> #[trigger] autocorrelation(onsets@, n as int, l)
                    == 0,
        decreases last + 1 - lag,
    {
        let score: u128 = correlate(signal.as_slice(), lag, Ghost(onsets@));
        if score > best_score {
            best_score = score;
            best = lag;
        }
        lag += 1;
    }
    if best_score > 0 {
        Some(best as u32)
    } else {
        None
    }
}

/// A scale that was measured is taken as it is between 16 and 96 ticks, and the nearer of
/// these where it lies outside; without one, PAL tunes have 40 ticks in a frame and NTSC
/// tunes 33.
pub proof fn scales_are_kept_within_bounds(clock: SystemClock, scale: Option<i64>)
    ensures
        16 <= scale_of(clock, scale) <= 96,
        match scale {
            Some(s) => {
                &&& 16 <= s <= 96 ==> scale_of(clock, scale) == s
                &&& s < 16 ==> scale_of(clock, scale) == 16
                &&& s > 96 ==> scale_of(clock, scale) == 96
            },
            None => scale_of(clock, scale) == (if clock == SystemClock::Pal {
                40int
            } else {
                33
            }),
        },
{
}

/// The rows of the grid, of 240 ticks each, cover all frames of a song and no row more than
/// that, as long as there are rows enough.
pub proof fn rows_cover_the_song(frame_count: u32, ticks_per_frame: u32)
    requires
        0 < frame_count * ticks_per_frame <= 65535 * 240,
    ensures
        rows_of(frame_count, ticks_per_frame) * 240 >= frame_count * ticks_per_frame,
        (rows_of(frame_count, ticks_per_frame) - 1) * 240 < frame_count * ticks_per_frame,
{
}

/// A tempo is folded to at least 75 and less than 150 beats in a minute.
pub proof fn folded_tempos_are_usual(r: Fraction, bpm: Fraction)
    requires
        is_folded(r, bpm),
    ensures
        75 * r.den <= r.num < 150 * r.den,
{
}

/// The ticks of a frame are the whole number nearest to what the tempo asks for, with 960
/// ticks in a beat.
pub proof fn ticks_are_rounded_to_the_nearest(rate: Fraction, folded: Fraction)
    requires
        0 < rate.num,
        0 < folded.den,
        ticks_of(rate, folded) < i64::MAX,
    ensures
        ({
            let ticks = ticks_of(rate, folded);
            let exact = 960 * (folded.num * rate.den);
            let unit = 60 * (folded.den * rate.num);
            -unit <= 2 * (ticks * unit - exact) <= unit
        }),
{
    let num = folded.num * (16 * rate.den);
    let den = folded.den * (rate.num as int);
    assert(num == 16 * (folded.num * rate.den)) by (nonlinear_arith)
        requires
            num == folded.num * (16 * rate.den),
    ;
    assert(den > 0) by (nonlinear_arith)
        requires
            den == folded.den * (rate.num as int),
            0 < folded.den,
            0 < rate.num,
    ;
    let ticks = (2 * num + den) / (2 * den);
    vstd::arithmetic::div_mod::lemma_fundamental_div_mod(2 * num + den, 2 * den);
    vstd::arithmetic::div_mod::lemma_mod_bound(2 * num + den, 2 * den);
    assert((2 * den) * ticks == 2 * (ticks * den)) by (nonlinear_arith);
    assert(ticks * (60 * den) == 60 * (ticks * den)) by (nonlinear_arith);
}

/// A beat that was found has from 10 to 100 frames and at most half of those of the trace,
/// and was found from 16 onsets at least.
pub proof fn beats_are_found_within_bounds(onsets: Seq<u32>, n: int, lag: int)
    requires
        measurable(onsets, n),
        is_beat(onsets, n, longest_beat(n), lag),
    ensures
        10 <= lag <= 100,
        2 * lag <= n,
        onsets.len() >= 16,
{
}

/// A frame has starts just where a note starts at it, and every further note counts.
pub proof fn every_start_counts(onsets: Seq<u32>, x: u32, f: int)
    ensures
        starts_at(onsets, f) > 0 <==> exists|i: int|
            0 <= i < onsets.len() && #[trigger] onsets[i] == f,
        starts_at(onsets.push(x), f) == starts_at(onsets, f) + (if x == f {
            1int
        } else {
            0
        }),
    decreases onsets.len(),
{
    assert(onsets.push(x).drop_last() =~= onsets);
    if onsets.len() > 0 {
        let t = onsets.drop_last();
        every_start_counts(t, x, f);
        if exists|i: int| 0 <= i < onsets.len() && #[trigger] onsets[i] == f {
            let i = choose|i: int| 0 <= i < onsets.len() && #[trigger] onsets[i] == f;
            if i < t.len() {
                assert(t[i] == f);
            }
        }
        if starts_at(t, f) > 0 {
            let i = choose|i: int| 0 <= i < t.len() && #[trigger] t[i] == f;
            assert(onsets[i] == f);
        } else if onsets.last() == f {
            assert(onsets[onsets.len() - 1] == f);
        }
    }
}

/// An onset counts twice at its own frame and once at each of the frames beside it, and
/// onsets add up.
pub proof fn onsets_are_spread_to_their_neighbours(onsets: Seq<u32>, x: u32, n: int, f: int)
    requires
        0 < x < n - 1,
        0 <= f < n,
    ensures
        smoothed(onsets.push(x), n, f) - smoothed(onsets, n, f) == (if f == x {
            2int
        } else if f == x - 1 || f == x + 1 {
            1
        } else {
            0
        }),
{
    every_start_counts(onsets, x, f);
    every_start_counts(onsets, x, f - 1);
    every_start_counts(onsets, x, f + 1);
}

/// Onsets agree with themselves a lag later just where two of them lie that far apart, give
/// or take the frames that they are spread to.
pub proof fn onsets_agree_where_they_repeat(onsets: Seq<u32>, n: int, lag: int)
    requires
        0 <= lag <= n,
    ensures
        autocorrelation(onsets, n, lag) > 0 <==> exists|k: int|
            #![trigger smoothed(onsets, n, k)]
            0 <= k < n - lag && smoothed(onsets, n, k) > 0 && smoothed(onsets, n, k + lag) > 0,
{
    agreement_is_somewhere(onsets, n, lag, n - lag);
}

proof fn agreement_is_somewhere(onsets: Seq<u32>, n: int, lag: int, m: int)
    requires
        0 <= m,
    ensures
        agreement(onsets, n, lag, m) > 0 <==> exists|k: int|
            #![trigger smoothed(onsets, n, k)]
            0 <= k < m && smoothed(onsets, n, k) > 0 && smoothed(onsets, n, k + lag) > 0,
    decreases m,
{
    if m > 0 {
        agreement_is_somewhere(onsets, n, lag, m - 1);
        let a = smoothed(onsets, n, m - 1);
        let b = smoothed(onsets, n, m - 1 + lag);
        assert(a * b > 0 <==> a > 0 && b > 0) by (nonlinear_arith)
            requires
                a >= 0,
                b >= 0,
        ;
    }
}

} // verus!
