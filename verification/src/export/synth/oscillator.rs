//! The target's SID oscillator.

use crate::analysis::frame::{NoteEvent, ProgramFrame};
use crate::analysis::program::SystemClock;
use crate::header::SidModel;
use super::ownership::timeline_fits;
use super::sorting::{insertion_point, sorted_by, sorting_keeps};
use super::tracks::{SynthNote, TrackPlan};
use vstd::prelude::*;

verus! {

/// The state that the chip's noise starts with.
pub const SID_NOISE_SEED: u32 = 0x007F_FFF8;

/// The steps that the oscillator's sequences have.
pub const SEQUENCE_STEPS: usize = 16;

/// The parameters of a SID oscillator. The low four bits of a mask select
/// triangle, sawtooth, pulse and noise.
#[derive(Debug)]
pub struct SidOscillator {
    pub mask: u8,
    pub noise_seed: u32,
    pub freq_reg: u16,
    /// Whether the pitch follows the note.
    pub track_pitch: bool,
    pub pw_reg: u16,
    pub ring_mod: bool,
    pub hard_sync: bool,
    /// Whether the later chip is played; every other one plays as the first.
    pub mos8580: bool,
    pub clock: SystemClock,
    pub seq_len: u8,
    /// Whether the sequence starts over at its end; else its last step is held.
    pub seq_loop: bool,
    /// The steps whose frequency is fixed, as bits.
    pub seq_freq_mask: u16,
    pub seq_steps: Vec<u8>,
    pub seq_freqs: Vec<u16>,
}

/// A SID oscillator as plain values.
pub struct OscillatorView {
    pub mask: u8,
    pub noise_seed: u32,
    pub freq_reg: u16,
    pub track_pitch: bool,
    pub pw_reg: u16,
    pub ring_mod: bool,
    pub hard_sync: bool,
    pub mos8580: bool,
    pub clock: SystemClock,
    pub seq_len: u8,
    pub seq_loop: bool,
    pub seq_freq_mask: u16,
    pub seq_steps: Seq<u8>,
    pub seq_freqs: Seq<u16>,
}

impl SidOscillator {
    /// The oscillator as plain values.
    pub open spec fn view(self) -> OscillatorView {
        OscillatorView {
            mask: self.mask,
            noise_seed: self.noise_seed,
            freq_reg: self.freq_reg,
            track_pitch: self.track_pitch,
            pw_reg: self.pw_reg,
            ring_mod: self.ring_mod,
            hard_sync: self.hard_sync,
            mos8580: self.mos8580,
            clock: self.clock,
            seq_len: self.seq_len,
            seq_loop: self.seq_loop,
            seq_freq_mask: self.seq_freq_mask,
            seq_steps: self.seq_steps@,
            seq_freqs: self.seq_freqs@,
        }
    }
}

/// An oscillator that follows its note and plays one selection of waveforms.
pub open spec fn plain_oscillator(
    mask: u8,
    pw_reg: u16,
    model: SidModel,
    clock: SystemClock,
) -> OscillatorView {
    OscillatorView {
        mask: mask % 16,
        noise_seed: SID_NOISE_SEED,
        freq_reg: 0,
        track_pitch: true,
        pw_reg: pw_reg % 4096,
        ring_mod: false,
        hard_sync: false,
        mos8580: model == SidModel::Mos8580,
        clock,
        seq_len: 0,
        seq_loop: false,
        seq_freq_mask: 0,
        seq_steps: Seq::new(16, |i: int| 0u8),
        seq_freqs: Seq::new(16, |i: int| 0u16),
    }
}

/// The steps of a sequence, as far as there are steps for them.
pub open spec fn sequence_steps(steps: Seq<u8>) -> Seq<u8> {
    Seq::new(
        16,
        |i: int|
            if i < steps.len() {
                steps[i] % 16
            } else {
                0u8
            },
    )
}

/// An oscillator that plays a sequence of waveforms over and over.
pub open spec fn with_sequence(o: OscillatorView, steps: Seq<u8>) -> OscillatorView {
    OscillatorView {
        seq_len: if steps.len() < 16 {
            steps.len() as u8
        } else {
            16
        },
        seq_loop: true,
        seq_steps: sequence_steps(steps),
        ..o
    }
}

/// Two to the power of `n`.
pub open spec fn bit(n: int) -> int
    decreases n,
{
    if n <= 0 {
        1
    } else {
        2 * bit(n - 1)
    }
}

/// The bits of the first `n` frequencies that are not zero.
pub open spec fn frequency_mask(freqs: Seq<u16>, n: int) -> int
    decreases n,
{
    if n <= 0 {
        0
    } else {
        frequency_mask(freqs, n - 1) + (if freqs[n - 1] > 0 {
            bit(n - 1)
        } else {
            0
        })
    }
}

/// An oscillator whose steps play at frequencies of their own, where those are
/// not zero.
pub open spec fn with_frequencies(o: OscillatorView, freqs: Seq<u16>) -> OscillatorView {
    OscillatorView { seq_freq_mask: frequency_mask(freqs, 16) as u16, seq_freqs: freqs, ..o }
}

fn zero_steps() -> (r: Vec<u8>)
    ensures
        r@ == Seq::new(16, |i: int| 0u8),
{
    let mut v: Vec<u8> = Vec::new();
    let mut i: usize = 0;
    while i < SEQUENCE_STEPS
        invariant
            i <= SEQUENCE_STEPS,
            v@.len() == i,
            forall|j: int| 0 <= j < i ==> v@[j] == 0,
        decreases SEQUENCE_STEPS - i,
    {
        v.push(0);
        i += 1;
    }
    assert(v@ =~= Seq::new(16, |i: int| 0u8));
    v
}

/// Sixteen frequencies that are all zero.
pub fn zero_frequencies() -> (r: Vec<u16>)
    ensures
        r@ == Seq::new(16, |i: int| 0u16),
{
    let mut v: Vec<u16> = Vec::new();
    let mut i: usize = 0;
    while i < SEQUENCE_STEPS
        invariant
            i <= SEQUENCE_STEPS,
            v@.len() == i,
            forall|j: int| 0 <= j < i ==> v@[j] == 0,
        decreases SEQUENCE_STEPS - i,
    {
        v.push(0);
        i += 1;
    }
    assert(v@ =~= Seq::new(16, |i: int| 0u16));
    v
}

impl SidOscillator {
    /// An oscillator that follows its note and plays one selection of waveforms.
    pub fn tonal(mask: u8, pw_reg: u16, model: SidModel, clock: SystemClock) -> (r: SidOscillator)
        ensures
            r.view() == plain_oscillator(mask, pw_reg, model, clock),
    {
        SidOscillator {
            mask: mask % 16,
            noise_seed: SID_NOISE_SEED,
            freq_reg: 0,
            track_pitch: true,
            pw_reg: pw_reg % 4096,
            ring_mod: false,
            hard_sync: false,
            mos8580: model == SidModel::Mos8580,
            clock,
            seq_len: 0,
            seq_loop: false,
            seq_freq_mask: 0,
            seq_steps: zero_steps(),
            seq_freqs: zero_frequencies(),
        }
    }

    /// Lets the oscillator play a sequence of waveforms over and over, one per
    /// frame.
    pub fn set_seq(&mut self, steps: &[u8])
        ensures
            final(self).view() == with_sequence(old(self).view(), steps@),
    {
        let mut masks: Vec<u8> = Vec::new();
        let mut i: usize = 0;
        while i < SEQUENCE_STEPS
            invariant
                i <= SEQUENCE_STEPS,
                masks@.len() == i,
                forall|j: int| 0 <= j < i ==> #[trigger] masks@[j] == sequence_steps(steps@)[j],
            decreases SEQUENCE_STEPS - i,
        {
            if i < steps.len() {
                masks.push(steps[i] % 16);
            } else {
                masks.push(0);
            }
            i += 1;
        }
        assert(masks@ =~= sequence_steps(steps@));
        self.seq_len = if steps.len() < SEQUENCE_STEPS {
            steps.len() as u8
        } else {
            16
        };
        self.seq_loop = true;
        self.seq_steps = masks;
    }

    /// Lets the steps of a sequence play at frequencies of their own.
    pub fn set_seq_frequencies(&mut self, freqs: &[u16])
        requires
            freqs@.len() == 16,
        ensures
            final(self).view() == with_frequencies(old(self).view(), freqs@),
    {
        let mut copy: Vec<u16> = Vec::new();
        let mut mask: u32 = 0;
        let mut weight: u32 = 1;
        let mut i: usize = 0;
        proof {
            reveal_with_fuel(bit, 17);
        }
        while i < SEQUENCE_STEPS
            invariant
                i <= SEQUENCE_STEPS,
                freqs@.len() == 16,
                copy@ == freqs@.take(i as int),
                weight == bit(i as int),
                weight <= 65536,
                mask < weight,
                mask == frequency_mask(freqs@, i as int),
                i < 16 ==> weight <= 32768,
                i < 15 ==> weight <= 16384,
                bit_bound(i as int, weight as int),
            decreases SEQUENCE_STEPS - i,
        {
            proof {
                bit_grows(i as int, weight as int);
            }
            if freqs[i] > 0 {
                mask += weight;
            }
            copy.push(freqs[i]);
            weight = weight * 2;
            i += 1;
        }
        assert(copy@ =~= freqs@);
        self.seq_freq_mask = mask as u16;
        self.seq_freqs = copy;
    }
}

spec fn bit_bound(i: int, weight: int) -> bool {
    weight * bit(16 - i) == 65536
}

proof fn bit_grows(i: int, weight: int)
    requires
        0 <= i < 16,
        weight == bit(i),
        bit_bound(i, weight),
    ensures
        bit_bound(i + 1, weight * 2),
        weight * 2 == bit(i + 1),
        weight * 2 <= 65536,
        i + 1 < 16 ==> weight * 2 <= 32768,
        i + 1 < 15 ==> weight * 2 <= 16384,
{
    let rest = bit(16 - i - 1);
    bit_positive(i);
    assert(bit(16 - i) == 2 * rest);
    assert((weight * 2) * rest == weight * (2 * rest)) by (nonlinear_arith);
    bit_positive(16 - i - 1);
    assert((weight * 2) * rest >= weight * 2) by (nonlinear_arith)
        requires
            rest >= 1,
            weight >= 0,
    ;
    if i + 1 < 16 {
        bit_positive(16 - i - 2);
        let r2 = bit(16 - i - 2);
        assert(rest == 2 * r2);
        assert((weight * 2) * rest >= (weight * 2) * 2) by (nonlinear_arith)
            requires
                rest >= 2,
                weight >= 0,
        ;
        if i + 1 < 15 {
            bit_positive(16 - i - 3);
            assert(r2 == 2 * bit(16 - i - 3));
            assert((weight * 2) * rest >= (weight * 2) * 4) by (nonlinear_arith)
                requires
                    rest >= 4,
                    weight >= 0,
            ;
        }
    }
}

proof fn bit_positive(n: int)
    ensures
        bit(n) >= 1,
    decreases n,
{
    if n > 0 {
        bit_positive(n - 1);
    }
}

/// The key of a number for sorting.
pub open spec fn number_key() -> spec_fn(u16) -> int {
    |x: u16| x as int
}

/// The number in the middle of a list, the upper one of two.
pub open spec fn median(values: Seq<u16>) -> Option<u16> {
    if values.len() > 0 {
        Some(sorted_by(values, number_key())[values.len() as int / 2])
    } else {
        None
    }
}

/// Finds the number in the middle of a list.
pub fn median_of(values: &[u16]) -> (r: Option<u16>)
    ensures
        r == median(values@),
{
    let ghost key = number_key();
    let mut sorted: Vec<u16> = Vec::new();
    let mut i: usize = 0;
    assert(values@.take(0) =~= Seq::<u16>::empty());
    while i < values.len()
        invariant
            i <= values@.len(),
            key == number_key(),
            sorted@ == sorted_by(values@.take(i as int), key),
            sorted@.len() == i,
        decreases values@.len() - i,
    {
        proof {
            assert(values@.take(i + 1).drop_last() =~= values@.take(i as int));
            sorting_keeps(values@.take(i + 1), key);
        }
        let x: u16 = values[i];
        let mut at: usize = sorted.len();
        while at > 0 && sorted[at - 1] > x
            invariant
                at <= sorted@.len(),
                key == number_key(),
                forall|j: int| at <= j < sorted@.len() ==> key(#[trigger] sorted@[j]) > x,
            decreases at,
        {
            at -= 1;
        }
        proof {
            insertion_point(sorted@, x, key, at as int);
        }
        sorted.insert(at, x);
        i += 1;
    }
    assert(values@.take(values@.len() as int) =~= values@);
    if sorted.len() > 0 {
        Some(sorted[sorted.len() / 2])
    } else {
        None
    }
}

/// The frequencies of a voice at one step of the first `k` notes of a timeline,
/// where there are any.
pub open spec fn step_samples(
    timeline: Seq<(usize, usize)>,
    notes: Seq<SynthNote>,
    states: Seq<ProgramFrame>,
    v: int,
    step: int,
    k: int,
) -> Seq<u16>
    decreases k,
{
    if k <= 0 {
        Seq::empty()
    } else {
        let before = step_samples(timeline, notes, states, v, step, k - 1);
        let f = notes[timeline[k - 1].1 as int].event.start_frame + step;
        if f < states.len() && states[f].voices@[v].freq > 0 {
            before.push(states[f].voices@[v].freq)
        } else {
            before
        }
    }
}

/// The frequencies of the noise steps of a track's program: the median over its
/// notes; other steps follow their note.
pub open spec fn noise_frequencies(
    program: Option<Seq<u8>>,
    timeline: Seq<(usize, usize)>,
    notes: Seq<SynthNote>,
    states: Seq<ProgramFrame>,
    v: int,
) -> Seq<u16> {
    Seq::new(
        16,
        |step: int|
            match program {
                Some(p) => if step < p.len() && (p[step] / 8) % 2 == 1 {
                    match median(
                        step_samples(timeline, notes, states, v, step, timeline.len() as int),
                    ) {
                        Some(f) => f,
                        None => 0u16,
                    }
                } else {
                    0
                },
                None => 0,
            },
    )
}

/// Measures the frequencies of the noise steps of a track's program.
pub fn program_noise_frequencies(plan: &TrackPlan, notes: &[SynthNote], states: &[ProgramFrame]) -> (r:
    Vec<u16>)
    requires
        plan.voice.valid(),
        timeline_fits(plan.timeline@, notes@),
    ensures
        r@ == noise_frequencies(
            super::timbre::optional_view(plan.waveform_program),
            plan.timeline@,
            notes@,
            states@,
            plan.voice.0 - 1,
        ),
{
    let v: usize = plan.voice.to_index();
    let ghost wanted = noise_frequencies(
        super::timbre::optional_view(plan.waveform_program),
        plan.timeline@,
        notes@,
        states@,
        v as int,
    );
    let program: &Vec<u8> = match &plan.waveform_program {
        Some(p) => p,
        None => {
            let out: Vec<u16> = zero_frequencies();
            assert(out@ =~= wanted);
            return out;
        },
    };
    let mut out: Vec<u16> = Vec::new();
    let mut step: usize = 0;
    while step < SEQUENCE_STEPS
        invariant
            step <= SEQUENCE_STEPS,
            v < 3,
            v == plan.voice.0 - 1,
            timeline_fits(plan.timeline@, notes@),
            plan.waveform_program == Some(*program),
            wanted == noise_frequencies(
                super::timbre::optional_view(plan.waveform_program),
                plan.timeline@,
                notes@,
                states@,
                v as int,
            ),
            out@ == wanted.take(step as int),
        decreases SEQUENCE_STEPS - step,
    {
        let mut freq: u16 = 0;
        if step < program.len() && (program[step] / 8) % 2 == 1 {
            let mut samples: Vec<u16> = Vec::new();
            let mut k: usize = 0;
            while k < plan.timeline.len()
                invariant
                    k <= plan.timeline@.len(),
                    step < 16,
                    v < 3,
                    timeline_fits(plan.timeline@, notes@),
                    samples@ == step_samples(
                        plan.timeline@,
                        notes@,
                        states@,
                        v as int,
                        step as int,
                        k as int,
                    ),
                decreases plan.timeline@.len() - k,
            {
                assert(plan.timeline@[k as int].1 < notes@.len());
                let first: u64 = notes[plan.timeline[k].1].event.start_frame as u64;
                let f: u64 = first + step as u64;
                if f < states.len() as u64 {
                    let here: u16 = states[f as usize].voices[v].freq;
                    if here > 0 {
                        samples.push(here);
                    }
                }
                k += 1;
            }
            if let Some(m) = median_of(samples.as_slice()) {
                freq = m;
            }
        }
        assert(freq == wanted[step as int]);
        out.push(freq);
        assert(wanted.take(step + 1) =~= wanted.take(step as int).push(wanted[step as int]));
        step += 1;
    }
    assert(wanted.take(16) =~= wanted);
    out
}

/// Whether the chip's noise was disturbed at some frame of some note.
pub open spec fn noise_poisoned(
    timeline: Seq<(usize, usize)>,
    notes: Seq<SynthNote>,
    states: Seq<ProgramFrame>,
    v: int,
) -> bool {
    exists|k: int, f: int|
        0 <= k < timeline.len() && super::tracks::sounds_at(
            notes[(#[trigger] timeline[k]).1 as int].event,
            states.len(),
            f,
        ) && (#[trigger] states[f]).digital_voices@[v].noise_state_poisoned
}

/// Tells whether the chip's noise was disturbed during a track's notes.
pub fn plan_noise_state_poisoned(plan: &TrackPlan, notes: &[SynthNote], states: &[ProgramFrame]) -> (r:
    bool)
    requires
        plan.voice.valid(),
        timeline_fits(plan.timeline@, notes@),
    ensures
        r == noise_poisoned(plan.timeline@, notes@, states@, plan.voice.0 - 1),
{
    let v: usize = plan.voice.to_index();
    let mut k: usize = 0;
    while k < plan.timeline.len()
        invariant
            k <= plan.timeline@.len(),
            v < 3,
            v == plan.voice.0 - 1,
            timeline_fits(plan.timeline@, notes@),
            forall|j: int, f: int|
                0 <= j < k && super::tracks::sounds_at(
                    notes@[(#[trigger] plan.timeline@[j]).1 as int].event,
                    states@.len(),
                    f,
                ) ==> !(#[trigger] states@[f]).digital_voices@[v as int].noise_state_poisoned,
        decreases plan.timeline@.len() - k,
    {
        assert(plan.timeline@[k as int].1 < notes@.len());
        let event: &NoteEvent = &notes[plan.timeline[k].1].event;
        let range: (usize, usize) = event.frame_range(states.len());
        let mut f: usize = range.0;
        while f < range.1
            invariant
                range.0 <= f <= range.1 <= states@.len(),
                k < plan.timeline@.len(),
                v < 3,
                v == plan.voice.0 - 1,
                *event == notes@[plan.timeline@[k as int].1 as int].event,
                (range.0 as int, range.1 as int) == event.frames_in(states@.len()),
                forall|g: int|
                    range.0 <= g < f ==> !(
                    #[trigger] states@[g]).digital_voices@[v as int].noise_state_poisoned,
            decreases range.1 - f,
        {
            if states[f].digital_voices[v].noise_state_poisoned {
                assert(super::tracks::sounds_at(
                    notes@[plan.timeline@[k as int].1 as int].event,
                    states@.len(),
                    f as int,
                ));
                return true;
            }
            f += 1;
        }
        k += 1;
    }
    false
}

} // verus!
